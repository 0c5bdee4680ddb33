//! Ruby recipes: install gems, or run specs, with Bundler.

use vstd::prelude::*;
use crate::error::Error;
use crate::job::{Invocation, Plan};
use crate::map::{OrdMap, assoc_insert};
use crate::runner::{
    concat2, concat3, invocation, invocation_is, key_spec, key_view, make_cache_key, merge_env,
    merged_env, single, status_invocation, status_invocation_is, tool_plan, tool_plan_is,
    workdir_path, workdir_spec,
};
use crate::text::sv;
use crate::types::{BuildContext, CacheKey, CacheStrategy, Recipe};

verus! {

/// Installs a Ruby project's gems with `bundle install`.
pub struct RubyBinRecipe {
    pub name: String,
    pub deps: Vec<String>,
    pub package: String,
    pub env: OrdMap<String>,
}

impl RubyBinRecipe {
    pub fn new(name: &str, package: &str) -> (r: Self)
        ensures
            r.name@ == name@,
            r.deps@.len() == 0,
            r.package@ == package@,
            r.env@.len() == 0,
    {
        RubyBinRecipe {
            name: name.to_owned(),
            deps: Vec::new(),
            package: package.to_owned(),
            env: OrdMap::new(),
        }
    }

    /// No input files are tracked.
    pub fn inputs(&self, ctx: &BuildContext) -> (r: Result<Vec<String>, Error>)
        ensures
            r matches Ok(v) && v@.len() == 0,
    {
        Ok(Vec::new())
    }

    /// No output files are tracked.
    pub fn outputs(&self, ctx: &BuildContext) -> (r: Result<Vec<String>, Error>)
        ensures
            r matches Ok(v) && v@.len() == 0,
    {
        Ok(Vec::new())
    }

    /// The cache key: the hash of name, type tag `ruby-bin`, the context env and the package.
    pub fn cache_key(&self, ctx: &BuildContext) -> (r: Result<CacheKey, Error>)
        ensures
            r matches Ok(k) && key_view(k) == key_spec(self.name@, "ruby-bin"@, *ctx, ctx.env@, ""@, seq![("package"@, self.package@)]),
    {
        Ok(self.key(ctx))
    }

    fn key(&self, ctx: &BuildContext) -> (k: CacheKey)
        ensures
            key_view(k) == key_spec(self.name@, "ruby-bin"@, *ctx, ctx.env@, ""@, seq![("package"@, self.package@)]),
    {
        let flags = single("package", self.package.clone());
        make_cache_key(self.name.as_str(), "ruby-bin", ctx, &ctx.env, "", &flags)
    }

    /// What executing the recipe does: look the key up in the cache, then in a dry run report `[dry-run] bundle install (in <package>)`; otherwise run `bundle install` in the package directory, storing the key after a successful build.
    pub fn plan(&self, ctx: &BuildContext) -> (p: Plan)
        ensures
            tool_plan_is(p, self.name@, *ctx, Some(key_spec(self.name@, "ruby-bin"@, *ctx, ctx.env@, ""@, seq![("package"@, self.package@)])), "[dry-run] bundle install (in "@ + self.package@ + ")"@),
            p.commands@.len() == 1,
            invocation_is(p.commands@[0], "bundle"@, seq!["install"@], workdir_spec(ctx.project_root@, self.package@), merge_env(ctx.env@, self.env@), "bundle"@, "Install Ruby and Bundler: https://www.ruby-lang.org/en/downloads/"@, "install"@),
    {
        let key = self.key(ctx);
        let text = concat3("[dry-run] bundle install (in ", self.package.as_str(), ")");
        let mut commands: Vec<Invocation> = Vec::new();
        let mut args0: Vec<String> = Vec::new();
        args0.push("install".to_owned());
        let ghost a0 = args0@;
        commands.push(invocation("bundle", args0, workdir_path(ctx, self.package.as_str()), ctx, &self.env, "bundle", "Install Ruby and Bundler: https://www.ruby-lang.org/en/downloads/", "install"));
        assert(sv(a0) =~= seq!["install"@]);
        tool_plan(self.name.as_str(), ctx, Some(key), text, commands)
    }
}

impl Recipe for RubyBinRecipe {
    fn name(&self) -> (r: &str)
        ensures
            r@ == self.name@,
    {
        self.name.as_str()
    }

    fn deps(&self) -> (r: &[String])
        ensures
            r@ == self.deps@,
    {
        self.deps.as_slice()
    }

    fn cache_strategy(&self) -> (r: CacheStrategy)
        ensures
            r == CacheStrategy::Hash,
    {
        CacheStrategy::Hash
    }
}

/// Runs a Ruby project's specs with `bundle exec rspec`.
pub struct RubyTestRecipe {
    pub name: String,
    pub deps: Vec<String>,
    pub package: String,
    pub env: OrdMap<String>,
}

impl RubyTestRecipe {
    pub fn new(name: &str, package: &str) -> (r: Self)
        ensures
            r.name@ == name@,
            r.deps@.len() == 0,
            r.package@ == package@,
            r.env@.len() == 0,
    {
        RubyTestRecipe {
            name: name.to_owned(),
            deps: Vec::new(),
            package: package.to_owned(),
            env: OrdMap::new(),
        }
    }

    /// No input files are tracked.
    pub fn inputs(&self, ctx: &BuildContext) -> (r: Result<Vec<String>, Error>)
        ensures
            r matches Ok(v) && v@.len() == 0,
    {
        Ok(Vec::new())
    }

    /// No output files are tracked.
    pub fn outputs(&self, ctx: &BuildContext) -> (r: Result<Vec<String>, Error>)
        ensures
            r matches Ok(v) && v@.len() == 0,
    {
        Ok(Vec::new())
    }

    /// The cache key: the hash of name, type tag `ruby-test`, the context env and the package.
    pub fn cache_key(&self, ctx: &BuildContext) -> (r: Result<CacheKey, Error>)
        ensures
            r matches Ok(k) && key_view(k) == key_spec(self.name@, "ruby-test"@, *ctx, ctx.env@, ""@, seq![("package"@, self.package@)]),
    {
        Ok(self.key(ctx))
    }

    fn key(&self, ctx: &BuildContext) -> (k: CacheKey)
        ensures
            key_view(k) == key_spec(self.name@, "ruby-test"@, *ctx, ctx.env@, ""@, seq![("package"@, self.package@)]),
    {
        let flags = single("package", self.package.clone());
        make_cache_key(self.name.as_str(), "ruby-test", ctx, &ctx.env, "", &flags)
    }

    /// What executing the recipe does: in a dry run report `[dry-run] bundle exec rspec (in <package>)`; otherwise run `bundle exec rspec` in the package directory.
    pub fn plan(&self, ctx: &BuildContext) -> (p: Plan)
        ensures
            tool_plan_is(p, self.name@, *ctx, None, "[dry-run] bundle exec rspec (in "@ + self.package@ + ")"@),
            p.commands@.len() == 1,
            invocation_is(p.commands@[0], "bundle"@, seq!["exec"@, "rspec"@], workdir_spec(ctx.project_root@, self.package@), merge_env(ctx.env@, self.env@), "bundle"@, "Install Ruby and Bundler: https://www.ruby-lang.org/en/downloads/"@, "exec"@),
    {
        let text = concat3("[dry-run] bundle exec rspec (in ", self.package.as_str(), ")");
        let mut commands: Vec<Invocation> = Vec::new();
        let mut args0: Vec<String> = Vec::new();
        args0.push("exec".to_owned());
        args0.push("rspec".to_owned());
        let ghost a0 = args0@;
        commands.push(invocation("bundle", args0, workdir_path(ctx, self.package.as_str()), ctx, &self.env, "bundle", "Install Ruby and Bundler: https://www.ruby-lang.org/en/downloads/", "exec"));
        assert(sv(a0) =~= seq!["exec"@, "rspec"@]);
        tool_plan(self.name.as_str(), ctx, None, text, commands)
    }
}

impl Recipe for RubyTestRecipe {
    fn name(&self) -> (r: &str)
        ensures
            r@ == self.name@,
    {
        self.name.as_str()
    }

    fn deps(&self) -> (r: &[String])
        ensures
            r@ == self.deps@,
    {
        self.deps.as_slice()
    }

    fn cache_strategy(&self) -> (r: CacheStrategy)
        ensures
            r == CacheStrategy::Never,
    {
        CacheStrategy::Never
    }
}
} // verus!
