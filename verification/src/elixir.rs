//! Elixir recipes: fetch deps and compile, or test, with `mix`.

use vstd::prelude::*;
use crate::error::Error;
use crate::job::{Invocation, Plan};
use crate::map::{OrdMap, assoc_insert};
use crate::runner::{
    concat2, concat3, invocation, invocation_is, key_spec, key_view, make_cache_key, merge_env,
    merged_env, single, status_invocation, status_invocation_is, tool_plan, tool_plan_is,
    workdir_path, workdir_spec,
};
use crate::text::sv;
use crate::types::{BuildContext, CacheKey, CacheStrategy, Recipe};

verus! {

/// Fetches deps and compiles a Mix project.
pub struct ElixirBuildRecipe {
    pub name: String,
    pub deps: Vec<String>,
    pub package: String,
    pub env: OrdMap<String>,
}

impl ElixirBuildRecipe {
    pub fn new(name: &str, package: &str) -> (r: Self)
        ensures
            r.name@ == name@,
            r.deps@.len() == 0,
            r.package@ == package@,
            r.env@.len() == 0,
    {
        ElixirBuildRecipe {
            name: name.to_owned(),
            deps: Vec::new(),
            package: package.to_owned(),
            env: OrdMap::new(),
        }
    }

    /// No input files are tracked.
    pub fn inputs(&self, ctx: &BuildContext) -> (r: Result<Vec<String>, Error>)
        ensures
            r matches Ok(v) && v@.len() == 0,
    {
        Ok(Vec::new())
    }

    /// No output files are tracked.
    pub fn outputs(&self, ctx: &BuildContext) -> (r: Result<Vec<String>, Error>)
        ensures
            r matches Ok(v) && v@.len() == 0,
    {
        Ok(Vec::new())
    }

    /// The cache key: the hash of name, type tag `elixir-build`, the context env and the package.
    pub fn cache_key(&self, ctx: &BuildContext) -> (r: Result<CacheKey, Error>)
        ensures
            r matches Ok(k) && key_view(k) == key_spec(self.name@, "elixir-build"@, *ctx, ctx.env@, ""@, seq![("package"@, self.package@)]),
    {
        Ok(self.key(ctx))
    }

    fn key(&self, ctx: &BuildContext) -> (k: CacheKey)
        ensures
            key_view(k) == key_spec(self.name@, "elixir-build"@, *ctx, ctx.env@, ""@, seq![("package"@, self.package@)]),
    {
        let flags = single("package", self.package.clone());
        make_cache_key(self.name.as_str(), "elixir-build", ctx, &ctx.env, "", &flags)
    }

    /// What executing the recipe does: look the key up in the cache, then in a dry run report `[dry-run] mix deps.get && mix compile (in <package>)`; otherwise run `mix deps.get` then `mix compile` in the package directory, storing the key after a successful build.
    pub fn plan(&self, ctx: &BuildContext) -> (p: Plan)
        ensures
            tool_plan_is(p, self.name@, *ctx, Some(key_spec(self.name@, "elixir-build"@, *ctx, ctx.env@, ""@, seq![("package"@, self.package@)])), "[dry-run] mix deps.get && mix compile (in "@ + self.package@ + ")"@),
            p.commands@.len() == 2,
            invocation_is(p.commands@[0], "mix"@, seq!["deps.get"@], workdir_spec(ctx.project_root@, self.package@), merge_env(ctx.env@, self.env@), "mix"@, "Install Elixir: https://elixir-lang.org/install.html"@, "deps.get"@),
            invocation_is(p.commands@[1], "mix"@, seq!["compile"@], workdir_spec(ctx.project_root@, self.package@), merge_env(ctx.env@, self.env@), "mix"@, "Install Elixir: https://elixir-lang.org/install.html"@, "compile"@),
    {
        let key = self.key(ctx);
        let text = concat3("[dry-run] mix deps.get && mix compile (in ", self.package.as_str(), ")");
        let mut commands: Vec<Invocation> = Vec::new();
        let mut args0: Vec<String> = Vec::new();
        args0.push("deps.get".to_owned());
        let ghost a0 = args0@;
        commands.push(invocation("mix", args0, workdir_path(ctx, self.package.as_str()), ctx, &self.env, "mix", "Install Elixir: https://elixir-lang.org/install.html", "deps.get"));
        assert(sv(a0) =~= seq!["deps.get"@]);
        let mut args1: Vec<String> = Vec::new();
        args1.push("compile".to_owned());
        let ghost a1 = args1@;
        commands.push(invocation("mix", args1, workdir_path(ctx, self.package.as_str()), ctx, &self.env, "mix", "Install Elixir: https://elixir-lang.org/install.html", "compile"));
        assert(sv(a1) =~= seq!["compile"@]);
        tool_plan(self.name.as_str(), ctx, Some(key), text, commands)
    }
}

impl Recipe for ElixirBuildRecipe {
    fn name(&self) -> (r: &str)
        ensures
            r@ == self.name@,
    {
        self.name.as_str()
    }

    fn deps(&self) -> (r: &[String])
        ensures
            r@ == self.deps@,
    {
        self.deps.as_slice()
    }

    fn cache_strategy(&self) -> (r: CacheStrategy)
        ensures
            r == CacheStrategy::Hash,
    {
        CacheStrategy::Hash
    }
}

/// Runs a Mix project's tests.
pub struct ElixirTestRecipe {
    pub name: String,
    pub deps: Vec<String>,
    pub package: String,
    pub env: OrdMap<String>,
}

impl ElixirTestRecipe {
    pub fn new(name: &str, package: &str) -> (r: Self)
        ensures
            r.name@ == name@,
            r.deps@.len() == 0,
            r.package@ == package@,
            r.env@.len() == 0,
    {
        ElixirTestRecipe {
            name: name.to_owned(),
            deps: Vec::new(),
            package: package.to_owned(),
            env: OrdMap::new(),
        }
    }

    /// No input files are tracked.
    pub fn inputs(&self, ctx: &BuildContext) -> (r: Result<Vec<String>, Error>)
        ensures
            r matches Ok(v) && v@.len() == 0,
    {
        Ok(Vec::new())
    }

    /// No output files are tracked.
    pub fn outputs(&self, ctx: &BuildContext) -> (r: Result<Vec<String>, Error>)
        ensures
            r matches Ok(v) && v@.len() == 0,
    {
        Ok(Vec::new())
    }

    /// The cache key: the hash of name, type tag `elixir-test`, the context env and the package.
    pub fn cache_key(&self, ctx: &BuildContext) -> (r: Result<CacheKey, Error>)
        ensures
            r matches Ok(k) && key_view(k) == key_spec(self.name@, "elixir-test"@, *ctx, ctx.env@, ""@, seq![("package"@, self.package@)]),
    {
        Ok(self.key(ctx))
    }

    fn key(&self, ctx: &BuildContext) -> (k: CacheKey)
        ensures
            key_view(k) == key_spec(self.name@, "elixir-test"@, *ctx, ctx.env@, ""@, seq![("package"@, self.package@)]),
    {
        let flags = single("package", self.package.clone());
        make_cache_key(self.name.as_str(), "elixir-test", ctx, &ctx.env, "", &flags)
    }

    /// What executing the recipe does: in a dry run report `[dry-run] mix test (in <package>)`; otherwise run `mix test` in the package directory.
    pub fn plan(&self, ctx: &BuildContext) -> (p: Plan)
        ensures
            tool_plan_is(p, self.name@, *ctx, None, "[dry-run] mix test (in "@ + self.package@ + ")"@),
            p.commands@.len() == 1,
            invocation_is(p.commands@[0], "mix"@, seq!["test"@], workdir_spec(ctx.project_root@, self.package@), merge_env(ctx.env@, self.env@), "mix"@, "Install Elixir: https://elixir-lang.org/install.html"@, "test"@),
    {
        let text = concat3("[dry-run] mix test (in ", self.package.as_str(), ")");
        let mut commands: Vec<Invocation> = Vec::new();
        let mut args0: Vec<String> = Vec::new();
        args0.push("test".to_owned());
        let ghost a0 = args0@;
        commands.push(invocation("mix", args0, workdir_path(ctx, self.package.as_str()), ctx, &self.env, "mix", "Install Elixir: https://elixir-lang.org/install.html", "test"));
        assert(sv(a0) =~= seq!["test"@]);
        tool_plan(self.name.as_str(), ctx, None, text, commands)
    }
}

impl Recipe for ElixirTestRecipe {
    fn name(&self) -> (r: &str)
        ensures
            r@ == self.name@,
    {
        self.name.as_str()
    }

    fn deps(&self) -> (r: &[String])
        ensures
            r@ == self.deps@,
    {
        self.deps.as_slice()
    }

    fn cache_strategy(&self) -> (r: CacheStrategy)
        ensures
            r == CacheStrategy::Never,
    {
        CacheStrategy::Never
    }
}
} // verus!
