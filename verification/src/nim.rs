//! Nim recipes: compile in release mode, or run a test file.

use vstd::prelude::*;
use crate::error::Error;
use crate::job::{Invocation, Plan};
use crate::map::{OrdMap, assoc_insert};
use crate::runner::{
    concat2, concat3, invocation, invocation_is, key_spec, key_view, make_cache_key, merge_env,
    merged_env, single, status_invocation, status_invocation_is, tool_plan, tool_plan_is,
    workdir_path, workdir_spec,
};
use crate::text::sv;
use crate::types::{BuildContext, CacheKey, CacheStrategy, Recipe};

verus! {

/// Compiles a Nim program with `nim c -d:release`.
pub struct NimBinRecipe {
    pub name: String,
    pub deps: Vec<String>,
    pub package: String,
    pub env: OrdMap<String>,
}

impl NimBinRecipe {
    pub fn new(name: &str, package: &str) -> (r: Self)
        ensures
            r.name@ == name@,
            r.deps@.len() == 0,
            r.package@ == package@,
            r.env@.len() == 0,
    {
        NimBinRecipe {
            name: name.to_owned(),
            deps: Vec::new(),
            package: package.to_owned(),
            env: OrdMap::new(),
        }
    }

    /// No input files are tracked.
    pub fn inputs(&self, ctx: &BuildContext) -> (r: Result<Vec<String>, Error>)
        ensures
            r matches Ok(v) && v@.len() == 0,
    {
        Ok(Vec::new())
    }

    /// No output files are tracked.
    pub fn outputs(&self, ctx: &BuildContext) -> (r: Result<Vec<String>, Error>)
        ensures
            r matches Ok(v) && v@.len() == 0,
    {
        Ok(Vec::new())
    }

    /// The cache key: the hash of name, type tag `nim-bin`, the context env with the recipe env over it and the package and the nim version.
    pub fn cache_key(&self, ctx: &BuildContext, nim_version: &str) -> (r: Result<CacheKey, Error>)
        ensures
            r matches Ok(k) && key_view(k) == key_spec(self.name@, "nim-bin"@, *ctx, merge_env(ctx.env@, self.env@), ""@, assoc_insert(seq![("package"@, self.package@)], "nim_version"@, nim_version@)),
    {
        Ok(self.key(ctx, nim_version))
    }

    fn key(&self, ctx: &BuildContext, nim_version: &str) -> (k: CacheKey)
        ensures
            key_view(k) == key_spec(self.name@, "nim-bin"@, *ctx, merge_env(ctx.env@, self.env@), ""@, assoc_insert(seq![("package"@, self.package@)], "nim_version"@, nim_version@)),
    {
        let mut flags = single("package", self.package.clone());
        flags.insert("nim_version".to_owned(), nim_version.to_owned());
        let env = merged_env(&ctx.env, &self.env);
        make_cache_key(self.name.as_str(), "nim-bin", ctx, &env, "", &flags)
    }

    /// What executing the recipe does: look the key up in the cache, then in a dry run report `[dry-run] nim c -d:release <package>`; otherwise run `nim c -d:release <package>` in the project root, storing the key after a successful build.
    pub fn plan(&self, ctx: &BuildContext, nim_version: &str) -> (p: Plan)
        ensures
            tool_plan_is(p, self.name@, *ctx, Some(key_spec(self.name@, "nim-bin"@, *ctx, merge_env(ctx.env@, self.env@), ""@, assoc_insert(seq![("package"@, self.package@)], "nim_version"@, nim_version@))), "[dry-run] nim c -d:release "@ + self.package@),
            p.commands@.len() == 1,
            invocation_is(p.commands@[0], "nim"@, seq!["c"@, "-d:release"@, self.package@], ctx.project_root@, merge_env(ctx.env@, self.env@), "nim"@, "Install Nim: https://nim-lang.org/install.html"@, "c"@),
    {
        let key = self.key(ctx, nim_version);
        let text = concat2("[dry-run] nim c -d:release ", self.package.as_str());
        let mut commands: Vec<Invocation> = Vec::new();
        let mut args0: Vec<String> = Vec::new();
        args0.push("c".to_owned());
        args0.push("-d:release".to_owned());
        args0.push(self.package.clone());
        let ghost a0 = args0@;
        commands.push(invocation("nim", args0, ctx.project_root.clone(), ctx, &self.env, "nim", "Install Nim: https://nim-lang.org/install.html", "c"));
        assert(sv(a0) =~= seq!["c"@, "-d:release"@, self.package@]);
        tool_plan(self.name.as_str(), ctx, Some(key), text, commands)
    }
}

impl Recipe for NimBinRecipe {
    fn name(&self) -> (r: &str)
        ensures
            r@ == self.name@,
    {
        self.name.as_str()
    }

    fn deps(&self) -> (r: &[String])
        ensures
            r@ == self.deps@,
    {
        self.deps.as_slice()
    }

    fn cache_strategy(&self) -> (r: CacheStrategy)
        ensures
            r == CacheStrategy::Hash,
    {
        CacheStrategy::Hash
    }
}

/// Runs a Nim test file with `nim r --hints:off`.
pub struct NimTestRecipe {
    pub name: String,
    pub deps: Vec<String>,
    pub package: String,
    pub env: OrdMap<String>,
}

impl NimTestRecipe {
    pub fn new(name: &str, package: &str) -> (r: Self)
        ensures
            r.name@ == name@,
            r.deps@.len() == 0,
            r.package@ == package@,
            r.env@.len() == 0,
    {
        NimTestRecipe {
            name: name.to_owned(),
            deps: Vec::new(),
            package: package.to_owned(),
            env: OrdMap::new(),
        }
    }

    /// No input files are tracked.
    pub fn inputs(&self, ctx: &BuildContext) -> (r: Result<Vec<String>, Error>)
        ensures
            r matches Ok(v) && v@.len() == 0,
    {
        Ok(Vec::new())
    }

    /// No output files are tracked.
    pub fn outputs(&self, ctx: &BuildContext) -> (r: Result<Vec<String>, Error>)
        ensures
            r matches Ok(v) && v@.len() == 0,
    {
        Ok(Vec::new())
    }

    /// The cache key: the hash of name, type tag `nim-test`, the context env with the recipe env over it and the package.
    pub fn cache_key(&self, ctx: &BuildContext) -> (r: Result<CacheKey, Error>)
        ensures
            r matches Ok(k) && key_view(k) == key_spec(self.name@, "nim-test"@, *ctx, merge_env(ctx.env@, self.env@), ""@, seq![("package"@, self.package@)]),
    {
        Ok(self.key(ctx))
    }

    fn key(&self, ctx: &BuildContext) -> (k: CacheKey)
        ensures
            key_view(k) == key_spec(self.name@, "nim-test"@, *ctx, merge_env(ctx.env@, self.env@), ""@, seq![("package"@, self.package@)]),
    {
        let flags = single("package", self.package.clone());
        let env = merged_env(&ctx.env, &self.env);
        make_cache_key(self.name.as_str(), "nim-test", ctx, &env, "", &flags)
    }

    /// What executing the recipe does: in a dry run report `[dry-run] nim r --hints:off <package>`; otherwise run `nim r --hints:off <package>` in the project root.
    pub fn plan(&self, ctx: &BuildContext) -> (p: Plan)
        ensures
            tool_plan_is(p, self.name@, *ctx, None, "[dry-run] nim r --hints:off "@ + self.package@),
            p.commands@.len() == 1,
            invocation_is(p.commands@[0], "nim"@, seq!["r"@, "--hints:off"@, self.package@], ctx.project_root@, merge_env(ctx.env@, self.env@), "nim"@, "Install Nim: https://nim-lang.org/install.html"@, "r"@),
    {
        let text = concat2("[dry-run] nim r --hints:off ", self.package.as_str());
        let mut commands: Vec<Invocation> = Vec::new();
        let mut args0: Vec<String> = Vec::new();
        args0.push("r".to_owned());
        args0.push("--hints:off".to_owned());
        args0.push(self.package.clone());
        let ghost a0 = args0@;
        commands.push(invocation("nim", args0, ctx.project_root.clone(), ctx, &self.env, "nim", "Install Nim: https://nim-lang.org/install.html", "r"));
        assert(sv(a0) =~= seq!["r"@, "--hints:off"@, self.package@]);
        tool_plan(self.name.as_str(), ctx, None, text, commands)
    }
}

impl Recipe for NimTestRecipe {
    fn name(&self) -> (r: &str)
        ensures
            r@ == self.name@,
    {
        self.name.as_str()
    }

    fn deps(&self) -> (r: &[String])
        ensures
            r@ == self.deps@,
    {
        self.deps.as_slice()
    }

    fn cache_strategy(&self) -> (r: CacheStrategy)
        ensures
            r == CacheStrategy::Never,
    {
        CacheStrategy::Never
    }
}
} // verus!
