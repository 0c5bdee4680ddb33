//! TypeScript recipes: compile or type-check with tsc, lint with biome.

use vstd::prelude::*;
use crate::error::Error;
use crate::job::{Invocation, Plan};
use crate::map::{OrdMap, assoc_insert};
use crate::runner::{
    concat2, concat3, invocation, invocation_is, key_spec, key_view, make_cache_key, merge_env,
    merged_env, single, status_invocation, status_invocation_is, tool_plan, tool_plan_is,
    workdir_path, workdir_spec,
};
use crate::text::{chars_of, extend_str, string_of, sv};
use crate::types::{BuildContext, CacheKey, CacheStrategy, Recipe};

verus! {

/// Compiles a TypeScript project with `tsc --project`.
pub struct TsBinRecipe {
    pub name: String,
    pub deps: Vec<String>,
    pub package: String,
    pub env: OrdMap<String>,
}

impl TsBinRecipe {
    pub fn new(name: &str, package: &str) -> (r: Self)
        ensures
            r.name@ == name@,
            r.deps@.len() == 0,
            r.package@ == package@,
            r.env@.len() == 0,
    {
        TsBinRecipe {
            name: name.to_owned(),
            deps: Vec::new(),
            package: package.to_owned(),
            env: OrdMap::new(),
        }
    }

    /// No input files are tracked.
    pub fn inputs(&self, ctx: &BuildContext) -> (r: Result<Vec<String>, Error>)
        ensures
            r matches Ok(v) && v@.len() == 0,
    {
        Ok(Vec::new())
    }

    /// No output files are tracked.
    pub fn outputs(&self, ctx: &BuildContext) -> (r: Result<Vec<String>, Error>)
        ensures
            r matches Ok(v) && v@.len() == 0,
    {
        Ok(Vec::new())
    }

    /// The cache key: the hash of name, type tag `ts-bin`, the context env and the package.
    pub fn cache_key(&self, ctx: &BuildContext) -> (r: Result<CacheKey, Error>)
        ensures
            r matches Ok(k) && key_view(k) == key_spec(self.name@, "ts-bin"@, *ctx, ctx.env@, ""@, seq![("package"@, self.package@)]),
    {
        Ok(self.key(ctx))
    }

    fn key(&self, ctx: &BuildContext) -> (k: CacheKey)
        ensures
            key_view(k) == key_spec(self.name@, "ts-bin"@, *ctx, ctx.env@, ""@, seq![("package"@, self.package@)]),
    {
        let flags = single("package", self.package.clone());
        make_cache_key(self.name.as_str(), "ts-bin", ctx, &ctx.env, "", &flags)
    }

    /// What executing the recipe does: look the key up in the cache, then in a dry run report `[dry-run] tsc --project <package>`; otherwise run `tsc --project <package>` in the project root, storing the key after a successful build.
    pub fn plan(&self, ctx: &BuildContext) -> (p: Plan)
        ensures
            tool_plan_is(p, self.name@, *ctx, Some(key_spec(self.name@, "ts-bin"@, *ctx, ctx.env@, ""@, seq![("package"@, self.package@)])), "[dry-run] tsc --project "@ + self.package@),
            p.commands@.len() == 1,
            status_invocation_is(p.commands@[0], "tsc"@, seq!["--project"@, self.package@], ctx.project_root@, merge_env(ctx.env@, self.env@), "tsc"@, "Install Node.js: https://nodejs.org"@, "tsc"@),
    {
        let key = self.key(ctx);
        let text = concat2("[dry-run] tsc --project ", self.package.as_str());
        let mut commands: Vec<Invocation> = Vec::new();
        let mut args0: Vec<String> = Vec::new();
        args0.push("--project".to_owned());
        args0.push(self.package.clone());
        let ghost a0 = args0@;
        commands.push(status_invocation("tsc", args0, ctx.project_root.clone(), ctx, &self.env, "tsc", "Install Node.js: https://nodejs.org", "tsc"));
        assert(sv(a0) =~= seq!["--project"@, self.package@]);
        tool_plan(self.name.as_str(), ctx, Some(key), text, commands)
    }
}

impl Recipe for TsBinRecipe {
    fn name(&self) -> (r: &str)
        ensures
            r@ == self.name@,
    {
        self.name.as_str()
    }

    fn deps(&self) -> (r: &[String])
        ensures
            r@ == self.deps@,
    {
        self.deps.as_slice()
    }

    fn cache_strategy(&self) -> (r: CacheStrategy)
        ensures
            r == CacheStrategy::Hash,
    {
        CacheStrategy::Hash
    }
}

/// Type-checks a TypeScript project with `tsc --noEmit`.
pub struct TsCheckRecipe {
    pub name: String,
    pub deps: Vec<String>,
    pub package: String,
    pub env: OrdMap<String>,
}

impl TsCheckRecipe {
    pub fn new(name: &str, package: &str) -> (r: Self)
        ensures
            r.name@ == name@,
            r.deps@.len() == 0,
            r.package@ == package@,
            r.env@.len() == 0,
    {
        TsCheckRecipe {
            name: name.to_owned(),
            deps: Vec::new(),
            package: package.to_owned(),
            env: OrdMap::new(),
        }
    }

    /// No input files are tracked.
    pub fn inputs(&self, ctx: &BuildContext) -> (r: Result<Vec<String>, Error>)
        ensures
            r matches Ok(v) && v@.len() == 0,
    {
        Ok(Vec::new())
    }

    /// No output files are tracked.
    pub fn outputs(&self, ctx: &BuildContext) -> (r: Result<Vec<String>, Error>)
        ensures
            r matches Ok(v) && v@.len() == 0,
    {
        Ok(Vec::new())
    }

    /// The cache key: the hash of name, type tag `ts-check`, the context env and the package.
    pub fn cache_key(&self, ctx: &BuildContext) -> (r: Result<CacheKey, Error>)
        ensures
            r matches Ok(k) && key_view(k) == key_spec(self.name@, "ts-check"@, *ctx, ctx.env@, ""@, seq![("package"@, self.package@)]),
    {
        Ok(self.key(ctx))
    }

    fn key(&self, ctx: &BuildContext) -> (k: CacheKey)
        ensures
            key_view(k) == key_spec(self.name@, "ts-check"@, *ctx, ctx.env@, ""@, seq![("package"@, self.package@)]),
    {
        let flags = single("package", self.package.clone());
        make_cache_key(self.name.as_str(), "ts-check", ctx, &ctx.env, "", &flags)
    }

    /// What executing the recipe does: in a dry run report `[dry-run] tsc --noEmit --project <package>`; otherwise run `tsc --noEmit --project <package>` in the project root.
    pub fn plan(&self, ctx: &BuildContext) -> (p: Plan)
        ensures
            tool_plan_is(p, self.name@, *ctx, None, "[dry-run] tsc --noEmit --project "@ + self.package@),
            p.commands@.len() == 1,
            status_invocation_is(p.commands@[0], "tsc"@, seq!["--noEmit"@, "--project"@, self.package@], ctx.project_root@, merge_env(ctx.env@, self.env@), "tsc"@, "Install Node.js: https://nodejs.org"@, "tsc"@),
    {
        let text = concat2("[dry-run] tsc --noEmit --project ", self.package.as_str());
        let mut commands: Vec<Invocation> = Vec::new();
        let mut args0: Vec<String> = Vec::new();
        args0.push("--noEmit".to_owned());
        args0.push("--project".to_owned());
        args0.push(self.package.clone());
        let ghost a0 = args0@;
        commands.push(status_invocation("tsc", args0, ctx.project_root.clone(), ctx, &self.env, "tsc", "Install Node.js: https://nodejs.org", "tsc"));
        assert(sv(a0) =~= seq!["--noEmit"@, "--project"@, self.package@]);
        tool_plan(self.name.as_str(), ctx, None, text, commands)
    }
}

impl Recipe for TsCheckRecipe {
    fn name(&self) -> (r: &str)
        ensures
            r@ == self.name@,
    {
        self.name.as_str()
    }

    fn deps(&self) -> (r: &[String])
        ensures
            r@ == self.deps@,
    {
        self.deps.as_slice()
    }

    fn cache_strategy(&self) -> (r: CacheStrategy)
        ensures
            r == CacheStrategy::Never,
    {
        CacheStrategy::Never
    }
}

/// Lints a TypeScript project with `biome check`.
pub struct TsLintRecipe {
    pub name: String,
    pub deps: Vec<String>,
    pub package: String,
    pub env: OrdMap<String>,
}

impl TsLintRecipe {
    pub fn new(name: &str, package: &str) -> (r: Self)
        ensures
            r.name@ == name@,
            r.deps@.len() == 0,
            r.package@ == package@,
            r.env@.len() == 0,
    {
        TsLintRecipe {
            name: name.to_owned(),
            deps: Vec::new(),
            package: package.to_owned(),
            env: OrdMap::new(),
        }
    }

    /// No input files are tracked.
    pub fn inputs(&self, ctx: &BuildContext) -> (r: Result<Vec<String>, Error>)
        ensures
            r matches Ok(v) && v@.len() == 0,
    {
        Ok(Vec::new())
    }

    /// No output files are tracked.
    pub fn outputs(&self, ctx: &BuildContext) -> (r: Result<Vec<String>, Error>)
        ensures
            r matches Ok(v) && v@.len() == 0,
    {
        Ok(Vec::new())
    }

    /// The cache key: the hash of name, type tag `ts-lint`, the context env and the package.
    pub fn cache_key(&self, ctx: &BuildContext) -> (r: Result<CacheKey, Error>)
        ensures
            r matches Ok(k) && key_view(k) == key_spec(self.name@, "ts-lint"@, *ctx, ctx.env@, ""@, seq![("package"@, self.package@)]),
    {
        Ok(self.key(ctx))
    }

    fn key(&self, ctx: &BuildContext) -> (k: CacheKey)
        ensures
            key_view(k) == key_spec(self.name@, "ts-lint"@, *ctx, ctx.env@, ""@, seq![("package"@, self.package@)]),
    {
        let flags = single("package", self.package.clone());
        make_cache_key(self.name.as_str(), "ts-lint", ctx, &ctx.env, "", &flags)
    }

    /// What executing the recipe does: in a dry run report `[dry-run] biome check <package>`; otherwise run `biome check <package>` in the project root.
    pub fn plan(&self, ctx: &BuildContext) -> (p: Plan)
        ensures
            tool_plan_is(p, self.name@, *ctx, None, "[dry-run] biome check "@ + self.package@),
            p.commands@.len() == 1,
            status_invocation_is(p.commands@[0], "biome"@, seq!["check"@, self.package@], ctx.project_root@, merge_env(ctx.env@, self.env@), "biome"@, "Install Node.js: https://nodejs.org"@, "biome"@),
    {
        let text = concat2("[dry-run] biome check ", self.package.as_str());
        let mut commands: Vec<Invocation> = Vec::new();
        let mut args0: Vec<String> = Vec::new();
        args0.push("check".to_owned());
        args0.push(self.package.clone());
        let ghost a0 = args0@;
        commands.push(status_invocation("biome", args0, ctx.project_root.clone(), ctx, &self.env, "biome", "Install Node.js: https://nodejs.org", "biome"));
        assert(sv(a0) =~= seq!["check"@, self.package@]);
        tool_plan(self.name.as_str(), ctx, None, text, commands)
    }
}

impl Recipe for TsLintRecipe {
    fn name(&self) -> (r: &str)
        ensures
            r@ == self.name@,
    {
        self.name.as_str()
    }

    fn deps(&self) -> (r: &[String])
        ensures
            r@ == self.deps@,
    {
        self.deps.as_slice()
    }

    fn cache_strategy(&self) -> (r: CacheStrategy)
        ensures
            r == CacheStrategy::Never,
    {
        CacheStrategy::Never
    }
}
/// Runs an npm script.
pub struct NpmRecipe {
    pub name: String,
    pub deps: Vec<String>,
    pub npm_script: String,
    /// Directory under the project root to run in (`.` for the root).
    pub workdir: String,
    pub env: OrdMap<String>,
}

impl NpmRecipe {
    pub fn new(name: &str, npm_script: &str) -> (r: Self)
        ensures
            r.name@ == name@,
            r.deps@.len() == 0,
            r.npm_script@ == npm_script@,
            r.workdir@ == "."@,
            r.env@.len() == 0,
    {
        NpmRecipe {
            name: name.to_owned(),
            deps: Vec::new(),
            npm_script: npm_script.to_owned(),
            workdir: ".".to_owned(),
            env: OrdMap::new(),
        }
    }

    /// No input files are tracked.
    pub fn inputs(&self, ctx: &BuildContext) -> (r: Result<Vec<String>, Error>)
        ensures
            r matches Ok(v) && v@.len() == 0,
    {
        Ok(Vec::new())
    }

    /// No output files are tracked.
    pub fn outputs(&self, ctx: &BuildContext) -> (r: Result<Vec<String>, Error>)
        ensures
            r matches Ok(v) && v@.len() == 0,
    {
        Ok(Vec::new())
    }

    /// The cache key: name, type tag `npm`, context env, script and
    /// directory.
    pub fn cache_key(&self, ctx: &BuildContext) -> (r: Result<CacheKey, Error>)
        ensures
            r matches Ok(k) && key_view(k) == key_spec(
                self.name@,
                "npm"@,
                *ctx,
                ctx.env@,
                ""@,
                assoc_insert(seq![("npm_script"@, self.npm_script@)], "workdir"@, self.workdir@),
            ),
    {
        let mut flags = single("npm_script", self.npm_script.clone());
        flags.insert("workdir".to_owned(), self.workdir.clone());
        Ok(make_cache_key(self.name.as_str(), "npm", ctx, &ctx.env, "", &flags))
    }

    /// What executing the recipe does: in a dry run report the script;
    /// otherwise run `npm run <script>` in the recipe's directory.
    pub fn plan(&self, ctx: &BuildContext) -> (p: Plan)
        ensures
            tool_plan_is(
                p,
                self.name@,
                *ctx,
                None,
                "[dry-run] npm run "@ + self.npm_script@ + " (in "@ + self.workdir@ + ")"@,
            ),
            p.commands@.len() == 1,
            status_invocation_is(
                p.commands@[0],
                "npm"@,
                seq!["run"@, self.npm_script@],
                workdir_spec(ctx.project_root@, self.workdir@),
                merge_env(ctx.env@, self.env@),
                "npm"@,
                "Install Node.js: https://nodejs.org"@,
                "npm"@,
            ),
    {
        let mut t = chars_of("[dry-run] npm run ");
        extend_str(&mut t, self.npm_script.as_str());
        extend_str(&mut t, " (in ");
        extend_str(&mut t, self.workdir.as_str());
        extend_str(&mut t, ")");
        let text = string_of(&t);
        let mut args: Vec<String> = Vec::new();
        args.push("run".to_owned());
        args.push(self.npm_script.clone());
        let ghost a = args@;
        assert(sv(a) =~= seq!["run"@, self.npm_script@]);
        let mut commands: Vec<Invocation> = Vec::new();
        commands.push(
            status_invocation(
                "npm",
                args,
                workdir_path(ctx, self.workdir.as_str()),
                ctx,
                &self.env,
                "npm",
                "Install Node.js: https://nodejs.org",
                "npm",
            ),
        );
        tool_plan(self.name.as_str(), ctx, None, text, commands)
    }
}

impl Recipe for NpmRecipe {
    fn name(&self) -> (r: &str)
        ensures
            r@ == self.name@,
    {
        self.name.as_str()
    }

    fn deps(&self) -> (r: &[String])
        ensures
            r@ == self.deps@,
    {
        self.deps.as_slice()
    }

    fn cache_strategy(&self) -> (r: CacheStrategy)
        ensures
            r == CacheStrategy::Never,
    {
        CacheStrategy::Never
    }
}

} // verus!
