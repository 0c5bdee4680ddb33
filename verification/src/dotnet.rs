//! .NET recipes: build, test and publish with the `dotnet` CLI.

use vstd::prelude::*;
use crate::error::Error;
use crate::job::{Invocation, Plan};
use crate::map::{OrdMap, assoc_insert};
use crate::runner::{
    concat2, concat3, invocation, invocation_is, key_spec, key_view, make_cache_key, merge_env,
    merged_env, single, status_invocation, status_invocation_is, tool_plan, tool_plan_is,
    workdir_path, workdir_spec,
};
use crate::text::sv;
use crate::types::{BuildContext, CacheKey, CacheStrategy, Recipe};

verus! {

/// Builds a .NET project with `dotnet build`.
pub struct DotnetBuildRecipe {
    pub name: String,
    pub deps: Vec<String>,
    pub package: String,
    pub env: OrdMap<String>,
}

impl DotnetBuildRecipe {
    pub fn new(name: &str, package: &str) -> (r: Self)
        ensures
            r.name@ == name@,
            r.deps@.len() == 0,
            r.package@ == package@,
            r.env@.len() == 0,
    {
        DotnetBuildRecipe {
            name: name.to_owned(),
            deps: Vec::new(),
            package: package.to_owned(),
            env: OrdMap::new(),
        }
    }

    /// No input files are tracked.
    pub fn inputs(&self, ctx: &BuildContext) -> (r: Result<Vec<String>, Error>)
        ensures
            r matches Ok(v) && v@.len() == 0,
    {
        Ok(Vec::new())
    }

    /// No output files are tracked.
    pub fn outputs(&self, ctx: &BuildContext) -> (r: Result<Vec<String>, Error>)
        ensures
            r matches Ok(v) && v@.len() == 0,
    {
        Ok(Vec::new())
    }

    /// The cache key: the hash of name, type tag `dotnet-build`, the context env and the package.
    pub fn cache_key(&self, ctx: &BuildContext) -> (r: Result<CacheKey, Error>)
        ensures
            r matches Ok(k) && key_view(k) == key_spec(self.name@, "dotnet-build"@, *ctx, ctx.env@, ""@, seq![("package"@, self.package@)]),
    {
        Ok(self.key(ctx))
    }

    fn key(&self, ctx: &BuildContext) -> (k: CacheKey)
        ensures
            key_view(k) == key_spec(self.name@, "dotnet-build"@, *ctx, ctx.env@, ""@, seq![("package"@, self.package@)]),
    {
        let flags = single("package", self.package.clone());
        make_cache_key(self.name.as_str(), "dotnet-build", ctx, &ctx.env, "", &flags)
    }

    /// What executing the recipe does: look the key up in the cache, then in a dry run report `[dry-run] dotnet build <package>`; otherwise run `dotnet build <package>` in the project root, storing the key after a successful build.
    pub fn plan(&self, ctx: &BuildContext) -> (p: Plan)
        ensures
            tool_plan_is(p, self.name@, *ctx, Some(key_spec(self.name@, "dotnet-build"@, *ctx, ctx.env@, ""@, seq![("package"@, self.package@)])), "[dry-run] dotnet build "@ + self.package@),
            p.commands@.len() == 1,
            invocation_is(p.commands@[0], "dotnet"@, seq!["build"@, self.package@], ctx.project_root@, merge_env(ctx.env@, self.env@), "dotnet"@, "Install .NET SDK: https://dotnet.microsoft.com/download"@, "build"@),
    {
        let key = self.key(ctx);
        let text = concat2("[dry-run] dotnet build ", self.package.as_str());
        let mut commands: Vec<Invocation> = Vec::new();
        let mut args0: Vec<String> = Vec::new();
        args0.push("build".to_owned());
        args0.push(self.package.clone());
        let ghost a0 = args0@;
        commands.push(invocation("dotnet", args0, ctx.project_root.clone(), ctx, &self.env, "dotnet", "Install .NET SDK: https://dotnet.microsoft.com/download", "build"));
        assert(sv(a0) =~= seq!["build"@, self.package@]);
        tool_plan(self.name.as_str(), ctx, Some(key), text, commands)
    }
}

impl Recipe for DotnetBuildRecipe {
    fn name(&self) -> (r: &str)
        ensures
            r@ == self.name@,
    {
        self.name.as_str()
    }

    fn deps(&self) -> (r: &[String])
        ensures
            r@ == self.deps@,
    {
        self.deps.as_slice()
    }

    fn cache_strategy(&self) -> (r: CacheStrategy)
        ensures
            r == CacheStrategy::Hash,
    {
        CacheStrategy::Hash
    }
}

/// Runs a .NET test project with `dotnet test`.
pub struct DotnetTestRecipe {
    pub name: String,
    pub deps: Vec<String>,
    pub package: String,
    pub env: OrdMap<String>,
}

impl DotnetTestRecipe {
    pub fn new(name: &str, package: &str) -> (r: Self)
        ensures
            r.name@ == name@,
            r.deps@.len() == 0,
            r.package@ == package@,
            r.env@.len() == 0,
    {
        DotnetTestRecipe {
            name: name.to_owned(),
            deps: Vec::new(),
            package: package.to_owned(),
            env: OrdMap::new(),
        }
    }

    /// No input files are tracked.
    pub fn inputs(&self, ctx: &BuildContext) -> (r: Result<Vec<String>, Error>)
        ensures
            r matches Ok(v) && v@.len() == 0,
    {
        Ok(Vec::new())
    }

    /// No output files are tracked.
    pub fn outputs(&self, ctx: &BuildContext) -> (r: Result<Vec<String>, Error>)
        ensures
            r matches Ok(v) && v@.len() == 0,
    {
        Ok(Vec::new())
    }

    /// The cache key: the hash of name, type tag `dotnet-test`, the context env and the package.
    pub fn cache_key(&self, ctx: &BuildContext) -> (r: Result<CacheKey, Error>)
        ensures
            r matches Ok(k) && key_view(k) == key_spec(self.name@, "dotnet-test"@, *ctx, ctx.env@, ""@, seq![("package"@, self.package@)]),
    {
        Ok(self.key(ctx))
    }

    fn key(&self, ctx: &BuildContext) -> (k: CacheKey)
        ensures
            key_view(k) == key_spec(self.name@, "dotnet-test"@, *ctx, ctx.env@, ""@, seq![("package"@, self.package@)]),
    {
        let flags = single("package", self.package.clone());
        make_cache_key(self.name.as_str(), "dotnet-test", ctx, &ctx.env, "", &flags)
    }

    /// What executing the recipe does: in a dry run report `[dry-run] dotnet test <package>`; otherwise run `dotnet test <package>` in the project root.
    pub fn plan(&self, ctx: &BuildContext) -> (p: Plan)
        ensures
            tool_plan_is(p, self.name@, *ctx, None, "[dry-run] dotnet test "@ + self.package@),
            p.commands@.len() == 1,
            invocation_is(p.commands@[0], "dotnet"@, seq!["test"@, self.package@], ctx.project_root@, merge_env(ctx.env@, self.env@), "dotnet"@, "Install .NET SDK: https://dotnet.microsoft.com/download"@, "test"@),
    {
        let text = concat2("[dry-run] dotnet test ", self.package.as_str());
        let mut commands: Vec<Invocation> = Vec::new();
        let mut args0: Vec<String> = Vec::new();
        args0.push("test".to_owned());
        args0.push(self.package.clone());
        let ghost a0 = args0@;
        commands.push(invocation("dotnet", args0, ctx.project_root.clone(), ctx, &self.env, "dotnet", "Install .NET SDK: https://dotnet.microsoft.com/download", "test"));
        assert(sv(a0) =~= seq!["test"@, self.package@]);
        tool_plan(self.name.as_str(), ctx, None, text, commands)
    }
}

impl Recipe for DotnetTestRecipe {
    fn name(&self) -> (r: &str)
        ensures
            r@ == self.name@,
    {
        self.name.as_str()
    }

    fn deps(&self) -> (r: &[String])
        ensures
            r@ == self.deps@,
    {
        self.deps.as_slice()
    }

    fn cache_strategy(&self) -> (r: CacheStrategy)
        ensures
            r == CacheStrategy::Never,
    {
        CacheStrategy::Never
    }
}

/// Publishes a .NET project in Release configuration.
pub struct DotnetPublishRecipe {
    pub name: String,
    pub deps: Vec<String>,
    pub package: String,
    pub env: OrdMap<String>,
}

impl DotnetPublishRecipe {
    pub fn new(name: &str, package: &str) -> (r: Self)
        ensures
            r.name@ == name@,
            r.deps@.len() == 0,
            r.package@ == package@,
            r.env@.len() == 0,
    {
        DotnetPublishRecipe {
            name: name.to_owned(),
            deps: Vec::new(),
            package: package.to_owned(),
            env: OrdMap::new(),
        }
    }

    /// No input files are tracked.
    pub fn inputs(&self, ctx: &BuildContext) -> (r: Result<Vec<String>, Error>)
        ensures
            r matches Ok(v) && v@.len() == 0,
    {
        Ok(Vec::new())
    }

    /// No output files are tracked.
    pub fn outputs(&self, ctx: &BuildContext) -> (r: Result<Vec<String>, Error>)
        ensures
            r matches Ok(v) && v@.len() == 0,
    {
        Ok(Vec::new())
    }

    /// The cache key: the hash of name, type tag `dotnet-publish`, the context env and the package.
    pub fn cache_key(&self, ctx: &BuildContext) -> (r: Result<CacheKey, Error>)
        ensures
            r matches Ok(k) && key_view(k) == key_spec(self.name@, "dotnet-publish"@, *ctx, ctx.env@, ""@, seq![("package"@, self.package@)]),
    {
        Ok(self.key(ctx))
    }

    fn key(&self, ctx: &BuildContext) -> (k: CacheKey)
        ensures
            key_view(k) == key_spec(self.name@, "dotnet-publish"@, *ctx, ctx.env@, ""@, seq![("package"@, self.package@)]),
    {
        let flags = single("package", self.package.clone());
        make_cache_key(self.name.as_str(), "dotnet-publish", ctx, &ctx.env, "", &flags)
    }

    /// What executing the recipe does: look the key up in the cache, then in a dry run report `[dry-run] dotnet publish <package> -c Release`; otherwise run `dotnet publish <package> -c Release` in the project root, storing the key after a successful build.
    pub fn plan(&self, ctx: &BuildContext) -> (p: Plan)
        ensures
            tool_plan_is(p, self.name@, *ctx, Some(key_spec(self.name@, "dotnet-publish"@, *ctx, ctx.env@, ""@, seq![("package"@, self.package@)])), "[dry-run] dotnet publish "@ + self.package@ + " -c Release"@),
            p.commands@.len() == 1,
            invocation_is(p.commands@[0], "dotnet"@, seq!["publish"@, self.package@, "-c"@, "Release"@], ctx.project_root@, merge_env(ctx.env@, self.env@), "dotnet"@, "Install .NET SDK: https://dotnet.microsoft.com/download"@, "publish"@),
    {
        let key = self.key(ctx);
        let text = concat3("[dry-run] dotnet publish ", self.package.as_str(), " -c Release");
        let mut commands: Vec<Invocation> = Vec::new();
        let mut args0: Vec<String> = Vec::new();
        args0.push("publish".to_owned());
        args0.push(self.package.clone());
        args0.push("-c".to_owned());
        args0.push("Release".to_owned());
        let ghost a0 = args0@;
        commands.push(invocation("dotnet", args0, ctx.project_root.clone(), ctx, &self.env, "dotnet", "Install .NET SDK: https://dotnet.microsoft.com/download", "publish"));
        assert(sv(a0) =~= seq!["publish"@, self.package@, "-c"@, "Release"@]);
        tool_plan(self.name.as_str(), ctx, Some(key), text, commands)
    }
}

impl Recipe for DotnetPublishRecipe {
    fn name(&self) -> (r: &str)
        ensures
            r@ == self.name@,
    {
        self.name.as_str()
    }

    fn deps(&self) -> (r: &[String])
        ensures
            r@ == self.deps@,
    {
        self.deps.as_slice()
    }

    fn cache_strategy(&self) -> (r: CacheStrategy)
        ensures
            r == CacheStrategy::Hash,
    {
        CacheStrategy::Hash
    }
}
} // verus!
