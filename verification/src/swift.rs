//! Swift recipes: build in release mode, or test, with SwiftPM.

use vstd::prelude::*;
use crate::error::Error;
use crate::job::{Invocation, Plan};
use crate::map::{OrdMap, assoc_insert};
use crate::runner::{
    concat2, concat3, invocation, invocation_is, key_spec, key_view, make_cache_key, merge_env,
    merged_env, single, status_invocation, status_invocation_is, tool_plan, tool_plan_is,
    workdir_path, workdir_spec,
};
use crate::text::sv;
use crate::types::{BuildContext, CacheKey, CacheStrategy, Recipe};

verus! {

/// Builds a Swift package with `swift build -c release`.
pub struct SwiftBinRecipe {
    pub name: String,
    pub deps: Vec<String>,
    pub package: String,
    pub env: OrdMap<String>,
}

impl SwiftBinRecipe {
    pub fn new(name: &str, package: &str) -> (r: Self)
        ensures
            r.name@ == name@,
            r.deps@.len() == 0,
            r.package@ == package@,
            r.env@.len() == 0,
    {
        SwiftBinRecipe {
            name: name.to_owned(),
            deps: Vec::new(),
            package: package.to_owned(),
            env: OrdMap::new(),
        }
    }

    /// No input files are tracked.
    pub fn inputs(&self, ctx: &BuildContext) -> (r: Result<Vec<String>, Error>)
        ensures
            r matches Ok(v) && v@.len() == 0,
    {
        Ok(Vec::new())
    }

    /// No output files are tracked.
    pub fn outputs(&self, ctx: &BuildContext) -> (r: Result<Vec<String>, Error>)
        ensures
            r matches Ok(v) && v@.len() == 0,
    {
        Ok(Vec::new())
    }

    /// The cache key: the hash of name, type tag `swift-bin`, the context env with the recipe env over it and the package and the swift version.
    pub fn cache_key(&self, ctx: &BuildContext, swift_version: &str) -> (r: Result<CacheKey, Error>)
        ensures
            r matches Ok(k) && key_view(k) == key_spec(self.name@, "swift-bin"@, *ctx, merge_env(ctx.env@, self.env@), ""@, assoc_insert(seq![("package"@, self.package@)], "swift_version"@, swift_version@)),
    {
        Ok(self.key(ctx, swift_version))
    }

    fn key(&self, ctx: &BuildContext, swift_version: &str) -> (k: CacheKey)
        ensures
            key_view(k) == key_spec(self.name@, "swift-bin"@, *ctx, merge_env(ctx.env@, self.env@), ""@, assoc_insert(seq![("package"@, self.package@)], "swift_version"@, swift_version@)),
    {
        let mut flags = single("package", self.package.clone());
        flags.insert("swift_version".to_owned(), swift_version.to_owned());
        let env = merged_env(&ctx.env, &self.env);
        make_cache_key(self.name.as_str(), "swift-bin", ctx, &env, "", &flags)
    }

    /// What executing the recipe does: look the key up in the cache, then in a dry run report `[dry-run] swift build -c release (in <package>)`; otherwise run `swift build -c release` in the package directory, storing the key after a successful build.
    pub fn plan(&self, ctx: &BuildContext, swift_version: &str) -> (p: Plan)
        ensures
            tool_plan_is(p, self.name@, *ctx, Some(key_spec(self.name@, "swift-bin"@, *ctx, merge_env(ctx.env@, self.env@), ""@, assoc_insert(seq![("package"@, self.package@)], "swift_version"@, swift_version@))), "[dry-run] swift build -c release (in "@ + self.package@ + ")"@),
            p.commands@.len() == 1,
            invocation_is(p.commands@[0], "swift"@, seq!["build"@, "-c"@, "release"@], workdir_spec(ctx.project_root@, self.package@), merge_env(ctx.env@, self.env@), "swift"@, "Install Swift: https://swift.org/download/ or Xcode from the App Store"@, "build"@),
    {
        let key = self.key(ctx, swift_version);
        let text = concat3("[dry-run] swift build -c release (in ", self.package.as_str(), ")");
        let mut commands: Vec<Invocation> = Vec::new();
        let mut args0: Vec<String> = Vec::new();
        args0.push("build".to_owned());
        args0.push("-c".to_owned());
        args0.push("release".to_owned());
        let ghost a0 = args0@;
        commands.push(invocation("swift", args0, workdir_path(ctx, self.package.as_str()), ctx, &self.env, "swift", "Install Swift: https://swift.org/download/ or Xcode from the App Store", "build"));
        assert(sv(a0) =~= seq!["build"@, "-c"@, "release"@]);
        tool_plan(self.name.as_str(), ctx, Some(key), text, commands)
    }
}

impl Recipe for SwiftBinRecipe {
    fn name(&self) -> (r: &str)
        ensures
            r@ == self.name@,
    {
        self.name.as_str()
    }

    fn deps(&self) -> (r: &[String])
        ensures
            r@ == self.deps@,
    {
        self.deps.as_slice()
    }

    fn cache_strategy(&self) -> (r: CacheStrategy)
        ensures
            r == CacheStrategy::Hash,
    {
        CacheStrategy::Hash
    }
}

/// Runs a Swift package's tests with `swift test`.
pub struct SwiftTestRecipe {
    pub name: String,
    pub deps: Vec<String>,
    pub package: String,
    pub env: OrdMap<String>,
}

impl SwiftTestRecipe {
    pub fn new(name: &str, package: &str) -> (r: Self)
        ensures
            r.name@ == name@,
            r.deps@.len() == 0,
            r.package@ == package@,
            r.env@.len() == 0,
    {
        SwiftTestRecipe {
            name: name.to_owned(),
            deps: Vec::new(),
            package: package.to_owned(),
            env: OrdMap::new(),
        }
    }

    /// No input files are tracked.
    pub fn inputs(&self, ctx: &BuildContext) -> (r: Result<Vec<String>, Error>)
        ensures
            r matches Ok(v) && v@.len() == 0,
    {
        Ok(Vec::new())
    }

    /// No output files are tracked.
    pub fn outputs(&self, ctx: &BuildContext) -> (r: Result<Vec<String>, Error>)
        ensures
            r matches Ok(v) && v@.len() == 0,
    {
        Ok(Vec::new())
    }

    /// The cache key: the hash of name, type tag `swift-test`, the context env with the recipe env over it and the package.
    pub fn cache_key(&self, ctx: &BuildContext) -> (r: Result<CacheKey, Error>)
        ensures
            r matches Ok(k) && key_view(k) == key_spec(self.name@, "swift-test"@, *ctx, merge_env(ctx.env@, self.env@), ""@, seq![("package"@, self.package@)]),
    {
        Ok(self.key(ctx))
    }

    fn key(&self, ctx: &BuildContext) -> (k: CacheKey)
        ensures
            key_view(k) == key_spec(self.name@, "swift-test"@, *ctx, merge_env(ctx.env@, self.env@), ""@, seq![("package"@, self.package@)]),
    {
        let flags = single("package", self.package.clone());
        let env = merged_env(&ctx.env, &self.env);
        make_cache_key(self.name.as_str(), "swift-test", ctx, &env, "", &flags)
    }

    /// What executing the recipe does: in a dry run report `[dry-run] swift test (in <package>)`; otherwise run `swift test` in the package directory.
    pub fn plan(&self, ctx: &BuildContext) -> (p: Plan)
        ensures
            tool_plan_is(p, self.name@, *ctx, None, "[dry-run] swift test (in "@ + self.package@ + ")"@),
            p.commands@.len() == 1,
            invocation_is(p.commands@[0], "swift"@, seq!["test"@], workdir_spec(ctx.project_root@, self.package@), merge_env(ctx.env@, self.env@), "swift"@, "Install Swift: https://swift.org/download/ or Xcode from the App Store"@, "test"@),
    {
        let text = concat3("[dry-run] swift test (in ", self.package.as_str(), ")");
        let mut commands: Vec<Invocation> = Vec::new();
        let mut args0: Vec<String> = Vec::new();
        args0.push("test".to_owned());
        let ghost a0 = args0@;
        commands.push(invocation("swift", args0, workdir_path(ctx, self.package.as_str()), ctx, &self.env, "swift", "Install Swift: https://swift.org/download/ or Xcode from the App Store", "test"));
        assert(sv(a0) =~= seq!["test"@]);
        tool_plan(self.name.as_str(), ctx, None, text, commands)
    }
}

impl Recipe for SwiftTestRecipe {
    fn name(&self) -> (r: &str)
        ensures
            r@ == self.name@,
    {
        self.name.as_str()
    }

    fn deps(&self) -> (r: &[String])
        ensures
            r@ == self.deps@,
    {
        self.deps.as_slice()
    }

    fn cache_strategy(&self) -> (r: CacheStrategy)
        ensures
            r == CacheStrategy::Never,
    {
        CacheStrategy::Never
    }
}
} // verus!
