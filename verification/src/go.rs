//! Go recipes: build a binary or run tests with the `go` tool.
//!
//! Whether Go is installed, its version, the hint shown when it is missing
//! and the cross-compilation environment are found out by the caller.

use vstd::prelude::*;
use crate::error::Error;
use crate::job::{Invocation, Plan};
use crate::map::{OrdMap, assoc_insert};
use crate::runner::{
    concat2, invocation, invocation_is, key_spec, key_view, make_cache_key, merge_env, merged_env,
    single, tool_plan, tool_plan_is,
};
use crate::text::{join, join_strings, sv};
use crate::types::{BuildContext, CacheKey, CacheStrategy, Recipe};

verus! {

/// Builds a Go binary.
pub struct GoBinRecipe {
    pub name: String,
    pub package: String,
    pub deps: Vec<String>,
    pub ldflags: Option<String>,
    pub build_tags: Vec<String>,
    pub env: OrdMap<String>,
}

/// The flags that identify a Go build: package, ldflags (empty when unset)
/// and the build tags joined by commas.
pub open spec fn go_flags(package: Seq<char>, ldflags: Option<String>, tags: Seq<Seq<char>>) -> Seq<
    (Seq<char>, Seq<char>),
> {
    assoc_insert(
        assoc_insert(
            seq![("package"@, package)],
            "ldflags"@,
            match ldflags {
                Some(f) => f@,
                None => seq![],
            },
        ),
        "tags"@,
        join(tags, ","@),
    )
}

/// The arguments of `go build`: tags and ldflags when given, then the package.
pub open spec fn go_build_args(package: Seq<char>, ldflags: Option<String>, tags: Seq<Seq<char>>) -> Seq<
    Seq<char>,
> {
    seq!["build"@] + (if tags.len() > 0 {
        seq!["-tags"@, join(tags, ","@)]
    } else {
        seq![]
    }) + match ldflags {
        Some(f) => seq!["-ldflags"@, f@],
        None => seq![],
    } + seq![package]
}

/// The error returned when Go is not installed.
pub open spec fn go_missing(e: Error, ctx: BuildContext, hint: Seq<char>) -> bool {
    e matches Error::ToolchainNotFound { target, hint: h } && target@ == ctx.target@ && h@ == hint
}

impl GoBinRecipe {
    pub fn new(name: &str, package: &str) -> (r: Self)
        ensures
            r.name@ == name@,
            r.package@ == package@,
            r.deps@.len() == 0,
            r.ldflags is None,
            r.build_tags@.len() == 0,
            r.env@.len() == 0,
    {
        GoBinRecipe {
            name: name.to_owned(),
            package: package.to_owned(),
            deps: Vec::new(),
            ldflags: None,
            build_tags: Vec::new(),
            env: OrdMap::new(),
        }
    }

    /// The flags that identify this build.
    pub fn extra_flags(&self) -> (m: OrdMap<String>)
        ensures
            m@ == go_flags(self.package@, self.ldflags, sv(self.build_tags@)),
    {
        let mut m = single("package", self.package.clone());
        let lf = match &self.ldflags {
            Some(f) => f.clone(),
            None => String::new(),
        };
        m.insert("ldflags".to_owned(), lf);
        m.insert("tags".to_owned(), join_strings(&self.build_tags, ","));
        m
    }

    /// No input files are tracked (Go tracks its own).
    pub fn inputs(&self, ctx: &BuildContext) -> (r: Result<Vec<String>, Error>)
        ensures
            r matches Ok(v) && v@.len() == 0,
    {
        Ok(Vec::new())
    }

    /// No output files are tracked.
    pub fn outputs(&self, ctx: &BuildContext) -> (r: Result<Vec<String>, Error>)
        ensures
            r matches Ok(v) && v@.len() == 0,
    {
        Ok(Vec::new())
    }

    /// The cache key: name, type tag `go-bin`, context env, the Go version
    /// and the build's flags.
    pub fn cache_key(&self, ctx: &BuildContext, go_version: &str) -> (r: Result<CacheKey, Error>)
        ensures
            r matches Ok(k) && key_view(k) == key_spec(
                self.name@,
                "go-bin"@,
                *ctx,
                ctx.env@,
                go_version@,
                go_flags(self.package@, self.ldflags, sv(self.build_tags@)),
            ),
    {
        let flags = self.extra_flags();
        Ok(make_cache_key(self.name.as_str(), "go-bin", ctx, &ctx.env, go_version, &flags))
    }

    /// What executing the recipe does: fail when Go is not installed; in a
    /// dry run report the build; otherwise run `go build` in the project root
    /// with the recipe env and then the cross-compilation env over the
    /// context env.
    pub fn plan(
        &self,
        ctx: &BuildContext,
        go_installed: bool,
        install_hint: &str,
        cross_env: &OrdMap<String>,
    ) -> (r: Result<Plan, Error>)
        ensures
            match r {
                Ok(p) => {
                    &&& go_installed
                    &&& tool_plan_is(p, self.name@, *ctx, None, "[dry-run] go build "@ + self.package@)
                    &&& p.commands@.len() == 1
                    &&& invocation_is(
                        p.commands@[0],
                        "go"@,
                        go_build_args(self.package@, self.ldflags, sv(self.build_tags@)),
                        ctx.project_root@,
                        merge_env(ctx.env@, merge_env(self.env@, cross_env@)),
                        "go"@,
                        "Install Go: https://go.dev/dl/"@,
                        "build"@,
                    )
                },
                Err(e) => !go_installed && go_missing(e, *ctx, install_hint@),
            },
    {
        if !go_installed {
            return Err(
                Error::ToolchainNotFound { target: ctx.target.clone(), hint: install_hint.to_owned() },
            );
        }
        let text = concat2("[dry-run] go build ", self.package.as_str());
        let mut args: Vec<String> = Vec::new();
        args.push("build".to_owned());
        if self.build_tags.len() > 0 {
            args.push("-tags".to_owned());
            args.push(join_strings(&self.build_tags, ","));
        }
        match &self.ldflags {
            Some(f) => {
                args.push("-ldflags".to_owned());
                args.push(f.clone());
            },
            None => {},
        }
        args.push(self.package.clone());
        let ghost a = args@;
        assert(sv(a) =~= go_build_args(self.package@, self.ldflags, sv(self.build_tags@)));
        let extra = merged_env(&self.env, cross_env);
        let mut commands: Vec<Invocation> = Vec::new();
        commands.push(
            invocation(
                "go",
                args,
                ctx.project_root.clone(),
                ctx,
                &extra,
                "go",
                "Install Go: https://go.dev/dl/",
                "build",
            ),
        );
        Ok(tool_plan(self.name.as_str(), ctx, None, text, commands))
    }
}

impl Recipe for GoBinRecipe {
    fn name(&self) -> (r: &str)
        ensures
            r@ == self.name@,
    {
        self.name.as_str()
    }

    fn deps(&self) -> (r: &[String])
        ensures
            r@ == self.deps@,
    {
        self.deps.as_slice()
    }

    fn cache_strategy(&self) -> (r: CacheStrategy)
        ensures
            r == CacheStrategy::Hash,
    {
        CacheStrategy::Hash
    }
}

/// Runs Go tests.
pub struct GoTestRecipe {
    pub name: String,
    pub package: String,
    pub deps: Vec<String>,
    pub env: OrdMap<String>,
}

impl GoTestRecipe {
    pub fn new(name: &str, package: &str) -> (r: Self)
        ensures
            r.name@ == name@,
            r.package@ == package@,
            r.deps@.len() == 0,
            r.env@.len() == 0,
    {
        GoTestRecipe {
            name: name.to_owned(),
            package: package.to_owned(),
            deps: Vec::new(),
            env: OrdMap::new(),
        }
    }

    /// No input files are tracked.
    pub fn inputs(&self, ctx: &BuildContext) -> (r: Result<Vec<String>, Error>)
        ensures
            r matches Ok(v) && v@.len() == 0,
    {
        Ok(Vec::new())
    }

    /// No output files are tracked.
    pub fn outputs(&self, ctx: &BuildContext) -> (r: Result<Vec<String>, Error>)
        ensures
            r matches Ok(v) && v@.len() == 0,
    {
        Ok(Vec::new())
    }

    /// The cache key: name, type tag `go-test`, context env, the Go version
    /// and the package.
    pub fn cache_key(&self, ctx: &BuildContext, go_version: &str) -> (r: Result<CacheKey, Error>)
        ensures
            r matches Ok(k) && key_view(k) == key_spec(
                self.name@,
                "go-test"@,
                *ctx,
                ctx.env@,
                go_version@,
                seq![("package"@, self.package@)],
            ),
    {
        let flags = single("package", self.package.clone());
        Ok(make_cache_key(self.name.as_str(), "go-test", ctx, &ctx.env, go_version, &flags))
    }

    /// What executing the recipe does: fail when Go is not installed; in a
    /// dry run report the test run; otherwise run `go test` in the project
    /// root.
    pub fn plan(&self, ctx: &BuildContext, go_installed: bool, install_hint: &str) -> (r: Result<
        Plan,
        Error,
    >)
        ensures
            match r {
                Ok(p) => {
                    &&& go_installed
                    &&& tool_plan_is(p, self.name@, *ctx, None, "[dry-run] go test "@ + self.package@)
                    &&& p.commands@.len() == 1
                    &&& invocation_is(
                        p.commands@[0],
                        "go"@,
                        seq!["test"@, self.package@],
                        ctx.project_root@,
                        merge_env(ctx.env@, self.env@),
                        "go"@,
                        "Install Go: https://go.dev/dl/"@,
                        "test"@,
                    )
                },
                Err(e) => !go_installed && go_missing(e, *ctx, install_hint@),
            },
    {
        if !go_installed {
            return Err(
                Error::ToolchainNotFound { target: ctx.target.clone(), hint: install_hint.to_owned() },
            );
        }
        let text = concat2("[dry-run] go test ", self.package.as_str());
        let mut args: Vec<String> = Vec::new();
        args.push("test".to_owned());
        args.push(self.package.clone());
        let ghost a = args@;
        assert(sv(a) =~= seq!["test"@, self.package@]);
        let mut commands: Vec<Invocation> = Vec::new();
        commands.push(
            invocation(
                "go",
                args,
                ctx.project_root.clone(),
                ctx,
                &self.env,
                "go",
                "Install Go: https://go.dev/dl/",
                "test",
            ),
        );
        Ok(tool_plan(self.name.as_str(), ctx, None, text, commands))
    }
}

impl Recipe for GoTestRecipe {
    fn name(&self) -> (r: &str)
        ensures
            r@ == self.name@,
    {
        self.name.as_str()
    }

    fn deps(&self) -> (r: &[String])
        ensures
            r@ == self.deps@,
    {
        self.deps.as_slice()
    }

    fn cache_strategy(&self) -> (r: CacheStrategy)
        ensures
            r == CacheStrategy::Never,
    {
        CacheStrategy::Never
    }
}

} // verus!
