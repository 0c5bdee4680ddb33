//! Python recipes: install a package, run pytest, or lint with ruff and mypy.
//!
//! Whether `uv` is installed is found out by the caller and passed in.

use vstd::prelude::*;
use crate::error::Error;
use crate::job::{Invocation, Plan};
use crate::map::OrdMap;
use crate::runner::{
    concat2, concat3, invocation, invocation_is, key_spec, key_view, make_cache_key, merge_env,
    single, tool_plan, tool_plan_is, workdir_path, workdir_spec,
};
use crate::text::{chars_of, extend_str, string_of, sv};
use crate::types::{BuildContext, CacheKey, CacheStrategy, Recipe};

verus! {

/// The package installer: `uv pip install` when uv is available, else
/// `pip install`.
pub open spec fn installer(uv: bool) -> (Seq<char>, Seq<Seq<char>>) {
    if uv {
        ("uv"@, seq!["pip"@, "install"@])
    } else {
        ("pip"@, seq!["install"@])
    }
}

/// Installs a Python package.
pub struct PyBinRecipe {
    pub name: String,
    pub deps: Vec<String>,
    pub package: String,
    pub env: OrdMap<String>,
}

impl PyBinRecipe {
    pub fn new(name: &str, package: &str) -> (r: Self)
        ensures
            r.name@ == name@,
            r.deps@.len() == 0,
            r.package@ == package@,
            r.env@.len() == 0,
    {
        PyBinRecipe {
            name: name.to_owned(),
            deps: Vec::new(),
            package: package.to_owned(),
            env: OrdMap::new(),
        }
    }

    /// No input files are tracked.
    pub fn inputs(&self, ctx: &BuildContext) -> (r: Result<Vec<String>, Error>)
        ensures
            r matches Ok(v) && v@.len() == 0,
    {
        Ok(Vec::new())
    }

    /// No output files are tracked.
    pub fn outputs(&self, ctx: &BuildContext) -> (r: Result<Vec<String>, Error>)
        ensures
            r matches Ok(v) && v@.len() == 0,
    {
        Ok(Vec::new())
    }

    /// The cache key: name, type tag `py-bin`, context env and package.
    pub fn cache_key(&self, ctx: &BuildContext) -> (r: Result<CacheKey, Error>)
        ensures
            r matches Ok(k) && key_view(k) == key_spec(
                self.name@,
                "py-bin"@,
                *ctx,
                ctx.env@,
                ""@,
                seq![("package"@, self.package@)],
            ),
    {
        Ok(self.key(ctx))
    }

    fn key(&self, ctx: &BuildContext) -> (k: CacheKey)
        ensures
            key_view(k) == key_spec(
                self.name@,
                "py-bin"@,
                *ctx,
                ctx.env@,
                ""@,
                seq![("package"@, self.package@)],
            ),
    {
        let flags = single("package", self.package.clone());
        make_cache_key(self.name.as_str(), "py-bin", ctx, &ctx.env, "", &flags)
    }

    /// The text of a dry run.
    pub open spec fn dry_text(self, uv: bool) -> Seq<char> {
        "[dry-run] "@ + installer(uv).0 + " "@ + crate::text::join(installer(uv).1, " "@) + " "@
            + self.package@ + " (in "@ + self.package@ + ")"@
    }

    /// What executing the recipe does: look the key up in the cache, then in
    /// a dry run report the install; otherwise install the package from its
    /// directory and store the key.
    pub fn plan(&self, ctx: &BuildContext, uv: bool) -> (p: Plan)
        ensures
            tool_plan_is(
                p,
                self.name@,
                *ctx,
                Some(
                    key_spec(
                        self.name@,
                        "py-bin"@,
                        *ctx,
                        ctx.env@,
                        ""@,
                        seq![("package"@, self.package@)],
                    ),
                ),
                self.dry_text(uv),
            ),
            p.commands@.len() == 1,
            invocation_is(
                p.commands@[0],
                installer(uv).0,
                installer(uv).1 + seq![self.package@],
                workdir_spec(ctx.project_root@, self.package@),
                merge_env(ctx.env@, self.env@),
                installer(uv).0,
                "Install Python 3: https://python.org"@,
                installer(uv).0,
            ),
    {
        let key = self.key(ctx);
        let tool = if uv {
            "uv"
        } else {
            "pip"
        };
        let mut args: Vec<String> = Vec::new();
        if uv {
            args.push("pip".to_owned());
        }
        args.push("install".to_owned());
        let ghost prefix = sv(args@);
        proof {
            reveal_with_fuel(crate::text::join, 3);
            assert(prefix =~= installer(uv).1);
        }
        let mut t = chars_of("[dry-run] ");
        extend_str(&mut t, tool);
        extend_str(&mut t, if uv {
            " pip install "
        } else {
            " install "
        });
        extend_str(&mut t, self.package.as_str());
        extend_str(&mut t, " (in ");
        extend_str(&mut t, self.package.as_str());
        extend_str(&mut t, ")");
        let text = string_of(&t);
        proof {
            reveal_strlit("pip");
            reveal_strlit("install");
            reveal_strlit(" ");
            reveal_strlit(" pip install ");
            reveal_strlit(" install ");
            assert(crate::text::join(installer(uv).1, " "@) + " "@ =~= (if uv {
                " pip install "@
            } else {
                " install "@
            }).drop_first());
        }
        args.push(self.package.clone());
        let ghost all = args@;
        assert(sv(all) =~= installer(uv).1 + seq![self.package@]);
        let mut commands: Vec<Invocation> = Vec::new();
        commands.push(
            invocation(
                tool,
                args,
                workdir_path(ctx, self.package.as_str()),
                ctx,
                &self.env,
                tool,
                "Install Python 3: https://python.org",
                tool,
            ),
        );
        assert(text@ =~= self.dry_text(uv));
        tool_plan(self.name.as_str(), ctx, Some(key), text, commands)
    }
}

impl Recipe for PyBinRecipe {
    fn name(&self) -> (r: &str)
        ensures
            r@ == self.name@,
    {
        self.name.as_str()
    }

    fn deps(&self) -> (r: &[String])
        ensures
            r@ == self.deps@,
    {
        self.deps.as_slice()
    }

    fn cache_strategy(&self) -> (r: CacheStrategy)
        ensures
            r == CacheStrategy::Hash,
    {
        CacheStrategy::Hash
    }
}

/// Runs a Python package's tests with pytest.
pub struct PyTestRecipe {
    pub name: String,
    pub deps: Vec<String>,
    pub package: String,
    pub env: OrdMap<String>,
}

impl PyTestRecipe {
    pub fn new(name: &str, package: &str) -> (r: Self)
        ensures
            r.name@ == name@,
            r.deps@.len() == 0,
            r.package@ == package@,
            r.env@.len() == 0,
    {
        PyTestRecipe {
            name: name.to_owned(),
            deps: Vec::new(),
            package: package.to_owned(),
            env: OrdMap::new(),
        }
    }

    /// No input files are tracked.
    pub fn inputs(&self, ctx: &BuildContext) -> (r: Result<Vec<String>, Error>)
        ensures
            r matches Ok(v) && v@.len() == 0,
    {
        Ok(Vec::new())
    }

    /// No output files are tracked.
    pub fn outputs(&self, ctx: &BuildContext) -> (r: Result<Vec<String>, Error>)
        ensures
            r matches Ok(v) && v@.len() == 0,
    {
        Ok(Vec::new())
    }

    /// The cache key: name, type tag `py-test`, context env and package.
    pub fn cache_key(&self, ctx: &BuildContext) -> (r: Result<CacheKey, Error>)
        ensures
            r matches Ok(k) && key_view(k) == key_spec(
                self.name@,
                "py-test"@,
                *ctx,
                ctx.env@,
                ""@,
                seq![("package"@, self.package@)],
            ),
    {
        let flags = single("package", self.package.clone());
        Ok(make_cache_key(self.name.as_str(), "py-test", ctx, &ctx.env, "", &flags))
    }

    /// What executing the recipe does: in a dry run report pytest; otherwise
    /// run `pytest` in the package directory.
    pub fn plan(&self, ctx: &BuildContext) -> (p: Plan)
        ensures
            tool_plan_is(p, self.name@, *ctx, None, "[dry-run] pytest (in "@ + self.package@ + ")"@),
            p.commands@.len() == 1,
            invocation_is(
                p.commands@[0],
                "pytest"@,
                seq![],
                workdir_spec(ctx.project_root@, self.package@),
                merge_env(ctx.env@, self.env@),
                "pytest"@,
                "Install Python 3: https://python.org"@,
                "pytest"@,
            ),
    {
        let text = concat3("[dry-run] pytest (in ", self.package.as_str(), ")");
        let args: Vec<String> = Vec::new();
        assert(sv(args@) =~= Seq::<Seq<char>>::empty());
        let mut commands: Vec<Invocation> = Vec::new();
        commands.push(
            invocation(
                "pytest",
                args,
                workdir_path(ctx, self.package.as_str()),
                ctx,
                &self.env,
                "pytest",
                "Install Python 3: https://python.org",
                "pytest",
            ),
        );
        tool_plan(self.name.as_str(), ctx, None, text, commands)
    }
}

impl Recipe for PyTestRecipe {
    fn name(&self) -> (r: &str)
        ensures
            r@ == self.name@,
    {
        self.name.as_str()
    }

    fn deps(&self) -> (r: &[String])
        ensures
            r@ == self.deps@,
    {
        self.deps.as_slice()
    }

    fn cache_strategy(&self) -> (r: CacheStrategy)
        ensures
            r == CacheStrategy::Never,
    {
        CacheStrategy::Never
    }
}

/// Lints a Python package with ruff and mypy.
pub struct PyLintRecipe {
    pub name: String,
    pub deps: Vec<String>,
    pub package: String,
    pub env: OrdMap<String>,
}

impl PyLintRecipe {
    pub fn new(name: &str, package: &str) -> (r: Self)
        ensures
            r.name@ == name@,
            r.deps@.len() == 0,
            r.package@ == package@,
            r.env@.len() == 0,
    {
        PyLintRecipe {
            name: name.to_owned(),
            deps: Vec::new(),
            package: package.to_owned(),
            env: OrdMap::new(),
        }
    }

    /// No input files are tracked.
    pub fn inputs(&self, ctx: &BuildContext) -> (r: Result<Vec<String>, Error>)
        ensures
            r matches Ok(v) && v@.len() == 0,
    {
        Ok(Vec::new())
    }

    /// No output files are tracked.
    pub fn outputs(&self, ctx: &BuildContext) -> (r: Result<Vec<String>, Error>)
        ensures
            r matches Ok(v) && v@.len() == 0,
    {
        Ok(Vec::new())
    }

    /// The cache key: name, type tag `py-lint`, context env and package.
    pub fn cache_key(&self, ctx: &BuildContext) -> (r: Result<CacheKey, Error>)
        ensures
            r matches Ok(k) && key_view(k) == key_spec(
                self.name@,
                "py-lint"@,
                *ctx,
                ctx.env@,
                ""@,
                seq![("package"@, self.package@)],
            ),
    {
        let flags = single("package", self.package.clone());
        Ok(make_cache_key(self.name.as_str(), "py-lint", ctx, &ctx.env, "", &flags))
    }

    /// What executing the recipe does: in a dry run report both linters;
    /// otherwise run `ruff check . && mypy .` through the shell in the
    /// package directory.
    pub fn plan(&self, ctx: &BuildContext) -> (p: Plan)
        ensures
            tool_plan_is(
                p,
                self.name@,
                *ctx,
                None,
                "[dry-run] ruff check "@ + self.package@ + " && mypy "@ + self.package@,
            ),
            p.commands@.len() == 1,
            invocation_is(
                p.commands@[0],
                crate::command::shell_program_spec(ctx.windows),
                seq![crate::command::shell_arg_spec(ctx.windows), "ruff check . && mypy ."@],
                workdir_spec(ctx.project_root@, self.package@),
                merge_env(ctx.env@, self.env@),
                crate::command::shell_program_spec(ctx.windows),
                "ruff and mypy are required for linting"@,
                self.name@,
            ),
    {
        let mut t = chars_of("[dry-run] ruff check ");
        extend_str(&mut t, self.package.as_str());
        extend_str(&mut t, " && mypy ");
        extend_str(&mut t, self.package.as_str());
        let text = string_of(&t);
        let mut args: Vec<String> = Vec::new();
        args.push(crate::command::shell_arg(ctx.windows).to_owned());
        args.push("ruff check . && mypy .".to_owned());
        let ghost a = args@;
        assert(sv(a) =~= seq![crate::command::shell_arg_spec(ctx.windows), "ruff check . && mypy ."@]);
        let mut commands: Vec<Invocation> = Vec::new();
        commands.push(
            invocation(
                crate::command::shell_program(ctx.windows),
                args,
                workdir_path(ctx, self.package.as_str()),
                ctx,
                &self.env,
                crate::command::shell_program(ctx.windows),
                "ruff and mypy are required for linting",
                self.name.as_str(),
            ),
        );
        tool_plan(self.name.as_str(), ctx, None, text, commands)
    }
}

impl Recipe for PyLintRecipe {
    fn name(&self) -> (r: &str)
        ensures
            r@ == self.name@,
    {
        self.name.as_str()
    }

    fn deps(&self) -> (r: &[String])
        ensures
            r@ == self.deps@,
    {
        self.deps.as_slice()
    }

    fn cache_strategy(&self) -> (r: CacheStrategy)
        ensures
            r == CacheStrategy::Never,
    {
        CacheStrategy::Never
    }
}

} // verus!
