//! Rust recipes: build a binary or library, or run tests, with cargo.
//!
//! The rustc version line is found out by the caller and passed in.

use vstd::prelude::*;
use crate::error::Error;
use crate::job::{CacheQuery, Invocation, Plan};
use vstd::utf8::{encode_utf8, encode_utf8_decode_utf8};
use crate::hash::{
    hash_preimage, hex_spec, inputs_bytes, lemma_middle_differs, lemma_pairs_bytes_concat, pairs_bytes,
    sha256_spec, sort_inputs,
};
use crate::map::{OrdMap, assoc_get, assoc_insert, law_get_insert, lemma_insert_twins};
use crate::paths::{join_path, path_join};
use crate::runner::{
    concat2, copy_key, invocation, invocation_is, key_spec, key_view, make_cache_key, merge_env,
    single, tool_plan, tool_plan_is,
};
use crate::text::{clone_strings, join, join_strings, sv};
use crate::types::{BuildContext, CacheKey, CacheStrategy, Recipe};

verus! {

/// The text of a boolean.
pub open spec fn bool_text(b: bool) -> Seq<char> {
    if b {
        "true"@
    } else {
        "false"@
    }
}

/// `--features <list>` when there are features.
pub open spec fn feature_args(features: Seq<Seq<char>>) -> Seq<Seq<char>> {
    if features.len() > 0 {
        seq!["--features"@, join(features, ","@)]
    } else {
        seq![]
    }
}

/// `--release` for a release build.
pub open spec fn release_args(release: bool) -> Seq<Seq<char>> {
    if release {
        seq!["--release"@]
    } else {
        seq![]
    }
}

/// Appends the feature and release arguments.
fn push_build_options(args: &mut Vec<String>, features: &Vec<String>, release: bool)
    ensures
        sv(final(args)@) == sv(old(args)@) + feature_args(sv(features@)) + release_args(release),
{
    let ghost start = sv(args@);
    if features.len() > 0 {
        args.push("--features".to_owned());
        args.push(join_strings(features, ","));
    }
    assert(sv(args@) =~= start + feature_args(sv(features@)));
    let ghost mid = sv(args@);
    if release {
        args.push("--release".to_owned());
    }
    assert(sv(args@) =~= mid + release_args(release));
}

/// How to get Rust.
pub open spec fn rust_hint() -> Seq<char> {
    "Install Rust: https://rustup.rs"@
}

/// Builds a Rust binary with cargo.
pub struct RustBinRecipe {
    pub name: String,
    pub deps: Vec<String>,
    pub package: String,
    pub features: Vec<String>,
    pub release: bool,
    pub env: OrdMap<String>,
}

impl RustBinRecipe {
    pub fn new(name: &str, package: &str) -> (r: Self)
        ensures
            r.name@ == name@,
            r.deps@.len() == 0,
            r.package@ == package@,
            r.features@.len() == 0,
            !r.release,
            r.env@.len() == 0,
    {
        RustBinRecipe {
            name: name.to_owned(),
            deps: Vec::new(),
            package: package.to_owned(),
            features: Vec::new(),
            release: false,
            env: OrdMap::new(),
        }
    }

    /// The flags that identify the build: package, features and release.
    pub open spec fn flags_spec(self) -> Seq<(Seq<char>, Seq<char>)> {
        assoc_insert(
            assoc_insert(seq![("package"@, self.package@)], "features"@, join(sv(self.features@), ","@)),
            "release"@,
            bool_text(self.release),
        )
    }

    fn extra_flags(&self) -> (m: OrdMap<String>)
        ensures
            m@ == self.flags_spec(),
    {
        let mut m = single("package", self.package.clone());
        m.insert("features".to_owned(), join_strings(&self.features, ","));
        m.insert("release".to_owned(), if self.release {
            "true".to_owned()
        } else {
            "false".to_owned()
        });
        m
    }

    /// No input files are tracked (cargo tracks its own).
    pub fn inputs(&self, ctx: &BuildContext) -> (r: Result<Vec<String>, Error>)
        ensures
            r matches Ok(v) && v@.len() == 0,
    {
        Ok(Vec::new())
    }

    /// The binary path: `<root>/target/<debug|release>/<package>`.
    pub open spec fn output_spec(self, ctx: BuildContext) -> Seq<char> {
        join_path(
            join_path(join_path(ctx.project_root@, "target"@), if self.release {
                "release"@
            } else {
                "debug"@
            }),
            self.package@,
        )
    }

    /// The binary under `target`.
    pub fn outputs(&self, ctx: &BuildContext) -> (r: Result<Vec<String>, Error>)
        ensures
            r matches Ok(v) && sv(v@) == seq![self.output_spec(*ctx)],
    {
        let t = path_join(ctx.project_root.as_str(), "target");
        let p = path_join(t.as_str(), if self.release {
            "release"
        } else {
            "debug"
        });
        let mut v: Vec<String> = Vec::new();
        v.push(path_join(p.as_str(), self.package.as_str()));
        assert(sv(v@) =~= seq![self.output_spec(*ctx)]);
        Ok(v)
    }

    /// The cache key: name, type tag `rust-bin`, context env, the rustc
    /// version and the build's flags.
    pub fn cache_key(&self, ctx: &BuildContext, rustc_version: &str) -> (r: Result<CacheKey, Error>)
        ensures
            r matches Ok(k) && key_view(k) == key_spec(
                self.name@,
                "rust-bin"@,
                *ctx,
                ctx.env@,
                rustc_version@,
                self.flags_spec(),
            ),
    {
        let flags = self.extra_flags();
        Ok(make_cache_key(self.name.as_str(), "rust-bin", ctx, &ctx.env, rustc_version, &flags))
    }

    /// What executing the recipe does: look the key up in the cache (a hit
    /// reports the binary), then in a dry run report the build; otherwise
    /// run `cargo build` for the package in the project root, report the
    /// binary and store the key.
    pub fn plan(&self, ctx: &BuildContext, rustc_version: &str) -> (p: Plan)
        ensures
            p.recipe_name@ == self.name@,
            p.dry_run == ctx.dry_run,
            !p.dry_run_first,
            p.dry_run_text@ == "[dry-run] cargo build -p "@ + self.package@,
            p.query matches Some(CacheQuery::Key(q)) && key_view(q) == key_spec(
                self.name@,
                "rust-bin"@,
                *ctx,
                ctx.env@,
                rustc_version@,
                self.flags_spec(),
            ),
            p.store matches Some(s) && key_view(s) == key_spec(
                self.name@,
                "rust-bin"@,
                *ctx,
                ctx.env@,
                rustc_version@,
                self.flags_spec(),
            ),
            sv(p.outputs@) == seq![self.output_spec(*ctx)],
            sv(p.cached_outputs@) == seq![self.output_spec(*ctx)],
            p.dirs@.len() == 0,
            p.commands@.len() == 1,
            invocation_is(
                p.commands@[0],
                "cargo"@,
                seq!["build"@, "--package"@, self.package@] + feature_args(sv(self.features@))
                    + release_args(self.release),
                ctx.project_root@,
                merge_env(ctx.env@, self.env@),
                "cargo"@,
                rust_hint(),
                "build"@,
            ),
    {
        let flags = self.extra_flags();
        let key = make_cache_key(self.name.as_str(), "rust-bin", ctx, &ctx.env, rustc_version, &flags);
        let text = concat2("[dry-run] cargo build -p ", self.package.as_str());
        let mut args: Vec<String> = Vec::new();
        args.push("build".to_owned());
        args.push("--package".to_owned());
        args.push(self.package.clone());
        assert(sv(args@) =~= seq!["build"@, "--package"@, self.package@]);
        push_build_options(&mut args, &self.features, self.release);
        let mut commands: Vec<Invocation> = Vec::new();
        commands.push(
            invocation(
                "cargo",
                args,
                ctx.project_root.clone(),
                ctx,
                &self.env,
                "cargo",
                "Install Rust: https://rustup.rs",
                "build",
            ),
        );
        let outputs = match self.outputs(ctx) {
            Ok(v) => v,
            Err(_) => Vec::new(),
        };
        let q = copy_key(&key);
        Plan {
            recipe_name: self.name.clone(),
            dry_run_first: false,
            query: Some(CacheQuery::Key(q)),
            store: Some(key),
            dry_run: ctx.dry_run,
            dry_run_text: text,
            commands,
            outputs: clone_strings(&outputs),
            cached_outputs: outputs,
            dirs: Vec::new(),
        }
    }
}

impl Recipe for RustBinRecipe {
    fn name(&self) -> (r: &str)
        ensures
            r@ == self.name@,
    {
        self.name.as_str()
    }

    fn deps(&self) -> (r: &[String])
        ensures
            r@ == self.deps@,
    {
        self.deps.as_slice()
    }

    fn cache_strategy(&self) -> (r: CacheStrategy)
        ensures
            r == CacheStrategy::Hash,
    {
        CacheStrategy::Hash
    }
}

/// Builds a Rust library with cargo.
pub struct RustLibRecipe {
    pub name: String,
    pub deps: Vec<String>,
    pub package: String,
    pub features: Vec<String>,
    pub release: bool,
    pub env: OrdMap<String>,
}

impl RustLibRecipe {
    pub fn new(name: &str, package: &str) -> (r: Self)
        ensures
            r.name@ == name@,
            r.deps@.len() == 0,
            r.package@ == package@,
            r.features@.len() == 0,
            !r.release,
            r.env@.len() == 0,
    {
        RustLibRecipe {
            name: name.to_owned(),
            deps: Vec::new(),
            package: package.to_owned(),
            features: Vec::new(),
            release: false,
            env: OrdMap::new(),
        }
    }

    /// The flags that identify the build: package and features.
    pub open spec fn flags_spec(self) -> Seq<(Seq<char>, Seq<char>)> {
        assoc_insert(seq![("package"@, self.package@)], "features"@, join(sv(self.features@), ","@))
    }

    /// No input files are tracked.
    pub fn inputs(&self, ctx: &BuildContext) -> (r: Result<Vec<String>, Error>)
        ensures
            r matches Ok(v) && v@.len() == 0,
    {
        Ok(Vec::new())
    }

    /// No output files are tracked.
    pub fn outputs(&self, ctx: &BuildContext) -> (r: Result<Vec<String>, Error>)
        ensures
            r matches Ok(v) && v@.len() == 0,
    {
        Ok(Vec::new())
    }

    fn key(&self, ctx: &BuildContext, rustc_version: &str) -> (k: CacheKey)
        ensures
            key_view(k) == key_spec(self.name@, "rust-lib"@, *ctx, ctx.env@, rustc_version@, self.flags_spec()),
    {
        let mut flags = single("package", self.package.clone());
        flags.insert("features".to_owned(), join_strings(&self.features, ","));
        make_cache_key(self.name.as_str(), "rust-lib", ctx, &ctx.env, rustc_version, &flags)
    }

    /// The cache key: name, type tag `rust-lib`, context env, the rustc
    /// version, package and features.
    pub fn cache_key(&self, ctx: &BuildContext, rustc_version: &str) -> (r: Result<CacheKey, Error>)
        ensures
            r matches Ok(k) && key_view(k) == key_spec(
                self.name@,
                "rust-lib"@,
                *ctx,
                ctx.env@,
                rustc_version@,
                self.flags_spec(),
            ),
    {
        Ok(self.key(ctx, rustc_version))
    }

    /// What executing the recipe does: look the key up in the cache, then in
    /// a dry run report the build; otherwise run `cargo build --lib` for the
    /// package in the project root and store the key.
    pub fn plan(&self, ctx: &BuildContext, rustc_version: &str) -> (p: Plan)
        ensures
            tool_plan_is(
                p,
                self.name@,
                *ctx,
                Some(key_spec(self.name@, "rust-lib"@, *ctx, ctx.env@, rustc_version@, self.flags_spec())),
                "[dry-run] cargo build --lib -p "@ + self.package@,
            ),
            p.commands@.len() == 1,
            invocation_is(
                p.commands@[0],
                "cargo"@,
                seq!["build"@, "--lib"@, "--package"@, self.package@] + feature_args(
                    sv(self.features@),
                ) + release_args(self.release),
                ctx.project_root@,
                merge_env(ctx.env@, self.env@),
                "cargo"@,
                rust_hint(),
                "build"@,
            ),
    {
        let key = self.key(ctx, rustc_version);
        let text = concat2("[dry-run] cargo build --lib -p ", self.package.as_str());
        let mut args: Vec<String> = Vec::new();
        args.push("build".to_owned());
        args.push("--lib".to_owned());
        args.push("--package".to_owned());
        args.push(self.package.clone());
        assert(sv(args@) =~= seq!["build"@, "--lib"@, "--package"@, self.package@]);
        push_build_options(&mut args, &self.features, self.release);
        let mut commands: Vec<Invocation> = Vec::new();
        commands.push(
            invocation(
                "cargo",
                args,
                ctx.project_root.clone(),
                ctx,
                &self.env,
                "cargo",
                "Install Rust: https://rustup.rs",
                "build",
            ),
        );
        tool_plan(self.name.as_str(), ctx, Some(key), text, commands)
    }
}

impl Recipe for RustLibRecipe {
    fn name(&self) -> (r: &str)
        ensures
            r@ == self.name@,
    {
        self.name.as_str()
    }

    fn deps(&self) -> (r: &[String])
        ensures
            r@ == self.deps@,
    {
        self.deps.as_slice()
    }

    fn cache_strategy(&self) -> (r: CacheStrategy)
        ensures
            r == CacheStrategy::Hash,
    {
        CacheStrategy::Hash
    }
}

/// Runs a Rust package's tests with cargo.
pub struct RustTestRecipe {
    pub name: String,
    pub deps: Vec<String>,
    pub package: String,
    pub test_filter: Option<String>,
    pub env: OrdMap<String>,
}

impl RustTestRecipe {
    pub fn new(name: &str, package: &str) -> (r: Self)
        ensures
            r.name@ == name@,
            r.deps@.len() == 0,
            r.package@ == package@,
            r.test_filter is None,
            r.env@.len() == 0,
    {
        RustTestRecipe {
            name: name.to_owned(),
            deps: Vec::new(),
            package: package.to_owned(),
            test_filter: None,
            env: OrdMap::new(),
        }
    }

    /// The flags that identify the run: package and the filter when set.
    pub open spec fn flags_spec(self) -> Seq<(Seq<char>, Seq<char>)> {
        match self.test_filter {
            Some(f) => assoc_insert(seq![("package"@, self.package@)], "filter"@, f@),
            None => seq![("package"@, self.package@)],
        }
    }

    /// No input files are tracked.
    pub fn inputs(&self, ctx: &BuildContext) -> (r: Result<Vec<String>, Error>)
        ensures
            r matches Ok(v) && v@.len() == 0,
    {
        Ok(Vec::new())
    }

    /// No output files are tracked.
    pub fn outputs(&self, ctx: &BuildContext) -> (r: Result<Vec<String>, Error>)
        ensures
            r matches Ok(v) && v@.len() == 0,
    {
        Ok(Vec::new())
    }

    /// The cache key: name, type tag `rust-test`, context env, the rustc
    /// version, package and filter.
    pub fn cache_key(&self, ctx: &BuildContext, rustc_version: &str) -> (r: Result<CacheKey, Error>)
        ensures
            r matches Ok(k) && key_view(k) == key_spec(
                self.name@,
                "rust-test"@,
                *ctx,
                ctx.env@,
                rustc_version@,
                self.flags_spec(),
            ),
    {
        let mut flags = single("package", self.package.clone());
        match &self.test_filter {
            Some(f) => {
                flags.insert("filter".to_owned(), f.clone());
            },
            None => {},
        }
        Ok(make_cache_key(self.name.as_str(), "rust-test", ctx, &ctx.env, rustc_version, &flags))
    }

    /// What executing the recipe does: in a dry run report the test run;
    /// otherwise run `cargo test` for the package (with the filter when set)
    /// in the project root.
    pub fn plan(&self, ctx: &BuildContext) -> (p: Plan)
        ensures
            tool_plan_is(p, self.name@, *ctx, None, "[dry-run] cargo test -p "@ + self.package@),
            p.commands@.len() == 1,
            invocation_is(
                p.commands@[0],
                "cargo"@,
                seq!["test"@, "--package"@, self.package@] + match self.test_filter {
                    Some(f) => seq![f@],
                    None => seq![],
                },
                ctx.project_root@,
                merge_env(ctx.env@, self.env@),
                "cargo"@,
                rust_hint(),
                "test"@,
            ),
    {
        let text = concat2("[dry-run] cargo test -p ", self.package.as_str());
        let mut args: Vec<String> = Vec::new();
        args.push("test".to_owned());
        args.push("--package".to_owned());
        args.push(self.package.clone());
        match &self.test_filter {
            Some(f) => {
                args.push(f.clone());
            },
            None => {},
        }
        let ghost a = args@;
        assert(sv(a) =~= seq!["test"@, "--package"@, self.package@] + match self.test_filter {
            Some(f) => seq![f@],
            None => seq![],
        });
        let mut commands: Vec<Invocation> = Vec::new();
        commands.push(
            invocation(
                "cargo",
                args,
                ctx.project_root.clone(),
                ctx,
                &self.env,
                "cargo",
                "Install Rust: https://rustup.rs",
                "test",
            ),
        );
        tool_plan(self.name.as_str(), ctx, None, text, commands)
    }
}

impl Recipe for RustTestRecipe {
    fn name(&self) -> (r: &str)
        ensures
            r@ == self.name@,
    {
        self.name.as_str()
    }

    fn deps(&self) -> (r: &[String])
        ensures
            r@ == self.deps@,
    {
        self.deps.as_slice()
    }

    fn cache_strategy(&self) -> (r: CacheStrategy)
        ensures
            r == CacheStrategy::Never,
    {
        CacheStrategy::Never
    }
}

/// Law: the release flag is part of a Rust binary's cache key.  The flags
/// hold `release` with `true` or `false` as the recipe says, and two
/// recipes that differ only in `release` hash different preimages.
pub proof fn law_release_in_key(
    a: RustBinRecipe,
    b: RustBinRecipe,
    ctx: BuildContext,
    rustc_version: Seq<char>,
)
    requires
        a.name@ == b.name@,
        a.package@ == b.package@,
        sv(a.features@) == sv(b.features@),
        a.release != b.release,
    ensures
        assoc_get(a.flags_spec(), "release"@) == Some(
            if a.release {
                "true"@
            } else {
                "false"@
            },
        ),
        key_spec(a.name@, "rust-bin"@, ctx, ctx.env@, rustc_version, a.flags_spec()).3 == hex_spec(
            sha256_spec(hash_preimage(a.name@, "rust-bin"@, seq![], ctx.env@, rustc_version, a.flags_spec())),
        ),
        hash_preimage(a.name@, "rust-bin"@, seq![], ctx.env@, rustc_version, a.flags_spec())
            != hash_preimage(b.name@, "rust-bin"@, seq![], ctx.env@, rustc_version, b.flags_spec()),
{
    let base = assoc_insert(
        seq![("package"@, a.package@)],
        "features"@,
        join(sv(a.features@), ","@),
    );
    law_get_insert(base, "release"@, bool_text(a.release), "release"@);
    reveal_strlit("true");
    reveal_strlit("false");
    assert(bool_text(a.release) != bool_text(b.release)) by {
        assert("true"@.len() != "false"@.len());
    }
    let r = lemma_insert_twins(base, "release"@, bool_text(a.release), bool_text(b.release));
    let ea = seq![("release"@, bool_text(a.release))];
    let eb = seq![("release"@, bool_text(b.release))];
    lemma_pairs_bytes_concat(r.0 + ea, r.1);
    lemma_pairs_bytes_concat(r.0, ea);
    lemma_pairs_bytes_concat(r.0 + eb, r.1);
    lemma_pairs_bytes_concat(r.0, eb);
    let kb = encode_utf8("release"@) + seq![61u8];
    assert(pairs_bytes(ea) =~= kb + encode_utf8(bool_text(a.release)) + seq![0u8]) by {
        assert(ea.drop_last() =~= Seq::<(Seq<char>, Seq<char>)>::empty());
        assert(pairs_bytes(ea.drop_last()) =~= Seq::<u8>::empty());
    }
    assert(pairs_bytes(eb) =~= kb + encode_utf8(bool_text(b.release)) + seq![0u8]) by {
        assert(eb.drop_last() =~= Seq::<(Seq<char>, Seq<char>)>::empty());
        assert(pairs_bytes(eb.drop_last()) =~= Seq::<u8>::empty());
    }
    assert(encode_utf8(bool_text(a.release)) != encode_utf8(bool_text(b.release))) by {
        encode_utf8_decode_utf8(bool_text(a.release));
        encode_utf8_decode_utf8(bool_text(b.release));
    }
    lemma_middle_differs(
        kb,
        encode_utf8(bool_text(a.release)),
        encode_utf8(bool_text(b.release)),
        seq![0u8],
    );
    lemma_middle_differs(pairs_bytes(r.0), pairs_bytes(ea), pairs_bytes(eb), pairs_bytes(r.1));
    let fa = pairs_bytes(a.flags_spec());
    let fb = pairs_bytes(b.flags_spec());
    assert(fa == pairs_bytes(r.0) + pairs_bytes(ea) + pairs_bytes(r.1));
    assert(fb == pairs_bytes(r.0) + pairs_bytes(eb) + pairs_bytes(r.1));
    let head = encode_utf8(a.name@) + seq![0u8] + encode_utf8("rust-bin"@) + seq![0u8] + inputs_bytes(
        sort_inputs(seq![]),
    ) + pairs_bytes(ctx.env@) + encode_utf8(rustc_version) + seq![0u8];
    assert(hash_preimage(a.name@, "rust-bin"@, seq![], ctx.env@, rustc_version, a.flags_spec())
        =~= head + fa + Seq::<u8>::empty());
    assert(hash_preimage(b.name@, "rust-bin"@, seq![], ctx.env@, rustc_version, b.flags_spec())
        =~= head + fb + Seq::<u8>::empty());
    lemma_middle_differs(head, fa, fb, Seq::<u8>::empty());
}

} // verus!
