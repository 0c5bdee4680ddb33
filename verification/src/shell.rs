//! Shell recipes: a script run with `sh -c` in the project root, its inputs
//! and outputs named by glob patterns relative to the root.
//!
//! The caller expands the patterns this module roots, reads the files it
//! hashes and stats the files it compares; the plan says what to run and
//! how the cache is consulted.

use vstd::prelude::*;
use crate::error::Error;
use crate::hash::{compute_hash, compute_hash_spec, hash_string, hex_spec, inputs_view, sha256_spec};
use vstd::utf8::encode_utf8;
use crate::job::{CacheQuery, Invocation, Plan};
use crate::map::{OrdMap, lemma_lt_irrefl, lemma_lt_trans};
use crate::paths::{join_path, path_join, path_key, path_key_of};
use crate::runner::{invocation, invocation_is, key_view, merge_env, merged_env, copy_key};
use crate::text::{chars_of, clone_strings, extend_str, less_than, lt, string_of, sv};
use crate::types::{BuildContext, CacheKey, CacheStrategy, Recipe};

verus! {

broadcast use vstd::seq_lib::group_to_multiset_ensures;

/// The paths are in ascending path order (see `path_key`; paths that
/// compare equal may repeat).
pub open spec fn sorted_paths(s: Seq<Seq<char>>) -> bool {
    forall|i: int, j: int| 0 <= i < j < s.len() ==> !lt(path_key(#[trigger] s[j]), path_key(#[trigger] s[i]))
}

/// The paths in ascending path order, component by component: the same
/// paths, as many times each.
pub fn sort_paths(v: Vec<String>) -> (r: Vec<String>)
    ensures
        sorted_paths(sv(r@)),
        sv(r@).to_multiset() == sv(v@).to_multiset(),
{
    let mut r: Vec<String> = Vec::new();
    let mut keys: Vec<Vec<char>> = Vec::new();
    let mut i: usize = 0;
    while i < v.len()
        invariant
            i <= v@.len(),
            sorted_paths(sv(r@)),
            sv(r@).to_multiset() == sv(v@).take(i as int).to_multiset(),
            keys@.len() == r@.len(),
            forall|q: int| 0 <= q < keys@.len() ==> (#[trigger] keys@[q])@ == path_key(sv(r@)[q]),
        decreases v@.len() - i,
    {
        let x = v[i].clone();
        let xk = path_key_of(x.as_str());
        let mut p: usize = 0;
        while p < r.len() && !less_than(&xk, &keys[p])
            invariant
                p <= r@.len(),
                keys@.len() == r@.len(),
                forall|q: int| 0 <= q < keys@.len() ==> (#[trigger] keys@[q])@ == path_key(sv(r@)[q]),
                xk@ == path_key(x@),
                forall|q: int| 0 <= q < p ==> !lt(path_key(x@), path_key(#[trigger] sv(r@)[q])),
            decreases r@.len() - p,
        {
            assert(keys@[p as int]@ == path_key(sv(r@)[p as int]));
            p += 1;
        }
        if p < r.len() {
            assert(keys@[p as int]@ == path_key(sv(r@)[p as int]));
        }
        let ghost old_r = sv(r@);
        let ghost old_keys = keys@;
        r.insert(p, x);
        keys.insert(p, xk);
        proof {
            assert(sv(r@) =~= old_r.insert(p as int, x@));
            let s = sv(r@);
            assert forall|q: int| 0 <= q < keys@.len() implies (#[trigger] keys@[q])@ == path_key(s[q]) by {
                if q < p {
                    assert(keys@[q] == old_keys[q]);
                } else if q > p {
                    assert(keys@[q] == old_keys[q - 1]);
                }
            }
            assert forall|a: int, b: int| 0 <= a < b < s.len() implies !lt(
                path_key(#[trigger] s[b]),
                path_key(#[trigger] s[a]),
            ) by {
                let kx = path_key(x@);
                if b < p {
                    assert(s[a] == old_r[a] && s[b] == old_r[b]);
                } else if a > p {
                    assert(s[a] == old_r[a - 1] && s[b] == old_r[b - 1]);
                } else if a == p {
                    assert(s[b] == old_r[b - 1]);
                    assert(p < old_r.len());
                    assert(lt(kx, path_key(old_r[p as int])));
                    if lt(path_key(s[b]), kx) {
                        lemma_lt_trans(path_key(s[b]), kx, path_key(old_r[p as int]));
                        if b - 1 == p {
                            lemma_lt_irrefl(path_key(old_r[p as int]));
                        } else {
                            assert(!lt(path_key(old_r[b - 1]), path_key(old_r[p as int])));
                        }
                    }
                } else if b == p {
                    assert(s[a] == old_r[a]);
                    assert(!lt(kx, path_key(old_r[a])));
                } else {
                    assert(a < p && p < b);
                    assert(s[a] == old_r[a] && s[b] == old_r[b - 1]);
                }
            }
            assert(sv(v@).take(i + 1) =~= sv(v@).take(i as int).push(x@));
        }
        i += 1;
    }
    assert(sv(v@).take(v@.len() as int) =~= sv(v@));
    r
}

/// A shell recipe.
pub struct ShellRecipe {
    pub name: String,
    pub deps: Vec<String>,
    /// Glob patterns of the inputs, relative to the project root.
    pub inputs: Vec<String>,
    /// Glob patterns of the outputs, relative to the project root.
    pub outputs: Vec<String>,
    pub script: String,
    pub cache: CacheStrategy,
    pub env: OrdMap<String>,
}

/// Each pattern joined to the project root.
pub open spec fn rooted(root: Seq<char>, patterns: Seq<Seq<char>>) -> Seq<Seq<char>> {
    patterns.map_values(|p: Seq<char>| join_path(root, p))
}

/// The patterns joined to the root, in order.
fn root_patterns(root: &str, patterns: &Vec<String>) -> (r: Vec<String>)
    ensures
        sv(r@) == rooted(root@, sv(patterns@)),
{
    let mut r: Vec<String> = Vec::new();
    let mut i: usize = 0;
    while i < patterns.len()
        invariant
            i <= patterns@.len(),
            sv(r@) == rooted(root@, sv(patterns@)).take(i as int),
        decreases patterns@.len() - i,
    {
        let full = path_join(root, patterns[i].as_str());
        let ghost before = r@;
        r.push(full);
        proof {
            crate::text::lemma_sv_push(before, full);
        }
        assert(sv(r@) =~= rooted(root@, sv(patterns@)).take(i + 1));
        i += 1;
    }
    assert(rooted(root@, sv(patterns@)).take(patterns@.len() as int) =~= rooted(root@, sv(patterns@)));
    r
}

/// The text a dry run reports.
pub open spec fn shell_dry_text(script: Seq<char>) -> Seq<char> {
    "[dry-run] would run: sh -c '"@ + script + "'"@
}

/// The identity key: the hash of `name:target:profile`.
pub open spec fn identity_hash(name: Seq<char>, target: Seq<char>, profile: Seq<char>) -> Seq<char> {
    hex_spec(sha256_spec(encode_utf8(name + ":"@ + target + ":"@ + profile)))
}

/// The content key: the hash of the input files, the context's env
/// overridden by the recipe's, no toolchain and no flags.
pub open spec fn content_hash(
    name: Seq<char>,
    inputs: Seq<(Seq<char>, Option<Seq<u8>>)>,
    env: Seq<(Seq<char>, Seq<char>)>,
) -> Seq<char> {
    compute_hash_spec(name, "shell"@, inputs, env, ""@, seq![])
}

/// The error for a pattern the glob syntax refuses.
pub fn glob_error(root: &str, pattern: &str, detail: &str) -> (e: Error)
    ensures
        e matches Error::Config { path, message } && path@ == root@ && message@
            == "invalid glob pattern '"@ + pattern@ + "': "@ + detail@,
{
    let mut m = chars_of("invalid glob pattern '");
    extend_str(&mut m, pattern);
    extend_str(&mut m, "': ");
    extend_str(&mut m, detail);
    Error::Config { path: root.to_owned(), message: string_of(&m) }
}

/// What `glob::Pattern::new` reports of a pattern: `None` when the glob
/// syntax accepts it, otherwise the text of its error.
pub uninterp spec fn glob_pattern_error(pattern: Seq<char>) -> Option<Seq<char>>;

/// `glob::Pattern::new`: whether the glob syntax accepts a pattern, and the
/// error's text when it does not.  The contract names the outcome; nothing
/// more of the glob syntax is claimed.
#[verifier::external_body]
fn pattern_error(pattern: &str) -> (r: Option<String>)
    ensures
        match r {
            Some(m) => glob_pattern_error(pattern@) == Some(m@),
            None => glob_pattern_error(pattern@) is None,
        },
{
    match glob::Pattern::new(pattern) {
        Ok(_) => None,
        Err(e) => Some(e.to_string()),
    }
}

/// The first pattern, rooted, that the glob syntax refuses, with its error.
pub open spec fn first_bad_pattern(root: Seq<char>, patterns: Seq<Seq<char>>) -> Option<
    (Seq<char>, Seq<char>),
>
    decreases patterns.len(),
{
    if patterns.len() == 0 {
        None
    } else {
        match glob_pattern_error(join_path(root, patterns[0])) {
            Some(m) => Some((patterns[0], m)),
            None => first_bad_pattern(root, patterns.drop_first()),
        }
    }
}

/// Checks the patterns, each joined to `root`, against the glob syntax:
/// the first refused one is a configuration error about the root that
/// names the pattern and the glob error.
pub fn check_patterns(root: &str, patterns: &Vec<String>) -> (r: Result<(), Error>)
    ensures
        match first_bad_pattern(root@, sv(patterns@)) {
            None => r is Ok,
            Some((p, m)) => r matches Err(Error::Config { path, message }) && path@ == root@
                && message@ == "invalid glob pattern '"@ + p + "': "@ + m,
        },
{
    let ghost ps = sv(patterns@);
    let mut i: usize = 0;
    assert(ps.skip(0) =~= ps);
    while i < patterns.len()
        invariant
            i <= ps.len(),
            ps == sv(patterns@),
            first_bad_pattern(root@, ps) == first_bad_pattern(root@, ps.skip(i as int)),
        decreases ps.len() - i,
    {
        proof {
            let t = ps.skip(i as int);
            assert(t[0] == patterns@[i as int]@);
            assert(t.drop_first() =~= ps.skip(i + 1));
        }
        let full = path_join(root, patterns[i].as_str());
        match pattern_error(full.as_str()) {
            Some(m) => {
                return Err(glob_error(root, patterns[i].as_str(), m.as_str()));
            },
            None => {},
        }
        i += 1;
    }
    assert(ps.skip(ps.len() as int) =~= Seq::<Seq<char>>::empty());
    Ok(())
}

impl ShellRecipe {
    /// A recipe with no deps, inputs, outputs or env, checked by mtime.
    pub fn new(name: &str, script: &str) -> (r: Self)
        ensures
            r.name@ == name@,
            r.script@ == script@,
            r.deps@.len() == 0,
            r.inputs@.len() == 0,
            r.outputs@.len() == 0,
            r.cache == CacheStrategy::Mtime,
            r.env@.len() == 0,
    {
        ShellRecipe {
            name: name.to_owned(),
            deps: Vec::new(),
            inputs: Vec::new(),
            outputs: Vec::new(),
            script: script.to_owned(),
            cache: CacheStrategy::Mtime,
            env: OrdMap::new(),
        }
    }

    /// The glob patterns that find the inputs.
    pub fn input_patterns(&self, ctx: &BuildContext) -> (r: Vec<String>)
        ensures
            sv(r@) == rooted(ctx.project_root@, sv(self.inputs@)),
    {
        root_patterns(ctx.project_root.as_str(), &self.inputs)
    }

    /// The glob patterns that find the outputs.
    pub fn output_patterns(&self, ctx: &BuildContext) -> (r: Vec<String>)
        ensures
            sv(r@) == rooted(ctx.project_root@, sv(self.outputs@)),
    {
        root_patterns(ctx.project_root.as_str(), &self.outputs)
    }

    /// The key naming the recipe in this context, the same on every call.
    pub fn cache_key(&self, ctx: &BuildContext) -> (k: CacheKey)
        ensures
            key_view(k) == (
                self.name@,
                ctx.target@,
                ctx.profile@,
                identity_hash(self.name@, ctx.target@, ctx.profile@),
            ),
            k.hash@.len() == 64,
    {
        let mut s = chars_of(self.name.as_str());
        extend_str(&mut s, ":");
        extend_str(&mut s, ctx.target.as_str());
        extend_str(&mut s, ":");
        extend_str(&mut s, ctx.profile.as_str());
        let st = string_of(&s);
        CacheKey {
            recipe: self.name.clone(),
            target: ctx.target.clone(),
            profile: ctx.profile.clone(),
            hash: hash_string(st.as_str()),
        }
    }

    /// The key of a build from these input files (path and contents, in
    /// path order).
    pub fn content_key(&self, ctx: &BuildContext, inputs: &Vec<(String, Option<Vec<u8>>)>) -> (k:
        CacheKey)
        ensures
            key_view(k) == (
                self.name@,
                ctx.target@,
                ctx.profile@,
                content_hash(self.name@, inputs_view(inputs@), merge_env(ctx.env@, self.env@)),
            ),
    {
        let env = merged_env(&ctx.env, &self.env);
        let flags: OrdMap<String> = OrdMap::new();
        let hash = compute_hash(self.name.as_str(), "shell", inputs, &env, "", &flags);
        assert(flags@ =~= Seq::<(Seq<char>, Seq<char>)>::empty());
        CacheKey {
            recipe: self.name.clone(),
            target: ctx.target.clone(),
            profile: ctx.profile.clone(),
            hash,
        }
    }

    /// What running the recipe amounts to, given its input files (read
    /// for a content key) and the outputs its patterns find: a dry run
    /// reports the script; then the cache is consulted as the strategy says
    /// (mtime comparison, content key, or never); then `sh -c` runs the
    /// script in the project root with the context's env overridden by the
    /// recipe's and nothing else (no tool is named: a shell that cannot be
    /// started is an I/O error).  After a successful run the caller takes
    /// the outputs and, for a content key, the key to store from the files
    /// as they then are.
    pub fn plan(
        &self,
        ctx: &BuildContext,
        inputs: &Vec<(String, Option<Vec<u8>>)>,
        outputs: &Vec<String>,
    ) -> (p: Plan)
        ensures
            p.wf(),
            p.recipe_name@ == self.name@,
            p.dry_run_first,
            p.dry_run == ctx.dry_run,
            p.dry_run_text@ == shell_dry_text(self.script@),
            p.commands@.len() == 1,
            invocation_is(
                p.commands@[0],
                "sh"@,
                seq!["-c"@, self.script@],
                ctx.project_root@,
                merge_env(ctx.env@, self.env@),
                ""@,
                ""@,
                self.name@,
            ),
            sv(p.outputs@) == sv(outputs@),
            sv(p.cached_outputs@) == sv(outputs@),
            p.dirs@.len() == 0,
            match self.cache {
                CacheStrategy::Mtime => p.query matches Some(CacheQuery::Mtime) && p.store is None,
                CacheStrategy::Hash => {
                    let h = content_hash(
                        self.name@,
                        inputs_view(inputs@),
                        merge_env(ctx.env@, self.env@),
                    );
                    &&& p.query matches Some(CacheQuery::Key(q)) && key_view(q) == (
                        self.name@,
                        ctx.target@,
                        ctx.profile@,
                        h,
                    )
                    &&& p.store matches Some(s) && key_view(s) == (
                        self.name@,
                        ctx.target@,
                        ctx.profile@,
                        h,
                    )
                },
                CacheStrategy::Never => p.query is None && p.store is None,
            },
    {
        let (query, store) = match self.cache {
            CacheStrategy::Mtime => (Some(CacheQuery::Mtime), None),
            CacheStrategy::Hash => {
                let k = self.content_key(ctx, inputs);
                let q = copy_key(&k);
                (Some(CacheQuery::Key(q)), Some(k))
            },
            CacheStrategy::Never => (None, None),
        };
        let mut text = chars_of("[dry-run] would run: sh -c '");
        extend_str(&mut text, self.script.as_str());
        extend_str(&mut text, "'");
        let mut args: Vec<String> = Vec::new();
        args.push("-c".to_owned());
        args.push(self.script.clone());
        assert(sv(args@) =~= seq!["-c"@, self.script@]);
        let inv = invocation(
            "sh",
            args,
            ctx.project_root.clone(),
            ctx,
            &self.env,
            "",
            "",
            self.name.as_str(),
        );
        let mut commands: Vec<Invocation> = Vec::new();
        commands.push(inv);
        Plan {
            recipe_name: self.name.clone(),
            dry_run_first: true,
            query,
            store,
            dry_run: ctx.dry_run,
            dry_run_text: string_of(&text),
            commands,
            outputs: clone_strings(outputs),
            cached_outputs: clone_strings(outputs),
            dirs: Vec::new(),
        }
    }
}

impl Recipe for ShellRecipe {
    fn name(&self) -> (r: &str)
        ensures
            r@ == self.name@,
    {
        self.name.as_str()
    }

    fn deps(&self) -> (r: &[String])
        ensures
            r@ == self.deps@,
    {
        self.deps.as_slice()
    }

    fn cache_strategy(&self) -> (r: CacheStrategy)
        ensures
            r == self.cache,
    {
        self.cache
    }
}

} // verus!
