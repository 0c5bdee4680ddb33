//! Pieces shared by the tool recipes: environments, working directories,
//! cache keys, commands and plans.

use vstd::prelude::*;
use crate::hash::{compute_hash, compute_hash_spec};
use crate::job::{CacheQuery, Invocation, Plan};
use crate::map::{OrdMap, assoc_get, assoc_insert, lemma_lt_irrefl, sorted_keys};
use crate::text::lt;
use crate::paths::{join_path, path_join};
use crate::text::{chars_of, clone_strings, extend_str, join, join_strings, str_eq, string_of, sv};
use crate::types::{BuildContext, CacheKey};

verus! {

/// `base` with every entry of `extra` inserted in turn (so `extra` wins).
pub open spec fn merge_env(
    base: Seq<(Seq<char>, Seq<char>)>,
    extra: Seq<(Seq<char>, Seq<char>)>,
) -> Seq<(Seq<char>, Seq<char>)>
    decreases extra.len(),
{
    if extra.len() == 0 {
        base
    } else {
        assoc_insert(merge_env(base, extra.drop_last()), extra.last().0, extra.last().1)
    }
}

/// In a map view with increasing keys, the last entry's key occurs nowhere
/// else.
pub proof fn lemma_get_sorted_last<W>(s: Seq<(Seq<char>, W)>, k: Seq<char>)
    requires
        sorted_keys(s),
        s.len() > 0,
    ensures
        assoc_get(s, k) == (if s.last().0 == k {
            Some(s.last().1)
        } else {
            assoc_get(s.drop_last(), k)
        }),
    decreases s.len(),
{
    if s.len() == 1 {
        assert(s.drop_last() =~= Seq::<(Seq<char>, W)>::empty());
        assert(s[0] == s.last());
        assert(assoc_get(s.drop_first(), k) is None) by {
            assert(s.drop_first() =~= Seq::<(Seq<char>, W)>::empty());
        }
    } else {
        let t = s.drop_first();
        assert(sorted_keys(t)) by {
            assert forall|a: int, b: int| 0 <= a < b < t.len() implies lt(#[trigger] t[a].0, #[trigger] t[b].0) by {
                assert(t[a] == s[a + 1] && t[b] == s[b + 1]);
            }
        }
        assert(t.last() == s.last());
        assert(s.drop_last()[0] == s[0]);
        assert(s.drop_last().drop_first() =~= t.drop_last());
        if s[0].0 == k {
            assert(lt(s[0].0, s[s.len() - 1].0));
            if s.last().0 == k {
                lemma_lt_irrefl(k);
            }
        } else {
            lemma_get_sorted_last(t, k);
        }
    }
}

/// Merging `extra` over `base`: a key of `extra` takes its value there,
/// any other key keeps its value in `base`.
pub proof fn lemma_merge_env_get(
    base: Seq<(Seq<char>, Seq<char>)>,
    extra: Seq<(Seq<char>, Seq<char>)>,
    k: Seq<char>,
)
    requires
        sorted_keys(extra),
    ensures
        assoc_get(merge_env(base, extra), k) == (match assoc_get(extra, k) {
            Some(v) => Some(v),
            None => assoc_get(base, k),
        }),
    decreases extra.len(),
{
    if extra.len() > 0 {
        let e = extra.drop_last();
        assert(sorted_keys(e)) by {
            assert forall|a: int, b: int| 0 <= a < b < e.len() implies lt(#[trigger] e[a].0, #[trigger] e[b].0) by {
                assert(e[a] == extra[a] && e[b] == extra[b]);
            }
        }
        lemma_merge_env_get(base, e, k);
        lemma_get_sorted_last(extra, k);
        crate::map::law_get_insert(merge_env(base, e), extra.last().0, extra.last().1, k);
    } else {
        assert(assoc_get(extra, k) is None);
    }
}

/// `base` overridden by `extra`.
pub fn merged_env(base: &OrdMap<String>, extra: &OrdMap<String>) -> (m: OrdMap<String>)
    ensures
        m@ == merge_env(base@, extra@),
{
    let mut m = base.duplicate();
    let n = extra.len();
    let mut i: usize = 0;
    while i < n
        invariant
            i <= n,
            n == extra@.len(),
            m@ == merge_env(base@, extra@.take(i as int)),
        decreases n - i,
    {
        let (k, v) = extra.entry(i);
        m.insert(k.clone(), v.clone());
        assert(extra@.take(i + 1).drop_last() =~= extra@.take(i as int));
        i += 1;
    }
    assert(extra@.take(n as int) =~= extra@);
    m
}

/// The directory a recipe runs in: the project root for `.`, otherwise the
/// package joined to it.
pub open spec fn workdir_spec(root: Seq<char>, package: Seq<char>) -> Seq<char> {
    if package == "."@ {
        root
    } else {
        join_path(root, package)
    }
}

/// The directory a recipe runs in.
pub fn workdir_path(ctx: &BuildContext, package: &str) -> (r: String)
    ensures
        r@ == workdir_spec(ctx.project_root@, package@),
{
    if str_eq(package, ".") {
        ctx.project_root.clone()
    } else {
        path_join(ctx.project_root.as_str(), package)
    }
}

/// The fields of a cache key.
pub open spec fn key_view(k: CacheKey) -> (Seq<char>, Seq<char>, Seq<char>, Seq<char>) {
    (k.recipe@, k.target@, k.profile@, k.hash@)
}

/// The key of a recipe build: its name, the context's target and profile,
/// and the hash of name, type, env, toolchain id and flags.
pub open spec fn key_spec(
    name: Seq<char>,
    recipe_type: Seq<char>,
    ctx: BuildContext,
    env: Seq<(Seq<char>, Seq<char>)>,
    toolchain_id: Seq<char>,
    flags: Seq<(Seq<char>, Seq<char>)>,
) -> (Seq<char>, Seq<char>, Seq<char>, Seq<char>) {
    (
        name,
        ctx.target@,
        ctx.profile@,
        compute_hash_spec(name, recipe_type, seq![], env, toolchain_id, flags),
    )
}

/// The cache key of a recipe build (no input files are hashed).
pub fn make_cache_key(
    name: &str,
    recipe_type: &str,
    ctx: &BuildContext,
    env: &OrdMap<String>,
    toolchain_id: &str,
    flags: &OrdMap<String>,
) -> (k: CacheKey)
    ensures
        key_view(k) == key_spec(name@, recipe_type@, *ctx, env@, toolchain_id@, flags@),
        k.hash@.len() == 64,
{
    let inputs: Vec<(String, Option<Vec<u8>>)> = Vec::new();
    let hash = compute_hash(name, recipe_type, &inputs, env, toolchain_id, flags);
    assert(crate::hash::inputs_view(inputs@) =~= Seq::<(Seq<char>, Option<Seq<u8>>)>::empty());
    CacheKey {
        recipe: name.to_owned(),
        target: ctx.target.clone(),
        profile: ctx.profile.clone(),
        hash,
    }
}

/// A copy of a cache key.
pub fn copy_key(k: &CacheKey) -> (r: CacheKey)
    ensures
        key_view(r) == key_view(*k),
{
    CacheKey {
        recipe: k.recipe.clone(),
        target: k.target.clone(),
        profile: k.profile.clone(),
        hash: k.hash.clone(),
    }
}

/// `inv` runs `program` with `args` in `workdir`, with the context's env
/// overridden by `extra`, reporting `tool`/`hint` when the program is missing
/// and `failure` when it fails.
pub open spec fn invocation_is(
    inv: Invocation,
    program: Seq<char>,
    args: Seq<Seq<char>>,
    workdir: Seq<char>,
    env: Seq<(Seq<char>, Seq<char>)>,
    tool: Seq<char>,
    hint: Seq<char>,
    failure: Seq<char>,
) -> bool {
    &&& inv.program@ == program
    &&& sv(inv.args@) == args
    &&& inv.workdir@ == workdir
    &&& inv.env@ == env
    &&& inv.tool@ == tool
    &&& inv.hint@ == hint
    &&& inv.failure_name@ == failure
    &&& inv.clear_env
    &&& inv.capture
}

/// A command, with the context's env overridden by `extra`.
pub fn invocation(
    program: &str,
    args: Vec<String>,
    workdir: String,
    ctx: &BuildContext,
    extra: &OrdMap<String>,
    tool: &str,
    hint: &str,
    failure: &str,
) -> (inv: Invocation)
    ensures
        invocation_is(
            inv,
            program@,
            sv(args@),
            workdir@,
            merge_env(ctx.env@, extra@),
            tool@,
            hint@,
            failure@,
        ),
{
    Invocation {
        program: program.to_owned(),
        args,
        workdir,
        env: merged_env(&ctx.env, extra),
        tool: tool.to_owned(),
        hint: hint.to_owned(),
        failure_name: failure.to_owned(),
        clear_env: true,
        capture: true,
    }
}

/// `inv` is like [`invocation_is`] but leaves its output on the terminal.
pub open spec fn status_invocation_is(
    inv: Invocation,
    program: Seq<char>,
    args: Seq<Seq<char>>,
    workdir: Seq<char>,
    env: Seq<(Seq<char>, Seq<char>)>,
    tool: Seq<char>,
    hint: Seq<char>,
    failure: Seq<char>,
) -> bool {
    &&& inv.program@ == program
    &&& sv(inv.args@) == args
    &&& inv.workdir@ == workdir
    &&& inv.env@ == env
    &&& inv.tool@ == tool
    &&& inv.hint@ == hint
    &&& inv.failure_name@ == failure
    &&& inv.clear_env
    &&& !inv.capture
}

/// A command whose output goes to the terminal, with the context's env
/// overridden by `extra`.
pub fn status_invocation(
    program: &str,
    args: Vec<String>,
    workdir: String,
    ctx: &BuildContext,
    extra: &OrdMap<String>,
    tool: &str,
    hint: &str,
    failure: &str,
) -> (inv: Invocation)
    ensures
        status_invocation_is(
            inv,
            program@,
            sv(args@),
            workdir@,
            merge_env(ctx.env@, extra@),
            tool@,
            hint@,
            failure@,
        ),
{
    Invocation {
        program: program.to_owned(),
        args,
        workdir,
        env: merged_env(&ctx.env, extra),
        tool: tool.to_owned(),
        hint: hint.to_owned(),
        failure_name: failure.to_owned(),
        clear_env: true,
        capture: false,
    }
}

/// `p` is the plan of a recipe named `name`: with a
/// key, the cache is consulted first and a successful build is stored under
/// it; without one, a dry run ends at once.  No outputs are reported.
pub open spec fn tool_plan_is(
    p: Plan,
    name: Seq<char>,
    ctx: BuildContext,
    key: Option<(Seq<char>, Seq<char>, Seq<char>, Seq<char>)>,
    dry_text: Seq<char>,
) -> bool {
    &&& p.recipe_name@ == name
    &&& p.dry_run == ctx.dry_run
    &&& p.dry_run_text@ == dry_text
    &&& p.outputs@.len() == 0
    &&& p.cached_outputs@.len() == 0
    &&& p.dirs@.len() == 0
    &&& match key {
        Some(k) => {
            &&& !p.dry_run_first
            &&& p.query matches Some(CacheQuery::Key(q)) && key_view(q) == k
            &&& p.store matches Some(s) && key_view(s) == k
        },
        None => p.dry_run_first && p.query is None && p.store is None,
    }
}

/// The plan of a tool recipe.
pub fn tool_plan(
    name: &str,
    ctx: &BuildContext,
    key: Option<CacheKey>,
    dry_text: String,
    commands: Vec<Invocation>,
) -> (p: Plan)
    ensures
        tool_plan_is(
            p,
            name@,
            *ctx,
            match key {
                Some(k) => Some(key_view(k)),
                None => None,
            },
            dry_text@,
        ),
        p.commands@ == commands@,
{
    let (dry_run_first, query, store) = match key {
        Some(k) => {
            let q = copy_key(&k);
            (false, Some(CacheQuery::Key(q)), Some(k))
        },
        None => (true, None, None),
    };
    Plan {
        recipe_name: name.to_owned(),
        dry_run_first,
        query,
        store,
        dry_run: ctx.dry_run,
        dry_run_text: dry_text,
        commands,
        outputs: Vec::new(),
        cached_outputs: Vec::new(),
        dirs: Vec::new(),
    }
}

/// `a` followed by `b`.
pub fn concat2(a: &str, b: &str) -> (r: String)
    ensures
        r@ == a@ + b@,
{
    let mut v = chars_of(a);
    extend_str(&mut v, b);
    string_of(&v)
}

/// `a`, `b` and `c` in a row.
pub fn concat3(a: &str, b: &str, c: &str) -> (r: String)
    ensures
        r@ == a@ + b@ + c@,
{
    let mut v = chars_of(a);
    extend_str(&mut v, b);
    extend_str(&mut v, c);
    string_of(&v)
}

/// A one-entry map.
pub fn single(k: &str, v: String) -> (m: OrdMap<String>)
    ensures
        m@ == seq![(k@, v@)],
{
    let mut m = OrdMap::new();
    m.insert(k.to_owned(), v);
    m
}

/// A vector of strings from string slices.
pub fn strs(parts: &[&str]) -> (v: Vec<String>)
    ensures
        v@.len() == parts@.len(),
        forall|i: int| 0 <= i < parts@.len() ==> (#[trigger] v@[i])@ == parts@[i]@,
{
    let mut v: Vec<String> = Vec::new();
    let mut i: usize = 0;
    while i < parts.len()
        invariant
            i <= parts@.len(),
            v@.len() == i,
            forall|j: int| 0 <= j < i ==> (#[trigger] v@[j])@ == parts@[j]@,
        decreases parts@.len() - i,
    {
        v.push(parts[i].to_owned());
        i += 1;
    }
    v
}

} // verus!
