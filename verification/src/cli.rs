//! The command line's decisions: which targets a build is for, which
//! recipes it needs, how the configured recipes become runnable ones, and
//! the text of the reports it prints.

use vstd::prelude::*;
use vstd::string::StringSliceAdditionalSpecFns;
use crate::cc::{CBinRecipe, CLibRecipe};
use crate::config::{CacheMode, Config, Recipe as ConfigRecipe, RecipeType, RecipeV};
use crate::engine::{ExecutionReport, count_built, count_cached, count_failed};
use crate::error::{Error, message_spec};
use crate::go::{GoBinRecipe, GoTestRecipe};
use crate::hash::{file_digest_spec, hash_contents};
use crate::graph::{Dag, DagV, concat, cycle_report, reachable_names, wave_indices, waves_spec};
use crate::map::{OrdMap, assoc_get, assoc_keys, dep_lists_spec, dep_view};
use crate::rust::{RustBinRecipe, RustLibRecipe, RustTestRecipe};
use crate::shell::ShellRecipe;
use crate::text::{
    chars_of, clone_strings, decimal, decimal_chars, extend, extend_str, join, join_strings, str_eq,
    string_of, sv, vec_contains,
};
use crate::types::{CacheLookup, CacheStrategy};
use crate::mustfile::{recipe_type_list_name, recipe_type_name, type_list_name, variant_name};

verus! {

// ---------------------------------------------------------------------------
// Targets
// ---------------------------------------------------------------------------

/// Each given target, a group of the `[targets]` table standing for its
/// triples.
pub open spec fn expand_targets(raw: Seq<Seq<char>>, groups: Seq<(Seq<char>, Seq<String>)>) -> Seq<
    Seq<char>,
>
    decreases raw.len(),
{
    if raw.len() == 0 {
        seq![]
    } else {
        expand_targets(raw.drop_last(), groups) + match assoc_get(groups, raw.last()) {
            Some(t) => sv(t),
            None => seq![raw.last()],
        }
    }
}

/// The names without repeats, each where it first occurs.
pub open spec fn dedup(s: Seq<Seq<char>>) -> Seq<Seq<char>>
    decreases s.len(),
{
    if s.len() == 0 {
        seq![]
    } else {
        let d = dedup(s.drop_last());
        if d.contains(s.last()) {
            d
        } else {
            d.push(s.last())
        }
    }
}

/// The targets of a build: `host` when none is given; otherwise the given
/// ones with groups expanded, without repeats, in order of first
/// occurrence.
pub open spec fn resolve_targets_spec(raw: Seq<Seq<char>>, groups: Seq<(Seq<char>, Seq<String>)>) -> Seq<
    Seq<char>,
> {
    if raw.len() == 0 {
        seq!["host"@]
    } else {
        dedup(expand_targets(raw, groups))
    }
}

proof fn lemma_dedup(s: Seq<Seq<char>>)
    ensures
        forall|i: int, j: int| 0 <= i < j < dedup(s).len() ==> dedup(s)[i] != dedup(s)[j],
        forall|x: Seq<char>| #[trigger] dedup(s).contains(x) <==> s.contains(x),
    decreases s.len(),
{
    if s.len() > 0 {
        let p = s.drop_last();
        lemma_dedup(p);
        let d = dedup(p);
        assert forall|x: Seq<char>| #[trigger] dedup(s).contains(x) <==> s.contains(x) by {
            if s.contains(x) {
                let i = choose|i: int| 0 <= i < s.len() && s[i] == x;
                if i < s.len() - 1 {
                    assert(p[i] == x);
                    assert(p.contains(x));
                }
            }
            if p.contains(x) {
                let i = choose|i: int| 0 <= i < p.len() && p[i] == x;
                assert(s[i] == x);
            }
            if d.contains(s.last()) {
            } else {
                assert(d.push(s.last())[d.len() as int] == s.last());
                if d.push(s.last()).contains(x) {
                    let i = choose|i: int| 0 <= i < d.len() + 1 && d.push(s.last())[i] == x;
                    if i < d.len() {
                        assert(d[i] == x);
                    }
                }
                if d.contains(x) {
                    let i = choose|i: int| 0 <= i < d.len() && d[i] == x;
                    assert(d.push(s.last())[i] == x);
                }
            }
            assert(s[s.len() - 1] == s.last());
        }
        if !d.contains(s.last()) {
            assert forall|i: int, j: int| 0 <= i < j < d.push(s.last()).len() implies d.push(s.last())[i]
                != d.push(s.last())[j] by {
                if j == d.len() {
                    assert(d.push(s.last())[i] == d[i]);
                    if d[i] == s.last() {
                        assert(d.contains(s.last()));
                    }
                }
            }
        }
    }
}

/// The targets of a build never repeat, and, when targets are given, are
/// exactly the given ones with groups expanded.
pub proof fn law_resolve_targets(raw: Seq<Seq<char>>, groups: Seq<(Seq<char>, Seq<String>)>)
    ensures
        ({
            let r = resolve_targets_spec(raw, groups);
            &&& forall|i: int, j: int| 0 <= i < j < r.len() ==> r[i] != r[j]
            &&& raw.len() > 0 ==> forall|x: Seq<char>| #[trigger] r.contains(x)
                <==> expand_targets(raw, groups).contains(x)
        }),
{
    if raw.len() > 0 {
        lemma_dedup(expand_targets(raw, groups));
    }
}

/// Appends `s` unless it is already there.
fn push_new(v: &mut Vec<String>, s: &str)
    ensures
        sv(final(v)@) == (if sv(old(v)@).contains(s@) {
            sv(old(v)@)
        } else {
            sv(old(v)@).push(s@)
        }),
{
    if !vec_contains(v, s) {
        let ghost before = v@;
        let x = s.to_owned();
        v.push(x);
        proof {
            crate::text::lemma_sv_push(before, x);
        }
    }
}

/// The targets a build is for.
pub fn resolve_targets(raw_targets: &Vec<String>, config: &Config) -> (r: Vec<String>)
    ensures
        sv(r@) == resolve_targets_spec(sv(raw_targets@), config.targets@),
{
    if raw_targets.len() == 0 {
        let mut r: Vec<String> = Vec::new();
        r.push("host".to_owned());
        assert(sv(r@) =~= seq!["host"@]);
        return r;
    }
    let ghost raw = sv(raw_targets@);
    let mut resolved: Vec<String> = Vec::new();
    let mut i: usize = 0;
    assert(raw.take(0) =~= Seq::<Seq<char>>::empty());
    assert(sv(resolved@) =~= Seq::<Seq<char>>::empty());
    while i < raw_targets.len()
        invariant
            i <= raw.len(),
            raw == sv(raw_targets@),
            sv(resolved@) == dedup(expand_targets(raw.take(i as int), config.targets@)),
        decreases raw.len() - i,
    {
        let t = &raw_targets[i];
        let ghost base = expand_targets(raw.take(i as int), config.targets@);
        assert(raw.take(i + 1).drop_last() =~= raw.take(i as int));
        assert(raw.take(i + 1).last() == t@);
        match config.targets.get(t.as_str()) {
            Some(triples) => {
                let mut j: usize = 0;
                assert(base + sv(triples@).take(0) =~= base);
                while j < triples.len()
                    invariant
                        j <= triples@.len(),
                        sv(resolved@) == dedup(base + sv(triples@).take(j as int)),
                    decreases triples@.len() - j,
                {
                    let ghost prev = base + sv(triples@).take(j as int);
                    assert(base + sv(triples@).take(j + 1) =~= prev.push(triples@[j as int]@));
                    assert(prev.push(triples@[j as int]@).drop_last() =~= prev);
                    push_new(&mut resolved, triples[j].as_str());
                    j += 1;
                }
                assert(sv(triples@).take(triples@.len() as int) =~= sv(triples@));
            },
            None => {
                assert(base + seq![t@] =~= base.push(t@));
                assert(base.push(t@).drop_last() =~= base);
                push_new(&mut resolved, t.as_str());
            },
        }
        i += 1;
    }
    assert(raw.take(raw.len() as int) =~= raw);
    resolved
}

/// The recipes a command runs: those given, or its default one.
pub fn requested_recipes(given: Vec<String>, default: &str) -> (r: Vec<String>)
    ensures
        sv(r@) == (if given@.len() == 0 {
            seq![default@]
        } else {
            sv(given@)
        }),
{
    if given.len() == 0 {
        let mut r: Vec<String> = Vec::new();
        r.push(default.to_owned());
        assert(sv(r@) =~= seq![default@]);
        r
    } else {
        given
    }
}

// ---------------------------------------------------------------------------
// The recipes a build needs
// ---------------------------------------------------------------------------

/// The graph of all the recipes of a configuration.
pub open spec fn recipe_dag_spec(recipes: Seq<(Seq<char>, RecipeV)>) -> DagV {
    DagV {
        nodes: assoc_keys(recipes),
        deps: recipes.map_values(|e: (Seq<char>, RecipeV)| e.1.deps),
    }
}

/// The graph of all recipes, or, with `within`, of those named in `keep`
/// with their deps among them.
pub fn recipe_graph(config: &Config, keep: &Vec<String>, within: bool) -> (d: Dag)
    ensures
        d@.nodes == assoc_keys(dep_lists_spec(config.recipe@, sv(keep@), within)),
        d@.deps == dep_lists_spec(config.recipe@, sv(keep@), within).map_values(
            |e: (Seq<char>, Seq<Seq<char>>)| e.1,
        ),
        !within ==> d@ == recipe_dag_spec(config.recipe@),
{
    let m = config.recipe.dep_lists(keep, within);
    let ghost mv = m@;
    let d = Dag::new(m);
    proof {
        if !within {
            let full = config.recipe@.map_values(|e: (Seq<char>, RecipeV)| (e.0, e.1.deps));
            assert(dep_view(mv) == full);
            assert(dep_view(mv).len() == mv.len());
            assert(full.len() == config.recipe@.len());
            assert(d@.nodes.len() == mv.len());
            assert(assoc_keys(config.recipe@).len() == config.recipe@.len());
            assert forall|i: int| 0 <= i < mv.len() implies d@.nodes[i] == assoc_keys(config.recipe@)[i]
                && d@.deps[i] == config.recipe@[i].1.deps by {
                assert(dep_view(mv)[i] == full[i]);
            }
            assert(d@.nodes =~= assoc_keys(config.recipe@));
            assert(d@.deps =~= recipe_dag_spec(config.recipe@).deps);
        }
    }
    assert(d@.nodes =~= assoc_keys(dep_lists_spec(config.recipe@, sv(keep@), within))) by {
        assert(dep_view(mv).len() == mv.len());
        assert forall|i: int| 0 <= i < mv.len() implies d@.nodes[i] == assoc_keys(
            dep_lists_spec(config.recipe@, sv(keep@), within),
        )[i] by {
            assert(dep_view(mv)[i].0 == mv[i].0);
        }
    }
    assert(d@.deps =~= dep_lists_spec(config.recipe@, sv(keep@), within).map_values(
        |e: (Seq<char>, Seq<Seq<char>>)| e.1,
    )) by {
        assert forall|i: int| 0 <= i < mv.len() implies d@.deps[i] == dep_lists_spec(
            config.recipe@,
            sv(keep@),
            within,
        ).map_values(|e: (Seq<char>, Seq<Seq<char>>)| e.1)[i] by {
            assert(dep_view(mv)[i].1 == sv(mv[i].1));
        }
    }
    d
}

/// `names` added to `acc` in turn, each unless already there.
pub open spec fn add_new(acc: Seq<Seq<char>>, names: Seq<Seq<char>>) -> Seq<Seq<char>>
    decreases names.len(),
{
    if names.len() == 0 {
        acc
    } else {
        let a = add_new(acc, names.drop_last());
        if a.contains(names.last()) {
            a
        } else {
            a.push(names.last())
        }
    }
}

/// The recipes needed by the given targets, in turn: those each reaches,
/// without repeats; the first target that is not a recipe is an error
/// (`Some` of its name), and so is a cycle in the graph (`None`).
pub open spec fn reach_spec(
    d: DagV,
    recipes: Seq<(Seq<char>, RecipeV)>,
    targets: Seq<Seq<char>>,
) -> Result<Seq<Seq<char>>, Option<Seq<char>>>
    decreases targets.len(),
{
    if targets.len() == 0 {
        Ok(seq![])
    } else {
        match reach_spec(d, recipes, targets.drop_last()) {
            Err(e) => Err(e),
            Ok(acc) => {
                let t = targets.last();
                if assoc_get(recipes, t) is None {
                    Err(Some(t))
                } else if waves_spec(d) is None {
                    Err(None)
                } else {
                    Ok(add_new(acc, reachable_names(d, t, concat(wave_indices(d)))))
                }
            },
        }
    }
}

proof fn lemma_reach_err_prefix(
    d: DagV,
    recipes: Seq<(Seq<char>, RecipeV)>,
    targets: Seq<Seq<char>>,
    k: int,
)
    requires
        0 <= k <= targets.len(),
        reach_spec(d, recipes, targets.take(k)) is Err,
    ensures
        reach_spec(d, recipes, targets) == reach_spec(d, recipes, targets.take(k)),
    decreases targets.len() - k,
{
    if k < targets.len() {
        assert(targets.take(k + 1).drop_last() =~= targets.take(k));
        lemma_reach_err_prefix(d, recipes, targets, k + 1);
    } else {
        assert(targets.take(k) =~= targets);
    }
}

/// The recipes the targets need (the graph `dag` being that of all
/// recipes).
pub fn reachable_recipes(config: &Config, dag: &Dag, targets: &Vec<String>) -> (r: Result<
    Vec<String>,
    Error,
>)
    ensures
        match r {
            Ok(v) => reach_spec(dag@, config.recipe@, sv(targets@)) == Ok::<
                Seq<Seq<char>>,
                Option<Seq<char>>,
            >(sv(v@)),
            Err(e) => match reach_spec(dag@, config.recipe@, sv(targets@)) {
                Err(Some(n)) => e matches Error::UnknownRecipe { name } && name@ == n,
                Err(None) => e matches Error::CycleDetected { cycle } && cycle_report(dag@, cycle@),
                Ok(_) => false,
            },
        },
{
    let ghost ts = sv(targets@);
    let mut acc: Vec<String> = Vec::new();
    let mut i: usize = 0;
    assert(sv(acc@) =~= Seq::<Seq<char>>::empty());
    while i < targets.len()
        invariant
            i <= ts.len(),
            ts == sv(targets@),
            reach_spec(dag@, config.recipe@, ts.take(i as int)) == Ok::<
                Seq<Seq<char>>,
                Option<Seq<char>>,
            >(sv(acc@)),
        decreases ts.len() - i,
    {
        let t = &targets[i];
        assert(ts.take(i + 1).drop_last() =~= ts.take(i as int));
        assert(ts.take(i + 1).last() == t@);
        if !config.recipe.contains_key(t.as_str()) {
            proof {
                lemma_reach_err_prefix(dag@, config.recipe@, ts, i + 1);
            }
            return Err(Error::UnknownRecipe { name: t.clone() });
        }
        let names = match dag.reachable_from(t.as_str()) {
            Ok(n) => n,
            Err(e) => {
                proof {
                    lemma_reach_err_prefix(dag@, config.recipe@, ts, i + 1);
                }
                return Err(e);
            },
        };
        let ghost base = sv(acc@);
        let mut j: usize = 0;
        assert(sv(names@).take(0) =~= Seq::<Seq<char>>::empty());
        while j < names.len()
            invariant
                j <= names@.len(),
                sv(acc@) == add_new(base, sv(names@).take(j as int)),
            decreases names@.len() - j,
        {
            assert(sv(names@).take(j + 1).drop_last() =~= sv(names@).take(j as int));
            assert(sv(names@).take(j + 1).last() == names@[j as int]@);
            push_new(&mut acc, names[j].as_str());
            j += 1;
        }
        assert(sv(names@).take(names@.len() as int) =~= sv(names@));
        i += 1;
    }
    assert(ts.take(ts.len() as int) =~= ts);
    Ok(acc)
}

// ---------------------------------------------------------------------------
// Runnable recipes from the configuration
// ---------------------------------------------------------------------------

/// `r` is the runnable recipe `shell_from_config` makes.
pub open spec fn made_shell(name: Seq<char>, cfg: ConfigRecipe, env: Seq<(Seq<char>, Seq<char>)>, r: ShellRecipe) -> bool {
    &&& r.name@ == name
    &&& r.script@ == (match cfg.script {
            Some(s) => s@,
            None => seq![],
        })
    &&& sv(r.deps@) == sv(cfg.deps@)
    &&& sv(r.inputs@) == sv(cfg.inputs@)
    &&& sv(r.outputs@) == sv(cfg.outputs@)
    &&& r.env@ == env
    &&& r.cache == (if cfg.cache == Some(CacheMode::Hash) {
            CacheStrategy::Hash
        } else {
            CacheStrategy::Mtime
        })
}

/// `r` is the runnable recipe `rust_bin_from_config` makes.
pub open spec fn made_rust_bin(name: Seq<char>, cfg: ConfigRecipe, profile: Seq<char>, env: Seq<(Seq<char>, Seq<char>)>, r: RustBinRecipe) -> bool {
    &&& r.name@ == name
    &&& r.package@ == package_or(cfg@, name)
    &&& sv(r.deps@) == sv(cfg.deps@)
    &&& sv(r.features@) == sv(cfg.features@)
    &&& r.release == (profile == "release"@)
    &&& r.env@ == env
}

/// `r` is the runnable recipe `rust_lib_from_config` makes.
pub open spec fn made_rust_lib(name: Seq<char>, cfg: ConfigRecipe, profile: Seq<char>, env: Seq<(Seq<char>, Seq<char>)>, r: RustLibRecipe) -> bool {
    &&& r.name@ == name
    &&& r.package@ == package_or(cfg@, name)
    &&& sv(r.deps@) == sv(cfg.deps@)
    &&& sv(r.features@) == sv(cfg.features@)
    &&& r.release == (profile == "release"@)
    &&& r.env@ == env
}

/// `r` is the runnable recipe `rust_test_from_config` makes.
pub open spec fn made_rust_test(name: Seq<char>, cfg: ConfigRecipe, env: Seq<(Seq<char>, Seq<char>)>, r: RustTestRecipe) -> bool {
    &&& r.name@ == name
    &&& r.package@ == package_or(cfg@, name)
    &&& sv(r.deps@) == sv(cfg.deps@)
    &&& r.test_filter is None
    &&& r.env@ == env
}

/// `r` is the runnable recipe `go_bin_from_config` makes.
pub open spec fn made_go_bin(name: Seq<char>, cfg: ConfigRecipe, env: Seq<(Seq<char>, Seq<char>)>, r: GoBinRecipe) -> bool {
    &&& r.name@ == name
    &&& r.package@ == package_or(cfg@, "."@)
    &&& sv(r.deps@) == sv(cfg.deps@)
    &&& crate::config::opt(r.ldflags) == cfg@.ldflags
    &&& r.build_tags@.len() == 0
    &&& r.env@ == env
}

/// `r` is the runnable recipe `go_test_from_config` makes.
pub open spec fn made_go_test(name: Seq<char>, cfg: ConfigRecipe, env: Seq<(Seq<char>, Seq<char>)>, r: GoTestRecipe) -> bool {
    &&& r.name@ == name
    &&& r.package@ == package_or(cfg@, "./..."@)
    &&& sv(r.deps@) == sv(cfg.deps@)
    &&& r.env@ == env
}

/// `r` is the runnable recipe `c_bin_from_config` makes.
pub open spec fn made_c_bin(name: Seq<char>, cfg: ConfigRecipe, env: Seq<(Seq<char>, Seq<char>)>, r: CBinRecipe) -> bool {
    &&& r.name@ == name
    &&& sv(r.deps@) == sv(cfg.deps@)
    &&& sv(r.sources@) == sv(cfg.sources@)
    &&& sv(r.includes@) == sv(cfg.includes@)
    &&& sv(r.link_libs@) == sv(cfg.link_libs@)
    &&& r.cflags@.len() == 0
    &&& r.env@ == env
    &&& r.cross@ == cfg.cross@
}

/// `r` is the runnable recipe `c_lib_from_config` makes.
pub open spec fn made_c_lib(name: Seq<char>, cfg: ConfigRecipe, env: Seq<(Seq<char>, Seq<char>)>, r: CLibRecipe) -> bool {
    &&& r.name@ == name
    &&& sv(r.deps@) == sv(cfg.deps@)
    &&& sv(r.sources@) == sv(cfg.sources@)
    &&& sv(r.includes@) == sv(cfg.includes@)
    &&& sv(r.link_libs@) == sv(cfg.link_libs@)
    &&& r.cflags@.len() == 0
    &&& r.env@ == env
    &&& r.cross@ == cfg.cross@
    &&& r.static_lib
}

/// The shell recipe a configured recipe describes: checked by content
/// hash when its cache mode is `hash`, by mtime otherwise.
pub fn shell_from_config(name: &str, cfg: &ConfigRecipe, env: OrdMap<String>) -> (r: ShellRecipe)
    ensures
        made_shell(name@, *cfg, env@, r),

{
    let script = match &cfg.script {
        Some(s) => s.clone(),
        None => String::new(),
    };
    let mut r = ShellRecipe::new(name, script.as_str());
    r.deps = clone_strings(&cfg.deps);
    r.inputs = clone_strings(&cfg.inputs);
    r.outputs = clone_strings(&cfg.outputs);
    r.env = env;
    match cfg.cache {
        Some(CacheMode::Hash) => {
            r.cache = CacheStrategy::Hash;
        },
        _ => {},
    }
    r
}

/// The package a configured recipe names, or `dflt`.
pub open spec fn package_or(cfg: RecipeV, dflt: Seq<char>) -> Seq<char> {
    match cfg.package {
        Some(p) => p,
        None => dflt,
    }
}

fn package_of(cfg: &ConfigRecipe, dflt: &str) -> (r: String)
    ensures
        r@ == package_or(cfg@, dflt@),
{
    match &cfg.package {
        Some(p) => p.clone(),
        None => dflt.to_owned(),
    }
}

/// The Rust binary recipe a configured recipe describes (release builds
/// for the `release` profile).
pub fn rust_bin_from_config(name: &str, cfg: &ConfigRecipe, profile: &str, env: OrdMap<String>) -> (r:
    RustBinRecipe)
    ensures
        made_rust_bin(name@, *cfg, profile@, env@, r),

{
    let package = package_of(cfg, name);
    let mut r = RustBinRecipe::new(name, package.as_str());
    r.deps = clone_strings(&cfg.deps);
    r.features = clone_strings(&cfg.features);
    r.release = str_eq(profile, "release");
    r.env = env;
    r
}

/// The Rust library recipe a configured recipe describes.
pub fn rust_lib_from_config(name: &str, cfg: &ConfigRecipe, profile: &str, env: OrdMap<String>) -> (r:
    RustLibRecipe)
    ensures
        made_rust_lib(name@, *cfg, profile@, env@, r),

{
    let package = package_of(cfg, name);
    let mut r = RustLibRecipe::new(name, package.as_str());
    r.deps = clone_strings(&cfg.deps);
    r.features = clone_strings(&cfg.features);
    r.release = str_eq(profile, "release");
    r.env = env;
    r
}

/// The Rust test recipe a configured recipe describes.
pub fn rust_test_from_config(name: &str, cfg: &ConfigRecipe, env: OrdMap<String>) -> (r:
    RustTestRecipe)
    ensures
        made_rust_test(name@, *cfg, env@, r),

{
    let package = package_of(cfg, name);
    let mut r = RustTestRecipe::new(name, package.as_str());
    r.deps = clone_strings(&cfg.deps);
    r.env = env;
    r
}

/// The Go binary recipe a configured recipe describes (package `.` by
/// default).
pub fn go_bin_from_config(name: &str, cfg: &ConfigRecipe, env: OrdMap<String>) -> (r: GoBinRecipe)
    ensures
        made_go_bin(name@, *cfg, env@, r),

{
    GoBinRecipe {
        name: name.to_owned(),
        package: package_of(cfg, "."),
        deps: clone_strings(&cfg.deps),
        ldflags: match &cfg.ldflags {
            Some(l) => Some(l.clone()),
            None => None,
        },
        build_tags: Vec::new(),
        env,
    }
}

/// The Go test recipe a configured recipe describes (package `./...` by
/// default).
pub fn go_test_from_config(name: &str, cfg: &ConfigRecipe, env: OrdMap<String>) -> (r: GoTestRecipe)
    ensures
        made_go_test(name@, *cfg, env@, r),

{
    GoTestRecipe {
        name: name.to_owned(),
        package: package_of(cfg, "./..."),
        deps: clone_strings(&cfg.deps),
        env,
    }
}

/// The C binary recipe a configured recipe describes (no extra flags).
pub fn c_bin_from_config(name: &str, cfg: &ConfigRecipe, env: OrdMap<String>) -> (r: CBinRecipe)
    ensures
        made_c_bin(name@, *cfg, env@, r),

{
    CBinRecipe {
        name: name.to_owned(),
        deps: clone_strings(&cfg.deps),
        sources: clone_strings(&cfg.sources),
        includes: clone_strings(&cfg.includes),
        link_libs: clone_strings(&cfg.link_libs),
        cflags: Vec::new(),
        env,
        cross: cfg.cross.duplicate_cross(),
    }
}

/// The C library recipe a configured recipe describes (a static library,
/// no extra flags).
pub fn c_lib_from_config(name: &str, cfg: &ConfigRecipe, env: OrdMap<String>) -> (r: CLibRecipe)
    ensures
        made_c_lib(name@, *cfg, env@, r),

{
    CLibRecipe {
        name: name.to_owned(),
        deps: clone_strings(&cfg.deps),
        sources: clone_strings(&cfg.sources),
        includes: clone_strings(&cfg.includes),
        link_libs: clone_strings(&cfg.link_libs),
        cflags: Vec::new(),
        env,
        cross: cfg.cross.duplicate_cross(),
        static_lib: true,
    }
}

/// A configured recipe that the command line can run.
pub enum RunnableRecipe {
    Shell(ShellRecipe),
    RustBin(RustBinRecipe),
    RustLib(RustLibRecipe),
    RustTest(RustTestRecipe),
    GoBin(GoBinRecipe),
    GoTest(GoTestRecipe),
    CBin(CBinRecipe),
    CLib(CLibRecipe),
}

/// The message for a recipe type the command line does not run.
pub open spec fn unsupported_message(t: RecipeType) -> Seq<char> {
    "recipe type '"@ + crate::mustfile::tag_of(t) + "' cannot be run from the command line"@
}

/// The runnable recipe of a configured one, by its type: shell, Rust,
/// Go and C recipes run; any other type is a configuration error naming
/// the recipe.
pub fn runnable_from_config(name: &str, cfg: &ConfigRecipe, profile: &str, env: OrdMap<String>) -> (r:
    Result<RunnableRecipe, Error>)
    ensures
        match cfg.recipe_type {
            RecipeType::Shell => r matches Ok(RunnableRecipe::Shell(x)) && made_shell(name@, *cfg, env@, x),
            RecipeType::RustBin => r matches Ok(RunnableRecipe::RustBin(x)) && made_rust_bin(
                name@,
                *cfg,
                profile@,
                env@,
                x,
            ),
            RecipeType::RustLib => r matches Ok(RunnableRecipe::RustLib(x)) && made_rust_lib(
                name@,
                *cfg,
                profile@,
                env@,
                x,
            ),
            RecipeType::RustTest => r matches Ok(RunnableRecipe::RustTest(x)) && made_rust_test(
                name@,
                *cfg,
                env@,
                x,
            ),
            RecipeType::GoBin => r matches Ok(RunnableRecipe::GoBin(x)) && made_go_bin(name@, *cfg, env@, x),
            RecipeType::GoTest => r matches Ok(RunnableRecipe::GoTest(x)) && made_go_test(name@, *cfg, env@, x),
            RecipeType::CBin => r matches Ok(RunnableRecipe::CBin(x)) && made_c_bin(name@, *cfg, env@, x),
            RecipeType::CLib => r matches Ok(RunnableRecipe::CLib(x)) && made_c_lib(name@, *cfg, env@, x),
            t => r matches Err(Error::Config { path, message }) && path@ == name@ && message@
                == unsupported_message(t),
        },
{
    match cfg.recipe_type {
        RecipeType::Shell => Ok(RunnableRecipe::Shell(shell_from_config(name, cfg, env))),
        RecipeType::RustBin => Ok(RunnableRecipe::RustBin(rust_bin_from_config(name, cfg, profile, env))),
        RecipeType::RustLib => Ok(RunnableRecipe::RustLib(rust_lib_from_config(name, cfg, profile, env))),
        RecipeType::RustTest => Ok(RunnableRecipe::RustTest(rust_test_from_config(name, cfg, env))),
        RecipeType::GoBin => Ok(RunnableRecipe::GoBin(go_bin_from_config(name, cfg, env))),
        RecipeType::GoTest => Ok(RunnableRecipe::GoTest(go_test_from_config(name, cfg, env))),
        RecipeType::CBin => Ok(RunnableRecipe::CBin(c_bin_from_config(name, cfg, env))),
        RecipeType::CLib => Ok(RunnableRecipe::CLib(c_lib_from_config(name, cfg, env))),
        t => {
            let mut m = chars_of("recipe type '");
            extend_str(&mut m, crate::mustfile::recipe_type_tag(t));
            extend_str(&mut m, "' cannot be run from the command line");
            Err(Error::Config { path: name.to_owned(), message: string_of(&m) })
        },
    }
}

// ---------------------------------------------------------------------------
// Reports
// ---------------------------------------------------------------------------

/// The summary line printed after a build.
pub open spec fn summary_spec(built: nat, cached: nat, failed: nat, ms: nat) -> Seq<char> {
    "\n"@ + decimal(built) + " built, "@ + decimal(cached) + " cached, "@ + decimal(failed)
        + " failed — "@ + decimal(ms) + "ms"@
}

/// The summary line of a build's report.
pub fn summary_line(report: &ExecutionReport) -> (r: String)
    requires
        report.total_duration_ms <= usize::MAX,
    ensures
        r@ == summary_spec(
            count_built(report.results@),
            count_cached(report.results@),
            count_failed(report.results@),
            report.total_duration_ms as nat,
        ),
{
    let mut v = chars_of("\n");
    extend(&mut v, &decimal_chars(report.built()));
    extend_str(&mut v, " built, ");
    extend(&mut v, &decimal_chars(report.cached()));
    extend_str(&mut v, " cached, ");
    extend(&mut v, &decimal_chars(report.failed()));
    extend_str(&mut v, " failed — ");
    extend(&mut v, &decimal_chars(report.total_duration_ms as usize));
    extend_str(&mut v, "ms");
    string_of(&v)
}

/// The lines naming each failed recipe with its error, in order.
pub open spec fn failure_lines_spec(rs: Seq<crate::engine::ExecutionResult>) -> Seq<Seq<char>>
    decreases rs.len(),
{
    if rs.len() == 0 {
        seq![]
    } else {
        let prev = failure_lines_spec(rs.drop_last());
        let r = rs.last();
        match r.error {
            Some(e) => if !r.success {
                prev.push("  FAILED "@ + r.recipe_name@ + ": "@ + e@)
            } else {
                prev
            },
            None => prev,
        }
    }
}

/// The lines printed for the failed recipes of a build.
pub fn failure_lines(report: &ExecutionReport) -> (r: Vec<String>)
    ensures
        sv(r@) == failure_lines_spec(report.results@),
{
    let mut out: Vec<String> = Vec::new();
    let mut i: usize = 0;
    while i < report.results.len()
        invariant
            i <= report.results@.len(),
            sv(out@) == failure_lines_spec(report.results@.take(i as int)),
        decreases report.results@.len() - i,
    {
        assert(report.results@.take(i + 1).drop_last() =~= report.results@.take(i as int));
        assert(report.results@.take(i + 1).last() == report.results@[i as int]);
        let r = &report.results[i];
        match &r.error {
            Some(e) => {
                if !r.success {
                    let mut v = chars_of("  FAILED ");
                    extend_str(&mut v, r.recipe_name.as_str());
                    extend_str(&mut v, ": ");
                    extend_str(&mut v, e.as_str());
                    let line = string_of(&v);
                    let ghost before = out@;
                    out.push(line);
                    proof {
                        crate::text::lemma_sv_push(before, line);
                    }
                }
            },
            None => {},
        }
        i += 1;
    }
    assert(report.results@.take(report.results@.len() as int) =~= report.results@);
    out
}

/// The error a build with failed recipes ends with.
pub fn build_failed() -> (e: Error)
    ensures
        e matches Error::RecipeFailed { name, code, stderr } && name@ == "build"@ && code == 1
            && stderr@ == "one or more recipes failed"@,
{
    Error::RecipeFailed {
        name: "build".to_owned(),
        code: 1,
        stderr: "one or more recipes failed".to_owned(),
    }
}

/// The heading printed before each target's build when there are several.
pub fn target_heading(target: &str) -> (r: String)
    ensures
        r@ == "\n[target: "@ + target@ + "]"@,
{
    let mut v = chars_of("\n[target: ");
    extend_str(&mut v, target);
    extend_str(&mut v, "]");
    string_of(&v)
}

// ---------------------------------------------------------------------------
// The dependency graph
// ---------------------------------------------------------------------------

/// The deps of a recipe, none when it is unknown.
pub open spec fn deps_of(recipes: Seq<(Seq<char>, RecipeV)>, name: Seq<char>) -> Seq<Seq<char>> {
    match assoc_get(recipes, name) {
        Some(r) => r.deps,
        None => seq![],
    }
}

/// How the graph is printed.
pub enum GraphStyle {
    Dot,
    Mermaid,
    Text,
}

/// The style a format name selects (text for any unknown name).
pub open spec fn style_of(format: Seq<char>) -> GraphStyle {
    if format == "dot"@ {
        GraphStyle::Dot
    } else if format == "mermaid"@ {
        GraphStyle::Mermaid
    } else {
        GraphStyle::Text
    }
}

/// The lines of one recipe.
pub open spec fn node_lines(name: Seq<char>, deps: Seq<Seq<char>>, style: GraphStyle) -> Seq<Seq<char>> {
    match style {
        GraphStyle::Dot => deps.map_values(|d: Seq<char>| "  \""@ + name + "\" -> \""@ + d + "\";"@),
        GraphStyle::Mermaid => deps.map_values(|d: Seq<char>| "  "@ + name + " --> "@ + d),
        GraphStyle::Text => if deps.len() == 0 {
            seq!["  "@ + name]
        } else {
            seq!["  "@ + name + " <- ["@ + join(deps, ", "@) + "]"@]
        },
    }
}

/// The lines of the recipes of `order`, in turn.
pub open spec fn edge_lines(
    order: Seq<Seq<char>>,
    recipes: Seq<(Seq<char>, RecipeV)>,
    style: GraphStyle,
) -> Seq<Seq<char>>
    decreases order.len(),
{
    if order.len() == 0 {
        seq![]
    } else {
        edge_lines(order.drop_last(), recipes, style) + node_lines(
            order.last(),
            deps_of(recipes, order.last()),
            style,
        )
    }
}

/// The printed graph, given the recipes in dependency order.
pub open spec fn graph_spec(
    format: Seq<char>,
    order: Seq<Seq<char>>,
    recipes: Seq<(Seq<char>, RecipeV)>,
) -> Seq<Seq<char>> {
    match style_of(format) {
        GraphStyle::Dot => seq!["digraph mustfile {"@, "  rankdir=LR;"@] + edge_lines(
            order,
            recipes,
            GraphStyle::Dot,
        ) + seq!["}"@],
        GraphStyle::Mermaid => seq!["graph LR"@] + edge_lines(order, recipes, GraphStyle::Mermaid),
        GraphStyle::Text => seq!["Recipe dependency graph:"@, ""@] + edge_lines(
            order,
            recipes,
            GraphStyle::Text,
        ),
    }
}

fn style_from(format: &str) -> (s: GraphStyle)
    ensures
        s == style_of(format@),
{
    if str_eq(format, "dot") {
        GraphStyle::Dot
    } else if str_eq(format, "mermaid") {
        GraphStyle::Mermaid
    } else {
        GraphStyle::Text
    }
}

fn node_text(name: &str, deps: &Vec<String>, style: &GraphStyle) -> (r: Vec<String>)
    ensures
        sv(r@) == node_lines(name@, sv(deps@), *style),
{
    let mut out: Vec<String> = Vec::new();
    match style {
        GraphStyle::Text => {
            let mut v = chars_of("  ");
            extend_str(&mut v, name);
            if deps.len() > 0 {
                extend_str(&mut v, " <- [");
                let joined = join_strings(deps, ", ");
                extend_str(&mut v, joined.as_str());
                extend_str(&mut v, "]");
            }
            out.push(string_of(&v));
            assert(sv(out@) =~= node_lines(name@, sv(deps@), *style));
        },
        _ => {
            let mut j: usize = 0;
            while j < deps.len()
                invariant
                    j <= deps@.len(),
                    *style != GraphStyle::Text,
                    sv(out@) == node_lines(name@, sv(deps@).take(j as int), *style),
                decreases deps@.len() - j,
            {
                let mut v: Vec<char> = Vec::new();
                match style {
                    GraphStyle::Dot => {
                        extend_str(&mut v, "  \"");
                        extend_str(&mut v, name);
                        extend_str(&mut v, "\" -> \"");
                        extend_str(&mut v, deps[j].as_str());
                        extend_str(&mut v, "\";");
                    },
                    _ => {
                        extend_str(&mut v, "  ");
                        extend_str(&mut v, name);
                        extend_str(&mut v, " --> ");
                        extend_str(&mut v, deps[j].as_str());
                    },
                }
                let line = string_of(&v);
                let ghost before = out@;
                out.push(line);
                proof {
                    crate::text::lemma_sv_push(before, line);
                    assert(sv(deps@).take(j + 1) =~= sv(deps@).take(j as int).push(deps@[j as int]@));
                    assert(node_lines(name@, sv(deps@).take(j + 1), *style) =~= node_lines(
                        name@,
                        sv(deps@).take(j as int),
                        *style,
                    ).push(line@));
                }
                j += 1;
            }
            assert(sv(deps@).take(deps@.len() as int) =~= sv(deps@));
        },
    }
    out
}

/// The graph of a configuration's recipes as lines of text: Graphviz
/// `dot`, `mermaid`, or (for any other format) plain text, the recipes in
/// dependency order; an error when the graph has a cycle.
pub fn graph_lines(config: &Config, format: &str) -> (r: Result<Vec<String>, Error>)
    ensures
        match r {
            Ok(lines) => {
                let d = recipe_dag_spec(config.recipe@);
                &&& waves_spec(d) is Some
                &&& sv(lines@) == graph_spec(format@, concat(waves_spec(d).unwrap()), config.recipe@)
            },
            Err(e) => {
                let d = recipe_dag_spec(config.recipe@);
                &&& waves_spec(d) is None
                &&& e matches Error::CycleDetected { cycle }
                &&& cycle_report(d, cycle@)
            },
        },
{
    let none: Vec<String> = Vec::new();
    let dag = recipe_graph(config, &none, false);
    let order = match dag.topo_sort() {
        Ok(o) => o,
        Err(e) => return Err(e),
    };
    let style = style_from(format);
    let mut out: Vec<String> = Vec::new();
    match style {
        GraphStyle::Dot => {
            out.push("digraph mustfile {".to_owned());
            out.push("  rankdir=LR;".to_owned());
            assert(sv(out@) =~= seq!["digraph mustfile {"@, "  rankdir=LR;"@]);
        },
        GraphStyle::Mermaid => {
            out.push("graph LR".to_owned());
            assert(sv(out@) =~= seq!["graph LR"@]);
        },
        GraphStyle::Text => {
            out.push("Recipe dependency graph:".to_owned());
            out.push("".to_owned());
            assert(sv(out@) =~= seq!["Recipe dependency graph:"@, ""@]);
        },
    }
    let ghost head = sv(out@);
    let mut i: usize = 0;
    assert(head + edge_lines(sv(order@).take(0), config.recipe@, style) =~= head);
    while i < order.len()
        invariant
            i <= order@.len(),
            sv(out@) == head + edge_lines(sv(order@).take(i as int), config.recipe@, style),
        decreases order@.len() - i,
    {
        let name = &order[i];
        let deps: Vec<String> = match config.recipe.get(name.as_str()) {
            Some(r) => clone_strings(&r.deps),
            None => Vec::new(),
        };
        assert(sv(deps@) == deps_of(config.recipe@, name@)) by {
            if assoc_get(config.recipe@, name@) is None {
                assert(sv(deps@) =~= Seq::<Seq<char>>::empty());
            }
        }
        let lines = node_text(name.as_str(), &deps, &style);
        let ghost before = sv(out@);
        let mut k: usize = 0;
        while k < lines.len()
            invariant
                k <= lines@.len(),
                sv(out@) == before + sv(lines@).take(k as int),
            decreases lines@.len() - k,
        {
            let l = lines[k].clone();
            let ghost b2 = out@;
            out.push(l);
            proof {
                crate::text::lemma_sv_push(b2, l);
                assert(sv(lines@).take(k + 1) =~= sv(lines@).take(k as int).push(lines@[k as int]@));
            }
            assert(sv(out@) =~= before + sv(lines@).take(k + 1));
            k += 1;
        }
        assert(sv(lines@).take(lines@.len() as int) =~= sv(lines@));
        assert(sv(order@).take(i + 1).drop_last() =~= sv(order@).take(i as int));
        assert(sv(order@).take(i + 1).last() == name@);
        assert(sv(out@) =~= head + edge_lines(sv(order@).take(i + 1), config.recipe@, style));
        i += 1;
    }
    assert(sv(order@).take(order@.len() as int) =~= sv(order@));
    match style {
        GraphStyle::Dot => {
            let ghost b = out@;
            out.push("}".to_owned());
            assert(sv(out@) =~= sv(b).push("}"@));
            assert(sv(out@) =~= graph_spec(format@, sv(order@), config.recipe@));
        },
        _ => {
            assert(sv(out@) =~= graph_spec(format@, sv(order@), config.recipe@));
        },
    }
    Ok(out)
}


// ---------------------------------------------------------------------------
// Explaining a recipe
// ---------------------------------------------------------------------------

/// How a recipe is cached, as `explain` names it.
pub open spec fn strategy_label_spec(r: RecipeV) -> Seq<char> {
    match r.cache {
        Some(CacheMode::Hash) => "hash"@,
        Some(CacheMode::Mtime) => "mtime"@,
        Some(CacheMode::Disabled) => "none"@,
        None => if r.recipe_type == RecipeType::Shell {
            "mtime (default)"@
        } else {
            "hash (default)"@
        },
    }
}

/// How a recipe is cached, as `explain` names it.
pub fn strategy_label(r: &ConfigRecipe) -> (s: &'static str)
    ensures
        s@ == strategy_label_spec(r@),
{
    match r.cache {
        Some(CacheMode::Hash) => "hash",
        Some(CacheMode::Mtime) => "mtime",
        Some(CacheMode::Disabled) => "none",
        None => match r.recipe_type {
            RecipeType::Shell => "mtime (default)",
            _ => "hash (default)",
        },
    }
}

/// The lines `explain` starts with: the recipe's name, type and caching,
/// then its deps when it has any.
pub open spec fn explain_head_spec(name: Seq<char>, r: RecipeV) -> Seq<Seq<char>> {
    let head = seq![
        "Recipe:   "@ + name,
        "Type:     "@ + variant_name(r.recipe_type),
        "Strategy: "@ + strategy_label_spec(r),
    ];
    if r.deps.len() == 0 {
        head
    } else {
        head.push("Deps:     "@ + join(r.deps, ", "@))
    }
}

/// The lines `explain` starts with.
pub fn explain_head(name: &str, r: &ConfigRecipe) -> (lines: Vec<String>)
    ensures
        sv(lines@) == explain_head_spec(name@, r@),
{
    let mut out: Vec<String> = Vec::new();
    out.push(concat_str("Recipe:   ", name));
    out.push(concat_str("Type:     ", recipe_type_name(r.recipe_type)));
    out.push(concat_str("Strategy: ", strategy_label(r)));
    if r.deps.len() > 0 {
        let joined = join_strings(&r.deps, ", ");
        out.push(concat_str("Deps:     ", joined.as_str()));
    }
    assert(sv(out@) =~= explain_head_spec(name@, r@));
    out
}

fn concat_str(a: &str, b: &str) -> (r: String)
    ensures
        r@ == a@ + b@,
{
    let mut v = chars_of(a);
    extend_str(&mut v, b);
    string_of(&v)
}

/// Variables of the session rather than of the build, which `explain`
/// leaves out of the key.
pub open spec fn session_var(k: Seq<char>) -> bool {
    ||| k == "PATH"@
    ||| k == "HOME"@
    ||| k == "USER"@
    ||| k == "SHELL"@
    ||| k == "TERM"@
    ||| k == "COLORTERM"@
    ||| k == "TMPDIR"@
}

/// The entries of an env that affect the key, in turn.
pub open spec fn relevant_env_spec(env: Seq<(Seq<char>, Seq<char>)>) -> Seq<(Seq<char>, Seq<char>)>
    decreases env.len(),
{
    if env.len() == 0 {
        seq![]
    } else {
        let prev = relevant_env_spec(env.drop_last());
        if session_var(env.last().0) {
            prev
        } else {
            crate::map::assoc_insert(prev, env.last().0, env.last().1)
        }
    }
}

/// The entries of an env that affect the key.
pub fn relevant_env(env: &OrdMap<String>) -> (r: OrdMap<String>)
    ensures
        r@ == relevant_env_spec(env@),
{
    let mut out: OrdMap<String> = OrdMap::new();
    let n = env.len();
    let mut i: usize = 0;
    while i < n
        invariant
            i <= n,
            n == env@.len(),
            out@ == relevant_env_spec(env@.take(i as int)),
        decreases n - i,
    {
        let (k, v) = env.entry(i);
        assert(env@.take(i + 1).drop_last() =~= env@.take(i as int));
        assert(env@.take(i + 1).last() == (k@, v@));
        let ks = k.as_str();
        let session = str_eq(ks, "PATH") || str_eq(ks, "HOME") || str_eq(ks, "USER") || str_eq(
            ks,
            "SHELL",
        ) || str_eq(ks, "TERM") || str_eq(ks, "COLORTERM") || str_eq(ks, "TMPDIR");
        if !session {
            out.insert(k.clone(), v.clone());
        }
        i += 1;
    }
    assert(env@.take(n as int) =~= env@);
    out
}

/// The heading of the inputs `explain` lists; without declared inputs it
/// says that none are.
pub fn inputs_heading(declared: bool) -> (r: &'static str)
    ensures
        declared ==> r@ == "\nInputs:"@,
        !declared ==> r@ == "\nInputs:   (none declared — cargo tracks internally)"@,
{
    if declared {
        "\nInputs:"
    } else {
        "\nInputs:   (none declared — cargo tracks internally)"
    }
}

/// One input `explain` lists: its path and the first 12 characters of the
/// digest of its contents.
pub fn input_line(path: &str, contents: &[u8]) -> (r: String)
    ensures
        r@ == "  "@ + path@ + " — "@ + file_digest_spec(Some(contents@)).take(12),
{
    let h = hash_contents(Some(contents));
    let hc = chars_of(h.as_str());
    let short = crate::text::slice_of(&hc, 0, 12);
    let mut v = chars_of("  ");
    extend_str(&mut v, path);
    extend_str(&mut v, " — ");
    crate::text::extend(&mut v, &short);
    string_of(&v)
}

/// The line `explain` shows for an input pattern that is not a valid glob.
pub fn invalid_glob_line(pattern: &str) -> (r: String)
    ensures
        r@ == "  "@ + pattern@ + " (invalid glob)"@,
{
    let mut v = chars_of("  ");
    extend_str(&mut v, pattern);
    extend_str(&mut v, " (invalid glob)");
    string_of(&v)
}

/// Whether `explain` can show a value: it is at most 60 bytes long in
/// UTF-8, or its 60th byte ends a character.
pub open spec fn displayable(v: Seq<char>) -> bool {
    vstd::utf8::encode_utf8(v).len() <= 60 || vstd::utf8::is_char_boundary(vstd::utf8::encode_utf8(v), 60)
}

/// A value as `explain` shows it: cut to its first 60 bytes, with `...`,
/// when longer.
pub open spec fn display_value_spec(v: Seq<char>) -> Seq<char> {
    if vstd::utf8::encode_utf8(v).len() > 60 {
        vstd::utf8::decode_utf8(vstd::utf8::encode_utf8(v).take(60)) + "..."@
    } else {
        v
    }
}

/// A value as `explain` shows it.
pub fn display_value(v: &str) -> (r: String)
    requires
        displayable(v@),
    ensures
        r@ == display_value_spec(v@),
{
    if v.as_bytes().len() > 60 {
        let (head, _rest) = v.split_at(60);
        proof {
            assert(head.spec_bytes() =~= v.spec_bytes().take(60));
            vstd::utf8::encode_utf8_decode_utf8(head@);
        }
        let mut cs = chars_of(head);
        assert(head@ == vstd::utf8::decode_utf8(vstd::utf8::encode_utf8(v@).take(60)));
        extend_str(&mut cs, "...");
        string_of(&cs)
    } else {
        let r = v.to_owned();
        assert(r@ == v@);
        r
    }
}

/// The lines listing the variables that affect the key, after a heading;
/// none when there are none.
pub open spec fn env_section_spec(env: Seq<(Seq<char>, Seq<char>)>) -> Seq<Seq<char>> {
    if env.len() == 0 {
        seq![]
    } else {
        seq!["\nEnv (affects hash):"@] + env.map_values(
            |e: (Seq<char>, Seq<char>)| "  "@ + e.0 + " = "@ + display_value_spec(e.1),
        )
    }
}

/// The lines listing the variables that affect the key.
pub fn env_section(env: &OrdMap<String>) -> (lines: Vec<String>)
    requires
        forall|i: int| 0 <= i < env@.len() ==> displayable(#[trigger] env@[i].1),
    ensures
        sv(lines@) == env_section_spec(env@),
{
    let mut out: Vec<String> = Vec::new();
    let n = env.len();
    if n == 0 {
        assert(sv(out@) =~= env_section_spec(env@));
        return out;
    }
    out.push("\nEnv (affects hash):".to_owned());
    let ghost f = |e: (Seq<char>, Seq<char>)| "  "@ + e.0 + " = "@ + display_value_spec(e.1);
    let mut i: usize = 0;
    assert(sv(out@) =~= seq!["\nEnv (affects hash):"@] + env@.take(0).map_values(f));
    while i < n
        invariant
            i <= n,
            n == env@.len(),
            f == (|e: (Seq<char>, Seq<char>)| "  "@ + e.0 + " = "@ + display_value_spec(e.1)),
            sv(out@) == seq!["\nEnv (affects hash):"@] + env@.take(i as int).map_values(f),
            forall|j: int| 0 <= j < env@.len() ==> displayable(#[trigger] env@[j].1),
        decreases n - i,
    {
        let (k, v) = env.entry(i);
        let mut line = chars_of("  ");
        extend_str(&mut line, k.as_str());
        extend_str(&mut line, " = ");
        assert(displayable(env@[i as int].1));
        let shown = display_value(v.as_str());
        extend_str(&mut line, shown.as_str());
        let l = string_of(&line);
        let ghost before = out@;
        out.push(l);
        proof {
            crate::text::lemma_sv_push(before, l);
            assert(env@.take(i + 1).map_values(f) =~= env@.take(i as int).map_values(f).push(
                f(env@[i as int]),
            ));
        }
        assert(sv(out@) =~= seq!["\nEnv (affects hash):"@] + env@.take(i + 1).map_values(f));
        i += 1;
    }
    assert(env@.take(n as int) =~= env@);
    out
}

/// The key `explain` shows for a recipe: the hash of its name, its type's
/// tag and the variables that affect it (no inputs, toolchain or flags).
pub fn explain_key(name: &str, t: RecipeType, env: &OrdMap<String>) -> (h: String)
    ensures
        h@ == crate::hash::compute_hash_spec(
            name@,
            crate::mustfile::tag_of(t),
            seq![],
            env@,
            ""@,
            seq![],
        ),
{
    let inputs: Vec<(String, Option<Vec<u8>>)> = Vec::new();
    let flags: OrdMap<String> = OrdMap::new();
    let h = crate::hash::compute_hash(name, crate::mustfile::recipe_type_tag(t), &inputs, env, "", &flags);
    assert(crate::hash::inputs_view(inputs@) =~= Seq::<(Seq<char>, Option<Seq<u8>>)>::empty());
    assert(flags@ =~= Seq::<(Seq<char>, Seq<char>)>::empty());
    h
}

/// The status line `explain` ends with: the cache's answer for the key, or
/// that there is no cache yet (`None`).
pub open spec fn status_spec(answer: Option<Option<CacheLookup>>) -> Seq<char> {
    match answer {
        None => "Status:    MISS — no cache yet"@,
        Some(Some(CacheLookup::Hit)) => "Status:    HIT — would skip"@,
        Some(Some(CacheLookup::Stale)) => "Status:    STALE — would rebuild"@,
        Some(_) => "Status:    MISS — would build"@,
    }
}

/// The status line `explain` ends with, given whether the cache could be
/// opened and what its lookup answered (`None` for a failed lookup).
pub fn status_line(answer: Option<Option<CacheLookup>>) -> (s: &'static str)
    ensures
        s@ == status_spec(answer),
{
    match answer {
        None => "Status:    MISS — no cache yet",
        Some(Some(CacheLookup::Hit)) => "Status:    HIT — would skip",
        Some(Some(CacheLookup::Stale)) => "Status:    STALE — would rebuild",
        Some(_) => "Status:    MISS — would build",
    }
}

// ---------------------------------------------------------------------------
// Listing recipes
// ---------------------------------------------------------------------------

/// `s` padded with spaces to `w` characters (unchanged when longer).
pub open spec fn pad(s: Seq<char>, w: nat) -> Seq<char> {
    if s.len() >= w {
        s
    } else {
        s + Seq::new((w - s.len()) as nat, |i: int| ' ')
    }
}

fn pad_to(s: &str, w: usize) -> (r: Vec<char>)
    ensures
        r@ == pad(s@, w as nat),
{
    let mut v = chars_of(s);
    let ghost start = v@;
    if v.len() < w {
        while v.len() < w
            invariant
                v@.len() <= w,
                start.len() < w,
                v@ == start + Seq::new((v@.len() - start.len()) as nat, |i: int| ' '),
            decreases w - v@.len(),
        {
            let ghost before = v@;
            v.push(' ');
            assert(v@ =~= start + Seq::new((v@.len() - start.len()) as nat, |i: int| ' '));
        }
    }
    v
}

/// One line of the recipe list: name, type and deps in columns.
pub open spec fn list_line_spec(name: Seq<char>, r: RecipeV) -> Seq<char> {
    pad(name, 20) + " "@ + pad(type_list_name(r.recipe_type), 12) + " "@ + join(r.deps, ", "@)
}

/// The recipe list: a header, a rule, and one line per recipe in name
/// order.
pub open spec fn list_spec(recipes: Seq<(Seq<char>, RecipeV)>) -> Seq<Seq<char>> {
    seq![pad("NAME"@, 20) + " "@ + pad("TYPE"@, 12) + " DEPS"@, Seq::new(60, |i: int| '-')]
        + recipes.map_values(|e: (Seq<char>, RecipeV)| list_line_spec(e.0, e.1))
}

/// The recipe list of a configuration.
pub fn list_lines(config: &Config) -> (lines: Vec<String>)
    ensures
        sv(lines@) == list_spec(config.recipe@),
{
    let mut out: Vec<String> = Vec::new();
    let mut h = pad_to("NAME", 20);
    extend_str(&mut h, " ");
    let t = pad_to("TYPE", 12);
    extend(&mut h, &t);
    extend_str(&mut h, " DEPS");
    out.push(string_of(&h));
    let mut rule: Vec<char> = Vec::new();
    let mut k: usize = 0;
    while k < 60
        invariant
            k <= 60,
            rule@ == Seq::new(k as nat, |i: int| '-'),
        decreases 60 - k,
    {
        rule.push('-');
        assert(rule@ =~= Seq::new((k + 1) as nat, |i: int| '-'));
        k += 1;
    }
    out.push(string_of(&rule));
    let ghost f = |e: (Seq<char>, RecipeV)| list_line_spec(e.0, e.1);
    let ghost head = sv(out@);
    let n = config.recipe.len();
    let mut i: usize = 0;
    assert(sv(out@) =~= head + config.recipe@.take(0).map_values(f));
    while i < n
        invariant
            i <= n,
            n == config.recipe@.len(),
            f == (|e: (Seq<char>, RecipeV)| list_line_spec(e.0, e.1)),
            sv(out@) == head + config.recipe@.take(i as int).map_values(f),
        decreases n - i,
    {
        let (name, r) = config.recipe.entry(i);
        let mut line = pad_to(name.as_str(), 20);
        extend_str(&mut line, " ");
        let tn = pad_to(recipe_type_list_name(r.recipe_type), 12);
        extend(&mut line, &tn);
        extend_str(&mut line, " ");
        let deps = join_strings(&r.deps, ", ");
        extend_str(&mut line, deps.as_str());
        let l = string_of(&line);
        let ghost before = out@;
        out.push(l);
        proof {
            crate::text::lemma_sv_push(before, l);
            assert(config.recipe@.take(i + 1).map_values(f) =~= config.recipe@.take(i as int).map_values(
                f,
            ).push(f(config.recipe@[i as int])));
        }
        assert(sv(out@) =~= head + config.recipe@.take(i + 1).map_values(f));
        i += 1;
    }
    assert(config.recipe@.take(n as int) =~= config.recipe@);
    assert(head =~= seq![
        pad("NAME"@, 20) + " "@ + pad("TYPE"@, 12) + " DEPS"@,
        Seq::new(60, |i: int| '-'),
    ]);
    out
}

// ---------------------------------------------------------------------------
// Creating a Mustfile
// ---------------------------------------------------------------------------

/// The project name of a new Mustfile: the one given, else the current
/// directory's name, else `my-project`.
pub fn init_project_name(given: Option<&str>, dir_name: Option<String>) -> (r: String)
    ensures
        r@ == (match given {
            Some(g) => g@,
            None => match dir_name {
                Some(d) => d@,
                None => "my-project"@,
            },
        }),
{
    match given {
        Some(g) => g.to_owned(),
        None => match dir_name {
            Some(d) => d,
            None => "my-project".to_owned(),
        },
    }
}

/// The text of a new Mustfile for a project: a `build` and a `test` shell
/// recipe that echo what they would do.
pub open spec fn init_contents_spec(name: Seq<char>) -> Seq<char> {
    "[project]\nname = \""@ + name + "\"\n\n[recipe.build]\ntype = \"shell\"\nscript = \"echo 'Building "@
        + name + "'\"\nphony = true\n\n[recipe.test]\ntype = \"shell\"\nscript = \"echo 'Testing "@
        + name + "'\"\ndeps = [\"build\"]\nphony = true\n"@
}

/// The text of a new Mustfile for a project.
pub fn init_contents(name: &str) -> (r: String)
    ensures
        r@ == init_contents_spec(name@),
{
    let mut v = chars_of("[project]\nname = \"");
    extend_str(&mut v, name);
    extend_str(&mut v, "\"\n\n[recipe.build]\ntype = \"shell\"\nscript = \"echo 'Building ");
    extend_str(&mut v, name);
    extend_str(&mut v, "'\"\nphony = true\n\n[recipe.test]\ntype = \"shell\"\nscript = \"echo 'Testing ");
    extend_str(&mut v, name);
    extend_str(&mut v, "'\"\ndeps = [\"build\"]\nphony = true\n");
    string_of(&v)
}

/// The error for a Mustfile that already exists.
pub fn init_exists_error(path: &str) -> (e: Error)
    ensures
        e matches Error::Config { path: p, message } && p@ == path@ && message@
            == "file already exists; delete it first or use --file to choose a different path"@,
{
    Error::Config {
        path: path.to_owned(),
        message: "file already exists; delete it first or use --file to choose a different path".to_owned(),
    }
}

/// The lines a health check prints for one tool: a mark and its label,
/// and a hint when it is missing.
pub fn check_lines(label: &str, ok: bool, hint: &str) -> (lines: Vec<String>)
    ensures
        sv(lines@) == (if ok {
            seq!["  ✓ "@ + pad(label@, 20)]
        } else {
            seq!["  ✗ "@ + pad(label@, 20), "    hint: "@ + hint@]
        }),
{
    let mut first = chars_of(if ok {
        "  ✓ "
    } else {
        "  ✗ "
    });
    let padded = pad_to(label, 20);
    extend(&mut first, &padded);
    let mut out: Vec<String> = Vec::new();
    out.push(string_of(&first));
    if !ok {
        out.push(concat_str("    hint: ", hint));
    }
    assert(sv(out@) =~= (if ok {
        seq!["  ✓ "@ + pad(label@, 20)]
    } else {
        seq!["  ✗ "@ + pad(label@, 20), "    hint: "@ + hint@]
    }));
    out
}

} // verus!
