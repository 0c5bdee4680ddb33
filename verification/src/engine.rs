//! The build engine's decisions: the environment a recipe runs in, which
//! wave of the graph starts next, how each recipe's outcome is recorded,
//! and the report of a build.  The caller runs the recipes of a wave in
//! parallel and reports each outcome back.

use vstd::prelude::*;
use crate::config::{Config, EnvValue, EnvValueV, RecipeV};
use crate::error::{Error, message_spec};
use crate::map::{OrdMap, assoc_get, sorted_keys};
use crate::runner::{lemma_merge_env_get, merge_env, merged_env};
use crate::text::{chars_of, extend_str, string_of};
use crate::types::RecipeOutput;

verus! {

// ---------------------------------------------------------------------------
// Environment
// ---------------------------------------------------------------------------

/// The scalar entries of the global env table, in key order.
pub open spec fn scalar_layer(
    env: Seq<(Seq<char>, Seq<char>)>,
    global: Seq<(Seq<char>, EnvValueV)>,
) -> Seq<(Seq<char>, Seq<char>)>
    decreases global.len(),
{
    if global.len() == 0 {
        env
    } else {
        let prev = scalar_layer(env, global.drop_last());
        match global.last().1 {
            EnvValueV::Scalar(s) => merge_env(prev, seq![(global.last().0, s)]),
            EnvValueV::Profile(_) => prev,
        }
    }
}

/// The variables of the profile table named `profile`.
pub open spec fn profile_layer(
    env: Seq<(Seq<char>, Seq<char>)>,
    global: Seq<(Seq<char>, EnvValueV)>,
    profile: Seq<char>,
) -> Seq<(Seq<char>, Seq<char>)>
    decreases global.len(),
{
    if global.len() == 0 {
        env
    } else {
        let prev = profile_layer(env, global.drop_last(), profile);
        match global.last().1 {
            EnvValueV::Profile(m) => if global.last().0 == profile {
                merge_env(prev, m)
            } else {
                prev
            },
            EnvValueV::Scalar(_) => prev,
        }
    }
}

/// The environment of a recipe, each layer overriding the ones before:
/// the process env, the global scalars, the profile's table, the recipe's
/// own env (when the recipe exists) and the toolchain's env.
pub open spec fn compose_env_spec(
    process: Seq<(Seq<char>, Seq<char>)>,
    global: Seq<(Seq<char>, EnvValueV)>,
    recipe: Option<RecipeV>,
    profile: Seq<char>,
    toolchain: Seq<(Seq<char>, Seq<char>)>,
) -> Seq<(Seq<char>, Seq<char>)> {
    let base = profile_layer(scalar_layer(process, global), global, profile);
    let with_recipe = match recipe {
        Some(r) => merge_env(base, r.env),
        None => base,
    };
    merge_env(with_recipe, toolchain)
}

/// Compose the environment for a recipe execution from the process env
/// (read by the caller), the configuration's env tables, the recipe's env
/// and the toolchain's env, the later winning.
pub fn compose_env(
    config: &Config,
    recipe_name: &str,
    profile: &str,
    toolchain_env: &OrdMap<String>,
    process_env: &OrdMap<String>,
) -> (r: OrdMap<String>)
    ensures
        r@ == compose_env_spec(
            process_env@,
            config.env.global@,
            assoc_get(config.recipe@, recipe_name@),
            profile@,
            toolchain_env@,
        ),
{
    let mut env = process_env.duplicate();
    let global = &config.env.global;
    let n = global.len();
    let mut i: usize = 0;
    while i < n
        invariant
            i <= n,
            n == global@.len(),
            env@ == scalar_layer(process_env@, global@.take(i as int)),
        decreases n - i,
    {
        let (k, v) = global.entry(i);
        assert(global@.take(i + 1).drop_last() =~= global@.take(i as int));
        match v {
            EnvValue::Scalar(s) => {
                let ghost before = env@;
                env.insert(k.clone(), s.clone());
                assert(seq![(k@, s@)].drop_last() =~= Seq::<(Seq<char>, Seq<char>)>::empty());
                assert(merge_env(before, seq![(k@, s@)]) == crate::map::assoc_insert(before, k@, s@)) by {
                    reveal_with_fuel(merge_env, 2);
                }
            },
            EnvValue::Profile(_) => {},
        }
        i += 1;
    }
    assert(global@.take(n as int) =~= global@);
    let ghost scalars = env@;
    let mut j: usize = 0;
    while j < n
        invariant
            j <= n,
            n == global@.len(),
            env@ == profile_layer(scalars, global@.take(j as int), profile@),
        decreases n - j,
    {
        let (k, v) = global.entry(j);
        assert(global@.take(j + 1).drop_last() =~= global@.take(j as int));
        match v {
            EnvValue::Profile(m) => {
                if crate::text::str_eq(k.as_str(), profile) {
                    env = merged_env(&env, m);
                }
            },
            EnvValue::Scalar(_) => {},
        }
        j += 1;
    }
    assert(global@.take(n as int) =~= global@);
    match config.recipe.get(recipe_name) {
        Some(recipe) => {
            env = merged_env(&env, &recipe.env);
        },
        None => {},
    }
    merged_env(&env, toolchain_env)
}

/// The layers of a recipe's environment override one another in order:
/// a variable the toolchain sets has the toolchain's value; one the recipe
/// sets and the toolchain does not has the recipe's value; one the profile
/// table of the active profile sets, and neither of those, has the
/// profile's value.
pub proof fn law_env_priority(
    process: Seq<(Seq<char>, Seq<char>)>,
    global: Seq<(Seq<char>, EnvValueV)>,
    recipe: Option<RecipeV>,
    profile: Seq<char>,
    toolchain: Seq<(Seq<char>, Seq<char>)>,
    k: Seq<char>,
)
    requires
        sorted_keys(toolchain),
        recipe matches Some(r) ==> sorted_keys(r.env),
    ensures
        ({
            let env = compose_env_spec(process, global, recipe, profile, toolchain);
            &&& assoc_get(toolchain, k) is Some ==> assoc_get(env, k) == assoc_get(toolchain, k)
            &&& recipe matches Some(r) ==> (assoc_get(toolchain, k) is None && assoc_get(r.env, k) is Some
                ==> assoc_get(env, k) == assoc_get(r.env, k))
            &&& (recipe is None && assoc_get(toolchain, k) is None) ==> assoc_get(env, k)
                == assoc_get(profile_layer(scalar_layer(process, global), global, profile), k)
        }),
{
    let base = profile_layer(scalar_layer(process, global), global, profile);
    let with_recipe = match recipe {
        Some(r) => merge_env(base, r.env),
        None => base,
    };
    lemma_merge_env_get(with_recipe, toolchain, k);
    match recipe {
        Some(r) => {
            lemma_merge_env_get(base, r.env, k);
        },
        None => {},
    }
}

// ---------------------------------------------------------------------------
// Results and reports
// ---------------------------------------------------------------------------

/// Outcome of a single recipe execution.
#[derive(Debug)]
pub struct ExecutionResult {
    pub recipe_name: String,
    pub from_cache: bool,
    pub success: bool,
    pub duration_ms: u64,
    pub stdout: String,
    pub stderr: String,
    pub error: Option<String>,
}

/// Summary of a completed build: per-recipe results, timing, and overall
/// status.
#[derive(Debug)]
pub struct ExecutionReport {
    pub results: Vec<ExecutionResult>,
    pub total_duration_ms: u64,
    pub success: bool,
}

/// Progress of a build, for a live display.
#[derive(Debug)]
pub enum ProgressEvent {
    Starting { recipe: String, total: usize, completed: usize },
    Completed { recipe: String, success: bool, from_cache: bool, duration_ms: u64 },
    WaveDone { completed: usize, total: usize },
}

/// The number of results that were built (succeeded without the cache).
pub open spec fn count_built(s: Seq<ExecutionResult>) -> nat
    decreases s.len(),
{
    if s.len() == 0 {
        0
    } else {
        count_built(s.drop_last()) + if s.last().success && !s.last().from_cache {
            1nat
        } else {
            0nat
        }
    }
}

/// The number of results that came from the cache.
pub open spec fn count_cached(s: Seq<ExecutionResult>) -> nat
    decreases s.len(),
{
    if s.len() == 0 {
        0
    } else {
        count_cached(s.drop_last()) + if s.last().from_cache {
            1nat
        } else {
            0nat
        }
    }
}

/// The number of results that failed.
pub open spec fn count_failed(s: Seq<ExecutionResult>) -> nat
    decreases s.len(),
{
    if s.len() == 0 {
        0
    } else {
        count_failed(s.drop_last()) + if !s.last().success {
            1nat
        } else {
            0nat
        }
    }
}

/// Only a successful result can come from the cache.
pub open spec fn results_wf(s: Seq<ExecutionResult>) -> bool {
    forall|i: int| 0 <= i < s.len() ==> (#[trigger] s[i]).from_cache ==> s[i].success
}

proof fn lemma_counts_bounded(s: Seq<ExecutionResult>)
    ensures
        count_built(s) <= s.len(),
        count_cached(s) <= s.len(),
        count_failed(s) <= s.len(),
    decreases s.len(),
{
    if s.len() > 0 {
        lemma_counts_bounded(s.drop_last());
    }
}

impl ExecutionReport {
    /// The number of recipes built (succeeded, not from the cache).
    pub fn built(&self) -> (n: usize)
        ensures
            n == count_built(self.results@),
    {
        let mut n: usize = 0;
        let mut i: usize = 0;
        while i < self.results.len()
            invariant
                i <= self.results@.len(),
                n == count_built(self.results@.take(i as int)),
            decreases self.results@.len() - i,
        {
            assert(self.results@.take(i + 1).drop_last() =~= self.results@.take(i as int));
            proof {
                lemma_counts_bounded(self.results@.take(i as int));
            }
            if self.results[i].success && !self.results[i].from_cache {
                n += 1;
            }
            i += 1;
        }
        assert(self.results@.take(self.results@.len() as int) =~= self.results@);
        n
    }

    /// The number of recipes answered from the cache.
    pub fn cached(&self) -> (n: usize)
        ensures
            n == count_cached(self.results@),
    {
        let mut n: usize = 0;
        let mut i: usize = 0;
        while i < self.results.len()
            invariant
                i <= self.results@.len(),
                n == count_cached(self.results@.take(i as int)),
            decreases self.results@.len() - i,
        {
            assert(self.results@.take(i + 1).drop_last() =~= self.results@.take(i as int));
            proof {
                lemma_counts_bounded(self.results@.take(i as int));
            }
            if self.results[i].from_cache {
                n += 1;
            }
            i += 1;
        }
        assert(self.results@.take(self.results@.len() as int) =~= self.results@);
        n
    }

    /// The number of recipes that failed.
    pub fn failed(&self) -> (n: usize)
        ensures
            n == count_failed(self.results@),
    {
        let mut n: usize = 0;
        let mut i: usize = 0;
        while i < self.results.len()
            invariant
                i <= self.results@.len(),
                n == count_failed(self.results@.take(i as int)),
            decreases self.results@.len() - i,
        {
            assert(self.results@.take(i + 1).drop_last() =~= self.results@.take(i as int));
            proof {
                lemma_counts_bounded(self.results@.take(i as int));
            }
            if !self.results[i].success {
                n += 1;
            }
            i += 1;
        }
        assert(self.results@.take(self.results@.len() as int) =~= self.results@);
        n
    }
}

/// Every result of a build is counted once: as built, as cached or as
/// failed.
pub proof fn law_counts_partition(s: Seq<ExecutionResult>)
    requires
        results_wf(s),
    ensures
        count_built(s) + count_cached(s) + count_failed(s) == s.len(),
    decreases s.len(),
{
    if s.len() > 0 {
        assert(results_wf(s.drop_last())) by {
            assert forall|i: int| 0 <= i < s.drop_last().len() implies (#[trigger] s.drop_last()[i]).from_cache
                ==> s.drop_last()[i].success by {
                assert(s.drop_last()[i] == s[i]);
            }
        }
        assert(s.last() == s[s.len() - 1]);
        law_counts_partition(s.drop_last());
    }
}

/// The result of a recipe that ran (or failed to) for `duration_ms`: its
/// output, or its error's text.
pub open spec fn result_of(
    name: Seq<char>,
    outcome: Result<RecipeOutput, Error>,
    duration_ms: u64,
    r: ExecutionResult,
) -> bool {
    &&& r.recipe_name@ == name
    &&& r.duration_ms == duration_ms
    &&& match outcome {
        Ok(o) => r.from_cache == o.from_cache && r.success && r.stdout@ == o.stdout@ && r.stderr@
            == o.stderr@ && r.error is None,
        Err(e) => {
            &&& !r.from_cache
            &&& !r.success
            &&& r.stdout@.len() == 0
            &&& r.stderr@.len() == 0
            &&& r.error matches Some(m) && m@ == message_spec(e)
        },
    }
}

/// The result of a recipe that ran (or failed to) for `duration_ms`.
pub fn to_execution_result(name: String, outcome: Result<RecipeOutput, Error>, duration_ms: u64) -> (r:
    ExecutionResult)
    ensures
        result_of(name@, outcome, duration_ms, r),
        r.from_cache ==> r.success,
{
    match outcome {
        Ok(o) => ExecutionResult {
            recipe_name: name,
            from_cache: o.from_cache,
            success: true,
            duration_ms,
            stdout: o.stdout,
            stderr: o.stderr,
            error: None,
        },
        Err(e) => ExecutionResult {
            recipe_name: name,
            from_cache: false,
            success: false,
            duration_ms,
            stdout: String::new(),
            stderr: String::new(),
            error: Some(e.message()),
        },
    }
}

/// The result of a recipe whose task ended abnormally.
pub fn panicked_result(name: String, detail: &str) -> (r: ExecutionResult)
    ensures
        r.recipe_name@ == name@,
        !r.from_cache,
        !r.success,
        r.duration_ms == 0,
        r.stdout@.len() == 0,
        r.stderr@.len() == 0,
        r.error matches Some(m) && m@ == "task panicked: "@ + detail@,
{
    let mut m = chars_of("task panicked: ");
    extend_str(&mut m, detail);
    ExecutionResult {
        recipe_name: name,
        from_cache: false,
        success: false,
        duration_ms: 0,
        stdout: String::new(),
        stderr: String::new(),
        error: Some(string_of(&m)),
    }
}

/// The event reporting a finished recipe.
pub fn completed_event(r: &ExecutionResult) -> (e: ProgressEvent)
    ensures
        e matches ProgressEvent::Completed { recipe, success, from_cache, duration_ms } && recipe@
            == r.recipe_name@ && success == r.success && from_cache == r.from_cache && duration_ms
            == r.duration_ms,
{
    ProgressEvent::Completed {
        recipe: r.recipe_name.clone(),
        success: r.success,
        from_cache: r.from_cache,
        duration_ms: r.duration_ms,
    }
}

/// The event reporting that a recipe is starting.
pub fn starting_event(name: &str) -> (e: ProgressEvent)
    ensures
        e matches ProgressEvent::Starting { recipe, total, completed } && recipe@ == name@ && total
            == 0 && completed == 0,
{
    ProgressEvent::Starting { recipe: name.to_owned(), total: 0, completed: 0 }
}

// ---------------------------------------------------------------------------
// Logs
// ---------------------------------------------------------------------------

/// A recipe name with path separators replaced, so it can name a file.
pub open spec fn safe_name(name: Seq<char>) -> Seq<char> {
    name.map_values(|c: char| if c == '/' || c == '\\' { '_' } else { c })
}

/// The file a recipe's log is written to, in the log directory.
pub fn log_file_name(name: &str) -> (r: String)
    ensures
        r@ == safe_name(name@) + ".log"@,
{
    let cs = chars_of(name);
    let mut v: Vec<char> = Vec::new();
    let mut i: usize = 0;
    while i < cs.len()
        invariant
            i <= cs@.len(),
            cs@ == name@,
            v@ == safe_name(name@).take(i as int),
        decreases cs@.len() - i,
    {
        let c = cs[i];
        let d = if c == '/' || c == '\\' {
            '_'
        } else {
            c
        };
        v.push(d);
        assert(v@ =~= safe_name(name@).take(i + 1));
        i += 1;
    }
    assert(safe_name(name@).take(cs@.len() as int) =~= safe_name(name@));
    extend_str(&mut v, ".log");
    string_of(&v)
}

/// The log of a recipe: none when it printed nothing; otherwise its
/// stdout, then (after a newline if stdout was not empty) a stderr header
/// and its stderr, when stderr is not empty.
pub open spec fn log_content_spec(stdout: Seq<char>, stderr: Seq<char>) -> Option<Seq<char>> {
    if stdout.len() == 0 && stderr.len() == 0 {
        None
    } else if stderr.len() == 0 {
        Some(stdout)
    } else if stdout.len() == 0 {
        Some("--- stderr ---\n"@ + stderr)
    } else {
        Some(stdout + "\n"@ + "--- stderr ---\n"@ + stderr)
    }
}

/// The text written to a recipe's log file, if any.
pub fn log_content(stdout: &str, stderr: &str) -> (r: Option<String>)
    ensures
        match r {
            Some(t) => log_content_spec(stdout@, stderr@) == Some(t@),
            None => log_content_spec(stdout@, stderr@) is None,
        },
{
    let out = chars_of(stdout);
    let err = chars_of(stderr);
    if out.len() == 0 && err.len() == 0 {
        return None;
    }
    let mut v = out.clone();
    if err.len() > 0 {
        if v.len() > 0 {
            extend_str(&mut v, "\n");
        }
        extend_str(&mut v, "--- stderr ---\n");
        extend_str(&mut v, stderr);
    }
    Some(string_of(&v))
}

// ---------------------------------------------------------------------------
// Scheduling
// ---------------------------------------------------------------------------

/// Build engine settings: how many recipes run at once, and whether the
/// first failed wave ends the build.
pub struct Engine {
    pub parallelism: usize,
    pub fail_fast: bool,
}

impl Engine {
    pub fn new(parallelism: usize, fail_fast: bool) -> (e: Self)
        ensures
            e.parallelism == parallelism,
            e.fail_fast == fail_fast,
    {
        Engine { parallelism, fail_fast }
    }
}

/// The sum of the waves' sizes.
pub open spec fn total_of(waves: Seq<Vec<String>>) -> int
    decreases waves.len(),
{
    if waves.len() == 0 {
        0
    } else {
        total_of(waves.drop_last()) + waves.last()@.len()
    }
}

/// The first name of `wave` that is not among `known`, if any.
pub open spec fn first_unknown(wave: Seq<Seq<char>>, known: Seq<Seq<char>>) -> Option<Seq<char>>
    decreases wave.len(),
{
    if wave.len() == 0 {
        None
    } else if !known.contains(wave[0]) {
        Some(wave[0])
    } else {
        first_unknown(wave.drop_first(), known)
    }
}

/// A build in progress: its waves, the next one to start, and the results
/// recorded so far.
pub struct BuildRun {
    pub waves: Vec<Vec<String>>,
    pub fail_fast: bool,
    pub next: usize,
    pub failed: bool,
    pub results: Vec<ExecutionResult>,
}

/// What the caller is to do next.
pub enum RunStep {
    /// Run the recipes of this wave and record their results.
    Launch(usize),
    /// The build is over.
    Done,
}

impl BuildRun {
    /// The run's state is consistent: `failed` records whether a result
    /// failed, and only successful results come from the cache.
    pub open spec fn wf(&self) -> bool {
        &&& self.next <= self.waves@.len()
        &&& self.failed == (count_failed(self.results@) > 0)
        &&& results_wf(self.results@)
    }

    /// A run of the given waves, nothing started.
    pub fn new(engine: &Engine, waves: Vec<Vec<String>>) -> (r: Self)
        ensures
            r.wf(),
            r.waves@ == waves@,
            r.fail_fast == engine.fail_fast,
            r.next == 0,
            r.results@.len() == 0,
    {
        BuildRun { waves, fail_fast: engine.fail_fast, next: 0, failed: false, results: Vec::new() }
    }

    /// The next wave to start: none once every wave has run, or, with
    /// fail-fast, once a recipe has failed.
    pub fn next_step(&mut self) -> (s: RunStep)
        requires
            old(self).wf(),
        ensures
            final(self).wf(),
            final(self).waves@ == old(self).waves@,
            final(self).results@ == old(self).results@,
            final(self).failed == old(self).failed,
            final(self).fail_fast == old(self).fail_fast,
            if old(self).next < old(self).waves@.len() && !(old(self).failed && old(self).fail_fast) {
                s == RunStep::Launch(old(self).next) && final(self).next == old(self).next + 1
            } else {
                s == RunStep::Done && final(self).next == old(self).next
            },
    {
        if self.next < self.waves.len() && !(self.failed && self.fail_fast) {
            let i = self.next;
            self.next = i + 1;
            RunStep::Launch(i)
        } else {
            RunStep::Done
        }
    }

    /// Checks that every recipe of wave `i` is one of the `known` recipes:
    /// the first that is not is an unknown recipe.
    pub fn check_wave(&self, i: usize, known: &Vec<String>) -> (r: Result<(), Error>)
        requires
            i < self.waves@.len(),
        ensures
            match first_unknown(crate::text::sv(self.waves@[i as int]@), crate::text::sv(known@)) {
                Some(n) => r matches Err(Error::UnknownRecipe { name }) && name@ == n,
                None => r is Ok,
            },
    {
        let wave = &self.waves[i];
        assert(wave@ == self.waves@[i as int]@);
        let ghost wv = crate::text::sv(wave@);
        let ghost kv = crate::text::sv(known@);
        let mut j: usize = 0;
        assert(wv.skip(0) =~= wv);
        while j < wave.len()
            invariant
                j <= wave@.len(),
                i < self.waves@.len(),
                wave@ == self.waves@[i as int]@,
                wv == crate::text::sv(wave@),
                kv == crate::text::sv(known@),
                first_unknown(wv, kv) == first_unknown(wv.skip(j as int), kv),
            decreases wave@.len() - j,
        {
            let name = &wave[j];
            assert(wv.skip(j as int)[0] == name@);
            assert(wv.skip(j as int).drop_first() =~= wv.skip(j + 1));
            if !crate::text::vec_contains(known, name.as_str()) {
                let n = name.as_str().to_owned();
                assert(first_unknown(wv.skip(j as int), kv) == Some(name@));
                return Err(Error::UnknownRecipe { name: n });
            }
            j += 1;
        }
        assert(wv.skip(j as int) =~= Seq::<Seq<char>>::empty());
        Ok(())
    }

    /// Records a recipe's result.
    pub fn record(&mut self, r: ExecutionResult)
        requires
            old(self).wf(),
            r.from_cache ==> r.success,
        ensures
            final(self).wf(),
            final(self).waves@ == old(self).waves@,
            final(self).next == old(self).next,
            final(self).fail_fast == old(self).fail_fast,
            final(self).results@ == old(self).results@.push(r),
            final(self).failed == (old(self).failed || !r.success),
    {
        let ok = r.success;
        let ghost before = self.results@;
        self.results.push(r);
        assert(self.results@.drop_last() =~= before);
        if !ok {
            self.failed = true;
        }
        assert(results_wf(self.results@)) by {
            assert forall|i: int| 0 <= i < self.results@.len() implies (#[trigger] self.results@[i]).from_cache
                ==> self.results@[i].success by {
                if i < before.len() {
                    assert(self.results@[i] == before[i]);
                }
            }
        }
    }

    /// How many recipes the build has in all.
    pub fn total(&self) -> (n: usize)
        requires
            total_of(self.waves@) <= usize::MAX,
        ensures
            n == total_of(self.waves@),
    {
        let mut n: usize = 0;
        let mut i: usize = 0;
        while i < self.waves.len()
            invariant
                i <= self.waves@.len(),
                n == total_of(self.waves@.take(i as int)),
                total_of(self.waves@) <= usize::MAX,
            decreases self.waves@.len() - i,
        {
            assert(self.waves@.take(i + 1).drop_last() =~= self.waves@.take(i as int));
            proof {
                lemma_total_prefix(self.waves@, i + 1);
            }
            n = n + self.waves[i].len();
            i += 1;
        }
        assert(self.waves@.take(self.waves@.len() as int) =~= self.waves@);
        n
    }

    /// The event closing a wave: how many recipes have finished, of how
    /// many.
    pub fn wave_done(&self) -> (e: ProgressEvent)
        requires
            total_of(self.waves@) <= usize::MAX,
        ensures
            e matches ProgressEvent::WaveDone { completed, total } && completed == self.results@.len()
                && total == total_of(self.waves@),
    {
        ProgressEvent::WaveDone { completed: self.results.len(), total: self.total() }
    }

    /// The report of the finished build: its results, and success exactly
    /// when no recipe failed.
    pub fn report(self, total_duration_ms: u64) -> (r: ExecutionReport)
        requires
            self.wf(),
        ensures
            r.results@ == self.results@,
            r.total_duration_ms == total_duration_ms,
            r.success == (count_failed(r.results@) == 0),
            results_wf(r.results@),
    {
        ExecutionReport { success: !self.failed, results: self.results, total_duration_ms }
    }
}

proof fn lemma_total_prefix(w: Seq<Vec<String>>, k: int)
    requires
        0 <= k <= w.len(),
    ensures
        total_of(w.take(k)) <= total_of(w),
        total_of(w.take(k)) >= 0,
    decreases w.len(),
{
    if w.len() > 0 {
        if k == w.len() {
            assert(w.take(k) =~= w);
            lemma_total_prefix(w.drop_last(), k - 1);
        } else {
            assert(w.drop_last().take(k) =~= w.take(k));
            lemma_total_prefix(w.drop_last(), k);
        }
    } else {
        assert(w.take(k) =~= w);
    }
}

} // verus!
