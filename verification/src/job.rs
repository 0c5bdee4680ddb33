//! Running a recipe as a sequence of decisions: the library decides, the
//! caller performs each action (a cache lookup, a command, a cache store)
//! and reports back what happened.

use vstd::prelude::*;
use crate::error::Error;
use crate::map::OrdMap;
use crate::text::{clone_strings, sv};
use crate::types::{CacheKey, CacheLookup, RecipeOutput, output_is};

verus! {

/// One command to run.
#[derive(Debug)]
pub struct Invocation {
    pub program: String,
    pub args: Vec<String>,
    /// Directory to run in.
    pub workdir: String,
    /// The whole environment of the command (nothing else is inherited).
    pub env: OrdMap<String>,
    /// Named, with `hint`, in `ToolNotFound` when the program cannot be
    /// found; when empty, a failure to start is an I/O error.
    pub tool: String,
    pub hint: String,
    /// Named in `RecipeFailed` when the command exits unsuccessfully.
    pub failure_name: String,
    /// Whether the command starts from an empty environment, `env` then
    /// being all it sees, or inherits the caller's with `env` added over it.
    pub clear_env: bool,
    /// Whether its output is captured and reported, or goes straight to the
    /// terminal (then stdout and stderr are reported empty).
    pub capture: bool,
}

/// How a recipe checks whether it is up to date.
#[derive(Debug)]
pub enum CacheQuery {
    /// Look the key up in the cache.
    Key(CacheKey),
    /// Compare the modification times of inputs and outputs.
    Mtime,
}

/// What executing a recipe amounts to.
#[derive(Debug)]
pub struct Plan {
    pub recipe_name: String,
    /// Whether a dry run ends before the cache is consulted.
    pub dry_run_first: bool,
    pub query: Option<CacheQuery>,
    /// The key under which a successful build is stored.
    pub store: Option<CacheKey>,
    pub dry_run: bool,
    pub dry_run_text: String,
    /// Run in order; the first failure ends the recipe.
    pub commands: Vec<Invocation>,
    /// The outputs reported after a successful build.
    pub outputs: Vec<String>,
    /// The outputs reported on a cache hit.
    pub cached_outputs: Vec<String>,
    /// Directories created, with their parents, before the first command
    /// runs; failing to create them is the first command's failure.
    pub dirs: Vec<String>,
}

/// What a finished command reported.
#[derive(Debug)]
pub struct CommandResult {
    /// The exit code; `None` when the command ended without one.
    pub code: Option<i32>,
    pub stdout: String,
    pub stderr: String,
    pub duration_ms: u64,
}

/// Where a recipe's execution stands.
#[derive(Debug)]
pub enum Stage {
    Start,
    Looking,
    Running(usize),
    /// The last command succeeded; its result waits for the cache store.
    Storing(CommandResult),
    Finished,
}

/// What the caller reports.
#[derive(Debug)]
pub enum Event {
    Begin,
    Looked(Option<CacheLookup>),
    Ran(Result<CommandResult, Error>),
    Stored,
}

/// What the caller is asked to do next.
#[derive(Debug)]
pub enum Action {
    /// Perform the plan's cache query.
    Lookup,
    /// Run the command with this index.
    Run(usize),
    /// Store the plan's key with its outputs.
    Store,
    /// The recipe is done, with this result.
    Finish(Result<RecipeOutput, Error>),
}

/// The output of a dry run.
pub open spec fn dry_output(p: Plan, o: RecipeOutput) -> bool {
    output_is(o, p.recipe_name@, false, seq![], p.dry_run_text@, seq![], 0)
}

/// The output of a cache hit.
pub open spec fn cached_output(p: Plan, o: RecipeOutput) -> bool {
    output_is(o, p.recipe_name@, true, sv(p.cached_outputs@), seq![], seq![], 0)
}

/// The output of a build whose last command reported `c`.
pub open spec fn built_output(p: Plan, c: CommandResult, o: RecipeOutput) -> bool {
    output_is(o, p.recipe_name@, false, sv(p.outputs@), c.stdout@, c.stderr@, c.duration_ms)
}

/// The error of command `i` exiting unsuccessfully.
pub open spec fn failure(p: Plan, i: int, c: CommandResult, e: Error) -> bool {
    e matches Error::RecipeFailed { name, code, stderr } && name@ == p.commands@[i].failure_name@
        && code == (match c.code {
        Some(x) => x,
        None => -1i32,
    }) && stderr@ == c.stderr@
}

/// The step once the cache has nothing to offer: a dry run ends, otherwise
/// the first command runs.
pub open spec fn after_cache(p: Plan, next: Stage, a: Action) -> bool {
    if p.dry_run {
        next is Finished && (a matches Action::Finish(Ok(o)) && dry_output(p, o))
    } else {
        next == Stage::Running(0) && a == Action::Run(0)
    }
}

/// The event is one the stage waits for.
pub open spec fn event_fits(stage: Stage, e: Event) -> bool {
    match stage {
        Stage::Start => e is Begin,
        Stage::Looking => e is Looked,
        Stage::Running(_) => e is Ran,
        Stage::Storing(_) => e is Stored,
        Stage::Finished => false,
    }
}

impl Plan {
    /// The plan is well formed: a plan that is not a dry run has a command
    /// to run.
    pub open spec fn wf(self) -> bool {
        self.dry_run || self.commands@.len() > 0
    }

    fn dry_output(&self) -> (o: RecipeOutput)
        ensures
            dry_output(*self, o),
    {
        let o = RecipeOutput {
            recipe_name: self.recipe_name.clone(),
            from_cache: false,
            outputs: Vec::new(),
            stdout: self.dry_run_text.clone(),
            stderr: String::new(),
            duration_ms: 0,
        };
        assert(sv(o.outputs@) =~= Seq::<Seq<char>>::empty());
        o
    }

    fn after_cache(&self) -> (r: (Stage, Action))
        requires
            self.wf(),
        ensures
            after_cache(*self, r.0, r.1),
    {
        if self.dry_run {
            (Stage::Finished, Action::Finish(Ok(self.dry_output())))
        } else {
            (Stage::Running(0), Action::Run(0))
        }
    }

    fn built_output(&self, c: CommandResult) -> (o: RecipeOutput)
        ensures
            built_output(*self, c, o),
    {
        RecipeOutput {
            recipe_name: self.recipe_name.clone(),
            from_cache: false,
            outputs: clone_strings(&self.outputs),
            stdout: c.stdout,
            stderr: c.stderr,
            duration_ms: c.duration_ms,
        }
    }

    /// The next stage and action, given the current stage and what the
    /// caller reported.
    pub fn step(&self, stage: Stage, event: Event) -> (r: (Stage, Action))
        requires
            self.wf(),
            event_fits(stage, event),
            stage matches Stage::Running(i) ==> i < self.commands@.len(),
        ensures
            match stage {
                Stage::Start => if self.dry_run && self.dry_run_first {
                    r.0 is Finished && (r.1 matches Action::Finish(Ok(o)) && dry_output(*self, o))
                } else if self.query is Some {
                    r.0 is Looking && r.1 is Lookup
                } else {
                    after_cache(*self, r.0, r.1)
                },
                Stage::Looking => if event == Event::Looked(Some(CacheLookup::Hit)) {
                    r.0 is Finished && (r.1 matches Action::Finish(Ok(o)) && cached_output(*self, o))
                } else {
                    after_cache(*self, r.0, r.1)
                },
                Stage::Running(i) => match event {
                    Event::Ran(Err(e)) => r.0 is Finished && r.1 == Action::Finish(Err(e)),
                    Event::Ran(Ok(c)) => if c.code != Some(0i32) {
                        r.0 is Finished && (r.1 matches Action::Finish(Err(e)) && failure(
                            *self,
                            i as int,
                            c,
                            e,
                        ))
                    } else if i + 1 < self.commands@.len() {
                        r.0 == Stage::Running((i + 1) as usize) && r.1 == Action::Run((i + 1) as usize)
                    } else if self.store is Some {
                        r.0 == Stage::Storing(c) && r.1 is Store
                    } else {
                        r.0 is Finished && (r.1 matches Action::Finish(Ok(o)) && built_output(*self, c, o))
                    },
                    _ => false,
                },
                Stage::Storing(c) => r.0 is Finished && (r.1 matches Action::Finish(Ok(o))
                    && built_output(*self, c, o)),
                Stage::Finished => false,
            },
    {
        match stage {
            Stage::Start => {
                if self.dry_run && self.dry_run_first {
                    (Stage::Finished, Action::Finish(Ok(self.dry_output())))
                } else if self.query.is_some() {
                    (Stage::Looking, Action::Lookup)
                } else {
                    self.after_cache()
                }
            },
            Stage::Looking => {
                match event {
                    Event::Looked(Some(CacheLookup::Hit)) => {
                        let o = RecipeOutput {
                            recipe_name: self.recipe_name.clone(),
                            from_cache: true,
                            outputs: clone_strings(&self.cached_outputs),
                            stdout: String::new(),
                            stderr: String::new(),
                            duration_ms: 0,
                        };
                        (Stage::Finished, Action::Finish(Ok(o)))
                    },
                    _ => self.after_cache(),
                }
            },
            Stage::Running(i) => {
                match event {
                    Event::Ran(Err(e)) => (Stage::Finished, Action::Finish(Err(e))),
                    Event::Ran(Ok(c)) => {
                        let ok = match c.code {
                            Some(x) => x == 0,
                            None => false,
                        };
                        if !ok {
                            let code: i32 = match c.code {
                                Some(x) => x,
                                None => -1,
                            };
                            let e = Error::RecipeFailed {
                                name: self.commands[i].failure_name.clone(),
                                code,
                                stderr: c.stderr,
                            };
                            (Stage::Finished, Action::Finish(Err(e)))
                        } else if i < self.commands.len() - 1 {
                            (Stage::Running(i + 1), Action::Run(i + 1))
                        } else if self.store.is_some() {
                            (Stage::Storing(c), Action::Store)
                        } else {
                            (Stage::Finished, Action::Finish(Ok(self.built_output(c))))
                        }
                    },
                    _ => vstd::pervasive::unreached(),
                }
            },
            Stage::Storing(c) => (Stage::Finished, Action::Finish(Ok(self.built_output(c)))),
            Stage::Finished => vstd::pervasive::unreached(),
        }
    }
}

} // verus!
