//! Core types shared by recipes, the cache and the engine.

use vstd::prelude::*;
use crate::error::Error;
use crate::map::OrdMap;
use crate::paths::{join_path, path_join};
use crate::text::sv;

verus! {

/// How a recipe decides whether it is up to date.
#[derive(Debug, Clone, Copy, PartialEq, Eq, Structural)]
pub enum CacheStrategy {
    Hash,
    Mtime,
    Never,
}

/// The answer of a cache lookup.
#[derive(Debug, Clone, Copy, PartialEq, Eq, Structural)]
pub enum CacheLookup {
    Hit,
    Miss,
    Stale,
}

/// The identity of one cached build of a recipe.
#[derive(Debug, Clone, PartialEq, Eq, Hash)]
pub struct CacheKey {
    pub recipe: String,
    pub target: String,
    pub profile: String,
    pub hash: String,
}

/// Everything a recipe needs to know about the build it is part of.
#[derive(Debug)]
pub struct BuildContext {
    pub project_root: String,
    pub cache_dir: String,
    pub log_dir: String,
    pub target: String,
    pub profile: String,
    pub env: OrdMap<String>,
    pub dry_run: bool,
    pub parallelism: usize,
    /// Whether commands run on Windows, where scripts go to `cmd /C`
    /// rather than `sh -c`.  The caller knows the platform.
    pub windows: bool,
}

impl BuildContext {
    /// A context for the host target and the default profile, with the cache
    /// and logs under `<root>/.mustfile`, not on Windows.
    pub fn new(project_root: String, parallelism: usize) -> (c: Self)
        ensures
            c.project_root@ == project_root@,
            c.cache_dir@ == join_path(join_path(project_root@, ".mustfile"@), "cache"@),
            c.log_dir@ == join_path(join_path(project_root@, ".mustfile"@), "logs"@),
            c.target@ == "host"@,
            c.profile@ == "default"@,
            c.env@.len() == 0,
            !c.dry_run,
            c.parallelism == parallelism,
            !c.windows,
    {
        let base = path_join(project_root.as_str(), ".mustfile");
        let cache_dir = path_join(base.as_str(), "cache");
        let log_dir = path_join(base.as_str(), "logs");
        BuildContext {
            project_root,
            cache_dir,
            log_dir,
            target: "host".to_owned(),
            profile: "default".to_owned(),
            env: OrdMap::new(),
            dry_run: false,
            parallelism,
            windows: false,
        }
    }
}

/// What running a recipe produced.
#[derive(Debug)]
pub struct RecipeOutput {
    pub recipe_name: String,
    pub from_cache: bool,
    pub outputs: Vec<String>,
    pub stdout: String,
    pub stderr: String,
    pub duration_ms: u64,
}

/// `o` is an output of recipe `name` with the given fields.
pub open spec fn output_is(
    o: RecipeOutput,
    name: Seq<char>,
    from_cache: bool,
    outputs: Seq<Seq<char>>,
    stdout: Seq<char>,
    stderr: Seq<char>,
    duration_ms: u64,
) -> bool {
    &&& o.recipe_name@ == name
    &&& o.from_cache == from_cache
    &&& sv(o.outputs@) == outputs
    &&& o.stdout@ == stdout
    &&& o.stderr@ == stderr
    &&& o.duration_ms == duration_ms
}

/// A buildable unit of work.
pub trait Recipe {
    fn name(&self) -> &str;

    fn deps(&self) -> &[String];

    fn cache_strategy(&self) -> CacheStrategy;
}

/// Persistent cache for recipe outputs.
pub trait Cache {
    fn lookup(&self, key: &CacheKey) -> Result<CacheLookup, Error>;

    fn store(&self, key: &CacheKey, outputs: &[String]) -> Result<(), Error>;

    fn invalidate(&self, key: &CacheKey) -> Result<(), Error>;
}

} // verus!
