use must::error::Error;
use must::job::{Action, CommandResult, Event, Invocation, Plan, Stage};
use must::ts::{NpmRecipe, TsBinRecipe, TsCheckRecipe, TsLintRecipe};
use must::types::{BuildContext, CacheLookup, CacheStrategy, Recipe, RecipeOutput};

fn ctx() -> BuildContext {
    BuildContext::new("/tmp".to_string(), 1)
}

/// No tool is installed where the tests run: every command reports its
/// tool missing.
fn run_command(inv: &Invocation) -> Result<CommandResult, Error> {
    Err(Error::ToolNotFound { tool: inv.tool.clone(), hint: inv.hint.clone() })
}

/// Drives a plan to its end, the cache answering each query with `found`.
fn execute_with(plan: &Plan, found: Option<CacheLookup>) -> Result<RecipeOutput, Error> {
    let (mut stage, mut action) = plan.step(Stage::Start, Event::Begin);
    loop {
        let event = match action {
            Action::Finish(r) => return r,
            Action::Lookup => Event::Looked(found.clone()),
            Action::Run(i) => Event::Ran(run_command(&plan.commands[i])),
            Action::Store => Event::Stored,
        };
        let next = plan.step(stage, event);
        stage = next.0;
        action = next.1;
    }
}

fn execute(plan: &Plan) -> Result<RecipeOutput, Error> {
    execute_with(plan, None)
}

#[test]
fn ts_bin_cache_strategy_is_hash() {
    let r = TsBinRecipe::new("build", ".");
    assert_eq!(r.cache_strategy(), CacheStrategy::Hash);
}

#[test]
fn ts_bin_name_and_package() {
    let r = TsBinRecipe::new("build", "packages/api");
    assert_eq!(r.name(), "build");
    assert_eq!(r.package, "packages/api");
}

#[test]
fn ts_bin_deps_empty_by_default() {
    let r = TsBinRecipe::new("build", ".");
    assert!(r.deps().is_empty());
}

#[test]
fn ts_bin_inputs_always_empty() {
    let r = TsBinRecipe::new("build", ".");
    assert!(r.inputs(&ctx()).unwrap().is_empty());
}

#[test]
fn ts_bin_outputs_always_empty() {
    let r = TsBinRecipe::new("build", ".");
    assert!(r.outputs(&ctx()).unwrap().is_empty());
}

#[test]
fn ts_bin_dry_run_returns_without_spawning() {
    let r = TsBinRecipe::new("build", ".");
    let mut c = ctx();
    c.dry_run = true;
    let out = execute(&r.plan(&c)).unwrap();
    assert!(out.stdout.contains("dry-run"));
    assert!(out.stdout.contains("tsc"));
    assert_eq!(out.duration_ms, 0);
}

#[test]
fn ts_bin_execute_returns_from_cache_when_hit() {
    let c = BuildContext::new("/tmp/project".to_string(), 1);
    let r = TsBinRecipe::new("build", ".");
    let out = execute_with(&r.plan(&c), Some(CacheLookup::Hit)).unwrap();
    assert!(out.from_cache, "should return from cache");
    assert_eq!(out.recipe_name, "build");
}

#[test]
fn ts_check_cache_strategy_is_never() {
    let r = TsCheckRecipe::new("typecheck", ".");
    assert_eq!(r.cache_strategy(), CacheStrategy::Never);
}

#[test]
fn ts_check_name_and_package() {
    let r = TsCheckRecipe::new("typecheck", "src");
    assert_eq!(r.name(), "typecheck");
    assert_eq!(r.package, "src");
}

#[test]
fn ts_check_outputs_always_empty() {
    let r = TsCheckRecipe::new("typecheck", ".");
    assert!(r.outputs(&ctx()).unwrap().is_empty());
}

#[test]
fn ts_check_dry_run_returns_without_spawning() {
    let r = TsCheckRecipe::new("typecheck", ".");
    let mut c = ctx();
    c.dry_run = true;
    let out = execute(&r.plan(&c)).unwrap();
    assert!(out.stdout.contains("dry-run"));
    assert!(out.stdout.contains("--noEmit"));
    assert_eq!(out.duration_ms, 0);
}

#[test]
fn ts_check_cache_key_includes_package() {
    let r1 = TsCheckRecipe::new("check", "pkg-a");
    let r2 = TsCheckRecipe::new("check", "pkg-b");
    let key1 = r1.cache_key(&ctx()).unwrap();
    let key2 = r2.cache_key(&ctx()).unwrap();
    assert_ne!(key1.hash, key2.hash, "package should affect cache key hash");
}

#[test]
fn ts_lint_cache_strategy_is_never() {
    let r = TsLintRecipe::new("lint", ".");
    assert_eq!(r.cache_strategy(), CacheStrategy::Never);
}

#[test]
fn ts_lint_name_and_package() {
    let r = TsLintRecipe::new("lint", "src");
    assert_eq!(r.name(), "lint");
    assert_eq!(r.package, "src");
}

#[test]
fn ts_lint_outputs_always_empty() {
    let r = TsLintRecipe::new("lint", ".");
    assert!(r.outputs(&ctx()).unwrap().is_empty());
}

#[test]
fn ts_lint_dry_run_returns_without_spawning() {
    let r = TsLintRecipe::new("lint", ".");
    let mut c = ctx();
    c.dry_run = true;
    let out = execute(&r.plan(&c)).unwrap();
    assert!(out.stdout.contains("dry-run"));
    assert!(out.stdout.contains("biome check"));
    assert_eq!(out.duration_ms, 0);
}

#[test]
fn npm_cache_strategy_is_never() {
    let r = NpmRecipe::new("build", "build");
    assert_eq!(r.cache_strategy(), CacheStrategy::Never);
}

#[test]
fn npm_name_and_script() {
    let r = NpmRecipe::new("test", "test");
    assert_eq!(r.name(), "test");
    assert_eq!(r.npm_script, "test");
}

#[test]
fn npm_default_workdir_is_dot() {
    let r = NpmRecipe::new("build", "build");
    assert_eq!(r.workdir, ".");
}

#[test]
fn npm_deps_empty_by_default() {
    let r = NpmRecipe::new("build", "build");
    assert!(r.deps().is_empty());
}

#[test]
fn npm_outputs_always_empty() {
    let r = NpmRecipe::new("build", "build");
    assert!(r.outputs(&ctx()).unwrap().is_empty());
}

#[test]
fn npm_dry_run_returns_without_spawning() {
    let r = NpmRecipe::new("build", "build");
    let mut c = ctx();
    c.dry_run = true;
    let out = execute(&r.plan(&c)).unwrap();
    assert!(out.stdout.contains("dry-run"));
    assert!(out.stdout.contains("npm run build"));
    assert_eq!(out.duration_ms, 0);
}

#[test]
fn npm_dry_run_shows_workdir() {
    let mut r = NpmRecipe::new("build-api", "build");
    r.workdir = "packages/api".to_string();
    let mut c = ctx();
    c.dry_run = true;
    let out = execute(&r.plan(&c)).unwrap();
    assert!(out.stdout.contains("packages/api"));
}

#[test]
fn npm_cache_key_differs_by_script() {
    let r1 = NpmRecipe::new("r", "build");
    let r2 = NpmRecipe::new("r", "test");
    let key1 = r1.cache_key(&ctx()).unwrap();
    let key2 = r2.cache_key(&ctx()).unwrap();
    assert_ne!(key1.hash, key2.hash, "script name should affect cache key");
}

#[test]
fn npm_cache_key_differs_by_workdir() {
    let mut r1 = NpmRecipe::new("r", "build");
    let mut r2 = NpmRecipe::new("r", "build");
    r1.workdir = "packages/a".to_string();
    r2.workdir = "packages/b".to_string();
    let key1 = r1.cache_key(&ctx()).unwrap();
    let key2 = r2.cache_key(&ctx()).unwrap();
    assert_ne!(key1.hash, key2.hash, "workdir should affect cache key");
}
