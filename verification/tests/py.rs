use must::error::Error;
use must::job::{Action, CommandResult, Event, Invocation, Plan, Stage};
use must::types::{BuildContext, CacheStrategy, Recipe, RecipeOutput};
use must::py::{PyBinRecipe, PyLintRecipe, PyTestRecipe};

fn ctx() -> BuildContext {
    BuildContext::new("/tmp".to_string(), 1)
}

/// No tool is installed where the tests run: every command reports its
/// tool missing.
fn run_command(inv: &Invocation) -> Result<CommandResult, Error> {
    Err(Error::ToolNotFound { tool: inv.tool.clone(), hint: inv.hint.clone() })
}

/// Drives a plan to its end: no cache entry is found and nothing is stored.
fn execute(plan: &Plan) -> Result<RecipeOutput, Error> {
    let (mut stage, mut action) = plan.step(Stage::Start, Event::Begin);
    loop {
        let event = match action {
            Action::Finish(r) => return r,
            Action::Lookup => Event::Looked(None),
            Action::Run(i) => Event::Ran(run_command(&plan.commands[i])),
            Action::Store => Event::Stored,
        };
        let next = plan.step(stage, event);
        stage = next.0;
        action = next.1;
    }
}


#[test]
fn py_bin_cache_strategy_is_hash() {
    let r = PyBinRecipe::new("build", ".");
    assert_eq!(r.cache_strategy(), CacheStrategy::Hash);
}

#[test]
fn py_bin_name_and_package() {
    let r = PyBinRecipe::new("build", "packages/api");
    assert_eq!(r.name(), "build");
    assert_eq!(r.package, "packages/api");
}

#[test]
fn py_bin_dry_run() {
    let r = PyBinRecipe::new("build", ".");
    let mut c = ctx();
    c.dry_run = true;
    let out = execute(&r.plan(&c, false)).unwrap();
    assert!(out.stdout.contains("dry-run"));
    assert!(out.stdout.contains("install"));
    assert_eq!(out.duration_ms, 0);
}

#[test]
fn py_test_cache_strategy_is_never() {
    let r = PyTestRecipe::new("test", ".");
    assert_eq!(r.cache_strategy(), CacheStrategy::Never);
}

#[test]
fn py_test_dry_run() {
    let r = PyTestRecipe::new("test", ".");
    let mut c = ctx();
    c.dry_run = true;
    let out = execute(&r.plan(&c)).unwrap();
    assert!(out.stdout.contains("dry-run"));
    assert!(out.stdout.contains("pytest"));
}

#[test]
fn py_lint_cache_strategy_is_never() {
    let r = PyLintRecipe::new("lint", ".");
    assert_eq!(r.cache_strategy(), CacheStrategy::Never);
}

#[test]
fn py_lint_dry_run() {
    let r = PyLintRecipe::new("lint", ".");
    let mut c = ctx();
    c.dry_run = true;
    let out = execute(&r.plan(&c)).unwrap();
    assert!(out.stdout.contains("dry-run"));
    assert!(out.stdout.contains("ruff"));
    assert!(out.stdout.contains("mypy"));
}

#[test]
fn py_cache_key_differs_by_package() {
    let r1 = PyBinRecipe::new("r", "pkg-a");
    let r2 = PyBinRecipe::new("r", "pkg-b");
    assert_ne!(
        r1.cache_key(&ctx()).unwrap().hash,
        r2.cache_key(&ctx()).unwrap().hash
    );
}

/// Drives a plan to its end, the cache finding the plan's key.
fn execute_hit(plan: &Plan) -> Result<RecipeOutput, Error> {
    let (mut stage, mut action) = plan.step(Stage::Start, Event::Begin);
    loop {
        let event = match action {
            Action::Finish(r) => return r,
            Action::Lookup => Event::Looked(Some(must::types::CacheLookup::Hit)),
            Action::Run(i) => Event::Ran(run_command(&plan.commands[i])),
            Action::Store => Event::Stored,
        };
        let next = plan.step(stage, event);
        stage = next.0;
        action = next.1;
    }
}

#[test]
fn py_bin_cache_hit() {
    let c = BuildContext::new("/tmp/project".to_string(), 1);
    let r = PyBinRecipe::new("build", ".");
    match execute_hit(&r.plan(&c, false)) {
        Ok(o) => {
            assert!(o.from_cache);
        }
        Err(Error::ToolNotFound { .. }) => {}
        Err(e) => panic!("unexpected error: {e:?}"),
    }
}

#[test]
fn py_bin_execute_tool_not_found() {
    let c = BuildContext::new("/tmp/project".to_string(), 1);
    let r = PyBinRecipe::new("build", ".");
    assert!(execute(&r.plan(&c, false)).is_err());
}
