use must::error::Error;
use must::job::{Action, CommandResult, Event, Invocation, Plan, Stage};
use must::types::{BuildContext, CacheStrategy, Recipe, RecipeOutput};
use must::kotlin::{KotlinBinRecipe, KotlinTestRecipe};

fn ctx() -> BuildContext {
    BuildContext::new("/tmp".to_string(), 1)
}

/// No tool is installed where the tests run: every command reports its
/// tool missing.
fn run_command(inv: &Invocation) -> Result<CommandResult, Error> {
    Err(Error::ToolNotFound { tool: inv.tool.clone(), hint: inv.hint.clone() })
}

/// Drives a plan to its end: no cache entry is found and nothing is stored.
fn execute(plan: &Plan) -> Result<RecipeOutput, Error> {
    let (mut stage, mut action) = plan.step(Stage::Start, Event::Begin);
    loop {
        let event = match action {
            Action::Finish(r) => return r,
            Action::Lookup => Event::Looked(None),
            Action::Run(i) => Event::Ran(run_command(&plan.commands[i])),
            Action::Store => Event::Stored,
        };
        let next = plan.step(stage, event);
        stage = next.0;
        action = next.1;
    }
}


#[test]
fn kotlin_bin_cache_strategy_is_hash() {
    let r = KotlinBinRecipe::new("build", ".");
    assert_eq!(r.cache_strategy(), CacheStrategy::Hash);
}

#[test]
fn kotlin_bin_name_and_package() {
    let r = KotlinBinRecipe::new("build", "services/api");
    assert_eq!(r.name(), "build");
    assert_eq!(r.package, "services/api");
}

#[test]
fn kotlin_bin_deps_empty_by_default() {
    let r = KotlinBinRecipe::new("build", ".");
    assert!(r.deps().is_empty());
}

#[test]
fn kotlin_bin_inputs_outputs_empty() {
    let r = KotlinBinRecipe::new("build", ".");
    assert!(r.inputs(&ctx()).unwrap().is_empty());
    assert!(r.outputs(&ctx()).unwrap().is_empty());
}

#[test]
fn kotlin_bin_dry_run() {
    let r = KotlinBinRecipe::new("build", ".");
    let mut c = ctx();
    c.dry_run = true;
    let out = execute(&r.plan(&c)).unwrap();
    assert!(out.stdout.contains("dry-run"));
    assert!(out.stdout.contains("gradlew build"));
    assert_eq!(out.duration_ms, 0);
}

#[test]
fn kotlin_bin_cache_key_differs_by_package() {
    let r1 = KotlinBinRecipe::new("r", "pkg-a");
    let r2 = KotlinBinRecipe::new("r", "pkg-b");
    assert_ne!(
        r1.cache_key(&ctx()).unwrap().hash,
        r2.cache_key(&ctx()).unwrap().hash
    );
}

#[test]
fn kotlin_test_cache_strategy_is_never() {
    let r = KotlinTestRecipe::new("test", ".");
    assert_eq!(r.cache_strategy(), CacheStrategy::Never);
}

#[test]
fn kotlin_test_name_and_package() {
    let r = KotlinTestRecipe::new("test", "services/api");
    assert_eq!(r.name(), "test");
    assert_eq!(r.package, "services/api");
}

#[test]
fn kotlin_test_dry_run() {
    let r = KotlinTestRecipe::new("test", ".");
    let mut c = ctx();
    c.dry_run = true;
    let out = execute(&r.plan(&c)).unwrap();
    assert!(out.stdout.contains("dry-run"));
    assert!(out.stdout.contains("gradlew test"));
}

#[test]
fn kotlin_bin_workdir_not_dot_dry_run() {
    let r = KotlinBinRecipe::new("build", "libs/core");
    let mut c = ctx();
    c.dry_run = true;
    let out = execute(&r.plan(&c)).unwrap();
    assert!(out.stdout.contains("libs/core"));
}

#[test]
fn kotlin_test_inputs_outputs_empty() {
    let r = KotlinTestRecipe::new("test", ".");
    assert!(r.inputs(&ctx()).unwrap().is_empty());
    assert!(r.outputs(&ctx()).unwrap().is_empty());
}

#[test]
fn kotlin_bin_cache_key_stable() {
    let r = KotlinBinRecipe::new("build", ".");
    let key1 = r.cache_key(&ctx()).unwrap();
    let key2 = r.cache_key(&ctx()).unwrap();
    assert_eq!(key1.hash, key2.hash);
}

#[test]
fn kotlin_test_workdir_not_dot_dry_run() {
    let r = KotlinTestRecipe::new("test", "services/api");
    let mut c = ctx();
    c.dry_run = true;
    let out = execute(&r.plan(&c)).unwrap();
    assert!(out.stdout.contains("services/api"));
}

#[test]
fn kotlin_test_deps_empty() {
    let r = KotlinTestRecipe::new("test", ".");
    assert!(r.deps().is_empty());
}

/// Drives a plan to its end, the cache finding the plan's key.
fn execute_hit(plan: &Plan) -> Result<RecipeOutput, Error> {
    let (mut stage, mut action) = plan.step(Stage::Start, Event::Begin);
    loop {
        let event = match action {
            Action::Finish(r) => return r,
            Action::Lookup => Event::Looked(Some(must::types::CacheLookup::Hit)),
            Action::Run(i) => Event::Ran(run_command(&plan.commands[i])),
            Action::Store => Event::Stored,
        };
        let next = plan.step(stage, event);
        stage = next.0;
        action = next.1;
    }
}

#[test]
fn kotlin_bin_cache_hit() {
    let c = BuildContext::new("/tmp/project".to_string(), 1);
    let r = KotlinBinRecipe::new("build", ".");
    match execute_hit(&r.plan(&c)) {
        Ok(o) => {
            assert!(o.from_cache);
            assert_eq!(o.recipe_name, "build");
        }
        Err(Error::ToolNotFound { .. }) => {}
        Err(e) => panic!("unexpected error: {e:?}"),
    }
}

#[test]
fn kotlin_bin_tool_not_found() {
    let c = BuildContext::new("/tmp/project".to_string(), 1);
    let r = KotlinBinRecipe::new("build", ".");
    assert!(execute(&r.plan(&c)).is_err());
}
