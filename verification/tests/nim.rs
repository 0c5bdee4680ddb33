use must::error::Error;
use must::job::{Action, CommandResult, Event, Invocation, Plan, Stage};
use must::types::{BuildContext, CacheStrategy, Recipe, RecipeOutput};
use must::nim::{NimBinRecipe, NimTestRecipe};

fn ctx() -> BuildContext {
    BuildContext::new("/tmp".to_string(), 1)
}

/// No tool is installed where the tests run: every command reports its
/// tool missing.
fn run_command(inv: &Invocation) -> Result<CommandResult, Error> {
    Err(Error::ToolNotFound { tool: inv.tool.clone(), hint: inv.hint.clone() })
}

/// Drives a plan to its end: no cache entry is found and nothing is stored.
fn execute(plan: &Plan) -> Result<RecipeOutput, Error> {
    let (mut stage, mut action) = plan.step(Stage::Start, Event::Begin);
    loop {
        let event = match action {
            Action::Finish(r) => return r,
            Action::Lookup => Event::Looked(None),
            Action::Run(i) => Event::Ran(run_command(&plan.commands[i])),
            Action::Store => Event::Stored,
        };
        let next = plan.step(stage, event);
        stage = next.0;
        action = next.1;
    }
}

/// The version line `nim --version` printed, as the caller reads it.
const NIM_VERSION: &str = "Nim Compiler Version 2.0.0";


#[test]
fn nim_bin_cache_strategy_is_hash() {
    let r = NimBinRecipe::new("build", ".");
    assert_eq!(r.cache_strategy(), CacheStrategy::Hash);
}

#[test]
fn nim_bin_name_and_package() {
    let r = NimBinRecipe::new("build", "src/main.nim");
    assert_eq!(r.name(), "build");
    assert_eq!(r.package, "src/main.nim");
}

#[test]
fn nim_bin_deps_empty() {
    let r = NimBinRecipe::new("build", ".");
    assert!(r.deps().is_empty());
}

#[test]
fn nim_bin_inputs_outputs_empty() {
    let r = NimBinRecipe::new("build", ".");
    assert!(r.inputs(&ctx()).unwrap().is_empty());
    assert!(r.outputs(&ctx()).unwrap().is_empty());
}

#[test]
fn nim_bin_dry_run() {
    let r = NimBinRecipe::new("build", "src/main.nim");
    let mut c = ctx();
    c.dry_run = true;
    let out = execute(&r.plan(&c, NIM_VERSION)).unwrap();
    assert!(out.stdout.contains("dry-run"));
    assert!(out.stdout.contains("nim c -d:release"));
    assert!(out.stdout.contains("src/main.nim"));
    assert_eq!(out.duration_ms, 0);
}

#[test]
fn nim_bin_cache_key_differs_by_package() {
    let r1 = NimBinRecipe::new("r", "src/a.nim");
    let r2 = NimBinRecipe::new("r", "src/b.nim");
    assert_ne!(
        r1.cache_key(&ctx(), NIM_VERSION).unwrap().hash,
        r2.cache_key(&ctx(), NIM_VERSION).unwrap().hash
    );
}

#[test]
fn nim_test_cache_strategy_is_never() {
    let r = NimTestRecipe::new("test", ".");
    assert_eq!(r.cache_strategy(), CacheStrategy::Never);
}

#[test]
fn nim_test_name_and_package() {
    let r = NimTestRecipe::new("test", "tests/test_all.nim");
    assert_eq!(r.name(), "test");
    assert_eq!(r.package, "tests/test_all.nim");
}

#[test]
fn nim_test_dry_run() {
    let r = NimTestRecipe::new("test", "tests/test_all.nim");
    let mut c = ctx();
    c.dry_run = true;
    let out = execute(&r.plan(&c)).unwrap();
    assert!(out.stdout.contains("dry-run"));
    assert!(out.stdout.contains("nim r"));
    assert!(out.stdout.contains("tests/test_all.nim"));
}

#[test]
fn nim_test_inputs_outputs_empty() {
    let r = NimTestRecipe::new("test", ".");
    assert!(r.inputs(&ctx()).unwrap().is_empty());
    assert!(r.outputs(&ctx()).unwrap().is_empty());
}

#[test]
fn nim_bin_dry_run_dot_package() {
    let r = NimBinRecipe::new("build", ".");
    let mut c = ctx();
    c.dry_run = true;
    let out = execute(&r.plan(&c, NIM_VERSION)).unwrap();
    assert!(out.stdout.contains("nim c -d:release ."));
}

#[test]
fn nim_bin_cache_key_stable() {
    let r = NimBinRecipe::new("build", ".");
    let key1 = r.cache_key(&ctx(), NIM_VERSION).unwrap();
    let key2 = r.cache_key(&ctx(), NIM_VERSION).unwrap();
    assert_eq!(key1.hash, key2.hash);
}

#[test]
fn nim_test_deps_empty() {
    let r = NimTestRecipe::new("test", ".");
    assert!(r.deps().is_empty());
}

#[test]
fn nim_bin_dry_run_with_named_package() {
    let r = NimBinRecipe::new("build", "src/myapp.nim");
    let mut c = ctx();
    c.dry_run = true;
    let out = execute(&r.plan(&c, NIM_VERSION)).unwrap();
    assert!(out.stdout.contains("src/myapp.nim"));
    assert!(out.stdout.contains("-d:release"));
    assert_eq!(out.duration_ms, 0);
}

#[test]
fn nim_test_dry_run_shows_hints_off() {
    let r = NimTestRecipe::new("test", ".");
    let mut c = ctx();
    c.dry_run = true;
    let out = execute(&r.plan(&c)).unwrap();
    assert!(out.stdout.contains("--hints:off"));
}

/// Drives a plan to its end, the cache finding the plan's key.
fn execute_hit(plan: &Plan) -> Result<RecipeOutput, Error> {
    let (mut stage, mut action) = plan.step(Stage::Start, Event::Begin);
    loop {
        let event = match action {
            Action::Finish(r) => return r,
            Action::Lookup => Event::Looked(Some(must::types::CacheLookup::Hit)),
            Action::Run(i) => Event::Ran(run_command(&plan.commands[i])),
            Action::Store => Event::Stored,
        };
        let next = plan.step(stage, event);
        stage = next.0;
        action = next.1;
    }
}

#[test]
fn nim_bin_cache_hit() {
    let c = BuildContext::new("/tmp/project".to_string(), 1);
    let r = NimBinRecipe::new("build", ".");
    match execute_hit(&r.plan(&c, NIM_VERSION)) {
        Ok(o) => {
            assert!(o.from_cache);
            assert_eq!(o.recipe_name, "build");
        }
        Err(Error::ToolNotFound { .. }) => {}
        Err(e) => panic!("unexpected error: {e:?}"),
    }
}

#[test]
fn nim_bin_tool_not_found() {
    let c = BuildContext::new("/tmp/project".to_string(), 1);
    let r = NimBinRecipe::new("build", ".");
    assert!(execute(&r.plan(&c, NIM_VERSION)).is_err());
}

#[test]
fn nim_test_tool_not_found() {
    let c = BuildContext::new("/tmp/project".to_string(), 1);
    let r = NimTestRecipe::new("test", ".");
    assert!(execute(&r.plan(&c)).is_err());
}
