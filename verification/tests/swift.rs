use must::error::Error;
use must::job::{Action, CacheQuery, CommandResult, Event, Invocation, Plan, Stage};
use must::swift::{SwiftBinRecipe, SwiftTestRecipe};
use must::types::{BuildContext, CacheLookup, CacheStrategy, Recipe, RecipeOutput};

/// The version line `swift --version` printed, as the caller reads it.
const SWIFT_VERSION: &str = "Swift version 5.10 (swift-5.10-RELEASE)";

fn ctx() -> BuildContext {
    BuildContext::new("/tmp".to_string(), 1)
}

fn dry_ctx() -> BuildContext {
    let mut c = BuildContext::new("/tmp/project".to_string(), 1);
    c.dry_run = true;
    c
}

/// No tool is installed where the tests run: every command reports its
/// tool missing.
fn run_command(inv: &Invocation) -> Result<CommandResult, Error> {
    Err(Error::ToolNotFound { tool: inv.tool.clone(), hint: inv.hint.clone() })
}

/// Drives a plan to its end, the cache answering each query with `found`.
fn execute_with(plan: &Plan, found: Option<CacheLookup>) -> Result<RecipeOutput, Error> {
    let (mut stage, mut action) = plan.step(Stage::Start, Event::Begin);
    loop {
        let event = match action {
            Action::Finish(r) => return r,
            Action::Lookup => Event::Looked(found.clone()),
            Action::Run(i) => Event::Ran(run_command(&plan.commands[i])),
            Action::Store => Event::Stored,
        };
        let next = plan.step(stage, event);
        stage = next.0;
        action = next.1;
    }
}

fn execute(plan: &Plan) -> Result<RecipeOutput, Error> {
    execute_with(plan, None)
}

#[test]
fn swift_bin_cache_strategy_is_hash() {
    let r = SwiftBinRecipe::new("build", ".");
    assert_eq!(r.cache_strategy(), CacheStrategy::Hash);
}

#[test]
fn swift_bin_name_and_package() {
    let r = SwiftBinRecipe::new("build", "MyPackage");
    assert_eq!(r.name(), "build");
    assert_eq!(r.package, "MyPackage");
}

#[test]
fn swift_bin_deps_empty_by_default() {
    let r = SwiftBinRecipe::new("build", ".");
    assert!(r.deps().is_empty());
}

#[test]
fn swift_bin_inputs_outputs_empty() {
    let r = SwiftBinRecipe::new("build", ".");
    assert!(r.inputs(&ctx()).unwrap().is_empty());
    assert!(r.outputs(&ctx()).unwrap().is_empty());
}

#[test]
fn swift_bin_dry_run() {
    let r = SwiftBinRecipe::new("build", ".");
    let mut c = ctx();
    c.dry_run = true;
    let out = execute(&r.plan(&c, SWIFT_VERSION)).unwrap();
    assert!(out.stdout.contains("dry-run"));
    assert!(out.stdout.contains("swift build"));
    assert_eq!(out.duration_ms, 0);
}

#[test]
fn swift_bin_cache_hit() {
    let c = BuildContext::new("/tmp/project".to_string(), 1);
    let r = SwiftBinRecipe::new("build", ".");
    let out = execute_with(&r.plan(&c, SWIFT_VERSION), Some(CacheLookup::Hit)).unwrap();
    assert!(out.from_cache);
    assert_eq!(out.recipe_name, "build");
}

#[test]
fn swift_bin_cache_key_differs_by_package() {
    let r1 = SwiftBinRecipe::new("r", "pkg-a");
    let r2 = SwiftBinRecipe::new("r", "pkg-b");
    assert_ne!(
        r1.cache_key(&ctx(), SWIFT_VERSION).unwrap().hash,
        r2.cache_key(&ctx(), SWIFT_VERSION).unwrap().hash
    );
}

#[test]
fn swift_test_cache_strategy_is_never() {
    let r = SwiftTestRecipe::new("test", ".");
    assert_eq!(r.cache_strategy(), CacheStrategy::Never);
}

#[test]
fn swift_test_name_and_package() {
    let r = SwiftTestRecipe::new("test", "MyPackage");
    assert_eq!(r.name(), "test");
    assert_eq!(r.package, "MyPackage");
}

#[test]
fn swift_test_dry_run() {
    let r = SwiftTestRecipe::new("test", ".");
    let mut c = ctx();
    c.dry_run = true;
    let out = execute(&r.plan(&c)).unwrap();
    assert!(out.stdout.contains("dry-run"));
    assert!(out.stdout.contains("swift test"));
}

#[test]
fn swift_bin_execute_real() {
    let r = SwiftBinRecipe::new("build", ".");
    match execute(&r.plan(&ctx(), SWIFT_VERSION)) {
        Ok(out) => {
            assert_eq!(out.recipe_name, "build");
            assert!(!out.from_cache);
        }
        Err(Error::ToolNotFound { .. }) => {}
        Err(Error::RecipeFailed { .. }) => {}
        Err(e) => panic!("unexpected error: {e:?}"),
    }
}

#[test]
fn swift_test_execute_real() {
    let r = SwiftTestRecipe::new("test", ".");
    match execute(&r.plan(&ctx())) {
        Ok(out) => assert_eq!(out.recipe_name, "test"),
        Err(Error::ToolNotFound { .. }) => {}
        Err(Error::RecipeFailed { .. }) => {}
        Err(e) => panic!("unexpected error: {e:?}"),
    }
}

#[test]
fn swift_bin_tool_not_found() {
    let r = SwiftBinRecipe::new("build", ".");
    assert!(execute(&r.plan(&ctx(), SWIFT_VERSION)).is_err());
}

#[test]
fn swift_bin_cache_store_and_hit() {
    let c = BuildContext::new("/tmp/project".to_string(), 1);
    let r = SwiftBinRecipe::new("build", ".");
    let key = r.cache_key(&c, SWIFT_VERSION).unwrap();
    let plan = r.plan(&c, SWIFT_VERSION);
    assert!(matches!(&plan.query, Some(CacheQuery::Key(k)) if *k == key));
    let out = execute_with(&plan, Some(CacheLookup::Hit)).unwrap();
    assert!(out.from_cache);
}

#[test]
fn swift_test_inputs_outputs_empty() {
    let r = SwiftTestRecipe::new("test", ".");
    assert!(r.inputs(&ctx()).unwrap().is_empty());
    assert!(r.outputs(&ctx()).unwrap().is_empty());
}
