use must::error::Error;
use must::job::{Action, CommandResult, Event, Invocation, Plan, Stage};
use must::rust::{RustBinRecipe, RustLibRecipe, RustTestRecipe};
use must::types::{BuildContext, CacheLookup, CacheStrategy, Recipe, RecipeOutput};

/// The version line `rustc --version` printed, as the caller reads it.
const RUSTC_VERSION: &str = "rustc 1.80.0 (051478957 2024-07-21)";

fn ctx() -> BuildContext {
    BuildContext::new("/tmp".to_string(), 1)
}

fn dry_ctx() -> BuildContext {
    let mut c = BuildContext::new("/tmp/project".to_string(), 1);
    c.dry_run = true;
    c
}

/// No tool is installed where the tests run: every command reports its
/// tool missing.
fn run_command(inv: &Invocation) -> Result<CommandResult, Error> {
    Err(Error::ToolNotFound { tool: inv.tool.clone(), hint: inv.hint.clone() })
}

/// Drives a plan to its end, the cache answering each query with `found`.
fn execute_with(plan: &Plan, found: Option<CacheLookup>) -> Result<RecipeOutput, Error> {
    let (mut stage, mut action) = plan.step(Stage::Start, Event::Begin);
    loop {
        let event = match action {
            Action::Finish(r) => return r,
            Action::Lookup => Event::Looked(found.clone()),
            Action::Run(i) => Event::Ran(run_command(&plan.commands[i])),
            Action::Store => Event::Stored,
        };
        let next = plan.step(stage, event);
        stage = next.0;
        action = next.1;
    }
}

fn execute(plan: &Plan) -> Result<RecipeOutput, Error> {
    execute_with(plan, None)
}

#[test]
fn rust_bin_cache_strategy_is_hash() {
    let r = RustBinRecipe::new("build", "myapp");
    assert_eq!(r.cache_strategy(), CacheStrategy::Hash);
}

#[test]
fn rust_bin_name_and_package() {
    let r = RustBinRecipe::new("build", "myapp");
    assert_eq!(r.name(), "build");
    assert_eq!(r.package, "myapp");
}

#[test]
fn rust_bin_deps_empty_by_default() {
    let r = RustBinRecipe::new("build", "myapp");
    assert!(r.deps().is_empty());
}

#[test]
fn rust_bin_inputs_always_empty() {
    let r = RustBinRecipe::new("build", "myapp");
    assert!(r.inputs(&ctx()).unwrap().is_empty());
}

#[test]
fn rust_bin_output_path_debug() {
    let r = RustBinRecipe::new("build", "myapp");
    assert_eq!(r.outputs(&ctx()).unwrap(), vec!["/tmp/target/debug/myapp".to_string()]);
}

#[test]
fn rust_bin_output_path_release() {
    let mut r = RustBinRecipe::new("build", "myapp");
    r.release = true;
    assert_eq!(r.outputs(&ctx()).unwrap(), vec!["/tmp/target/release/myapp".to_string()]);
}

#[test]
fn rust_lib_cache_strategy_is_hash() {
    let r = RustLibRecipe::new("lib", "mylib");
    assert_eq!(r.cache_strategy(), CacheStrategy::Hash);
}

#[test]
fn rust_lib_inputs_empty() {
    let r = RustLibRecipe::new("lib", "mylib");
    assert!(r.inputs(&ctx()).unwrap().is_empty());
}

#[test]
fn rust_test_cache_strategy_is_never() {
    let r = RustTestRecipe::new("test", "myapp");
    assert_eq!(r.cache_strategy(), CacheStrategy::Never);
}

#[test]
fn rust_test_outputs_always_empty() {
    let r = RustTestRecipe::new("test", "myapp");
    assert!(r.outputs(&ctx()).unwrap().is_empty());
}

#[test]
fn rust_test_dry_run_returns_without_spawning() {
    let r = RustTestRecipe::new("test", "myapp");
    let mut c = ctx();
    c.dry_run = true;
    let out = execute(&r.plan(&c)).unwrap();
    assert!(out.stdout.contains("dry-run"));
    assert_eq!(out.duration_ms, 0);
}

#[test]
fn rust_bin_execute_returns_from_cache_when_hit() {
    let c = BuildContext::new("/tmp/project".to_string(), 1);
    let r = RustBinRecipe::new("build", "myapp");
    let out = execute_with(&r.plan(&c, RUSTC_VERSION), Some(CacheLookup::Hit)).unwrap();
    assert!(out.from_cache, "should return from cache");
    assert_eq!(out.recipe_name, "build");
}

#[test]
fn rust_bin_execute_dry_run_skips_cargo() {
    let r = RustBinRecipe::new("build", "myapp");
    let out = execute(&r.plan(&dry_ctx(), RUSTC_VERSION)).unwrap();
    assert!(out.stdout.contains("dry-run"));
    assert!(!out.from_cache);
}

#[test]
fn rust_bin_execute_dry_run_with_features() {
    let mut r = RustBinRecipe::new("build", "myapp");
    r.features = vec!["feat-a".into()];
    let out = execute(&r.plan(&dry_ctx(), RUSTC_VERSION)).unwrap();
    assert!(out.stdout.contains("dry-run"));
}

#[test]
fn rust_bin_execute_dry_run_release() {
    let mut r = RustBinRecipe::new("build", "myapp");
    r.release = true;
    let out = execute(&r.plan(&dry_ctx(), RUSTC_VERSION)).unwrap();
    assert!(out.stdout.contains("dry-run"));
}

#[test]
fn rust_lib_execute_returns_from_cache_when_hit() {
    let c = BuildContext::new("/tmp/project".to_string(), 1);
    let r = RustLibRecipe::new("lib", "mylib");
    let out = execute_with(&r.plan(&c, RUSTC_VERSION), Some(CacheLookup::Hit)).unwrap();
    assert!(out.from_cache);
}

#[test]
fn rust_lib_execute_dry_run() {
    let r = RustLibRecipe::new("lib", "mylib");
    let out = execute(&r.plan(&dry_ctx(), RUSTC_VERSION)).unwrap();
    assert!(out.stdout.contains("dry-run"));
    assert!(!out.from_cache);
}

#[test]
fn rust_lib_execute_dry_run_with_features_and_release() {
    let mut r = RustLibRecipe::new("lib", "mylib");
    r.features = vec!["feat".into()];
    r.release = true;
    let out = execute(&r.plan(&dry_ctx(), RUSTC_VERSION)).unwrap();
    assert!(out.stdout.contains("dry-run"));
}

#[test]
fn rust_test_cache_key_includes_filter() {
    let mut r = RustTestRecipe::new("test", "myapp");
    r.test_filter = Some("my_specific_test".to_string());
    let key = r.cache_key(&ctx(), RUSTC_VERSION).unwrap();
    assert_eq!(key.recipe, "test");
    let r2 = RustTestRecipe::new("test", "myapp");
    let key2 = r2.cache_key(&ctx(), RUSTC_VERSION).unwrap();
    assert_ne!(key.hash, key2.hash, "filter should affect cache key hash");
}

#[test]
fn rust_test_name_deps_inputs() {
    let mut r = RustTestRecipe::new("mytest", "mypkg");
    r.deps = vec!["build".to_string()];
    assert_eq!(r.name(), "mytest");
    assert_eq!(r.deps(), &["build".to_string()]);
    assert!(r.inputs(&ctx()).unwrap().is_empty());
    assert!(r.outputs(&ctx()).unwrap().is_empty());
}

#[test]
fn rust_test_dry_run_with_filter() {
    let mut r = RustTestRecipe::new("mytest", "mypkg");
    r.test_filter = Some("specific_test".to_string());
    let out = execute(&r.plan(&dry_ctx())).unwrap();
    assert!(out.stdout.contains("dry-run"));
    assert!(!out.from_cache);
}

#[test]
fn rust_bin_without_cargo_is_tool_not_found() {
    let r = RustBinRecipe::new("build", "myapp");
    let out = execute(&r.plan(&ctx(), RUSTC_VERSION));
    assert!(matches!(out, Err(Error::ToolNotFound { .. })));
}
