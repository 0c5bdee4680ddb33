use must::error::Error;
use must::job::{Action, CommandResult, Event, Invocation, Plan, Stage};
use must::types::{BuildContext, CacheStrategy, Recipe, RecipeOutput};
use must::go::{GoBinRecipe, GoTestRecipe};
use must::map::OrdMap;

fn ctx() -> BuildContext {
    BuildContext::new("/tmp".to_string(), 1)
}

/// No tool is installed where the tests run: every command reports its
/// tool missing.
fn run_command(inv: &Invocation) -> Result<CommandResult, Error> {
    Err(Error::ToolNotFound { tool: inv.tool.clone(), hint: inv.hint.clone() })
}

/// Drives a plan to its end: no cache entry is found and nothing is stored.
fn execute(plan: &Plan) -> Result<RecipeOutput, Error> {
    let (mut stage, mut action) = plan.step(Stage::Start, Event::Begin);
    loop {
        let event = match action {
            Action::Finish(r) => return r,
            Action::Lookup => Event::Looked(None),
            Action::Run(i) => Event::Ran(run_command(&plan.commands[i])),
            Action::Store => Event::Stored,
        };
        let next = plan.step(stage, event);
        stage = next.0;
        action = next.1;
    }
}

/// The version line `go version` printed, as the caller reads it.
const GO_VERSION: &str = "go version go1.22.0 linux/amd64";
const GO_HINT: &str = "Install Go: https://go.dev/dl/";

fn make_build_context() -> BuildContext {
    let mut c = BuildContext::new("/tmp/test".to_string(), 1);
    c.cache_dir = "/tmp/cache".to_string();
    c.profile = "debug".to_string();
    c
}

/// Drives a plan that could be made; the error of one that could not.
fn p_execute(plan: Result<Plan, Error>) -> Result<RecipeOutput, Error> {
    execute(&plan?)
}


#[test]
fn test_go_bin_recipe_cache_strategy_is_hash() {
    let recipe = GoBinRecipe::new("my-bin", "./cmd/server");
    assert!(matches!(recipe.cache_strategy(), CacheStrategy::Hash));
}

#[test]
fn test_go_test_recipe_cache_strategy_is_never() {
    let recipe = GoTestRecipe::new("my-test", "./...");
    assert!(matches!(recipe.cache_strategy(), CacheStrategy::Never));
}

#[test]
fn test_go_bin_recipe_deps_returns_expected_slice() {
    let mut recipe = GoBinRecipe::new("my-bin", "./cmd/server");
    recipe.deps = vec!["dep-a".to_string(), "dep-b".to_string()];
    assert_eq!(recipe.deps(), &["dep-a", "dep-b"]);
}

#[test]
fn test_go_bin_recipe_empty_deps() {
    let recipe = GoBinRecipe::new("my-bin", "./cmd/server");
    assert!(recipe.deps().is_empty());
}

#[test]
fn test_go_test_recipe_deps_returns_expected_slice() {
    let mut recipe = GoTestRecipe::new("my-test", "./...");
    recipe.deps = vec!["build".to_string()];
    assert_eq!(recipe.deps(), &["build"]);
}

#[test]
fn test_go_bin_recipe_inputs_is_empty() {
    let recipe = GoBinRecipe::new("my-bin", "./cmd/server");
    let ctx = make_build_context();
    assert!(recipe.inputs(&ctx).unwrap().is_empty());
}

#[test]
fn test_go_bin_recipe_outputs_is_empty() {
    let recipe = GoBinRecipe::new("my-bin", "./cmd/server");
    let ctx = make_build_context();
    assert!(recipe.outputs(&ctx).unwrap().is_empty());
}

#[test]
fn test_go_test_recipe_inputs_is_empty() {
    let recipe = GoTestRecipe::new("my-test", "./...");
    let ctx = make_build_context();
    assert!(recipe.inputs(&ctx).unwrap().is_empty());
}

#[test]
fn test_go_test_recipe_outputs_is_empty() {
    let recipe = GoTestRecipe::new("my-test", "./...");
    let ctx = make_build_context();
    assert!(recipe.outputs(&ctx).unwrap().is_empty());
}

#[test]
fn test_go_bin_recipe_name() {
    let recipe = GoBinRecipe::new("server-build", "./cmd/server");
    assert_eq!(recipe.name(), "server-build");
}

#[test]
fn test_go_test_recipe_name() {
    let recipe = GoTestRecipe::new("unit-tests", "./...");
    assert_eq!(recipe.name(), "unit-tests");
}

#[test]
fn test_go_bin_execute_dry_run() {
    // dry_run is reached only when go is installed; otherwise we get ToolchainNotFound.
    // Both outcomes are acceptable — we just verify no panic and correct branch behavior.
    let recipe = GoBinRecipe::new("my-bin", "./cmd/server");
    let mut ctx = make_build_context();
    ctx.dry_run = true;
    match p_execute(recipe.plan(&ctx, true, GO_HINT, &OrdMap::new())) {
        Ok(out) => {
            assert!(out.stdout.contains("dry-run"));
            assert_eq!(out.duration_ms, 0);
        }
        Err(Error::ToolchainNotFound { .. }) => {} // go not installed — acceptable
        Err(e) => panic!("unexpected error: {e:?}"),
    }
}

#[test]
fn test_go_test_execute_dry_run() {
    let recipe = GoTestRecipe::new("my-tests", "./...");
    let mut ctx = make_build_context();
    ctx.dry_run = true;
    match p_execute(recipe.plan(&ctx, true, GO_HINT)) {
        Ok(out) => {
            assert!(out.stdout.contains("dry-run"));
            assert_eq!(out.duration_ms, 0);
        }
        Err(Error::ToolchainNotFound { .. }) => {} // go not installed — acceptable
        Err(e) => panic!("unexpected error: {e:?}"),
    }
}

#[test]
fn test_go_bin_cache_key_covers_go_version_and_hash() {
    let recipe = GoBinRecipe::new("my-bin", "./cmd/server");
    let ctx = make_build_context();
    let key = recipe.cache_key(&ctx, GO_VERSION).unwrap();
    assert_eq!(key.recipe, "my-bin");
    assert_eq!(key.target, "host");
    assert_eq!(key.profile, "debug");
    assert!(!key.hash.is_empty());
}

#[test]
fn test_go_test_cache_key() {
    let recipe = GoTestRecipe::new("my-tests", "./...");
    let ctx = make_build_context();
    let key = recipe.cache_key(&ctx, GO_VERSION).unwrap();
    assert_eq!(key.recipe, "my-tests");
    assert!(!key.hash.is_empty());
}

#[test]
fn test_go_bin_extra_flags_includes_all_fields() {
    let mut recipe = GoBinRecipe::new("my-bin", "./cmd");
    recipe.ldflags = Some("-s -w".to_string());
    recipe.build_tags = vec!["release".to_string(), "cgo".to_string()];
    let flags = recipe.extra_flags();
    assert_eq!(flags.get("package").map(String::as_str), Some("./cmd"));
    assert_eq!(flags.get("ldflags").map(String::as_str), Some("-s -w"));
    assert_eq!(flags.get("tags").map(String::as_str), Some("release,cgo"));
}

#[test]
fn test_go_bin_cache_key_changes_with_ldflags() {
    let ctx = make_build_context();
    let mut r1 = GoBinRecipe::new("bin", "./cmd");
    let key1 = r1.cache_key(&ctx, GO_VERSION).unwrap();
    r1.ldflags = Some("-s -w".to_string());
    let key2 = r1.cache_key(&ctx, GO_VERSION).unwrap();
    assert_ne!(
        key1.hash, key2.hash,
        "ldflags should change the cache key hash"
    );
}

#[test]
fn test_go_bin_execute_not_installed_returns_toolchain_error() {
    let recipe = GoBinRecipe::new("my-bin", "./cmd/server");
    let ctx = make_build_context();
    match recipe.plan(&ctx, false, GO_HINT, &OrdMap::new()) {
        Err(Error::ToolchainNotFound { target, hint }) => {
            assert_eq!(target, "host");
            assert!(!hint.is_empty());
        }
        other => panic!("expected ToolchainNotFound, got: {other:?}"),
    }
}
