use must::error::Error;
use must::job::{Action, CommandResult, Event, Invocation, Plan, Stage};
use must::types::{BuildContext, CacheStrategy, Recipe, RecipeOutput};
use must::cc::{CBinRecipe, CLibRecipe};
use must::map::OrdMap;

fn ctx() -> BuildContext {
    BuildContext::new("/tmp".to_string(), 1)
}

/// No tool is installed where the tests run: every command reports its
/// tool missing.
fn run_command(inv: &Invocation) -> Result<CommandResult, Error> {
    Err(Error::ToolNotFound { tool: inv.tool.clone(), hint: inv.hint.clone() })
}

/// Drives a plan to its end: no cache entry is found and nothing is stored.
fn execute(plan: &Plan) -> Result<RecipeOutput, Error> {
    let (mut stage, mut action) = plan.step(Stage::Start, Event::Begin);
    loop {
        let event = match action {
            Action::Finish(r) => return r,
            Action::Lookup => Event::Looked(None),
            Action::Run(i) => Event::Ran(run_command(&plan.commands[i])),
            Action::Store => Event::Stored,
        };
        let next = plan.step(stage, event);
        stage = next.0;
        action = next.1;
    }
}

/// The version line the C compiler printed, as the caller reads it.
const CC_VERSION: &str = "cc (GCC) 13.2.0";
const CC_HINT: &str = "Install a C compiler";

/// Drives a plan that could be made; the error of one that could not.
fn p_execute(plan: Result<Plan, Error>) -> Result<RecipeOutput, Error> {
    execute(&plan?)
}


#[test]
fn test_cbin_cache_strategy_is_hash() {
    let r = CBinRecipe::new("mybin");
    assert_eq!(r.cache_strategy(), CacheStrategy::Hash);
}

#[test]
fn test_clib_cache_strategy_is_hash() {
    let r = CLibRecipe::new("mylib", true);
    assert_eq!(r.cache_strategy(), CacheStrategy::Hash);
}

#[test]
fn test_cbin_outputs_in_build_dir() {
    let r = CBinRecipe::new("mybin");
    let outputs = r.outputs(&ctx()).unwrap();
    assert_eq!(outputs, vec![String::from("/tmp/build/mybin")]);
}

#[test]
fn test_clib_static_output_is_dot_a() {
    let r = CLibRecipe::new("mylib", true);
    let outputs = r.outputs(&ctx()).unwrap();
    assert_eq!(outputs, vec![String::from("/tmp/build/libmylib.a")]);
}

#[test]
fn test_clib_shared_output_is_dot_so() {
    let r = CLibRecipe::new("mylib", false);
    let outputs = r.outputs(&ctx()).unwrap();
    assert_eq!(outputs, vec![String::from("/tmp/build/libmylib.so")]);
}

#[test]
fn test_cbin_inputs_from_sources() {
    let mut r = CBinRecipe::new("mybin");
    r.sources = vec!["src/main.c".to_string(), "src/util.c".to_string()];
    let inputs = r.inputs(&ctx()).unwrap();
    assert_eq!(
        inputs,
        vec![
            String::from("/tmp/src/main.c"),
            String::from("/tmp/src/util.c"),
        ]
    );
}

#[test]
fn test_cbin_deps_empty_by_default() {
    let r = CBinRecipe::new("mybin");
    assert!(r.deps().is_empty());
}

#[test]
fn test_cbin_dry_run() {
    let mut r = CBinRecipe::new("mybin");
    r.sources = vec!["src/main.c".to_string()];
    let mut c = ctx();
    c.dry_run = true;
    let out = p_execute(r.plan(&c, true, None, CC_HINT, &OrdMap::new())).unwrap();
    assert!(out.stdout.contains("dry-run"));
    assert_eq!(out.duration_ms, 0);
}

#[test]
fn test_clib_dry_run_static() {
    let mut r = CLibRecipe::new("mylib", true);
    r.sources = vec!["src/lib.c".to_string()];
    let mut c = ctx();
    c.dry_run = true;
    let out = p_execute(r.plan(&c, true, None, CC_HINT, &OrdMap::new())).unwrap();
    assert!(out.stdout.contains("dry-run"));
    assert_eq!(out.duration_ms, 0);
}

#[test]
fn test_clib_dry_run_shared() {
    let mut r = CLibRecipe::new("mylib", false);
    r.sources = vec!["src/lib.c".to_string()];
    let mut c = ctx();
    c.dry_run = true;
    let out = p_execute(r.plan(&c, true, None, CC_HINT, &OrdMap::new())).unwrap();
    assert!(out.stdout.contains("dry-run"));
    assert_eq!(out.duration_ms, 0);
}

#[test]
fn test_cbin_name_accessor() {
    let r = CBinRecipe::new("myprog");
    assert_eq!(r.name(), "myprog");
}

#[test]
fn test_cbin_deps_non_empty() {
    let mut r = CBinRecipe::new("myprog");
    r.deps = vec!["libfoo".to_string()];
    assert_eq!(r.deps(), &["libfoo"]);
}

#[test]
fn test_clib_name_accessor() {
    let r = CLibRecipe::new("mylib", true);
    assert_eq!(r.name(), "mylib");
}

#[test]
fn test_clib_deps_non_empty() {
    let mut r = CLibRecipe::new("mylib", false);
    r.deps = vec!["dep1".to_string()];
    assert_eq!(r.deps(), &["dep1"]);
}

#[test]
fn test_cbin_cache_key_fields() {
    let r = CBinRecipe::new("myprog");
    let key = r.cache_key(&ctx(), CC_VERSION).unwrap();
    assert_eq!(key.recipe, "myprog");
    assert_eq!(key.target, "host");
    assert_eq!(key.profile, "default");
    assert!(!key.hash.is_empty());
}

#[test]
fn test_clib_static_cache_key_fields() {
    let r = CLibRecipe::new("mylib", true);
    let key = r.cache_key(&ctx(), CC_VERSION).unwrap();
    assert_eq!(key.recipe, "mylib");
    assert!(!key.hash.is_empty());
}

#[test]
fn test_clib_shared_cache_key_fields() {
    let r = CLibRecipe::new("mylib", false);
    let key = r.cache_key(&ctx(), CC_VERSION).unwrap();
    assert_eq!(key.recipe, "mylib");
    // Static and shared libs should have different cache keys
    let static_key = CLibRecipe::new("mylib", true).cache_key(&ctx(), CC_VERSION).unwrap();
    assert_ne!(key.hash, static_key.hash);
}

#[test]
fn test_cbin_execute_cross_no_compiler_returns_toolchain_not_found() {
    let triple_str = "x86_64-unknown-linux-gnu";
    let mut r = CBinRecipe::new("myprog");
    r.sources = vec!["src/main.c".to_string()];
    let mut c = ctx();
    c.target = triple_str.to_string();
    match r.plan(&c, false, None, CC_HINT, &OrdMap::new()) {
        Err(Error::ToolchainNotFound { target, hint }) => {
            assert_eq!(target, triple_str);
            assert!(!hint.is_empty());
        }
        other => panic!("expected ToolchainNotFound, got: {other:?}"),
    }
}

#[test]
fn test_clib_execute_cross_no_compiler_returns_toolchain_not_found() {
    let triple_str = "x86_64-unknown-linux-gnu";
    let mut r = CLibRecipe::new("mylib", true);
    r.sources = vec!["src/lib.c".to_string()];
    let mut c = ctx();
    c.target = triple_str.to_string();
    match r.plan(&c, false, None, CC_HINT, &OrdMap::new()) {
        Err(Error::ToolchainNotFound { .. }) => {}
        other => panic!("expected ToolchainNotFound, got: {other:?}"),
    }
}
