use must::error::Error;
use must::job::{Action, CommandResult, Event, Invocation, Plan, Stage};
use must::types::{BuildContext, CacheStrategy, Recipe, RecipeOutput};
use must::dotnet::{DotnetBuildRecipe, DotnetPublishRecipe, DotnetTestRecipe};

fn ctx() -> BuildContext {
    BuildContext::new("/tmp".to_string(), 1)
}

/// No tool is installed where the tests run: every command reports its
/// tool missing.
fn run_command(inv: &Invocation) -> Result<CommandResult, Error> {
    Err(Error::ToolNotFound { tool: inv.tool.clone(), hint: inv.hint.clone() })
}

/// Drives a plan to its end: no cache entry is found and nothing is stored.
fn execute(plan: &Plan) -> Result<RecipeOutput, Error> {
    let (mut stage, mut action) = plan.step(Stage::Start, Event::Begin);
    loop {
        let event = match action {
            Action::Finish(r) => return r,
            Action::Lookup => Event::Looked(None),
            Action::Run(i) => Event::Ran(run_command(&plan.commands[i])),
            Action::Store => Event::Stored,
        };
        let next = plan.step(stage, event);
        stage = next.0;
        action = next.1;
    }
}


#[test]
fn dotnet_build_cache_strategy_is_hash() {
    let r = DotnetBuildRecipe::new("build", ".");
    assert_eq!(r.cache_strategy(), CacheStrategy::Hash);
}

#[test]
fn dotnet_build_name_and_package() {
    let r = DotnetBuildRecipe::new("build", "src/MyApp");
    assert_eq!(r.name(), "build");
    assert_eq!(r.package, "src/MyApp");
}

#[test]
fn dotnet_build_deps_empty() {
    let r = DotnetBuildRecipe::new("build", ".");
    assert!(r.deps().is_empty());
}

#[test]
fn dotnet_build_inputs_outputs_empty() {
    let r = DotnetBuildRecipe::new("build", ".");
    assert!(r.inputs(&ctx()).unwrap().is_empty());
    assert!(r.outputs(&ctx()).unwrap().is_empty());
}

#[test]
fn dotnet_build_dry_run() {
    let r = DotnetBuildRecipe::new("build", "MyApp.csproj");
    let mut c = ctx();
    c.dry_run = true;
    let out = execute(&r.plan(&c)).unwrap();
    assert!(out.stdout.contains("dry-run"));
    assert!(out.stdout.contains("dotnet build"));
    assert!(out.stdout.contains("MyApp.csproj"));
    assert_eq!(out.duration_ms, 0);
}

#[test]
fn dotnet_build_cache_key_differs_by_package() {
    let r1 = DotnetBuildRecipe::new("r", "AppA");
    let r2 = DotnetBuildRecipe::new("r", "AppB");
    assert_ne!(
        r1.cache_key(&ctx()).unwrap().hash,
        r2.cache_key(&ctx()).unwrap().hash
    );
}

#[test]
fn dotnet_test_cache_strategy_is_never() {
    let r = DotnetTestRecipe::new("test", ".");
    assert_eq!(r.cache_strategy(), CacheStrategy::Never);
}

#[test]
fn dotnet_test_name_and_package() {
    let r = DotnetTestRecipe::new("test", "tests/MyApp.Tests");
    assert_eq!(r.name(), "test");
    assert_eq!(r.package, "tests/MyApp.Tests");
}

#[test]
fn dotnet_test_dry_run() {
    let r = DotnetTestRecipe::new("test", ".");
    let mut c = ctx();
    c.dry_run = true;
    let out = execute(&r.plan(&c)).unwrap();
    assert!(out.stdout.contains("dry-run"));
    assert!(out.stdout.contains("dotnet test"));
}

#[test]
fn dotnet_publish_cache_strategy_is_hash() {
    let r = DotnetPublishRecipe::new("publish", ".");
    assert_eq!(r.cache_strategy(), CacheStrategy::Hash);
}

#[test]
fn dotnet_publish_name_and_package() {
    let r = DotnetPublishRecipe::new("publish", "src/MyApp");
    assert_eq!(r.name(), "publish");
    assert_eq!(r.package, "src/MyApp");
}

#[test]
fn dotnet_publish_dry_run() {
    let r = DotnetPublishRecipe::new("publish", ".");
    let mut c = ctx();
    c.dry_run = true;
    let out = execute(&r.plan(&c)).unwrap();
    assert!(out.stdout.contains("dry-run"));
    assert!(out.stdout.contains("dotnet publish"));
    assert!(out.stdout.contains("Release"));
}

#[test]
fn dotnet_test_inputs_outputs_empty() {
    let r = DotnetTestRecipe::new("test", ".");
    assert!(r.inputs(&ctx()).unwrap().is_empty());
    assert!(r.outputs(&ctx()).unwrap().is_empty());
}

#[test]
fn dotnet_publish_inputs_outputs_empty() {
    let r = DotnetPublishRecipe::new("publish", ".");
    assert!(r.inputs(&ctx()).unwrap().is_empty());
    assert!(r.outputs(&ctx()).unwrap().is_empty());
}

/// Drives a plan to its end, the cache finding the plan's key.
fn execute_hit(plan: &Plan) -> Result<RecipeOutput, Error> {
    let (mut stage, mut action) = plan.step(Stage::Start, Event::Begin);
    loop {
        let event = match action {
            Action::Finish(r) => return r,
            Action::Lookup => Event::Looked(Some(must::types::CacheLookup::Hit)),
            Action::Run(i) => Event::Ran(run_command(&plan.commands[i])),
            Action::Store => Event::Stored,
        };
        let next = plan.step(stage, event);
        stage = next.0;
        action = next.1;
    }
}

#[test]
fn dotnet_build_cache_hit() {
    let c = BuildContext::new("/tmp/project".to_string(), 1);
    let r = DotnetBuildRecipe::new("build", ".");
    match execute_hit(&r.plan(&c)) {
        Ok(o) => {
            assert!(o.from_cache);
        }
        Err(Error::ToolNotFound { .. }) => {}
        Err(e) => panic!("unexpected error: {e:?}"),
    }
}

#[test]
fn dotnet_publish_cache_hit() {
    let c = BuildContext::new("/tmp/project".to_string(), 1);
    let r = DotnetPublishRecipe::new("publish", ".");
    match execute_hit(&r.plan(&c)) {
        Ok(o) => {
            assert!(o.from_cache);
        }
        Err(Error::ToolNotFound { .. }) => {}
        Err(e) => panic!("unexpected error: {e:?}"),
    }
}

#[test]
fn dotnet_build_tool_not_found() {
    let c = BuildContext::new("/tmp/project".to_string(), 1);
    let r = DotnetBuildRecipe::new("build", ".");
    assert!(execute(&r.plan(&c)).is_err());
}
