use must::error::Error;
use must::job::{Action, CommandResult, Event, Invocation, Plan, Stage};
use must::types::{BuildContext, CacheStrategy, Recipe, RecipeOutput};
use must::docker::{DockerBuildRecipe, DockerPushRecipe};
use must::map::OrdMap;

fn ctx() -> BuildContext {
    BuildContext::new("/tmp".to_string(), 1)
}

/// No tool is installed where the tests run: every command reports its
/// tool missing.
fn run_command(inv: &Invocation) -> Result<CommandResult, Error> {
    Err(Error::ToolNotFound { tool: inv.tool.clone(), hint: inv.hint.clone() })
}

/// Drives a plan to its end: no cache entry is found and nothing is stored.
fn execute(plan: &Plan) -> Result<RecipeOutput, Error> {
    let (mut stage, mut action) = plan.step(Stage::Start, Event::Begin);
    loop {
        let event = match action {
            Action::Finish(r) => return r,
            Action::Lookup => Event::Looked(None),
            Action::Run(i) => Event::Ran(run_command(&plan.commands[i])),
            Action::Store => Event::Stored,
        };
        let next = plan.step(stage, event);
        stage = next.0;
        action = next.1;
    }
}

/// The container runtime found on the machine.
const RUNTIME: &str = "docker";

fn env_of(pairs: Vec<(String, String)>) -> OrdMap<String> {
    let mut m = OrdMap::new();
    for (k, v) in pairs {
        m.insert(k, v);
    }
    m
}


#[test]
fn docker_build_cache_strategy_is_hash() {
    let r = DockerBuildRecipe::new("build", "myapp:latest");
    assert_eq!(r.cache_strategy(), CacheStrategy::Hash);
}

#[test]
fn docker_build_name_and_image() {
    let r = DockerBuildRecipe::new("build", "myapp:latest");
    assert_eq!(r.name(), "build");
    assert_eq!(r.image, "myapp:latest");
}

#[test]
fn docker_build_dry_run() {
    let r = DockerBuildRecipe::new("build", "myapp:latest");
    let mut c = ctx();
    c.dry_run = true;
    let out = execute(&r.plan(&c, RUNTIME)).unwrap();
    assert!(out.stdout.contains("dry-run"));
    assert!(out.stdout.contains("build"));
    assert!(out.stdout.contains("myapp:latest"));
}

#[test]
fn docker_push_cache_strategy_is_never() {
    let r = DockerPushRecipe::new("push", "myapp:latest");
    assert_eq!(r.cache_strategy(), CacheStrategy::Never);
}

#[test]
fn docker_push_dry_run() {
    let r = DockerPushRecipe::new("push", "myapp:latest");
    let mut c = ctx();
    c.dry_run = true;
    let out = execute(&r.plan(&c, RUNTIME)).unwrap();
    assert!(out.stdout.contains("dry-run"));
    assert!(out.stdout.contains("push"));
    assert!(out.stdout.contains("myapp:latest"));
}

#[test]
fn docker_build_key_includes_build_args() {
    let mut r1 = DockerBuildRecipe::new("r", "img");
    let mut r2 = DockerBuildRecipe::new("r", "img");
    r1.build_args = vec!["VERSION=1.0".to_string()];
    r2.build_args = vec!["VERSION=2.0".to_string()];
    assert_ne!(
        r1.cache_key(&ctx()).unwrap().hash,
        r2.cache_key(&ctx()).unwrap().hash
    );
}

#[test]
fn docker_build_with_custom_dockerfile_and_context() {
    let mut r = DockerBuildRecipe::new("custom", "myapp:v2");
    r.dockerfile = "Dockerfile.prod".to_string();
    r.context = "deploy".to_string();
    let mut c = ctx();
    c.dry_run = true;
    let out = execute(&r.plan(&c, RUNTIME)).unwrap();
    assert!(out.stdout.contains("Dockerfile.prod"));
    assert!(out.stdout.contains("deploy"));
}

#[test]
fn docker_build_with_build_args_dry_run() {
    let mut r = DockerBuildRecipe::new("build", "app:latest");
    r.build_args = vec!["VERSION=1.0".to_string(), "ENV=prod".to_string()];
    let mut c = ctx();
    c.dry_run = true;
    let out = execute(&r.plan(&c, RUNTIME)).unwrap();
    assert!(out.stdout.contains("dry-run"));
    assert!(out.stdout.contains("app:latest"));
}

#[test]
fn docker_push_name_and_image() {
    let r = DockerPushRecipe::new("push", "myregistry/myapp:v1");
    assert_eq!(r.name(), "push");
    assert_eq!(r.image, "myregistry/myapp:v1");
}

#[test]
fn docker_push_inputs_outputs_empty() {
    let r = DockerPushRecipe::new("push", "img");
    assert!(r.inputs(&ctx()).unwrap().is_empty());
    assert!(r.outputs(&ctx()).unwrap().is_empty());
}

#[test]
fn docker_push_deps_empty() {
    let r = DockerPushRecipe::new("push", "img");
    assert!(r.deps().is_empty());
}

#[test]
fn docker_build_with_env_dry_run() {
    let mut r = DockerBuildRecipe::new("build", "app:test");
    r.env = env_of(vec![("DOCKER_BUILDKIT".to_string(), "1".to_string())]);
    let mut c = ctx();
    c.dry_run = true;
    let out = execute(&r.plan(&c, RUNTIME)).unwrap();
    assert!(out.stdout.contains("dry-run"));
}

#[test]
fn docker_push_with_env_dry_run() {
    let mut r = DockerPushRecipe::new("push", "app:test");
    r.env = env_of(vec![(
        "DOCKER_HOST".to_string(),
        "tcp://localhost:2375".to_string(),
    )]);
    let mut c = ctx();
    c.dry_run = true;
    let out = execute(&r.plan(&c, RUNTIME)).unwrap();
    assert!(out.stdout.contains("dry-run"));
}

#[test]
fn docker_build_inputs_empty() {
    let r = DockerBuildRecipe::new("build", "img");
    assert!(r.inputs(&ctx()).unwrap().is_empty());
}

/// Drives a plan to its end, the cache finding the plan's key.
fn execute_hit(plan: &Plan) -> Result<RecipeOutput, Error> {
    let (mut stage, mut action) = plan.step(Stage::Start, Event::Begin);
    loop {
        let event = match action {
            Action::Finish(r) => return r,
            Action::Lookup => Event::Looked(Some(must::types::CacheLookup::Hit)),
            Action::Run(i) => Event::Ran(run_command(&plan.commands[i])),
            Action::Store => Event::Stored,
        };
        let next = plan.step(stage, event);
        stage = next.0;
        action = next.1;
    }
}

#[test]
fn docker_build_cache_hit() {
    let c = BuildContext::new("/tmp/project".to_string(), 1);
    let r = DockerBuildRecipe::new("build", "myapp:latest");
    match execute_hit(&r.plan(&c, RUNTIME)) {
        Ok(o) => {
            assert!(o.from_cache);
        }
        Err(Error::ToolNotFound { .. }) => {}
        Err(e) => panic!("unexpected error: {e:?}"),
    }
}

#[test]
fn docker_build_cache_store_and_second_hit() {
    let c = BuildContext::new("/tmp/project".to_string(), 1);
    let r = DockerBuildRecipe::new("build", "testimg:v1");
    match execute_hit(&r.plan(&c, RUNTIME)) {
        Ok(o) => {
            assert!(o.from_cache);
        }
        Err(Error::ToolNotFound { .. }) => {}
        Err(e) => panic!("unexpected error: {e:?}"),
    }
}
