use must::bridge::{BridgeRecipe, BridgeTool, auto_config, detect_bridges};
use must::config::RecipeType;
use must::error::Error;
use must::job::{Action, CommandResult, Event, Invocation, Plan, Stage};
use must::types::{BuildContext, CacheStrategy, Recipe, RecipeOutput};

fn ctx() -> BuildContext {
    BuildContext::new("/tmp".to_string(), 1)
}

/// Stands in for the system shell (tests cannot start processes): runs
/// the two script forms these tests use, `echo <text>` and `exit <code>`.
fn run_command(inv: &Invocation) -> Result<CommandResult, Error> {
    assert_eq!(inv.program, "sh");
    assert_eq!(inv.args[0], "-c");
    let script = inv.args[1].as_str();
    let (code, stdout) = if let Some(text) = script.strip_prefix("echo ") {
        (0, format!("{text}\n"))
    } else if let Some(n) = script.strip_prefix("exit ") {
        (n.trim().parse::<i32>().unwrap(), String::new())
    } else {
        panic!("unsupported script in test: {script}")
    };
    Ok(CommandResult { code: Some(code), stdout, stderr: String::new(), duration_ms: 0 })
}

/// Drives a plan to its end: no cache entry is found and nothing is stored.
fn execute(plan: &Plan) -> Result<RecipeOutput, Error> {
    let (mut stage, mut action) = plan.step(Stage::Start, Event::Begin);
    loop {
        let event = match action {
            Action::Finish(r) => return r,
            Action::Lookup => Event::Looked(None),
            Action::Run(i) => Event::Ran(run_command(&plan.commands[i])),
            Action::Store => Event::Stored,
        };
        let next = plan.step(stage, event);
        stage = next.0;
        action = next.1;
    }
}

#[test]
fn name_and_tool() {
    let r = BridgeRecipe::new("build", "make", "make build");
    assert_eq!(r.name(), "build");
    assert_eq!(r.tool, "make");
}

#[test]
fn cache_strategy_is_never() {
    let r = BridgeRecipe::new("build", "make", "make");
    assert_eq!(r.cache_strategy(), CacheStrategy::Never);
}

#[test]
fn bridge_dry_run_skips_execution() {
    let r = BridgeRecipe::new("build", "make", "make build");
    let mut c = ctx();
    c.dry_run = true;
    let out = execute(&r.plan(&c)).unwrap();
    assert!(out.stdout.contains("dry-run"));
    assert!(out.stdout.contains("make"));
    assert_eq!(out.duration_ms, 0);
}

#[test]
fn execute_runs_script() {
    let r = BridgeRecipe::new("greet", "make", "echo hello-bridge");
    let out = execute(&r.plan(&ctx())).unwrap();
    assert!(out.stdout.contains("hello-bridge"));
    assert!(!out.from_cache);
}

#[test]
fn execute_fails_on_nonzero() {
    let r = BridgeRecipe::new("bad", "make", "exit 1");
    let result = execute(&r.plan(&ctx()));
    assert!(result.is_err());
}

#[test]
fn inputs_outputs_empty() {
    let r = BridgeRecipe::new("build", "make", "make");
    assert!(r.inputs(&ctx()).is_empty());
    assert!(r.outputs(&ctx()).is_empty());
}

#[test]
fn bridge_deps_empty_by_default() {
    let r = BridgeRecipe::new("build", "make", "make");
    assert!(r.deps().is_empty());
}

#[test]
fn cache_key_is_stable() {
    let r = BridgeRecipe::new("build", "make", "make build");
    let key = r.cache_key(&ctx());
    assert_eq!(key.recipe, "build");
    let key2 = r.cache_key(&ctx());
    assert_eq!(key.hash, key2.hash);
}

#[test]
fn bridge_tool_names() {
    assert_eq!(BridgeTool::Make.name(), "make");
    assert_eq!(BridgeTool::Npm.name(), "npm");
    assert_eq!(BridgeTool::Gradle.name(), "gradle");
    assert_eq!(BridgeTool::Maven.name(), "mvn");
    assert_eq!(BridgeTool::Rake.name(), "rake");
    assert_eq!(BridgeTool::Invoke.name(), "invoke");
    assert_eq!(BridgeTool::Cmake.name(), "cmake");
    assert_eq!(BridgeTool::CargoMake.name(), "cargo-make");
    assert_eq!(BridgeTool::Ant.name(), "ant");
    assert_eq!(BridgeTool::Just.name(), "just");
    assert_eq!(BridgeTool::Bazel.name(), "bazel");
    assert_eq!(BridgeTool::Buck2.name(), "buck2");
    assert_eq!(BridgeTool::Pants.name(), "pants");
    assert_eq!(BridgeTool::Meson.name(), "meson");
    assert_eq!(BridgeTool::Yarn.name(), "yarn");
    assert_eq!(BridgeTool::Pnpm.name(), "pnpm");
    assert_eq!(BridgeTool::Bun.name(), "bun");
    assert_eq!(BridgeTool::Sbt.name(), "sbt");
    assert_eq!(BridgeTool::Gulp.name(), "gulp");
    assert_eq!(BridgeTool::Nx.name(), "nx");
}

#[test]
fn build_command_make() {
    assert_eq!(BridgeTool::Make.build_command("build"), "make");
    assert_eq!(BridgeTool::Make.build_command("test"), "make test");
}

#[test]
fn build_command_npm() {
    assert_eq!(BridgeTool::Npm.build_command("build"), "npm run build");
    assert_eq!(BridgeTool::Npm.build_command("test"), "npm run test");
}

#[test]
fn build_command_cmake() {
    assert_eq!(BridgeTool::Cmake.build_command("build"), "cmake --build build");
    assert_eq!(BridgeTool::Cmake.build_command("test"), "ctest --test-dir build");
}

#[test]
fn build_command_bazel() {
    assert_eq!(BridgeTool::Bazel.build_command("build"), "bazel build");
    assert_eq!(BridgeTool::Bazel.build_command("test //..."), "bazel test //...");
}

#[test]
fn build_command_meson() {
    assert_eq!(BridgeTool::Meson.build_command("build"), "meson compile -C builddir");
    assert_eq!(BridgeTool::Meson.build_command("test"), "meson test -C builddir");
}

#[test]
fn build_command_yarn() {
    assert_eq!(BridgeTool::Yarn.build_command("build"), "yarn build");
    assert_eq!(BridgeTool::Yarn.build_command("test"), "yarn test");
}

#[test]
fn build_command_bun() {
    assert_eq!(BridgeTool::Bun.build_command("build"), "bun run build");
}

#[test]
fn build_command_nx() {
    assert_eq!(
        BridgeTool::Nx.build_command("run-many --target=build --all"),
        "nx run-many --target=build --all"
    );
}

fn present(files: &[&str]) -> Vec<String> {
    files.iter().map(|s| s.to_string()).collect()
}

#[test]
fn detect_from_indicator_files() {
    assert_eq!(detect_bridges(&present(&["Makefile"])), vec![BridgeTool::Make]);
    assert_eq!(detect_bridges(&present(&["MODULE.bazel"])), vec![BridgeTool::Bazel]);
    assert_eq!(detect_bridges(&present(&["bun.lockb"])), vec![BridgeTool::Bun]);
    assert!(detect_bridges(&present(&[])).is_empty());
    assert_eq!(
        detect_bridges(&present(&["package.json", "Makefile"])),
        vec![BridgeTool::Make, BridgeTool::Npm]
    );
}

#[test]
fn auto_config_none_without_tools() {
    assert!(auto_config("/work/proj", &present(&[])).is_none());
}

#[test]
fn auto_config_single_tool_recipes() {
    let config = auto_config("/work/proj", &present(&["Makefile"])).unwrap();
    assert_eq!(config.project.name, "proj");
    let build = config.recipe.get("build").unwrap();
    assert_eq!(build.recipe_type, RecipeType::Bridge);
    assert_eq!(build.script.as_deref(), Some("make"));
    assert_eq!(build.package.as_deref(), Some("make"));
    assert!(build.phony);
    assert_eq!(config.recipe.get("test").unwrap().script.as_deref(), Some("make test"));
    assert!(config.recipe.get("make-build").is_none());
}

#[test]
fn auto_config_multi_tool_prefixes() {
    let config = auto_config("/work/proj", &present(&["Makefile", "package.json"])).unwrap();
    assert_eq!(config.recipe.get("build").unwrap().script.as_deref(), Some("make"));
    assert_eq!(config.recipe.get("npm-build").unwrap().script.as_deref(), Some("npm run build"));
    assert_eq!(config.recipe.get("npm-test").unwrap().script.as_deref(), Some("npm run test"));
    assert_eq!(config.recipe.get("fmt").unwrap().script.as_deref(), Some("make fmt"));
    assert_eq!(config.recipe.get("npm-fmt").unwrap().script.as_deref(), Some("npm run format"));
}

#[test]
fn detect_makefile() {
    assert!(detect_bridges(&present(&["Makefile"])).contains(&BridgeTool::Make));
}

#[test]
fn detect_package_json() {
    assert!(detect_bridges(&present(&["package.json"])).contains(&BridgeTool::Npm));
}

#[test]
fn detect_gradle() {
    assert!(detect_bridges(&present(&["build.gradle"])).contains(&BridgeTool::Gradle));
}

#[test]
fn detect_nothing() {
    assert!(detect_bridges(&present(&[])).is_empty());
}

#[test]
fn detect_multiple_tools() {
    assert_eq!(detect_bridges(&present(&["Makefile", "package.json"])).len(), 2);
}

#[test]
fn auto_config_returns_none_when_empty() {
    assert!(auto_config("/work/empty", &present(&[])).is_none());
}

#[test]
fn auto_config_generates_recipes() {
    let config = auto_config("/work/proj", &present(&["Makefile"])).unwrap();
    assert!(config.recipe.get("build").is_some());
    assert!(config.recipe.get("test").is_some());
    assert_eq!(config.recipe.get("build").unwrap().recipe_type, RecipeType::Bridge);
}

#[test]
fn auto_config_project_name_from_dir() {
    let config = auto_config("/work/proj", &present(&["Makefile"])).unwrap();
    assert!(!config.project.name.is_empty());
}

#[test]
fn auto_config_bridge_recipe_has_tool_in_package() {
    let config = auto_config("/work/proj", &present(&["Makefile"])).unwrap();
    assert_eq!(config.recipe.get("build").unwrap().package.as_deref(), Some("make"));
}

#[test]
fn detect_justfile() {
    assert!(detect_bridges(&present(&["justfile"])).contains(&BridgeTool::Just));
}

#[test]
fn detect_rakefile() {
    assert!(detect_bridges(&present(&["Rakefile"])).contains(&BridgeTool::Rake));
}

#[test]
fn detect_maven() {
    assert!(detect_bridges(&present(&["pom.xml"])).contains(&BridgeTool::Maven));
}

#[test]
fn detect_ant() {
    assert!(detect_bridges(&present(&["build.xml"])).contains(&BridgeTool::Ant));
}

#[test]
fn detect_invoke() {
    assert!(detect_bridges(&present(&["tasks.py"])).contains(&BridgeTool::Invoke));
}

#[test]
fn detect_bazel() {
    assert!(detect_bridges(&present(&["WORKSPACE"])).contains(&BridgeTool::Bazel));
}

#[test]
fn detect_bazel_module() {
    assert!(detect_bridges(&present(&["MODULE.bazel"])).contains(&BridgeTool::Bazel));
}

#[test]
fn detect_buck2() {
    assert!(detect_bridges(&present(&["BUCK"])).contains(&BridgeTool::Buck2));
}

#[test]
fn detect_pants() {
    assert!(detect_bridges(&present(&["pants.toml"])).contains(&BridgeTool::Pants));
}

#[test]
fn detect_meson() {
    assert!(detect_bridges(&present(&["meson.build"])).contains(&BridgeTool::Meson));
}

#[test]
fn detect_yarn() {
    assert!(detect_bridges(&present(&["yarn.lock"])).contains(&BridgeTool::Yarn));
}

#[test]
fn detect_pnpm() {
    assert!(detect_bridges(&present(&["pnpm-lock.yaml"])).contains(&BridgeTool::Pnpm));
}

#[test]
fn detect_bun() {
    assert!(detect_bridges(&present(&["bun.lockb"])).contains(&BridgeTool::Bun));
}

#[test]
fn detect_sbt() {
    assert!(detect_bridges(&present(&["build.sbt"])).contains(&BridgeTool::Sbt));
}

#[test]
fn detect_gulp() {
    assert!(detect_bridges(&present(&["gulpfile.js"])).contains(&BridgeTool::Gulp));
}

#[test]
fn detect_nx() {
    assert!(detect_bridges(&present(&["nx.json"])).contains(&BridgeTool::Nx));
}
