use must::cli::{
    RunnableRecipe, check_lines, graph_lines, reachable_recipes, recipe_graph, resolve_targets,
    runnable_from_config, summary_line,
};
use must::config::{Config, EnvMap, Project};
use must::engine::{ExecutionReport, ExecutionResult};
use must::error::Error;
use must::map::OrdMap;
use must::mustfile::parse_config;

fn make_config() -> Config {
    Config {
        project: Project { name: "test".into(), version: None, include_paths: vec![] },
        env: EnvMap { global: OrdMap::new() },
        targets: OrdMap::new(),
        recipe: OrdMap::new(),
    }
}

fn strings(v: &[&str]) -> Vec<String> {
    v.iter().map(|s| s.to_string()).collect()
}

#[test]
fn test_resolve_targets_empty_returns_host() {
    let config = make_config();
    assert_eq!(resolve_targets(&vec![], &config), vec!["host"]);
}

#[test]
fn test_resolve_targets_direct_triple_passthrough() {
    let config = make_config();
    let result = resolve_targets(&vec!["x86_64-unknown-linux-gnu".to_string()], &config);
    assert_eq!(result, vec!["x86_64-unknown-linux-gnu"]);
}

#[test]
fn main_test_resolve_targets_group_expansion() {
    let mut config = make_config();
    config.targets.insert(
        "linux".into(),
        vec!["x86_64-unknown-linux-gnu".into(), "aarch64-unknown-linux-gnu".into()],
    );
    let result = resolve_targets(&vec!["linux".to_string()], &config);
    assert_eq!(result, vec!["x86_64-unknown-linux-gnu", "aarch64-unknown-linux-gnu"]);
}

#[test]
fn test_resolve_targets_deduplicates_preserving_order() {
    let config = make_config();
    let result = resolve_targets(
        &vec!["host".to_string(), "host".to_string(), "host".to_string()],
        &config,
    );
    assert_eq!(result, vec!["host"]);
}

#[test]
fn test_resolve_targets_mixed_group_and_direct() {
    let mut config = make_config();
    config.targets.insert("linux".into(), vec!["x86_64-unknown-linux-gnu".into()]);
    let result = resolve_targets(&vec!["linux".to_string(), "host".to_string()], &config);
    assert_eq!(result, vec!["x86_64-unknown-linux-gnu", "host"]);
}

fn chain_config() -> Config {
    parse_config(
        r#"
[project]
name = "app"

[recipe.codegen]
type = "shell"
script = "gen"

[recipe.build]
type = "shell"
deps = ["codegen"]
script = "make"

[recipe.test]
type = "shell"
deps = ["build"]
script = "make test"

[recipe.docs]
type = "shell"
script = "doc"
"#,
        "Mustfile.toml",
    )
    .unwrap()
}

#[test]
fn reachable_recipes_follow_deps() {
    let config = chain_config();
    let dag = recipe_graph(&config, &vec![], false);
    let mut names = reachable_recipes(&config, &dag, &strings(&["test"])).unwrap();
    names.sort();
    assert_eq!(names, strings(&["build", "codegen", "test"]));
    let both = reachable_recipes(&config, &dag, &strings(&["build", "docs"])).unwrap();
    assert_eq!(both.len(), 3);
}

#[test]
fn reachable_recipes_unknown_target() {
    let config = chain_config();
    let dag = recipe_graph(&config, &vec![], false);
    match reachable_recipes(&config, &dag, &strings(&["build", "deploy"])) {
        Err(Error::UnknownRecipe { name }) => assert_eq!(name, "deploy"),
        other => panic!("unexpected: {:?}", other),
    }
}

#[test]
fn restricted_graph_keeps_reachable_deps() {
    let config = chain_config();
    let keep = strings(&["build", "codegen"]);
    let dag = recipe_graph(&config, &keep, true);
    let waves = dag.waves().unwrap();
    assert_eq!(waves, vec![vec!["codegen".to_string()], vec!["build".to_string()]]);
}

#[test]
fn graph_text_and_dot() {
    let config = chain_config();
    let text = graph_lines(&config, "text").unwrap();
    assert_eq!(text[0], "Recipe dependency graph:");
    assert_eq!(text[1], "");
    assert!(text.contains(&"  build <- [codegen]".to_string()));
    assert!(text.contains(&"  docs".to_string()));
    let dot = graph_lines(&config, "dot").unwrap();
    assert_eq!(dot[0], "digraph mustfile {");
    assert!(dot.contains(&"  \"test\" -> \"build\";".to_string()));
    assert_eq!(dot.last().unwrap(), "}");
    let mermaid = graph_lines(&config, "mermaid").unwrap();
    assert_eq!(mermaid[0], "graph LR");
    assert!(mermaid.contains(&"  build --> codegen".to_string()));
}

#[test]
fn graph_cycle_is_error() {
    let config = parse_config(
        r#"
[project]
name = "loop"

[recipe.a]
type = "shell"
deps = ["b"]
script = "a"

[recipe.b]
type = "shell"
deps = ["a"]
script = "b"
"#,
        "Mustfile.toml",
    )
    .unwrap();
    assert!(matches!(graph_lines(&config, "text"), Err(Error::CycleDetected { .. })));
}

#[test]
fn summary_counts_results() {
    let ok = |name: &str, cached: bool| ExecutionResult {
        recipe_name: name.to_string(),
        from_cache: cached,
        success: true,
        duration_ms: 1,
        stdout: String::new(),
        stderr: String::new(),
        error: None,
    };
    let report = ExecutionReport {
        results: vec![ok("a", false), ok("b", true), ok("c", false)],
        total_duration_ms: 42,
        success: true,
    };
    assert_eq!(summary_line(&report), "\n2 built, 1 cached, 0 failed — 42ms");
}

#[test]
fn runnable_recipes_by_type() {
    let config = parse_config(
        r#"
[project]
name = "app"

[recipe.gen]
type = "shell"
script = "gen"
cache = "hash"
inputs = ["proto/*.proto"]

[recipe.build]
type = "rust-bin"
features = ["tls"]

[recipe.serve]
type = "go-bin"

[recipe.image]
type = "docker-build"
image = "app:latest"
"#,
        "Mustfile.toml",
    )
    .unwrap();
    let env = OrdMap::new();
    match runnable_from_config("gen", config.recipe.get("gen").unwrap(), "default", OrdMap::new()) {
        Ok(RunnableRecipe::Shell(s)) => {
            assert_eq!(s.cache, must::types::CacheStrategy::Hash);
            assert_eq!(s.inputs, strings(&["proto/*.proto"]));
        }
        _ => panic!("a shell recipe"),
    }
    match runnable_from_config("build", config.recipe.get("build").unwrap(), "release", OrdMap::new()) {
        Ok(RunnableRecipe::RustBin(r)) => {
            assert_eq!(r.package, "build");
            assert!(r.release);
            assert_eq!(r.features, strings(&["tls"]));
        }
        _ => panic!("a rust binary"),
    }
    match runnable_from_config("serve", config.recipe.get("serve").unwrap(), "default", env) {
        Ok(RunnableRecipe::GoBin(g)) => assert_eq!(g.package, "."),
        _ => panic!("a go binary"),
    }
    match runnable_from_config("image", config.recipe.get("image").unwrap(), "default", OrdMap::new()) {
        Err(Error::Config { path, message }) => {
            assert_eq!(path, "image");
            assert_eq!(message, "recipe type 'docker-build' cannot be run from the command line");
        }
        _ => panic!("docker recipes are not run from the command line"),
    }
}

fn shell_recipes(pairs: &[(&str, &[&str])]) -> Config {
    let mut text = String::from("[project]\nname = \"test\"\n");
    for (name, deps) in pairs {
        let list: Vec<String> = deps.iter().map(|d| format!("\"{d}\"")).collect();
        text.push_str(&format!(
            "\n[recipe.{name}]\ntype = \"shell\"\nscript = \"echo\"\ndeps = [{}]\n",
            list.join(", ")
        ));
    }
    parse_config(&text, "Mustfile.toml").unwrap()
}

#[test]
fn test_print_check_ok() {
    assert_eq!(check_lines("cargo", true, "not needed").len(), 1);
}

#[test]
fn test_print_check_fail() {
    let lines = check_lines("cargo", false, "install from rustup.rs");
    assert_eq!(lines.len(), 2);
    assert!(lines[1].contains("install from rustup.rs"));
}

#[test]
fn test_print_graph_text_no_recipes() {
    let config = make_config();
    assert!(graph_lines(&config, "text").is_ok());
}

#[test]
fn test_print_graph_dot_single_recipe() {
    let config = shell_recipes(&[("build", &[])]);
    let lines = graph_lines(&config, "dot").unwrap();
    assert_eq!(lines, vec!["digraph mustfile {", "  rankdir=LR;", "}"]);
}

#[test]
fn test_print_graph_mermaid_with_deps() {
    let config = shell_recipes(&[("build", &[]), ("test", &["build"])]);
    let lines = graph_lines(&config, "mermaid").unwrap();
    assert!(lines.contains(&"  test --> build".to_string()));
}

#[test]
fn test_print_graph_unknown_format_falls_back_to_text() {
    let config = shell_recipes(&[("build", &[])]);
    assert_eq!(graph_lines(&config, "xml").unwrap(), graph_lines(&config, "text").unwrap());
}

#[test]
fn test_print_graph_cycle_returns_error() {
    let config = shell_recipes(&[("a", &["b"]), ("b", &["a"])]);
    assert!(graph_lines(&config, "text").is_err());
}
