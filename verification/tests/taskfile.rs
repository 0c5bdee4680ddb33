use must::taskfile::parse_taskfile;

#[test]
fn taskfile_empty_input() {
    let output = parse_taskfile("");
    assert!(output.recipes.is_empty());
}

#[test]
fn simple_task() {
    let input = "version: '3'\n\ntasks:\n  build:\n    cmds:\n      - cargo build";
    let output = parse_taskfile(input);
    assert_eq!(output.recipes.len(), 1);
    assert_eq!(output.recipes[0].name, "build");
    assert_eq!(output.recipes[0].script, "cargo build");
}

#[test]
fn task_with_deps() {
    let input = "version: '3'\n\ntasks:\n  test:\n    deps: [build]\n    cmds:\n      - cargo test";
    let output = parse_taskfile(input);
    assert_eq!(output.recipes.len(), 1);
    assert_eq!(output.recipes[0].deps, vec!["build"]);
}

#[test]
fn task_with_deps_list() {
    let input = "version: '3'\n\ntasks:\n  release:\n    deps:\n      - build\n      - test\n    cmds:\n      - cargo build --release";
    let output = parse_taskfile(input);
    assert_eq!(output.recipes[0].deps, vec!["build", "test"]);
}

#[test]
fn multiple_tasks() {
    let input = r#"version: '3'

tasks:
  build:
    cmds:
      - cargo build
  test:
    deps: [build]
    cmds:
      - cargo test
  clean:
    cmds:
      - cargo clean"#;
    let output = parse_taskfile(input);
    assert_eq!(output.recipes.len(), 3);
    assert_eq!(output.recipes[0].name, "build");
    assert_eq!(output.recipes[1].name, "test");
    assert_eq!(output.recipes[2].name, "clean");
}

#[test]
fn multiline_cmds() {
    let input = "version: '3'\n\ntasks:\n  release:\n    cmds:\n      - cargo build --release\n      - cp target/release/app dist/";
    let output = parse_taskfile(input);
    assert_eq!(output.recipes[0].script, "cargo build --release\ncp target/release/app dist/");
}

#[test]
fn version_skipped() {
    let input = "version: '3'\n\ntasks:\n  build:\n    cmds:\n      - echo hi";
    let output = parse_taskfile(input);
    assert!(output.skipped.iter().any(|s| s.contains("version")));
}

#[test]
fn no_tasks_block() {
    let input = "version: '3'\n";
    let output = parse_taskfile(input);
    assert!(output.recipes.is_empty());
}
