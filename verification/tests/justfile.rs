use must::justfile::parse_justfile;

#[test]
fn justfile_empty_input() {
    let output = parse_justfile("");
    assert!(output.recipes.is_empty());
    assert!(output.env.is_empty());
}

#[test]
fn simple_recipe() {
    let input = "build:\n    cargo build";
    let output = parse_justfile(input);
    assert_eq!(output.recipes.len(), 1);
    assert_eq!(output.recipes[0].name, "build");
    assert_eq!(output.recipes[0].script, "cargo build");
}

#[test]
fn recipe_with_deps() {
    let input = "test: build\n    cargo test";
    let output = parse_justfile(input);
    assert_eq!(output.recipes.len(), 1);
    assert_eq!(output.recipes[0].name, "test");
    assert_eq!(output.recipes[0].deps, vec!["build"]);
}

#[test]
fn multiple_recipes() {
    let input = "build:\n    cargo build\n\ntest: build\n    cargo test\n\nclean:\n    cargo clean";
    let output = parse_justfile(input);
    assert_eq!(output.recipes.len(), 3);
    assert_eq!(output.recipes[0].name, "build");
    assert_eq!(output.recipes[1].name, "test");
    assert_eq!(output.recipes[2].name, "clean");
}

#[test]
fn export_env() {
    let input = "export RUST_LOG = \"warn\"\n\nbuild:\n    cargo build";
    let output = parse_justfile(input);
    assert_eq!(output.env.get("RUST_LOG").unwrap(), "warn");
}

#[test]
fn comments_ignored() {
    let input = "# This is a comment\nbuild:\n    cargo build";
    let output = parse_justfile(input);
    assert_eq!(output.recipes.len(), 1);
}

#[test]
fn default_skipped() {
    let input = "default: build\n\nbuild:\n    cargo build";
    let output = parse_justfile(input);
    assert_eq!(output.recipes.len(), 1);
    assert_eq!(output.recipes[0].name, "build");
}

#[test]
fn multiline_script() {
    let input = "release:\n    cargo build --release\n    cp target/release/app dist/";
    let output = parse_justfile(input);
    assert_eq!(output.recipes[0].script, "cargo build --release\ncp target/release/app dist/");
}

#[test]
fn set_skipped() {
    let input = "set shell := [\"bash\", \"-c\"]\n\nbuild:\n    echo hi";
    let output = parse_justfile(input);
    assert_eq!(output.recipes.len(), 1);
    assert!(output.skipped.iter().any(|s| s.starts_with("set ")));
}
