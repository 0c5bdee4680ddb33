use must::map::OrdMap;
use must::translate::{MustfileOutput, OutputRecipe};
use must::writer::{toml_key, write_toml};

fn empty_output() -> MustfileOutput {
    MustfileOutput {
        env: OrdMap::new(),
        recipes: vec![],
        todos: vec![],
        skipped: vec![],
    }
}

#[test]
fn empty_output_has_project_section() {
    let toml = write_toml(&empty_output());
    assert!(toml.contains("[project]"));
    assert!(toml.contains("name = \"imported\""));
}

#[test]
fn env_section_only_when_nonempty() {
    let toml = write_toml(&empty_output());
    assert!(!toml.contains("[env.global]"));
}

#[test]
fn env_value_escaping() {
    let mut o = empty_output();
    o.env.insert("PATH".into(), r"C:\tools\".into());
    let toml = write_toml(&o);
    assert!(toml.contains(r#"PATH = "C:\\tools\\""#));
}

#[test]
fn recipe_name_with_slash_is_quoted() {
    let mut o = empty_output();
    o.recipes.push(OutputRecipe {
        name: "dist/app".into(),
        deps: vec![],
        script: String::new(),
        phony: false,
    });
    let toml = write_toml(&o);
    assert!(toml.contains(r#"[recipe."dist/app"]"#));
}

#[test]
fn dep_name_with_special_chars_is_escaped() {
    let mut o = empty_output();
    o.recipes.push(OutputRecipe {
        name: "build".into(),
        deps: vec!["dist/\"output\"".into(), r"C:\lib".into()],
        script: String::new(),
        phony: false,
    });
    let toml = write_toml(&o);
    assert!(
        toml.contains(r#""dist/\"output\"""#),
        "double-quotes inside dep name must be escaped"
    );
    assert!(
        toml.contains(r#""C:\\lib""#),
        "backslashes inside dep name must be escaped"
    );
}

#[test]
fn recipe_with_deps_and_phony() {
    let mut o = empty_output();
    o.recipes.push(OutputRecipe {
        name: "clean".into(),
        deps: vec!["build".into()],
        script: "rm -rf dist".into(),
        phony: true,
    });
    let toml = write_toml(&o);
    assert!(toml.contains("[recipe.\"clean\"]"));
    assert!(toml.contains("phony = true"));
    assert!(toml.contains("deps = [\"build\"]"));
    assert!(toml.contains("rm -rf dist"));
}

#[test]
fn env_key_with_dot_prefix_is_quoted() {
    let mut o = empty_output();
    o.env.insert(".DEFAULT_GOAL".into(), "help".into());
    let toml = write_toml(&o);
    assert!(
        toml.contains("\".DEFAULT_GOAL\" = \"help\""),
        "dot-prefixed keys must be quoted, got: {toml}"
    );
}

#[test]
fn env_key_with_dot_in_middle_is_quoted() {
    let mut o = empty_output();
    o.env.insert("my.var".into(), "value".into());
    let toml = write_toml(&o);
    assert!(
        toml.contains("\"my.var\" = \"value\""),
        "keys with dots must be quoted, got: {toml}"
    );
}

#[test]
fn env_key_plain_alphanumeric_is_bare() {
    let mut o = empty_output();
    o.env.insert("CC".into(), "gcc".into());
    let toml = write_toml(&o);
    assert!(
        toml.contains("CC = \"gcc\""),
        "plain keys should stay bare, got: {toml}"
    );
}

#[test]
fn env_key_with_dash_is_bare() {
    let mut o = empty_output();
    o.env.insert("my-var".into(), "val".into());
    let toml = write_toml(&o);
    assert!(
        toml.contains("my-var = \"val\""),
        "keys with dashes should stay bare, got: {toml}"
    );
}

#[test]
fn env_key_with_spaces_is_quoted() {
    let mut o = empty_output();
    o.env.insert("my key".into(), "val".into());
    let toml = write_toml(&o);
    assert!(
        toml.contains("\"my key\" = \"val\""),
        "keys with spaces must be quoted, got: {toml}"
    );
}

#[test]
fn toml_key_unit_tests() {
    assert_eq!(toml_key("CC"), "CC");
    assert_eq!(toml_key("my-var"), "my-var");
    assert_eq!(toml_key("my_var"), "my_var");
    assert_eq!(toml_key("abc123"), "abc123");
    assert_eq!(toml_key(".DEFAULT_GOAL"), "\".DEFAULT_GOAL\"");
    assert_eq!(toml_key("my.var"), "\"my.var\"");
    assert_eq!(toml_key("my key"), "\"my key\"");
    assert_eq!(toml_key(""), "\"\"");
}

#[test]
fn every_recipe_header_is_quoted() {
    let mut o = empty_output();
    for name in ["build", "say \"hi\"", "a.b"] {
        o.recipes.push(OutputRecipe {
            name: name.into(),
            deps: vec![],
            script: "true".into(),
            phony: false,
        });
    }
    let toml = write_toml(&o);
    assert!(toml.contains("\n[recipe.\"build\"]\n"));
    assert!(toml.contains("\n[recipe.\"say \\\"hi\\\"\"]\n"));
    assert!(toml.contains("\n[recipe.\"a.b\"]\n"));
}
