use must::lexer::AssignOp;
use must::parser::{AstNode, MakefileAst};
use must::translate::translate;

fn ast(nodes: Vec<AstNode>) -> MakefileAst {
    MakefileAst { nodes }
}

#[test]
fn empty_ast_zero_counts() {
    let r = translate(ast(vec![]));
    assert_eq!(r.translated_count, 0);
    assert_eq!(r.todo_count, 0);
    assert_eq!(r.skipped_count, 0);
}

#[test]
fn variable_node_goes_into_env() {
    let r = translate(ast(vec![AstNode::Variable {
        name: "CC".into(),
        op: AssignOp::Simple,
        value: "gcc".into(),
    }]));
    assert_eq!(r.translated_count, 1);
    assert!(r.toml.contains("CC = \"gcc\""));
}

#[test]
fn empty_value_var_is_skipped() {
    let r = translate(ast(vec![AstNode::Variable {
        name: "EMPTY".into(),
        op: AssignOp::Simple,
        value: "".into(),
    }]));
    assert_eq!(r.translated_count, 0);
    assert_eq!(
        r.skipped_count, 1,
        "empty-value variable should appear in skipped_count"
    );
    assert!(
        r.report.contains("EMPTY"),
        "skipped variable name should appear in report"
    );
}

#[test]
fn rule_node_goes_into_recipes() {
    let r = translate(ast(vec![AstNode::Rule {
        target: "build".into(),
        deps: vec![],
        recipe_lines: vec!["gcc -o app main.c".into()],
        phony: false,
    }]));
    assert_eq!(r.translated_count, 1);
    assert!(r.toml.contains("[recipe.\"build\"]"));
}

#[test]
fn duplicate_rules_emit_single_recipe_with_merged_deps() {
    let r = translate(ast(vec![
        AstNode::Rule {
            target: "app".into(),
            deps: vec!["build".into()],
            recipe_lines: vec!["echo one".into()],
            phony: false,
        },
        AstNode::Rule {
            target: "app".into(),
            deps: vec!["test".into(), "build".into()],
            recipe_lines: vec!["echo two".into()],
            phony: false,
        },
        AstNode::Rule {
            target: "build".into(),
            deps: vec![],
            recipe_lines: vec!["gcc -o build main.c".into()],
            phony: false,
        },
        AstNode::Rule {
            target: "test".into(),
            deps: vec![],
            recipe_lines: vec!["./run_tests.sh".into()],
            phony: false,
        },
    ]));
    assert_eq!(
        r.toml.matches("[recipe.\"app\"]").count(),
        1,
        "duplicate rules must produce exactly one recipe table"
    );
    assert!(
        r.toml.contains("echo two"),
        "last rule with recipe lines must win the script"
    );
    assert!(!r.toml.contains("echo one"));
    assert!(
        r.toml.contains("deps = [\"build\", \"test\"]"),
        "deps must be merged in order without duplicates, got: {}",
        r.toml
    );
    assert_eq!(r.translated_count, 3);
}

#[test]
fn duplicate_rule_without_recipe_lines_keeps_earlier_script() {
    let r = translate(ast(vec![
        AstNode::Rule {
            target: "app".into(),
            deps: vec![],
            recipe_lines: vec!["echo one".into()],
            phony: false,
        },
        AstNode::Rule {
            target: "app".into(),
            deps: vec![],
            recipe_lines: vec![],
            phony: false,
        },
    ]));
    assert!(r.toml.contains("echo one"));
    assert_eq!(r.toml.matches("[recipe.\"app\"]").count(), 1);
}

#[test]
fn deps_filtered_to_emitted_recipe_names() {
    let r = translate(ast(vec![AstNode::Rule {
        target: "app".into(),
        deps: vec!["main.c".into(), "util.c".into()],
        recipe_lines: vec!["gcc -o app main.c util.c".into()],
        phony: false,
    }]));
    assert!(
        !r.toml.contains("deps ="),
        "file prerequisites that are not targets must not become deps, got: {}",
        r.toml
    );
}

#[test]
fn deps_with_make_variables_filtered() {
    let r = translate(ast(vec![
        AstNode::Rule {
            target: "app".into(),
            deps: vec!["$(OBJS)".into(), "build".into()],
            recipe_lines: vec!["echo ok".into()],
            phony: false,
        },
        AstNode::Rule {
            target: "build".into(),
            deps: vec![],
            recipe_lines: vec!["gcc -o build main.c".into()],
            phony: false,
        },
    ]));
    assert!(r.toml.contains("deps = [\"build\"]"));
    assert!(!r.toml.contains("$(OBJS)"));
}

#[test]
fn aggregate_rule_without_recipe_lines_becomes_phony_noop() {
    let r = translate(ast(vec![
        AstNode::Rule {
            target: "all".into(),
            deps: vec!["build".into()],
            recipe_lines: vec![],
            phony: false,
        },
        AstNode::Rule {
            target: "build".into(),
            deps: vec![],
            recipe_lines: vec!["gcc -o build main.c".into()],
            phony: false,
        },
    ]));
    assert!(
        r.toml
            .contains("[recipe.\"all\"]\ntype = \"shell\"\ndeps = [\"build\"]\nphony = true\nscript = \"\"\"\ntrue\n\"\"\""),
        "aggregate target must be a valid phony no-op, got: {}",
        r.toml
    );
}

#[test]
fn pattern_rule_increments_todo() {
    let r = translate(ast(vec![AstNode::PatternRuleTodo {
        original: "%.o: %.c".into(),
    }]));
    assert_eq!(r.todo_count, 1);
    assert!(r.report.contains("Pattern rule"));
}

#[test]
fn include_increments_todo() {
    let r = translate(ast(vec![AstNode::IncludeTodo {
        path: "common.mk".into(),
    }]));
    assert_eq!(r.todo_count, 1);
    assert!(r.report.contains("Include"));
}

#[test]
fn unrecognized_increments_skipped() {
    let r = translate(ast(vec![AstNode::Unrecognized {
        original: "ifeq ($(OS),Windows)".into(),
    }]));
    assert_eq!(r.skipped_count, 1);
    assert_eq!(r.translated_count, 0);
    assert_eq!(r.todo_count, 0);
    assert!(r.report.contains("ifeq"));
}
