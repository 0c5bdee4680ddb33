use must::lexer::{AssignOp, Token};
use must::parser::{parse, AstNode};

#[test]
fn empty_tokens_empty_ast() {
    let ast = parse(vec![]);
    assert!(ast.nodes.is_empty());
}

#[test]
fn variable_token_produces_variable_node() {
    let tokens = vec![Token::VarAssign {
        name: "FOO".to_string(),
        op: AssignOp::Simple,
        value: "bar".to_string(),
    }];
    let ast = parse(tokens);
    assert_eq!(
        ast.nodes,
        vec![AstNode::Variable {
            name: "FOO".to_string(),
            op: AssignOp::Simple,
            value: "bar".to_string(),
        }]
    );
}

#[test]
fn rule_with_recipe_lines() {
    let tokens = vec![
        Token::RuleHeader {
            target: "build".to_string(),
            deps: vec![],
        },
        Token::RecipeLine("cargo build".to_string()),
        Token::RecipeLine("echo done".to_string()),
    ];
    let ast = parse(tokens);
    assert_eq!(ast.nodes.len(), 1);
    if let AstNode::Rule { recipe_lines, .. } = &ast.nodes[0] {
        assert_eq!(recipe_lines.len(), 2);
        assert_eq!(recipe_lines[0], "cargo build");
        assert_eq!(recipe_lines[1], "echo done");
    } else {
        panic!("expected Rule node");
    }
}

#[test]
fn rule_with_no_recipe_lines() {
    let tokens = vec![
        Token::RuleHeader {
            target: "build".to_string(),
            deps: vec![],
        },
        Token::Blank,
    ];
    let ast = parse(tokens);
    assert_eq!(ast.nodes.len(), 1);
    if let AstNode::Rule { recipe_lines, .. } = &ast.nodes[0] {
        assert!(recipe_lines.is_empty());
    } else {
        panic!("expected Rule node");
    }
}

#[test]
fn blank_line_inside_recipe_does_not_terminate_it() {
    let tokens = vec![
        Token::RuleHeader {
            target: "build".to_string(),
            deps: vec![],
        },
        Token::RecipeLine("echo first".to_string()),
        Token::Blank,
        Token::RecipeLine("echo second".to_string()),
    ];
    let ast = parse(tokens);
    assert_eq!(ast.nodes.len(), 1);
    if let AstNode::Rule { recipe_lines, .. } = &ast.nodes[0] {
        assert_eq!(
            recipe_lines,
            &["echo first".to_string(), "echo second".to_string()]
        );
    } else {
        panic!("expected Rule node");
    }
}

#[test]
fn comment_inside_recipe_does_not_terminate_it() {
    let tokens = vec![
        Token::RuleHeader {
            target: "build".to_string(),
            deps: vec![],
        },
        Token::RecipeLine("echo first".to_string()),
        Token::Comment("mid-recipe comment".to_string()),
        Token::RecipeLine("echo second".to_string()),
    ];
    let ast = parse(tokens);
    assert_eq!(ast.nodes.len(), 1);
    if let AstNode::Rule { recipe_lines, .. } = &ast.nodes[0] {
        assert_eq!(
            recipe_lines,
            &["echo first".to_string(), "echo second".to_string()]
        );
    } else {
        panic!("expected Rule node");
    }
}

#[test]
fn non_tab_line_after_blank_terminates_recipe() {
    let tokens = vec![
        Token::RuleHeader {
            target: "build".to_string(),
            deps: vec![],
        },
        Token::RecipeLine("echo first".to_string()),
        Token::Blank,
        Token::VarAssign {
            name: "X".to_string(),
            op: AssignOp::Simple,
            value: "1".to_string(),
        },
        Token::RecipeLine("echo orphan".to_string()),
    ];
    let ast = parse(tokens);
    assert_eq!(ast.nodes.len(), 2);
    if let AstNode::Rule { recipe_lines, .. } = &ast.nodes[0] {
        assert_eq!(recipe_lines, &["echo first".to_string()]);
    } else {
        panic!("expected Rule node");
    }
    assert!(matches!(ast.nodes[1], AstNode::Variable { .. }));
}

#[test]
fn blank_line_between_rules_keeps_recipes_separate() {
    let tokens = vec![
        Token::RuleHeader {
            target: "a".to_string(),
            deps: vec![],
        },
        Token::RecipeLine("echo a".to_string()),
        Token::Blank,
        Token::RuleHeader {
            target: "b".to_string(),
            deps: vec![],
        },
        Token::RecipeLine("echo b".to_string()),
    ];
    let ast = parse(tokens);
    assert_eq!(ast.nodes.len(), 2);
    if let AstNode::Rule {
        target,
        recipe_lines,
        ..
    } = &ast.nodes[1]
    {
        assert_eq!(target, "b");
        assert_eq!(recipe_lines, &["echo b".to_string()]);
    } else {
        panic!("expected Rule node");
    }
}

#[test]
fn phony_decl_sets_phony_true() {
    let tokens = vec![
        Token::PhonyDecl(vec!["clean".to_string()]),
        Token::RuleHeader {
            target: "clean".to_string(),
            deps: vec![],
        },
        Token::RecipeLine("rm -rf target".to_string()),
    ];
    let ast = parse(tokens);
    assert_eq!(ast.nodes.len(), 1);
    if let AstNode::Rule { phony, target, .. } = &ast.nodes[0] {
        assert_eq!(target, "clean");
        assert!(*phony, "expected phony=true for 'clean'");
    } else {
        panic!("expected Rule node");
    }
}

#[test]
fn non_phony_rule_is_not_phony() {
    let tokens = vec![Token::RuleHeader {
        target: "output.o".to_string(),
        deps: vec!["output.c".to_string()],
    }];
    let ast = parse(tokens);
    assert_eq!(ast.nodes.len(), 1);
    if let AstNode::Rule { phony, .. } = &ast.nodes[0] {
        assert!(!*phony, "expected phony=false");
    } else {
        panic!("expected Rule node");
    }
}

#[test]
fn pattern_rule_becomes_todo() {
    let tokens = vec![Token::PatternRule {
        pattern: "%.o".to_string(),
        deps: vec!["%.c".to_string()],
    }];
    let ast = parse(tokens);
    assert_eq!(
        ast.nodes,
        vec![AstNode::PatternRuleTodo {
            original: "%.o: %.c".to_string(),
        }]
    );
}

#[test]
fn include_becomes_todo() {
    let tokens = vec![Token::IncludeDirective("config.mk".to_string())];
    let ast = parse(tokens);
    assert_eq!(
        ast.nodes,
        vec![AstNode::IncludeTodo {
            path: "config.mk".to_string(),
        }]
    );
}

#[test]
fn comment_and_blank_are_skipped() {
    let tokens = vec![
        Token::Comment("this is a comment".to_string()),
        Token::Blank,
        Token::VarAssign {
            name: "X".to_string(),
            op: AssignOp::Immediate,
            value: "1".to_string(),
        },
    ];
    let ast = parse(tokens);
    assert_eq!(ast.nodes.len(), 1);
    assert!(matches!(ast.nodes[0], AstNode::Variable { .. }));
}

#[test]
fn unrecognized_token_preserved() {
    let tokens = vec![Token::Unrecognized("ifeq ($(CC),gcc)".to_string())];
    let ast = parse(tokens);
    assert_eq!(
        ast.nodes,
        vec![AstNode::Unrecognized {
            original: "ifeq ($(CC),gcc)".to_string(),
        }]
    );
}
