use must::lexer::{tokenize, AssignOp, Token};
// Helper: tokenize a single line.
fn tok(line: &str) -> Token {
    let mut v = tokenize(line);
    assert_eq!(v.len(), 1, "expected exactly 1 token for input {:?}", line);
    v.remove(0)
}

// 1. Empty string → empty vec
#[test]
fn empty_input_yields_empty_vec() {
    assert_eq!(tokenize(""), Vec::<Token>::new());
}

// 2. Blank line → [Blank]
// A blank line inside a multi-line string produces a Blank token.
// Note: tokenize("") returns an empty vec (test 1); a blank *line* must
// come from a string that contains at least one line, e.g. a single space
// or a newline-terminated empty string.
#[test]
fn blank_line() {
    // A single space (only whitespace) trims to empty → Blank.
    assert_eq!(tok(" "), Token::Blank);
}

// 3. Comment
#[test]
fn comment_line() {
    assert_eq!(tok("# hello"), Token::Comment("hello".to_string()));
}

// 3b. Comment with no space after #
#[test]
fn comment_no_space() {
    assert_eq!(tok("#hello"), Token::Comment("hello".to_string()));
}

// 4. Simple assignment
#[test]
fn var_assign_simple() {
    assert_eq!(
        tok("FOO = bar"),
        Token::VarAssign {
            name: "FOO".to_string(),
            op: AssignOp::Simple,
            value: "bar".to_string(),
        }
    );
}

// 5. Immediate assignment with multi-word value
#[test]
fn var_assign_immediate() {
    assert_eq!(
        tok("FOO := bar baz"),
        Token::VarAssign {
            name: "FOO".to_string(),
            op: AssignOp::Immediate,
            value: "bar baz".to_string(),
        }
    );
}

// 6. Conditional assignment
#[test]
fn var_assign_conditional() {
    assert_eq!(
        tok("FOO ?= default"),
        Token::VarAssign {
            name: "FOO".to_string(),
            op: AssignOp::Conditional,
            value: "default".to_string(),
        }
    );
}

// 7. Append assignment
#[test]
fn var_assign_append() {
    assert_eq!(
        tok("FOO += extra"),
        Token::VarAssign {
            name: "FOO".to_string(),
            op: AssignOp::Append,
            value: "extra".to_string(),
        }
    );
}

// 8. .PHONY with targets
#[test]
fn phony_with_targets() {
    assert_eq!(
        tok(".PHONY: all test clean"),
        Token::PhonyDecl(vec![
            "all".to_string(),
            "test".to_string(),
            "clean".to_string()
        ])
    );
}

// 9. .PHONY with no targets
#[test]
fn phony_empty() {
    assert_eq!(tok(".PHONY:"), Token::PhonyDecl(vec![]));
}

// 10. Rule header with deps
#[test]
fn rule_header_with_deps() {
    assert_eq!(
        tok("all: build test"),
        Token::RuleHeader {
            target: "all".to_string(),
            deps: vec!["build".to_string(), "test".to_string()],
        }
    );
}

// 11. Rule header with no deps
#[test]
fn rule_header_no_deps() {
    assert_eq!(
        tok("all:"),
        Token::RuleHeader {
            target: "all".to_string(),
            deps: vec![],
        }
    );
}

// 12. Recipe line
#[test]
fn recipe_line() {
    assert_eq!(
        tok("\techo hello"),
        Token::RecipeLine("echo hello".to_string())
    );
}

// 13. include directive
#[test]
fn include_directive() {
    assert_eq!(
        tok("include foo.mk"),
        Token::IncludeDirective("foo.mk".to_string())
    );
}

// 14. Pattern rule
#[test]
fn pattern_rule() {
    assert_eq!(
        tok("%.o: %.c"),
        Token::PatternRule {
            pattern: "%.o".to_string(),
            deps: vec!["%.c".to_string()],
        }
    );
}

// 15. Multi-line input
#[test]
fn multi_line() {
    let input = "FOO = bar\n\nall:\n\techo done";
    let tokens = tokenize(input);
    assert_eq!(tokens.len(), 4);
    assert_eq!(
        tokens[0],
        Token::VarAssign {
            name: "FOO".to_string(),
            op: AssignOp::Simple,
            value: "bar".to_string(),
        }
    );
    assert_eq!(tokens[1], Token::Blank);
    assert_eq!(
        tokens[2],
        Token::RuleHeader {
            target: "all".to_string(),
            deps: vec![],
        }
    );
    assert_eq!(tokens[3], Token::RecipeLine("echo done".to_string()));
}

// 16. Unrecognized: conditional directive
#[test]
fn unrecognized_ifeq() {
    assert_eq!(
        tok("ifeq ($(CC),gcc)"),
        Token::Unrecognized("ifeq ($(CC),gcc)".to_string())
    );
}

// Extra: variable with $(VAR) in value passes through untouched
#[test]
fn var_assign_with_expansion() {
    assert_eq!(
        tok("CFLAGS := -Wall $(EXTRA)"),
        Token::VarAssign {
            name: "CFLAGS".to_string(),
            op: AssignOp::Immediate,
            value: "-Wall $(EXTRA)".to_string(),
        }
    );
}

// Extra: double-colon rule treated as ordinary rule
#[test]
fn double_colon_rule() {
    assert_eq!(
        tok("all:: build"),
        Token::RuleHeader {
            target: "all".to_string(),
            deps: vec!["build".to_string()],
        }
    );
}

// Extra: line with `=` inside a macro expression is NOT a VarAssign
#[test]
fn macro_line_with_equals_is_unrecognized() {
    // The `=` inside `$(call TEMPLATE,foo=bar)` must not cause the line to
    // be classified as a variable assignment with a garbage name.
    let t = tok("$(eval $(call TEMPLATE,foo=bar))");
    assert_eq!(
        t,
        Token::Unrecognized("$(eval $(call TEMPLATE,foo=bar))".to_string())
    );
}

// Extra: trailing whitespace stripped
#[test]
fn trailing_whitespace_stripped() {
    assert_eq!(
        tok("FOO = bar   "),
        Token::VarAssign {
            name: "FOO".to_string(),
            op: AssignOp::Simple,
            value: "bar".to_string(),
        }
    );
}
