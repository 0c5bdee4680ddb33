//! Line classification for Makefiles: each physical line becomes one token.

use vstd::prelude::*;
use crate::text::{
    chars_of, find, find_char, find_sub, has_char, has_char_exec, has_prefix, lines,
    slice_of, split_lines, split_words, starts_with, string_of, strings_of, sv,
    trim, trim_chars, trim_end, trim_end_chars, vv, words,
};

verus! {

/// Assignment operators supported in Makefiles.
#[derive(Debug, Clone, Copy, PartialEq, Eq, Structural)]
pub enum AssignOp {
    /// Recursively-expanded assignment (`=`)
    Simple,
    /// Simply-expanded assignment (`:=`)
    Immediate,
    /// Conditional assignment (`?=`)
    Conditional,
    /// Append assignment (`+=`)
    Append,
}

/// A single logical line from a Makefile, classified by kind.
#[derive(Debug, PartialEq, Clone)]
pub enum Token {
    /// A comment line (`# …`).  The stored string is the comment body, trimmed.
    Comment(String),
    /// A completely blank line.
    Blank,
    /// A variable assignment line.
    VarAssign { name: String, op: AssignOp, value: String },
    /// A `.PHONY:` declaration listing one or more targets.
    PhonyDecl(Vec<String>),
    /// A normal rule header (`target: deps…`).
    RuleHeader { target: String, deps: Vec<String> },
    /// A recipe line (starts with a tab character), the tab and any
    /// command prefix characters (`@`, `-`, `+`) stripped.
    RecipeLine(String),
    /// An `include` directive.  The stored string is the path, trimmed.
    IncludeDirective(String),
    /// A pattern rule (`%.o: %.c`).
    PatternRule { pattern: String, deps: Vec<String> },
    /// Any line that did not match a recognised pattern.
    Unrecognized(String),
}

/// The mathematical content of a [`Token`].
pub enum TokenV {
    Comment(Seq<char>),
    Blank,
    VarAssign { name: Seq<char>, op: AssignOp, value: Seq<char> },
    PhonyDecl(Seq<Seq<char>>),
    RuleHeader { target: Seq<char>, deps: Seq<Seq<char>> },
    RecipeLine(Seq<char>),
    IncludeDirective(Seq<char>),
    PatternRule { pattern: Seq<char>, deps: Seq<Seq<char>> },
    Unrecognized(Seq<char>),
}

impl View for Token {
    type V = TokenV;

    open spec fn view(&self) -> TokenV {
        match self {
            Token::Comment(s) => TokenV::Comment(s@),
            Token::Blank => TokenV::Blank,
            Token::VarAssign { name, op, value } => TokenV::VarAssign {
                name: name@,
                op: *op,
                value: value@,
            },
            Token::PhonyDecl(v) => TokenV::PhonyDecl(sv(v@)),
            Token::RuleHeader { target, deps } => TokenV::RuleHeader {
                target: target@,
                deps: sv(deps@),
            },
            Token::RecipeLine(s) => TokenV::RecipeLine(s@),
            Token::IncludeDirective(s) => TokenV::IncludeDirective(s@),
            Token::PatternRule { pattern, deps } => TokenV::PatternRule {
                pattern: pattern@,
                deps: sv(deps@),
            },
            Token::Unrecognized(s) => TokenV::Unrecognized(s@),
        }
    }
}

/// The views of a token sequence.
pub open spec fn toks_view(v: Seq<Token>) -> Seq<TokenV> {
    v.map_values(|t: Token| t@)
}

// ---------------------------------------------------------------------------
// Specification
// ---------------------------------------------------------------------------

/// The text of an assignment operator.
pub open spec fn op_text(op: AssignOp) -> Seq<char> {
    match op {
        AssignOp::Conditional => "?="@,
        AssignOp::Immediate => ":="@,
        AssignOp::Append => "+="@,
        AssignOp::Simple => "="@,
    }
}

/// First position at or after `i` of an `=` that does not end `:=`, `?=` or `+=`.
pub open spec fn bare_eq_from(line: Seq<char>, i: int) -> int
    decreases line.len() - i,
{
    if i < 0 || i >= line.len() {
        -1
    } else if line[i] == '=' && !(i > 0 && (line[i - 1] == ':' || line[i - 1] == '?'
        || line[i - 1] == '+')) {
        i
    } else {
        bare_eq_from(line, i + 1)
    }
}

/// Position of the operator `op` in `line`, or -1.
pub open spec fn op_pos(line: Seq<char>, op: AssignOp) -> int {
    match op {
        AssignOp::Simple => bare_eq_from(line, 0),
        _ => find(line, op_text(op)),
    }
}

/// A character that cannot appear in a variable name.
pub open spec fn bad_name_char(c: char) -> bool {
    c == '(' || c == ')' || c == '$' || c == ' ' || c == '\t'
}

/// The assignment that `line` makes with the operator `op`, if any.
pub open spec fn assign_with(line: Seq<char>, op: AssignOp) -> Option<TokenV> {
    let pos = op_pos(line, op);
    if pos < 0 {
        None
    } else {
        let name = trim(line.take(pos));
        if name.len() == 0 || exists|k: int| 0 <= k < name.len() && bad_name_char(name[k]) {
            None
        } else {
            Some(
                TokenV::VarAssign {
                    name,
                    op,
                    value: trim(line.skip(pos + op_text(op).len())),
                },
            )
        }
    }
}

/// The assignment that `line` makes, trying `?=`, `:=`, `+=` and `=` in turn.
pub open spec fn var_assign(line: Seq<char>) -> Option<TokenV> {
    if assign_with(line, AssignOp::Conditional) is Some {
        assign_with(line, AssignOp::Conditional)
    } else if assign_with(line, AssignOp::Immediate) is Some {
        assign_with(line, AssignOp::Immediate)
    } else if assign_with(line, AssignOp::Append) is Some {
        assign_with(line, AssignOp::Append)
    } else {
        assign_with(line, AssignOp::Simple)
    }
}

/// The rule header (or pattern rule) that `line` is, if any.
pub open spec fn rule(line: Seq<char>) -> Option<TokenV> {
    let c = find(line, seq![':']);
    if c < 0 {
        None
    } else {
        let target = trim(line.take(c));
        if target.len() == 0 {
            None
        } else {
            let rest = line.skip(c + 1);
            let after = if rest.len() > 0 && rest[0] == ':' {
                rest.skip(1)
            } else {
                rest
            };
            if has_char(target, '%') {
                Some(TokenV::PatternRule { pattern: target, deps: words(after) })
            } else {
                Some(TokenV::RuleHeader { target, deps: words(after) })
            }
        }
    }
}

/// A command prefix character of a recipe line: `@` (silent), `-` (ignore
/// errors) or `+` (always run).
pub open spec fn is_cmd_prefix(c: char) -> bool {
    c == '@' || c == '-' || c == '+'
}

/// A recipe line without its command prefix characters.
pub open spec fn strip_cmd_prefix(s: Seq<char>) -> Seq<char>
    decreases s.len(),
{
    if s.len() > 0 && is_cmd_prefix(s[0]) {
        strip_cmd_prefix(s.drop_first())
    } else {
        s
    }
}

/// A recipe line without its command prefix characters.
fn strip_cmd_prefix_chars(s: &Vec<char>) -> (r: Vec<char>)
    ensures
        r@ == strip_cmd_prefix(s@),
{
    let mut k: usize = 0;
    assert(s@.skip(0) =~= s@);
    while k < s.len() && (s[k] == '@' || s[k] == '-' || s[k] == '+')
        invariant
            k <= s@.len(),
            strip_cmd_prefix(s@) == strip_cmd_prefix(s@.skip(k as int)),
        decreases s@.len() - k,
    {
        assert(s@.skip(k as int).drop_first() =~= s@.skip(k + 1));
        k += 1;
    }
    let r = slice_of(s, k, s.len());
    assert(r@ =~= s@.skip(k as int));
    r
}

/// The token that one raw line is.
pub open spec fn classify(raw: Seq<char>) -> TokenV {
    let line = trim_end(raw);
    if line.len() == 0 {
        TokenV::Blank
    } else if line[0] == '#' {
        TokenV::Comment(trim(line.skip(1)))
    } else if line[0] == '\t' {
        TokenV::RecipeLine(strip_cmd_prefix(line.skip(1)))
    } else if starts_with(line, ".PHONY:"@) {
        TokenV::PhonyDecl(words(line.skip(".PHONY:"@.len() as int)))
    } else if starts_with(line, "include "@) {
        TokenV::IncludeDirective(trim(line.skip("include "@.len() as int)))
    } else if var_assign(line) is Some {
        var_assign(line)->0
    } else if rule(line) is Some {
        rule(line)->0
    } else {
        TokenV::Unrecognized(line)
    }
}

/// The tokens of a whole Makefile: one per line.
pub open spec fn tokenize_spec(input: Seq<char>) -> Seq<TokenV> {
    lines(input).map_values(|l: Seq<char>| classify(l))
}

// ---------------------------------------------------------------------------
// Implementation
// ---------------------------------------------------------------------------

/// Tokenize a Makefile source string: one token per physical line.
pub fn tokenize(input: &str) -> (r: Vec<Token>)
    ensures
        toks_view(r@) == tokenize_spec(input@),
{
    let chars = chars_of(input);
    let ls = split_lines(&chars);
    let mut out: Vec<Token> = Vec::new();
    let mut i: usize = 0;
    while i < ls.len()
        invariant
            i <= ls.len(),
            vv(ls@) == lines(input@),
            toks_view(out@) == tokenize_spec(input@).take(i as int),
        decreases ls.len() - i,
    {
        let t = classify_line(&ls[i]);
        let ghost prev = out@;
        out.push(t);
        assert(toks_view(out@) =~= toks_view(prev).push(t@));
        assert(vv(ls@)[i as int] == ls@[i as int]@);
        assert(tokenize_spec(input@).take(i + 1) =~= tokenize_spec(input@).take(i as int).push(
            classify(ls@[i as int]@),
        ));
        i += 1;
    }
    assert(tokenize_spec(input@).take(ls.len() as int) =~= tokenize_spec(input@));
    out
}

fn classify_line(raw: &Vec<char>) -> (t: Token)
    ensures
        t@ == classify(raw@),
{
    let line = trim_end_chars(raw);
    if line.len() == 0 {
        return Token::Blank;
    }
    if line[0] == '#' {
        let rest = slice_of(&line, 1, line.len());
        assert(rest@ == line@.skip(1));
        let body = trim_chars(&rest);
        return Token::Comment(string_of(&body));
    }
    if line[0] == '\t' {
        let rest = slice_of(&line, 1, line.len());
        assert(rest@ == line@.skip(1));
        let cmd = strip_cmd_prefix_chars(&rest);
        return Token::RecipeLine(string_of(&cmd));
    }
    let phony = chars_of(".PHONY:");
    if has_prefix(&line, &phony) {
        let rest = slice_of(&line, phony.len(), line.len());
        assert(rest@ == line@.skip(".PHONY:"@.len() as int));
        let ws = split_words(&rest);
        return Token::PhonyDecl(strings_of(&ws));
    }
    let incl = chars_of("include ");
    if has_prefix(&line, &incl) {
        let rest = slice_of(&line, incl.len(), line.len());
        assert(rest@ == line@.skip("include "@.len() as int));
        let path = trim_chars(&rest);
        return Token::IncludeDirective(string_of(&path));
    }
    if let Some(tok) = try_var_assign(&line) {
        return tok;
    }
    if let Some(tok) = try_rule(&line) {
        return tok;
    }
    Token::Unrecognized(string_of(&line))
}

/// Position of a bare `=` (not part of `:=`, `?=` or `+=`).
fn find_bare_eq(line: &Vec<char>) -> (r: Option<usize>)
    ensures
        match r {
            Some(i) => bare_eq_from(line@, 0) == i && i < line.len(),
            None => bare_eq_from(line@, 0) == -1,
        },
{
    let mut i: usize = 0;
    while i < line.len()
        invariant
            i <= line.len(),
            bare_eq_from(line@, 0) == bare_eq_from(line@, i as int),
        decreases line.len() - i,
    {
        if line[i] == '=' {
            let prev_bad = i > 0 && (line[i - 1] == ':' || line[i - 1] == '?' || line[i - 1]
                == '+');
            if !prev_bad {
                return Some(i);
            }
        }
        i += 1;
    }
    None
}

fn find_op(line: &Vec<char>, op: AssignOp) -> (r: Option<usize>)
    ensures
        match r {
            Some(i) => op_pos(line@, op) == i && i + op_text(op).len() <= line.len(),
            None => op_pos(line@, op) == -1,
        },
{
    match op {
        AssignOp::Simple => {
            let r = find_bare_eq(line);
            proof {
                reveal_strlit("=");
                if r is Some {
                    lemma_bare_eq_bounds(line@, 0);
                }
            }
            r
        },
        AssignOp::Conditional => {
            let p = chars_of("?=");
            find_sub(line, &p)
        },
        AssignOp::Immediate => {
            let p = chars_of(":=");
            find_sub(line, &p)
        },
        AssignOp::Append => {
            let p = chars_of("+=");
            find_sub(line, &p)
        },
    }
}

fn op_len(op: AssignOp) -> (n: usize)
    ensures
        n == op_text(op).len(),
{
    match op {
        AssignOp::Simple => chars_of("=").len(),
        AssignOp::Conditional => chars_of("?=").len(),
        AssignOp::Immediate => chars_of(":=").len(),
        AssignOp::Append => chars_of("+=").len(),
    }
}

fn assign_with_op(line: &Vec<char>, op: AssignOp) -> (r: Option<Token>)
    ensures
        match r {
            Some(t) => assign_with(line@, op) == Some(t@),
            None => assign_with(line@, op) is None,
        },
{
    match find_op(line, op) {
        None => None,
        Some(pos) => {
            let n = op_len(op);
            let head = slice_of(line, 0, pos);
            assert(head@ == line@.take(pos as int));
            let name = trim_chars(&head);
            if name.len() == 0 {
                return None;
            }
            let mut k: usize = 0;
            while k < name.len()
                invariant
                    k <= name.len(),
                    name@ == trim(line@.take(pos as int)),
                    op_pos(line@, op) == pos,
                    forall|m: int| 0 <= m < k ==> !bad_name_char(name@[m]),
                decreases name.len() - k,
            {
                let c = name[k];
                if c == '(' || c == ')' || c == '$' || c == ' ' || c == '\t' {
                    assert(bad_name_char(name@[k as int]));
                    return None;
                }
                k += 1;
            }
            let tail = slice_of(line, pos + n, line.len());
            assert(tail@ == line@.skip(pos + op_text(op).len()));
            let value = trim_chars(&tail);
            Some(Token::VarAssign { name: string_of(&name), op, value: string_of(&value) })
        },
    }
}

proof fn lemma_bare_eq_bounds(s: Seq<char>, i: int)
    requires
        bare_eq_from(s, i) >= 0,
    ensures
        i <= bare_eq_from(s, i) < s.len(),
    decreases s.len() - i,
{
    if i < 0 || i >= s.len() {
    } else if s[i] == '=' && !(i > 0 && (s[i - 1] == ':' || s[i - 1] == '?' || s[i - 1]
        == '+')) {
    } else {
        lemma_bare_eq_bounds(s, i + 1);
    }
}

/// Attempt to parse `line` as a variable assignment; operators are tried in
/// the order `?=`, `:=`, `+=`, `=`.
fn try_var_assign(line: &Vec<char>) -> (r: Option<Token>)
    ensures
        match r {
            Some(t) => var_assign(line@) == Some(t@),
            None => var_assign(line@) is None,
        },
{
    if let Some(t) = assign_with_op(line, AssignOp::Conditional) {
        return Some(t);
    }
    if let Some(t) = assign_with_op(line, AssignOp::Immediate) {
        return Some(t);
    }
    if let Some(t) = assign_with_op(line, AssignOp::Append) {
        return Some(t);
    }
    assign_with_op(line, AssignOp::Simple)
}

/// Attempt to parse `line` as a rule header (normal or pattern).
fn try_rule(line: &Vec<char>) -> (r: Option<Token>)
    ensures
        match r {
            Some(t) => rule(line@) == Some(t@),
            None => rule(line@) is None,
        },
{
    let colon = match find_char(line, ':') {
        Some(c) => c,
        None => return None,
    };
    let head = slice_of(line, 0, colon);
    assert(head@ == line@.take(colon as int));
    let target = trim_chars(&head);
    if target.len() == 0 {
        return None;
    }
    let rest = slice_of(line, colon + 1, line.len());
    assert(rest@ == line@.skip(colon + 1));
    let after = if rest.len() > 0 && rest[0] == ':' {
        let a = slice_of(&rest, 1, rest.len());
        assert(a@ == rest@.skip(1));
        a
    } else {
        rest
    };
    let deps = strings_of(&split_words(&after));
    if has_char_exec(&target, '%') {
        Some(Token::PatternRule { pattern: string_of(&target), deps })
    } else {
        Some(Token::RuleHeader { target: string_of(&target), deps })
    }
}

} // verus!
