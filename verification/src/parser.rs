//! Groups Makefile tokens into variables, rules and items kept for review.

use vstd::prelude::*;
use crate::lexer::{AssignOp, Token, TokenV, toks_view};
use crate::text::{
    chars_of, clone_strings, extend, join, join_chars, split_on, string_of, strings_of, sv,
    vec_contains, vv,
};

verus! {

/// The complete AST produced by parsing a sequence of lexer tokens.
#[derive(Debug, PartialEq, Clone)]
pub struct MakefileAst {
    pub nodes: Vec<AstNode>,
}

/// A single logical construct parsed from a Makefile.
#[derive(Debug, PartialEq, Clone)]
pub enum AstNode {
    /// A variable assignment.
    Variable { name: String, op: AssignOp, value: String },
    /// A build rule, possibly phony.
    Rule { target: String, deps: Vec<String>, recipe_lines: Vec<String>, phony: bool },
    /// A pattern rule that cannot be translated; preserved for reporting.
    PatternRuleTodo { original: String },
    /// An `include` directive that cannot be inlined; preserved for reporting.
    IncludeTodo { path: String },
    /// A line that did not match any recognised pattern; preserved verbatim.
    Unrecognized { original: String },
}

/// The mathematical content of an [`AstNode`].
pub enum AstNodeV {
    Variable { name: Seq<char>, op: AssignOp, value: Seq<char> },
    Rule { target: Seq<char>, deps: Seq<Seq<char>>, recipe_lines: Seq<Seq<char>>, phony: bool },
    PatternRuleTodo { original: Seq<char> },
    IncludeTodo { path: Seq<char> },
    Unrecognized { original: Seq<char> },
}

impl View for AstNode {
    type V = AstNodeV;

    open spec fn view(&self) -> AstNodeV {
        match self {
            AstNode::Variable { name, op, value } => AstNodeV::Variable {
                name: name@,
                op: *op,
                value: value@,
            },
            AstNode::Rule { target, deps, recipe_lines, phony } => AstNodeV::Rule {
                target: target@,
                deps: sv(deps@),
                recipe_lines: sv(recipe_lines@),
                phony: *phony,
            },
            AstNode::PatternRuleTodo { original } => AstNodeV::PatternRuleTodo {
                original: original@,
            },
            AstNode::IncludeTodo { path } => AstNodeV::IncludeTodo { path: path@ },
            AstNode::Unrecognized { original } => AstNodeV::Unrecognized { original: original@ },
        }
    }
}

/// The views of a node sequence.
pub open spec fn nodes_view(v: Seq<AstNode>) -> Seq<AstNodeV> {
    v.map_values(|n: AstNode| n@)
}

impl View for MakefileAst {
    type V = Seq<AstNodeV>;

    open spec fn view(&self) -> Seq<AstNodeV> {
        nodes_view(self.nodes@)
    }
}

// ---------------------------------------------------------------------------
// Specification
// ---------------------------------------------------------------------------

/// All names declared phony, in order of appearance.
pub open spec fn phony_list(toks: Seq<TokenV>) -> Seq<Seq<char>>
    decreases toks.len(),
{
    if toks.len() == 0 {
        seq![]
    } else {
        phony_list(toks.drop_last()) + match toks.last() {
            TokenV::PhonyDecl(v) => v,
            _ => seq![],
        }
    }
}

/// `t` continues a recipe: a recipe line, a blank line or a comment.
pub open spec fn continues_recipe(t: TokenV) -> bool {
    t is RecipeLine || t is Blank || t is Comment
}

/// Index of the first token at or after `i` that ends the recipe begun before `i`.
pub open spec fn recipe_end(toks: Seq<TokenV>, i: int) -> int
    decreases toks.len() - i,
{
    if i < 0 || i >= toks.len() || !continues_recipe(toks[i]) {
        i
    } else {
        recipe_end(toks, i + 1)
    }
}

/// The recipe lines from `i` up to the end of the recipe.
pub open spec fn recipe_lines_from(toks: Seq<TokenV>, i: int) -> Seq<Seq<char>>
    decreases toks.len() - i,
{
    if i < 0 || i >= toks.len() || !continues_recipe(toks[i]) {
        seq![]
    } else {
        match toks[i] {
            TokenV::RecipeLine(l) => seq![l] + recipe_lines_from(toks, i + 1),
            _ => recipe_lines_from(toks, i + 1),
        }
    }
}

pub proof fn lemma_recipe_end(toks: Seq<TokenV>, i: int)
    requires
        0 <= i,
    ensures
        i <= recipe_end(toks, i),
        recipe_end(toks, i) <= toks.len() || recipe_end(toks, i) == i,
    decreases toks.len() - i,
{
    if i >= toks.len() || !continues_recipe(toks[i]) {
    } else {
        lemma_recipe_end(toks, i + 1);
    }
}

/// The text kept for a pattern rule: the pattern, then `": "` and the deps.
pub open spec fn pattern_original(pattern: Seq<char>, deps: Seq<Seq<char>>) -> Seq<char> {
    if deps.len() == 0 {
        pattern
    } else {
        pattern + ": "@ + join(deps, " "@)
    }
}

/// The nodes for the tokens from `i` on.
pub open spec fn parse_from(toks: Seq<TokenV>, i: int) -> Seq<AstNodeV>
    decreases toks.len() - i,
{
    if i < 0 || i >= toks.len() {
        seq![]
    } else {
        match toks[i] {
            TokenV::VarAssign { name, op, value } => seq![
                AstNodeV::Variable { name, op, value },
            ] + parse_from(toks, i + 1),
            TokenV::RuleHeader { target, deps } => {
                proof {
                    lemma_recipe_end(toks, i + 1);
                }
                seq![
                    AstNodeV::Rule {
                        target,
                        deps,
                        recipe_lines: recipe_lines_from(toks, i + 1),
                        phony: phony_list(toks).contains(target),
                    },
                ] + parse_from(toks, recipe_end(toks, i + 1))
            },
            TokenV::PatternRule { pattern, deps } => seq![
                AstNodeV::PatternRuleTodo { original: pattern_original(pattern, deps) },
            ] + parse_from(toks, i + 1),
            TokenV::IncludeDirective(path) => seq![AstNodeV::IncludeTodo { path }] + parse_from(
                toks,
                i + 1,
            ),
            TokenV::Unrecognized(original) => seq![AstNodeV::Unrecognized { original }]
                + parse_from(toks, i + 1),
            _ => parse_from(toks, i + 1),
        }
    }
}

/// The AST of a token sequence.
pub open spec fn parse_spec(toks: Seq<TokenV>) -> Seq<AstNodeV> {
    parse_from(toks, 0)
}

// ---------------------------------------------------------------------------
// Implementation
// ---------------------------------------------------------------------------

fn collect_phony(tokens: &Vec<Token>) -> (r: Vec<String>)
    ensures
        sv(r@) == phony_list(toks_view(tokens@)),
{
    let mut out: Vec<String> = Vec::new();
    let mut i: usize = 0;
    while i < tokens.len()
        invariant
            i <= tokens.len(),
            sv(out@) == phony_list(toks_view(tokens@).take(i as int)),
        decreases tokens.len() - i,
    {
        let ghost tv = toks_view(tokens@);
        assert(tv.take(i + 1).drop_last() == tv.take(i as int));
        assert(tv.take(i + 1).last() == tokens@[i as int]@);
        match &tokens[i] {
            Token::PhonyDecl(names) => {
                let mut k: usize = 0;
                let ghost start = sv(out@);
                while k < names.len()
                    invariant
                        k <= names.len(),
                        sv(out@) == start + sv(names@).take(k as int),
                    decreases names.len() - k,
                {
                    let ghost prev = out@;
                    let st = names[k].clone();
                    out.push(st);
                    proof {
                        crate::text::lemma_sv_push(prev, st);
                    }
                    assert(sv(names@).take(k + 1) =~= sv(names@).take(k as int).push(
                        names@[k as int]@,
                    ));
                    k += 1;
                }
                assert(sv(names@).take(names.len() as int) == sv(names@));
            },
            _ => {
                assert(sv(out@) =~= sv(out@) + seq![]);
            },
        }
        i += 1;
    }
    assert(toks_view(tokens@).take(tokens.len() as int) == toks_view(tokens@));
    out
}

/// Parse a flat sequence of lexer tokens into a [`MakefileAst`].
///
/// Variables, rules (with the recipe lines that follow them; blank lines and
/// comments inside a recipe do not end it), pattern rules, includes and
/// unrecognised lines each become one node; comments, blank lines, `.PHONY`
/// declarations and stray recipe lines produce none.  A rule is phony when
/// any `.PHONY` declaration names its target.
pub fn parse(tokens: Vec<Token>) -> (ast: MakefileAst)
    ensures
        ast@ == parse_spec(toks_view(tokens@)),
{
    let ghost tv = toks_view(tokens@);
    let phony = collect_phony(&tokens);
    let mut nodes: Vec<AstNode> = Vec::new();
    let mut i: usize = 0;
    while i < tokens.len()
        invariant
            i <= tokens.len(),
            tv == toks_view(tokens@),
            sv(phony@) == phony_list(tv),
            nodes_view(nodes@) + parse_from(tv, i as int) == parse_spec(tv),
        decreases tokens.len() - i,
    {
        assert(tv[i as int] == tokens@[i as int]@);
        let ghost prev = nodes_view(nodes@);
        match &tokens[i] {
            Token::VarAssign { name, op, value } => {
                let n = AstNode::Variable { name: name.clone(), op: *op, value: value.clone() };
                nodes.push(n);
                assert(nodes_view(nodes@) =~= prev.push(n@));
                assert(prev + (seq![n@] + parse_from(tv, i + 1)) =~= prev.push(n@) + parse_from(
                    tv,
                    i + 1,
                ));
                i += 1;
            },
            Token::RuleHeader { target, deps } => {
                let target = target.clone();
                let deps = clone_strings(deps);
                let start = i + 1;
                i += 1;
                let mut recipe_lines: Vec<String> = Vec::new();
                proof {
                    lemma_recipe_end(tv, start as int);
                }
                while i < tokens.len()
                    invariant
                        start <= i <= tokens.len(),
                        tv == toks_view(tokens@),
                        recipe_end(tv, start as int) == recipe_end(tv, i as int),
                        sv(recipe_lines@) + recipe_lines_from(tv, i as int) == recipe_lines_from(
                            tv,
                            start as int,
                        ),
                    ensures
                        start <= i <= tokens.len(),
                        i < tokens.len() ==> !continues_recipe(tv[i as int]),
                        recipe_end(tv, start as int) == recipe_end(tv, i as int),
                        sv(recipe_lines@) + recipe_lines_from(tv, i as int) == recipe_lines_from(
                            tv,
                            start as int,
                        ),
                    decreases tokens.len() - i,
                {
                    assert(tv[i as int] == tokens@[i as int]@);
                    match &tokens[i] {
                        Token::RecipeLine(line) => {
                            let ghost p2 = recipe_lines@;
                            let l = line.clone();
                            recipe_lines.push(l);
                            proof {
                                crate::text::lemma_sv_push(p2, l);
                            }
                            assert(sv(p2) + (seq![l@] + recipe_lines_from(tv, i + 1)) =~= sv(
                                p2,
                            ).push(l@) + recipe_lines_from(tv, i + 1));
                            i += 1;
                        },
                        Token::Blank | Token::Comment(_) => {
                            i += 1;
                        },
                        _ => {
                            break ;
                        },
                    }
                }
                assert(recipe_lines_from(tv, i as int) == Seq::<Seq<char>>::empty());
                assert(sv(recipe_lines@) =~= recipe_lines_from(tv, start as int));
                assert(recipe_end(tv, i as int) == i);
                let is_phony = vec_contains(&phony, target.as_str());
                let n = AstNode::Rule { target, deps, recipe_lines, phony: is_phony };
                nodes.push(n);
                assert(nodes_view(nodes@) =~= prev.push(n@));
                assert(prev + (seq![n@] + parse_from(tv, i as int)) =~= prev.push(n@)
                    + parse_from(tv, i as int));
            },
            Token::PatternRule { pattern, deps } => {
                let original = if deps.len() == 0 {
                    pattern.clone()
                } else {
                    let mut v = chars_of(pattern.as_str());
                    let sep = chars_of(": ");
                    extend(&mut v, &sep);
                    let mut parts: Vec<Vec<char>> = Vec::new();
                    let mut k: usize = 0;
                    while k < deps.len()
                        invariant
                            k <= deps.len(),
                            vv(parts@) == sv(deps@).take(k as int),
                        decreases deps.len() - k,
                    {
                        let ghost p2 = parts@;
                        let c = chars_of(deps[k].as_str());
                        parts.push(c);
                        proof {
                            crate::text::lemma_vv_push(p2, c);
                        }
                        assert(sv(deps@).take(k + 1) =~= sv(deps@).take(k as int).push(
                            deps@[k as int]@,
                        ));
                        k += 1;
                    }
                    assert(sv(deps@).take(deps.len() as int) == sv(deps@));
                    let space = chars_of(" ");
                    let joined = join_chars(&parts, &space);
                    extend(&mut v, &joined);
                    string_of(&v)
                };
                let n = AstNode::PatternRuleTodo { original };
                nodes.push(n);
                assert(nodes_view(nodes@) =~= prev.push(n@));
                assert(prev + (seq![n@] + parse_from(tv, i + 1)) =~= prev.push(n@) + parse_from(
                    tv,
                    i + 1,
                ));
                i += 1;
            },
            Token::IncludeDirective(path) => {
                let n = AstNode::IncludeTodo { path: path.clone() };
                nodes.push(n);
                assert(nodes_view(nodes@) =~= prev.push(n@));
                assert(prev + (seq![n@] + parse_from(tv, i + 1)) =~= prev.push(n@) + parse_from(
                    tv,
                    i + 1,
                ));
                i += 1;
            },
            Token::Unrecognized(s) => {
                let n = AstNode::Unrecognized { original: s.clone() };
                nodes.push(n);
                assert(nodes_view(nodes@) =~= prev.push(n@));
                assert(prev + (seq![n@] + parse_from(tv, i + 1)) =~= prev.push(n@) + parse_from(
                    tv,
                    i + 1,
                ));
                i += 1;
            },
            _ => {
                i += 1;
            },
        }
    }
    assert(nodes_view(nodes@) =~= parse_spec(tv));
    MakefileAst { nodes }
}

/// Some `.PHONY` declaration among `toks` names `x`.
pub open spec fn declared_phony(toks: Seq<TokenV>, x: Seq<char>) -> bool {
    exists|j: int| 0 <= j < toks.len() && (#[trigger] toks[j] matches TokenV::PhonyDecl(v) && v.contains(x))
}

/// A name is collected as phony exactly when some declaration names it.
proof fn lemma_phony_list_contains(toks: Seq<TokenV>, x: Seq<char>)
    ensures
        phony_list(toks).contains(x) <==> declared_phony(toks, x),
    decreases toks.len(),
{
    if toks.len() > 0 {
        let d = toks.drop_last();
        lemma_phony_list_contains(d, x);
        let tail = match toks.last() {
            TokenV::PhonyDecl(v) => v,
            _ => seq![],
        };
        let l = phony_list(d) + tail;
        if l.contains(x) {
            let q = choose|q: int| 0 <= q < l.len() && l[q] == x;
            if q < phony_list(d).len() {
                assert(phony_list(d)[q] == x);
                let j = choose|j: int|
                    0 <= j < d.len() && (#[trigger] d[j] matches TokenV::PhonyDecl(v) && v.contains(x));
                assert(toks[j] == d[j]);
            } else {
                assert(tail[q - phony_list(d).len()] == x);
                assert(toks[toks.len() - 1] == toks.last());
            }
        }
        if declared_phony(toks, x) {
            let j = choose|j: int|
                0 <= j < toks.len() && (#[trigger] toks[j] matches TokenV::PhonyDecl(v) && v.contains(x));
            if j < toks.len() - 1 {
                assert(d[j] == toks[j]);
                assert(declared_phony(d, x));
                let q = choose|q: int| 0 <= q < phony_list(d).len() && phony_list(d)[q] == x;
                assert(l[q] == x);
            } else {
                assert(toks[j] == toks.last());
                let q = choose|q: int| 0 <= q < tail.len() && tail[q] == x;
                assert(l[phony_list(d).len() + q] == x);
            }
        }
    }
}

/// A rule node says whether its target is in `names`.
pub open spec fn rule_phony_matches(n: AstNodeV, names: Seq<Seq<char>>) -> bool {
    n matches AstNodeV::Rule { target, phony, .. } ==> (phony <==> names.contains(target))
}

/// Every rule node from `i` on is phony exactly when its target was collected.
proof fn lemma_parse_from_phony(toks: Seq<TokenV>, i: int)
    ensures
        forall|k: int|
            0 <= k < parse_from(toks, i).len() ==> rule_phony_matches(
                #[trigger] parse_from(toks, i)[k],
                phony_list(toks),
            ),
    decreases toks.len() - i,
{
    if 0 <= i < toks.len() {
        let rest = match toks[i] {
            TokenV::RuleHeader { .. } => {
                lemma_recipe_end(toks, i + 1);
                recipe_end(toks, i + 1)
            },
            _ => i + 1,
        };
        lemma_recipe_end(toks, i + 1);
        lemma_parse_from_phony(toks, rest);
        let p = parse_from(toks, i);
        let r = parse_from(toks, rest);
        assert forall|k: int| 0 <= k < p.len() implies rule_phony_matches(#[trigger] p[k], phony_list(toks)) by {
            if p.len() == r.len() + 1 {
                if k > 0 {
                    assert(p[k] == r[k - 1]);
                }
            } else {
                assert(p[k] == r[k]);
            }
        }
    }
}

/// Law: a rule is phony exactly when some `.PHONY` line, before or after
/// it and whichever of several it is, names its target.
pub proof fn law_rule_phony_iff_declared(toks: Seq<TokenV>)
    ensures
        forall|k: int|
            0 <= k < parse_spec(toks).len() ==> (#[trigger] parse_spec(toks)[k] matches AstNodeV::Rule {
                target,
                phony,
                ..
            } ==> (phony <==> declared_phony(toks, target))),
{
    lemma_parse_from_phony(toks, 0);
    assert forall|k: int| 0 <= k < parse_spec(toks).len() implies (#[trigger] parse_spec(toks)[k] matches AstNodeV::Rule {
        target,
        phony,
        ..
    } ==> (phony <==> declared_phony(toks, target))) by {
        assert(rule_phony_matches(parse_from(toks, 0)[k], phony_list(toks)));
        if let AstNodeV::Rule { target, .. } = parse_spec(toks)[k] {
            lemma_phony_list_contains(toks, target);
        }
    }
}

} // verus!
