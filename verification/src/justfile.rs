//! Reads a justfile into the intermediate Mustfile model.

use vstd::prelude::*;
use crate::map::assoc_insert;
use crate::translate::{MustfileOutput, OutputRecipe, OutputV, RecipeV};
use crate::text::{
    chars_of, contains, extend, find, find_char, find_sub, has_char, has_char_exec, has_prefix,
    has_prefix_str, lines, slice_of, split_lines, split_words, starts_with, string_of, sv, trim,
    trim_char, trim_char_chars, trim_chars, trim_start, trim_start_chars, vv, words,
};

verus! {

/// The reader's state between lines.
pub struct JustState {
    pub out: OutputV,
    pub cur: Option<RecipeV>,
    pub in_recipe: bool,
}

/// Appends a script line, separated from earlier ones by a newline.
pub open spec fn append_script(script: Seq<char>, line: Seq<char>) -> Seq<char> {
    if script.len() > 0 {
        script + "\n"@ + line
    } else {
        line
    }
}

/// The deps of a header: words not starting with `"` and without `=`, with
/// surrounding quotes removed, empty ones dropped.
pub open spec fn just_deps(ws: Seq<Seq<char>>) -> Seq<Seq<char>>
    decreases ws.len(),
{
    if ws.len() == 0 {
        seq![]
    } else {
        let r = just_deps(ws.drop_last());
        let w = ws.last();
        if !(w.len() > 0 && w[0] == '"') && !has_char(w, '=') && trim_char(w, '"').len() > 0 {
            r.push(trim_char(w, '"'))
        } else {
            r
        }
    }
}

/// A line that opens a recipe: not indented, non-empty, with a `:` but no `::=`.
pub open spec fn is_header(line: Seq<char>) -> bool {
    line.len() > 0 && line[0] != ' ' && line[0] != '\t' && has_char(line, ':') && !contains(
        line,
        "::="@,
    )
}

/// The model with the pending recipe, if any, added.
pub open spec fn flush(out: OutputV, cur: Option<RecipeV>) -> OutputV {
    match cur {
        Some(r) => OutputV { recipes: out.recipes.push(r), ..out },
        None => out,
    }
}

/// The state after one line.
pub open spec fn just_step(st: JustState, line: Seq<char>) -> JustState {
    if starts_with(trim_start(line), "#"@) {
        st
    } else if starts_with(line, "export "@) {
        let rest = line.skip("export "@.len() as int);
        let eq = find(rest, seq!['=']);
        if eq >= 0 {
            let key = trim(rest.take(eq));
            let value = trim_char(trim(rest.skip(eq + 1)), '"');
            if key.len() > 0 && value.len() > 0 {
                JustState { out: OutputV { env: assoc_insert(st.out.env, key, value), ..st.out }, ..st }
            } else {
                st
            }
        } else {
            st
        }
    } else if starts_with(line, "set "@) || starts_with(line, "alias "@) || starts_with(
        line,
        "mod "@,
    ) {
        JustState { out: OutputV { skipped: st.out.skipped.push(line), ..st.out }, ..st }
    } else if is_header(line) {
        let out = flush(st.out, st.cur);
        let idx = find(line, seq![':']);
        let tw = words(line.take(idx));
        let target = if tw.len() > 0 {
            tw[0]
        } else {
            seq![]
        };
        if target.len() == 0 || target == "default"@ {
            JustState {
                out: if target == "default"@ {
                    OutputV { skipped: out.skipped.push(line), ..out }
                } else {
                    out
                },
                cur: None,
                in_recipe: false,
            }
        } else {
            JustState {
                out,
                cur: Some(
                    RecipeV {
                        name: target,
                        deps: just_deps(words(line.skip(idx + 1))),
                        script: seq![],
                        phony: true,
                    },
                ),
                in_recipe: true,
            }
        }
    } else if st.in_recipe {
        match st.cur {
            Some(r) => {
                let sl = trim_start(line);
                if sl.len() > 0 {
                    JustState {
                        cur: Some(RecipeV { script: append_script(r.script, sl), ..r }),
                        ..st
                    }
                } else {
                    st
                }
            },
            None => st,
        }
    } else {
        let t = trim(line);
        if t.len() > 0 && !starts_with(t, "#"@) && !starts_with(t, "import"@) {
            JustState { out: OutputV { skipped: st.out.skipped.push(t), ..st.out }, ..st }
        } else {
            st
        }
    }
}

/// The state after the lines from `i` on.
pub open spec fn just_from(ls: Seq<Seq<char>>, i: int, st: JustState) -> JustState
    decreases ls.len() - i,
{
    if i < 0 || i >= ls.len() {
        st
    } else {
        just_from(ls, i + 1, just_step(st, ls[i]))
    }
}

/// The model of a justfile.
pub open spec fn justfile_spec(input: Seq<char>) -> OutputV {
    let st = just_from(
        lines(input),
        0,
        JustState { out: crate::translate::empty_output(), cur: None, in_recipe: false },
    );
    flush(st.out, st.cur)
}

/// The pending recipe while reading.
struct Pending {
    name: String,
    deps: Vec<String>,
    script: Vec<char>,
}

spec fn pending_view(p: Option<Pending>) -> Option<RecipeV> {
    match p {
        Some(p) => Some(RecipeV { name: p.name@, deps: sv(p.deps@), script: p.script@, phony: true }),
        None => None,
    }
}

fn header_deps(ws: &Vec<Vec<char>>) -> (r: Vec<String>)
    ensures
        sv(r@) == just_deps(vv(ws@)),
{
    let mut out: Vec<String> = Vec::new();
    let mut k: usize = 0;
    while k < ws.len()
        invariant
            k <= ws.len(),
            sv(out@) == just_deps(vv(ws@).take(k as int)),
        decreases ws.len() - k,
    {
        let ghost wv = vv(ws@);
        assert(wv.take(k + 1).drop_last() == wv.take(k as int));
        assert(wv.take(k + 1).last() == ws@[k as int]@);
        let w = &ws[k];
        let quoted = w.len() > 0 && w[0] == '"';
        if !quoted && !has_char_exec(w, '=') {
            let t = trim_char_chars(w, '"');
            if t.len() > 0 {
                let s = string_of(&t);
                let ghost prev = out@;
                out.push(s);
                proof {
                    crate::text::lemma_sv_push(prev, s);
                }
            }
        }
        k += 1;
    }
    assert(vv(ws@).take(ws.len() as int) == vv(ws@));
    out
}

/// Reads a justfile: `export` lines become global variables, `set`,
/// `alias`, `mod` and `default` lines are skipped, each unindented `name: deps`
/// line opens a phony recipe whose indented lines form its script, and other
/// top-level lines (besides comments and imports) are skipped.
pub fn parse_justfile(input: &str) -> (r: MustfileOutput)
    ensures
        r@ == justfile_spec(input@),
{
    let chars = chars_of(input);
    let ls = split_lines(&chars);
    let mut out = MustfileOutput::new();
    let mut cur: Option<Pending> = None;
    let mut in_recipe = false;
    let ghost lsv = vv(ls@);
    let ghost init = JustState { out: crate::translate::empty_output(), cur: None, in_recipe: false };
    let mut i: usize = 0;
    while i < ls.len()
        invariant
            i <= ls.len(),
            lsv == vv(ls@),
            lsv == lines(input@),
            just_from(lsv, 0, init) == just_from(
                lsv,
                i as int,
                JustState { out: out@, cur: pending_view(cur), in_recipe },
            ),
        decreases ls.len() - i,
    {
        let line = &ls[i];
        assert(lsv[i as int] == line@);
        let ghost st = JustState { out: out@, cur: pending_view(cur), in_recipe };
        let ghost next = just_step(st, line@);
        let ts = trim_start_chars(line);
        if has_prefix_str(&ts, "#") {
            i += 1;
            continue;
        }
        if has_prefix_str(line, "export ") {
            let n = chars_of("export ").len();
            let rest = slice_of(line, n, line.len());
            assert(rest@ == line@.skip("export "@.len() as int));
            if let Some(eq) = find_char(&rest, '=') {
                let key = trim_chars(&slice_of(&rest, 0, eq));
                assert(rest@.take(eq as int) == rest@.subrange(0, eq as int));
                let vt = trim_chars(&slice_of(&rest, eq + 1, rest.len()));
                assert(rest@.skip(eq + 1) == rest@.subrange(eq + 1, rest@.len() as int));
                let value = trim_char_chars(&vt, '"');
                if key.len() > 0 && value.len() > 0 {
                    out.env.insert(string_of(&key), string_of(&value));
                }
            }
            assert(JustState { out: out@, cur: pending_view(cur), in_recipe } == next);
            i += 1;
            continue;
        }
        if has_prefix_str(line, "set ") || has_prefix_str(line, "alias ") || has_prefix_str(
            line,
            "mod ",
        ) {
            out.push_skipped(string_of(line));
            i += 1;
            continue;
        }
        let colon = find_char(line, ':');
        let dcolon = find_sub(line, &chars_of("::="));
        if line.len() > 0 && line[0] != ' ' && line[0] != '\t' && colon.is_some() && dcolon.is_none() {
            let idx = colon.unwrap();
            if let Some(p) = cur.take() {
                let r = OutputRecipe {
                    name: p.name,
                    deps: p.deps,
                    script: string_of(&p.script),
                    phony: true,
                };
                out.push_recipe(r);
            }
            let tw = split_words(&slice_of(line, 0, idx));
            assert(line@.take(idx as int) == line@.subrange(0, idx as int));
            let target: Vec<char> = if tw.len() > 0 {
                assert(vv(tw@)[0] == tw@[0]@);
                slice_of(&tw[0], 0, tw[0].len())
            } else {
                Vec::new()
            };
            assert(target@ =~= (if vv(tw@).len() > 0 { vv(tw@)[0] } else { seq![] }));
            let is_default = crate::text::chars_eq(&target, &chars_of("default"));
            if target.len() == 0 || is_default {
                if is_default {
                    out.push_skipped(string_of(line));
                }
                in_recipe = false;
                assert(JustState { out: out@, cur: pending_view(cur), in_recipe } == next);
                i += 1;
                continue;
            }
            let ws = split_words(&slice_of(line, idx + 1, line.len()));
            assert(line@.skip(idx + 1) == line@.subrange(idx + 1, line@.len() as int));
            let deps = header_deps(&ws);
            in_recipe = true;
            cur = Some(Pending { name: string_of(&target), deps, script: Vec::new() });
            assert(pending_view(cur) =~= next.cur);
            i += 1;
            continue;
        }
        if in_recipe {
            if let Some(mut p) = cur.take() {
                let sl = trim_start_chars(line);
                let ghost old_script = p.script@;
                proof {
                    reveal_strlit("\n");
                }
                if sl.len() > 0 {
                    if p.script.len() > 0 {
                        p.script.push('\n');
                    }
                    extend(&mut p.script, &sl);
                    assert(p.script@ =~= append_script(old_script, sl@));
                }
                cur = Some(p);
                assert(pending_view(cur) =~= next.cur);
            }
        } else {
            let t = trim_chars(line);
            if t.len() > 0 && !has_prefix_str(&t, "#") && !has_prefix_str(&t, "import") {
                out.push_skipped(string_of(&t));
            }
        }
        i += 1;
    }
    if let Some(p) = cur.take() {
        let r = OutputRecipe { name: p.name, deps: p.deps, script: string_of(&p.script), phony: true };
        out.push_recipe(r);
    }
    out
}

/// A header word that names a dependency: it does not start with a quote,
/// holds no `=`, and is more than quotes.
pub open spec fn dep_word(w: Seq<char>) -> bool {
    !(w.len() > 0 && w[0] == '"') && !has_char(w, '=') && trim_char(w, '"').len() > 0
}

/// The header words that name dependencies, in order.
pub open spec fn dep_words(ws: Seq<Seq<char>>) -> Seq<Seq<char>> {
    ws.filter(|w: Seq<char>| dep_word(w))
}

/// Law: a header's deps are all of its dependency words, in order, each
/// with the quotes around it removed; there are as many deps as such words.
pub proof fn law_header_deps_are_dep_words(ws: Seq<Seq<char>>)
    ensures
        just_deps(ws).len() == dep_words(ws).len(),
        forall|k: int| 0 <= k < just_deps(ws).len() ==> #[trigger] just_deps(ws)[k] == trim_char(dep_words(ws)[k], '"'),
    decreases ws.len(),
{
    if ws.len() > 0 {
        let d = ws.drop_last();
        law_header_deps_are_dep_words(d);
        let w = ws.last();
        reveal(Seq::filter);
        assert(dep_words(ws) == if dep_word(w) {
            dep_words(d).push(w)
        } else {
            dep_words(d)
        });
        assert forall|k: int| 0 <= k < just_deps(ws).len() implies #[trigger] just_deps(ws)[k] == trim_char(dep_words(ws)[k], '"') by {
            if k < just_deps(d).len() {
                assert(just_deps(ws)[k] == just_deps(d)[k]);
                assert(dep_words(ws)[k] == dep_words(d)[k]);
            }
        }
    }
}

} // verus!
