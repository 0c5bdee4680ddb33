//! Reads a Taskfile (`tasks:` map of task definitions) into the intermediate
//! Mustfile model.

use vstd::prelude::*;
use crate::translate::{MustfileOutput, OutputRecipe, OutputV, RecipeV};
use crate::text::{
    chars_of, ends_with, extend, extend_str, find, find_char, has_char, has_prefix, has_prefix_str, is_ws,
    is_whitespace, join, join_chars, lines, slice_of, split, split_lines, split_on, starts_with,
    string_of, strings_of, strip_end_char, sv, trim, trim_char, trim_char_chars, trim_chars,
    trim_start, vv, lemma_split_from_absent, lemma_trim_char_absent, lemma_trim_clean,
};

verus! {

// ---------------------------------------------------------------------------
// Specification
// ---------------------------------------------------------------------------

/// Bytes that `c` takes in UTF-8.
pub open spec fn char_bytes(c: char) -> nat {
    if (c as u32) < 0x80 {
        1
    } else if (c as u32) < 0x800 {
        2
    } else if (c as u32) < 0x10000 {
        3
    } else {
        4
    }
}

/// The width in bytes of the leading whitespace of `s` (its indentation).
pub open spec fn indent(s: Seq<char>) -> nat
    decreases s.len(),
{
    if s.len() > 0 && is_ws(s[0]) {
        char_bytes(s[0]) + indent(s.drop_first())
    } else {
        0
    }
}

/// State of the task scanner.
#[verifier::ext_equal]
pub struct TaskScan {
    pub tasks: Seq<(Seq<char>, Seq<char>)>,
    pub in_tasks: bool,
    pub name: Seq<char>,
    pub body: Seq<Seq<char>>,
    pub task_indent: nat,
}

/// The scanner after one line.
pub open spec fn task_step(st: TaskScan, line: Seq<char>) -> TaskScan {
    let t = trim(line);
    if t.len() == 0 || starts_with(t, "#"@) {
        st
    } else if !st.in_tasks {
        if starts_with(line, "tasks:"@) {
            TaskScan { in_tasks: true, ..st }
        } else {
            st
        }
    } else {
        let ind = indent(line);
        let st1 = if st.name.len() > 0 && ind <= st.task_indent && !starts_with(t, "-"@) {
            TaskScan {
                tasks: if st.body.len() > 0 {
                    st.tasks.push((st.name, join(st.body, "\n"@)))
                } else {
                    st.tasks
                },
                name: seq![],
                body: seq![],
                ..st
            }
        } else {
            st
        };
        if ind == 2 && ends_with(t, ":"@) && !starts_with(t, "-"@) {
            TaskScan { name: strip_end_char(t, ':'), task_indent: ind, body: seq![], ..st1 }
        } else if st1.name.len() > 0 {
            TaskScan { body: st1.body.push(line), ..st1 }
        } else {
            st1
        }
    }
}

pub open spec fn tasks_from(ls: Seq<Seq<char>>, i: int, st: TaskScan) -> TaskScan
    decreases ls.len() - i,
{
    if i < 0 || i >= ls.len() {
        st
    } else {
        tasks_from(ls, i + 1, task_step(st, ls[i]))
    }
}

/// The tasks of a Taskfile: each name under `tasks:` with the text of its body.
pub open spec fn tasks_spec(input: Seq<char>) -> Seq<(Seq<char>, Seq<char>)> {
    let st = tasks_from(
        lines(input),
        0,
        TaskScan { tasks: seq![], in_tasks: false, name: seq![], body: seq![], task_indent: 0 },
    );
    if st.name.len() > 0 && st.body.len() > 0 {
        st.tasks.push((st.name, join(st.body, "\n"@)))
    } else {
        st.tasks
    }
}

/// State of the field scanner.
#[verifier::ext_equal]
pub struct FieldScan {
    pub fields: Seq<(Seq<char>, Seq<char>)>,
    pub key: Seq<char>,
    pub value: Seq<Seq<char>>,
    pub base: nat,
    pub first: bool,
}

pub open spec fn field_step(st: FieldScan, line: Seq<char>) -> FieldScan {
    let t = trim(line);
    if t.len() == 0 {
        st
    } else {
        let ind = indent(line);
        let base = if st.first {
            ind
        } else {
            st.base
        };
        let st0 = FieldScan { base, first: false, ..st };
        if ind == base {
            let fields = if st0.key.len() > 0 {
                st0.fields.push((st0.key, join(st0.value, "\n"@)))
            } else {
                st0.fields
            };
            let c = find(t, seq![':']);
            if c >= 0 {
                let rest = trim(t.skip(c + 1));
                FieldScan {
                    fields,
                    key: t.take(c),
                    value: if rest.len() == 0 {
                        seq![]
                    } else {
                        seq![rest]
                    },
                    ..st0
                }
            } else {
                FieldScan { fields, ..st0 }
            }
        } else if st0.key.len() > 0 {
            FieldScan { value: st0.value.push(t), ..st0 }
        } else {
            st0
        }
    }
}

pub open spec fn fields_from(ls: Seq<Seq<char>>, i: int, st: FieldScan) -> FieldScan
    decreases ls.len() - i,
{
    if i < 0 || i >= ls.len() {
        st
    } else {
        fields_from(ls, i + 1, field_step(st, ls[i]))
    }
}

/// The `key: value` fields of a task body, at the indentation of its first line.
pub open spec fn fields_spec(content: Seq<char>) -> Seq<(Seq<char>, Seq<char>)> {
    let st = fields_from(
        lines(content),
        0,
        FieldScan { fields: seq![], key: seq![], value: seq![], base: 0, first: true },
    );
    if st.key.len() > 0 {
        st.fields.push((st.key, join(st.value, "\n"@)))
    } else {
        st.fields
    }
}

/// The `- item` entries among the lines, quotes removed, empty ones dropped.
pub open spec fn dash_items(ls: Seq<Seq<char>>) -> Seq<Seq<char>>
    decreases ls.len(),
{
    if ls.len() == 0 {
        seq![]
    } else {
        let r = dash_items(ls.drop_last());
        let t = trim(ls.last());
        if starts_with(t, "- "@) && trim_char(trim(t.skip(2)), '"').len() > 0 {
            r.push(trim_char(trim(t.skip(2)), '"'))
        } else {
            r
        }
    }
}

/// The comma-separated items, trimmed and unquoted, empty ones dropped.
pub open spec fn comma_items(parts: Seq<Seq<char>>) -> Seq<Seq<char>>
    decreases parts.len(),
{
    if parts.len() == 0 {
        seq![]
    } else {
        let r = comma_items(parts.drop_last());
        let it = trim_char(trim(parts.last()), '"');
        if it.len() > 0 {
            r.push(it)
        } else {
            r
        }
    }
}

/// A list value: `[a, "b"]` inline, or one `- item` per line.
pub open spec fn string_list_spec(value: Seq<char>) -> Seq<Seq<char>> {
    let t = trim(value);
    if t.len() >= 2 && t[0] == '[' && t[t.len() - 1] == ']' {
        comma_items(split(t.subrange(1, t.len() - 1), ','))
    } else {
        dash_items(lines(value))
    }
}

/// A task's recipe: its last `deps` and `cmds` fields give deps and script.
pub open spec fn task_recipe_from(
    fs: Seq<(Seq<char>, Seq<char>)>,
    i: int,
    deps: Seq<Seq<char>>,
    cmds: Seq<Seq<char>>,
) -> (Seq<Seq<char>>, Seq<Seq<char>>)
    decreases fs.len() - i,
{
    if i < 0 || i >= fs.len() {
        (deps, cmds)
    } else if fs[i].0 == "deps"@ {
        task_recipe_from(fs, i + 1, string_list_spec(fs[i].1), cmds)
    } else if fs[i].0 == "cmds"@ {
        task_recipe_from(fs, i + 1, deps, dash_items(lines(fs[i].1)))
    } else {
        task_recipe_from(fs, i + 1, deps, cmds)
    }
}

pub open spec fn task_recipe(name: Seq<char>, content: Seq<char>) -> RecipeV {
    let dc = task_recipe_from(fields_spec(content), 0, seq![], seq![]);
    RecipeV { name, deps: dc.0, script: join(dc.1, "\n"@), phony: true }
}

/// The value after `name:` on the first line that starts with it (trimmed).
pub open spec fn field_from(ls: Seq<Seq<char>>, name: Seq<char>, i: int) -> Option<Seq<char>>
    decreases ls.len() - i,
{
    if i < 0 || i >= ls.len() {
        None
    } else if starts_with(trim(ls[i]), name + ":"@) {
        Some(trim(trim(ls[i]).skip(name.len() + 1int)))
    } else {
        field_from(ls, name, i + 1)
    }
}

/// The model of a Taskfile.
pub open spec fn taskfile_spec(input: Seq<char>) -> OutputV {
    let ts = tasks_spec(input);
    let recipes = ts.map_values(|t: (Seq<char>, Seq<char>)| task_recipe(t.0, t.1));
    let skipped = match field_from(lines(input), "version"@, 0) {
        Some(v) => seq!["version: "@ + v],
        None => seq![],
    };
    OutputV { env: seq![], recipes, todos: seq![], skipped }
}

// ---------------------------------------------------------------------------
// Implementation
// ---------------------------------------------------------------------------

fn indent_of(s: &[char]) -> (n: u128)
    ensures
        n == indent(s@),
{
    let mut n: u128 = 0;
    // Count from the end of the leading whitespace run backwards.
    let mut j: usize = 0;
    while j < s.len() && is_whitespace(s[j])
        invariant
            j <= s.len(),
            forall|m: int| 0 <= m < j ==> is_ws(s@[m]),
        decreases s.len() - j,
    {
        j += 1;
    }
    proof {
        lemma_indent_prefix(s@, j as int);
    }
    let mut k = j;
    while k > 0
        invariant
            k <= j <= s.len(),
            forall|m: int| 0 <= m < j ==> is_ws(s@[m]),
            j == s.len() || !is_ws(s@[j as int]),
            n == indent_span(s@, k as int, j as int),
            n <= 4 * (j - k),
        decreases k,
    {
        let c = s[k - 1];
        let w: u128 = if (c as u32) < 0x80 {
            1
        } else if (c as u32) < 0x800 {
            2
        } else if (c as u32) < 0x10000 {
            3
        } else {
            4
        };
        assert(j <= s.len());
        n = n + w;
        k -= 1;
    }
    n
}

/// Bytes of `s[k..j]`.
pub open spec fn indent_span(s: Seq<char>, k: int, j: int) -> nat
    decreases j - k,
{
    if k < 0 || k >= j || j > s.len() {
        0
    } else {
        char_bytes(s[k]) + indent_span(s, k + 1, j)
    }
}

proof fn lemma_indent_prefix(s: Seq<char>, j: int)
    requires
        0 <= j <= s.len(),
        forall|m: int| 0 <= m < j ==> is_ws(s[m]),
        j == s.len() || !is_ws(s[j]),
    ensures
        indent(s) == indent_span(s, 0, j),
    decreases j,
{
    if j == 0 {
    } else {
        let t = s.drop_first();
        assert forall|m: int| 0 <= m < j - 1 implies is_ws(t[m]) by {
            assert(t[m] == s[m + 1]);
        }
        lemma_indent_prefix(t, j - 1);
        lemma_span_shift(s, 1, j);
    }
}

proof fn lemma_span_shift(s: Seq<char>, k: int, j: int)
    requires
        1 <= k <= j <= s.len(),
    ensures
        indent_span(s, k, j) == indent_span(s.drop_first(), k - 1, j - 1),
    decreases j - k,
{
    if k < j {
        lemma_span_shift(s, k + 1, j);
    }
}

fn join_lines_chars(v: &Vec<Vec<char>>) -> (r: Vec<char>)
    ensures
        r@ == join(vv(v@), "\n"@),
{
    let nl = chars_of("\n");
    join_chars(v, &nl)
}

/// The tasks under `tasks:`, each with the text of its body.
pub fn extract_tasks(input: &str) -> (r: Vec<(String, String)>)
    ensures
        r@.len() == tasks_spec(input@).len(),
        forall|k: int|
            0 <= k < r@.len() ==> (#[trigger] r@[k].0@, r@[k].1@) == tasks_spec(input@)[k],
{
    let ls = split_lines(&chars_of(input));
    let ghost lsv = vv(ls@);
    let mut tasks: Vec<(String, String)> = Vec::new();
    let ghost mut tv: Seq<(Seq<char>, Seq<char>)> = seq![];
    let mut in_tasks = false;
    let mut name: Vec<char> = Vec::new();
    let mut body: Vec<Vec<char>> = Vec::new();
    let mut task_indent: u128 = 0;
    let ghost init = TaskScan {
        tasks: seq![],
        in_tasks: false,
        name: seq![],
        body: seq![],
        task_indent: 0,
    };
    let mut i: usize = 0;
    assert(vv(body@) =~= Seq::<Seq<char>>::empty());
    assert(name@ =~= Seq::<char>::empty());
    while i < ls.len()
        invariant
            i <= ls.len(),
            lsv == vv(ls@),
            lsv == lines(input@),
            tv.len() == tasks@.len(),
            forall|k: int| 0 <= k < tv.len() ==> (#[trigger] tasks@[k].0@, tasks@[k].1@) == tv[k],
            tasks_from(lsv, 0, init) == tasks_from(
                lsv,
                i as int,
                TaskScan {
                    tasks: tv,
                    in_tasks,
                    name: name@,
                    body: vv(body@),
                    task_indent: task_indent as nat,
                },
            ),
        decreases ls.len() - i,
    {
        let line = &ls[i];
        assert(lsv[i as int] == line@);
        let ghost st = TaskScan {
            tasks: tv,
            in_tasks,
            name: name@,
            body: vv(body@),
            task_indent: task_indent as nat,
        };
        let ghost nx = task_step(st, line@);
        let t = trim_chars(line);
        if t.len() == 0 || has_prefix_str(&t, "#") {
            i += 1;
            continue;
        }
        if !in_tasks {
            if has_prefix_str(line, "tasks:") {
                in_tasks = true;
            }
            i += 1;
            continue;
        }
        let ind = indent_of(line);
        let dash = has_prefix_str(&t, "-");
        if name.len() > 0 && ind <= task_indent && !dash {
            if body.len() > 0 {
                let text = join_lines_chars(&body);
                let ghost prev = tasks@;
                tasks.push((string_of(&name), string_of(&text)));
                proof {
                    tv = tv.push((name@, text@));
                }
                assert forall|k: int| 0 <= k < tv.len() implies (
                #[trigger] tasks@[k].0@, tasks@[k].1@) == tv[k] by {
                    if k < tv.len() - 1 {
                        assert(tasks@[k] == prev[k]);
                    }
                }
            }
            name = Vec::new();
            body = Vec::new();
            assert(vv(body@) =~= Seq::<Seq<char>>::empty());
        }
        let colon_end = crate::text::has_suffix_str(&t, ":");
        if ind == 2 && colon_end && !dash {
            let mut e = t.len();
            assert(t@.take(e as int) == t@);
            while e > 0 && t[e - 1] == ':'
                invariant
                    e <= t.len(),
                    strip_end_char(t@, ':') == strip_end_char(t@.take(e as int), ':'),
                decreases e,
            {
                assert(t@.take(e as int).drop_last() == t@.take(e - 1));
                e -= 1;
            }
            name = slice_of(&t, 0, e);
            task_indent = ind;
            body = Vec::new();
            assert(vv(body@) =~= Seq::<Seq<char>>::empty());
        } else if name.len() > 0 {
            let ghost prev = body@;
            let l = slice_of(line, 0, line.len());
            body.push(l);
            proof {
                crate::text::lemma_vv_push(prev, l);
            }
            assert(l@ =~= line@);
        }
        assert(TaskScan {
            tasks: tv,
            in_tasks,
            name: name@,
            body: vv(body@),
            task_indent: task_indent as nat,
        } =~= nx);
        i += 1;
    }
    if name.len() > 0 && body.len() > 0 {
        let text = join_lines_chars(&body);
        let ghost prev = tasks@;
        tasks.push((string_of(&name), string_of(&text)));
        proof {
            tv = tv.push((name@, text@));
        }
        assert forall|k: int| 0 <= k < tv.len() implies (#[trigger] tasks@[k].0@, tasks@[k].1@)
            == tv[k] by {
            if k < tv.len() - 1 {
                assert(tasks@[k] == prev[k]);
            }
        }
    }
    tasks
}

/// The `key: value` fields of a task body.
pub fn extract_fields(content: &str) -> (r: Vec<(String, String)>)
    ensures
        r@.len() == fields_spec(content@).len(),
        forall|k: int|
            0 <= k < r@.len() ==> (#[trigger] r@[k].0@, r@[k].1@) == fields_spec(content@)[k],
{
    let ls = split_lines(&chars_of(content));
    let ghost lsv = vv(ls@);
    let mut fields: Vec<(String, String)> = Vec::new();
    let ghost mut fv: Seq<(Seq<char>, Seq<char>)> = seq![];
    let mut key: Vec<char> = Vec::new();
    let mut value: Vec<Vec<char>> = Vec::new();
    let mut base: u128 = 0;
    let mut first = true;
    let ghost init = FieldScan { fields: seq![], key: seq![], value: seq![], base: 0, first: true };
    let mut i: usize = 0;
    assert(vv(value@) =~= Seq::<Seq<char>>::empty());
    assert(key@ =~= Seq::<char>::empty());
    while i < ls.len()
        invariant
            i <= ls.len(),
            lsv == vv(ls@),
            lsv == lines(content@),
            fv.len() == fields@.len(),
            forall|k: int|
                0 <= k < fv.len() ==> (#[trigger] fields@[k].0@, fields@[k].1@) == fv[k],
            fields_from(lsv, 0, init) == fields_from(
                lsv,
                i as int,
                FieldScan { fields: fv, key: key@, value: vv(value@), base: base as nat, first },
            ),
        decreases ls.len() - i,
    {
        let line = &ls[i];
        assert(lsv[i as int] == line@);
        let t = trim_chars(line);
        if t.len() == 0 {
            i += 1;
            continue;
        }
        let ind = indent_of(line);
        if first {
            base = ind;
            first = false;
        }
        if ind == base {
            if key.len() > 0 {
                let text = join_lines_chars(&value);
                let ghost prev = fields@;
                fields.push((string_of(&key), string_of(&text)));
                proof {
                    fv = fv.push((key@, text@));
                }
                assert forall|k: int| 0 <= k < fv.len() implies (
                #[trigger] fields@[k].0@, fields@[k].1@) == fv[k] by {
                    if k < fv.len() - 1 {
                        assert(fields@[k] == prev[k]);
                    }
                }
            }
            if let Some(c) = find_char(&t, ':') {
                key = slice_of(&t, 0, c);
                assert(t@.take(c as int) == t@.subrange(0, c as int));
                let rest = trim_chars(&slice_of(&t, c + 1, t.len()));
                assert(t@.skip(c + 1) == t@.subrange(c + 1, t@.len() as int));
                value = Vec::new();
                if rest.len() > 0 {
                    value.push(rest);
                }
                assert(vv(value@) =~= (if rest@.len() == 0 {
                    Seq::<Seq<char>>::empty()
                } else {
                    seq![rest@]
                }));
            }
        } else if key.len() > 0 {
            let ghost prev = value@;
            value.push(t);
            proof {
                crate::text::lemma_vv_push(prev, t);
            }
        }
        i += 1;
    }
    if key.len() > 0 {
        let text = join_lines_chars(&value);
        let ghost prev = fields@;
        fields.push((string_of(&key), string_of(&text)));
        proof {
            fv = fv.push((key@, text@));
        }
        assert forall|k: int| 0 <= k < fv.len() implies (#[trigger] fields@[k].0@, fields@[k].1@)
            == fv[k] by {
            if k < fv.len() - 1 {
                assert(fields@[k] == prev[k]);
            }
        }
    }
    fields
}

fn dash_items_exec(ls: &Vec<Vec<char>>) -> (r: Vec<String>)
    ensures
        sv(r@) == dash_items(vv(ls@)),
{
    let mut out: Vec<String> = Vec::new();
    let mut k: usize = 0;
    while k < ls.len()
        invariant
            k <= ls.len(),
            sv(out@) == dash_items(vv(ls@).take(k as int)),
        decreases ls.len() - k,
    {
        let ghost lv = vv(ls@);
        assert(lv.take(k + 1).drop_last() == lv.take(k as int));
        assert(lv.take(k + 1).last() == ls@[k as int]@);
        let t = trim_chars(&ls[k]);
        if has_prefix_str(&t, "- ") {
            let n = chars_of("- ").len();
            proof {
                reveal_strlit("- ");
            }
            let rest = slice_of(&t, n, t.len());
            assert(rest@ == t@.skip(2));
            let item = trim_char_chars(&trim_chars(&rest), '"');
            if item.len() > 0 {
                let s = string_of(&item);
                let ghost prev = out@;
                out.push(s);
                proof {
                    crate::text::lemma_sv_push(prev, s);
                }
            }
        }
        k += 1;
    }
    assert(vv(ls@).take(ls.len() as int) == vv(ls@));
    out
}

/// A list value: `[a, "b"]` inline, or one `- item` per line.
pub fn parse_string_list(value: &str) -> (r: Vec<String>)
    ensures
        sv(r@) == string_list_spec(value@),
{
    let vc = chars_of(value);
    let t = trim_chars(&vc);
    if t.len() >= 2 && t[0] == '[' && t[t.len() - 1] == ']' {
        let inner = slice_of(&t, 1, t.len() - 1);
        let parts = split_on(&inner, ',');
        let mut out: Vec<String> = Vec::new();
        let mut k: usize = 0;
        while k < parts.len()
            invariant
                k <= parts.len(),
                sv(out@) == comma_items(vv(parts@).take(k as int)),
            decreases parts.len() - k,
        {
            let ghost pv = vv(parts@);
            assert(pv.take(k + 1).drop_last() == pv.take(k as int));
            assert(pv.take(k + 1).last() == parts@[k as int]@);
            let it = trim_char_chars(&trim_chars(&parts[k]), '"');
            if it.len() > 0 {
                let s = string_of(&it);
                let ghost prev = out@;
                out.push(s);
                proof {
                    crate::text::lemma_sv_push(prev, s);
                }
            }
            k += 1;
        }
        assert(vv(parts@).take(parts.len() as int) == vv(parts@));
        out
    } else {
        dash_items_exec(&split_lines(&vc))
    }
}

/// The commands of a `cmds` value: one `- cmd` per line.
pub fn parse_cmd_lines(value: &str) -> (r: Vec<String>)
    ensures
        sv(r@) == dash_items(lines(value@)),
{
    dash_items_exec(&split_lines(&chars_of(value)))
}

/// The value after `field_name:` on the first line that starts with it.
pub fn extract_field(input: &str, field_name: &str) -> (r: Option<String>)
    ensures
        match r {
            Some(v) => field_from(lines(input@), field_name@, 0) == Some(v@),
            None => field_from(lines(input@), field_name@, 0) is None,
        },
{
    let ls = split_lines(&chars_of(input));
    let mut pat = chars_of(field_name);
    extend_str(&mut pat, ":");
    proof {
        reveal_strlit(":");
    }
    let mut i: usize = 0;
    while i < ls.len()
        invariant
            i <= ls.len(),
            vv(ls@) == lines(input@),
            pat@ == field_name@ + ":"@,
            pat@.len() == field_name@.len() + 1,
            field_from(lines(input@), field_name@, 0) == field_from(
                lines(input@),
                field_name@,
                i as int,
            ),
        decreases ls.len() - i,
    {
        assert(vv(ls@)[i as int] == ls@[i as int]@);
        let t = trim_chars(&ls[i]);
        if has_prefix(&t, &pat) {
            let rest = slice_of(&t, pat.len(), t.len());
            assert(rest@ == t@.skip(field_name@.len() + 1int));
            return Some(string_of(&trim_chars(&rest)));
        }
        i += 1;
    }
    None
}

fn task_recipe_exec(name: &String, content: &String) -> (r: OutputRecipe)
    ensures
        r@ == task_recipe(name@, content@),
{
    let fields = extract_fields(content.as_str());
    let ghost fs = fields_spec(content@);
    let mut deps: Vec<String> = Vec::new();
    let mut cmds: Vec<String> = Vec::new();
    let mut k: usize = 0;
    assert(sv(deps@) =~= Seq::<Seq<char>>::empty());
    assert(sv(cmds@) =~= Seq::<Seq<char>>::empty());
    while k < fields.len()
        invariant
            k <= fields.len(),
            fields@.len() == fs.len(),
            forall|m: int| 0 <= m < fs.len() ==> (#[trigger] fields@[m].0@, fields@[m].1@) == fs[m],
            task_recipe_from(fs, 0, seq![], seq![]) == task_recipe_from(
                fs,
                k as int,
                sv(deps@),
                sv(cmds@),
            ),
        decreases fields.len() - k,
    {
        let f = &fields[k];
        assert((f.0@, f.1@) == fs[k as int]);
        if crate::text::str_eq(f.0.as_str(), "deps") {
            deps = parse_string_list(f.1.as_str());
        } else if crate::text::str_eq(f.0.as_str(), "cmds") {
            cmds = parse_cmd_lines(f.1.as_str());
        }
        k += 1;
    }
    let script = crate::translate::join_lines(&cmds);
    OutputRecipe { name: name.clone(), deps, script, phony: true }
}

/// Reads a Taskfile: each task under `tasks:` becomes a phony recipe whose
/// deps come from its `deps` field and whose script is its `cmds` joined by
/// newlines; a `version:` line is recorded as skipped.
pub fn parse_taskfile(input: &str) -> (r: MustfileOutput)
    ensures
        r@ == taskfile_spec(input@),
{
    let mut output = MustfileOutput::new();
    let tasks = extract_tasks(input);
    let ghost ts = tasks_spec(input@);
    let mut i: usize = 0;
    assert(ts.map_values(|t: (Seq<char>, Seq<char>)| task_recipe(t.0, t.1)).take(0) =~= Seq::<
        RecipeV,
    >::empty());
    while i < tasks.len()
        invariant
            i <= tasks.len(),
            tasks@.len() == ts.len(),
            forall|m: int| 0 <= m < ts.len() ==> (#[trigger] tasks@[m].0@, tasks@[m].1@) == ts[m],
            output@ == (OutputV {
                env: seq![],
                recipes: ts.map_values(|t: (Seq<char>, Seq<char>)| task_recipe(t.0, t.1)).take(
                    i as int,
                ),
                todos: seq![],
                skipped: seq![],
            }),
        decreases tasks.len() - i,
    {
        let t = &tasks[i];
        assert((t.0@, t.1@) == ts[i as int]);
        let r = task_recipe_exec(&t.0, &t.1);
        output.push_recipe(r);
        assert(output@.recipes =~= ts.map_values(|t: (Seq<char>, Seq<char>)| task_recipe(t.0, t.1)).take(
            i + 1,
        ));
        i += 1;
    }
    assert(ts.map_values(|t: (Seq<char>, Seq<char>)| task_recipe(t.0, t.1)).take(tasks.len() as int)
        =~= ts.map_values(|t: (Seq<char>, Seq<char>)| task_recipe(t.0, t.1)));
    if let Some(version) = extract_field(input, "version") {
        let mut v = chars_of("version: ");
        extend(&mut v, &chars_of(version.as_str()));
        output.push_skipped(string_of(&v));
    }
    assert(output@.skipped =~= taskfile_spec(input@).skipped);
    output
}

/// A list item as it should come out: not empty, neither starting nor
/// ending with whitespace, and holding no comma.
pub open spec fn bare_item(it: Seq<char>) -> bool {
    &&& it.len() > 0
    &&& !is_ws(it[0])
    &&& !is_ws(it.last())
    &&& !has_char(it, ',')
}

/// Items taken from quote-free, comma-free pieces are bare.
proof fn lemma_comma_items_bare(parts: Seq<Seq<char>>)
    requires
        forall|k: int| 0 <= k < parts.len() ==> !has_char(#[trigger] parts[k], '"') && !has_char(parts[k], ','),
    ensures
        forall|k: int| 0 <= k < comma_items(parts).len() ==> bare_item(#[trigger] comma_items(parts)[k]),
    decreases parts.len(),
{
    if parts.len() > 0 {
        let d = parts.drop_last();
        assert forall|k: int| 0 <= k < d.len() implies !has_char(#[trigger] d[k], '"') && !has_char(d[k], ',') by {
            assert(d[k] == parts[k]);
        }
        lemma_comma_items_bare(d);
        let p = parts.last();
        assert(p == parts[parts.len() - 1]);
        lemma_trim_clean(p, '"');
        lemma_trim_clean(p, ',');
        lemma_trim_char_absent(trim(p), '"');
        let r = comma_items(d);
        let it = trim_char(trim(p), '"');
        assert forall|k: int| 0 <= k < comma_items(parts).len() implies bare_item(#[trigger] comma_items(parts)[k]) by {
            if k < r.len() {
                assert(comma_items(parts)[k] == r[k]);
            } else {
                assert(comma_items(parts)[k] == it);
            }
        }
    }
}

/// Law: the items of an inline list `[a, b, ...]` are trimmed of the
/// whitespace around them: where the list holds no quotes, every item is
/// non-empty, neither starts nor ends with whitespace, and holds no comma.
pub proof fn law_inline_list_items_bare(value: Seq<char>)
    requires
        trim(value).len() >= 2,
        trim(value)[0] == '[',
        trim(value).last() == ']',
        !has_char(value, '"'),
    ensures
        forall|k: int| 0 <= k < string_list_spec(value).len() ==> bare_item(#[trigger] string_list_spec(value)[k]),
{
    let t = trim(value);
    lemma_trim_clean(value, '"');
    let inner = t.subrange(1, t.len() - 1);
    assert(!has_char(inner, '"')) by {
        if has_char(inner, '"') {
            let q = choose|q: int| 0 <= q < inner.len() && inner[q] == '"';
            assert(t[q + 1] == '"');
        }
    }
    let e = Seq::<char>::empty();
    lemma_split_from_absent(inner, ',', 0, e, '"');
    lemma_split_from_absent(inner, ',', 0, e, ',');
    lemma_comma_items_bare(split(inner, ','));
}

} // verus!
