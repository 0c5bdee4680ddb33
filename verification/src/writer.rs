//! Renders the intermediate Mustfile model as TOML text.

use vstd::prelude::*;
use crate::translate::{MustfileOutput, OutputV, RecipeV, recipes_view};
use crate::text::{
    chars_of, escape, escape_chars, occurs_at, extend, extend_str, has_prefix_str, join, join_chars,
    slice_of, string_of, sv, vv,
};

verus! {

// ---------------------------------------------------------------------------
// Specification
// ---------------------------------------------------------------------------

/// A character allowed in a bare TOML key.
pub open spec fn bare_key_char(c: char) -> bool {
    ('a' <= c && c <= 'z') || ('A' <= c && c <= 'Z') || ('0' <= c && c <= '9') || c == '-'
        || c == '_'
}

/// A key written bare when it is non-empty and made of `[A-Za-z0-9_-]`,
/// quoted and escaped otherwise.
pub open spec fn toml_key_spec(k: Seq<char>) -> Seq<char> {
    if k.len() == 0 || exists|i: int| 0 <= i < k.len() && !bare_key_char(k[i]) {
        "\""@ + escape(k) + "\""@
    } else {
        k
    }
}

/// A TOML basic string.
pub open spec fn quoted(s: Seq<char>) -> Seq<char> {
    "\""@ + escape(s) + "\""@
}

/// `s` with every `"""` escaped, scanning left to right.
pub open spec fn escape_triple(s: Seq<char>) -> Seq<char>
    decreases s.len(),
{
    if s.len() == 0 {
        seq![]
    } else if s.len() >= 3 && s[0] == '"' && s[1] == '"' && s[2] == '"' {
        "\\\"\\\"\\\""@ + escape_triple(s.skip(3))
    } else {
        seq![s[0]] + escape_triple(s.drop_first())
    }
}

/// The lines of the `[env]` table.
pub open spec fn env_lines(env: Seq<(Seq<char>, Seq<char>)>) -> Seq<char>
    decreases env.len(),
{
    if env.len() == 0 {
        seq![]
    } else {
        env_lines(env.drop_last()) + toml_key_spec(env.last().0) + " = "@ + quoted(env.last().1)
            + "\n"@
    }
}

/// The deps, each quoted.
pub open spec fn quoted_deps(deps: Seq<Seq<char>>) -> Seq<Seq<char>> {
    deps.map_values(|d: Seq<char>| quoted(d))
}

/// The TOML table of one recipe.
pub open spec fn recipe_table(r: RecipeV) -> Seq<char> {
    "\n[recipe."@ + quoted(r.name) + "]\n"@ + "type = \"shell\"\n"@ + (if r.deps.len() > 0 {
        "deps = ["@ + join(quoted_deps(r.deps), ", "@) + "]\n"@
    } else {
        seq![]
    }) + (if r.phony {
        "phony = true\n"@
    } else {
        seq![]
    }) + (if r.script.len() > 0 {
        "script = \"\"\"\n"@ + escape_triple(r.script) + "\n\"\"\"\n"@
    } else {
        seq![]
    })
}

/// All recipe tables, in order.
pub open spec fn recipe_tables(rs: Seq<RecipeV>) -> Seq<char>
    decreases rs.len(),
{
    if rs.len() == 0 {
        seq![]
    } else {
        recipe_tables(rs.drop_last()) + recipe_table(rs.last())
    }
}

/// The Mustfile TOML for a model.
pub open spec fn toml_spec(o: OutputV) -> Seq<char> {
    "[project]\nname = \"imported\"\n"@ + (if o.env.len() > 0 {
        "\n[env]\n"@ + env_lines(o.env)
    } else {
        seq![]
    }) + recipe_tables(o.recipes)
}

/// The header of a recipe's table: its name, always quoted.
pub open spec fn recipe_header(name: Seq<char>) -> Seq<char> {
    "\n[recipe."@ + quoted(name) + "]\n"@
}

/// `p` occurring in `a` also occurs in `x + a + y`, shifted by `x`'s length.
proof fn lemma_occurs_in_concat(x: Seq<char>, a: Seq<char>, y: Seq<char>, p: Seq<char>, k: int)
    requires
        occurs_at(a, p, k),
    ensures
        occurs_at(x + a + y, p, x.len() + k),
{
    assert((x + a + y).subrange(x.len() + k, x.len() + k + p.len()) =~= a.subrange(k, k + p.len()));
}

/// Each recipe's table occurs in the rendering of all of them.
proof fn lemma_table_in_tables(rs: Seq<RecipeV>, i: int)
    requires
        0 <= i < rs.len(),
    ensures
        exists|k: int| occurs_at(recipe_tables(rs), recipe_table(rs[i]), k),
    decreases rs.len(),
{
    let t = recipe_table(rs[i]);
    if i == rs.len() - 1 {
        assert(occurs_at(t, t, 0)) by {
            assert(t.subrange(0, t.len() as int) =~= t);
        }
        lemma_occurs_in_concat(recipe_tables(rs.drop_last()), t, seq![], t, 0);
        assert(recipe_tables(rs.drop_last()) + t + seq![] =~= recipe_tables(rs));
    } else {
        lemma_table_in_tables(rs.drop_last(), i);
        assert(rs.drop_last()[i] == rs[i]);
        let k = choose|k: int| occurs_at(recipe_tables(rs.drop_last()), t, k);
        lemma_occurs_in_concat(seq![], recipe_tables(rs.drop_last()), recipe_table(rs.last()), t, k);
        assert(seq![] + recipe_tables(rs.drop_last()) + recipe_table(rs.last()) =~= recipe_tables(rs));
    }
}

/// Law: the Mustfile written for an import holds, for every recipe, a
/// table header with the recipe's name quoted, whatever the name.
pub proof fn law_recipe_names_quoted(o: OutputV, i: int)
    requires
        0 <= i < o.recipes.len(),
    ensures
        exists|k: int| occurs_at(toml_spec(o), recipe_header(o.recipes[i].name), k),
{
    let r = o.recipes[i];
    let t = recipe_table(r);
    let h = recipe_header(r.name);
    let rest = t.skip(h.len() as int);
    assert(t =~= h + rest);
    assert(occurs_at(t, h, 0)) by {
        assert(t.subrange(0, h.len() as int) =~= h);
    }
    lemma_table_in_tables(o.recipes, i);
    let k = choose|k: int| occurs_at(recipe_tables(o.recipes), t, k);
    lemma_occurs_in_concat(seq![], t, seq![], h, 0);
    assert(seq![] + t + seq![] =~= t);
    // The header sits inside the table, which sits inside all tables.
    assert(occurs_at(recipe_tables(o.recipes), h, k)) by {
        assert(recipe_tables(o.recipes).subrange(k, k + h.len()) =~= t.subrange(0, h.len() as int));
    }
    let head = "[project]\nname = \"imported\"\n"@ + (if o.env.len() > 0 {
        "\n[env]\n"@ + env_lines(o.env)
    } else {
        seq![]
    });
    lemma_occurs_in_concat(head, recipe_tables(o.recipes), seq![], h, k);
    assert(head + recipe_tables(o.recipes) + seq![] =~= toml_spec(o));
}

// ---------------------------------------------------------------------------
// Implementation
// ---------------------------------------------------------------------------

/// A TOML key for `key`: bare when it is non-empty and made of
/// `[A-Za-z0-9_-]`, quoted otherwise.
pub fn toml_key(key: &str) -> (r: String)
    ensures
        r@ == toml_key_spec(key@),
{
    let k = chars_of(key);
    let mut bare = k.len() > 0;
    let mut i: usize = 0;
    while i < k.len()
        invariant
            i <= k.len(),
            k@ == key@,
            bare == (k.len() > 0 && forall|m: int| 0 <= m < i ==> bare_key_char(k@[m])),
        decreases k.len() - i,
    {
        let c = k[i];
        let ok = ('a' <= c && c <= 'z') || ('A' <= c && c <= 'Z') || ('0' <= c && c <= '9')
            || c == '-' || c == '_';
        if !ok {
            assert(!bare_key_char(k@[i as int]));
            bare = false;
        }
        i += 1;
    }
    if bare {
        string_of(&k)
    } else {
        let mut v = chars_of("\"");
        extend(&mut v, &escape_chars(&k));
        extend_str(&mut v, "\"");
        string_of(&v)
    }
}

fn push_quoted(v: &mut Vec<char>, s: &str)
    ensures
        final(v)@ == old(v)@ + quoted(s@),
{
    extend_str(v, "\"");
    let c = chars_of(s);
    extend(v, &escape_chars(&c));
    extend_str(v, "\"");
}

/// `s` with every `"""` escaped.
pub fn escape_triple_chars(s: &[char]) -> (r: Vec<char>)
    ensures
        r@ == escape_triple(s@),
{
    let mut out: Vec<char> = Vec::new();
    let mut i: usize = 0;
    assert(s@.skip(0) == s@);
    while i < s.len()
        invariant
            i <= s.len(),
            out@ + escape_triple(s@.skip(i as int)) == escape_triple(s@),
        decreases s.len() - i,
    {
        let ghost rest = s@.skip(i as int);
        if s.len() - i >= 3 && s[i] == '"' && s[i + 1] == '"' && s[i + 2] == '"' {
            let ghost prev = out@;
            extend_str(&mut out, "\\\"\\\"\\\"");
            assert(rest.skip(3) == s@.skip(i + 3));
            assert(prev + ("\\\"\\\"\\\""@ + escape_triple(rest.skip(3))) =~= out@
                + escape_triple(s@.skip(i + 3)));
            i += 3;
        } else {
            let ghost prev = out@;
            out.push(s[i]);
            assert(rest.drop_first() == s@.skip(i + 1));
            assert(prev + (seq![rest[0]] + escape_triple(rest.drop_first())) =~= out@
                + escape_triple(s@.skip(i + 1)));
            i += 1;
        }
    }
    assert(escape_triple(s@.skip(i as int)) =~= Seq::<char>::empty());
    assert(out@ + Seq::<char>::empty() =~= out@);
    out
}

fn push_recipe_table(v: &mut Vec<char>, name: &str, deps: &Vec<String>, phony: bool, script: &str)
    ensures
        final(v)@ == old(v)@ + recipe_table(
            RecipeV { name: name@, deps: sv(deps@), script: script@, phony },
        ),
{
    let ghost start = v@;
    let ghost rv = RecipeV { name: name@, deps: sv(deps@), script: script@, phony };
    let ghost deps_part = if rv.deps.len() > 0 {
        "deps = ["@ + join(quoted_deps(rv.deps), ", "@) + "]\n"@
    } else {
        seq![]
    };
    let ghost phony_part = if phony {
        "phony = true\n"@
    } else {
        seq![]
    };
    let ghost script_part = if rv.script.len() > 0 {
        "script = \"\"\"\n"@ + escape_triple(rv.script) + "\n\"\"\"\n"@
    } else {
        seq![]
    };
    let ghost head_part = recipe_header(name@) + "type = \"shell\"\n"@;
    assert(recipe_table(rv) =~= head_part + deps_part + phony_part + script_part);
    extend_str(v, "\n[recipe.");
    push_quoted(v, name);
    extend_str(v, "]\n");
    extend_str(v, "type = \"shell\"\n");
    assert(v@ =~= start + head_part);
    let ghost after_head = v@;
    if deps.len() > 0 {
        let mut qs: Vec<Vec<char>> = Vec::new();
        let mut k: usize = 0;
        while k < deps.len()
            invariant
                k <= deps.len(),
                vv(qs@) == quoted_deps(sv(deps@)).take(k as int),
            decreases deps.len() - k,
        {
            let mut q: Vec<char> = Vec::new();
            push_quoted(&mut q, deps[k].as_str());
            assert(q@ == quoted(sv(deps@)[k as int]));
            let ghost prev = qs@;
            qs.push(q);
            proof {
                crate::text::lemma_vv_push(prev, q);
            }
            assert(quoted_deps(sv(deps@)).take(k + 1) =~= quoted_deps(sv(deps@)).take(
                k as int,
            ).push(quoted(sv(deps@)[k as int])));
            k += 1;
        }
        assert(quoted_deps(sv(deps@)).take(deps.len() as int) =~= quoted_deps(sv(deps@)));
        extend_str(v, "deps = [");
        let sep = chars_of(", ");
        let j = join_chars(&qs, &sep);
        extend(v, &j);
        extend_str(v, "]\n");
    }
    assert(v@ =~= after_head + deps_part);
    let ghost after_deps = v@;
    if phony {
        extend_str(v, "phony = true\n");
    }
    assert(v@ =~= after_deps + phony_part);
    let ghost after_phony = v@;
    if !script.is_empty() {
        extend_str(v, "script = \"\"\"\n");
        let sc = chars_of(script);
        extend(v, &escape_triple_chars(&sc));
        extend_str(v, "\n\"\"\"\n");
    }
    assert(v@ =~= after_phony + script_part);
    assert(v@ =~= start + (head_part + deps_part + phony_part + script_part));
}

/// Renders the model as Mustfile TOML: a `[project]` table named
/// `imported`, the variables under `[env]` (only when there are any)
/// and one `[recipe."name"]` table per recipe.
pub fn write_toml(output: &MustfileOutput) -> (r: String)
    ensures
        r@ == toml_spec(output@),
{
    let mut out: Vec<char> = Vec::new();
    extend_str(&mut out, "[project]\nname = \"imported\"\n");
    let ghost head = out@;
    if !output.env.is_empty() {
        extend_str(&mut out, "\n[env]\n");
        let ghost start = out@;
        let mut i: usize = 0;
        while i < output.env.len()
            invariant
                i <= output.env@.len(),
                out@ == start + env_lines(output.env@.take(i as int)),
            decreases output.env@.len() - i,
        {
            let (k, val) = output.env.entry(i);
            let key = toml_key(k.as_str());
            let kc = chars_of(key.as_str());
            assert(output.env@.take(i + 1).drop_last() == output.env@.take(i as int));
            assert(output.env@.take(i + 1).last() == output.env@[i as int]);
            extend(&mut out, &kc);
            extend_str(&mut out, " = ");
            push_quoted(&mut out, val.as_str());
            extend_str(&mut out, "\n");
            i += 1;
        }
        assert(output.env@.take(output.env@.len() as int) == output.env@);
    }
    let ghost before_recipes = out@;
    let mut j: usize = 0;
    while j < output.recipes.len()
        invariant
            j <= output.recipes.len(),
            out@ == before_recipes + recipe_tables(recipes_view(output.recipes@).take(j as int)),
        decreases output.recipes.len() - j,
    {
        let r = &output.recipes[j];
        let ghost rv = recipes_view(output.recipes@);
        assert(rv.take(j + 1).drop_last() == rv.take(j as int));
        assert(rv.take(j + 1).last() == r@);
        push_recipe_table(&mut out, r.name.as_str(), &r.deps, r.phony, r.script.as_str());
        assert(out@ =~= before_recipes + recipe_tables(rv.take(j + 1)));
        j += 1;
    }
    assert(recipes_view(output.recipes@).take(output.recipes.len() as int) == recipes_view(
        output.recipes@,
    ));
    assert(out@ =~= toml_spec(output@));
    string_of(&out)
}

} // verus!
