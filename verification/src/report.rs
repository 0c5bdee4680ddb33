//! The human-readable import report.

use vstd::prelude::*;
use crate::translate::{MustfileOutput, OutputV, RecipeV, TodoKind, TodoV, recipes_view, todos_view};
use crate::text::{chars_of, decimal, decimal_chars, extend, extend_str, string_of, sv};

verus! {

/// The report line of a variable.
pub open spec fn variable_line(k: Seq<char>) -> Seq<char> {
    "- Variable `"@ + k + "`\n"@
}

/// The report line of a recipe.
pub open spec fn rule_line(r: RecipeV) -> Seq<char> {
    if r.phony {
        "- Rule `"@ + r.name + "` (phony)\n"@
    } else {
        "- Rule `"@ + r.name + "`\n"@
    }
}

/// The report line of an item to review.
pub open spec fn todo_line(t: TodoV) -> Seq<char> {
    match t.kind {
        TodoKind::PatternRule => "- Pattern rule: `"@ + t.description
            + "` \u{2014} pattern rules are not supported; convert manually\n"@,
        TodoKind::Include => "- Include: `"@ + t.description
            + "` \u{2014} include directives are not supported; inline the file\n"@,
    }
}

pub open spec fn variable_lines(env: Seq<(Seq<char>, Seq<char>)>) -> Seq<char>
    decreases env.len(),
{
    if env.len() == 0 {
        seq![]
    } else {
        variable_lines(env.drop_last()) + variable_line(env.last().0)
    }
}

pub open spec fn rule_lines(rs: Seq<RecipeV>) -> Seq<char>
    decreases rs.len(),
{
    if rs.len() == 0 {
        seq![]
    } else {
        rule_lines(rs.drop_last()) + rule_line(rs.last())
    }
}

pub open spec fn todo_lines(ts: Seq<TodoV>) -> Seq<char>
    decreases ts.len(),
{
    if ts.len() == 0 {
        seq![]
    } else {
        todo_lines(ts.drop_last()) + todo_line(ts.last())
    }
}

pub open spec fn skipped_lines(ss: Seq<Seq<char>>) -> Seq<char>
    decreases ss.len(),
{
    if ss.len() == 0 {
        seq![]
    } else {
        skipped_lines(ss.drop_last()) + "- `"@ + ss.last() + "`\n"@
    }
}

/// The report for a model and its counts.
pub open spec fn report_spec(o: OutputV, translated: nat, todo: nat, skipped: nat) -> Seq<char> {
    "# Mustfile Import Report\n\n"@ + "## Summary\n\n"@ + "- Translated: "@ + decimal(translated)
        + " items\n"@ + "- TODO (manual review needed): "@ + decimal(todo) + " items\n"@
        + "- Skipped (unrecognized): "@ + decimal(skipped) + " items\n"@ + (if o.env.len() > 0
        || o.recipes.len() > 0 {
        "\n## Translated\n\n"@ + variable_lines(o.env) + rule_lines(o.recipes)
    } else {
        seq![]
    }) + (if o.todos.len() > 0 {
        "\n## TODO \u{2014} Needs Manual Review\n\n"@ + todo_lines(o.todos)
    } else {
        seq![]
    }) + (if o.skipped.len() > 0 {
        "\n## Skipped\n\n"@ + skipped_lines(o.skipped)
    } else {
        seq![]
    })
}

/// Writes the import report: a summary with the three counts, then the
/// translated variables and rules, the items to review and the skipped lines,
/// each section only when it has entries.
pub fn write_report(output: &MustfileOutput, translated: usize, todo: usize, skipped: usize) -> (r:
    String)
    ensures
        r@ == report_spec(output@, translated as nat, todo as nat, skipped as nat),
{
    let mut out: Vec<char> = Vec::new();
    extend_str(&mut out, "# Mustfile Import Report\n\n");
    extend_str(&mut out, "## Summary\n\n");
    extend_str(&mut out, "- Translated: ");
    extend(&mut out, &decimal_chars(translated));
    extend_str(&mut out, " items\n");
    extend_str(&mut out, "- TODO (manual review needed): ");
    extend(&mut out, &decimal_chars(todo));
    extend_str(&mut out, " items\n");
    extend_str(&mut out, "- Skipped (unrecognized): ");
    extend(&mut out, &decimal_chars(skipped));
    extend_str(&mut out, " items\n");
    let ghost s1 = out@;
    if !output.env.is_empty() || output.recipes.len() > 0 {
        extend_str(&mut out, "\n## Translated\n\n");
        let ghost start = out@;
        let mut i: usize = 0;
        while i < output.env.len()
            invariant
                i <= output.env@.len(),
                out@ == start + variable_lines(output.env@.take(i as int)),
            decreases output.env@.len() - i,
        {
            let (k, _) = output.env.entry(i);
            assert(output.env@.take(i + 1).drop_last() == output.env@.take(i as int));
            assert(output.env@.take(i + 1).last() == output.env@[i as int]);
            extend_str(&mut out, "- Variable `");
            extend(&mut out, &chars_of(k.as_str()));
            extend_str(&mut out, "`\n");
            i += 1;
        }
        assert(output.env@.take(output.env@.len() as int) == output.env@);
        let ghost mid = out@;
        let mut j: usize = 0;
        while j < output.recipes.len()
            invariant
                j <= output.recipes.len(),
                out@ == mid + rule_lines(recipes_view(output.recipes@).take(j as int)),
            decreases output.recipes.len() - j,
        {
            let r = &output.recipes[j];
            let ghost rv = recipes_view(output.recipes@);
            assert(rv.take(j + 1).drop_last() == rv.take(j as int));
            assert(rv.take(j + 1).last() == r@);
            extend_str(&mut out, "- Rule `");
            extend(&mut out, &chars_of(r.name.as_str()));
            if r.phony {
                extend_str(&mut out, "` (phony)\n");
            } else {
                extend_str(&mut out, "`\n");
            }
            j += 1;
        }
        assert(recipes_view(output.recipes@).take(output.recipes.len() as int) == recipes_view(
            output.recipes@,
        ));
    }
    let ghost s2 = out@;
    if output.todos.len() > 0 {
        extend_str(&mut out, "\n## TODO \u{2014} Needs Manual Review\n\n");
        let ghost start = out@;
        let mut i: usize = 0;
        while i < output.todos.len()
            invariant
                i <= output.todos.len(),
                out@ == start + todo_lines(todos_view(output.todos@).take(i as int)),
            decreases output.todos.len() - i,
        {
            let t = &output.todos[i];
            let ghost tv = todos_view(output.todos@);
            assert(tv.take(i + 1).drop_last() == tv.take(i as int));
            assert(tv.take(i + 1).last() == t@);
            match t.kind {
                TodoKind::PatternRule => {
                    extend_str(&mut out, "- Pattern rule: `");
                    extend(&mut out, &chars_of(t.description.as_str()));
                    extend_str(
                        &mut out,
                        "` \u{2014} pattern rules are not supported; convert manually\n",
                    );
                },
                TodoKind::Include => {
                    extend_str(&mut out, "- Include: `");
                    extend(&mut out, &chars_of(t.description.as_str()));
                    extend_str(
                        &mut out,
                        "` \u{2014} include directives are not supported; inline the file\n",
                    );
                },
            }
            i += 1;
        }
        assert(todos_view(output.todos@).take(output.todos.len() as int) == todos_view(
            output.todos@,
        ));
    }
    let ghost s3 = out@;
    if output.skipped.len() > 0 {
        extend_str(&mut out, "\n## Skipped\n\n");
        let ghost start = out@;
        let mut i: usize = 0;
        while i < output.skipped.len()
            invariant
                i <= output.skipped.len(),
                out@ == start + skipped_lines(sv(output.skipped@).take(i as int)),
            decreases output.skipped.len() - i,
        {
            let ghost svv = sv(output.skipped@);
            assert(svv.take(i + 1).drop_last() == svv.take(i as int));
            assert(svv.take(i + 1).last() == output.skipped@[i as int]@);
            extend_str(&mut out, "- `");
            extend(&mut out, &chars_of(output.skipped[i].as_str()));
            extend_str(&mut out, "`\n");
            i += 1;
        }
        assert(sv(output.skipped@).take(output.skipped.len() as int) == sv(output.skipped@));
    }
    assert(out@ =~= report_spec(output@, translated as nat, todo as nat, skipped as nat));
    string_of(&out)
}

} // verus!
