//! Turns a Makefile AST into the intermediate Mustfile model and the import
//! result (TOML text, report and counts).

use vstd::prelude::*;
use crate::map::{OrdMap, assoc_insert};
use crate::parser::{AstNode, AstNodeV, MakefileAst, nodes_view};
use crate::text::{
    chars_of, clone_strings, join, join_chars, lemma_sv_push, str_eq, string_of, sv,
    vec_contains, vv,
};

verus! {

/// The outcome of an import: the generated Mustfile TOML, a human-readable
/// report and the item counts.
pub struct ImportResult {
    pub toml: String,
    pub report: String,
    pub translated_count: usize,
    pub skipped_count: usize,
    pub todo_count: usize,
}

/// The intermediate model of an imported build file.
pub struct MustfileOutput {
    /// Global variables, sorted by name.
    pub env: OrdMap<String>,
    pub recipes: Vec<OutputRecipe>,
    pub todos: Vec<TodoItem>,
    pub skipped: Vec<String>,
}

/// One recipe of the imported file.
pub struct OutputRecipe {
    pub name: String,
    pub deps: Vec<String>,
    /// Recipe lines joined by `\n`.
    pub script: String,
    pub phony: bool,
}

/// An item that needs manual review.
pub struct TodoItem {
    pub kind: TodoKind,
    pub description: String,
}

/// What kind of item needs manual review.
#[derive(Debug, Clone, Copy, PartialEq, Eq, Structural)]
pub enum TodoKind {
    PatternRule,
    Include,
}

pub struct RecipeV {
    pub name: Seq<char>,
    pub deps: Seq<Seq<char>>,
    pub script: Seq<char>,
    pub phony: bool,
}

pub struct TodoV {
    pub kind: TodoKind,
    pub description: Seq<char>,
}

pub struct OutputV {
    pub env: Seq<(Seq<char>, Seq<char>)>,
    pub recipes: Seq<RecipeV>,
    pub todos: Seq<TodoV>,
    pub skipped: Seq<Seq<char>>,
}

impl View for OutputRecipe {
    type V = RecipeV;

    open spec fn view(&self) -> RecipeV {
        RecipeV { name: self.name@, deps: sv(self.deps@), script: self.script@, phony: self.phony }
    }
}

impl View for TodoItem {
    type V = TodoV;

    open spec fn view(&self) -> TodoV {
        TodoV { kind: self.kind, description: self.description@ }
    }
}

pub open spec fn recipes_view(v: Seq<OutputRecipe>) -> Seq<RecipeV> {
    v.map_values(|r: OutputRecipe| r@)
}

pub open spec fn todos_view(v: Seq<TodoItem>) -> Seq<TodoV> {
    v.map_values(|t: TodoItem| t@)
}

impl View for MustfileOutput {
    type V = OutputV;

    open spec fn view(&self) -> OutputV {
        OutputV {
            env: self.env@,
            recipes: recipes_view(self.recipes@),
            todos: todos_view(self.todos@),
            skipped: sv(self.skipped@),
        }
    }
}

pub struct ImportResultV {
    pub toml: Seq<char>,
    pub report: Seq<char>,
    pub translated_count: nat,
    pub skipped_count: nat,
    pub todo_count: nat,
}

impl View for ImportResult {
    type V = ImportResultV;

    open spec fn view(&self) -> ImportResultV {
        ImportResultV {
            toml: self.toml@,
            report: self.report@,
            translated_count: self.translated_count as nat,
            skipped_count: self.skipped_count as nat,
            todo_count: self.todo_count as nat,
        }
    }
}

// ---------------------------------------------------------------------------
// Specification
// ---------------------------------------------------------------------------

/// The empty model.
pub open spec fn empty_output() -> OutputV {
    OutputV { env: seq![], recipes: seq![], todos: seq![], skipped: seq![] }
}

/// Index of the first recipe named `name` at or after `i`, or -1.
pub open spec fn find_recipe_from(rs: Seq<RecipeV>, name: Seq<char>, i: int) -> int
    decreases rs.len() - i,
{
    if i < 0 || i >= rs.len() {
        -1
    } else if rs[i].name == name {
        i
    } else {
        find_recipe_from(rs, name, i + 1)
    }
}

/// Adds a rule: a repeated target gains the new deps, is phony if either
/// rule is, and takes the new script when the new rule has recipe lines.
pub open spec fn add_rule(
    out: OutputV,
    target: Seq<char>,
    deps: Seq<Seq<char>>,
    lines: Seq<Seq<char>>,
    phony: bool,
) -> OutputV {
    let script = join(lines, "\n"@);
    let i = find_recipe_from(out.recipes, target, 0);
    if i >= 0 {
        let old = out.recipes[i];
        OutputV {
            recipes: out.recipes.update(
                i,
                RecipeV {
                    name: old.name,
                    deps: old.deps + deps,
                    script: if lines.len() > 0 {
                        script
                    } else {
                        old.script
                    },
                    phony: old.phony || phony,
                },
            ),
            ..out
        }
    } else {
        OutputV {
            recipes: out.recipes.push(RecipeV { name: target, deps, script, phony }),
            ..out
        }
    }
}

/// The model after one AST node.
pub open spec fn add_node(out: OutputV, n: AstNodeV) -> OutputV {
    match n {
        AstNodeV::Variable { name, value, .. } => if value.len() == 0 {
            OutputV {
                skipped: out.skipped.push(name + " = (empty value \u{2014} skipped)"@),
                ..out
            }
        } else {
            OutputV { env: assoc_insert(out.env, name, value), ..out }
        },
        AstNodeV::Rule { target, deps, recipe_lines, phony } => add_rule(
            out,
            target,
            deps,
            recipe_lines,
            phony,
        ),
        AstNodeV::PatternRuleTodo { original } => OutputV {
            todos: out.todos.push(TodoV { kind: TodoKind::PatternRule, description: original }),
            ..out
        },
        AstNodeV::IncludeTodo { path } => OutputV {
            todos: out.todos.push(TodoV { kind: TodoKind::Include, description: path }),
            ..out
        },
        AstNodeV::Unrecognized { original } => OutputV {
            skipped: out.skipped.push(original),
            ..out
        },
    }
}

/// The model after the nodes from `i` on, starting from `out`.
pub open spec fn build_from(nodes: Seq<AstNodeV>, i: int, out: OutputV) -> OutputV
    decreases nodes.len() - i,
{
    if i < 0 || i >= nodes.len() {
        out
    } else {
        build_from(nodes, i + 1, add_node(out, nodes[i]))
    }
}

/// The deps that name a recipe, each kept once, in first-seen order.
pub open spec fn filter_deps(deps: Seq<Seq<char>>, names: Seq<Seq<char>>) -> Seq<Seq<char>>
    decreases deps.len(),
{
    if deps.len() == 0 {
        seq![]
    } else {
        let r = filter_deps(deps.drop_last(), names);
        let d = deps.last();
        if names.contains(d) && !r.contains(d) {
            r.push(d)
        } else {
            r
        }
    }
}

pub open spec fn recipe_names(rs: Seq<RecipeV>) -> Seq<Seq<char>> {
    rs.map_values(|r: RecipeV| r.name)
}

/// One recipe after finalisation: deps filtered to recipe names without
/// repeats; an empty script becomes the phony no-op `true`.
pub open spec fn finalize_recipe(r: RecipeV, names: Seq<Seq<char>>) -> RecipeV {
    RecipeV {
        name: r.name,
        deps: filter_deps(r.deps, names),
        script: if r.script.len() == 0 {
            "true"@
        } else {
            r.script
        },
        phony: if r.script.len() == 0 {
            true
        } else {
            r.phony
        },
    }
}

pub open spec fn finalize_spec(out: OutputV) -> OutputV {
    let names = recipe_names(out.recipes);
    OutputV {
        recipes: out.recipes.map_values(|r: RecipeV| finalize_recipe(r, names)),
        ..out
    }
}

/// The finished model of a Makefile AST.
pub open spec fn translate_output(nodes: Seq<AstNodeV>) -> OutputV {
    finalize_spec(build_from(nodes, 0, empty_output()))
}

// ---------------------------------------------------------------------------
// Implementation
// ---------------------------------------------------------------------------

impl MustfileOutput {
    /// An empty model.
    pub fn new() -> (o: Self)
        ensures
            o@ == empty_output(),
    {
        let o = MustfileOutput {
            env: OrdMap::new(),
            recipes: Vec::new(),
            todos: Vec::new(),
            skipped: Vec::new(),
        };
        assert(o@.recipes =~= Seq::<RecipeV>::empty());
        assert(o@.todos =~= Seq::<TodoV>::empty());
        assert(o@.skipped =~= Seq::<Seq<char>>::empty());
        o
    }
}

fn find_recipe(rs: &Vec<OutputRecipe>, name: &str) -> (r: Option<usize>)
    ensures
        match r {
            Some(i) => find_recipe_from(recipes_view(rs@), name@, 0) == i && i < rs.len(),
            None => find_recipe_from(recipes_view(rs@), name@, 0) == -1,
        },
{
    let mut i: usize = 0;
    while i < rs.len()
        invariant
            i <= rs.len(),
            find_recipe_from(recipes_view(rs@), name@, 0) == find_recipe_from(
                recipes_view(rs@),
                name@,
                i as int,
            ),
        decreases rs.len() - i,
    {
        assert(recipes_view(rs@)[i as int] == rs@[i as int]@);
        if str_eq(rs[i].name.as_str(), name) {
            return Some(i);
        }
        i += 1;
    }
    None
}

fn push_all(dst: &mut Vec<String>, src: &Vec<String>)
    ensures
        sv(final(dst)@) == sv(old(dst)@) + sv(src@),
{
    let mut k: usize = 0;
    while k < src.len()
        invariant
            k <= src.len(),
            sv(dst@) == sv(old(dst)@) + sv(src@).take(k as int),
        decreases src.len() - k,
    {
        let ghost prev = dst@;
        let s = src[k].clone();
        dst.push(s);
        proof {
            lemma_sv_push(prev, s);
        }
        assert(sv(src@).take(k + 1) =~= sv(src@).take(k as int).push(src@[k as int]@));
        k += 1;
    }
    assert(sv(src@).take(src.len() as int) == sv(src@));
}

fn strings_to_chars(v: &Vec<String>) -> (r: Vec<Vec<char>>)
    ensures
        vv(r@) == sv(v@),
{
    let mut out: Vec<Vec<char>> = Vec::new();
    let mut k: usize = 0;
    while k < v.len()
        invariant
            k <= v.len(),
            vv(out@) == sv(v@).take(k as int),
        decreases v.len() - k,
    {
        let ghost prev = out@;
        let c = chars_of(v[k].as_str());
        out.push(c);
        proof {
            crate::text::lemma_vv_push(prev, c);
        }
        assert(sv(v@).take(k + 1) =~= sv(v@).take(k as int).push(v@[k as int]@));
        k += 1;
    }
    assert(sv(v@).take(v.len() as int) == sv(v@));
    out
}

/// The strings joined with newlines.
pub fn join_lines(lines: &Vec<String>) -> (r: String)
    ensures
        r@ == join(sv(lines@), "\n"@),
{
    let parts = strings_to_chars(lines);
    let nl = chars_of("\n");
    let j = join_chars(&parts, &nl);
    string_of(&j)
}

impl MustfileOutput {
    /// Adds one rule, merging with an earlier rule of the same target.
    pub fn add_rule(&mut self, target: String, deps: Vec<String>, lines: Vec<String>, phony: bool)
        ensures
            final(self)@ == add_rule(old(self)@, target@, sv(deps@), sv(lines@), phony),
    {
        let script = join_lines(&lines);
        let ghost ov = self@;
        match find_recipe(&self.recipes, target.as_str()) {
            Some(i) => {
                let old = &self.recipes[i];
                assert(recipes_view(self.recipes@)[i as int] == old@);
                let mut nd = clone_strings(&old.deps);
                push_all(&mut nd, &deps);
                let new_script = if lines.len() > 0 {
                    script
                } else {
                    old.script.clone()
                };
                let nr = OutputRecipe {
                    name: old.name.clone(),
                    deps: nd,
                    script: new_script,
                    phony: old.phony || phony,
                };
                let ghost prev = self.recipes@;
                self.recipes.set(i, nr);
                assert(recipes_view(self.recipes@) =~= recipes_view(prev).update(i as int, nr@));
            },
            None => {
                let nr = OutputRecipe { name: target, deps, script, phony };
                let ghost prev = self.recipes@;
                self.recipes.push(nr);
                assert(recipes_view(self.recipes@) =~= recipes_view(prev).push(nr@));
            },
        }
        assert(self@ =~= add_rule(ov, target@, sv(deps@), sv(lines@), phony));
    }

    /// Adds a recipe as it stands, without merging.
    pub fn push_recipe(&mut self, r: OutputRecipe)
        ensures
            final(self)@ == (OutputV {
                recipes: old(self)@.recipes.push(r@),
                ..old(self)@
            }),
    {
        let ghost prev = self.recipes@;
        self.recipes.push(r);
        assert(recipes_view(self.recipes@) =~= recipes_view(prev).push(r@));
    }

    /// Records a skipped line.
    pub fn push_skipped(&mut self, s: String)
        ensures
            final(self)@ == (OutputV { skipped: old(self)@.skipped.push(s@), ..old(self)@ }),
    {
        let ghost prev = self.skipped@;
        self.skipped.push(s);
        proof {
            lemma_sv_push(prev, s);
        }
    }

    fn push_todo(&mut self, t: TodoItem)
        ensures
            final(self)@ == (OutputV { todos: old(self)@.todos.push(t@), ..old(self)@ }),
    {
        let ghost prev = self.todos@;
        self.todos.push(t);
        assert(todos_view(self.todos@) =~= todos_view(prev).push(t@));
    }

    /// Adds one AST node to the model.
    pub fn add_node(&mut self, n: AstNode)
        ensures
            final(self)@ == add_node(old(self)@, n@),
    {
        match n {
            AstNode::Variable { name, value, .. } => {
                if value.as_str().is_empty() {
                    let mut c = chars_of(name.as_str());
                    crate::text::extend_str(&mut c, " = (empty value \u{2014} skipped)");
                    let s = string_of(&c);
                    self.push_skipped(s);
                } else {
                    self.env.insert(name, value);
                }
            },
            AstNode::Rule { target, deps, recipe_lines, phony } => {
                self.add_rule(target, deps, recipe_lines, phony);
            },
            AstNode::PatternRuleTodo { original } => {
                self.push_todo(TodoItem { kind: TodoKind::PatternRule, description: original });
            },
            AstNode::IncludeTodo { path } => {
                self.push_todo(TodoItem { kind: TodoKind::Include, description: path });
            },
            AstNode::Unrecognized { original } => {
                self.push_skipped(original);
            },
        }
    }
}

fn filter_recipe_deps(deps: &Vec<String>, names: &Vec<String>) -> (r: Vec<String>)
    ensures
        sv(r@) == filter_deps(sv(deps@), sv(names@)),
{
    let mut kept: Vec<String> = Vec::new();
    let mut k: usize = 0;
    while k < deps.len()
        invariant
            k <= deps.len(),
            sv(kept@) == filter_deps(sv(deps@).take(k as int), sv(names@)),
        decreases deps.len() - k,
    {
        let ghost dv = sv(deps@);
        assert(dv.take(k + 1).drop_last() == dv.take(k as int));
        assert(dv.take(k + 1).last() == deps@[k as int]@);
        let d = &deps[k];
        if vec_contains(names, d.as_str()) && !vec_contains(&kept, d.as_str()) {
            let ghost prev = kept@;
            let s = d.clone();
            kept.push(s);
            proof {
                lemma_sv_push(prev, s);
            }
        }
        k += 1;
    }
    assert(sv(deps@).take(deps.len() as int) == sv(deps@));
    kept
}

/// Drops deps that name no recipe or repeat an earlier dep, and turns a
/// recipe without a script into the phony no-op `true`.
pub fn finalize_recipes(output: &mut MustfileOutput)
    ensures
        final(output)@ == finalize_spec(old(output)@),
{
    let mut names: Vec<String> = Vec::new();
    let mut i: usize = 0;
    while i < output.recipes.len()
        invariant
            i <= output.recipes.len(),
            sv(names@) == recipe_names(recipes_view(output.recipes@)).take(i as int),
        decreases output.recipes.len() - i,
    {
        let ghost prev = names@;
        let s = output.recipes[i].name.clone();
        names.push(s);
        proof {
            lemma_sv_push(prev, s);
        }
        assert(recipe_names(recipes_view(output.recipes@)).take(i + 1) =~= recipe_names(
            recipes_view(output.recipes@),
        ).take(i as int).push(output.recipes@[i as int].name@));
        i += 1;
    }
    assert(recipe_names(recipes_view(output.recipes@)).take(output.recipes.len() as int)
        == recipe_names(recipes_view(output.recipes@)));
    let ghost names_v = sv(names@);
    let ghost orig = recipes_view(output.recipes@);
    let mut fresh: Vec<OutputRecipe> = Vec::new();
    let mut j: usize = 0;
    while j < output.recipes.len()
        invariant
            j <= output.recipes.len(),
            orig == recipes_view(output.recipes@),
            names_v == sv(names@),
            names_v == recipe_names(orig),
            recipes_view(fresh@) == orig.map_values(|r: RecipeV| finalize_recipe(r, names_v)).take(
                j as int,
            ),
        decreases output.recipes.len() - j,
    {
        let r = &output.recipes[j];
        assert(orig[j as int] == r@);
        let deps = filter_recipe_deps(&r.deps, &names);
        let (script, phony) = if r.script.as_str().is_empty() {
            (crate::text::string_of(&chars_of("true")), true)
        } else {
            (r.script.clone(), r.phony)
        };
        let nr = OutputRecipe { name: r.name.clone(), deps, script, phony };
        let ghost prev = fresh@;
        fresh.push(nr);
        assert(recipes_view(fresh@) =~= recipes_view(prev).push(nr@));
        j += 1;
    }
    let ghost fin = orig.map_values(|r: RecipeV| finalize_recipe(r, names_v));
    assert(fin.take(output.recipes.len() as int) =~= fin);
    output.recipes = fresh;
}

/// The count of translated items: variables plus recipes.
pub open spec fn translated_total(o: OutputV) -> nat {
    let n = o.env.len() + o.recipes.len();
    if n > usize::MAX {
        usize::MAX as nat
    } else {
        n
    }
}

/// The import result for a finished model.
pub open spec fn result_spec(o: OutputV) -> ImportResultV {
    ImportResultV {
        toml: crate::writer::toml_spec(o),
        report: crate::report::report_spec(
            o,
            translated_total(o),
            o.todos.len(),
            o.skipped.len(),
        ),
        translated_count: translated_total(o),
        skipped_count: o.skipped.len(),
        todo_count: o.todos.len(),
    }
}

/// Counts, renders and reports a finished model.
pub fn finish_import(output: MustfileOutput) -> (r: ImportResult)
    ensures
        r@ == result_spec(output@),
{
    let translated_count = output.env.len().saturating_add(output.recipes.len());
    let todo_count = output.todos.len();
    let skipped_count = output.skipped.len();
    let toml = crate::writer::write_toml(&output);
    let report = crate::report::write_report(&output, translated_count, todo_count, skipped_count);
    ImportResult { toml, report, translated_count, todo_count, skipped_count }
}

/// Translates a Makefile AST: variables with a value go to the global env
/// (an empty value is skipped), rules become recipes (a repeated target is
/// merged), pattern rules and includes become items to review and
/// unrecognised lines are skipped; then the recipes are finalised.
pub fn translate(ast: MakefileAst) -> (r: ImportResult)
    ensures
        r@ == result_spec(translate_output(ast@)),
{
    let ghost nodes = ast@;
    let mut output = MustfileOutput::new();
    let mut rest = ast.nodes;
    let mut i: usize = 0;
    assert(nodes_view(rest@) == nodes.skip(0));
    assert(nodes.len() == rest.len());
    while rest.len() > 0
        invariant
            i <= nodes.len(),
            nodes.len() <= usize::MAX,
            nodes_view(rest@) == nodes.skip(i as int),
            build_from(nodes, 0, empty_output()) == build_from(nodes, i as int, output@),
        decreases rest.len(),
    {
        let ghost before = rest@;
        assert(nodes_view(before).len() == before.len());
        assert(i < nodes.len());
        let n = rest.remove(0);
        assert(nodes_view(before)[0] == n@);
        assert(nodes.skip(i as int)[0] == nodes[i as int]);
        assert forall|k: int| 0 <= k < rest@.len() implies nodes_view(rest@)[k] == nodes.skip(
            i + 1,
        )[k] by {
            assert(rest@[k] == before[k + 1]);
            assert(nodes_view(before)[k + 1] == before[k + 1]@);
        }
        assert(nodes_view(rest@) =~= nodes.skip(i + 1));
        output.add_node(n);
        i += 1;
    }
    assert(nodes.skip(i as int).len() == 0);
    finalize_recipes(&mut output);
    finish_import(output)
}

} // verus!
