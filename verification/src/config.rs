//! The Mustfile schema: project, env, targets and recipes, their checks, and
//! how included fragments are merged.

use vstd::prelude::*;
use crate::error::{Error, is_config_error};
use crate::map::{OrdMap, assoc_get, assoc_insert, assoc_keys, merge_absent, merge_missing};
use crate::text::{chars_of, extend_str, str_eq, string_of, sv};

verus! {

/// Top-level Mustfile configuration.
#[derive(Debug)]
pub struct Config {
    pub project: Project,
    pub env: EnvMap,
    pub targets: OrdMap<Vec<String>>,
    pub recipe: OrdMap<Recipe>,
}

/// The `[project]` table.
#[derive(Debug)]
pub struct Project {
    pub name: String,
    pub version: Option<String>,
    /// The fragment files merged into this configuration (the `include`
    /// key).
    pub include_paths: Vec<String>,
}

/// Env vars: flat `KEY = "value"` entries and profile tables such as
/// `[env.release]`, both kept in one map.
#[derive(Debug)]
pub struct EnvMap {
    pub global: OrdMap<EnvValue>,
}

/// One entry of the env table.
#[derive(Debug)]
pub enum EnvValue {
    Scalar(String),
    Profile(OrdMap<String>),
}

/// The mathematical content of an [`EnvValue`].
pub enum EnvValueV {
    Scalar(Seq<char>),
    Profile(Seq<(Seq<char>, Seq<char>)>),
}

impl View for EnvValue {
    type V = EnvValueV;

    open spec fn view(&self) -> EnvValueV {
        match self {
            EnvValue::Scalar(s) => EnvValueV::Scalar(s@),
            EnvValue::Profile(m) => EnvValueV::Profile(m@),
        }
    }
}

/// Supported recipe types, each mapped to a build tool.
#[derive(Debug, Clone, Copy, PartialEq, Eq, Structural)]
pub enum RecipeType {
    Shell,
    RustBin,
    RustLib,
    RustTest,
    GoBin,
    GoTest,
    CBin,
    CLib,
    TsBin,
    TsCheck,
    TsLint,
    Npm,
    PyBin,
    PyTest,
    PyLint,
    ZigBin,
    ZigTest,
    DockerBuild,
    DockerPush,
    Plugin,
    JavaBin,
    JavaTest,
    KotlinBin,
    KotlinTest,
    SwiftBin,
    SwiftTest,
    DotnetBuild,
    DotnetTest,
    DotnetPublish,
    RubyBin,
    RubyTest,
    DartBin,
    DartTest,
    ElixirBuild,
    ElixirTest,
    FlutterBuild,
    FlutterTest,
    NimBin,
    NimTest,
    PrecompiledBin,
    Bridge,
}

/// The cache mode of a recipe.
#[derive(Debug, Clone, Copy, PartialEq, Eq, Structural)]
pub enum CacheMode {
    Hash,
    Mtime,
    /// No caching (the `none` mode).
    Disabled,
}

/// How a cross target is built.
#[derive(Debug, Clone, Copy, PartialEq, Eq, Structural)]
pub enum CrossBackend {
    Container,
    Local,
}

/// The settings for one cross target.
#[derive(Debug)]
pub struct CrossConfig {
    pub linker: Option<String>,
    pub cross: Option<CrossBackend>,
}

/// The mathematical content of a [`CrossConfig`].
pub struct CrossConfigV {
    pub linker: Option<Seq<char>>,
    pub cross: Option<CrossBackend>,
}

/// An optional string as an optional sequence.
pub open spec fn opt(s: Option<String>) -> Option<Seq<char>> {
    match s {
        Some(x) => Some(x@),
        None => None,
    }
}

impl View for CrossConfig {
    type V = CrossConfigV;

    open spec fn view(&self) -> CrossConfigV {
        CrossConfigV { linker: opt(self.linker), cross: self.cross }
    }
}

/// A recipe definition of the Mustfile.
#[derive(Debug)]
pub struct Recipe {
    pub recipe_type: RecipeType,
    pub deps: Vec<String>,
    pub inputs: Vec<String>,
    pub outputs: Vec<String>,
    pub script: Option<String>,
    pub script_win: Option<String>,
    pub scripts: OrdMap<String>,
    pub cache: Option<CacheMode>,
    pub phony: bool,
    pub env: OrdMap<String>,
    pub cross: OrdMap<CrossConfig>,
    pub package: Option<String>,
    pub features: Vec<String>,
    pub ldflags: Option<String>,
    pub sources: Vec<String>,
    pub includes: Vec<String>,
    pub link_libs: Vec<String>,
    pub image: Option<String>,
    pub dockerfile: Option<String>,
    pub build_args: Vec<String>,
    pub plugin: Option<String>,
    pub url: Option<String>,
    pub sha256: Option<String>,
}

/// The mathematical content of a [`Recipe`].
pub struct RecipeV {
    pub recipe_type: RecipeType,
    pub deps: Seq<Seq<char>>,
    pub inputs: Seq<Seq<char>>,
    pub outputs: Seq<Seq<char>>,
    pub script: Option<Seq<char>>,
    pub script_win: Option<Seq<char>>,
    pub scripts: Seq<(Seq<char>, Seq<char>)>,
    pub cache: Option<CacheMode>,
    pub phony: bool,
    pub env: Seq<(Seq<char>, Seq<char>)>,
    pub cross: Seq<(Seq<char>, CrossConfigV)>,
    pub package: Option<Seq<char>>,
    pub features: Seq<Seq<char>>,
    pub ldflags: Option<Seq<char>>,
    pub sources: Seq<Seq<char>>,
    pub includes: Seq<Seq<char>>,
    pub link_libs: Seq<Seq<char>>,
    pub image: Option<Seq<char>>,
    pub dockerfile: Option<Seq<char>>,
    pub build_args: Seq<Seq<char>>,
    pub plugin: Option<Seq<char>>,
    pub url: Option<Seq<char>>,
    pub sha256: Option<Seq<char>>,
}

impl View for Recipe {
    type V = RecipeV;

    open spec fn view(&self) -> RecipeV {
        RecipeV {
            recipe_type: self.recipe_type,
            deps: sv(self.deps@),
            inputs: sv(self.inputs@),
            outputs: sv(self.outputs@),
            script: opt(self.script),
            script_win: opt(self.script_win),
            scripts: self.scripts@,
            cache: self.cache,
            phony: self.phony,
            env: self.env@,
            cross: self.cross@,
            package: opt(self.package),
            features: sv(self.features@),
            ldflags: opt(self.ldflags),
            sources: sv(self.sources@),
            includes: sv(self.includes@),
            link_libs: sv(self.link_libs@),
            image: opt(self.image),
            dockerfile: opt(self.dockerfile),
            build_args: sv(self.build_args@),
            plugin: opt(self.plugin),
            url: opt(self.url),
            sha256: opt(self.sha256),
        }
    }
}

/// Env, targets and recipes of an included fragment.
#[derive(Debug)]
pub struct IncludeFragment {
    pub env: EnvMap,
    pub targets: OrdMap<Vec<String>>,
    pub recipe: OrdMap<Recipe>,
}

// ---------------------------------------------------------------------------
// Required fields
// ---------------------------------------------------------------------------

/// Which field a recipe type needs, and whether it is a list that must be
/// non-empty (otherwise a string that must be present and non-empty).
pub open spec fn required_field(t: RecipeType) -> (Seq<char>, bool) {
    match t {
        RecipeType::Shell | RecipeType::Npm | RecipeType::Bridge => ("script"@, false),
        RecipeType::CBin | RecipeType::CLib => ("sources"@, true),
        RecipeType::DockerBuild | RecipeType::DockerPush => ("image"@, false),
        RecipeType::Plugin => ("plugin"@, false),
        RecipeType::PrecompiledBin => ("url"@, false),
        _ => ("package"@, false),
    }
}

/// The message naming a missing required field.
pub open spec fn missing_field_message(recipe_name: Seq<char>, field: Seq<char>) -> Seq<char> {
    "recipe '"@ + recipe_name + "' is missing required field '"@ + field + "'"@
}

/// The message naming a dep that is not a recipe.
pub open spec fn missing_dep_message(recipe_name: Seq<char>, dep: Seq<char>) -> Seq<char> {
    "recipe '"@ + recipe_name + "' depends on '"@ + dep + "' which does not exist"@
}

/// The field a recipe's type requires, as the checks read it.
pub open spec fn field_value(r: RecipeV) -> Option<Seq<char>> {
    match r.recipe_type {
        RecipeType::Shell | RecipeType::Npm | RecipeType::Bridge => r.script,
        RecipeType::DockerBuild | RecipeType::DockerPush => r.image,
        RecipeType::Plugin => r.plugin,
        RecipeType::PrecompiledBin => r.url,
        _ => r.package,
    }
}

/// The value of the field a recipe's type requires is missing.
pub open spec fn field_missing(r: RecipeV) -> bool {
    if required_field(r.recipe_type).1 {
        r.sources.len() == 0
    } else {
        match field_value(r) {
            Some(s) => s.len() == 0,
            None => true,
        }
    }
}

/// A problem error: `Some(error)` when `value` is absent or empty.
pub fn require_field(field: &str, value: Option<&String>, recipe_name: &str) -> (r: Option<Error>)
    ensures
        match r {
            Some(e) => (value is None || value.unwrap()@.len() == 0) && is_config_error(
                e,
                seq![],
                missing_field_message(recipe_name@, field@),
            ),
            None => value is Some && value.unwrap()@.len() > 0,
        },
{
    let missing = match value {
        None => true,
        Some(v) => v.as_str().is_empty(),
    };
    if missing {
        Some(Error::Config { path: String::new(), message: missing_message(recipe_name, field) })
    } else {
        None
    }
}

/// A problem error: `Some(error)` when `vec` is empty.
pub fn require_non_empty_vec(field: &str, vec: &[String], recipe_name: &str) -> (r: Option<Error>)
    ensures
        match r {
            Some(e) => vec@.len() == 0 && is_config_error(
                e,
                seq![],
                missing_field_message(recipe_name@, field@),
            ),
            None => vec@.len() > 0,
        },
{
    if vec.len() == 0 {
        Some(Error::Config { path: String::new(), message: missing_message(recipe_name, field) })
    } else {
        None
    }
}

fn missing_message(recipe_name: &str, field: &str) -> (s: String)
    ensures
        s@ == missing_field_message(recipe_name@, field@),
{
    let mut v = chars_of("recipe '");
    extend_str(&mut v, recipe_name);
    extend_str(&mut v, "' is missing required field '");
    extend_str(&mut v, field);
    extend_str(&mut v, "'");
    string_of(&v)
}

fn dep_message(recipe_name: &str, dep: &str) -> (s: String)
    ensures
        s@ == missing_dep_message(recipe_name@, dep@),
{
    let mut v = chars_of("recipe '");
    extend_str(&mut v, recipe_name);
    extend_str(&mut v, "' depends on '");
    extend_str(&mut v, dep);
    extend_str(&mut v, "' which does not exist");
    string_of(&v)
}

// ---------------------------------------------------------------------------
// Validation
// ---------------------------------------------------------------------------

/// The first dep of `deps` that is not a recipe name, if any.
pub open spec fn first_unknown_dep(
    recipes: Seq<(Seq<char>, RecipeV)>,
    deps: Seq<Seq<char>>,
) -> Option<Seq<char>>
    decreases deps.len(),
{
    if deps.len() == 0 {
        None
    } else if assoc_get(recipes, deps[0]) is None {
        Some(deps[0])
    } else {
        first_unknown_dep(recipes, deps.drop_first())
    }
}

/// The problem with one recipe: its first unknown dep, else its missing
/// required field.  The error is `(path, message)`.
pub open spec fn recipe_problem(
    recipes: Seq<(Seq<char>, RecipeV)>,
    name: Seq<char>,
    r: RecipeV,
    path: Seq<char>,
) -> Option<(Seq<char>, Seq<char>)> {
    match first_unknown_dep(recipes, r.deps) {
        Some(d) => Some((path, missing_dep_message(name, d))),
        None => if field_missing(r) {
            Some((seq![], missing_field_message(name, required_field(r.recipe_type).0)))
        } else {
            None
        },
    }
}

/// The first problem among the recipes from index `i` on, in name order.
pub open spec fn first_problem(
    recipes: Seq<(Seq<char>, RecipeV)>,
    i: int,
    path: Seq<char>,
) -> Option<(Seq<char>, Seq<char>)>
    decreases recipes.len() - i,
{
    if i < 0 || i >= recipes.len() {
        None
    } else {
        match recipe_problem(recipes, recipes[i].0, recipes[i].1, path) {
            Some(p) => Some(p),
            None => first_problem(recipes, i + 1, path),
        }
    }
}

proof fn lemma_no_unknown_dep(recipes: Seq<(Seq<char>, RecipeV)>, deps: Seq<Seq<char>>)
    requires
        first_unknown_dep(recipes, deps) is None,
    ensures
        forall|j: int| 0 <= j < deps.len() ==> assoc_get(recipes, #[trigger] deps[j]) is Some,
    decreases deps.len(),
{
    if deps.len() > 0 {
        lemma_no_unknown_dep(recipes, deps.drop_first());
        assert forall|j: int| 0 <= j < deps.len() implies assoc_get(recipes, #[trigger] deps[j]) is Some by {
            if j > 0 {
                assert(deps[j] == deps.drop_first()[j - 1]);
            }
        }
    }
}

proof fn lemma_no_problem_from(recipes: Seq<(Seq<char>, RecipeV)>, i: int, path: Seq<char>)
    requires
        0 <= i,
        first_problem(recipes, i, path) is None,
    ensures
        forall|k: int| i <= k < recipes.len() ==> #[trigger] recipe_problem(
            recipes,
            recipes[k].0,
            recipes[k].1,
            path,
        ) is None,
    decreases recipes.len() - i,
{
    if i < recipes.len() {
        lemma_no_problem_from(recipes, i + 1, path);
    }
}

/// Law: a configuration that validates has no dangling dep (every dep of
/// every recipe names a recipe) and no recipe lacks the field its type
/// requires.
pub proof fn law_valid_config(recipes: Seq<(Seq<char>, RecipeV)>, path: Seq<char>)
    requires
        first_problem(recipes, 0, path) is None,
    ensures
        forall|k: int, j: int|
            0 <= k < recipes.len() && 0 <= j < recipes[k].1.deps.len() ==> assoc_get(
                recipes,
                #[trigger] recipes[k].1.deps[j],
            ) is Some,
        forall|k: int| 0 <= k < recipes.len() ==> !field_missing(#[trigger] recipes[k].1),
{
    lemma_no_problem_from(recipes, 0, path);
    assert forall|k: int, j: int|
        0 <= k < recipes.len() && 0 <= j < recipes[k].1.deps.len() implies assoc_get(
        recipes,
        #[trigger] recipes[k].1.deps[j],
    ) is Some by {
        assert(recipe_problem(recipes, recipes[k].0, recipes[k].1, path) is None);
        lemma_no_unknown_dep(recipes, recipes[k].1.deps);
    }
    assert forall|k: int| 0 <= k < recipes.len() implies !field_missing(#[trigger] recipes[k].1) by {
        assert(recipe_problem(recipes, recipes[k].0, recipes[k].1, path) is None);
    }
}

/// Check that every dep names a recipe and every recipe has the field its
/// type requires.  Recipes are checked in name order and the first problem
/// is returned; a missing dep is reported against `path`, a missing field
/// against an empty path.
pub fn validate(config: &Config, path: &str) -> (r: Result<(), Error>)
    ensures
        match r {
            Ok(_) => first_problem(config.recipe@, 0, path@) is None,
            Err(e) => first_problem(config.recipe@, 0, path@) matches Some((p, m)) && is_config_error(
                e,
                p,
                m,
            ),
        },
{
    let n = config.recipe.len();
    let ghost rs = config.recipe@;
    let mut i: usize = n;
    // walk backwards so that the answer for index i is known from i + 1
    let mut found: Option<Error> = None;
    while i > 0
        invariant
            i <= n,
            n == rs.len(),
            rs == config.recipe@,
            match found {
                Some(e) => first_problem(rs, i as int, path@) matches Some((p, m))
                    && is_config_error(e, p, m),
                None => first_problem(rs, i as int, path@) is None,
            },
        decreases i,
    {
        i -= 1;
        let (name, recipe) = config.recipe.entry(i);
        match check_recipe(&config.recipe, name.as_str(), recipe, path) {
            Some(e) => {
                found = Some(e);
            },
            None => {},
        }
    }
    match found {
        Some(e) => Err(e),
        None => Ok(()),
    }
}

/// The problem with one recipe, as an error.
fn check_recipe(recipes: &OrdMap<Recipe>, name: &str, recipe: &Recipe, path: &str) -> (r: Option<
    Error,
>)
    ensures
        match r {
            Some(e) => recipe_problem(recipes@, name@, recipe@, path@) matches Some((p, m))
                && is_config_error(e, p, m),
            None => recipe_problem(recipes@, name@, recipe@, path@) is None,
        },
{
    let mut j: usize = 0;
    assert(sv(recipe.deps@).skip(0) =~= sv(recipe.deps@));
    while j < recipe.deps.len()
        invariant
            j <= recipe.deps@.len(),
            first_unknown_dep(recipes@, sv(recipe.deps@)) == first_unknown_dep(
                recipes@,
                sv(recipe.deps@).skip(j as int),
            ),
        decreases recipe.deps@.len() - j,
    {
        let dep = &recipe.deps[j];
        let ghost t = sv(recipe.deps@).skip(j as int);
        assert(t[0] == dep@);
        assert(t.drop_first() =~= sv(recipe.deps@).skip(j + 1));
        if !recipes.contains_key(dep.as_str()) {
            return Some(Error::Config { path: path.to_owned(), message: dep_message(name, dep.as_str()) });
        }
        j += 1;
    }
    assert(sv(recipe.deps@).skip(recipe.deps@.len() as int) =~= Seq::<Seq<char>>::empty());
    let ghost rv = recipe@;
    match recipe.recipe_type {
        RecipeType::CBin | RecipeType::CLib => require_non_empty_vec(
            "sources",
            recipe.sources.as_slice(),
            name,
        ),
        RecipeType::Shell | RecipeType::Npm | RecipeType::Bridge => {
            require_field("script", recipe.script.as_ref(), name)
        },
        RecipeType::DockerBuild | RecipeType::DockerPush => {
            require_field("image", recipe.image.as_ref(), name)
        },
        RecipeType::Plugin => {
            require_field("plugin", recipe.plugin.as_ref(), name)
        },
        RecipeType::PrecompiledBin => {
            require_field("url", recipe.url.as_ref(), name)
        },
        _ => {
            require_field("package", recipe.package.as_ref(), name)
        },
    }
}

impl Config {
    /// Merge an included fragment: each env entry, target and recipe of the
    /// fragment is added unless the configuration already has one of that
    /// name (the main file wins).
    pub fn merge_fragment(&mut self, fragment: IncludeFragment)
        ensures
            final(self).env.global@ == merge_absent(old(self).env.global@, fragment.env.global@),
            final(self).targets@ == merge_absent(old(self).targets@, fragment.targets@),
            final(self).recipe@ == merge_absent(old(self).recipe@, fragment.recipe@),
            final(self).project == old(self).project,
    {
        merge_missing(&mut self.env.global, fragment.env.global);
        merge_missing(&mut self.targets, fragment.targets);
        merge_missing(&mut self.recipe, fragment.recipe);
    }
}

// ---------------------------------------------------------------------------
// Scripts
// ---------------------------------------------------------------------------

/// The keys of the `scripts` table tried for an OS, most specific first.
pub open spec fn script_candidates(os: Seq<char>, family: Seq<char>) -> Seq<Seq<char>> {
    if os == "freebsd"@ || os == "netbsd"@ || os == "openbsd"@ {
        seq![os, "bsd"@, family]
    } else if os == "windows"@ {
        seq!["win"@, os, family]
    } else {
        seq![os, family]
    }
}

/// The first candidate key present in `scripts`, if any.
pub open spec fn first_script(scripts: Seq<(Seq<char>, Seq<char>)>, keys: Seq<Seq<char>>) -> Option<
    Seq<char>,
>
    decreases keys.len(),
{
    if keys.len() == 0 {
        None
    } else {
        match assoc_get(scripts, keys[0]) {
            Some(s) => Some(s),
            None => first_script(scripts, keys.drop_first()),
        }
    }
}

/// The script for OS `os` of OS family `family`.
pub open spec fn resolved_script_spec(r: RecipeV, os: Seq<char>, family: Seq<char>) -> Option<
    Seq<char>,
> {
    match first_script(r.scripts, script_candidates(os, family)) {
        Some(s) => Some(s),
        None => if family == "windows"@ {
            if r.script_win is Some {
                r.script_win
            } else {
                r.script
            }
        } else {
            r.script
        },
    }
}

impl Recipe {
    /// The script to run on OS `os` (such as `linux`, `macos`, `windows`)
    /// of family `family` (`unix`, `windows` or empty): the first entry of
    /// `scripts` under the OS, its group (`bsd` for the BSDs, `win` first for
    /// Windows) or the family; otherwise `script_win` on Windows, then
    /// `script`.
    pub fn resolved_script(&self, os: &str, family: &str) -> (r: Option<&String>)
        ensures
            match r {
                Some(s) => resolved_script_spec(self@, os@, family@) == Some(s@),
                None => resolved_script_spec(self@, os@, family@) is None,
            },
    {
        let mut keys: Vec<&str> = Vec::new();
        if str_eq(os, "freebsd") || str_eq(os, "netbsd") || str_eq(os, "openbsd") {
            keys.push(os);
            keys.push("bsd");
            keys.push(family);
        } else if str_eq(os, "windows") {
            keys.push("win");
            keys.push(os);
            keys.push(family);
        } else {
            keys.push(os);
            keys.push(family);
        }
        let ghost cands = keys@.map_values(|k: &str| k@);
        assert(cands =~= script_candidates(os@, family@));
        let mut i: usize = 0;
        assert(cands.skip(0) =~= cands);
        while i < keys.len()
            invariant
                i <= keys@.len(),
                cands == keys@.map_values(|k: &str| k@),
                cands == script_candidates(os@, family@),
                first_script(self.scripts@, cands) == first_script(self.scripts@, cands.skip(i as int)),
            decreases keys@.len() - i,
        {
            let ghost t = cands.skip(i as int);
            assert(t[0] == keys@[i as int]@);
            assert(t.drop_first() =~= cands.skip(i + 1));
            match self.scripts.get(keys[i]) {
                Some(s) => {
                    assert(first_script(self.scripts@, t) == Some(s@));
                    return Some(s);
                },
                None => {},
            }
            i += 1;
        }
        assert(cands.skip(keys@.len() as int) =~= Seq::<Seq<char>>::empty());
        if str_eq(family, "windows") {
            match &self.script_win {
                Some(s) => Some(s),
                None => self.script.as_ref(),
            }
        } else {
            self.script.as_ref()
        }
    }
}

} // verus!
