//! Reading a Mustfile: the TOML document, parsed by the `toml` crate, is
//! decoded here into the configuration types, field by field, with the
//! defaults of absent fields and an error for the first field of the wrong
//! shape.

use vstd::prelude::*;
use crate::config::{
    CacheMode, Config, CrossBackend, CrossConfig, CrossConfigV, EnvMap, EnvValue, EnvValueV,
    IncludeFragment, Project, Recipe, RecipeType, RecipeV,
};
use crate::error::{Error, is_config_error};
use crate::map::{OrdMap, assoc_insert};
use crate::text::{chars_of, extend_str, str_eq, string_of, sv};

verus! {

#[verifier::external_type_specification]
#[verifier::external_body]
pub struct ExTomlValue(toml::Value);

/// A TOML value as the decoder reads it.  A float is kept without its
/// number (no Mustfile field takes one).
#[derive(Debug)]
pub enum TomlValue {
    Str(String),
    Int(i64),
    Float,
    Bool(bool),
    Datetime(String),
    Array(Vec<TomlValue>),
    Table(Vec<(String, TomlValue)>),
}

/// The top-level table the `toml` crate reads from a text, in the crate's
/// key order, or the text of its parse error.
pub uninterp spec fn toml_document(text: Seq<char>) -> Result<Seq<(String, TomlValue)>, Seq<char>>;

/// `toml::from_str::<toml::Table>`: parses a TOML document into its
/// top-level table.  The contract names the outcome as a function of the
/// text; the error is the parse error's text.
#[verifier::external_body]
fn parse_toml(text: &str) -> (r: Result<Vec<(String, TomlValue)>, String>)
    ensures
        match r {
            Ok(t) => toml_document(text@) == Ok::<Seq<(String, TomlValue)>, Seq<char>>(t@),
            Err(m) => toml_document(text@) == Err::<Seq<(String, TomlValue)>, Seq<char>>(m@),
        },
{
    match toml::from_str::<toml::Table>(text) {
        Ok(t) => Ok(t.into_iter().map(|(k, v)| (k, toml_value(v))).collect()),
        Err(e) => Err(e.to_string()),
    }
}

/// The library's form of a `toml::Value`, variant for variant.
#[verifier::external_body]
fn toml_value(v: toml::Value) -> TomlValue {
    match v {
        toml::Value::String(s) => TomlValue::Str(s),
        toml::Value::Integer(i) => TomlValue::Int(i),
        toml::Value::Float(_) => TomlValue::Float,
        toml::Value::Boolean(b) => TomlValue::Bool(b),
        toml::Value::Datetime(d) => TomlValue::Datetime(d.to_string()),
        toml::Value::Array(a) => TomlValue::Array(a.into_iter().map(toml_value).collect()),
        toml::Value::Table(t) => TomlValue::Table(t.into_iter().map(|(k, x)| (k, toml_value(x))).collect()),
    }
}

// ---------------------------------------------------------------------------
// Reading fields
// ---------------------------------------------------------------------------

/// The value of the first entry named `k`.
pub open spec fn lookup(t: Seq<(String, TomlValue)>, k: Seq<char>) -> Option<TomlValue>
    decreases t.len(),
{
    if t.len() == 0 {
        None
    } else if t[0].0@ == k {
        Some(t[0].1)
    } else {
        lookup(t.drop_first(), k)
    }
}

/// The message for a field of the wrong shape.
pub open spec fn type_error(key: Seq<char>, what: Seq<char>) -> Seq<char> {
    "invalid type for `"@ + key + "`: expected "@ + what
}

/// The message for a required field that is absent.
pub open spec fn missing(key: Seq<char>) -> Seq<char> {
    "missing field `"@ + key + "`"@
}

/// The message for a name that is not one of a field's variants.
pub open spec fn unknown_variant(key: Seq<char>, v: Seq<char>) -> Seq<char> {
    "unknown variant `"@ + v + "` for `"@ + key + "`"@
}

fn type_error_msg(key: &str, what: &str) -> (r: String)
    ensures
        r@ == type_error(key@, what@),
{
    let mut v = chars_of("invalid type for `");
    extend_str(&mut v, key);
    extend_str(&mut v, "`: expected ");
    extend_str(&mut v, what);
    string_of(&v)
}

fn missing_msg(key: &str) -> (r: String)
    ensures
        r@ == missing(key@),
{
    let mut v = chars_of("missing field `");
    extend_str(&mut v, key);
    extend_str(&mut v, "`");
    string_of(&v)
}

fn unknown_variant_msg(key: &str, value: &str) -> (r: String)
    ensures
        r@ == unknown_variant(key@, value@),
{
    let mut v = chars_of("unknown variant `");
    extend_str(&mut v, value);
    extend_str(&mut v, "` for `");
    extend_str(&mut v, key);
    extend_str(&mut v, "`");
    string_of(&v)
}

/// The value of the first entry named `k`.
pub fn find<'a>(t: &'a Vec<(String, TomlValue)>, k: &str) -> (r: Option<&'a TomlValue>)
    ensures
        match r {
            Some(v) => lookup(t@, k@) == Some(*v),
            None => lookup(t@, k@) is None,
        },
{
    let mut i: usize = 0;
    assert(t@.skip(0) =~= t@);
    while i < t.len()
        invariant
            i <= t@.len(),
            lookup(t@, k@) == lookup(t@.skip(i as int), k@),
        decreases t@.len() - i,
    {
        proof {
            let s = t@.skip(i as int);
            assert(s[0] == t@[i as int]);
            assert(s.drop_first() =~= t@.skip(i + 1));
        }
        if str_eq(t[i].0.as_str(), k) {
            return Some(&t[i].1);
        }
        i += 1;
    }
    assert(t@.skip(i as int) =~= Seq::<(String, TomlValue)>::empty());
    None
}

/// The strings of an array, if every item is a string.
pub open spec fn str_list(v: Seq<TomlValue>) -> Option<Seq<Seq<char>>>
    decreases v.len(),
{
    if v.len() == 0 {
        Some(seq![])
    } else {
        match (str_list(v.drop_last()), v.last()) {
            (Some(l), TomlValue::Str(s)) => Some(l.push(s@)),
            _ => None,
        }
    }
}

/// The entries of a table of strings, inserted in turn, if every value is
/// a string.
pub open spec fn str_pairs(t: Seq<(String, TomlValue)>) -> Option<Seq<(Seq<char>, Seq<char>)>>
    decreases t.len(),
{
    if t.len() == 0 {
        Some(seq![])
    } else {
        match (str_pairs(t.drop_last()), t.last().1) {
            (Some(m), TomlValue::Str(s)) => Some(assoc_insert(m, t.last().0@, s@)),
            _ => None,
        }
    }
}

/// The strings of an array, if every item is a string.
fn strings_of(v: &Vec<TomlValue>) -> (r: Option<Vec<String>>)
    ensures
        match r {
            Some(l) => str_list(v@) == Some(sv(l@)),
            None => str_list(v@) is None,
        },
{
    let mut out: Vec<String> = Vec::new();
    let mut i: usize = 0;
    while i < v.len()
        invariant
            i <= v@.len(),
            str_list(v@.take(i as int)) == Some(sv(out@)),
        decreases v@.len() - i,
    {
        assert(v@.take(i + 1).drop_last() =~= v@.take(i as int));
        match &v[i] {
            TomlValue::Str(s) => {
                let ghost before = out@;
                out.push(s.clone());
                assert(sv(out@) =~= sv(before).push(s@));
            },
            _ => {
                assert(str_list(v@.take(i + 1)) is None);
                proof {
                    lemma_str_list_prefix(v@, i + 1);
                }
                return None;
            },
        }
        i += 1;
    }
    assert(v@.take(v@.len() as int) =~= v@);
    Some(out)
}

proof fn lemma_str_list_prefix(v: Seq<TomlValue>, k: int)
    requires
        0 <= k <= v.len(),
        str_list(v.take(k)) is None,
    ensures
        str_list(v) is None,
    decreases v.len() - k,
{
    if k < v.len() {
        assert(v.take(k + 1).drop_last() =~= v.take(k));
        lemma_str_list_prefix(v, k + 1);
    } else {
        assert(v.take(k) =~= v);
    }
}

proof fn lemma_str_pairs_prefix(t: Seq<(String, TomlValue)>, k: int)
    requires
        0 <= k <= t.len(),
        str_pairs(t.take(k)) is None,
    ensures
        str_pairs(t) is None,
    decreases t.len() - k,
{
    if k < t.len() {
        assert(t.take(k + 1).drop_last() =~= t.take(k));
        lemma_str_pairs_prefix(t, k + 1);
    } else {
        assert(t.take(k) =~= t);
    }
}

/// The entries of a table of strings, if every value is a string.
fn string_pairs(t: &Vec<(String, TomlValue)>) -> (r: Option<OrdMap<String>>)
    ensures
        match r {
            Some(m) => str_pairs(t@) == Some(m@),
            None => str_pairs(t@) is None,
        },
{
    let mut m: OrdMap<String> = OrdMap::new();
    let mut i: usize = 0;
    while i < t.len()
        invariant
            i <= t@.len(),
            str_pairs(t@.take(i as int)) == Some(m@),
        decreases t@.len() - i,
    {
        assert(t@.take(i + 1).drop_last() =~= t@.take(i as int));
        assert(t@.take(i + 1).last() == t@[i as int]);
        match &t[i].1 {
            TomlValue::Str(s) => {
                m.insert(t[i].0.clone(), s.clone());
            },
            _ => {
                proof {
                    lemma_str_pairs_prefix(t@, i + 1);
                }
                return None;
            },
        }
        i += 1;
    }
    assert(t@.take(t@.len() as int) =~= t@);
    Some(m)
}

/// An optional string field.
pub open spec fn opt_str_field(t: Seq<(String, TomlValue)>, key: Seq<char>) -> Result<
    Option<Seq<char>>,
    Seq<char>,
> {
    match lookup(t, key) {
        None => Ok(None),
        Some(TomlValue::Str(s)) => Ok(Some(s@)),
        Some(_) => Err(type_error(key, "a string"@)),
    }
}

/// A list of strings, empty when absent.
pub open spec fn list_field(t: Seq<(String, TomlValue)>, key: Seq<char>) -> Result<
    Seq<Seq<char>>,
    Seq<char>,
> {
    match lookup(t, key) {
        None => Ok(seq![]),
        Some(TomlValue::Array(a)) => match str_list(a@) {
            Some(l) => Ok(l),
            None => Err(type_error(key, "an array of strings"@)),
        },
        Some(_) => Err(type_error(key, "an array of strings"@)),
    }
}

/// A boolean, false when absent.
pub open spec fn bool_field(t: Seq<(String, TomlValue)>, key: Seq<char>) -> Result<bool, Seq<char>> {
    match lookup(t, key) {
        None => Ok(false),
        Some(TomlValue::Bool(b)) => Ok(b),
        Some(_) => Err(type_error(key, "a boolean"@)),
    }
}

/// A table of strings, empty when absent.
pub open spec fn str_map_field(t: Seq<(String, TomlValue)>, key: Seq<char>) -> Result<
    Seq<(Seq<char>, Seq<char>)>,
    Seq<char>,
> {
    match lookup(t, key) {
        None => Ok(seq![]),
        Some(TomlValue::Table(m)) => match str_pairs(m@) {
            Some(p) => Ok(p),
            None => Err(type_error(key, "a table of strings"@)),
        },
        Some(_) => Err(type_error(key, "a table of strings"@)),
    }
}

fn opt_str(t: &Vec<(String, TomlValue)>, key: &str) -> (r: Result<Option<String>, String>)
    ensures
        match r {
            Ok(Some(s)) => opt_str_field(t@, key@) == Ok::<Option<Seq<char>>, Seq<char>>(Some(s@)),
            Ok(None) => opt_str_field(t@, key@) == Ok::<Option<Seq<char>>, Seq<char>>(None),
            Err(m) => opt_str_field(t@, key@) == Err::<Option<Seq<char>>, Seq<char>>(m@),
        },
{
    match find(t, key) {
        None => Ok(None),
        Some(TomlValue::Str(s)) => Ok(Some(s.clone())),
        Some(_) => Err(type_error_msg(key, "a string")),
    }
}

fn list(t: &Vec<(String, TomlValue)>, key: &str) -> (r: Result<Vec<String>, String>)
    ensures
        match r {
            Ok(l) => list_field(t@, key@) == Ok::<Seq<Seq<char>>, Seq<char>>(sv(l@)),
            Err(m) => list_field(t@, key@) == Err::<Seq<Seq<char>>, Seq<char>>(m@),
        },
{
    match find(t, key) {
        None => {
            let l: Vec<String> = Vec::new();
            assert(sv(l@) =~= Seq::<Seq<char>>::empty());
            Ok(l)
        },
        Some(TomlValue::Array(a)) => match strings_of(a) {
            Some(l) => Ok(l),
            None => Err(type_error_msg(key, "an array of strings")),
        },
        Some(_) => Err(type_error_msg(key, "an array of strings")),
    }
}

fn flag(t: &Vec<(String, TomlValue)>, key: &str) -> (r: Result<bool, String>)
    ensures
        match r {
            Ok(b) => bool_field(t@, key@) == Ok::<bool, Seq<char>>(b),
            Err(m) => bool_field(t@, key@) == Err::<bool, Seq<char>>(m@),
        },
{
    match find(t, key) {
        None => Ok(false),
        Some(TomlValue::Bool(b)) => Ok(*b),
        Some(_) => Err(type_error_msg(key, "a boolean")),
    }
}

fn str_map(t: &Vec<(String, TomlValue)>, key: &str) -> (r: Result<OrdMap<String>, String>)
    ensures
        match r {
            Ok(m) => str_map_field(t@, key@) == Ok::<Seq<(Seq<char>, Seq<char>)>, Seq<char>>(m@),
            Err(m) => str_map_field(t@, key@) == Err::<Seq<(Seq<char>, Seq<char>)>, Seq<char>>(m@),
        },
{
    match find(t, key) {
        None => Ok(OrdMap::new()),
        Some(TomlValue::Table(m)) => match string_pairs(m) {
            Some(p) => Ok(p),
            None => Err(type_error_msg(key, "a table of strings")),
        },
        Some(_) => Err(type_error_msg(key, "a table of strings")),
    }
}

/// The `type` field: required, one of the recipe type tags.
pub open spec fn type_field(t: Seq<(String, TomlValue)>) -> Result<RecipeType, Seq<char>> {
    match lookup(t, "type"@) {
        None => Err(missing("type"@)),
        Some(TomlValue::Str(s)) => match type_of_tag(s@) {
            Some(ty) => Ok(ty),
            None => Err(unknown_variant("type"@, s@)),
        },
        Some(_) => Err(type_error("type"@, "a string"@)),
    }
}

fn decode_type(t: &Vec<(String, TomlValue)>) -> (r: Result<RecipeType, String>)
    ensures
        match r {
            Ok(x) => type_field(t@) == Ok::<RecipeType, Seq<char>>(x),
            Err(m) => type_field(t@) == Err::<RecipeType, Seq<char>>(m@),
        },
{
    match find(t, "type") {
        None => Err(missing_msg("type")),
        Some(TomlValue::Str(s)) => match recipe_type_of(s.as_str()) {
            Some(ty) => Ok(ty),
            None => Err(unknown_variant_msg("type", s.as_str())),
        },
        Some(_) => Err(type_error_msg("type", "a string")),
    }
}

/// The cache mode a name gives.
pub open spec fn cache_of(s: Seq<char>) -> Option<CacheMode> {
    if s == "hash"@ {
        Some(CacheMode::Hash)
    } else if s == "mtime"@ {
        Some(CacheMode::Mtime)
    } else if s == "none"@ {
        Some(CacheMode::Disabled)
    } else {
        None
    }
}

/// The `cache` field: `hash`, `mtime` or `none`, absent by default.
pub open spec fn cache_field(t: Seq<(String, TomlValue)>) -> Result<Option<CacheMode>, Seq<char>> {
    match lookup(t, "cache"@) {
        None => Ok(None),
        Some(TomlValue::Str(s)) => match cache_of(s@) {
            Some(c) => Ok(Some(c)),
            None => Err(unknown_variant("cache"@, s@)),
        },
        Some(_) => Err(type_error("cache"@, "a string"@)),
    }
}

fn decode_cache(t: &Vec<(String, TomlValue)>) -> (r: Result<Option<CacheMode>, String>)
    ensures
        match r {
            Ok(x) => cache_field(t@) == Ok::<Option<CacheMode>, Seq<char>>(x),
            Err(m) => cache_field(t@) == Err::<Option<CacheMode>, Seq<char>>(m@),
        },
{
    match find(t, "cache") {
        None => Ok(None),
        Some(TomlValue::Str(s)) => {
            if str_eq(s.as_str(), "hash") {
                Ok(Some(CacheMode::Hash))
            } else if str_eq(s.as_str(), "mtime") {
                Ok(Some(CacheMode::Mtime))
            } else if str_eq(s.as_str(), "none") {
                Ok(Some(CacheMode::Disabled))
            } else {
                Err(unknown_variant_msg("cache", s.as_str()))
            }
        },
        Some(_) => Err(type_error_msg("cache", "a string")),
    }
}

/// The backend a name gives.
pub open spec fn backend_of(s: Seq<char>) -> Option<CrossBackend> {
    if s == "container"@ {
        Some(CrossBackend::Container)
    } else if s == "local"@ {
        Some(CrossBackend::Local)
    } else {
        None
    }
}

/// One cross target's table: an optional linker and an optional backend.
pub open spec fn cross_entry(v: TomlValue) -> Result<CrossConfigV, Seq<char>> {
    match v {
        TomlValue::Table(c) => {
            let linker = opt_str_field(c@, "linker"@);
            let backend = match lookup(c@, "cross"@) {
                None => Ok(None),
                Some(TomlValue::Str(s)) => match backend_of(s@) {
                    Some(b) => Ok(Some(b)),
                    None => Err(unknown_variant("cross"@, s@)),
                },
                Some(_) => Err(type_error("cross"@, "a string"@)),
            };
            if linker is Err {
                Err(linker->Err_0)
            } else if backend is Err {
                Err(backend->Err_0)
            } else {
                Ok(CrossConfigV { linker: linker->Ok_0, cross: backend->Ok_0 })
            }
        },
        _ => Err(type_error("cross"@, "a table"@)),
    }
}

/// The cross tables, inserted in turn; the first bad one gives the error.
pub open spec fn cross_entries(t: Seq<(String, TomlValue)>) -> Result<
    Seq<(Seq<char>, CrossConfigV)>,
    Seq<char>,
>
    decreases t.len(),
{
    if t.len() == 0 {
        Ok(seq![])
    } else {
        match cross_entries(t.drop_last()) {
            Err(e) => Err(e),
            Ok(m) => match cross_entry(t.last().1) {
                Ok(c) => Ok(assoc_insert(m, t.last().0@, c)),
                Err(e) => Err(e),
            },
        }
    }
}

/// The `cross` field: a table of cross targets, empty when absent.
pub open spec fn cross_field(t: Seq<(String, TomlValue)>) -> Result<
    Seq<(Seq<char>, CrossConfigV)>,
    Seq<char>,
> {
    match lookup(t, "cross"@) {
        None => Ok(seq![]),
        Some(TomlValue::Table(m)) => cross_entries(m@),
        Some(_) => Err(type_error("cross"@, "a table"@)),
    }
}

fn decode_cross_entry(v: &TomlValue) -> (r: Result<CrossConfig, String>)
    ensures
        match r {
            Ok(c) => cross_entry(*v) == Ok::<CrossConfigV, Seq<char>>(c@),
            Err(m) => cross_entry(*v) == Err::<CrossConfigV, Seq<char>>(m@),
        },
{
    match v {
        TomlValue::Table(c) => {
            let linker = match opt_str(c, "linker") {
                Ok(x) => x,
                Err(m) => return Err(m),
            };
            let backend = match find(c, "cross") {
                None => None,
                Some(TomlValue::Str(s)) => {
                    if str_eq(s.as_str(), "container") {
                        Some(CrossBackend::Container)
                    } else if str_eq(s.as_str(), "local") {
                        Some(CrossBackend::Local)
                    } else {
                        return Err(unknown_variant_msg("cross", s.as_str()));
                    }
                },
                Some(_) => return Err(type_error_msg("cross", "a string")),
            };
            Ok(CrossConfig { linker, cross: backend })
        },
        _ => Err(type_error_msg("cross", "a table")),
    }
}

proof fn lemma_cross_prefix(t: Seq<(String, TomlValue)>, k: int)
    requires
        0 <= k <= t.len(),
        cross_entries(t.take(k)) is Err,
    ensures
        cross_entries(t) == cross_entries(t.take(k)),
    decreases t.len() - k,
{
    if k < t.len() {
        assert(t.take(k + 1).drop_last() =~= t.take(k));
        lemma_cross_prefix(t, k + 1);
    } else {
        assert(t.take(k) =~= t);
    }
}

fn decode_cross(t: &Vec<(String, TomlValue)>) -> (r: Result<OrdMap<CrossConfig>, String>)
    ensures
        match r {
            Ok(m) => cross_field(t@) == Ok::<Seq<(Seq<char>, CrossConfigV)>, Seq<char>>(m@),
            Err(m) => cross_field(t@) == Err::<Seq<(Seq<char>, CrossConfigV)>, Seq<char>>(m@),
        },
{
    match find(t, "cross") {
        None => Ok(OrdMap::new()),
        Some(TomlValue::Table(entries)) => {
            let mut m: OrdMap<CrossConfig> = OrdMap::new();
            let mut i: usize = 0;
            while i < entries.len()
                invariant
                    i <= entries@.len(),
                    cross_field(t@) == cross_entries(entries@),
                    cross_entries(entries@.take(i as int)) == Ok::<
                        Seq<(Seq<char>, CrossConfigV)>,
                        Seq<char>,
                    >(m@),
                decreases entries@.len() - i,
            {
                assert(entries@.take(i + 1).drop_last() =~= entries@.take(i as int));
                assert(entries@.take(i + 1).last() == entries@[i as int]);
                match decode_cross_entry(&entries[i].1) {
                    Ok(c) => {
                        m.insert(entries[i].0.clone(), c);
                    },
                    Err(e) => {
                        proof {
                            lemma_cross_prefix(entries@, i + 1);
                        }
                        return Err(e);
                    },
                }
                i += 1;
            }
            assert(entries@.take(entries@.len() as int) =~= entries@);
            Ok(m)
        },
        Some(_) => Err(type_error_msg("cross", "a table")),
    }
}

/// The recipe type a tag names (the kebab-case form of the type).
pub open spec fn type_of_tag(s: Seq<char>) -> Option<RecipeType> {
    if s == "shell"@ {
        Some(RecipeType::Shell)
    } else if s == "rust-bin"@ {
        Some(RecipeType::RustBin)
    } else if s == "rust-lib"@ {
        Some(RecipeType::RustLib)
    } else if s == "rust-test"@ {
        Some(RecipeType::RustTest)
    } else if s == "go-bin"@ {
        Some(RecipeType::GoBin)
    } else if s == "go-test"@ {
        Some(RecipeType::GoTest)
    } else if s == "c-bin"@ {
        Some(RecipeType::CBin)
    } else if s == "c-lib"@ {
        Some(RecipeType::CLib)
    } else if s == "ts-bin"@ {
        Some(RecipeType::TsBin)
    } else if s == "ts-check"@ {
        Some(RecipeType::TsCheck)
    } else if s == "ts-lint"@ {
        Some(RecipeType::TsLint)
    } else if s == "npm"@ {
        Some(RecipeType::Npm)
    } else if s == "py-bin"@ {
        Some(RecipeType::PyBin)
    } else if s == "py-test"@ {
        Some(RecipeType::PyTest)
    } else if s == "py-lint"@ {
        Some(RecipeType::PyLint)
    } else if s == "zig-bin"@ {
        Some(RecipeType::ZigBin)
    } else if s == "zig-test"@ {
        Some(RecipeType::ZigTest)
    } else if s == "docker-build"@ {
        Some(RecipeType::DockerBuild)
    } else if s == "docker-push"@ {
        Some(RecipeType::DockerPush)
    } else if s == "plugin"@ {
        Some(RecipeType::Plugin)
    } else if s == "java-bin"@ {
        Some(RecipeType::JavaBin)
    } else if s == "java-test"@ {
        Some(RecipeType::JavaTest)
    } else if s == "kotlin-bin"@ {
        Some(RecipeType::KotlinBin)
    } else if s == "kotlin-test"@ {
        Some(RecipeType::KotlinTest)
    } else if s == "swift-bin"@ {
        Some(RecipeType::SwiftBin)
    } else if s == "swift-test"@ {
        Some(RecipeType::SwiftTest)
    } else if s == "dotnet-build"@ {
        Some(RecipeType::DotnetBuild)
    } else if s == "dotnet-test"@ {
        Some(RecipeType::DotnetTest)
    } else if s == "dotnet-publish"@ {
        Some(RecipeType::DotnetPublish)
    } else if s == "ruby-bin"@ {
        Some(RecipeType::RubyBin)
    } else if s == "ruby-test"@ {
        Some(RecipeType::RubyTest)
    } else if s == "dart-bin"@ {
        Some(RecipeType::DartBin)
    } else if s == "dart-test"@ {
        Some(RecipeType::DartTest)
    } else if s == "elixir-build"@ {
        Some(RecipeType::ElixirBuild)
    } else if s == "elixir-test"@ {
        Some(RecipeType::ElixirTest)
    } else if s == "flutter-build"@ {
        Some(RecipeType::FlutterBuild)
    } else if s == "flutter-test"@ {
        Some(RecipeType::FlutterTest)
    } else if s == "nim-bin"@ {
        Some(RecipeType::NimBin)
    } else if s == "nim-test"@ {
        Some(RecipeType::NimTest)
    } else if s == "precompiled-bin"@ {
        Some(RecipeType::PrecompiledBin)
    } else if s == "bridge"@ {
        Some(RecipeType::Bridge)
    } else {
        None
    }
}

/// The recipe type a tag names.
pub fn recipe_type_of(s: &str) -> (r: Option<RecipeType>)
    ensures
        r == type_of_tag(s@),
{
    if str_eq(s, "shell") {
        Some(RecipeType::Shell)
    } else if str_eq(s, "rust-bin") {
        Some(RecipeType::RustBin)
    } else if str_eq(s, "rust-lib") {
        Some(RecipeType::RustLib)
    } else if str_eq(s, "rust-test") {
        Some(RecipeType::RustTest)
    } else if str_eq(s, "go-bin") {
        Some(RecipeType::GoBin)
    } else if str_eq(s, "go-test") {
        Some(RecipeType::GoTest)
    } else if str_eq(s, "c-bin") {
        Some(RecipeType::CBin)
    } else if str_eq(s, "c-lib") {
        Some(RecipeType::CLib)
    } else if str_eq(s, "ts-bin") {
        Some(RecipeType::TsBin)
    } else if str_eq(s, "ts-check") {
        Some(RecipeType::TsCheck)
    } else if str_eq(s, "ts-lint") {
        Some(RecipeType::TsLint)
    } else if str_eq(s, "npm") {
        Some(RecipeType::Npm)
    } else if str_eq(s, "py-bin") {
        Some(RecipeType::PyBin)
    } else if str_eq(s, "py-test") {
        Some(RecipeType::PyTest)
    } else if str_eq(s, "py-lint") {
        Some(RecipeType::PyLint)
    } else if str_eq(s, "zig-bin") {
        Some(RecipeType::ZigBin)
    } else if str_eq(s, "zig-test") {
        Some(RecipeType::ZigTest)
    } else if str_eq(s, "docker-build") {
        Some(RecipeType::DockerBuild)
    } else if str_eq(s, "docker-push") {
        Some(RecipeType::DockerPush)
    } else if str_eq(s, "plugin") {
        Some(RecipeType::Plugin)
    } else if str_eq(s, "java-bin") {
        Some(RecipeType::JavaBin)
    } else if str_eq(s, "java-test") {
        Some(RecipeType::JavaTest)
    } else if str_eq(s, "kotlin-bin") {
        Some(RecipeType::KotlinBin)
    } else if str_eq(s, "kotlin-test") {
        Some(RecipeType::KotlinTest)
    } else if str_eq(s, "swift-bin") {
        Some(RecipeType::SwiftBin)
    } else if str_eq(s, "swift-test") {
        Some(RecipeType::SwiftTest)
    } else if str_eq(s, "dotnet-build") {
        Some(RecipeType::DotnetBuild)
    } else if str_eq(s, "dotnet-test") {
        Some(RecipeType::DotnetTest)
    } else if str_eq(s, "dotnet-publish") {
        Some(RecipeType::DotnetPublish)
    } else if str_eq(s, "ruby-bin") {
        Some(RecipeType::RubyBin)
    } else if str_eq(s, "ruby-test") {
        Some(RecipeType::RubyTest)
    } else if str_eq(s, "dart-bin") {
        Some(RecipeType::DartBin)
    } else if str_eq(s, "dart-test") {
        Some(RecipeType::DartTest)
    } else if str_eq(s, "elixir-build") {
        Some(RecipeType::ElixirBuild)
    } else if str_eq(s, "elixir-test") {
        Some(RecipeType::ElixirTest)
    } else if str_eq(s, "flutter-build") {
        Some(RecipeType::FlutterBuild)
    } else if str_eq(s, "flutter-test") {
        Some(RecipeType::FlutterTest)
    } else if str_eq(s, "nim-bin") {
        Some(RecipeType::NimBin)
    } else if str_eq(s, "nim-test") {
        Some(RecipeType::NimTest)
    } else if str_eq(s, "precompiled-bin") {
        Some(RecipeType::PrecompiledBin)
    } else if str_eq(s, "bridge") {
        Some(RecipeType::Bridge)
    } else {
        None
    }
}

/// The tag of a recipe type.
pub open spec fn tag_of(t: RecipeType) -> Seq<char> {
    match t {
        RecipeType::Shell => "shell"@,
        RecipeType::RustBin => "rust-bin"@,
        RecipeType::RustLib => "rust-lib"@,
        RecipeType::RustTest => "rust-test"@,
        RecipeType::GoBin => "go-bin"@,
        RecipeType::GoTest => "go-test"@,
        RecipeType::CBin => "c-bin"@,
        RecipeType::CLib => "c-lib"@,
        RecipeType::TsBin => "ts-bin"@,
        RecipeType::TsCheck => "ts-check"@,
        RecipeType::TsLint => "ts-lint"@,
        RecipeType::Npm => "npm"@,
        RecipeType::PyBin => "py-bin"@,
        RecipeType::PyTest => "py-test"@,
        RecipeType::PyLint => "py-lint"@,
        RecipeType::ZigBin => "zig-bin"@,
        RecipeType::ZigTest => "zig-test"@,
        RecipeType::DockerBuild => "docker-build"@,
        RecipeType::DockerPush => "docker-push"@,
        RecipeType::Plugin => "plugin"@,
        RecipeType::JavaBin => "java-bin"@,
        RecipeType::JavaTest => "java-test"@,
        RecipeType::KotlinBin => "kotlin-bin"@,
        RecipeType::KotlinTest => "kotlin-test"@,
        RecipeType::SwiftBin => "swift-bin"@,
        RecipeType::SwiftTest => "swift-test"@,
        RecipeType::DotnetBuild => "dotnet-build"@,
        RecipeType::DotnetTest => "dotnet-test"@,
        RecipeType::DotnetPublish => "dotnet-publish"@,
        RecipeType::RubyBin => "ruby-bin"@,
        RecipeType::RubyTest => "ruby-test"@,
        RecipeType::DartBin => "dart-bin"@,
        RecipeType::DartTest => "dart-test"@,
        RecipeType::ElixirBuild => "elixir-build"@,
        RecipeType::ElixirTest => "elixir-test"@,
        RecipeType::FlutterBuild => "flutter-build"@,
        RecipeType::FlutterTest => "flutter-test"@,
        RecipeType::NimBin => "nim-bin"@,
        RecipeType::NimTest => "nim-test"@,
        RecipeType::PrecompiledBin => "precompiled-bin"@,
        RecipeType::Bridge => "bridge"@,
    }
}

/// The tag of a recipe type, as a Mustfile names it.
pub fn recipe_type_tag(t: RecipeType) -> (r: &'static str)
    ensures
        r@ == tag_of(t),
{
    match t {
        RecipeType::Shell => "shell",
        RecipeType::RustBin => "rust-bin",
        RecipeType::RustLib => "rust-lib",
        RecipeType::RustTest => "rust-test",
        RecipeType::GoBin => "go-bin",
        RecipeType::GoTest => "go-test",
        RecipeType::CBin => "c-bin",
        RecipeType::CLib => "c-lib",
        RecipeType::TsBin => "ts-bin",
        RecipeType::TsCheck => "ts-check",
        RecipeType::TsLint => "ts-lint",
        RecipeType::Npm => "npm",
        RecipeType::PyBin => "py-bin",
        RecipeType::PyTest => "py-test",
        RecipeType::PyLint => "py-lint",
        RecipeType::ZigBin => "zig-bin",
        RecipeType::ZigTest => "zig-test",
        RecipeType::DockerBuild => "docker-build",
        RecipeType::DockerPush => "docker-push",
        RecipeType::Plugin => "plugin",
        RecipeType::JavaBin => "java-bin",
        RecipeType::JavaTest => "java-test",
        RecipeType::KotlinBin => "kotlin-bin",
        RecipeType::KotlinTest => "kotlin-test",
        RecipeType::SwiftBin => "swift-bin",
        RecipeType::SwiftTest => "swift-test",
        RecipeType::DotnetBuild => "dotnet-build",
        RecipeType::DotnetTest => "dotnet-test",
        RecipeType::DotnetPublish => "dotnet-publish",
        RecipeType::RubyBin => "ruby-bin",
        RecipeType::RubyTest => "ruby-test",
        RecipeType::DartBin => "dart-bin",
        RecipeType::DartTest => "dart-test",
        RecipeType::ElixirBuild => "elixir-build",
        RecipeType::ElixirTest => "elixir-test",
        RecipeType::FlutterBuild => "flutter-build",
        RecipeType::FlutterTest => "flutter-test",
        RecipeType::NimBin => "nim-bin",
        RecipeType::NimTest => "nim-test",
        RecipeType::PrecompiledBin => "precompiled-bin",
        RecipeType::Bridge => "bridge",
    }
}

/// The name of a recipe type as written in Rust (its variant name).
pub open spec fn variant_name(t: RecipeType) -> Seq<char> {
    match t {
        RecipeType::Shell => "Shell"@,
        RecipeType::RustBin => "RustBin"@,
        RecipeType::RustLib => "RustLib"@,
        RecipeType::RustTest => "RustTest"@,
        RecipeType::GoBin => "GoBin"@,
        RecipeType::GoTest => "GoTest"@,
        RecipeType::CBin => "CBin"@,
        RecipeType::CLib => "CLib"@,
        RecipeType::TsBin => "TsBin"@,
        RecipeType::TsCheck => "TsCheck"@,
        RecipeType::TsLint => "TsLint"@,
        RecipeType::Npm => "Npm"@,
        RecipeType::PyBin => "PyBin"@,
        RecipeType::PyTest => "PyTest"@,
        RecipeType::PyLint => "PyLint"@,
        RecipeType::ZigBin => "ZigBin"@,
        RecipeType::ZigTest => "ZigTest"@,
        RecipeType::DockerBuild => "DockerBuild"@,
        RecipeType::DockerPush => "DockerPush"@,
        RecipeType::Plugin => "Plugin"@,
        RecipeType::JavaBin => "JavaBin"@,
        RecipeType::JavaTest => "JavaTest"@,
        RecipeType::KotlinBin => "KotlinBin"@,
        RecipeType::KotlinTest => "KotlinTest"@,
        RecipeType::SwiftBin => "SwiftBin"@,
        RecipeType::SwiftTest => "SwiftTest"@,
        RecipeType::DotnetBuild => "DotnetBuild"@,
        RecipeType::DotnetTest => "DotnetTest"@,
        RecipeType::DotnetPublish => "DotnetPublish"@,
        RecipeType::RubyBin => "RubyBin"@,
        RecipeType::RubyTest => "RubyTest"@,
        RecipeType::DartBin => "DartBin"@,
        RecipeType::DartTest => "DartTest"@,
        RecipeType::ElixirBuild => "ElixirBuild"@,
        RecipeType::ElixirTest => "ElixirTest"@,
        RecipeType::FlutterBuild => "FlutterBuild"@,
        RecipeType::FlutterTest => "FlutterTest"@,
        RecipeType::NimBin => "NimBin"@,
        RecipeType::NimTest => "NimTest"@,
        RecipeType::PrecompiledBin => "PrecompiledBin"@,
        RecipeType::Bridge => "Bridge"@,
    }
}

/// The name of a recipe type as written in Rust (its variant name).
pub fn recipe_type_name(t: RecipeType) -> (r: &'static str)
    ensures
        r@ == variant_name(t),
{
    match t {
        RecipeType::Shell => "Shell",
        RecipeType::RustBin => "RustBin",
        RecipeType::RustLib => "RustLib",
        RecipeType::RustTest => "RustTest",
        RecipeType::GoBin => "GoBin",
        RecipeType::GoTest => "GoTest",
        RecipeType::CBin => "CBin",
        RecipeType::CLib => "CLib",
        RecipeType::TsBin => "TsBin",
        RecipeType::TsCheck => "TsCheck",
        RecipeType::TsLint => "TsLint",
        RecipeType::Npm => "Npm",
        RecipeType::PyBin => "PyBin",
        RecipeType::PyTest => "PyTest",
        RecipeType::PyLint => "PyLint",
        RecipeType::ZigBin => "ZigBin",
        RecipeType::ZigTest => "ZigTest",
        RecipeType::DockerBuild => "DockerBuild",
        RecipeType::DockerPush => "DockerPush",
        RecipeType::Plugin => "Plugin",
        RecipeType::JavaBin => "JavaBin",
        RecipeType::JavaTest => "JavaTest",
        RecipeType::KotlinBin => "KotlinBin",
        RecipeType::KotlinTest => "KotlinTest",
        RecipeType::SwiftBin => "SwiftBin",
        RecipeType::SwiftTest => "SwiftTest",
        RecipeType::DotnetBuild => "DotnetBuild",
        RecipeType::DotnetTest => "DotnetTest",
        RecipeType::DotnetPublish => "DotnetPublish",
        RecipeType::RubyBin => "RubyBin",
        RecipeType::RubyTest => "RubyTest",
        RecipeType::DartBin => "DartBin",
        RecipeType::DartTest => "DartTest",
        RecipeType::ElixirBuild => "ElixirBuild",
        RecipeType::ElixirTest => "ElixirTest",
        RecipeType::FlutterBuild => "FlutterBuild",
        RecipeType::FlutterTest => "FlutterTest",
        RecipeType::NimBin => "NimBin",
        RecipeType::NimTest => "NimTest",
        RecipeType::PrecompiledBin => "PrecompiledBin",
        RecipeType::Bridge => "Bridge",
    }
}

/// The lowercase name of a recipe type, as the recipe list shows it.
pub open spec fn type_list_name(t: RecipeType) -> Seq<char> {
    match t {
        RecipeType::Shell => "shell"@,
        RecipeType::RustBin => "rustbin"@,
        RecipeType::RustLib => "rustlib"@,
        RecipeType::RustTest => "rusttest"@,
        RecipeType::GoBin => "gobin"@,
        RecipeType::GoTest => "gotest"@,
        RecipeType::CBin => "cbin"@,
        RecipeType::CLib => "clib"@,
        RecipeType::TsBin => "tsbin"@,
        RecipeType::TsCheck => "tscheck"@,
        RecipeType::TsLint => "tslint"@,
        RecipeType::Npm => "npm"@,
        RecipeType::PyBin => "pybin"@,
        RecipeType::PyTest => "pytest"@,
        RecipeType::PyLint => "pylint"@,
        RecipeType::ZigBin => "zigbin"@,
        RecipeType::ZigTest => "zigtest"@,
        RecipeType::DockerBuild => "dockerbuild"@,
        RecipeType::DockerPush => "dockerpush"@,
        RecipeType::Plugin => "plugin"@,
        RecipeType::JavaBin => "javabin"@,
        RecipeType::JavaTest => "javatest"@,
        RecipeType::KotlinBin => "kotlinbin"@,
        RecipeType::KotlinTest => "kotlintest"@,
        RecipeType::SwiftBin => "swiftbin"@,
        RecipeType::SwiftTest => "swifttest"@,
        RecipeType::DotnetBuild => "dotnetbuild"@,
        RecipeType::DotnetTest => "dotnettest"@,
        RecipeType::DotnetPublish => "dotnetpublish"@,
        RecipeType::RubyBin => "rubybin"@,
        RecipeType::RubyTest => "rubytest"@,
        RecipeType::DartBin => "dartbin"@,
        RecipeType::DartTest => "darttest"@,
        RecipeType::ElixirBuild => "elixirbuild"@,
        RecipeType::ElixirTest => "elixirtest"@,
        RecipeType::FlutterBuild => "flutterbuild"@,
        RecipeType::FlutterTest => "fluttertest"@,
        RecipeType::NimBin => "nimbin"@,
        RecipeType::NimTest => "nimtest"@,
        RecipeType::PrecompiledBin => "precompiledbin"@,
        RecipeType::Bridge => "bridge"@,
    }
}

/// The lowercase name of a recipe type, as the recipe list shows it.
pub fn recipe_type_list_name(t: RecipeType) -> (r: &'static str)
    ensures
        r@ == type_list_name(t),
{
    match t {
        RecipeType::Shell => "shell",
        RecipeType::RustBin => "rustbin",
        RecipeType::RustLib => "rustlib",
        RecipeType::RustTest => "rusttest",
        RecipeType::GoBin => "gobin",
        RecipeType::GoTest => "gotest",
        RecipeType::CBin => "cbin",
        RecipeType::CLib => "clib",
        RecipeType::TsBin => "tsbin",
        RecipeType::TsCheck => "tscheck",
        RecipeType::TsLint => "tslint",
        RecipeType::Npm => "npm",
        RecipeType::PyBin => "pybin",
        RecipeType::PyTest => "pytest",
        RecipeType::PyLint => "pylint",
        RecipeType::ZigBin => "zigbin",
        RecipeType::ZigTest => "zigtest",
        RecipeType::DockerBuild => "dockerbuild",
        RecipeType::DockerPush => "dockerpush",
        RecipeType::Plugin => "plugin",
        RecipeType::JavaBin => "javabin",
        RecipeType::JavaTest => "javatest",
        RecipeType::KotlinBin => "kotlinbin",
        RecipeType::KotlinTest => "kotlintest",
        RecipeType::SwiftBin => "swiftbin",
        RecipeType::SwiftTest => "swifttest",
        RecipeType::DotnetBuild => "dotnetbuild",
        RecipeType::DotnetTest => "dotnettest",
        RecipeType::DotnetPublish => "dotnetpublish",
        RecipeType::RubyBin => "rubybin",
        RecipeType::RubyTest => "rubytest",
        RecipeType::DartBin => "dartbin",
        RecipeType::DartTest => "darttest",
        RecipeType::ElixirBuild => "elixirbuild",
        RecipeType::ElixirTest => "elixirtest",
        RecipeType::FlutterBuild => "flutterbuild",
        RecipeType::FlutterTest => "fluttertest",
        RecipeType::NimBin => "nimbin",
        RecipeType::NimTest => "nimtest",
        RecipeType::PrecompiledBin => "precompiledbin",
        RecipeType::Bridge => "bridge",
    }
}

/// A recipe table decoded: each field in turn, the first bad one giving
/// the error; absent fields take their defaults.
pub open spec fn recipe_spec(t: Seq<(String, TomlValue)>) -> Result<RecipeV, Seq<char>> {
    let recipe_type = type_field(t);
    let deps = list_field(t, "deps"@);
    let inputs = list_field(t, "inputs"@);
    let outputs = list_field(t, "outputs"@);
    let script = opt_str_field(t, "script"@);
    let script_win = opt_str_field(t, "script_win"@);
    let scripts = str_map_field(t, "scripts"@);
    let cache = cache_field(t);
    let phony = bool_field(t, "phony"@);
    let env = str_map_field(t, "env"@);
    let cross = cross_field(t);
    let package = opt_str_field(t, "package"@);
    let features = list_field(t, "features"@);
    let ldflags = opt_str_field(t, "ldflags"@);
    let sources = list_field(t, "sources"@);
    let includes = list_field(t, "includes"@);
    let link_libs = list_field(t, "link_libs"@);
    let image = opt_str_field(t, "image"@);
    let dockerfile = opt_str_field(t, "dockerfile"@);
    let build_args = list_field(t, "build_args"@);
    let plugin = opt_str_field(t, "plugin"@);
    let url = opt_str_field(t, "url"@);
    let sha256 = opt_str_field(t, "sha256"@);
    if recipe_type is Err {
        Err(recipe_type->Err_0)
    } else if deps is Err {
        Err(deps->Err_0)
    } else if inputs is Err {
        Err(inputs->Err_0)
    } else if outputs is Err {
        Err(outputs->Err_0)
    } else if script is Err {
        Err(script->Err_0)
    } else if script_win is Err {
        Err(script_win->Err_0)
    } else if scripts is Err {
        Err(scripts->Err_0)
    } else if cache is Err {
        Err(cache->Err_0)
    } else if phony is Err {
        Err(phony->Err_0)
    } else if env is Err {
        Err(env->Err_0)
    } else if cross is Err {
        Err(cross->Err_0)
    } else if package is Err {
        Err(package->Err_0)
    } else if features is Err {
        Err(features->Err_0)
    } else if ldflags is Err {
        Err(ldflags->Err_0)
    } else if sources is Err {
        Err(sources->Err_0)
    } else if includes is Err {
        Err(includes->Err_0)
    } else if link_libs is Err {
        Err(link_libs->Err_0)
    } else if image is Err {
        Err(image->Err_0)
    } else if dockerfile is Err {
        Err(dockerfile->Err_0)
    } else if build_args is Err {
        Err(build_args->Err_0)
    } else if plugin is Err {
        Err(plugin->Err_0)
    } else if url is Err {
        Err(url->Err_0)
    } else if sha256 is Err {
        Err(sha256->Err_0)
    } else {
        Ok(RecipeV {
            recipe_type: recipe_type->Ok_0,
            deps: deps->Ok_0,
            inputs: inputs->Ok_0,
            outputs: outputs->Ok_0,
            script: script->Ok_0,
            script_win: script_win->Ok_0,
            scripts: scripts->Ok_0,
            cache: cache->Ok_0,
            phony: phony->Ok_0,
            env: env->Ok_0,
            cross: cross->Ok_0,
            package: package->Ok_0,
            features: features->Ok_0,
            ldflags: ldflags->Ok_0,
            sources: sources->Ok_0,
            includes: includes->Ok_0,
            link_libs: link_libs->Ok_0,
            image: image->Ok_0,
            dockerfile: dockerfile->Ok_0,
            build_args: build_args->Ok_0,
            plugin: plugin->Ok_0,
            url: url->Ok_0,
            sha256: sha256->Ok_0,
        })
    }
}

/// Decodes a recipe table.
pub fn decode_recipe(t: &Vec<(String, TomlValue)>) -> (r: Result<Recipe, String>)
    ensures
        match r {
            Ok(x) => recipe_spec(t@) == Ok::<RecipeV, Seq<char>>(x@),
            Err(m) => recipe_spec(t@) == Err::<RecipeV, Seq<char>>(m@),
        },
{
    let recipe_type = match decode_type(t) {
        Ok(x) => x,
        Err(m) => return Err(m),
    };
    let deps = match list(t, "deps") {
        Ok(x) => x,
        Err(m) => return Err(m),
    };
    let inputs = match list(t, "inputs") {
        Ok(x) => x,
        Err(m) => return Err(m),
    };
    let outputs = match list(t, "outputs") {
        Ok(x) => x,
        Err(m) => return Err(m),
    };
    let script = match opt_str(t, "script") {
        Ok(x) => x,
        Err(m) => return Err(m),
    };
    let script_win = match opt_str(t, "script_win") {
        Ok(x) => x,
        Err(m) => return Err(m),
    };
    let scripts = match str_map(t, "scripts") {
        Ok(x) => x,
        Err(m) => return Err(m),
    };
    let cache = match decode_cache(t) {
        Ok(x) => x,
        Err(m) => return Err(m),
    };
    let phony = match flag(t, "phony") {
        Ok(x) => x,
        Err(m) => return Err(m),
    };
    let env = match str_map(t, "env") {
        Ok(x) => x,
        Err(m) => return Err(m),
    };
    let cross = match decode_cross(t) {
        Ok(x) => x,
        Err(m) => return Err(m),
    };
    let package = match opt_str(t, "package") {
        Ok(x) => x,
        Err(m) => return Err(m),
    };
    let features = match list(t, "features") {
        Ok(x) => x,
        Err(m) => return Err(m),
    };
    let ldflags = match opt_str(t, "ldflags") {
        Ok(x) => x,
        Err(m) => return Err(m),
    };
    let sources = match list(t, "sources") {
        Ok(x) => x,
        Err(m) => return Err(m),
    };
    let includes = match list(t, "includes") {
        Ok(x) => x,
        Err(m) => return Err(m),
    };
    let link_libs = match list(t, "link_libs") {
        Ok(x) => x,
        Err(m) => return Err(m),
    };
    let image = match opt_str(t, "image") {
        Ok(x) => x,
        Err(m) => return Err(m),
    };
    let dockerfile = match opt_str(t, "dockerfile") {
        Ok(x) => x,
        Err(m) => return Err(m),
    };
    let build_args = match list(t, "build_args") {
        Ok(x) => x,
        Err(m) => return Err(m),
    };
    let plugin = match opt_str(t, "plugin") {
        Ok(x) => x,
        Err(m) => return Err(m),
    };
    let url = match opt_str(t, "url") {
        Ok(x) => x,
        Err(m) => return Err(m),
    };
    let sha256 = match opt_str(t, "sha256") {
        Ok(x) => x,
        Err(m) => return Err(m),
    };
    let r = Recipe {
        recipe_type,
        deps,
        inputs,
        outputs,
        script,
        script_win,
        scripts,
        cache,
        phony,
        env,
        cross,
        package,
        features,
        ldflags,
        sources,
        includes,
        link_libs,
        image,
        dockerfile,
        build_args,
        plugin,
        url,
        sha256,
    };
    Ok(r)
}

// ---------------------------------------------------------------------------
// Tables of the document
// ---------------------------------------------------------------------------

/// The message for a bad entry of the env table.
pub open spec fn env_value_error(key: Seq<char>) -> Seq<char> {
    type_error(key, "a string or a table of strings"@)
}

/// The env entries, inserted in turn: a string is a variable, a table of
/// strings a profile; the first other value gives the error.
pub open spec fn env_entries(t: Seq<(String, TomlValue)>) -> Result<
    Seq<(Seq<char>, EnvValueV)>,
    Seq<char>,
>
    decreases t.len(),
{
    if t.len() == 0 {
        Ok(seq![])
    } else {
        match env_entries(t.drop_last()) {
            Err(e) => Err(e),
            Ok(m) => {
                let k = t.last().0@;
                match t.last().1 {
                    TomlValue::Str(s) => Ok(assoc_insert(m, k, EnvValueV::Scalar(s@))),
                    TomlValue::Table(p) => match str_pairs(p@) {
                        Some(q) => Ok(assoc_insert(m, k, EnvValueV::Profile(q))),
                        None => Err(env_value_error(k)),
                    },
                    _ => Err(env_value_error(k)),
                }
            },
        }
    }
}

/// The target groups, inserted in turn; each is an array of strings.
pub open spec fn target_entries(t: Seq<(String, TomlValue)>) -> Result<
    Seq<(Seq<char>, Seq<Seq<char>>)>,
    Seq<char>,
>
    decreases t.len(),
{
    if t.len() == 0 {
        Ok(seq![])
    } else {
        match target_entries(t.drop_last()) {
            Err(e) => Err(e),
            Ok(m) => {
                let k = t.last().0@;
                match t.last().1 {
                    TomlValue::Array(a) => match str_list(a@) {
                        Some(l) => Ok(assoc_insert(m, k, l)),
                        None => Err(type_error(k, "an array of strings"@)),
                    },
                    _ => Err(type_error(k, "an array of strings"@)),
                }
            },
        }
    }
}

/// The message for a bad recipe: its name, then what is wrong.
pub open spec fn recipe_error(name: Seq<char>, m: Seq<char>) -> Seq<char> {
    "recipe `"@ + name + "`: "@ + m
}

/// The recipes, inserted in turn; each is a recipe table.
pub open spec fn recipe_entries(t: Seq<(String, TomlValue)>) -> Result<
    Seq<(Seq<char>, RecipeV)>,
    Seq<char>,
>
    decreases t.len(),
{
    if t.len() == 0 {
        Ok(seq![])
    } else {
        match recipe_entries(t.drop_last()) {
            Err(e) => Err(e),
            Ok(m) => {
                let k = t.last().0@;
                match t.last().1 {
                    TomlValue::Table(r) => match recipe_spec(r@) {
                        Ok(rv) => Ok(assoc_insert(m, k, rv)),
                        Err(e) => Err(recipe_error(k, e)),
                    },
                    _ => Err(type_error(k, "a table"@)),
                }
            },
        }
    }
}

/// A table of the document read with `entries`: empty when absent, an
/// error when not a table.
pub open spec fn section<W>(
    doc: Seq<(String, TomlValue)>,
    key: Seq<char>,
    entries: spec_fn(Seq<(String, TomlValue)>) -> Result<Seq<(Seq<char>, W)>, Seq<char>>,
) -> Result<Seq<(Seq<char>, W)>, Seq<char>> {
    match lookup(doc, key) {
        None => Ok(seq![]),
        Some(TomlValue::Table(t)) => entries(t@),
        Some(_) => Err(type_error(key, "a table"@)),
    }
}

pub open spec fn env_section(doc: Seq<(String, TomlValue)>) -> Result<Seq<(Seq<char>, EnvValueV)>, Seq<char>> {
    section(doc, "env"@, |t: Seq<(String, TomlValue)>| env_entries(t))
}

pub open spec fn targets_section(doc: Seq<(String, TomlValue)>) -> Result<
    Seq<(Seq<char>, Seq<Seq<char>>)>,
    Seq<char>,
> {
    section(doc, "targets"@, |t: Seq<(String, TomlValue)>| target_entries(t))
}

pub open spec fn recipes_section(doc: Seq<(String, TomlValue)>) -> Result<Seq<(Seq<char>, RecipeV)>, Seq<char>> {
    section(doc, "recipe"@, |t: Seq<(String, TomlValue)>| recipe_entries(t))
}

/// The `[project]` key that lists the fragment files to merge.
pub open spec fn fragments_key() -> Seq<char> {
    seq!['i', 'n', 'c', 'l', 'u', 'd', 'e']
}

fn fragments_key_str() -> (r: String)
    ensures
        r@ == fragments_key(),
{
    let v: Vec<char> = vec!['i', 'n', 'c', 'l', 'u', 'd', 'e'];
    assert(v@ =~= fragments_key());
    string_of(&v)
}

/// The `[project]` table: its name (required), version and the fragment
/// files it lists.
pub open spec fn project_section(doc: Seq<(String, TomlValue)>) -> Result<
    (Seq<char>, Option<Seq<char>>, Seq<Seq<char>>),
    Seq<char>,
> {
    match lookup(doc, "project"@) {
        None => Err(missing("project"@)),
        Some(TomlValue::Table(p)) => {
            let name = match lookup(p@, "name"@) {
                None => Err(missing("name"@)),
                Some(TomlValue::Str(s)) => Ok(s@),
                Some(_) => Err(type_error("name"@, "a string"@)),
            };
            let version = opt_str_field(p@, "version"@);
            let fragments = list_field(p@, fragments_key());
            if name is Err {
                Err(name->Err_0)
            } else if version is Err {
                Err(version->Err_0)
            } else if fragments is Err {
                Err(fragments->Err_0)
            } else {
                Ok((name->Ok_0, version->Ok_0, fragments->Ok_0))
            }
        },
        Some(_) => Err(type_error("project"@, "a table"@)),
    }
}

/// The target groups as sequences of strings.
pub open spec fn targets_view(m: Seq<(Seq<char>, Seq<String>)>) -> Seq<(Seq<char>, Seq<Seq<char>>)> {
    m.map_values(|e: (Seq<char>, Seq<String>)| (e.0, sv(e.1)))
}

proof fn lemma_targets_insert(m: Seq<(Seq<char>, Seq<String>)>, k: Seq<char>, v: Seq<String>)
    ensures
        targets_view(assoc_insert(m, k, v)) == assoc_insert(targets_view(m), k, sv(v)),
    decreases m.len(),
{
    let f = |e: (Seq<char>, Seq<String>)| (e.0, sv(e.1));
    if m.len() == 0 {
        assert(targets_view(assoc_insert(m, k, v)) =~= assoc_insert(targets_view(m), k, sv(v)));
    } else {
        assert(targets_view(m)[0] == f(m[0]));
        assert(targets_view(m).drop_first() =~= targets_view(m.drop_first()));
        if m[0].0 == k {
            assert(targets_view(assoc_insert(m, k, v)) =~= assoc_insert(targets_view(m), k, sv(v)));
        } else if crate::text::lt(k, m[0].0) {
            assert(targets_view(assoc_insert(m, k, v)) =~= assoc_insert(targets_view(m), k, sv(v)));
        } else {
            lemma_targets_insert(m.drop_first(), k, v);
            assert(targets_view(assoc_insert(m, k, v)) =~= assoc_insert(targets_view(m), k, sv(v)));
        }
    }
}

proof fn lemma_env_prefix(t: Seq<(String, TomlValue)>, k: int)
    requires
        0 <= k <= t.len(),
        env_entries(t.take(k)) is Err,
    ensures
        env_entries(t) == env_entries(t.take(k)),
    decreases t.len() - k,
{
    if k < t.len() {
        assert(t.take(k + 1).drop_last() =~= t.take(k));
        lemma_env_prefix(t, k + 1);
    } else {
        assert(t.take(k) =~= t);
    }
}

proof fn lemma_targets_prefix(t: Seq<(String, TomlValue)>, k: int)
    requires
        0 <= k <= t.len(),
        target_entries(t.take(k)) is Err,
    ensures
        target_entries(t) == target_entries(t.take(k)),
    decreases t.len() - k,
{
    if k < t.len() {
        assert(t.take(k + 1).drop_last() =~= t.take(k));
        lemma_targets_prefix(t, k + 1);
    } else {
        assert(t.take(k) =~= t);
    }
}

proof fn lemma_recipes_prefix(t: Seq<(String, TomlValue)>, k: int)
    requires
        0 <= k <= t.len(),
        recipe_entries(t.take(k)) is Err,
    ensures
        recipe_entries(t) == recipe_entries(t.take(k)),
    decreases t.len() - k,
{
    if k < t.len() {
        assert(t.take(k + 1).drop_last() =~= t.take(k));
        lemma_recipes_prefix(t, k + 1);
    } else {
        assert(t.take(k) =~= t);
    }
}

fn recipe_error_msg(name: &str, m: &str) -> (r: String)
    ensures
        r@ == recipe_error(name@, m@),
{
    let mut v = chars_of("recipe `");
    extend_str(&mut v, name);
    extend_str(&mut v, "`: ");
    extend_str(&mut v, m);
    string_of(&v)
}

fn decode_env(doc: &Vec<(String, TomlValue)>) -> (r: Result<EnvMap, String>)
    ensures
        match r {
            Ok(e) => env_section(doc@) == Ok::<Seq<(Seq<char>, EnvValueV)>, Seq<char>>(e.global@),
            Err(m) => env_section(doc@) == Err::<Seq<(Seq<char>, EnvValueV)>, Seq<char>>(m@),
        },
{
    match find(doc, "env") {
        None => Ok(EnvMap { global: OrdMap::new() }),
        Some(TomlValue::Table(t)) => {
            let mut m: OrdMap<EnvValue> = OrdMap::new();
            let mut i: usize = 0;
            while i < t.len()
                invariant
                    i <= t@.len(),
                    env_entries(t@.take(i as int)) == Ok::<Seq<(Seq<char>, EnvValueV)>, Seq<char>>(m@),
                    env_section(doc@) == env_entries(t@),
                decreases t@.len() - i,
            {
                assert(t@.take(i + 1).drop_last() =~= t@.take(i as int));
                assert(t@.take(i + 1).last() == t@[i as int]);
                let k = &t[i].0;
                match &t[i].1 {
                    TomlValue::Str(s) => {
                        m.insert(k.clone(), EnvValue::Scalar(s.clone()));
                    },
                    TomlValue::Table(p) => match string_pairs(p) {
                        Some(q) => {
                            m.insert(k.clone(), EnvValue::Profile(q));
                        },
                        None => {
                            proof {
                                lemma_env_prefix(t@, i + 1);
                            }
                            return Err(type_error_msg(k.as_str(), "a string or a table of strings"));
                        },
                    },
                    _ => {
                        proof {
                            lemma_env_prefix(t@, i + 1);
                        }
                        return Err(type_error_msg(k.as_str(), "a string or a table of strings"));
                    },
                }
                i += 1;
            }
            assert(t@.take(t@.len() as int) =~= t@);
            Ok(EnvMap { global: m })
        },
        Some(_) => Err(type_error_msg("env", "a table")),
    }
}

fn decode_targets(doc: &Vec<(String, TomlValue)>) -> (r: Result<OrdMap<Vec<String>>, String>)
    ensures
        match r {
            Ok(m) => targets_section(doc@) == Ok::<Seq<(Seq<char>, Seq<Seq<char>>)>, Seq<char>>(
                targets_view(m@),
            ),
            Err(m) => targets_section(doc@) == Err::<Seq<(Seq<char>, Seq<Seq<char>>)>, Seq<char>>(m@),
        },
{
    match find(doc, "targets") {
        None => {
            let m: OrdMap<Vec<String>> = OrdMap::new();
            assert(targets_view(m@) =~= Seq::<(Seq<char>, Seq<Seq<char>>)>::empty());
            Ok(m)
        },
        Some(TomlValue::Table(t)) => {
            let mut m: OrdMap<Vec<String>> = OrdMap::new();
            assert(targets_view(m@) =~= Seq::<(Seq<char>, Seq<Seq<char>>)>::empty());
            let mut i: usize = 0;
            while i < t.len()
                invariant
                    i <= t@.len(),
                    targets_section(doc@) == target_entries(t@),
                    target_entries(t@.take(i as int)) == Ok::<
                        Seq<(Seq<char>, Seq<Seq<char>>)>,
                        Seq<char>,
                    >(targets_view(m@)),
                decreases t@.len() - i,
            {
                assert(t@.take(i + 1).drop_last() =~= t@.take(i as int));
                assert(t@.take(i + 1).last() == t@[i as int]);
                let k = &t[i].0;
                match &t[i].1 {
                    TomlValue::Array(a) => match strings_of(a) {
                        Some(l) => {
                            proof {
                                lemma_targets_insert(m@, k@, l@);
                            }
                            m.insert(k.clone(), l);
                        },
                        None => {
                            proof {
                                lemma_targets_prefix(t@, i + 1);
                            }
                            return Err(type_error_msg(k.as_str(), "an array of strings"));
                        },
                    },
                    _ => {
                        proof {
                            lemma_targets_prefix(t@, i + 1);
                        }
                        return Err(type_error_msg(k.as_str(), "an array of strings"));
                    },
                }
                i += 1;
            }
            assert(t@.take(t@.len() as int) =~= t@);
            Ok(m)
        },
        Some(_) => Err(type_error_msg("targets", "a table")),
    }
}

fn decode_recipes(doc: &Vec<(String, TomlValue)>) -> (r: Result<OrdMap<Recipe>, String>)
    ensures
        match r {
            Ok(m) => recipes_section(doc@) == Ok::<Seq<(Seq<char>, RecipeV)>, Seq<char>>(m@),
            Err(m) => recipes_section(doc@) == Err::<Seq<(Seq<char>, RecipeV)>, Seq<char>>(m@),
        },
{
    match find(doc, "recipe") {
        None => Ok(OrdMap::new()),
        Some(TomlValue::Table(t)) => {
            let mut m: OrdMap<Recipe> = OrdMap::new();
            let mut i: usize = 0;
            while i < t.len()
                invariant
                    i <= t@.len(),
                    recipe_entries(t@.take(i as int)) == Ok::<Seq<(Seq<char>, RecipeV)>, Seq<char>>(m@),
                    recipes_section(doc@) == recipe_entries(t@),
                decreases t@.len() - i,
            {
                assert(t@.take(i + 1).drop_last() =~= t@.take(i as int));
                assert(t@.take(i + 1).last() == t@[i as int]);
                let k = &t[i].0;
                match &t[i].1 {
                    TomlValue::Table(r) => match decode_recipe(r) {
                        Ok(rec) => {
                            m.insert(k.clone(), rec);
                        },
                        Err(e) => {
                            proof {
                                lemma_recipes_prefix(t@, i + 1);
                            }
                            return Err(recipe_error_msg(k.as_str(), e.as_str()));
                        },
                    },
                    _ => {
                        proof {
                            lemma_recipes_prefix(t@, i + 1);
                        }
                        return Err(type_error_msg(k.as_str(), "a table"));
                    },
                }
                i += 1;
            }
            assert(t@.take(t@.len() as int) =~= t@);
            Ok(m)
        },
        Some(_) => Err(type_error_msg("recipe", "a table")),
    }
}

fn decode_project(doc: &Vec<(String, TomlValue)>) -> (r: Result<Project, String>)
    ensures
        match r {
            Ok(p) => project_section(doc@) == Ok::<
                (Seq<char>, Option<Seq<char>>, Seq<Seq<char>>),
                Seq<char>,
            >((p.name@, crate::config::opt(p.version), sv(p.include_paths@))),
            Err(m) => project_section(doc@) == Err::<
                (Seq<char>, Option<Seq<char>>, Seq<Seq<char>>),
                Seq<char>,
            >(m@),
        },
{
    match find(doc, "project") {
        None => Err(missing_msg("project")),
        Some(TomlValue::Table(p)) => {
            let name = match find(p, "name") {
                None => return Err(missing_msg("name")),
                Some(TomlValue::Str(s)) => s.clone(),
                Some(_) => return Err(type_error_msg("name", "a string")),
            };
            let version = match opt_str(p, "version") {
                Ok(v) => v,
                Err(m) => return Err(m),
            };
            let key = fragments_key_str();
            let include_paths = match list(p, key.as_str()) {
                Ok(v) => v,
                Err(m) => return Err(m),
            };
            Ok(Project { name, version, include_paths })
        },
        Some(_) => Err(type_error_msg("project", "a table")),
    }
}

/// A Mustfile document decoded: the project, then the env, targets and
/// recipes tables; the first bad section gives the error.
pub open spec fn config_ok(doc: Seq<(String, TomlValue)>, c: Config) -> bool {
    &&& project_section(doc) == Ok::<(Seq<char>, Option<Seq<char>>, Seq<Seq<char>>), Seq<char>>(
        (c.project.name@, crate::config::opt(c.project.version), sv(c.project.include_paths@)),
    )
    &&& env_section(doc) == Ok::<Seq<(Seq<char>, EnvValueV)>, Seq<char>>(c.env.global@)
    &&& targets_section(doc) == Ok::<Seq<(Seq<char>, Seq<Seq<char>>)>, Seq<char>>(
        targets_view(c.targets@),
    )
    &&& recipes_section(doc) == Ok::<Seq<(Seq<char>, RecipeV)>, Seq<char>>(c.recipe@)
}

/// The error of a Mustfile document, if any: that of the first bad section.
pub open spec fn config_error(doc: Seq<(String, TomlValue)>) -> Option<Seq<char>> {
    if project_section(doc) is Err {
        Some(project_section(doc)->Err_0)
    } else if env_section(doc) is Err {
        Some(env_section(doc)->Err_0)
    } else if targets_section(doc) is Err {
        Some(targets_section(doc)->Err_0)
    } else if recipes_section(doc) is Err {
        Some(recipes_section(doc)->Err_0)
    } else {
        None
    }
}

/// Decodes a Mustfile document.
pub fn decode_config(doc: &Vec<(String, TomlValue)>) -> (r: Result<Config, String>)
    ensures
        match r {
            Ok(c) => config_error(doc@) is None && config_ok(doc@, c),
            Err(m) => config_error(doc@) == Some(m@),
        },
{
    let project = match decode_project(doc) {
        Ok(p) => p,
        Err(m) => return Err(m),
    };
    let env = match decode_env(doc) {
        Ok(e) => e,
        Err(m) => return Err(m),
    };
    let targets = match decode_targets(doc) {
        Ok(t) => t,
        Err(m) => return Err(m),
    };
    let recipe = match decode_recipes(doc) {
        Ok(r) => r,
        Err(m) => return Err(m),
    };
    Ok(Config { project, env, targets, recipe })
}

/// The error of an include fragment, if any.
pub open spec fn fragment_error(doc: Seq<(String, TomlValue)>) -> Option<Seq<char>> {
    if env_section(doc) is Err {
        Some(env_section(doc)->Err_0)
    } else if targets_section(doc) is Err {
        Some(targets_section(doc)->Err_0)
    } else if recipes_section(doc) is Err {
        Some(recipes_section(doc)->Err_0)
    } else {
        None
    }
}

/// Decodes an include fragment: env, targets and recipes, all optional.
pub fn decode_fragment(doc: &Vec<(String, TomlValue)>) -> (r: Result<IncludeFragment, String>)
    ensures
        match r {
            Ok(f) => {
                &&& fragment_error(doc@) is None
                &&& env_section(doc@) == Ok::<Seq<(Seq<char>, EnvValueV)>, Seq<char>>(f.env.global@)
                &&& targets_section(doc@) == Ok::<Seq<(Seq<char>, Seq<Seq<char>>)>, Seq<char>>(
                    targets_view(f.targets@),
                )
                &&& recipes_section(doc@) == Ok::<Seq<(Seq<char>, RecipeV)>, Seq<char>>(f.recipe@)
            },
            Err(m) => fragment_error(doc@) == Some(m@),
        },
{
    let env = match decode_env(doc) {
        Ok(e) => e,
        Err(m) => return Err(m),
    };
    let targets = match decode_targets(doc) {
        Ok(t) => t,
        Err(m) => return Err(m),
    };
    let recipe = match decode_recipes(doc) {
        Ok(r) => r,
        Err(m) => return Err(m),
    };
    Ok(IncludeFragment { env, targets, recipe })
}

// ---------------------------------------------------------------------------
// Texts
// ---------------------------------------------------------------------------

/// A Mustfile's text read into a configuration (not yet validated): its
/// parse error or decoding error is a configuration error about `path`.
pub fn parse_config(text: &str, path: &str) -> (r: Result<Config, Error>)
    ensures
        match toml_document(text@) {
            Err(m) => r matches Err(e) && is_config_error(e, path@, m),
            Ok(doc) => match config_error(doc) {
                Some(m) => r matches Err(e) && is_config_error(e, path@, m),
                None => r matches Ok(c) && config_ok(doc, c),
            },
        },
{
    let doc = match parse_toml(text) {
        Ok(d) => d,
        Err(m) => return Err(Error::Config { path: path.to_owned(), message: m }),
    };
    match decode_config(&doc) {
        Ok(c) => Ok(c),
        Err(m) => Err(Error::Config { path: path.to_owned(), message: m }),
    }
}

/// An include fragment's text read: its errors are configuration errors
/// about `path`, as `invalid include: <error>`.
pub fn parse_fragment(text: &str, path: &str) -> (r: Result<IncludeFragment, Error>)
    ensures
        match toml_document(text@) {
            Err(m) => r matches Err(e) && is_config_error(e, path@, "invalid include: "@ + m),
            Ok(doc) => match fragment_error(doc) {
                Some(m) => r matches Err(e) && is_config_error(e, path@, "invalid include: "@ + m),
                None => r matches Ok(f) && env_section(doc) == Ok::<
                    Seq<(Seq<char>, EnvValueV)>,
                    Seq<char>,
                >(f.env.global@) && targets_section(doc) == Ok::<
                    Seq<(Seq<char>, Seq<Seq<char>>)>,
                    Seq<char>,
                >(targets_view(f.targets@)) && recipes_section(doc) == Ok::<
                    Seq<(Seq<char>, RecipeV)>,
                    Seq<char>,
                >(f.recipe@),
            },
        },
{
    let doc = match parse_toml(text) {
        Ok(d) => d,
        Err(m) => {
            let mut v = chars_of("invalid include: ");
            extend_str(&mut v, m.as_str());
            return Err(Error::Config { path: path.to_owned(), message: string_of(&v) });
        },
    };
    match decode_fragment(&doc) {
        Ok(f) => Ok(f),
        Err(m) => {
            let mut v = chars_of("invalid include: ");
            extend_str(&mut v, m.as_str());
            Err(Error::Config { path: path.to_owned(), message: string_of(&v) })
        },
    }
}

} // verus!
