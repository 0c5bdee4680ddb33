//! Lua plugin recipes: what the answers of a plugin script amount to.
//!
//! A plugin is a Lua file that defines `execute(ctx)` and, optionally,
//! `deps`, `inputs(ctx)`, `outputs(ctx)` and `cache_key(ctx)`.  Running the
//! script is the caller's; the functions here turn its answers into the
//! recipe's cache key, its result and its errors.

use vstd::prelude::*;
use crate::error::{Error, is_config_error};
use crate::map::OrdMap;
use crate::runner::{concat2, concat3, key_spec, key_view, make_cache_key};
use crate::text::{chars_of, extend_str, string_of};
use crate::types::{BuildContext, CacheKey, CacheStrategy, RecipeOutput, output_is};

verus! {

/// A plugin's recipes are checked by modification time.
pub fn plugin_cache_strategy() -> (r: CacheStrategy)
    ensures
        r == CacheStrategy::Mtime,
{
    CacheStrategy::Mtime
}

/// What a plugin's key is hashed with: the answer of its `cache_key(ctx)`,
/// or the script's text when it gives none.
pub open spec fn plugin_key_source(custom: Option<Seq<char>>, script: Seq<char>) -> Seq<char> {
    match custom {
        Some(c) => c,
        None => script,
    }
}

/// The cache key of plugin `name`: the hash of its name, type tag
/// `lua-plugin` and the key source, with no env and no flags.
pub fn plugin_cache_key(name: &str, ctx: &BuildContext, custom: Option<String>, script: &str) -> (k:
    CacheKey)
    ensures
        key_view(k) == key_spec(
            name@,
            "lua-plugin"@,
            *ctx,
            seq![],
            plugin_key_source(
                match custom {
                    Some(c) => Some(c@),
                    None => None,
                },
                script@,
            ),
            seq![],
        ),
{
    let none: OrdMap<String> = OrdMap::new();
    match custom {
        Some(c) => make_cache_key(name, "lua-plugin", ctx, &none, c.as_str(), &none),
        None => make_cache_key(name, "lua-plugin", ctx, &none, script, &none),
    }
}

/// The result of plugin `name` from the table its `execute(ctx)` returned:
/// a failure with code 1 and the plugin's stderr when `success` is false;
/// otherwise an output, not from the cache, with no output files, the
/// plugin's stdout and stderr and no duration.
pub fn plugin_output(name: &str, stdout: String, stderr: String, success: bool) -> (r: Result<
    RecipeOutput,
    Error,
>)
    ensures
        !success ==> (r matches Err(Error::RecipeFailed { name: n, code, stderr: s }) && n@ == name@
            && code == 1 && s@ == stderr@),
        success ==> (r matches Ok(o) && output_is(o, name@, false, seq![], stdout@, stderr@, 0)),
{
    if !success {
        return Err(Error::RecipeFailed { name: name.to_owned(), code: 1, stderr });
    }
    let o = RecipeOutput {
        recipe_name: name.to_owned(),
        from_cache: false,
        outputs: Vec::new(),
        stdout,
        stderr,
        duration_ms: 0,
    };
    assert(crate::text::sv(o.outputs@) =~= Seq::<Seq<char>>::empty());
    Ok(o)
}

/// The text echoed for a plugin's output stream: nothing for empty text,
/// else the text, ended by a newline.
pub open spec fn echo_spec(s: Seq<char>) -> Seq<char> {
    if s.len() == 0 {
        seq![]
    } else if s.last() == '\n' {
        s
    } else {
        s + seq!['\n']
    }
}

/// The text echoed for a plugin's output stream.
pub fn echo_text(s: &str) -> (r: String)
    ensures
        r@ == echo_spec(s@),
{
    let mut v = chars_of(s);
    let n = v.len();
    if n > 0 && v[n - 1] != '\n' {
        v.push('\n');
    }
    string_of(&v)
}

/// The error of a plugin file that defines no `execute(ctx)` function.
pub fn missing_execute(path: &str) -> (e: Error)
    ensures
        is_config_error(e, path@, "plugin '"@ + path@ + "' must define an `execute(ctx)` function"@),
{
    Error::Config {
        path: path.to_owned(),
        message: concat3("plugin '", path, "' must define an `execute(ctx)` function"),
    }
}

/// The error of a plugin file whose script fails to load or run.
pub fn plugin_load_error(path: &str, detail: &str) -> (e: Error)
    ensures
        is_config_error(e, path@, "lua plugin error in "@ + path@ + ": "@ + detail@),
{
    let mut v = chars_of("lua plugin error in ");
    extend_str(&mut v, path);
    extend_str(&mut v, ": ");
    extend_str(&mut v, detail);
    Error::Config { path: path.to_owned(), message: string_of(&v) }
}

/// The error of a plugin whose functions could not be given to the script.
pub fn stdlib_error(path: &str, detail: &str) -> (e: Error)
    ensures
        is_config_error(e, path@, "failed to inject stdlib: "@ + detail@),
{
    Error::Config { path: path.to_owned(), message: concat2("failed to inject stdlib: ", detail) }
}

/// The error of plugin `name` when its `execute` function is gone at run
/// time.
pub fn execute_not_found(name: &str, detail: &str) -> (e: Error)
    ensures
        is_config_error(e, name@, "plugin execute() not found: "@ + detail@),
{
    Error::Config { path: name.to_owned(), message: concat2("plugin execute() not found: ", detail) }
}

/// The error of plugin `name` when the context table could not be built.
pub fn context_error(name: &str, detail: &str) -> (e: Error)
    ensures
        is_config_error(e, name@, "lua context build error: "@ + detail@),
{
    Error::Config { path: name.to_owned(), message: concat2("lua context build error: ", detail) }
}

/// The error of plugin `name` when its `execute(ctx)` raised a Lua error.
pub fn call_error(name: &str, detail: &str) -> (e: Error)
    ensures
        e matches Error::RecipeFailed { name: n, code, stderr } && n@ == name@ && code == 1
            && stderr@ == "lua execute() error: "@ + detail@,
{
    Error::RecipeFailed {
        name: name.to_owned(),
        code: 1,
        stderr: concat2("lua execute() error: ", detail),
    }
}

/// A value the plugin's `env_get(key)` sees: the plugin's own variable
/// (set with `set_env`) first, then the process's.
pub fn plugin_env_get(plugin_env: &OrdMap<String>, process_value: Option<String>, key: &str) -> (r:
    Option<String>)
    ensures
        match crate::map::assoc_get(plugin_env@, key@) {
            Some(v) => r matches Some(s) && s@ == v,
            None => match process_value {
                Some(p) => r matches Some(s) && s@ == p@,
                None => r is None,
            },
        },
{
    match plugin_env.get(key) {
        Some(v) => Some(v.clone()),
        None => process_value,
    }
}

} // verus!
