use must::error::Error;
use must::map::OrdMap;
use must::plugin::{
    call_error, context_error, echo_text, execute_not_found, missing_execute, plugin_cache_key,
    plugin_cache_strategy, plugin_env_get, plugin_load_error, plugin_output, stdlib_error,
};
use must::types::{BuildContext, CacheStrategy};

fn ctx() -> BuildContext {
    BuildContext::new("/tmp/test".to_string(), 1)
}

#[test]
fn plugin_success_gives_output() {
    let out = plugin_output("greet", "hello from host".to_string(), String::new(), true).unwrap();
    assert_eq!(out.recipe_name, "greet");
    assert_eq!(out.stdout, "hello from host");
    assert!(!out.from_cache);
    assert!(out.outputs.is_empty());
    assert_eq!(out.duration_ms, 0);
}

#[test]
fn plugin_failure_is_recipe_failed() {
    let err = plugin_output("fail", String::new(), "something went wrong".to_string(), false)
        .unwrap_err();
    match err {
        Error::RecipeFailed { name, code, stderr } => {
            assert_eq!(name, "fail");
            assert_eq!(code, 1);
            assert_eq!(stderr, "something went wrong");
        }
        other => panic!("expected RecipeFailed, got {other:?}"),
    }
}

#[test]
fn plugin_cache_key_uses_custom_key_or_script() {
    let script = "function execute(ctx) return {} end";
    let from_script = plugin_cache_key("p", &ctx(), None, script);
    let custom = plugin_cache_key("p", &ctx(), Some("v1".to_string()), script);
    let custom_again = plugin_cache_key("p", &ctx(), Some("v1".to_string()), "other script");
    assert_eq!(from_script.recipe, "p");
    assert_eq!(from_script.target, "host");
    assert_eq!(from_script.profile, "default");
    assert_ne!(from_script.hash, custom.hash);
    assert_eq!(custom.hash, custom_again.hash);
    assert_eq!(
        plugin_cache_key("p", &ctx(), None, script).hash,
        plugin_cache_key("p", &ctx(), Some(script.to_string()), "x").hash
    );
}

#[test]
fn plugin_cache_strategy_is_mtime() {
    assert_eq!(plugin_cache_strategy(), CacheStrategy::Mtime);
}

#[test]
fn echo_adds_missing_newline() {
    assert_eq!(echo_text(""), "");
    assert_eq!(echo_text("no newline"), "no newline\n");
    assert_eq!(echo_text("line\n"), "line\n");
}

#[test]
fn plugin_error_texts() {
    assert_eq!(
        missing_execute("bad.lua").message(),
        "config error in bad.lua: plugin 'bad.lua' must define an `execute(ctx)` function"
    );
    assert_eq!(
        plugin_load_error("x.lua", "syntax error").message(),
        "config error in x.lua: lua plugin error in x.lua: syntax error"
    );
    assert_eq!(
        stdlib_error("x.lua", "boom").message(),
        "config error in x.lua: failed to inject stdlib: boom"
    );
    assert_eq!(
        execute_not_found("p", "nil").message(),
        "config error in p: plugin execute() not found: nil"
    );
    assert_eq!(
        context_error("p", "oops").message(),
        "config error in p: lua context build error: oops"
    );
    assert!(matches!(
        call_error("p", "runtime error"),
        Error::RecipeFailed { code: 1, ref stderr, .. } if stderr == "lua execute() error: runtime error"
    ));
}

#[test]
fn plugin_env_prefers_own_variables() {
    let mut own = OrdMap::new();
    own.insert("MODE".to_string(), "release".to_string());
    assert_eq!(
        plugin_env_get(&own, Some("debug".to_string()), "MODE").as_deref(),
        Some("release")
    );
    assert_eq!(
        plugin_env_get(&OrdMap::new(), Some("debug".to_string()), "MODE").as_deref(),
        Some("debug")
    );
    assert_eq!(plugin_env_get(&OrdMap::new(), None, "MODE"), None);
}
