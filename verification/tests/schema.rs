use must::config::{Config, Recipe};
use must::mustfile::parse_config;

fn config_with(recipe_body: &str) -> Config {
    let text = format!("[project]\nname = \"test\"\n\n[recipe.r]\ntype = \"shell\"\n{recipe_body}");
    parse_config(&text, "Mustfile.toml").unwrap()
}

fn recipe(config: &Config) -> &Recipe {
    config.recipe.get("r").unwrap()
}

fn on_linux(r: &Recipe) -> Option<String> {
    r.resolved_script("linux", "unix").cloned()
}

fn on_windows(r: &Recipe) -> Option<String> {
    r.resolved_script("windows", "windows").cloned()
}

#[test]
fn test_resolved_script_no_override() {
    let c = config_with("script = \"echo default\"\n");
    assert_eq!(on_linux(recipe(&c)).unwrap(), "echo default");
    assert_eq!(on_windows(recipe(&c)).unwrap(), "echo default");
}

#[test]
fn test_resolved_script_with_win_override() {
    let c = config_with("script = \"rm -rf build\"\nscript_win = \"rmdir /s /q build\"\n");
    assert_eq!(on_windows(recipe(&c)).unwrap(), "rmdir /s /q build");
    assert_eq!(on_linux(recipe(&c)).unwrap(), "rm -rf build");
}

#[test]
fn test_resolved_script_win_only() {
    let c = config_with("script_win = \"dir\"\n");
    assert_eq!(on_windows(recipe(&c)).unwrap(), "dir");
    assert_eq!(on_linux(recipe(&c)), None);
}

#[test]
fn test_resolved_script_scripts_map_takes_priority() {
    let c = config_with("script = \"default\"\n\n[recipe.r.scripts]\nlinux = \"from-scripts-map\"\n");
    assert_eq!(on_linux(recipe(&c)).unwrap(), "from-scripts-map");
}

#[test]
fn test_resolved_script_scripts_map_unix_fallback() {
    let c = config_with("script = \"default\"\n\n[recipe.r.scripts]\nunix = \"unix-script\"\n");
    assert_eq!(on_linux(recipe(&c)).unwrap(), "unix-script");
    assert_eq!(on_windows(recipe(&c)).unwrap(), "default");
}

#[test]
fn test_resolved_script_scripts_map_bsd_fallback() {
    let c = config_with("script = \"default\"\n\n[recipe.r.scripts]\nbsd = \"bsd-script\"\n");
    let r = recipe(&c);
    assert_eq!(r.resolved_script("freebsd", "unix").unwrap(), "bsd-script");
    assert_eq!(r.resolved_script("openbsd", "unix").unwrap(), "bsd-script");
    assert_eq!(on_linux(r).unwrap(), "default");
}

#[test]
fn test_resolved_script_scripts_map_os_beats_unix() {
    let c = config_with(
        "script = \"default\"\n\n[recipe.r.scripts]\nunix = \"unix\"\nlinux = \"os-specific\"\n",
    );
    assert_eq!(on_linux(recipe(&c)).unwrap(), "os-specific");
    assert_eq!(recipe(&c).resolved_script("macos", "unix").unwrap(), "unix");
}

#[test]
fn test_resolved_script_scripts_map_beats_script_win() {
    let c = config_with(
        "script = \"default\"\nscript_win = \"win-fallback\"\n\n[recipe.r.scripts]\nwin = \"win-from-scripts\"\n",
    );
    assert_eq!(on_windows(recipe(&c)).unwrap(), "win-from-scripts");
    assert_eq!(on_linux(recipe(&c)).unwrap(), "default");
}

#[test]
fn test_script_win_parsed_from_toml() {
    let text = r#"
[project]
name = "test"

[recipe.clean]
type       = "shell"
script     = "rm -rf build"
script_win = "rmdir /s /q build"
"#;
    let config = parse_config(text, "Mustfile.toml").unwrap();
    let recipe = config.recipe.get("clean").unwrap();
    assert_eq!(recipe.script.as_deref(), Some("rm -rf build"));
    assert_eq!(recipe.script_win.as_deref(), Some("rmdir /s /q build"));
}

#[test]
fn test_scripts_map_parsed_from_toml() {
    let text = r#"
[project]
name = "test"

[recipe.build]
type   = "shell"
script = "make"

[recipe.build.scripts]
macos   = "make -j$(sysctl -n hw.ncpu)"
linux   = "make -j$(nproc)"
win     = "nmake"
freebsd = "gmake"
"#;
    let config = parse_config(text, "Mustfile.toml").unwrap();
    let recipe = config.recipe.get("build").unwrap();
    assert_eq!(recipe.script.as_deref(), Some("make"));
    assert_eq!(recipe.scripts.get("macos").unwrap(), "make -j$(sysctl -n hw.ncpu)");
    assert_eq!(recipe.scripts.get("linux").unwrap(), "make -j$(nproc)");
    assert_eq!(recipe.scripts.get("win").unwrap(), "nmake");
    assert_eq!(recipe.scripts.get("freebsd").unwrap(), "gmake");
}
