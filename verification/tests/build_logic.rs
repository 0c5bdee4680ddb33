use must::cli::{
    input_line, inputs_heading, invalid_glob_line,
    check_lines, display_value, env_section, explain_head, init_contents, init_project_name,
    list_lines, relevant_env, status_line, strategy_label,
};
use must::config::EnvValue;
use must::engine::{
    BuildRun, Engine, ExecutionResult, ProgressEvent, RunStep, compose_env, log_content,
    log_file_name, panicked_result, to_execution_result,
};
use must::error::Error;
use must::job::CacheQuery;
use must::map::OrdMap;
use must::mustfile::parse_config;
use must::precompiled::{
    digest_mismatch, marker_path,
    ArchiveFile, FetchStep, PrecompiledBinRecipe, installed_matches_pin, is_doc_artifact,
    pick_binary,
};
use must::shell::{ShellRecipe, check_patterns, sort_paths};
use must::types::{BuildContext, CacheLookup, CacheStrategy, RecipeOutput};

fn strings(v: &[&str]) -> Vec<String> {
    v.iter().map(|s| s.to_string()).collect()
}

fn result(name: &str, success: bool, from_cache: bool) -> ExecutionResult {
    ExecutionResult {
        recipe_name: name.to_string(),
        from_cache,
        success,
        duration_ms: 1,
        stdout: String::new(),
        stderr: String::new(),
        error: if success { None } else { Some("boom".to_string()) },
    }
}

#[test]
fn report_counts_partition_results() {
    let engine = Engine::new(2, false);
    let mut run = BuildRun::new(&engine, vec![strings(&["a", "b", "c"])]);
    assert!(matches!(run.next_step(), RunStep::Launch(0)));
    run.record(result("a", true, false));
    run.record(result("b", true, true));
    run.record(result("c", false, false));
    assert!(matches!(run.next_step(), RunStep::Done));
    let report = run.report(9);
    assert_eq!(report.built(), 1);
    assert_eq!(report.cached(), 1);
    assert_eq!(report.failed(), 1);
    assert!(!report.success);
    assert_eq!(report.total_duration_ms, 9);
}

#[test]
fn fail_fast_stops_after_failed_wave() {
    let waves = vec![strings(&["a"]), strings(&["b"])];
    let mut run = BuildRun::new(&Engine::new(1, true), waves.clone());
    assert!(matches!(run.next_step(), RunStep::Launch(0)));
    run.record(result("a", false, false));
    assert!(matches!(run.next_step(), RunStep::Done));

    let mut run = BuildRun::new(&Engine::new(1, false), waves);
    assert!(matches!(run.next_step(), RunStep::Launch(0)));
    run.record(result("a", false, false));
    assert!(matches!(run.next_step(), RunStep::Launch(1)));
    assert_eq!(run.total(), 2);
    match run.wave_done() {
        ProgressEvent::WaveDone { completed, total } => {
            assert_eq!(completed, 1);
            assert_eq!(total, 2);
        }
        _ => panic!("expected a wave event"),
    }
}

#[test]
fn execution_results_from_outcomes() {
    let out = RecipeOutput {
        recipe_name: "a".into(),
        from_cache: true,
        outputs: vec![],
        stdout: "o".into(),
        stderr: "e".into(),
        duration_ms: 0,
    };
    let r = to_execution_result("a".into(), Ok(out), 12);
    assert!(r.success && r.from_cache && r.error.is_none());
    assert_eq!(r.duration_ms, 12);
    let failed = to_execution_result(
        "b".into(),
        Err(Error::RecipeFailed { name: "b".into(), code: 1, stderr: "x".into() }),
        3,
    );
    assert!(!failed.success && !failed.from_cache);
    assert_eq!(failed.error.as_deref(), Some("recipe 'b' failed with exit code 1:\nx"));
    let p = panicked_result("unknown".into(), "oops");
    assert_eq!(p.error.as_deref(), Some("task panicked: oops"));
}

#[test]
fn logs_name_and_content() {
    assert_eq!(log_file_name("pkg/build\\x"), "pkg_build_x.log");
    assert_eq!(log_content("", ""), None);
    assert_eq!(log_content("out", "").as_deref(), Some("out"));
    assert_eq!(log_content("", "err").as_deref(), Some("--- stderr ---\nerr"));
    assert_eq!(log_content("out", "err").as_deref(), Some("out\n--- stderr ---\nerr"));
}

#[test]
fn env_layers_override_in_order() {
    let config = parse_config(
        r#"
[project]
name = "test"

[env]
LOG = "info"
CC = "gcc"
ONLY_GLOBAL = "g"

[env.release]
LOG = "warn"

[recipe.build]
type = "shell"
script = "echo hi"

[recipe.build.env]
CC = "clang"
"#,
        "Mustfile.toml",
    )
    .unwrap();
    let mut process = OrdMap::new();
    process.insert("HOME".to_string(), "/home/u".to_string());
    process.insert("LOG".to_string(), "trace".to_string());
    let none = OrdMap::new();
    let dev = compose_env(&config, "build", "default", &none, &process);
    assert_eq!(dev.get("LOG").map(String::as_str), Some("info"));
    assert_eq!(dev.get("CC").map(String::as_str), Some("clang"));
    assert_eq!(dev.get("HOME").map(String::as_str), Some("/home/u"));
    assert_eq!(dev.get("ONLY_GLOBAL").map(String::as_str), Some("g"));
    let rel = compose_env(&config, "build", "release", &none, &process);
    assert_eq!(rel.get("LOG").map(String::as_str), Some("warn"));
    let mut tool = OrdMap::new();
    tool.insert("CC".to_string(), "aarch64-linux-gnu-gcc".to_string());
    let cross = compose_env(&config, "build", "default", &tool, &process);
    assert_eq!(cross.get("CC").map(String::as_str), Some("aarch64-linux-gnu-gcc"));
    let unknown = compose_env(&config, "nope", "default", &none, &process);
    assert_eq!(unknown.get("CC").map(String::as_str), Some("gcc"));
    assert!(matches!(config.env.global.get("release"), Some(EnvValue::Profile(_))));
}

#[test]
fn sort_paths_orders_and_keeps_repeats() {
    let sorted = sort_paths(strings(&["b/x", "a", "b", "a"]));
    assert_eq!(sorted, strings(&["a", "a", "b", "b/x"]));
}

fn ctx() -> BuildContext {
    BuildContext::new("/tmp".to_string(), 1)
}

#[test]
fn shell_defaults_and_keys() {
    let r = ShellRecipe::new("build", "echo hi");
    assert_eq!(r.cache, CacheStrategy::Mtime);
    let k = r.cache_key(&ctx());
    assert_eq!(k.recipe, "build");
    assert_eq!(k.target, "host");
    assert_eq!(k.profile, "default");
    assert_eq!(k.hash, must::hash::hash_string("build:host:default"));
    assert_eq!(k.hash, r.cache_key(&ctx()).hash);
}

#[test]
fn shell_plan_by_strategy() {
    let mut r = ShellRecipe::new("gen", "echo gen");
    r.outputs = strings(&["out/*.txt"]);
    assert_eq!(r.output_patterns(&ctx()), strings(&["/tmp/out/*.txt"]));
    let outputs = strings(&["/tmp/out/a.txt"]);
    let plan = r.plan(&ctx(), &vec![], &outputs);
    assert!(matches!(plan.query, Some(CacheQuery::Mtime)));
    assert!(plan.store.is_none());
    assert_eq!(plan.commands[0].program, "sh");
    assert_eq!(plan.commands[0].args, strings(&["-c", "echo gen"]));
    assert_eq!(plan.dry_run_text, "[dry-run] would run: sh -c 'echo gen'");
    assert_eq!(plan.cached_outputs, outputs);

    r.cache = CacheStrategy::Hash;
    let inputs = vec![("/tmp/in".to_string(), Some(b"x".to_vec()))];
    let plan = r.plan(&ctx(), &inputs, &outputs);
    match (&plan.query, &plan.store) {
        (Some(CacheQuery::Key(q)), Some(s)) => assert_eq!(q.hash, s.hash),
        _ => panic!("a hash recipe looks up and stores its key"),
    }
    r.cache = CacheStrategy::Never;
    let plan = r.plan(&ctx(), &vec![], &outputs);
    assert!(plan.query.is_none());
}

#[test]
fn bad_glob_pattern_is_config_error() {
    assert!(check_patterns("/tmp", &strings(&["src/*.c", "**/*.h"])).is_ok());
    match check_patterns("/tmp", &strings(&["ok", "***"])) {
        Err(Error::Config { path, message }) => {
            assert_eq!(path, "/tmp");
            assert!(message.starts_with("invalid glob pattern '***': "), "{message}");
        }
        other => panic!("unexpected: {:?}", other),
    }
}

fn file(path: &str, executable: bool) -> ArchiveFile {
    ArchiveFile { path: path.to_string(), executable }
}

#[test]
fn pick_binary_prefers_name_then_single_candidate() {
    let files = vec![file("/x/README.md", false), file("/x/bin/rg", true), file("/x/rg.1", false)];
    assert_eq!(pick_binary(&files, "/x", "tool"), Ok("/x/bin/rg".to_string()));
    let named = vec![file("/x/a", true), file("/x/tool", false)];
    assert_eq!(pick_binary(&named, "/x", "tool"), Ok("/x/tool".to_string()));
    let docs_only = vec![file("/x/LICENSE", false), file("/x/prog", false)];
    assert_eq!(pick_binary(&docs_only, "/x", "tool"), Ok("/x/prog".to_string()));
}

#[test]
fn pick_binary_errors() {
    let none = vec![file("/x/README.md", false)];
    assert_eq!(
        pick_binary(&none, "/x", "tool"),
        Err("archive contains no candidate binary".to_string())
    );
    let two = vec![file("/x/a", true), file("/x/b/c", true)];
    assert_eq!(
        pick_binary(&two, "/x", "tool"),
        Err("archive contains multiple candidate binaries: [a, b/c]; name the recipe after the binary or use a raw file URL".to_string())
    );
}

#[test]
fn doc_artifacts_by_name() {
    assert!(is_doc_artifact("/x/README"));
    assert!(is_doc_artifact("/x/License.txt"));
    assert!(is_doc_artifact("/x/man/rg.1"));
    assert!(!is_doc_artifact("/x/bin/rg"));
}

#[test]
fn pin_checks() {
    assert!(installed_matches_pin("https://x/a", None, None, "<missing>"));
    assert!(installed_matches_pin("https://x/a", Some("abc"), None, "abc"));
    assert!(!installed_matches_pin("https://x/a", Some("abc"), None, "def"));
    assert!(installed_matches_pin("https://x/a.tar.gz", Some("abc"), Some("abc\n"), "zzz"));
    assert!(!installed_matches_pin("https://x/a.zip", Some("abc"), None, "abc"));
}

#[test]
fn precompiled_steps() {
    let r = PrecompiledBinRecipe::new("protoc", "https://example.com/protoc", "bin/protoc");
    let mut dry = ctx();
    dry.dry_run = true;
    match r.begin(&dry).unwrap() {
        FetchStep::Done(o) => {
            assert_eq!(o.stdout, "[dry-run] download https://example.com/protoc -> /tmp/bin/protoc");
        }
        _ => panic!("a dry run ends at once"),
    }
    let dest = match r.begin(&ctx()).unwrap() {
        FetchStep::Check { dest } => dest,
        _ => panic!("a real run checks the destination"),
    };
    assert_eq!(dest, "/tmp/bin/protoc");
    let cached = r.after_check(&dest, true).unwrap();
    assert!(cached.from_cache);
    assert_eq!(cached.stdout, "/tmp/bin/protoc (already present)");
    assert!(r.after_check(&dest, false).is_none());
    let done = r.finish(&dest, Ok(15)).unwrap();
    assert_eq!(done.duration_ms, 15);
    assert!(matches!(r.finish(&dest, Err("network".into())), Err(Error::RecipeFailed { code: 1, .. })));
    let http = PrecompiledBinRecipe::new("p", "http://example.com/p", "bin/p");
    assert!(matches!(http.begin(&ctx()), Err(Error::Config { .. })));
    let escape = PrecompiledBinRecipe::new("p", "https://example.com/p", "../p");
    assert!(matches!(escape.begin(&ctx()), Err(Error::Config { .. })));
}

#[test]
fn explain_pieces() {
    let config = parse_config(
        r#"
[project]
name = "test"

[recipe.build]
type = "rust-bin"
package = "app"
deps = ["gen", "lint"]

[recipe.gen]
type = "shell"
script = "gen"

[recipe.lint]
type = "shell"
script = "lint"
cache = "none"
"#,
        "Mustfile.toml",
    )
    .unwrap();
    let build = config.recipe.get("build").unwrap();
    assert_eq!(strategy_label(build), "hash (default)");
    assert_eq!(strategy_label(config.recipe.get("gen").unwrap()), "mtime (default)");
    assert_eq!(strategy_label(config.recipe.get("lint").unwrap()), "none");
    assert_eq!(
        explain_head("build", build),
        strings(&["Recipe:   build", "Type:     RustBin", "Strategy: hash (default)", "Deps:     gen, lint"])
    );
    let lines = list_lines(&config);
    assert_eq!(lines[0], format!("{:<20} {:<12} DEPS", "NAME", "TYPE"));
    assert_eq!(lines[1], "-".repeat(60));
    assert_eq!(lines[2], format!("{:<20} {:<12} {}", "build", "rustbin", "gen, lint"));
    assert_eq!(lines[3], format!("{:<20} {:<12} {}", "gen", "shell", ""));
    assert_eq!(status_line(None), "Status:    MISS — no cache yet");
    assert_eq!(status_line(Some(Some(CacheLookup::Hit))), "Status:    HIT — would skip");
    assert_eq!(status_line(Some(Some(CacheLookup::Stale))), "Status:    STALE — would rebuild");
    assert_eq!(status_line(Some(None)), "Status:    MISS — would build");
}

#[test]
fn explain_env_filtering_and_display() {
    let mut env = OrdMap::new();
    env.insert("PATH".to_string(), "/bin".to_string());
    env.insert("MY_VAR".to_string(), "x".repeat(80));
    env.insert("TERM".to_string(), "xterm".to_string());
    let relevant = relevant_env(&env);
    assert_eq!(relevant.len(), 1);
    assert_eq!(display_value(&"x".repeat(80)), format!("{}...", "x".repeat(60)));
    assert_eq!(display_value("short"), "short");
    // The cut falls on byte 60: thirty two-byte characters.
    assert_eq!(display_value(&"é".repeat(31)), format!("{}...", "é".repeat(30)));
    assert_eq!(display_value(&"é".repeat(30)), "é".repeat(30));
    let lines = env_section(&relevant);
    assert_eq!(lines[0], "\nEnv (affects hash):");
    assert_eq!(lines[1], format!("  MY_VAR = {}...", "x".repeat(60)));
    assert!(env_section(&OrdMap::new()).is_empty());
}

#[test]
fn init_and_doctor_text() {
    assert_eq!(init_project_name(Some("given"), Some("dir".into())), "given");
    assert_eq!(init_project_name(None, Some("dir".into())), "dir");
    assert_eq!(init_project_name(None, None), "my-project");
    let text = init_contents("demo");
    let cfg = parse_config(&text, "Mustfile.toml").unwrap();
    assert_eq!(cfg.project.name, "demo");
    assert_eq!(cfg.recipe.get("test").unwrap().deps, strings(&["build"]));
    assert!(cfg.recipe.get("build").unwrap().phony);
    assert_eq!(check_lines("cargo", true, "h"), vec![format!("  ✓ {:<20}", "cargo")]);
    assert_eq!(
        check_lines("cargo", false, "install"),
        vec![format!("  ✗ {:<20}", "cargo"), "    hint: install".to_string()]
    );
}

fn process_env() -> OrdMap<String> {
    let mut process = OrdMap::new();
    process.insert("PATH".to_string(), "/usr/bin".to_string());
    process
}

#[test]
fn test_global_env_applied() {
    let cfg = parse_config("[project]\nname = \"test\"\n\n[env]\nFOO = \"bar\"\n", "Mustfile.toml").unwrap();
    let env = compose_env(&cfg, "build", "default", &OrdMap::new(), &process_env());
    assert_eq!(env.get("FOO").map(String::as_str), Some("bar"));
}

#[test]
fn test_profile_env_overrides_global() {
    let cfg = parse_config(
        "[project]\nname = \"test\"\n\n[env]\nLOG = \"info\"\n\n[env.release]\nLOG = \"warn\"\n",
        "Mustfile.toml",
    )
    .unwrap();
    let dev_env = compose_env(&cfg, "build", "default", &OrdMap::new(), &process_env());
    assert_eq!(dev_env.get("LOG").map(String::as_str), Some("info"));
    let rel_env = compose_env(&cfg, "build", "release", &OrdMap::new(), &process_env());
    assert_eq!(rel_env.get("LOG").map(String::as_str), Some("warn"));
}

#[test]
fn test_recipe_env_overrides_global() {
    let cfg = parse_config(
        "[project]\nname = \"test\"\n\n[env]\nDEBUG = \"0\"\n\n[recipe.build]\ntype = \"shell\"\nscript = \"echo hi\"\n\n[recipe.build.env]\nDEBUG = \"1\"\n",
        "Mustfile.toml",
    )
    .unwrap();
    let env = compose_env(&cfg, "build", "default", &OrdMap::new(), &process_env());
    assert_eq!(env.get("DEBUG").map(String::as_str), Some("1"));
}

#[test]
fn test_toolchain_env_has_highest_priority() {
    let cfg = parse_config(
        "[project]\nname = \"test\"\n\n[env]\nCC = \"gcc\"\n\n[recipe.build]\ntype = \"shell\"\nscript = \"echo hi\"\n\n[recipe.build.env]\nCC = \"clang\"\n",
        "Mustfile.toml",
    )
    .unwrap();
    let mut toolchain = OrdMap::new();
    toolchain.insert("CC".to_string(), "aarch64-linux-gnu-gcc".to_string());
    let env = compose_env(&cfg, "build", "default", &toolchain, &process_env());
    assert_eq!(env.get("CC").map(String::as_str), Some("aarch64-linux-gnu-gcc"));
}

#[test]
fn test_unknown_recipe_name_returns_base_env() {
    let cfg = parse_config("[project]\nname = \"test\"\n", "Mustfile.toml").unwrap();
    let env = compose_env(&cfg, "nonexistent", "default", &OrdMap::new(), &process_env());
    assert!(!env.is_empty());
}

// The extracted archive's files, as the caller lists them after unpacking.

#[test]
fn pick_binary_prefers_exact_name_match() {
    let files = vec![
        file("/out/pkg/README.md", false),
        file("/out/pkg/bin/rg", true),
        file("/out/pkg/bin/other-tool", true),
    ];
    let picked = pick_binary(&files, "/out", "rg").unwrap();
    assert!(picked.ends_with("pkg/bin/rg"));
}

#[test]
fn pick_binary_single_executable_wins() {
    let files = vec![file("/out/pkg/README.md", false), file("/out/pkg/tool", true)];
    let picked = pick_binary(&files, "/out", "anything").unwrap();
    assert!(picked.ends_with("pkg/tool"));
}

#[test]
fn pick_binary_ambiguous_returns_error() {
    let files = vec![file("/out/pkg/a/tool-a", true), file("/out/pkg/b/tool-b", true)];
    let err = pick_binary(&files, "/out", "nomatch").unwrap_err();
    assert!(err.contains("multiple candidate binaries"), "{err}");
}

#[test]
fn zip_archive_extracts_and_picks() {
    let files = vec![file("/out/bin/protoc", true), file("/out/include/readme.txt", false)];
    let picked = pick_binary(&files, "/out", "protoc").unwrap();
    assert!(picked.ends_with("bin/protoc"));
}

#[test]
fn explain_input_lines() {
    assert_eq!(inputs_heading(true), "\nInputs:");
    assert_eq!(inputs_heading(false), "\nInputs:   (none declared — cargo tracks internally)");
    // SHA-256 of "abc" begins ba7816bf8f01.
    assert_eq!(input_line("src/a.txt", b"abc"), "  src/a.txt — ba7816bf8f01");
    assert_eq!(invalid_glob_line("src/[*"), "  src/[* (invalid glob)");
}

#[test]
fn digest_pin_checks() {
    assert_eq!(marker_path("/p/bin/tool"), "/p/bin/tool.mustsha256");
    assert_eq!(digest_mismatch(None, "abc"), None);
    assert_eq!(digest_mismatch(Some("abc"), "abc"), None);
    assert_eq!(
        digest_mismatch(Some("abc"), "def").as_deref(),
        Some("SHA256 mismatch: expected abc, got def")
    );
}

#[test]
fn unknown_recipe_in_a_wave() {
    let engine = Engine::new(1, false);
    let run = BuildRun::new(&engine, vec![strings(&["a", "ghost", "b", "phantom"])]);
    assert!(run.check_wave(0, &strings(&["a", "b", "ghost", "phantom"])).is_ok());
    match run.check_wave(0, &strings(&["a", "b"])) {
        Err(Error::UnknownRecipe { name }) => assert_eq!(name, "ghost"),
        other => panic!("expected UnknownRecipe, got {other:?}"),
    }
}

#[test]
fn sort_paths_by_component() {
    // '/' sorts after '-' as a character, but a path's components come first.
    assert_eq!(sort_paths(strings(&["a-b", "a/b"])), strings(&["a/b", "a-b"]));
    assert_eq!(sort_paths(strings(&["/x/b", "/x/a/c", "/x/a"])), strings(&["/x/a", "/x/a/c", "/x/b"]));
}
