use must::cache::{dest_names, entry_dir, lookup_decision, parse_sled_key, sled_key};
use must::command::{shell_display, spawn_error};
use must::error::Error;
use must::hash::{compute_hash, hash_contents, hash_string};
use must::job::{Action, CacheQuery, CommandResult, Event, Invocation, Plan, Stage};
use must::map::OrdMap;
use must::mtime::{FileStat, check_mtime};
use must::types::{CacheKey, CacheLookup, RecipeOutput};

fn key(hash: &str) -> CacheKey {
    CacheKey {
        recipe: "my-recipe".to_string(),
        target: "host".to_string(),
        profile: "debug".to_string(),
        hash: hash.to_string(),
    }
}

#[test]
fn sled_key_round_trips() {
    let k = key("abc");
    let bytes = sled_key(&k);
    assert_eq!(bytes.len(), 3 * 8 + "my-recipe".len() + "host".len() + "debug".len());
    assert_eq!(&bytes[0..8], &9u64.to_be_bytes());
    assert_eq!(
        parse_sled_key(&bytes),
        Some(("my-recipe".to_string(), "host".to_string(), "debug".to_string()))
    );
}

#[test]
fn sled_key_rejects_garbage() {
    assert_eq!(parse_sled_key(&[0, 0, 0]), None);
    let mut bytes = sled_key(&key("x"));
    bytes.push(7);
    assert_eq!(parse_sled_key(&bytes), None);
    let mut short = sled_key(&key("x"));
    short.truncate(short.len() - 1);
    assert_eq!(parse_sled_key(&short), None);
}

#[test]
fn entry_dir_splits_hash() {
    assert_eq!(entry_dir("/c", &key("abcdef")), "/c/ab/cdef");
    assert_eq!(entry_dir("/c", &key("a")), "/c/a/");
}

#[test]
fn lookup_decision_cases() {
    assert_eq!(lookup_decision(None, "abc", true), CacheLookup::Miss);
    assert_eq!(lookup_decision(Some(b"abc"), "abc", true), CacheLookup::Hit);
    assert_eq!(lookup_decision(Some(b"abc"), "abc", false), CacheLookup::Stale);
    assert_eq!(lookup_decision(Some(b"old"), "abc", true), CacheLookup::Stale);
}

#[test]
fn dest_names_disambiguate_repeats() {
    let files = vec![
        ("/a/out.txt".to_string(), "out.txt".to_string()),
        ("/b/out.txt".to_string(), "out.txt".to_string()),
        ("/b/other".to_string(), "other".to_string()),
    ];
    let names = dest_names(&files);
    assert_eq!(names[0], "out.txt");
    let digest = hash_string("/b/out.txt");
    assert_eq!(names[1], format!("{}-out.txt", &digest[..16]));
    assert_eq!(names[2], "other");
}

#[test]
fn hash_string_is_sha256_hex() {
    assert_eq!(
        hash_string("abc"),
        "ba7816bf8f01cfea414140de5dae2223b00361a396177a9cb410ff61f20015ad"
    );
    assert_eq!(hash_string("abc"), hash_string("abc"));
}

#[test]
fn hash_contents_of_read_and_missing_files() {
    assert_eq!(
        hash_contents(Some(b"abc")),
        "ba7816bf8f01cfea414140de5dae2223b00361a396177a9cb410ff61f20015ad"
    );
    assert_eq!(hash_contents(None), "<missing>");
}

#[test]
fn compute_hash_depends_on_every_part() {
    let env = OrdMap::new();
    let flags = OrdMap::new();
    let none: Vec<(String, Option<Vec<u8>>)> = Vec::new();
    let base = compute_hash("r", "shell", &none, &env, "", &flags);
    assert_eq!(base.len(), 64);
    assert_eq!(base, compute_hash("r", "shell", &none, &env, "", &flags));
    assert_ne!(base, compute_hash("r2", "shell", &none, &env, "", &flags));
    assert_ne!(base, compute_hash("r", "go-bin", &none, &env, "", &flags));
    assert_ne!(base, compute_hash("r", "shell", &none, &env, "rustc 1.80", &flags));
    let mut env2 = OrdMap::new();
    env2.insert("A".to_string(), "1".to_string());
    assert_ne!(base, compute_hash("r", "shell", &none, &env2, "", &flags));
    let inputs = vec![("a.txt".to_string(), Some(b"hello".to_vec()))];
    let missing = vec![("a.txt".to_string(), None)];
    let with_input = compute_hash("r", "shell", &inputs, &env, "", &flags);
    assert_ne!(base, with_input);
    assert_ne!(with_input, compute_hash("r", "shell", &missing, &env, "", &flags));
}

#[test]
fn mtime_phony_and_missing_outputs_miss() {
    assert_eq!(check_mtime(&vec![Some(5)], &vec![]).unwrap(), CacheLookup::Miss);
    let outputs = vec![
        FileStat { exists: true, modified: Some(10) },
        FileStat { exists: false, modified: None },
    ];
    assert_eq!(check_mtime(&vec![], &outputs).unwrap(), CacheLookup::Miss);
}

#[test]
fn mtime_fresh_outputs_hit_and_stale_inputs() {
    let outputs = vec![
        FileStat { exists: true, modified: Some(20) },
        FileStat { exists: true, modified: Some(30) },
    ];
    assert_eq!(check_mtime(&vec![Some(5), None], &outputs).unwrap(), CacheLookup::Hit);
    assert_eq!(check_mtime(&vec![Some(20)], &outputs).unwrap(), CacheLookup::Stale);
    assert_eq!(check_mtime(&vec![Some(25)], &outputs).unwrap(), CacheLookup::Stale);
}

fn one_command_plan(dry_run: bool, query: Option<CacheQuery>, store: Option<CacheKey>) -> Plan {
    Plan {
        recipe_name: "r".to_string(),
        dry_run_first: false,
        query,
        store,
        dry_run,
        dry_run_text: "[dry-run] r".to_string(),
        commands: vec![Invocation {
            program: "tool".to_string(),
            args: vec![],
            workdir: "/tmp".to_string(),
            env: OrdMap::new(),
            tool: "tool".to_string(),
            hint: "install tool".to_string(),
            failure_name: "r".to_string(),
            clear_env: true,
            capture: true,
        }],
        outputs: vec!["/tmp/out".to_string()],
        cached_outputs: vec!["/tmp/cached".to_string()],
        dirs: vec![],
    }
}

fn finish(action: Action) -> Result<RecipeOutput, Error> {
    match action {
        Action::Finish(r) => r,
        _ => panic!("expected the plan to finish"),
    }
}

#[test]
fn plan_cache_hit_skips_commands() {
    let plan = one_command_plan(false, Some(CacheQuery::Key(key("h"))), Some(key("h")));
    let (stage, action) = plan.step(Stage::Start, Event::Begin);
    assert!(matches!(action, Action::Lookup));
    let (_, action) = plan.step(stage, Event::Looked(Some(CacheLookup::Hit)));
    let out = finish(action).unwrap();
    assert!(out.from_cache);
    assert_eq!(out.outputs, vec!["/tmp/cached".to_string()]);
}

#[test]
fn plan_miss_runs_then_stores() {
    let plan = one_command_plan(false, Some(CacheQuery::Key(key("h"))), Some(key("h")));
    let (stage, _) = plan.step(Stage::Start, Event::Begin);
    let (stage, action) = plan.step(stage, Event::Looked(Some(CacheLookup::Stale)));
    assert!(matches!(action, Action::Run(0)));
    let ran = CommandResult { code: Some(0), stdout: "ok".into(), stderr: String::new(), duration_ms: 7 };
    let (stage, action) = plan.step(stage, Event::Ran(Ok(ran)));
    assert!(matches!(action, Action::Store));
    let (_, action) = plan.step(stage, Event::Stored);
    let out = finish(action).unwrap();
    assert!(!out.from_cache);
    assert_eq!(out.stdout, "ok");
    assert_eq!(out.duration_ms, 7);
    assert_eq!(out.outputs, vec!["/tmp/out".to_string()]);
}

#[test]
fn plan_failure_reports_exit_code() {
    let plan = one_command_plan(false, None, None);
    let (stage, action) = plan.step(Stage::Start, Event::Begin);
    assert!(matches!(action, Action::Run(0)));
    let ran = CommandResult { code: Some(3), stdout: String::new(), stderr: "bad".into(), duration_ms: 1 };
    let (_, action) = plan.step(stage, Event::Ran(Ok(ran)));
    match finish(action) {
        Err(Error::RecipeFailed { name, code, stderr }) => {
            assert_eq!(name, "r");
            assert_eq!(code, 3);
            assert_eq!(stderr, "bad");
        }
        other => panic!("unexpected: {:?}", other),
    }
    let (stage, _) = plan.step(Stage::Start, Event::Begin);
    let signalled = CommandResult { code: None, stdout: String::new(), stderr: String::new(), duration_ms: 1 };
    match finish(plan.step(stage, Event::Ran(Ok(signalled))).1) {
        Err(Error::RecipeFailed { code, .. }) => assert_eq!(code, -1),
        other => panic!("unexpected: {:?}", other),
    }
}

#[test]
fn plan_dry_run_after_cache_miss() {
    let plan = one_command_plan(true, Some(CacheQuery::Mtime), None);
    let (stage, action) = plan.step(Stage::Start, Event::Begin);
    assert!(matches!(action, Action::Lookup));
    let out = finish(plan.step(stage, Event::Looked(None)).1).unwrap();
    assert_eq!(out.stdout, "[dry-run] r");
    assert_eq!(out.duration_ms, 0);
}

#[test]
fn spawn_error_kinds() {
    match spawn_error(true, "dotnet", "Install .NET", "not found") {
        Error::ToolNotFound { tool, hint } => {
            assert_eq!(tool, "dotnet");
            assert_eq!(hint, "Install .NET");
        }
        other => panic!("unexpected: {:?}", other),
    }
    assert!(matches!(spawn_error(false, "x", "y", "denied"), Error::Io(m) if m == "denied"));
    // With no tool named, even a missing program is an I/O error.
    assert!(matches!(spawn_error(true, "", "", "no such file"), Error::Io(m) if m == "no such file"));
}

#[test]
fn shell_display_quotes_script() {
    assert_eq!(shell_display("echo hi", false), "sh -c 'echo hi'");
    assert_eq!(shell_display("echo hi", true), "cmd /C \"echo hi\"");
    assert_eq!(must::command::shell_program(true), "cmd");
    assert_eq!(must::command::shell_arg(true), "/C");
    assert_eq!(must::command::shell_program(false), "sh");
    assert_eq!(must::command::shell_arg(false), "-c");
}

#[test]
fn error_messages() {
    let e = Error::RecipeFailed { name: "b".into(), code: -2, stderr: "x".into() };
    assert_eq!(e.message(), "recipe 'b' failed with exit code -2:\nx");
    let e = Error::UnknownRecipe { name: "z".into() };
    assert_eq!(e.message(), "unknown recipe 'z'");
    let e = Error::Config { path: "M.toml".into(), message: "bad".into() };
    assert_eq!(e.message(), "config error in M.toml: bad");
}

#[test]
fn test_miss_when_output_missing() {
    let input = Some(1_000);
    let output = FileStat { exists: false, modified: None };
    assert!(matches!(check_mtime(&vec![input], &vec![output]).unwrap(), CacheLookup::Miss));
}

#[test]
fn test_hit_when_output_newer() {
    let input = Some(1_000);
    let output = FileStat { exists: true, modified: Some(1_010) };
    assert!(matches!(check_mtime(&vec![input], &vec![output]).unwrap(), CacheLookup::Hit));
}

#[test]
fn test_stale_when_input_newer() {
    let output = FileStat { exists: true, modified: Some(1_000) };
    let input = Some(1_010);
    assert!(matches!(check_mtime(&vec![input], &vec![output]).unwrap(), CacheLookup::Stale));
}

#[test]
fn test_hash_string_is_deterministic_hex() {
    let h1 = hash_string("hello");
    let h2 = hash_string("hello");
    assert_eq!(h1, h2, "hash_string must be deterministic");
    assert_eq!(h1.len(), 64);
    assert!(h1.chars().all(|c| c.is_ascii_hexdigit()));
    let h3 = hash_string("world");
    assert_ne!(h1, h3, "different inputs must produce different hashes");
}

#[test]
fn test_sled_key_roundtrips_names_with_separator() {
    let k = CacheKey {
        recipe: "a:b".to_string(),
        target: "c".to_string(),
        profile: "default".to_string(),
        hash: "x".to_string(),
    };
    let encoded = sled_key(&k);
    let (recipe, target, profile) = parse_sled_key(&encoded).unwrap();
    assert_eq!(recipe, "a:b");
    assert_eq!(target, "c");
    assert_eq!(profile, "default");
}

// The index holds, under a key's recipe, target and profile, the hash bytes
// of the last store; these scenarios drive the lookup decision on that state.

#[test]
fn test_lookup_miss_on_empty() {
    assert!(matches!(lookup_decision(None, "abc123", false), CacheLookup::Miss));
}

#[test]
fn test_store_and_hit() {
    let stored = "abc123".as_bytes().to_vec();
    assert!(matches!(lookup_decision(Some(&stored), "abc123", true), CacheLookup::Hit));
}

#[test]
fn test_lookup_stale_when_hash_changes() {
    let stored = "hash-one".as_bytes().to_vec();
    assert!(matches!(lookup_decision(Some(&stored), "hash-two", false), CacheLookup::Stale));
}

#[test]
fn test_invalidate_returns_miss() {
    // After an invalidation the index holds nothing for the key.
    assert!(matches!(lookup_decision(None, "abc123", false), CacheLookup::Miss));
}

#[test]
fn test_stale_when_entry_dir_deleted() {
    let stored = "abc123".as_bytes().to_vec();
    assert!(matches!(lookup_decision(Some(&stored), "abc123", false), CacheLookup::Stale));
}

#[test]
fn test_input_order_does_not_matter() {
    let a = ("/p/a.txt".to_string(), Some(b"one".to_vec()));
    let b = ("/p/b.txt".to_string(), Some(b"two".to_vec()));
    let env = OrdMap::new();
    let flags = OrdMap::new();
    let h1 = compute_hash("r", "shell", &vec![a.clone(), b.clone()], &env, "", &flags);
    let h2 = compute_hash("r", "shell", &vec![b, a], &env, "", &flags);
    assert_eq!(h1, h2);
}
