use must::error::Error;
use must::job::{Action, CommandResult, Event, Invocation, Plan, Stage};
use must::types::{BuildContext, CacheStrategy, Recipe, RecipeOutput};
use must::precompiled::{PrecompiledBinRecipe, archive_kind};

fn ctx() -> BuildContext {
    BuildContext::new("/tmp".to_string(), 1)
}

/// No tool is installed where the tests run: every command reports its
/// tool missing.
fn run_command(inv: &Invocation) -> Result<CommandResult, Error> {
    Err(Error::ToolNotFound { tool: inv.tool.clone(), hint: inv.hint.clone() })
}

/// Drives a plan to its end: no cache entry is found and nothing is stored.
fn execute(plan: &Plan) -> Result<RecipeOutput, Error> {
    let (mut stage, mut action) = plan.step(Stage::Start, Event::Begin);
    loop {
        let event = match action {
            Action::Finish(r) => return r,
            Action::Lookup => Event::Looked(None),
            Action::Run(i) => Event::Ran(run_command(&plan.commands[i])),
            Action::Store => Event::Stored,
        };
        let next = plan.step(stage, event);
        stage = next.0;
        action = next.1;
    }
}


#[test]
fn construction() {
    let r = PrecompiledBinRecipe::new("protoc", "https://example.com/protoc", "bin/protoc");
    assert_eq!(r.name(), "protoc");
    assert_eq!(r.url, "https://example.com/protoc");
    assert_eq!(r.output_path, "bin/protoc");
    assert!(r.deps().is_empty());
    assert!(r.sha256.is_none());
}

#[test]
fn with_deps() {
    let mut r = PrecompiledBinRecipe::new("tool", "https://example.com/tool", "bin/tool");
    r.deps = vec!["setup".to_string()];
    assert_eq!(r.deps(), &["setup".to_string()]);
}

#[test]
fn with_sha256() {
    let mut r = PrecompiledBinRecipe::new("tool", "https://example.com/tool", "bin/tool");
    r.sha256 = Some("abc123".to_string());
    assert_eq!(r.sha256.as_deref(), Some("abc123"));
}

#[test]
fn cache_strategy_is_hash() {
    let r = PrecompiledBinRecipe::new("tool", "https://example.com/tool", "bin/tool");
    assert_eq!(r.cache_strategy(), CacheStrategy::Hash);
}

#[test]
fn archive_kind_detection() {
    assert_eq!(archive_kind("https://x/rg.tar.gz"), Some("tar.gz"));
    assert_eq!(archive_kind("https://x/rg.TGZ"), Some("tar.gz"));
    assert_eq!(archive_kind("https://x/protoc.zip"), Some("zip"));
    assert_eq!(archive_kind("https://x/rg"), None);
}
