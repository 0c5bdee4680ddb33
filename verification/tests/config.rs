use must::config::{CacheMode, CrossBackend, EnvValue, RecipeType, validate};
use must::mustfile::{parse_config, parse_fragment};

fn parse(toml: &str) -> must::config::Config {
    parse_config(toml, "Mustfile.toml").expect("valid TOML")
}

fn parse_err(toml: &str) -> String {
    parse_config(toml, "Mustfile.toml").err().map(|e| e.message()).unwrap_or_default()
}

#[test]
fn test_minimal_config() {
    let cfg = parse(
        r#"
[project]
name = "myapp"
"#,
    );
    assert_eq!(cfg.project.name, "myapp");
    assert!(cfg.project.version.is_none());
    assert!(cfg.recipe.is_empty());
    assert!(cfg.targets.is_empty());
}

#[test]
fn test_project_with_version() {
    let cfg = parse(
        r#"
[project]
name = "myapp"
version = "1.2.3"
"#,
    );
    assert_eq!(cfg.project.version.as_deref(), Some("1.2.3"));
}


#[test]
fn test_shell_recipe_minimal() {
    let cfg = parse(
        r#"
[project]
name = "test"

[recipe.build]
type = "shell"
script = "echo hello"
"#,
    );
    let r = &(*cfg.recipe.get("build").unwrap());
    assert_eq!(r.recipe_type, RecipeType::Shell);
    assert_eq!(r.script.as_deref(), Some("echo hello"));
    assert!(r.deps.is_empty());
    assert!(!r.phony);
}

#[test]
fn test_shell_recipe_full() {
    let cfg = parse(
        r#"
[project]
name = "test"

[recipe.codegen]
type = "shell"
inputs = ["proto/**/*.proto"]
outputs = ["src/generated/**/*.rs"]
cache = "hash"
phony = false
script = "protoc --rust_out=src/generated proto/*.proto"

[recipe.clean]
type = "shell"
phony = true
script = "rm -rf dist/"
"#,
    );
    let codegen = &(*cfg.recipe.get("codegen").unwrap());
    assert_eq!(codegen.inputs, ["proto/**/*.proto"]);
    assert_eq!(codegen.outputs, ["src/generated/**/*.rs"]);
    assert_eq!(codegen.cache, Some(CacheMode::Hash));

    let clean = &(*cfg.recipe.get("clean").unwrap());
    assert!(clean.phony);
}

#[test]
fn test_recipe_with_deps() {
    let cfg = parse(
        r#"
[project]
name = "test"

[recipe.codegen]
type = "shell"
script = "echo codegen"

[recipe.build]
type = "shell"
deps = ["codegen"]
script = "echo build"

[recipe.release]
type = "shell"
deps = ["build", "codegen"]
script = "echo release"
"#,
    );
    assert_eq!((*cfg.recipe.get("build").unwrap()).deps, ["codegen"]);
    assert_eq!((*cfg.recipe.get("release").unwrap()).deps, ["build", "codegen"]);
}

#[test]
fn test_recipe_env_overrides() {
    let cfg = parse(
        r#"
[project]
name = "test"

[recipe.build]
type = "shell"
script = "cargo build"

[recipe.build.env]
RUST_LOG = "debug"
CARGO_PROFILE = "dev"
"#,
    );
    let env = &(*cfg.recipe.get("build").unwrap()).env;
    assert_eq!((*env.get("RUST_LOG").unwrap()), "debug");
    assert_eq!((*env.get("CARGO_PROFILE").unwrap()), "dev");
}


#[test]
fn test_global_env_scalars() {
    let cfg = parse(
        r#"
[project]
name = "test"

[env]
RUST_LOG = "info"
DATABASE_URL = "postgres://localhost/mydb"
"#,
    );
    let global = &cfg.env.global;
    assert!(matches!(&(*global.get("RUST_LOG").unwrap()), EnvValue::Scalar(s) if s == "info"));
    assert!(
        matches!(&(*global.get("DATABASE_URL").unwrap()), EnvValue::Scalar(s) if s == "postgres://localhost/mydb")
    );
}

#[test]
fn test_profile_env() {
    let cfg = parse(
        r#"
[project]
name = "test"

[env]
RUST_LOG = "info"

[env.release]
RUST_LOG = "warn"
OPTIMIZE = "true"
"#,
    );
    // Global scalar
    assert!(matches!(&(*cfg.env.global.get("RUST_LOG").unwrap()), EnvValue::Scalar(s) if s == "info"));
    // Profile map stored under "release" key
    assert!(matches!(&(*cfg.env.global.get("release").unwrap()), EnvValue::Profile(m) if (*m.get("RUST_LOG").unwrap()) == "warn"));
    if let EnvValue::Profile(m) = &(*cfg.env.global.get("release").unwrap()) {
        assert_eq!((*m.get("OPTIMIZE").unwrap()), "true");
    }
}


#[test]
fn test_targets() {
    let cfg = parse(
        r#"
[project]
name = "test"

[targets]
default = ["x86_64-linux-gnu"]
release = ["x86_64-linux-gnu", "aarch64-linux-gnu", "x86_64-apple-darwin", "aarch64-apple-darwin"]
"#,
    );
    assert_eq!((*cfg.targets.get("default").unwrap()), ["x86_64-linux-gnu"]);
    assert_eq!((*cfg.targets.get("release").unwrap()).len(), 4);
    assert!((*cfg.targets.get("release").unwrap()).contains(&"aarch64-apple-darwin".to_string()));
}


#[test]
fn tests_test_rust_bin_recipe() {
    let cfg = parse(
        r#"
[project]
name = "test"

[recipe.build]
type = "rust-bin"
package = "myapp"
features = ["cli", "tls"]
"#,
    );
    let r = &(*cfg.recipe.get("build").unwrap());
    assert_eq!(r.recipe_type, RecipeType::RustBin);
    assert_eq!(r.package.as_deref(), Some("myapp"));
    assert_eq!(r.features, ["cli", "tls"]);
}

#[test]
fn test_rust_lib_and_test_recipes() {
    let cfg = parse(
        r#"
[project]
name = "test"

[recipe.lib]
type = "rust-lib"
package = "mylib"

[recipe.test]
type = "rust-test"
package = "myapp"
"#,
    );
    assert_eq!((*cfg.recipe.get("lib").unwrap()).recipe_type, RecipeType::RustLib);
    assert_eq!((*cfg.recipe.get("test").unwrap()).recipe_type, RecipeType::RustTest);
}

#[test]
fn tests_test_go_bin_recipe() {
    let cfg = parse(
        r#"
[project]
name = "test"

[recipe.serve]
type = "go-bin"
package = "./cmd/server"
ldflags = "-s -w"
"#,
    );
    let r = &(*cfg.recipe.get("serve").unwrap());
    assert_eq!(r.recipe_type, RecipeType::GoBin);
    assert_eq!(r.package.as_deref(), Some("./cmd/server"));
    assert_eq!(r.ldflags.as_deref(), Some("-s -w"));
}

#[test]
fn test_go_test_recipe() {
    let cfg = parse(
        r#"
[project]
name = "test"

[recipe.test]
type = "go-test"
package = "./..."
"#,
    );
    assert_eq!((*cfg.recipe.get("test").unwrap()).recipe_type, RecipeType::GoTest);
}

#[test]
fn test_c_bin_recipe() {
    let cfg = parse(
        r#"
[project]
name = "test"

[recipe.build]
type = "c-bin"
sources = ["src/main.c", "src/util.c"]
includes = ["include/"]
link_libs = ["m", "pthread"]
"#,
    );
    let r = &(*cfg.recipe.get("build").unwrap());
    assert_eq!(r.recipe_type, RecipeType::CBin);
    assert_eq!(r.sources, ["src/main.c", "src/util.c"]);
    assert_eq!(r.includes, ["include/"]);
    assert_eq!(r.link_libs, ["m", "pthread"]);
}

#[test]
fn test_c_lib_recipe() {
    let cfg = parse(
        r#"
[project]
name = "test"

[recipe.libfoo]
type = "c-lib"
sources = ["src/foo.c"]
"#,
    );
    assert_eq!((*cfg.recipe.get("libfoo").unwrap()).recipe_type, RecipeType::CLib);
}


#[test]
fn tests_test_py_bin_recipe() {
    let cfg = parse(
        r#"
[project]
name = "test"

[recipe.build]
type = "py-bin"
package = "."
"#,
    );
    let r = &(*cfg.recipe.get("build").unwrap());
    assert_eq!(r.recipe_type, RecipeType::PyBin);
    assert_eq!(r.package.as_deref(), Some("."));
}

#[test]
fn tests_test_py_test_recipe() {
    let cfg = parse(
        r#"
[project]
name = "test"

[recipe.test]
type = "py-test"
package = "tests"
"#,
    );
    assert_eq!((*cfg.recipe.get("test").unwrap()).recipe_type, RecipeType::PyTest);
    assert_eq!((*cfg.recipe.get("test").unwrap()).package.as_deref(), Some("tests"));
}

#[test]
fn test_py_lint_recipe() {
    let cfg = parse(
        r#"
[project]
name = "test"

[recipe.lint]
type = "py-lint"
package = "src"
"#,
    );
    assert_eq!((*cfg.recipe.get("lint").unwrap()).recipe_type, RecipeType::PyLint);
}


#[test]
fn tests_test_zig_bin_recipe() {
    let cfg = parse(
        r#"
[project]
name = "test"

[recipe.build]
type = "zig-bin"
package = "install"
"#,
    );
    let r = &(*cfg.recipe.get("build").unwrap());
    assert_eq!(r.recipe_type, RecipeType::ZigBin);
    assert_eq!(r.package.as_deref(), Some("install"));
}

#[test]
fn test_zig_test_recipe() {
    let cfg = parse(
        r#"
[project]
name = "test"

[recipe.test]
type = "zig-test"
package = "."
"#,
    );
    assert_eq!((*cfg.recipe.get("test").unwrap()).recipe_type, RecipeType::ZigTest);
}


#[test]
fn tests_test_docker_build_recipe() {
    let cfg = parse(
        r#"
[project]
name = "test"

[recipe.build]
type = "docker-build"
image = "myapp:latest"
dockerfile = "Dockerfile"
build_args = ["VERSION=1.0", "PLATFORM=linux"]
"#,
    );
    let r = &(*cfg.recipe.get("build").unwrap());
    assert_eq!(r.recipe_type, RecipeType::DockerBuild);
    assert_eq!(r.image.as_deref(), Some("myapp:latest"));
    assert_eq!(r.dockerfile.as_deref(), Some("Dockerfile"));
    assert_eq!(r.build_args, ["VERSION=1.0", "PLATFORM=linux"]);
}

#[test]
fn test_docker_push_recipe() {
    let cfg = parse(
        r#"
[project]
name = "test"

[recipe.push]
type = "docker-push"
image = "myregistry/myapp:v2"
deps = ["build"]
"#,
    );
    let r = &(*cfg.recipe.get("push").unwrap());
    assert_eq!(r.recipe_type, RecipeType::DockerPush);
    assert_eq!(r.image.as_deref(), Some("myregistry/myapp:v2"));
    assert_eq!(r.deps, ["build"]);
}

#[test]
fn test_docker_build_minimal() {
    let cfg = parse(
        r#"
[project]
name = "test"

[recipe.build]
type = "docker-build"
"#,
    );
    let r = &(*cfg.recipe.get("build").unwrap());
    assert_eq!(r.recipe_type, RecipeType::DockerBuild);
    assert!(r.image.is_none());
    assert!(r.dockerfile.is_none());
    assert!(r.build_args.is_empty());
}


#[test]
fn test_cross_config_local() {
    let cfg = parse(
        r#"
[project]
name = "test"

[recipe.build]
type = "rust-bin"
package = "myapp"

[recipe.build.cross]
"aarch64-linux-gnu" = { linker = "aarch64-linux-gnu-gcc" }
"#,
    );
    let cross = &(*cfg.recipe.get("build").unwrap()).cross;
    let aarch = &(*cross.get("aarch64-linux-gnu").unwrap());
    assert_eq!(aarch.linker.as_deref(), Some("aarch64-linux-gnu-gcc"));
    assert!(aarch.cross.is_none());
}

#[test]
fn test_cross_config_container() {
    let cfg = parse(
        r#"
[project]
name = "test"

[recipe.build]
type = "rust-bin"
package = "myapp"

[recipe.build.cross]
"aarch64-linux-gnu" = { linker = "aarch64-linux-gnu-gcc", cross = "container" }
"#,
    );
    let aarch = cfg.recipe.get("build").unwrap().cross.get("aarch64-linux-gnu").unwrap();
    assert_eq!(aarch.cross, Some(CrossBackend::Container));
}


#[test]
fn test_cache_modes() {
    let cfg = parse(
        r#"
[project]
name = "test"

[recipe.hashed]
type = "shell"
script = "echo hash"
cache = "hash"

[recipe.mtimed]
type = "shell"
script = "echo mtime"
cache = "mtime"

[recipe.uncached]
type = "shell"
script = "echo none"
cache = "none"
"#,
    );
    assert_eq!((*cfg.recipe.get("hashed").unwrap()).cache, Some(CacheMode::Hash));
    assert_eq!((*cfg.recipe.get("mtimed").unwrap()).cache, Some(CacheMode::Mtime));
    assert_eq!((*cfg.recipe.get("uncached").unwrap()).cache, Some(CacheMode::Disabled));
    assert!(
        cfg.recipe
            .get("hashed")
            .map(|r| r.cache.is_some())
            .unwrap_or(false)
    );
}


#[test]
fn test_validation_passes_for_valid_deps() {
    let cfg = parse(
        r#"
[project]
name = "test"

[recipe.a]
type = "shell"
script = "echo a"

[recipe.b]
type = "shell"
deps = ["a"]
script = "echo b"
"#,
    );
    let result = validate(&cfg, "Mustfile.toml");
    assert!(result.is_ok());
}

#[test]
fn test_validation_fails_for_unknown_dep() {
    let cfg = parse(
        r#"
[project]
name = "test"

[recipe.build]
type = "shell"
deps = ["nonexistent"]
script = "echo build"
"#,
    );
    let result = validate(&cfg, "Mustfile.toml");
    assert!(result.is_err());
    let msg = result.unwrap_err().message();
    assert!(
        msg.contains("nonexistent"),
        "error should name the missing dep: {msg}"
    );
}

#[test]
fn test_validation_fails_for_chain_with_missing_link() {
    let cfg = parse(
        r#"
[project]
name = "test"

[recipe.a]
type = "shell"
script = "echo a"

[recipe.c]
type = "shell"
deps = ["b"]
script = "echo c"
"#,
    );
    // 'b' is referenced but not defined
    let result = validate(&cfg, "Mustfile.toml");
    assert!(result.is_err());
}


#[test]
fn test_validation_shell_missing_script() {
    let cfg = parse(
        r#"
[project]
name = "test"

[recipe.build]
type = "shell"
"#,
    );
    let result = validate(&cfg, "Mustfile.toml");
    assert!(result.is_err());
    let msg = result.unwrap_err().message();
    assert!(
        msg.contains("script"),
        "should mention missing 'script': {msg}"
    );
}

#[test]
fn test_validation_rust_bin_missing_package() {
    let cfg = parse(
        r#"
[project]
name = "test"

[recipe.build]
type = "rust-bin"
"#,
    );
    let result = validate(&cfg, "Mustfile.toml");
    assert!(result.is_err());
    let msg = result.unwrap_err().message();
    assert!(
        msg.contains("package"),
        "should mention missing 'package': {msg}"
    );
}

#[test]
fn test_validation_go_bin_missing_package() {
    let cfg = parse(
        r#"
[project]
name = "test"

[recipe.build]
type = "go-bin"
"#,
    );
    let result = validate(&cfg, "Mustfile.toml");
    assert!(result.is_err());
    let msg = result.unwrap_err().message();
    assert!(
        msg.contains("package"),
        "should mention missing 'package': {msg}"
    );
}

#[test]
fn test_validation_c_bin_missing_sources() {
    let cfg = parse(
        r#"
[project]
name = "test"

[recipe.build]
type = "c-bin"
"#,
    );
    let result = validate(&cfg, "Mustfile.toml");
    assert!(result.is_err());
    let msg = result.unwrap_err().message();
    assert!(
        msg.contains("sources"),
        "should mention missing 'sources': {msg}"
    );
}

#[test]
fn test_validation_ts_bin_missing_package() {
    let cfg = parse(
        r#"
[project]
name = "test"

[recipe.build]
type = "ts-bin"
"#,
    );
    let result = validate(&cfg, "Mustfile.toml");
    assert!(result.is_err());
    let msg = result.unwrap_err().message();
    assert!(
        msg.contains("package"),
        "should mention missing 'package': {msg}"
    );
}

#[test]
fn test_validation_npm_missing_script() {
    let cfg = parse(
        r#"
[project]
name = "test"

[recipe.build]
type = "npm"
"#,
    );
    let result = validate(&cfg, "Mustfile.toml");
    assert!(result.is_err());
    let msg = result.unwrap_err().message();
    assert!(
        msg.contains("script"),
        "should mention missing 'script': {msg}"
    );
}

#[test]
fn test_validation_py_bin_missing_package() {
    let cfg = parse(
        r#"
[project]
name = "test"

[recipe.build]
type = "py-bin"
"#,
    );
    let result = validate(&cfg, "Mustfile.toml");
    assert!(result.is_err());
    let msg = result.unwrap_err().message();
    assert!(
        msg.contains("package"),
        "should mention missing 'package': {msg}"
    );
}

#[test]
fn test_validation_zig_bin_missing_package() {
    let cfg = parse(
        r#"
[project]
name = "test"

[recipe.build]
type = "zig-bin"
"#,
    );
    let result = validate(&cfg, "Mustfile.toml");
    assert!(result.is_err());
    let msg = result.unwrap_err().message();
    assert!(
        msg.contains("package"),
        "should mention missing 'package': {msg}"
    );
}

#[test]
fn test_validation_java_bin_missing_package() {
    let cfg = parse(
        r#"
[project]
name = "test"

[recipe.build]
type = "java-bin"
"#,
    );
    let result = validate(&cfg, "Mustfile.toml");
    assert!(result.is_err());
    let msg = result.unwrap_err().message();
    assert!(
        msg.contains("package"),
        "should mention missing 'package': {msg}"
    );
}

#[test]
fn test_validation_kotlin_bin_missing_package() {
    let cfg = parse(
        r#"
[project]
name = "test"

[recipe.build]
type = "kotlin-bin"
"#,
    );
    let result = validate(&cfg, "Mustfile.toml");
    assert!(result.is_err());
    let msg = result.unwrap_err().message();
    assert!(
        msg.contains("package"),
        "should mention missing 'package': {msg}"
    );
}

#[test]
fn test_validation_swift_bin_missing_package() {
    let cfg = parse(
        r#"
[project]
name = "test"

[recipe.build]
type = "swift-bin"
"#,
    );
    let result = validate(&cfg, "Mustfile.toml");
    assert!(result.is_err());
    let msg = result.unwrap_err().message();
    assert!(
        msg.contains("package"),
        "should mention missing 'package': {msg}"
    );
}

#[test]
fn test_validation_dotnet_build_missing_package() {
    let cfg = parse(
        r#"
[project]
name = "test"

[recipe.build]
type = "dotnet-build"
"#,
    );
    let result = validate(&cfg, "Mustfile.toml");
    assert!(result.is_err());
    let msg = result.unwrap_err().message();
    assert!(msg.contains("package"), "should mention missing 'package': {msg}");
}

#[test]
fn test_validation_ruby_bin_missing_package() {
    let cfg = parse(
        r#"
[project]
name = "test"

[recipe.build]
type = "ruby-bin"
"#,
    );
    let result = validate(&cfg, "Mustfile.toml");
    assert!(result.is_err());
    let msg = result.unwrap_err().message();
    assert!(msg.contains("package"), "should mention missing 'package': {msg}");
}

#[test]
fn test_validation_dart_bin_missing_package() {
    let cfg = parse(
        r#"
[project]
name = "test"

[recipe.build]
type = "dart-bin"
"#,
    );
    let result = validate(&cfg, "Mustfile.toml");
    assert!(result.is_err());
    let msg = result.unwrap_err().message();
    assert!(msg.contains("package"), "should mention missing 'package': {msg}");
}

#[test]
fn test_validation_elixir_build_missing_package() {
    let cfg = parse(
        r#"
[project]
name = "test"

[recipe.build]
type = "elixir-build"
"#,
    );
    let result = validate(&cfg, "Mustfile.toml");
    assert!(result.is_err());
    let msg = result.unwrap_err().message();
    assert!(msg.contains("package"), "should mention missing 'package': {msg}");
}

#[test]
fn test_validation_docker_build_missing_image() {
    let cfg = parse(
        r#"
[project]
name = "test"

[recipe.build]
type = "docker-build"
"#,
    );
    let result = validate(&cfg, "Mustfile.toml");
    assert!(result.is_err());
    let msg = result.unwrap_err().message();
    assert!(
        msg.contains("image"),
        "should mention missing 'image': {msg}"
    );
}

#[test]
fn test_validation_docker_push_missing_image() {
    let cfg = parse(
        r#"
[project]
name = "test"

[recipe.push]
type = "docker-push"
"#,
    );
    let result = validate(&cfg, "Mustfile.toml");
    assert!(result.is_err());
    let msg = result.unwrap_err().message();
    assert!(
        msg.contains("image"),
        "should mention missing 'image': {msg}"
    );
}

#[test]
fn test_validation_valid_recipe_with_all_fields() {
    let cfg = parse(
        r#"
[project]
name = "test"

[recipe.build]
type = "rust-bin"
package = "myapp"

[recipe.test]
type = "rust-test"
package = "myapp"
deps = ["build"]
"#,
    );
    let result = validate(&cfg, "Mustfile.toml");
    assert!(result.is_ok());
}

#[test]
fn test_validation_empty_package_rejected() {
    let cfg = parse(
        r#"
[project]
name = "test"

[recipe.build]
type = "rust-bin"
package = ""
"#,
    );
    let result = validate(&cfg, "Mustfile.toml");
    assert!(result.is_err(), "empty package should be rejected");
}


#[test]
fn test_java_bin_recipe() {
    let cfg = parse(
        r#"
[project]
name = "test"

[recipe.build]
type = "java-bin"
package = "."
"#,
    );
    let r = &(*cfg.recipe.get("build").unwrap());
    assert_eq!(r.recipe_type, RecipeType::JavaBin);
    assert_eq!(r.package.as_deref(), Some("."));
}

#[test]
fn test_java_test_recipe() {
    let cfg = parse(
        r#"
[project]
name = "test"

[recipe.test]
type = "java-test"
package = "services/api"
"#,
    );
    assert_eq!((*cfg.recipe.get("test").unwrap()).recipe_type, RecipeType::JavaTest);
}


#[test]
fn test_kotlin_bin_recipe() {
    let cfg = parse(
        r#"
[project]
name = "test"

[recipe.build]
type = "kotlin-bin"
package = "."
"#,
    );
    let r = &(*cfg.recipe.get("build").unwrap());
    assert_eq!(r.recipe_type, RecipeType::KotlinBin);
    assert_eq!(r.package.as_deref(), Some("."));
}

#[test]
fn test_kotlin_test_recipe() {
    let cfg = parse(
        r#"
[project]
name = "test"

[recipe.test]
type = "kotlin-test"
package = "libs/core"
"#,
    );
    assert_eq!((*cfg.recipe.get("test").unwrap()).recipe_type, RecipeType::KotlinTest);
}


#[test]
fn test_swift_bin_recipe() {
    let cfg = parse(
        r#"
[project]
name = "test"

[recipe.build]
type = "swift-bin"
package = "."
"#,
    );
    let r = &(*cfg.recipe.get("build").unwrap());
    assert_eq!(r.recipe_type, RecipeType::SwiftBin);
    assert_eq!(r.package.as_deref(), Some("."));
}

#[test]
fn test_swift_test_recipe() {
    let cfg = parse(
        r#"
[project]
name = "test"

[recipe.test]
type = "swift-test"
package = "MyPackage"
"#,
    );
    assert_eq!((*cfg.recipe.get("test").unwrap()).recipe_type, RecipeType::SwiftTest);
}


#[test]
fn test_dotnet_build_recipe() {
    let cfg = parse(
        r#"
[project]
name = "test"

[recipe.build]
type = "dotnet-build"
package = "src/MyApp"
"#,
    );
    let r = &(*cfg.recipe.get("build").unwrap());
    assert_eq!(r.recipe_type, RecipeType::DotnetBuild);
    assert_eq!(r.package.as_deref(), Some("src/MyApp"));
}

#[test]
fn test_dotnet_test_recipe() {
    let cfg = parse(
        r#"
[project]
name = "test"

[recipe.test]
type = "dotnet-test"
package = "tests/MyApp.Tests"
"#,
    );
    assert_eq!((*cfg.recipe.get("test").unwrap()).recipe_type, RecipeType::DotnetTest);
}

#[test]
fn test_dotnet_publish_recipe() {
    let cfg = parse(
        r#"
[project]
name = "test"

[recipe.publish]
type = "dotnet-publish"
package = "src/MyApp"
"#,
    );
    assert_eq!((*cfg.recipe.get("publish").unwrap()).recipe_type, RecipeType::DotnetPublish);
}


#[test]
fn test_ruby_bin_recipe() {
    let cfg = parse(
        r#"
[project]
name = "test"

[recipe.build]
type = "ruby-bin"
package = "."
"#,
    );
    let r = &(*cfg.recipe.get("build").unwrap());
    assert_eq!(r.recipe_type, RecipeType::RubyBin);
    assert_eq!(r.package.as_deref(), Some("."));
}

#[test]
fn test_ruby_test_recipe() {
    let cfg = parse(
        r#"
[project]
name = "test"

[recipe.test]
type = "ruby-test"
package = "gems/core"
"#,
    );
    assert_eq!((*cfg.recipe.get("test").unwrap()).recipe_type, RecipeType::RubyTest);
}


#[test]
fn test_dart_bin_recipe() {
    let cfg = parse(
        r#"
[project]
name = "test"

[recipe.build]
type = "dart-bin"
package = "bin/main.dart"
"#,
    );
    let r = &(*cfg.recipe.get("build").unwrap());
    assert_eq!(r.recipe_type, RecipeType::DartBin);
    assert_eq!(r.package.as_deref(), Some("bin/main.dart"));
}

#[test]
fn test_dart_test_recipe() {
    let cfg = parse(
        r#"
[project]
name = "test"

[recipe.test]
type = "dart-test"
package = "test/"
"#,
    );
    assert_eq!((*cfg.recipe.get("test").unwrap()).recipe_type, RecipeType::DartTest);
}


#[test]
fn test_elixir_build_recipe() {
    let cfg = parse(
        r#"
[project]
name = "test"

[recipe.build]
type = "elixir-build"
package = "."
"#,
    );
    let r = &(*cfg.recipe.get("build").unwrap());
    assert_eq!(r.recipe_type, RecipeType::ElixirBuild);
    assert_eq!(r.package.as_deref(), Some("."));
}

#[test]
fn test_elixir_test_recipe() {
    let cfg = parse(
        r#"
[project]
name = "test"

[recipe.test]
type = "elixir-test"
package = "apps/api"
"#,
    );
    assert_eq!((*cfg.recipe.get("test").unwrap()).recipe_type, RecipeType::ElixirTest);
}

#[test]
fn test_unknown_recipe_type_is_error() {
    let err = parse_err(
        r#"
[project]
name = "test"

[recipe.build]
type = "haskell-bin"
script = "cabal build"
"#,
    );
    assert!(!err.is_empty(), "unknown recipe type should fail to parse");
}

#[test]
fn test_missing_project_name_is_error() {
    let err = parse_err(
        r#"
[project]
version = "1.0"
"#,
    );
    assert!(!err.is_empty(), "missing project.name should fail to parse");
}

#[test]
fn test_load_config_invalid_toml() {
    let result = parse_config("this is not valid toml ][", "Mustfile.toml");
    assert!(result.is_err());
}

#[test]
fn test_load_config_validates_deps() {
    let cfg = parse(
        r#"
[project]
name = "bad"

[recipe.build]
type = "shell"
deps = ["ghost"]
script = "echo build"
"#,
    );
    let result = validate(&cfg, "Mustfile.toml");
    assert!(result.is_err());
    let msg = result.unwrap_err().message();
    assert!(msg.contains("ghost"), "should name missing dep in error: {msg}");
}

#[test]
fn test_load_config_from_file() {
    let cfg = parse(
        r#"
[project]
name = "roundtrip"
version = "0.1.0"

[env]
RUST_LOG = "info"

[recipe.build]
type = "rust-bin"
package = "roundtrip"
deps = []
"#,
    );
    assert!(validate(&cfg, "Mustfile.toml").is_ok());
    assert_eq!(cfg.project.name, "roundtrip");
    assert_eq!((*cfg.recipe.get("build").unwrap()).recipe_type, RecipeType::RustBin);
}

#[test]
fn test_include_merges_recipes() {
    let mut cfg = parse(
        r#"
[project]
name = "myapp"
include = ["libs.toml"]

[recipe.build]
type = "rust-bin"
package = "myapp"
"#,
    );
    let fragment = parse_fragment(
        r#"
[recipe.parser]
type = "rust-bin"
package = "parser"

[recipe.parser-test]
type = "rust-test"
package = "parser"
"#,
        "libs.toml",
    )
    .unwrap();
    cfg.merge_fragment(fragment);
    assert!(validate(&cfg, "Mustfile.toml").is_ok());
    assert!(cfg.recipe.contains_key("build"), "main recipe present");
    assert!(cfg.recipe.contains_key("parser"), "included recipe present");
    assert!(cfg.recipe.contains_key("parser-test"), "included recipe present");
    assert_eq!(cfg.project.include_paths, vec!["libs.toml"]);
}

#[test]
fn test_include_main_wins_on_conflict() {
    let mut cfg = parse(
        r#"
[project]
name = "myapp"
include = ["shared.toml"]

[recipe.build]
type = "rust-bin"
package = "myapp"
"#,
    );
    let fragment = parse_fragment(
        r#"
[recipe.build]
type = "shell"
script = "echo included"
"#,
        "shared.toml",
    )
    .unwrap();
    cfg.merge_fragment(fragment);
    assert_eq!(
        (*cfg.recipe.get("build").unwrap()).recipe_type,
        RecipeType::RustBin,
        "main config should win over include"
    );
}

#[test]
fn invalid_include_is_error() {
    let result = parse_fragment("[recipe.x]\ntype = 3\n", "bad.toml");
    let msg = result.err().unwrap().message();
    assert!(msg.contains("invalid include"), "{msg}");
    assert!(msg.contains("bad.toml"), "{msg}");
}

#[test]
fn decoding_reports_bad_field() {
    let err = parse_err(
        r#"
[project]
name = "test"

[recipe.build]
type = "shell"
deps = "not-a-list"
"#,
    );
    assert!(err.contains("deps"), "{err}");
    assert!(err.contains("build"), "{err}");
}
