//! Bridges to other build tools: which tool a project uses (by the files
//! it holds), the command that runs one of its targets, the recipes a
//! project without a Mustfile gets, and the recipe that runs such a command.

use vstd::prelude::*;
use crate::cc::{file_name, path_file_name};
use crate::config::{CacheMode, Config, EnvMap, Project, Recipe as ConfigRecipe, RecipeType, RecipeV};
use crate::hash::{hash_string, hex_spec, sha256_spec};
use vstd::utf8::encode_utf8;
use crate::job::{Invocation, Plan};
use crate::map::{OrdMap, assoc_get, assoc_insert};
use crate::runner::{concat2, concat3, key_view};
use crate::text::{chars_of, extend_str, lt, str_eq, string_of, sv, vec_contains};
use crate::types::{BuildContext, CacheKey, CacheStrategy, Recipe};

verus! {

/// A build tool a project may already use.
#[derive(Debug, Clone, Copy, PartialEq, Eq, Structural)]
pub enum BridgeTool {
    Make,
    Npm,
    Gradle,
    Maven,
    Rake,
    Invoke,
    Cmake,
    CargoMake,
    Ant,
    Just,
    Bazel,
    Buck2,
    Pants,
    Meson,
    Yarn,
    Pnpm,
    Bun,
    Sbt,
    Gulp,
    Nx,
}

/// Every tool, in the order detection tries them.
pub open spec fn all_tools_spec() -> Seq<BridgeTool> {
    seq![BridgeTool::Make, BridgeTool::Npm, BridgeTool::Gradle, BridgeTool::Maven, BridgeTool::Rake, BridgeTool::Invoke, BridgeTool::Cmake, BridgeTool::CargoMake, BridgeTool::Ant, BridgeTool::Just, BridgeTool::Bazel, BridgeTool::Buck2, BridgeTool::Pants, BridgeTool::Meson, BridgeTool::Yarn, BridgeTool::Pnpm, BridgeTool::Bun, BridgeTool::Sbt, BridgeTool::Gulp, BridgeTool::Nx]
}

/// The files whose presence shows that a project uses the tool.
pub open spec fn indicators(t: BridgeTool) -> Seq<Seq<char>> {
    match t {
        BridgeTool::Make => seq!["Makefile"@, "GNUmakefile"@, "makefile"@],
        BridgeTool::Npm => seq!["package.json"@],
        BridgeTool::Gradle => seq!["build.gradle"@, "build.gradle.kts"@],
        BridgeTool::Maven => seq!["pom.xml"@],
        BridgeTool::Rake => seq!["Rakefile"@],
        BridgeTool::Invoke => seq!["tasks.py"@],
        BridgeTool::Cmake => seq!["CMakeLists.txt"@],
        BridgeTool::CargoMake => seq!["Makefile.toml"@],
        BridgeTool::Ant => seq!["build.xml"@],
        BridgeTool::Just => seq!["justfile"@, "Justfile"@],
        BridgeTool::Bazel => seq!["WORKSPACE"@, "WORKSPACE.bazel"@, "MODULE.bazel"@],
        BridgeTool::Buck2 => seq!["BUCK"@],
        BridgeTool::Pants => seq!["pants.toml"@],
        BridgeTool::Meson => seq!["meson.build"@],
        BridgeTool::Yarn => seq!["yarn.lock"@],
        BridgeTool::Pnpm => seq!["pnpm-lock.yaml"@],
        BridgeTool::Bun => seq!["bun.lockb"@, "bun.lock"@],
        BridgeTool::Sbt => seq!["build.sbt"@],
        BridgeTool::Gulp => seq!["gulpfile.js"@, "gulpfile.mjs"@, "gulpfile.ts"@],
        BridgeTool::Nx => seq!["nx.json"@],
    }
}

/// The tool an indicator file belongs to, told by its first character, its
/// length and, among three names of the same length, its seventh character.
spec fn indicator_owner(f: Seq<char>) -> BridgeTool {
    let c = f[0];
    let n = f.len();
    if c == 'M' {
        if n == 13 {
            BridgeTool::CargoMake
        } else if n == 12 {
            BridgeTool::Bazel
        } else {
            BridgeTool::Make
        }
    } else if c == 'G' {
        BridgeTool::Make
    } else if c == 'm' {
        if n == 11 {
            BridgeTool::Meson
        } else {
            BridgeTool::Make
        }
    } else if c == 'p' {
        if n == 12 {
            BridgeTool::Npm
        } else if n == 7 {
            BridgeTool::Maven
        } else if n == 10 {
            BridgeTool::Pants
        } else {
            BridgeTool::Pnpm
        }
    } else if c == 'b' {
        if n == 12 || n == 16 {
            BridgeTool::Gradle
        } else if n == 8 {
            BridgeTool::Bun
        } else if f[6] == 'x' {
            BridgeTool::Ant
        } else if f[6] == 's' {
            BridgeTool::Sbt
        } else {
            BridgeTool::Bun
        }
    } else if c == 'R' {
        BridgeTool::Rake
    } else if c == 't' {
        BridgeTool::Invoke
    } else if c == 'C' {
        BridgeTool::Cmake
    } else if c == 'j' || c == 'J' {
        BridgeTool::Just
    } else if c == 'W' {
        BridgeTool::Bazel
    } else if c == 'B' {
        BridgeTool::Buck2
    } else if c == 'y' {
        BridgeTool::Yarn
    } else if c == 'g' {
        BridgeTool::Gulp
    } else {
        BridgeTool::Nx
    }
}

/// Each indicator file of a tool belongs to that tool.
proof fn lemma_indicator_owner(t: BridgeTool, i: int)
    requires
        0 <= i < indicators(t).len(),
    ensures
        indicator_owner(indicators(t)[i]) == t,
{
    reveal_strlit("BUCK");
    reveal_strlit("CMakeLists.txt");
    reveal_strlit("GNUmakefile");
    reveal_strlit("Justfile");
    reveal_strlit("MODULE.bazel");
    reveal_strlit("Makefile");
    reveal_strlit("Makefile.toml");
    reveal_strlit("Rakefile");
    reveal_strlit("WORKSPACE");
    reveal_strlit("WORKSPACE.bazel");
    reveal_strlit("build.gradle");
    reveal_strlit("build.gradle.kts");
    reveal_strlit("build.sbt");
    reveal_strlit("build.xml");
    reveal_strlit("bun.lock");
    reveal_strlit("bun.lockb");
    reveal_strlit("gulpfile.js");
    reveal_strlit("gulpfile.mjs");
    reveal_strlit("gulpfile.ts");
    reveal_strlit("justfile");
    reveal_strlit("makefile");
    reveal_strlit("meson.build");
    reveal_strlit("nx.json");
    reveal_strlit("package.json");
    reveal_strlit("pants.toml");
    reveal_strlit("pnpm-lock.yaml");
    reveal_strlit("pom.xml");
    reveal_strlit("tasks.py");
    reveal_strlit("yarn.lock");
    match t {
        BridgeTool::Make => {},
        BridgeTool::Npm => {},
        BridgeTool::Gradle => {},
        BridgeTool::Maven => {},
        BridgeTool::Rake => {},
        BridgeTool::Invoke => {},
        BridgeTool::Cmake => {},
        BridgeTool::CargoMake => {},
        BridgeTool::Ant => {},
        BridgeTool::Just => {},
        BridgeTool::Bazel => {},
        BridgeTool::Buck2 => {},
        BridgeTool::Pants => {},
        BridgeTool::Meson => {},
        BridgeTool::Yarn => {},
        BridgeTool::Pnpm => {},
        BridgeTool::Bun => {},
        BridgeTool::Sbt => {},
        BridgeTool::Gulp => {},
        BridgeTool::Nx => {},
    }
}

/// Law: every tool has an indicator file, and no file indicates two tools,
/// so each indicator file names exactly one tool.
pub proof fn law_indicator_files(t: BridgeTool, u: BridgeTool, f: Seq<char>)
    ensures
        indicators(t).len() > 0,
        t != u && indicators(t).contains(f) ==> !indicators(u).contains(f),
{
    if t != u && indicators(t).contains(f) && indicators(u).contains(f) {
        let i = choose|i: int| 0 <= i < indicators(t).len() && indicators(t)[i] == f;
        let j = choose|j: int| 0 <= j < indicators(u).len() && indicators(u)[j] == f;
        lemma_indicator_owner(t, i);
        lemma_indicator_owner(u, j);
    }
}

/// The tool's command name.
pub open spec fn tool_name(t: BridgeTool) -> Seq<char> {
    match t {
        BridgeTool::Make => "make"@,
        BridgeTool::Npm => "npm"@,
        BridgeTool::Gradle => "gradle"@,
        BridgeTool::Maven => "mvn"@,
        BridgeTool::Rake => "rake"@,
        BridgeTool::Invoke => "invoke"@,
        BridgeTool::Cmake => "cmake"@,
        BridgeTool::CargoMake => "cargo-make"@,
        BridgeTool::Ant => "ant"@,
        BridgeTool::Just => "just"@,
        BridgeTool::Bazel => "bazel"@,
        BridgeTool::Buck2 => "buck2"@,
        BridgeTool::Pants => "pants"@,
        BridgeTool::Meson => "meson"@,
        BridgeTool::Yarn => "yarn"@,
        BridgeTool::Pnpm => "pnpm"@,
        BridgeTool::Bun => "bun"@,
        BridgeTool::Sbt => "sbt"@,
        BridgeTool::Gulp => "gulp"@,
        BridgeTool::Nx => "nx"@,
    }
}

/// The recipes a project gets from the tool: recipe name and tool target.
pub open spec fn defaults(t: BridgeTool) -> Seq<(Seq<char>, Seq<char>)> {
    match t {
        BridgeTool::Make => seq![("build"@, "build"@), ("test"@, "test"@), ("clean"@, "clean"@), ("lint"@, "lint"@), ("fmt"@, "fmt"@)],
        BridgeTool::Npm => seq![("build"@, "build"@), ("test"@, "test"@), ("lint"@, "lint"@), ("fmt"@, "format"@)],
        BridgeTool::Gradle => seq![("build"@, "build"@), ("test"@, "test"@), ("clean"@, "clean"@), ("lint"@, "check"@), ("fmt"@, "spotlessApply"@)],
        BridgeTool::Maven => seq![("build"@, "compile"@), ("test"@, "test"@), ("clean"@, "clean"@), ("lint"@, "verify"@), ("fmt"@, "fmt:format"@)],
        BridgeTool::Rake => seq![("build"@, "build"@), ("test"@, "test"@), ("clean"@, "clean"@), ("lint"@, "lint"@), ("fmt"@, "format"@)],
        BridgeTool::Invoke => seq![("build"@, "build"@), ("test"@, "test"@), ("lint"@, "lint"@), ("fmt"@, "format"@)],
        BridgeTool::Cmake => seq![("build"@, "build"@), ("test"@, "test"@), ("clean"@, "clean"@)],
        BridgeTool::CargoMake => seq![("build"@, "build"@), ("test"@, "test"@), ("clean"@, "clean"@), ("lint"@, "lint"@), ("fmt"@, "format"@)],
        BridgeTool::Ant => seq![("build"@, "build"@), ("test"@, "test"@), ("clean"@, "clean"@)],
        BridgeTool::Just => seq![("build"@, "build"@), ("test"@, "test"@), ("clean"@, "clean"@), ("lint"@, "lint"@), ("fmt"@, "fmt"@)],
        BridgeTool::Bazel => seq![("build"@, "build //..."@), ("test"@, "test //..."@), ("clean"@, "clean"@), ("lint"@, "build //... --aspects-workers=4"@)],
        BridgeTool::Buck2 => seq![("build"@, "build //..."@), ("test"@, "test //..."@), ("clean"@, "clean"@)],
        BridgeTool::Pants => seq![("build"@, "package ::"@), ("test"@, "test ::"@), ("lint"@, "lint ::"@), ("fmt"@, "fmt ::"@), ("clean"@, "clean-all"@)],
        BridgeTool::Meson => seq![("build"@, "build"@), ("test"@, "test"@), ("clean"@, "clean"@)],
        BridgeTool::Yarn => seq![("build"@, "build"@), ("test"@, "test"@), ("lint"@, "lint"@), ("fmt"@, "format"@)],
        BridgeTool::Pnpm => seq![("build"@, "build"@), ("test"@, "test"@), ("lint"@, "lint"@), ("fmt"@, "format"@)],
        BridgeTool::Bun => seq![("build"@, "build"@), ("test"@, "test"@), ("lint"@, "lint"@), ("fmt"@, "format"@)],
        BridgeTool::Sbt => seq![("build"@, "compile"@), ("test"@, "test"@), ("clean"@, "clean"@)],
        BridgeTool::Gulp => seq![("build"@, "build"@), ("test"@, "test"@), ("clean"@, "clean"@)],
        BridgeTool::Nx => seq![("build"@, "run-many --target=build --all"@), ("test"@, "run-many --target=test --all"@), ("lint"@, "run-many --target=lint --all"@), ("fmt"@, "format"@)],
    }
}

/// The target is the default one: empty or `build`.
pub open spec fn default_target(target: Seq<char>) -> bool {
    target.len() == 0 || target == "build"@
}

/// The command that runs `target` with the tool.
pub open spec fn command_spec(t: BridgeTool, target: Seq<char>) -> Seq<char> {
    match t {
        BridgeTool::Make => if default_target(target) {
            "make"@
        } else {
            "make "@ + target
        },
        BridgeTool::Cmake => if default_target(target) {
            "cmake --build build"@
        } else if target == "test"@ {
            "ctest --test-dir build"@
        } else {
            "cmake --build build --target "@ + target
        },
        BridgeTool::Ant => if default_target(target) {
            "ant"@
        } else {
            "ant "@ + target
        },
        BridgeTool::Meson => if default_target(target) {
            "meson compile -C builddir"@
        } else if target == "test"@ {
            "meson test -C builddir"@
        } else {
            "meson compile -C builddir "@ + target
        },
        BridgeTool::Npm => "npm run "@ + target,
        BridgeTool::Gradle => "gradle "@ + target,
        BridgeTool::Maven => "mvn "@ + target,
        BridgeTool::Rake => "rake "@ + target,
        BridgeTool::Invoke => "invoke "@ + target,
        BridgeTool::CargoMake => "cargo make "@ + target,
        BridgeTool::Just => "just "@ + target,
        BridgeTool::Bazel => "bazel "@ + target,
        BridgeTool::Buck2 => "buck2 "@ + target,
        BridgeTool::Pants => "pants "@ + target,
        BridgeTool::Yarn => "yarn "@ + target,
        BridgeTool::Pnpm => "pnpm "@ + target,
        BridgeTool::Bun => "bun run "@ + target,
        BridgeTool::Sbt => "sbt "@ + target,
        BridgeTool::Gulp => "gulp "@ + target,
        BridgeTool::Nx => "nx "@ + target,
    }
}

impl BridgeTool {
    /// The files whose presence shows that a project uses the tool.
    pub fn indicator_files(&self) -> (r: Vec<&'static str>)
        ensures
            r@.map_values(|s: &str| s@) == indicators(*self),
    {
        let r: Vec<&'static str> = match self {
            BridgeTool::Make => vec!["Makefile", "GNUmakefile", "makefile"],
            BridgeTool::Npm => vec!["package.json"],
            BridgeTool::Gradle => vec!["build.gradle", "build.gradle.kts"],
            BridgeTool::Maven => vec!["pom.xml"],
            BridgeTool::Rake => vec!["Rakefile"],
            BridgeTool::Invoke => vec!["tasks.py"],
            BridgeTool::Cmake => vec!["CMakeLists.txt"],
            BridgeTool::CargoMake => vec!["Makefile.toml"],
            BridgeTool::Ant => vec!["build.xml"],
            BridgeTool::Just => vec!["justfile", "Justfile"],
            BridgeTool::Bazel => vec!["WORKSPACE", "WORKSPACE.bazel", "MODULE.bazel"],
            BridgeTool::Buck2 => vec!["BUCK"],
            BridgeTool::Pants => vec!["pants.toml"],
            BridgeTool::Meson => vec!["meson.build"],
            BridgeTool::Yarn => vec!["yarn.lock"],
            BridgeTool::Pnpm => vec!["pnpm-lock.yaml"],
            BridgeTool::Bun => vec!["bun.lockb", "bun.lock"],
            BridgeTool::Sbt => vec!["build.sbt"],
            BridgeTool::Gulp => vec!["gulpfile.js", "gulpfile.mjs", "gulpfile.ts"],
            BridgeTool::Nx => vec!["nx.json"],
        };
        assert(r@.map_values(|s: &str| s@) =~= indicators(*self));
        r
    }

    /// The tool's command name.
    pub fn name(&self) -> (r: &'static str)
        ensures
            r@ == tool_name(*self),
    {
        match self {
            BridgeTool::Make => "make",
            BridgeTool::Npm => "npm",
            BridgeTool::Gradle => "gradle",
            BridgeTool::Maven => "mvn",
            BridgeTool::Rake => "rake",
            BridgeTool::Invoke => "invoke",
            BridgeTool::Cmake => "cmake",
            BridgeTool::CargoMake => "cargo-make",
            BridgeTool::Ant => "ant",
            BridgeTool::Just => "just",
            BridgeTool::Bazel => "bazel",
            BridgeTool::Buck2 => "buck2",
            BridgeTool::Pants => "pants",
            BridgeTool::Meson => "meson",
            BridgeTool::Yarn => "yarn",
            BridgeTool::Pnpm => "pnpm",
            BridgeTool::Bun => "bun",
            BridgeTool::Sbt => "sbt",
            BridgeTool::Gulp => "gulp",
            BridgeTool::Nx => "nx",
        }
    }

    /// The command that runs `target` with the tool.
    pub fn build_command(&self, target: &str) -> (r: String)
        ensures
            r@ == command_spec(*self, target@),
    {
        let dflt = chars_of(target).len() == 0 || str_eq(target, "build");
        match self {
            BridgeTool::Make => if dflt {
                "make".to_owned()
            } else {
                concat2("make ", target)
            },
            BridgeTool::Cmake => if dflt {
                "cmake --build build".to_owned()
            } else if str_eq(target, "test") {
                "ctest --test-dir build".to_owned()
            } else {
                concat2("cmake --build build --target ", target)
            },
            BridgeTool::Ant => if dflt {
                "ant".to_owned()
            } else {
                concat2("ant ", target)
            },
            BridgeTool::Meson => if dflt {
                "meson compile -C builddir".to_owned()
            } else if str_eq(target, "test") {
                "meson test -C builddir".to_owned()
            } else {
                concat2("meson compile -C builddir ", target)
            },
            BridgeTool::Npm => concat2("npm run ", target),
            BridgeTool::Gradle => concat2("gradle ", target),
            BridgeTool::Maven => concat2("mvn ", target),
            BridgeTool::Rake => concat2("rake ", target),
            BridgeTool::Invoke => concat2("invoke ", target),
            BridgeTool::CargoMake => concat2("cargo make ", target),
            BridgeTool::Just => concat2("just ", target),
            BridgeTool::Bazel => concat2("bazel ", target),
            BridgeTool::Buck2 => concat2("buck2 ", target),
            BridgeTool::Pants => concat2("pants ", target),
            BridgeTool::Yarn => concat2("yarn ", target),
            BridgeTool::Pnpm => concat2("pnpm ", target),
            BridgeTool::Bun => concat2("bun run ", target),
            BridgeTool::Sbt => concat2("sbt ", target),
            BridgeTool::Gulp => concat2("gulp ", target),
            BridgeTool::Nx => concat2("nx ", target),
        }
    }

    /// The recipes a project gets from the tool: recipe name and target.
    pub fn default_recipes(&self) -> (r: Vec<(&'static str, &'static str)>)
        ensures
            r@.map_values(|e: (&str, &str)| (e.0@, e.1@)) == defaults(*self),
    {
        let r: Vec<(&'static str, &'static str)> = match self {
            BridgeTool::Make => vec![("build", "build"), ("test", "test"), ("clean", "clean"), ("lint", "lint"), ("fmt", "fmt")],
            BridgeTool::Npm => vec![("build", "build"), ("test", "test"), ("lint", "lint"), ("fmt", "format")],
            BridgeTool::Gradle => vec![("build", "build"), ("test", "test"), ("clean", "clean"), ("lint", "check"), ("fmt", "spotlessApply")],
            BridgeTool::Maven => vec![("build", "compile"), ("test", "test"), ("clean", "clean"), ("lint", "verify"), ("fmt", "fmt:format")],
            BridgeTool::Rake => vec![("build", "build"), ("test", "test"), ("clean", "clean"), ("lint", "lint"), ("fmt", "format")],
            BridgeTool::Invoke => vec![("build", "build"), ("test", "test"), ("lint", "lint"), ("fmt", "format")],
            BridgeTool::Cmake => vec![("build", "build"), ("test", "test"), ("clean", "clean")],
            BridgeTool::CargoMake => vec![("build", "build"), ("test", "test"), ("clean", "clean"), ("lint", "lint"), ("fmt", "format")],
            BridgeTool::Ant => vec![("build", "build"), ("test", "test"), ("clean", "clean")],
            BridgeTool::Just => vec![("build", "build"), ("test", "test"), ("clean", "clean"), ("lint", "lint"), ("fmt", "fmt")],
            BridgeTool::Bazel => vec![("build", "build //..."), ("test", "test //..."), ("clean", "clean"), ("lint", "build //... --aspects-workers=4")],
            BridgeTool::Buck2 => vec![("build", "build //..."), ("test", "test //..."), ("clean", "clean")],
            BridgeTool::Pants => vec![("build", "package ::"), ("test", "test ::"), ("lint", "lint ::"), ("fmt", "fmt ::"), ("clean", "clean-all")],
            BridgeTool::Meson => vec![("build", "build"), ("test", "test"), ("clean", "clean")],
            BridgeTool::Yarn => vec![("build", "build"), ("test", "test"), ("lint", "lint"), ("fmt", "format")],
            BridgeTool::Pnpm => vec![("build", "build"), ("test", "test"), ("lint", "lint"), ("fmt", "format")],
            BridgeTool::Bun => vec![("build", "build"), ("test", "test"), ("lint", "lint"), ("fmt", "format")],
            BridgeTool::Sbt => vec![("build", "compile"), ("test", "test"), ("clean", "clean")],
            BridgeTool::Gulp => vec![("build", "build"), ("test", "test"), ("clean", "clean")],
            BridgeTool::Nx => vec![("build", "run-many --target=build --all"), ("test", "run-many --target=test --all"), ("lint", "run-many --target=lint --all"), ("fmt", "format")],
        };
        assert(r@.map_values(|e: (&str, &str)| (e.0@, e.1@)) =~= defaults(*self));
        r
    }
}

/// Every tool, in the order detection tries them.
pub fn all_tools() -> (r: Vec<BridgeTool>)
    ensures
        r@ == all_tools_spec(),
{
    let r = vec![BridgeTool::Make, BridgeTool::Npm, BridgeTool::Gradle, BridgeTool::Maven, BridgeTool::Rake, BridgeTool::Invoke, BridgeTool::Cmake, BridgeTool::CargoMake, BridgeTool::Ant, BridgeTool::Just, BridgeTool::Bazel, BridgeTool::Buck2, BridgeTool::Pants, BridgeTool::Meson, BridgeTool::Yarn, BridgeTool::Pnpm, BridgeTool::Bun, BridgeTool::Sbt, BridgeTool::Gulp, BridgeTool::Nx];
    assert(r@ =~= all_tools_spec());
    r
}

/// The position of a tool in detection order.
spec fn tool_index(t: BridgeTool) -> int {
    match t {
        BridgeTool::Make => 0,
        BridgeTool::Npm => 1,
        BridgeTool::Gradle => 2,
        BridgeTool::Maven => 3,
        BridgeTool::Rake => 4,
        BridgeTool::Invoke => 5,
        BridgeTool::Cmake => 6,
        BridgeTool::CargoMake => 7,
        BridgeTool::Ant => 8,
        BridgeTool::Just => 9,
        BridgeTool::Bazel => 10,
        BridgeTool::Buck2 => 11,
        BridgeTool::Pants => 12,
        BridgeTool::Meson => 13,
        BridgeTool::Yarn => 14,
        BridgeTool::Pnpm => 15,
        BridgeTool::Bun => 16,
        BridgeTool::Sbt => 17,
        BridgeTool::Gulp => 18,
        BridgeTool::Nx => 19,
    }
}

/// Each tool stands once in detection order.
proof fn lemma_all_tools_distinct()
    ensures
        all_tools_spec().no_duplicates(),
{
    let a = all_tools_spec();
    assert forall|i: int| 0 <= i < a.len() implies tool_index(#[trigger] a[i]) == i by {
        if i == 0 {
            assert(a[0] == BridgeTool::Make);
        } else if i == 1 {
            assert(a[1] == BridgeTool::Npm);
        } else if i == 2 {
            assert(a[2] == BridgeTool::Gradle);
        } else if i == 3 {
            assert(a[3] == BridgeTool::Maven);
        } else if i == 4 {
            assert(a[4] == BridgeTool::Rake);
        } else if i == 5 {
            assert(a[5] == BridgeTool::Invoke);
        } else if i == 6 {
            assert(a[6] == BridgeTool::Cmake);
        } else if i == 7 {
            assert(a[7] == BridgeTool::CargoMake);
        } else if i == 8 {
            assert(a[8] == BridgeTool::Ant);
        } else if i == 9 {
            assert(a[9] == BridgeTool::Just);
        } else if i == 10 {
            assert(a[10] == BridgeTool::Bazel);
        } else if i == 11 {
            assert(a[11] == BridgeTool::Buck2);
        } else if i == 12 {
            assert(a[12] == BridgeTool::Pants);
        } else if i == 13 {
            assert(a[13] == BridgeTool::Meson);
        } else if i == 14 {
            assert(a[14] == BridgeTool::Yarn);
        } else if i == 15 {
            assert(a[15] == BridgeTool::Pnpm);
        } else if i == 16 {
            assert(a[16] == BridgeTool::Bun);
        } else if i == 17 {
            assert(a[17] == BridgeTool::Sbt);
        } else if i == 18 {
            assert(a[18] == BridgeTool::Gulp);
        } else if i == 19 {
            assert(a[19] == BridgeTool::Nx);
        }
    }
}

/// Filtering a sequence without repeats keeps it without repeats.
proof fn lemma_filter_no_duplicates<A>(s: Seq<A>, p: spec_fn(A) -> bool)
    requires
        s.no_duplicates(),
    ensures
        s.filter(p).no_duplicates(),
        forall|x: A| s.filter(p).contains(x) ==> s.contains(x),
    decreases s.len(),
{
    reveal(Seq::filter);
    if s.len() > 0 {
        let d = s.drop_last();
        assert(d.no_duplicates()) by {
            assert forall|i: int, j: int| 0 <= i < d.len() && 0 <= j < d.len() && i != j implies d[i]
                != d[j] by {
                assert(d[i] == s[i] && d[j] == s[j]);
            }
        }
        lemma_filter_no_duplicates(d, p);
        let sub = d.filter(p);
        assert(!d.contains(s.last())) by {
            if d.contains(s.last()) {
                let k = choose|k: int| 0 <= k < d.len() && d[k] == s.last();
                assert(s[k] == s[s.len() - 1]);
            }
        }
        if p(s.last()) {
            let r = sub.push(s.last());
            assert(s.filter(p) == r);
            assert forall|i: int, j: int| 0 <= i < r.len() && 0 <= j < r.len() && i != j implies r[i]
                != r[j] by {
                if i == sub.len() {
                    assert(sub.contains(r[j]));
                } else if j == sub.len() {
                    assert(sub.contains(r[i]));
                }
            }
            assert forall|x: A| r.contains(x) implies s.contains(x) by {
                let k = choose|k: int| 0 <= k < r.len() && r[k] == x;
                if k < sub.len() {
                    assert(r[k] == sub[k]);
                    assert(sub.contains(x));
                    assert(d.contains(x));
                    let q = choose|q: int| 0 <= q < d.len() && d[q] == x;
                    assert(d[q] == s[q]);
                    assert(s[q] == x);
                } else {
                    assert(s[s.len() - 1] == x);
                }
            }
        } else {
            assert forall|x: A| sub.contains(x) implies s.contains(x) by {
                assert(d.contains(x));
                let q = choose|q: int| 0 <= q < d.len() && d[q] == x;
                assert(d[q] == s[q]);
                assert(s[q] == x);
            }
        }
    }
}

/// Law: detection lists no tool twice.
pub proof fn law_detected_tools_distinct(present: Seq<Seq<char>>)
    ensures
        detected_tools(present).no_duplicates(),
{
    lemma_all_tools_distinct();
    lemma_filter_no_duplicates(all_tools_spec(), |t: BridgeTool| detected(t, present));
}

/// A file showing the tool is among the present files.
pub open spec fn detected(t: BridgeTool, present: Seq<Seq<char>>) -> bool {
    exists|i: int| 0 <= i < indicators(t).len() && present.contains(#[trigger] indicators(t)[i])
}

/// The tools a project uses, in detection order, given which of the
/// indicator files exist in its root.
pub open spec fn detected_tools(present: Seq<Seq<char>>) -> Seq<BridgeTool> {
    all_tools_spec().filter(|t: BridgeTool| detected(t, present))
}

/// A file showing the tool is among the present files.
fn is_detected(t: BridgeTool, present: &Vec<String>) -> (b: bool)
    ensures
        b == detected(t, sv(present@)),
{
    let files = t.indicator_files();
    let ghost fs = files@.map_values(|s: &str| s@);
    let mut j: usize = 0;
    while j < files.len()
        invariant
            j <= files@.len(),
            fs == files@.map_values(|s: &str| s@),
            fs == indicators(t),
            forall|k: int| 0 <= k < j ==> !sv(present@).contains(#[trigger] indicators(t)[k]),
        decreases files@.len() - j,
    {
        if vec_contains(present, files[j]) {
            assert(fs[j as int] == files@[j as int]@);
            return true;
        }
        assert(fs[j as int] == files@[j as int]@);
        j += 1;
    }
    false
}

/// The tools a project uses, in detection order: those with an indicator
/// file among `present`, the names of the files that exist in the
/// project root.
pub fn detect_bridges(present: &Vec<String>) -> (r: Vec<BridgeTool>)
    ensures
        r@ == detected_tools(sv(present@)),
{
    let tools = all_tools();
    let ghost all = tools@;
    let mut found: Vec<BridgeTool> = Vec::new();
    let mut i: usize = 0;
    while i < tools.len()
        invariant
            i <= all.len(),
            all == tools@,
            all == all_tools_spec(),
            found@ == all.take(i as int).filter(|t: BridgeTool| detected(t, sv(present@))),
        decreases all.len() - i,
    {
        proof {
            assert(all.take(i + 1) =~= all.take(i as int).push(all[i as int]));
            all.take(i as int).lemma_filter_push(all[i as int], |t: BridgeTool| detected(t, sv(present@)));
        }
        if is_detected(tools[i], present) {
            found.push(tools[i]);
        }
        i += 1;
    }
    assert(all.take(all.len() as int) =~= all);
    found
}

/// The recipe that runs `target` with the tool: a bridge recipe, always
/// run, never cached, the tool's name as its package.
pub open spec fn bridge_recipe_v(t: BridgeTool, target: Seq<char>) -> RecipeV {
    RecipeV {
        recipe_type: RecipeType::Bridge,
        deps: seq![],
        inputs: seq![],
        outputs: seq![],
        script: Some(command_spec(t, target)),
        script_win: None,
        scripts: seq![],
        cache: Some(CacheMode::Disabled),
        phony: true,
        env: seq![],
        cross: seq![],
        package: Some(tool_name(t)),
        features: seq![],
        ldflags: None,
        sources: seq![],
        includes: seq![],
        link_libs: seq![],
        image: None,
        dockerfile: None,
        build_args: seq![],
        plugin: None,
        url: None,
        sha256: None,
    }
}

/// The recipe that runs `target` with the tool.
pub fn make_bridge_recipe(tool: &BridgeTool, target: &str) -> (r: ConfigRecipe)
    ensures
        r@ == bridge_recipe_v(*tool, target@),
{
    let r = ConfigRecipe {
        recipe_type: RecipeType::Bridge,
        deps: Vec::new(),
        inputs: Vec::new(),
        outputs: Vec::new(),
        script: Some(tool.build_command(target)),
        script_win: None,
        scripts: OrdMap::new(),
        cache: Some(CacheMode::Disabled),
        phony: true,
        env: OrdMap::new(),
        cross: OrdMap::new(),
        package: Some(tool.name().to_owned()),
        features: Vec::new(),
        ldflags: None,
        sources: Vec::new(),
        includes: Vec::new(),
        link_libs: Vec::new(),
        image: None,
        dockerfile: None,
        build_args: Vec::new(),
        plugin: None,
        url: None,
        sha256: None,
    };
    assert(sv(r.deps@) =~= Seq::<Seq<char>>::empty());
    assert(sv(r.inputs@) =~= Seq::<Seq<char>>::empty());
    assert(sv(r.outputs@) =~= Seq::<Seq<char>>::empty());
    assert(sv(r.features@) =~= Seq::<Seq<char>>::empty());
    assert(sv(r.sources@) =~= Seq::<Seq<char>>::empty());
    assert(sv(r.includes@) =~= Seq::<Seq<char>>::empty());
    assert(sv(r.link_libs@) =~= Seq::<Seq<char>>::empty());
    assert(sv(r.build_args@) =~= Seq::<Seq<char>>::empty());
    assert(r@ == bridge_recipe_v(*tool, target@));
    r
}

/// One default recipe of a tool added to the recipes found so far: when
/// there are several tools and the name is taken, the tool's name prefixes
/// it; the plain name keeps the first tool's recipe.
pub open spec fn add_default(
    m: Seq<(Seq<char>, RecipeV)>,
    t: BridgeTool,
    d: (Seq<char>, Seq<char>),
    multi: bool,
) -> Seq<(Seq<char>, RecipeV)> {
    let m1 = if assoc_get(m, d.0) is Some && multi {
        assoc_insert(m, tool_name(t) + "-"@ + d.0, bridge_recipe_v(t, d.1))
    } else {
        m
    };
    if assoc_get(m1, d.0) is Some {
        m1
    } else {
        assoc_insert(m1, d.0, bridge_recipe_v(t, d.1))
    }
}

/// The default recipes `defs` of a tool added in turn.
pub open spec fn add_defaults(
    m: Seq<(Seq<char>, RecipeV)>,
    t: BridgeTool,
    defs: Seq<(Seq<char>, Seq<char>)>,
    multi: bool,
) -> Seq<(Seq<char>, RecipeV)>
    decreases defs.len(),
{
    if defs.len() == 0 {
        m
    } else {
        add_default(add_defaults(m, t, defs.drop_last(), multi), t, defs.last(), multi)
    }
}

/// The recipes of a project without a Mustfile, from its tools in order.
pub open spec fn auto_recipes(tools: Seq<BridgeTool>, multi: bool) -> Seq<(Seq<char>, RecipeV)>
    decreases tools.len(),
{
    if tools.len() == 0 {
        seq![]
    } else {
        add_defaults(auto_recipes(tools.drop_last(), multi), tools.last(), defaults(tools.last()), multi)
    }
}

/// `r` is the recipe that runs one of the default targets of one of the
/// tools.
pub open spec fn from_defaults(tools: Seq<BridgeTool>, r: RecipeV) -> bool {
    exists|t: BridgeTool, j: int|
        tools.contains(t) && 0 <= j < defaults(t).len() && r == #[trigger] bridge_recipe_v(
            t,
            defaults(t)[j].1,
        )
}

/// Every recipe of `m` runs a default target of one of the tools.
pub open spec fn all_from_defaults(m: Seq<(Seq<char>, RecipeV)>, tools: Seq<BridgeTool>) -> bool {
    forall|i: int| 0 <= i < m.len() ==> from_defaults(tools, #[trigger] m[i].1)
}

proof fn lemma_insert_keeps(
    m: Seq<(Seq<char>, RecipeV)>,
    k: Seq<char>,
    tools: Seq<BridgeTool>,
    t: BridgeTool,
    j: int,
)
    requires
        all_from_defaults(m, tools),
        tools.contains(t),
        0 <= j < defaults(t).len(),
    ensures
        all_from_defaults(assoc_insert(m, k, bridge_recipe_v(t, defaults(t)[j].1)), tools),
    decreases m.len(),
{
    let v = bridge_recipe_v(t, defaults(t)[j].1);
    assert(from_defaults(tools, v));
    let r = assoc_insert(m, k, v);
    if m.len() == 0 {
    } else if m[0].0 == k {
        assert forall|i: int| 0 <= i < r.len() implies from_defaults(tools, #[trigger] r[i].1) by {
            if i > 0 {
                assert(r[i] == m[i]);
            }
        }
    } else if lt(k, m[0].0) {
        assert forall|i: int| 0 <= i < r.len() implies from_defaults(tools, #[trigger] r[i].1) by {
            if i > 0 {
                assert(r[i] == m[i - 1]);
            }
        }
    } else {
        let t2 = m.drop_first();
        assert forall|i: int| 0 <= i < t2.len() implies from_defaults(tools, #[trigger] t2[i].1) by {
            assert(t2[i] == m[i + 1]);
        }
        lemma_insert_keeps(t2, k, tools, t, j);
        let r2 = assoc_insert(t2, k, v);
        assert forall|i: int| 0 <= i < r.len() implies from_defaults(tools, #[trigger] r[i].1) by {
            if i > 0 {
                assert(r[i] == r2[i - 1]);
            } else {
                assert(r[0] == m[0]);
            }
        }
    }
}

proof fn lemma_add_defaults_keeps(
    m: Seq<(Seq<char>, RecipeV)>,
    t: BridgeTool,
    n: int,
    multi: bool,
    tools: Seq<BridgeTool>,
)
    requires
        all_from_defaults(m, tools),
        tools.contains(t),
        0 <= n <= defaults(t).len(),
    ensures
        all_from_defaults(add_defaults(m, t, defaults(t).take(n), multi), tools),
    decreases n,
{
    let defs = defaults(t).take(n);
    if n > 0 {
        assert(defs.drop_last() =~= defaults(t).take(n - 1));
        lemma_add_defaults_keeps(m, t, n - 1, multi, tools);
        let m0 = add_defaults(m, t, defs.drop_last(), multi);
        let d = defs.last();
        assert(d == defaults(t)[n - 1]);
        let m1 = if assoc_get(m0, d.0) is Some && multi {
            lemma_insert_keeps(m0, tool_name(t) + "-"@ + d.0, tools, t, n - 1);
            assoc_insert(m0, tool_name(t) + "-"@ + d.0, bridge_recipe_v(t, d.1))
        } else {
            m0
        };
        if assoc_get(m1, d.0) is None {
            lemma_insert_keeps(m1, d.0, tools, t, n - 1);
        }
    }
}

proof fn lemma_auto_recipes_keeps(tools: Seq<BridgeTool>, n: int, multi: bool)
    requires
        0 <= n <= tools.len(),
    ensures
        all_from_defaults(auto_recipes(tools.take(n), multi), tools),
    decreases n,
{
    if n > 0 {
        let ts = tools.take(n);
        assert(ts.drop_last() =~= tools.take(n - 1));
        lemma_auto_recipes_keeps(tools, n - 1, multi);
        let t = ts.last();
        assert(t == tools[n - 1]);
        assert(tools.contains(t));
        lemma_add_defaults_keeps(
            auto_recipes(tools.take(n - 1), multi),
            t,
            defaults(t).len() as int,
            multi,
            tools,
        );
        assert(defaults(t).take(defaults(t).len() as int) =~= defaults(t));
    }
}

/// Law: every recipe of a project without a Mustfile runs a default target
/// of one of its tools, as a bridge recipe: no deps, inputs or outputs,
/// phony, no caching, the tool as its package and the tool's command for
/// the target as its script.
pub proof fn law_auto_recipes_are_bridges(tools: Seq<BridgeTool>, multi: bool)
    ensures
        forall|i: int|
            0 <= i < auto_recipes(tools, multi).len() ==> exists|t: BridgeTool, j: int|
                tools.contains(t) && 0 <= j < defaults(t).len() && #[trigger] auto_recipes(
                    tools,
                    multi,
                )[i].1 == bridge_recipe_v(t, defaults(t)[j].1),
{
    lemma_auto_recipes_keeps(tools, tools.len() as int, multi);
    assert(tools.take(tools.len() as int) =~= tools);
    assert forall|i: int| 0 <= i < auto_recipes(tools, multi).len() implies exists|t: BridgeTool, j: int|
        tools.contains(t) && 0 <= j < defaults(t).len() && #[trigger] auto_recipes(tools, multi)[i].1
            == bridge_recipe_v(t, defaults(t)[j].1) by {
        assert(from_defaults(tools, auto_recipes(tools, multi)[i].1));
    }
}

/// The project name of an automatic configuration: the root directory's
/// name, or `auto`.
pub open spec fn auto_name(root: Seq<char>) -> Seq<char> {
    match file_name(root) {
        Some(n) => n,
        None => "auto"@,
    }
}

/// The configuration of a project that has no Mustfile, from the tools it
/// uses (`present` being the indicator files that exist in `project_root`):
/// none when it uses none; otherwise the tools' default recipes, named
/// after the root directory, with no env, targets or includes.
pub fn auto_config(project_root: &str, present: &Vec<String>) -> (r: Option<Config>)
    ensures
        match r {
            None => detected_tools(sv(present@)).len() == 0,
            Some(c) => {
                let tools = detected_tools(sv(present@));
                &&& tools.len() > 0
                &&& c.project.name@ == auto_name(project_root@)
                &&& c.project.version is None
                &&& c.project.include_paths@.len() == 0
                &&& c.env.global@.len() == 0
                &&& c.targets@.len() == 0
                &&& c.recipe@ == auto_recipes(tools, tools.len() > 1)
            },
        },
{
    let bridges = detect_bridges(present);
    if bridges.len() == 0 {
        return None;
    }
    let name = match path_file_name(project_root) {
        Some(n) => n,
        None => "auto".to_owned(),
    };
    let multi = bridges.len() > 1;
    let ghost tools = bridges@;
    let mut recipes: OrdMap<ConfigRecipe> = OrdMap::new();
    let mut i: usize = 0;
    while i < bridges.len()
        invariant
            i <= tools.len(),
            tools == bridges@,
            multi == (tools.len() > 1),
            recipes@ == auto_recipes(tools.take(i as int), multi),
        decreases tools.len() - i,
    {
        let tool = bridges[i];
        let defs = tool.default_recipes();
        let ghost ds = defs@.map_values(|e: (&str, &str)| (e.0@, e.1@));
        let ghost start = recipes@;
        assert(tools.take(i + 1).drop_last() =~= tools.take(i as int));
        let mut j: usize = 0;
        while j < defs.len()
            invariant
                j <= defs@.len(),
                ds == defs@.map_values(|e: (&str, &str)| (e.0@, e.1@)),
                ds == defaults(tool),
                multi == (tools.len() > 1),
                recipes@ == add_defaults(start, tool, ds.take(j as int), multi),
            decreases defs@.len() - j,
        {
            let (rn, target) = defs[j];
            assert(ds[j as int] == (rn@, target@));
            assert(ds.take(j + 1).drop_last() =~= ds.take(j as int));
            if recipes.contains_key(rn) && multi {
                let prefixed = concat3(tool.name(), "-", rn);
                recipes.insert(prefixed, make_bridge_recipe(&tool, target));
            }
            recipes.insert_absent(rn.to_owned(), make_bridge_recipe(&tool, target));
            j += 1;
        }
        assert(ds.take(defs@.len() as int) =~= ds);
        i += 1;
    }
    assert(tools.take(tools.len() as int) =~= tools);
    let c = Config {
        project: Project { name, version: None, include_paths: Vec::new() },
        env: EnvMap { global: OrdMap::new() },
        targets: OrdMap::new(),
        recipe: recipes,
    };
    Some(c)
}

/// A recipe that delegates to another build tool's command.
pub struct BridgeRecipe {
    pub name: String,
    pub deps: Vec<String>,
    pub tool: String,
    pub script: String,
}

/// The identity key's hash: the hash of `bridge:name:target:profile`.
pub open spec fn bridge_hash(name: Seq<char>, target: Seq<char>, profile: Seq<char>) -> Seq<char> {
    hex_spec(sha256_spec(encode_utf8("bridge:"@ + name + ":"@ + target + ":"@ + profile)))
}

/// The text a dry run of a bridge recipe reports.
pub open spec fn bridge_dry_text(tool: Seq<char>, script: Seq<char>) -> Seq<char> {
    "[dry-run] would run via "@ + tool + ": "@ + script
}

/// The hint given when no shell can be found.
pub open spec fn bridge_hint(tool: Seq<char>) -> Seq<char> {
    "a shell is required (bridge delegates to "@ + tool + ")"@
}

impl BridgeRecipe {
    pub fn new(name: &str, tool: &str, script: &str) -> (r: Self)
        ensures
            r.name@ == name@,
            r.deps@.len() == 0,
            r.tool@ == tool@,
            r.script@ == script@,
    {
        BridgeRecipe {
            name: name.to_owned(),
            deps: Vec::new(),
            tool: tool.to_owned(),
            script: script.to_owned(),
        }
    }

    /// Bridge recipes name no input files.
    pub fn inputs(&self, ctx: &BuildContext) -> (r: Vec<String>)
        ensures
            r@.len() == 0,
    {
        Vec::new()
    }

    /// Bridge recipes name no output files.
    pub fn outputs(&self, ctx: &BuildContext) -> (r: Vec<String>)
        ensures
            r@.len() == 0,
    {
        Vec::new()
    }

    /// The key naming the recipe in this context, the same on every call.
    pub fn cache_key(&self, ctx: &BuildContext) -> (k: CacheKey)
        ensures
            key_view(k) == (
                self.name@,
                ctx.target@,
                ctx.profile@,
                bridge_hash(self.name@, ctx.target@, ctx.profile@),
            ),
    {
        let mut s = chars_of("bridge:");
        extend_str(&mut s, self.name.as_str());
        extend_str(&mut s, ":");
        extend_str(&mut s, ctx.target.as_str());
        extend_str(&mut s, ":");
        extend_str(&mut s, ctx.profile.as_str());
        let st = string_of(&s);
        CacheKey {
            recipe: self.name.clone(),
            target: ctx.target.clone(),
            profile: ctx.profile.clone(),
            hash: hash_string(st.as_str()),
        }
    }

    /// What running the recipe amounts to: a dry run reports the tool and
    /// script; otherwise `sh -c` (`cmd /C` on Windows) runs the script in the project root, in
    /// the caller's environment, with no cache.
    pub fn plan(&self, ctx: &BuildContext) -> (p: Plan)
        ensures
            p.wf(),
            p.recipe_name@ == self.name@,
            p.dry_run_first,
            p.dry_run == ctx.dry_run,
            p.dry_run_text@ == bridge_dry_text(self.tool@, self.script@),
            p.query is None,
            p.store is None,
            p.commands@.len() == 1,
            p.commands@[0].program@ == crate::command::shell_program_spec(ctx.windows),
            sv(p.commands@[0].args@) == seq![crate::command::shell_arg_spec(ctx.windows), self.script@],
            p.commands@[0].workdir@ == ctx.project_root@,
            p.commands@[0].env@.len() == 0,
            !p.commands@[0].clear_env,
            p.commands@[0].capture,
            p.commands@[0].tool@ == crate::command::shell_program_spec(ctx.windows),
            p.commands@[0].hint@ == bridge_hint(self.tool@),
            p.commands@[0].failure_name@ == self.name@,
            p.outputs@.len() == 0,
            p.cached_outputs@.len() == 0,
            p.dirs@.len() == 0,
    {
        let mut text = chars_of("[dry-run] would run via ");
        extend_str(&mut text, self.tool.as_str());
        extend_str(&mut text, ": ");
        extend_str(&mut text, self.script.as_str());
        let mut hint = chars_of("a shell is required (bridge delegates to ");
        extend_str(&mut hint, self.tool.as_str());
        extend_str(&mut hint, ")");
        let mut args: Vec<String> = Vec::new();
        args.push(crate::command::shell_arg(ctx.windows).to_owned());
        args.push(self.script.clone());
        assert(sv(args@) =~= seq![crate::command::shell_arg_spec(ctx.windows), self.script@]);
        let inv = Invocation {
            program: crate::command::shell_program(ctx.windows).to_owned(),
            args,
            workdir: ctx.project_root.clone(),
            env: OrdMap::new(),
            tool: crate::command::shell_program(ctx.windows).to_owned(),
            hint: string_of(&hint),
            failure_name: self.name.clone(),
            clear_env: false,
            capture: true,
        };
        let mut commands: Vec<Invocation> = Vec::new();
        commands.push(inv);
        Plan {
            recipe_name: self.name.clone(),
            dry_run_first: true,
            query: None,
            store: None,
            dry_run: ctx.dry_run,
            dry_run_text: string_of(&text),
            commands,
            outputs: Vec::new(),
            cached_outputs: Vec::new(),
            dirs: Vec::new(),
        }
    }
}

impl Recipe for BridgeRecipe {
    fn name(&self) -> (r: &str)
        ensures
            r@ == self.name@,
    {
        self.name.as_str()
    }

    fn deps(&self) -> (r: &[String])
        ensures
            r@ == self.deps@,
    {
        self.deps.as_slice()
    }

    fn cache_strategy(&self) -> (r: CacheStrategy)
        ensures
            r == CacheStrategy::Never,
    {
        CacheStrategy::Never
    }
}

} // verus!
