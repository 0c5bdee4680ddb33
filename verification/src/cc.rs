//! C recipes: binaries and static or shared libraries built with a C
//! compiler.
//!
//! The compiler version, whether the target is the host, a discovered
//! cross compiler, the hint shown when none is found and the
//! cross-compilation environment are found out by the caller.  Builds inside
//! a container are run by the caller too.

use vstd::prelude::*;
use crate::config::{CrossBackend, CrossConfig, CrossConfigV};
use crate::error::Error;
use crate::job::{Invocation, Plan};
use crate::map::{OrdMap, assoc_get, assoc_insert};
use crate::paths::{join_path, path_join};
use crate::runner::{
    invocation, invocation_is, key_spec, key_view, make_cache_key, merge_env, merged_env, single,
};
use crate::text::{
    chars_of, clone_strings, extend, extend_str, join, join_strings, slice_of, split, split_on,
    string_of, sv, vv,
};
use crate::types::{BuildContext, CacheKey, CacheStrategy, Recipe};

verus! {

/// `root` joined with each item.
pub open spec fn joined_all(root: Seq<char>, items: Seq<Seq<char>>) -> Seq<Seq<char>> {
    items.map_values(|s: Seq<char>| join_path(root, s))
}

/// `-I <root>/<dir>` for each include directory.
pub open spec fn include_args(root: Seq<char>, includes: Seq<Seq<char>>) -> Seq<Seq<char>> {
    includes.map_values(|i: Seq<char>| seq!["-I"@, join_path(root, i)]).flatten()
}

/// `-l<lib>` for each library.
pub open spec fn lib_args(libs: Seq<Seq<char>>) -> Seq<Seq<char>> {
    libs.map_values(|l: Seq<char>| "-l"@ + l)
}

/// `<root>/build`.
pub open spec fn build_dir(root: Seq<char>) -> Seq<char> {
    join_path(root, "build"@)
}

/// The non-empty components of a `/`-separated path, `.` left out.
pub open spec fn components(p: Seq<char>) -> Seq<Seq<char>> {
    split(p, '/').filter(|c: Seq<char>| c.len() > 0 && c != "."@)
}

/// The last component of a path, unless there is none or it is `..`.
pub open spec fn file_name(p: Seq<char>) -> Option<Seq<char>> {
    let c = components(p);
    if c.len() == 0 || c.last() == ".."@ {
        None
    } else {
        Some(c.last())
    }
}

/// The last `.` of `s`, if any.
pub open spec fn last_dot(s: Seq<char>) -> int
    decreases s.len(),
{
    if s.len() == 0 {
        -1
    } else if s.last() == '.' {
        s.len() - 1
    } else {
        last_dot(s.drop_last())
    }
}

/// A file name without its extension: all of it when it has no `.` but a
/// leading one, otherwise what comes before the last `.`.
pub open spec fn stem_of(name: Seq<char>) -> Seq<char> {
    let i = last_dot(name);
    if i <= 0 {
        name
    } else {
        name.take(i)
    }
}

/// The object file of a source: its stem (or the source itself when it has
/// no file name) followed by `.o`.
pub open spec fn object_name(src: Seq<char>) -> Seq<char> {
    match file_name(src) {
        Some(n) => stem_of(n) + ".o"@,
        None => src + ".o"@,
    }
}

/// The C compiler to use: the linker of the target's cross settings, else
/// `cc` on the host, else the discovered one.
pub open spec fn compiler_choice(
    cross: Seq<(Seq<char>, CrossConfigV)>,
    target: Seq<char>,
    is_host: bool,
    discovered: Option<Seq<char>>,
) -> Option<Seq<char>> {
    match assoc_get(cross, target) {
        Some(cfg) => match cfg.linker {
            Some(l) => Some(l),
            None => discovered,
        },
        None => if is_host {
            Some("cc"@)
        } else {
            discovered
        },
    }
}

/// The target's cross settings ask for a container build.
pub open spec fn container_spec(cross: Seq<(Seq<char>, CrossConfigV)>, target: Seq<char>) -> bool {
    match assoc_get(cross, target) {
        Some(cfg) => cfg.cross == Some(CrossBackend::Container),
        None => false,
    }
}

/// The error returned when no compiler is known for the target.
pub open spec fn compiler_missing(e: Error, ctx: BuildContext, hint: Seq<char>) -> bool {
    e matches Error::ToolchainNotFound { target, hint: h } && target@ == ctx.target@ && h@ == hint
}

/// Appends `root` joined with each item.
fn push_joined(args: &mut Vec<String>, root: &str, items: &Vec<String>)
    ensures
        sv(final(args)@) == sv(old(args)@) + joined_all(root@, sv(items@)),
{
    let ghost start = sv(args@);
    let mut i: usize = 0;
    while i < items.len()
        invariant
            i <= items@.len(),
            sv(args@) == start + joined_all(root@, sv(items@)).take(i as int),
        decreases items@.len() - i,
    {
        let ghost before = args@;
        let p = path_join(root, items[i].as_str());
        args.push(p);
        proof {
            crate::text::lemma_sv_push(before, p);
            assert(joined_all(root@, sv(items@)).take(i + 1) =~= joined_all(root@, sv(items@)).take(
                i as int,
            ).push(p@));
        }
        i += 1;
    }
    assert(joined_all(root@, sv(items@)).take(items@.len() as int) =~= joined_all(
        root@,
        sv(items@),
    ));
}

/// Appends `-I <root>/<dir>` for each include directory.
fn push_includes(args: &mut Vec<String>, root: &str, includes: &Vec<String>)
    ensures
        sv(final(args)@) == sv(old(args)@) + include_args(root@, sv(includes@)),
{
    let ghost start = sv(args@);
    let ghost nested = sv(includes@).map_values(|i: Seq<char>| seq!["-I"@, join_path(root@, i)]);
    let mut i: usize = 0;
    while i < includes.len()
        invariant
            i <= includes@.len(),
            nested == sv(includes@).map_values(|i: Seq<char>| seq!["-I"@, join_path(root@, i)]),
            sv(args@) == start + nested.take(i as int).flatten(),
        decreases includes@.len() - i,
    {
        let ghost before = sv(args@);
        args.push("-I".to_owned());
        args.push(path_join(root, includes[i].as_str()));
        proof {
            let t = nested.take(i + 1);
            assert(t =~= nested.take(i as int).push(nested[i as int]));
            t.drop_last().lemma_flatten_push(nested[i as int]);
            assert(t.drop_last() =~= nested.take(i as int));
            assert(sv(args@) =~= before + nested[i as int]);
        }
        i += 1;
    }
    assert(nested.take(includes@.len() as int) =~= nested);
}

/// Appends `-l<lib>` for each library.
fn push_libs(args: &mut Vec<String>, libs: &Vec<String>)
    ensures
        sv(final(args)@) == sv(old(args)@) + lib_args(sv(libs@)),
{
    let ghost start = sv(args@);
    let mut i: usize = 0;
    while i < libs.len()
        invariant
            i <= libs@.len(),
            sv(args@) == start + lib_args(sv(libs@)).take(i as int),
        decreases libs@.len() - i,
    {
        let ghost before = args@;
        let mut v = chars_of("-l");
        extend_str(&mut v, libs[i].as_str());
        let a = string_of(&v);
        args.push(a);
        proof {
            crate::text::lemma_sv_push(before, a);
            assert(lib_args(sv(libs@)).take(i + 1) =~= lib_args(sv(libs@)).take(i as int).push(a@));
        }
        i += 1;
    }
    assert(lib_args(sv(libs@)).take(libs@.len() as int) =~= lib_args(sv(libs@)));
}

/// Appends each item.
fn push_all(args: &mut Vec<String>, items: &Vec<String>)
    ensures
        sv(final(args)@) == sv(old(args)@) + sv(items@),
{
    let ghost start = sv(args@);
    let mut i: usize = 0;
    while i < items.len()
        invariant
            i <= items@.len(),
            sv(args@) == start + sv(items@).take(i as int),
        decreases items@.len() - i,
    {
        let ghost before = args@;
        let a = items[i].clone();
        args.push(a);
        proof {
            crate::text::lemma_sv_push(before, a);
            assert(sv(items@).take(i + 1) =~= sv(items@).take(i as int).push(a@));
        }
        i += 1;
    }
    assert(sv(items@).take(items@.len() as int) =~= sv(items@));
}

/// The last component of a path, unless there is none or it is `..`.
pub fn path_file_name(p: &str) -> (r: Option<String>)
    ensures
        match r {
            Some(n) => file_name(p@) == Some(n@),
            None => file_name(p@) is None,
        },
{
    let parts = split_on(&chars_of(p), '/');
    let ghost all = vv(parts@);
    let mut last: Option<Vec<char>> = None;
    let mut i: usize = 0;
    while i < parts.len()
        invariant
            i <= parts@.len(),
            all == vv(parts@),
            all == split(p@, '/'),
            match last {
                Some(v) => {
                    let c = all.take(i as int).filter(|c: Seq<char>| c.len() > 0 && c != "."@);
                    c.len() > 0 && c.last() == v@
                },
                None => all.take(i as int).filter(|c: Seq<char>| c.len() > 0 && c != "."@).len()
                    == 0,
            },
        decreases parts@.len() - i,
    {
        let part = &parts[i];
        let keep = part.len() > 0 && !(part.len() == 1 && part[0] == '.');
        proof {
            reveal_strlit(".");
            let f = |c: Seq<char>| c.len() > 0 && c != "."@;
            assert(all.take(i + 1).drop_last() =~= all.take(i as int));
            assert(all[i as int] == part@);
            assert(keep == f(part@)) by {
                if part@ == "."@ {
                    assert(part@.len() == 1 && part@[0] == '.');
                }
                if part@.len() == 1 && part@[0] == '.' {
                    assert(part@ =~= "."@);
                }
            }
            all.take(i as int).lemma_filter_push(part@, f);
            assert(all.take(i + 1) =~= all.take(i as int).push(part@));
        }
        if keep {
            last = Some(part.clone());
        }
        i += 1;
    }
    assert(all.take(parts@.len() as int) =~= all);
    match last {
        None => None,
        Some(v) => {
            if v.len() == 2 && v[0] == '.' && v[1] == '.' {
                proof {
                    reveal_strlit("..");
                    assert(v@ =~= ".."@);
                }
                None
            } else {
                proof {
                    reveal_strlit("..");
                    if v@ == ".."@ {
                        assert(v@.len() == 2 && v@[0] == '.' && v@[1] == '.');
                    }
                }
                Some(string_of(&v))
            }
        },
    }
}

/// The object file name of a source.
pub fn object_file_name(src: &str) -> (r: String)
    ensures
        r@ == object_name(src@),
{
    let mut v = match path_file_name(src) {
        Some(n) => {
            let nc = chars_of(n.as_str());
            let mut k: usize = nc.len();
            assert(nc@.take(nc@.len() as int) =~= nc@);
            while k > 0 && nc[k - 1] != '.'
                invariant
                    k <= nc@.len(),
                    last_dot(nc@) == last_dot(nc@.take(k as int)),
                decreases k,
            {
                assert(nc@.take(k as int).drop_last() =~= nc@.take(k - 1));
                k -= 1;
            }
            proof {
                assert(nc@.take(nc@.len() as int) =~= nc@);
                if k == 0 {
                    assert(nc@.take(0) =~= Seq::<char>::empty());
                }
            }
            if k <= 1 {
                nc
            } else {
                assert(last_dot(nc@) == k - 1);
                slice_of(&nc, 0, k - 1)
            }
        },
        None => chars_of(src),
    };
    extend_str(&mut v, ".o");
    string_of(&v)
}

/// Builds a C binary into `build/<name>`.
pub struct CBinRecipe {
    pub name: String,
    pub deps: Vec<String>,
    pub sources: Vec<String>,
    pub includes: Vec<String>,
    pub link_libs: Vec<String>,
    pub cflags: Vec<String>,
    pub env: OrdMap<String>,
    pub cross: OrdMap<CrossConfig>,
}

/// The flags that identify a C build: sources, includes and libraries joined
/// by commas, cflags joined by spaces.
pub open spec fn c_flags(
    sources: Seq<Seq<char>>,
    includes: Seq<Seq<char>>,
    link_libs: Seq<Seq<char>>,
    cflags: Seq<Seq<char>>,
) -> Seq<(Seq<char>, Seq<char>)> {
    assoc_insert(
        assoc_insert(
            assoc_insert(seq![("sources"@, join(sources, ","@))], "includes"@, join(includes, ","@)),
            "link_libs"@,
            join(link_libs, ","@),
        ),
        "cflags"@,
        join(cflags, " "@),
    )
}

/// The flags of a C build.
fn c_flag_map(
    sources: &Vec<String>,
    includes: &Vec<String>,
    link_libs: &Vec<String>,
    cflags: &Vec<String>,
) -> (m: OrdMap<String>)
    ensures
        m@ == c_flags(sv(sources@), sv(includes@), sv(link_libs@), sv(cflags@)),
{
    let mut m = single("sources", join_strings(sources, ","));
    m.insert("includes".to_owned(), join_strings(includes, ","));
    m.insert("link_libs".to_owned(), join_strings(link_libs, ","));
    m.insert("cflags".to_owned(), join_strings(cflags, " "));
    m
}

/// Whether the target's cross settings ask for a container build.
fn use_container(cross: &OrdMap<CrossConfig>, target: &str) -> (b: bool)
    ensures
        b == container_spec(cross@, target@),
{
    match cross.get(target) {
        Some(cfg) => match cfg.cross {
            Some(CrossBackend::Container) => true,
            _ => false,
        },
        None => false,
    }
}

/// The compiler to use, or the error naming the target.
fn pick_compiler(
    cross: &OrdMap<CrossConfig>,
    ctx: &BuildContext,
    is_host: bool,
    discovered: Option<String>,
    install_hint: &str,
) -> (r: Result<String, Error>)
    ensures
        match r {
            Ok(c) => compiler_choice(cross@, ctx.target@, is_host, crate::config::opt(discovered))
                == Some(c@),
            Err(e) => compiler_choice(cross@, ctx.target@, is_host, crate::config::opt(discovered))
                is None && compiler_missing(e, *ctx, install_hint@),
        },
{
    let missing = Error::ToolchainNotFound { target: ctx.target.clone(), hint: install_hint.to_owned() };
    match cross.get(ctx.target.as_str()) {
        Some(cfg) => match &cfg.linker {
            Some(l) => Ok(l.clone()),
            None => match discovered {
                Some(d) => Ok(d),
                None => Err(missing),
            },
        },
        None => {
            if is_host {
                Ok("cc".to_owned())
            } else {
                match discovered {
                    Some(d) => Ok(d),
                    None => Err(missing),
                }
            }
        },
    }
}

/// The arguments compiling a binary or shared library from all sources.
pub open spec fn link_args(
    root: Seq<char>,
    sources: Seq<Seq<char>>,
    includes: Seq<Seq<char>>,
    link_libs: Seq<Seq<char>>,
    cflags: Seq<Seq<char>>,
    output: Seq<char>,
) -> Seq<Seq<char>> {
    joined_all(root, sources) + include_args(root, includes) + lib_args(link_libs) + cflags + seq![
        "-o"@,
        output,
    ]
}

/// `p` is a local C build of recipe `name`: no cache, a dry run reporting
/// `dry_text`, outputs `[output]`, the build directory created first.
pub open spec fn c_plan_is(p: Plan, name: Seq<char>, ctx: BuildContext, dry_text: Seq<char>, output: Seq<char>) -> bool {
    &&& p.recipe_name@ == name
    &&& p.dry_run == ctx.dry_run
    &&& p.dry_run_first
    &&& p.query is None
    &&& p.store is None
    &&& p.dry_run_text@ == dry_text
    &&& sv(p.outputs@) == seq![output]
    &&& p.cached_outputs@.len() == 0
    &&& sv(p.dirs@) == seq![build_dir(ctx.project_root@)]
}

impl CBinRecipe {
    pub fn new(name: &str) -> (r: Self)
        ensures
            r.name@ == name@,
            r.deps@.len() == 0,
            r.sources@.len() == 0,
            r.includes@.len() == 0,
            r.link_libs@.len() == 0,
            r.cflags@.len() == 0,
            r.env@.len() == 0,
            r.cross@.len() == 0,
    {
        CBinRecipe {
            name: name.to_owned(),
            deps: Vec::new(),
            sources: Vec::new(),
            includes: Vec::new(),
            link_libs: Vec::new(),
            cflags: Vec::new(),
            env: OrdMap::new(),
            cross: OrdMap::new(),
        }
    }

    /// The sources, under the project root.
    pub fn inputs(&self, ctx: &BuildContext) -> (r: Result<Vec<String>, Error>)
        ensures
            r matches Ok(v) && sv(v@) == joined_all(ctx.project_root@, sv(self.sources@)),
    {
        let mut v: Vec<String> = Vec::new();
        push_joined(&mut v, ctx.project_root.as_str(), &self.sources);
        assert(sv(v@) =~= joined_all(ctx.project_root@, sv(self.sources@)));
        Ok(v)
    }

    /// The binary, `<root>/build/<name>`.
    pub fn outputs(&self, ctx: &BuildContext) -> (r: Result<Vec<String>, Error>)
        ensures
            r matches Ok(v) && sv(v@) == seq![join_path(build_dir(ctx.project_root@), self.name@)],
    {
        let mut v: Vec<String> = Vec::new();
        v.push(self.output_path(ctx));
        assert(sv(v@) =~= seq![join_path(build_dir(ctx.project_root@), self.name@)]);
        Ok(v)
    }

    fn output_path(&self, ctx: &BuildContext) -> (p: String)
        ensures
            p@ == join_path(build_dir(ctx.project_root@), self.name@),
    {
        let b = path_join(ctx.project_root.as_str(), "build");
        path_join(b.as_str(), self.name.as_str())
    }

    /// The cache key: name, type tag `c-bin`, context env, the compiler's
    /// version line and the build's flags.
    pub fn cache_key(&self, ctx: &BuildContext, cc_version: &str) -> (r: Result<CacheKey, Error>)
        ensures
            r matches Ok(k) && key_view(k) == key_spec(
                self.name@,
                "c-bin"@,
                *ctx,
                ctx.env@,
                cc_version@,
                c_flags(sv(self.sources@), sv(self.includes@), sv(self.link_libs@), sv(self.cflags@)),
            ),
    {
        let flags = c_flag_map(&self.sources, &self.includes, &self.link_libs, &self.cflags);
        Ok(make_cache_key(self.name.as_str(), "c-bin", ctx, &ctx.env, cc_version, &flags))
    }

    /// Whether the target's cross settings ask for a container build.
    pub fn uses_container(&self, ctx: &BuildContext) -> (b: bool)
        ensures
            b == container_spec(self.cross@, ctx.target@),
    {
        use_container(&self.cross, ctx.target.as_str())
    }

    /// The text of a dry run.
    pub open spec fn dry_text(self) -> Seq<char> {
        "[dry-run] cc "@ + join(sv(self.sources@), " "@) + " -o build/"@ + self.name@
    }

    /// What executing the recipe does on the local machine: in a dry run
    /// report the compile; otherwise fail when no compiler is known, else
    /// compile all sources into `<root>/build/<name>` in the project root,
    /// with the cross env and then the recipe env over the context env.  A
    /// container build (see `uses_container`) is not planned here.
    pub fn plan(
        &self,
        ctx: &BuildContext,
        is_host: bool,
        discovered: Option<String>,
        install_hint: &str,
        cross_env: &OrdMap<String>,
    ) -> (r: Result<Plan, Error>)
        requires
            ctx.dry_run || !container_spec(self.cross@, ctx.target@),
        ensures
            match r {
                Ok(p) => {
                    let out = join_path(build_dir(ctx.project_root@), self.name@);
                    &&& c_plan_is(p, self.name@, *ctx, self.dry_text(), out)
                    &&& !ctx.dry_run ==> {
                        &&& compiler_choice(
                            self.cross@,
                            ctx.target@,
                            is_host,
                            crate::config::opt(discovered),
                        ) matches Some(cc)
                        &&& p.commands@.len() == 1
                        &&& invocation_is(
                            p.commands@[0],
                            cc,
                            link_args(
                                ctx.project_root@,
                                sv(self.sources@),
                                sv(self.includes@),
                                sv(self.link_libs@),
                                sv(self.cflags@),
                                out,
                            ),
                            ctx.project_root@,
                            merge_env(ctx.env@, merge_env(cross_env@, self.env@)),
                            ""@,
                            ""@,
                            cc,
                        )
                    }
                },
                Err(e) => !ctx.dry_run && compiler_choice(
                    self.cross@,
                    ctx.target@,
                    is_host,
                    crate::config::opt(discovered),
                ) is None && compiler_missing(e, *ctx, install_hint@),
            },
    {
        let mut t = chars_of("[dry-run] cc ");
        let joined = join_strings(&self.sources, " ");
        extend_str(&mut t, joined.as_str());
        extend_str(&mut t, " -o build/");
        extend_str(&mut t, self.name.as_str());
        let text = string_of(&t);
        let output = self.output_path(ctx);
        let mut commands: Vec<Invocation> = Vec::new();
        if !ctx.dry_run {
            let cc = match pick_compiler(&self.cross, ctx, is_host, discovered, install_hint) {
                Ok(c) => c,
                Err(e) => {
                    return Err(e);
                },
            };
            let extra = merged_env(cross_env, &self.env);
            let mut args: Vec<String> = Vec::new();
            push_joined(&mut args, ctx.project_root.as_str(), &self.sources);
            push_includes(&mut args, ctx.project_root.as_str(), &self.includes);
            push_libs(&mut args, &self.link_libs);
            push_all(&mut args, &self.cflags);
            args.push("-o".to_owned());
            args.push(output.clone());
            let ghost a = args@;
            assert(sv(a) =~= link_args(
                ctx.project_root@,
                sv(self.sources@),
                sv(self.includes@),
                sv(self.link_libs@),
                sv(self.cflags@),
                output@,
            ));
            commands.push(invocation(cc.as_str(), args, ctx.project_root.clone(), ctx, &extra, "", "", cc.as_str()));
        }
        let mut outputs: Vec<String> = Vec::new();
        outputs.push(output);
        let mut dirs: Vec<String> = Vec::new();
        dirs.push(path_join(ctx.project_root.as_str(), "build"));
        assert(sv(outputs@) =~= seq![join_path(build_dir(ctx.project_root@), self.name@)]);
        assert(sv(dirs@) =~= seq![build_dir(ctx.project_root@)]);
        Ok(Plan {
            recipe_name: self.name.clone(),
            dry_run_first: true,
            query: None,
            store: None,
            dry_run: ctx.dry_run,
            dry_run_text: text,
            commands,
            outputs,
            cached_outputs: Vec::new(),
            dirs,
        })
    }
}

impl Recipe for CBinRecipe {
    fn name(&self) -> (r: &str)
        ensures
            r@ == self.name@,
    {
        self.name.as_str()
    }

    fn deps(&self) -> (r: &[String])
        ensures
            r@ == self.deps@,
    {
        self.deps.as_slice()
    }

    fn cache_strategy(&self) -> (r: CacheStrategy)
        ensures
            r == CacheStrategy::Hash,
    {
        CacheStrategy::Hash
    }
}

/// The arguments compiling one source to an object for a static library.
pub open spec fn object_args(
    root: Seq<char>,
    src: Seq<char>,
    includes: Seq<Seq<char>>,
    cflags: Seq<Seq<char>>,
) -> Seq<Seq<char>> {
    seq!["-fPIC"@, "-c"@, join_path(root, src)] + include_args(root, includes) + cflags + seq![
        "-o"@,
        join_path(build_dir(root), object_name(src)),
    ]
}

/// The objects of a static library, in source order.
pub open spec fn object_paths(root: Seq<char>, sources: Seq<Seq<char>>) -> Seq<Seq<char>> {
    sources.map_values(|s: Seq<char>| join_path(build_dir(root), object_name(s)))
}

/// The archiver: `AR` of the build env, else `ar`.
pub open spec fn archiver(env: Seq<(Seq<char>, Seq<char>)>) -> Seq<char> {
    match assoc_get(env, "AR"@) {
        Some(a) => a,
        None => "ar"@,
    }
}

/// Builds a C library into `build/lib<name>.a` (static) or
/// `build/lib<name>.so` (shared).
pub struct CLibRecipe {
    pub name: String,
    pub deps: Vec<String>,
    pub sources: Vec<String>,
    pub includes: Vec<String>,
    pub link_libs: Vec<String>,
    pub cflags: Vec<String>,
    pub env: OrdMap<String>,
    pub cross: OrdMap<CrossConfig>,
    /// `true` for a `.a` archive, `false` for a `.so`.
    pub static_lib: bool,
}

impl CLibRecipe {
    pub fn new(name: &str, static_lib: bool) -> (r: Self)
        ensures
            r.name@ == name@,
            r.deps@.len() == 0,
            r.sources@.len() == 0,
            r.includes@.len() == 0,
            r.link_libs@.len() == 0,
            r.cflags@.len() == 0,
            r.env@.len() == 0,
            r.cross@.len() == 0,
            r.static_lib == static_lib,
    {
        CLibRecipe {
            name: name.to_owned(),
            deps: Vec::new(),
            sources: Vec::new(),
            includes: Vec::new(),
            link_libs: Vec::new(),
            cflags: Vec::new(),
            env: OrdMap::new(),
            cross: OrdMap::new(),
            static_lib,
        }
    }

    /// The library's file name.
    pub open spec fn lib_filename_spec(self) -> Seq<char> {
        "lib"@ + self.name@ + if self.static_lib {
            ".a"@
        } else {
            ".so"@
        }
    }

    /// The library's file name: `lib<name>.a` or `lib<name>.so`.
    pub fn lib_filename(&self) -> (f: String)
        ensures
            f@ == self.lib_filename_spec(),
    {
        let mut v = chars_of("lib");
        extend_str(&mut v, self.name.as_str());
        extend_str(&mut v, if self.static_lib {
            ".a"
        } else {
            ".so"
        });
        string_of(&v)
    }

    fn output_path(&self, ctx: &BuildContext) -> (p: String)
        ensures
            p@ == join_path(build_dir(ctx.project_root@), self.lib_filename_spec()),
    {
        let b = path_join(ctx.project_root.as_str(), "build");
        let f = self.lib_filename();
        path_join(b.as_str(), f.as_str())
    }

    /// The sources, under the project root.
    pub fn inputs(&self, ctx: &BuildContext) -> (r: Result<Vec<String>, Error>)
        ensures
            r matches Ok(v) && sv(v@) == joined_all(ctx.project_root@, sv(self.sources@)),
    {
        let mut v: Vec<String> = Vec::new();
        push_joined(&mut v, ctx.project_root.as_str(), &self.sources);
        assert(sv(v@) =~= joined_all(ctx.project_root@, sv(self.sources@)));
        Ok(v)
    }

    /// The library under `<root>/build`.
    pub fn outputs(&self, ctx: &BuildContext) -> (r: Result<Vec<String>, Error>)
        ensures
            r matches Ok(v) && sv(v@) == seq![
                join_path(build_dir(ctx.project_root@), self.lib_filename_spec()),
            ],
    {
        let mut v: Vec<String> = Vec::new();
        v.push(self.output_path(ctx));
        assert(sv(v@) =~= seq![join_path(build_dir(ctx.project_root@), self.lib_filename_spec())]);
        Ok(v)
    }

    /// The type tag of the library kind.
    pub open spec fn type_tag(self) -> Seq<char> {
        if self.static_lib {
            "c-lib-static"@
        } else {
            "c-lib-shared"@
        }
    }

    /// The cache key: name, the library kind's type tag, context env, the
    /// compiler's version line, and the build's flags with `lib_type`.
    pub fn cache_key(&self, ctx: &BuildContext, cc_version: &str) -> (r: Result<CacheKey, Error>)
        ensures
            r matches Ok(k) && key_view(k) == key_spec(
                self.name@,
                self.type_tag(),
                *ctx,
                ctx.env@,
                cc_version@,
                assoc_insert(
                    c_flags(sv(self.sources@), sv(self.includes@), sv(self.link_libs@), sv(self.cflags@)),
                    "lib_type"@,
                    if self.static_lib {
                        "static"@
                    } else {
                        "shared"@
                    },
                ),
            ),
    {
        let mut flags = c_flag_map(&self.sources, &self.includes, &self.link_libs, &self.cflags);
        flags.insert("lib_type".to_owned(), if self.static_lib {
            "static".to_owned()
        } else {
            "shared".to_owned()
        });
        let tag = if self.static_lib {
            "c-lib-static"
        } else {
            "c-lib-shared"
        };
        Ok(make_cache_key(self.name.as_str(), tag, ctx, &ctx.env, cc_version, &flags))
    }

    /// Whether the target's cross settings ask for a container build.
    pub fn uses_container(&self, ctx: &BuildContext) -> (b: bool)
        ensures
            b == container_spec(self.cross@, ctx.target@),
    {
        use_container(&self.cross, ctx.target.as_str())
    }

    /// The text of a dry run.
    pub open spec fn dry_text(self) -> Seq<char> {
        "[dry-run] "@ + (if self.static_lib {
            "ar rcs"@
        } else {
            "cc -shared"@
        }) + " build/"@ + self.lib_filename_spec() + " "@ + join(sv(self.sources@), " "@)
    }

    /// What executing the recipe does on the local machine: in a dry run
    /// report the build; otherwise fail when no compiler is known, else, for
    /// a static library, compile each source to an object under
    /// `<root>/build` and archive them with the archiver (`AR` of the build
    /// env, else `ar`, run with the caller's environment); for a shared
    /// library, compile all sources with `-shared -fPIC`.  Compiles run in
    /// the project root with the cross env and then the recipe env over the
    /// context env.  A container build (see `uses_container`) is not planned
    /// here.
    pub fn plan(
        &self,
        ctx: &BuildContext,
        is_host: bool,
        discovered: Option<String>,
        install_hint: &str,
        cross_env: &OrdMap<String>,
    ) -> (r: Result<Plan, Error>)
        requires
            ctx.dry_run || !container_spec(self.cross@, ctx.target@),
        ensures
            match r {
                Ok(p) => {
                    let root = ctx.project_root@;
                    let out = join_path(build_dir(root), self.lib_filename_spec());
                    let env = merge_env(ctx.env@, merge_env(cross_env@, self.env@));
                    &&& c_plan_is(p, self.name@, *ctx, self.dry_text(), out)
                    &&& !ctx.dry_run ==> {
                        &&& compiler_choice(
                            self.cross@,
                            ctx.target@,
                            is_host,
                            crate::config::opt(discovered),
                        ) matches Some(cc)
                        &&& if self.static_lib {
                            let n = self.sources@.len();
                            &&& p.commands@.len() == n + 1
                            &&& forall|i: int|
                                0 <= i < n ==> invocation_is(
                                    #[trigger] p.commands@[i],
                                    cc,
                                    object_args(root, sv(self.sources@)[i], sv(self.includes@), sv(self.cflags@)),
                                    root,
                                    env,
                                    ""@,
                                    ""@,
                                    cc,
                                )
                            &&& p.commands@[n as int].program@ == archiver(merge_env(cross_env@, self.env@))
                            &&& sv(p.commands@[n as int].args@) == seq!["rcs"@, out] + object_paths(root, sv(self.sources@))
                            &&& p.commands@[n as int].workdir@ == root
                            &&& p.commands@[n as int].env@.len() == 0
                            &&& !p.commands@[n as int].clear_env
                            &&& p.commands@[n as int].capture
                            &&& p.commands@[n as int].tool@.len() == 0
                            &&& p.commands@[n as int].failure_name@ == "ar"@
                        } else {
                            &&& p.commands@.len() == 1
                            &&& invocation_is(
                                p.commands@[0],
                                cc,
                                seq!["-shared"@, "-fPIC"@] + link_args(
                                    root,
                                    sv(self.sources@),
                                    sv(self.includes@),
                                    sv(self.link_libs@),
                                    sv(self.cflags@),
                                    out,
                                ),
                                root,
                                env,
                                ""@,
                                ""@,
                                cc,
                            )
                        }
                    }
                },
                Err(e) => !ctx.dry_run && compiler_choice(
                    self.cross@,
                    ctx.target@,
                    is_host,
                    crate::config::opt(discovered),
                ) is None && compiler_missing(e, *ctx, install_hint@),
            },
    {
        let f = self.lib_filename();
        let mut t = chars_of("[dry-run] ");
        extend_str(&mut t, if self.static_lib {
            "ar rcs"
        } else {
            "cc -shared"
        });
        extend_str(&mut t, " build/");
        extend_str(&mut t, f.as_str());
        extend_str(&mut t, " ");
        let joined = join_strings(&self.sources, " ");
        extend_str(&mut t, joined.as_str());
        let text = string_of(&t);
        let output = self.output_path(ctx);
        let mut commands: Vec<Invocation> = Vec::new();
        if !ctx.dry_run {
            let cc = match pick_compiler(&self.cross, ctx, is_host, discovered, install_hint) {
                Ok(c) => c,
                Err(e) => {
                    return Err(e);
                },
            };
            let extra = merged_env(cross_env, &self.env);
            let root = ctx.project_root.as_str();
            if self.static_lib {
                let build = path_join(root, "build");
                let mut objects: Vec<String> = Vec::new();
                let mut i: usize = 0;
                while i < self.sources.len()
                    invariant
                        i <= self.sources@.len(),
                        build@ == build_dir(ctx.project_root@),
                        root@ == ctx.project_root@,
                        commands@.len() == i,
                        sv(objects@) == object_paths(ctx.project_root@, sv(self.sources@)).take(i as int),
                        forall|j: int|
                            0 <= j < i ==> invocation_is(
                                #[trigger] commands@[j],
                                cc@,
                                object_args(ctx.project_root@, sv(self.sources@)[j], sv(self.includes@), sv(self.cflags@)),
                                ctx.project_root@,
                                merge_env(ctx.env@, extra@),
                                ""@,
                                ""@,
                                cc@,
                            ),
                    decreases self.sources@.len() - i,
                {
                    let src = self.sources[i].as_str();
                    let obj_name = object_file_name(src);
                    let obj = path_join(build.as_str(), obj_name.as_str());
                    let mut args: Vec<String> = Vec::new();
                    args.push("-fPIC".to_owned());
                    args.push("-c".to_owned());
                    args.push(path_join(root, src));
                    assert(sv(args@) =~= seq!["-fPIC"@, "-c"@, join_path(ctx.project_root@, src@)]);
                    push_includes(&mut args, root, &self.includes);
                    push_all(&mut args, &self.cflags);
                    args.push("-o".to_owned());
                    args.push(obj.clone());
                    let ghost a = args@;
                    assert(sv(self.sources@)[i as int] == src@);
                    assert(sv(a) =~= object_args(ctx.project_root@, src@, sv(self.includes@), sv(self.cflags@)));
                    let ghost before_objs = objects@;
                    objects.push(obj);
                    proof {
                        crate::text::lemma_sv_push(before_objs, obj);
                        assert(object_paths(ctx.project_root@, sv(self.sources@)).take(i + 1) =~= object_paths(
                            ctx.project_root@,
                            sv(self.sources@),
                        ).take(i as int).push(obj@));
                    }
                    commands.push(invocation(cc.as_str(), args, ctx.project_root.clone(), ctx, &extra, "", "", cc.as_str()));
                    i += 1;
                }
                assert(object_paths(ctx.project_root@, sv(self.sources@)).take(self.sources@.len() as int)
                    =~= object_paths(ctx.project_root@, sv(self.sources@)));
                let ar = match extra.get("AR") {
                    Some(a) => a.clone(),
                    None => "ar".to_owned(),
                };
                let mut ar_args: Vec<String> = Vec::new();
                ar_args.push("rcs".to_owned());
                ar_args.push(output.clone());
                push_all(&mut ar_args, &objects);
                let ghost aa = ar_args@;
                assert(sv(aa) =~= seq!["rcs"@, output@] + object_paths(ctx.project_root@, sv(self.sources@)));
                commands.push(Invocation {
                    program: ar,
                    args: ar_args,
                    workdir: ctx.project_root.clone(),
                    env: OrdMap::new(),
                    tool: String::new(),
                    hint: String::new(),
                    failure_name: "ar".to_owned(),
                    clear_env: false,
                    capture: true,
                });
            } else {
                let mut args: Vec<String> = Vec::new();
                args.push("-shared".to_owned());
                args.push("-fPIC".to_owned());
                assert(sv(args@) =~= seq!["-shared"@, "-fPIC"@]);
                push_joined(&mut args, root, &self.sources);
                push_includes(&mut args, root, &self.includes);
                push_libs(&mut args, &self.link_libs);
                push_all(&mut args, &self.cflags);
                let ghost mid = sv(args@);
                assert(mid =~= seq!["-shared"@, "-fPIC"@] + joined_all(ctx.project_root@, sv(self.sources@))
                    + include_args(ctx.project_root@, sv(self.includes@)) + lib_args(sv(self.link_libs@))
                    + sv(self.cflags@));
                args.push("-o".to_owned());
                args.push(output.clone());
                let ghost a = args@;
                assert(sv(a) =~= mid + seq!["-o"@, output@]);
                assert(sv(a) =~= seq!["-shared"@, "-fPIC"@] + link_args(
                    ctx.project_root@,
                    sv(self.sources@),
                    sv(self.includes@),
                    sv(self.link_libs@),
                    sv(self.cflags@),
                    output@,
                ));
                commands.push(invocation(cc.as_str(), args, ctx.project_root.clone(), ctx, &extra, "", "", cc.as_str()));
            }
        }
        let mut outputs: Vec<String> = Vec::new();
        outputs.push(output);
        let mut dirs: Vec<String> = Vec::new();
        dirs.push(path_join(ctx.project_root.as_str(), "build"));
        assert(sv(outputs@) =~= seq![join_path(build_dir(ctx.project_root@), self.lib_filename_spec())]);
        assert(sv(dirs@) =~= seq![build_dir(ctx.project_root@)]);
        Ok(Plan {
            recipe_name: self.name.clone(),
            dry_run_first: true,
            query: None,
            store: None,
            dry_run: ctx.dry_run,
            dry_run_text: text,
            commands,
            outputs,
            cached_outputs: Vec::new(),
            dirs,
        })
    }
}

impl Recipe for CLibRecipe {
    fn name(&self) -> (r: &str)
        ensures
            r@ == self.name@,
    {
        self.name.as_str()
    }

    fn deps(&self) -> (r: &[String])
        ensures
            r@ == self.deps@,
    {
        self.deps.as_slice()
    }

    fn cache_strategy(&self) -> (r: CacheStrategy)
        ensures
            r == CacheStrategy::Hash,
    {
        CacheStrategy::Hash
    }
}

} // verus!
