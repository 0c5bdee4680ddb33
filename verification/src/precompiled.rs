//! Precompiled binaries: download a file (or an archive holding it) over
//! HTTPS into the project, optionally pinned by SHA-256.
//!
//! The caller downloads, unpacks and inspects files; this module decides
//! where the binary goes, whether an installed copy is good, which file of
//! an archive is the binary, and what the recipe reports.

use vstd::prelude::*;
use crate::cc::file_name;
use crate::error::{Error, is_config_error};
use crate::map::{OrdMap, assoc_insert};
use crate::paths::{ensure_within_root, has_parent_component, join_path};
use crate::runner::{key_spec, key_view, make_cache_key, single};
use crate::text::{
    chars_of, ends_with, extend_str, has_prefix_str, has_suffix_str, join, join_strings,
    starts_with, str_eq, string_of, sv,
};
use crate::types::{BuildContext, CacheKey, CacheStrategy, Recipe, RecipeOutput, output_is};

verus! {

/// The lowercase form of a text.
pub uninterp spec fn lowercase_spec(s: Seq<char>) -> Seq<char>;

/// `str::to_lowercase`: the Unicode lowercase form of `s`; the contract
/// names the result.
#[verifier::external_body]
fn to_lowercase(s: &str) -> (r: String)
    ensures
        r@ == lowercase_spec(s@),
{
    s.to_lowercase()
}

/// The archive format a URL names by its (case-insensitive) suffix.
pub open spec fn archive_kind_spec(url: Seq<char>) -> Option<Seq<char>> {
    let lower = lowercase_spec(url);
    if ends_with(lower, ".tar.gz"@) || ends_with(lower, ".tgz"@) {
        Some("tar.gz"@)
    } else if ends_with(lower, ".zip"@) {
        Some("zip"@)
    } else {
        None
    }
}

/// The archive format of a download: `tar.gz` for `.tar.gz`/`.tgz`, `zip`
/// for `.zip` (any case), none for a plain file.
pub fn archive_kind(url: &str) -> (r: Option<&'static str>)
    ensures
        match r {
            Some(k) => archive_kind_spec(url@) == Some(k@),
            None => archive_kind_spec(url@) is None,
        },
{
    let lower = to_lowercase(url);
    let lc = chars_of(lower.as_str());
    if has_suffix_str(&lc, ".tar.gz") || has_suffix_str(&lc, ".tgz") {
        Some("tar.gz")
    } else if has_suffix_str(&lc, ".zip") {
        Some("zip")
    } else {
        None
    }
}

/// Names of files that are documentation rather than programs.
pub open spec fn doc_name(name: Seq<char>) -> bool {
    ||| starts_with(name, "readme"@)
    ||| starts_with(name, "license"@)
    ||| starts_with(name, "copying"@)
    ||| starts_with(name, "changelog"@)
    ||| starts_with(name, "notice"@)
    ||| starts_with(name, "authors"@)
    ||| ends_with(name, ".md"@)
    ||| ends_with(name, ".txt"@)
    ||| ends_with(name, ".1"@)
    ||| ends_with(name, ".html"@)
    ||| ends_with(name, ".proto"@)
}

/// The file a path names is documentation (by its lowercase file name).
pub open spec fn is_doc_spec(path: Seq<char>) -> bool {
    doc_name(
        lowercase_spec(
            match file_name(path) {
                Some(n) => n,
                None => seq![],
            },
        ),
    )
}

/// The file is a README, license, changelog or the like, by its name.
pub fn is_doc_artifact(path: &str) -> (b: bool)
    ensures
        b == is_doc_spec(path@),
{
    let name = match crate::cc::path_file_name(path) {
        Some(n) => n,
        None => String::new(),
    };
    let lower = to_lowercase(name.as_str());
    let n = chars_of(lower.as_str());
    has_prefix_str(&n, "readme") || has_prefix_str(&n, "license") || has_prefix_str(&n, "copying")
        || has_prefix_str(&n, "changelog") || has_prefix_str(&n, "notice") || has_prefix_str(
        &n,
        "authors",
    ) || has_suffix_str(&n, ".md") || has_suffix_str(&n, ".txt") || has_suffix_str(&n, ".1")
        || has_suffix_str(&n, ".html") || has_suffix_str(&n, ".proto")
}

/// A file found in an unpacked archive.
pub struct ArchiveFile {
    pub path: String,
    pub executable: bool,
}

/// `path` without the leading `dir/`, or unchanged.
pub open spec fn relative_to(path: Seq<char>, dir: Seq<char>) -> Seq<char> {
    if starts_with(path, dir + "/"@) {
        path.skip(dir.len() + 1int)
    } else {
        path
    }
}

/// The candidates for the binary: the executable files, or, when there is
/// none, the files that are not documentation.
pub open spec fn candidates(files: Seq<ArchiveFile>) -> Seq<ArchiveFile> {
    let ex = files.filter(|f: ArchiveFile| f.executable);
    if ex.len() > 0 {
        ex
    } else {
        files.filter(|f: ArchiveFile| !is_doc_spec(f.path@))
    }
}

/// The file named like the recipe, if any (the first one).
pub open spec fn exact_match(files: Seq<ArchiveFile>, name: Seq<char>) -> Option<int>
    decreases files.len(),
{
    if files.len() == 0 {
        None
    } else if file_name(files[0].path@) == Some(name) {
        Some(0)
    } else {
        match exact_match(files.drop_first(), name) {
            Some(i) => Some(i + 1),
            None => None,
        }
    }
}

/// The message listing several candidates.
pub open spec fn ambiguity_message(listing: Seq<Seq<char>>) -> Seq<char> {
    "archive contains multiple candidate binaries: ["@ + join(listing, ", "@)
        + "]; name the recipe after the binary or use a raw file URL"@
}

/// The binary of an archive: the file named like the recipe; otherwise the
/// only candidate; otherwise an error.
pub open spec fn pick_spec(files: Seq<ArchiveFile>, dir: Seq<char>, name: Seq<char>) -> Result<
    Seq<char>,
    Seq<char>,
> {
    match exact_match(files, name) {
        Some(i) => Ok(files[i].path@),
        None => {
            let c = candidates(files);
            if c.len() == 1 {
                Ok(c[0].path@)
            } else if c.len() == 0 {
                Err("archive contains no candidate binary"@)
            } else {
                Err(ambiguity_message(c.map_values(|f: ArchiveFile| relative_to(f.path@, dir))))
            }
        },
    }
}

/// Which file of an unpacked archive (its files in path order) is the
/// binary of recipe `name`.
pub fn pick_binary(files: &Vec<ArchiveFile>, dir: &str, name: &str) -> (r: Result<String, String>)
    ensures
        match r {
            Ok(p) => pick_spec(files@, dir@, name@) == Ok::<Seq<char>, Seq<char>>(p@),
            Err(m) => pick_spec(files@, dir@, name@) == Err::<Seq<char>, Seq<char>>(m@),
        },
{
    let mut i: usize = 0;
    assert(files@.skip(0) =~= files@);
    while i < files.len()
        invariant
            i <= files@.len(),
            exact_match(files@, name@) == (match exact_match(files@.skip(i as int), name@) {
                Some(j) => Some(j + i),
                None => None,
            }),
        decreases files@.len() - i,
    {
        proof {
            let t = files@.skip(i as int);
            assert(t[0] == files@[i as int]);
            assert(t.drop_first() =~= files@.skip(i + 1));
        }
        let found = match crate::cc::path_file_name(files[i].path.as_str()) {
            Some(n) => str_eq(n.as_str(), name),
            None => false,
        };
        if found {
            return Ok(files[i].path.clone());
        }
        i += 1;
    }
    assert(files@.skip(files@.len() as int) =~= Seq::<ArchiveFile>::empty());
    // executables first, then non-documentation files
    let ghost fs = files@;
    let mut ex: Vec<usize> = Vec::new();
    let mut non_doc: Vec<usize> = Vec::new();
    let mut k: usize = 0;
    while k < files.len()
        invariant
            k <= fs.len(),
            fs == files@,
            ex@.map_values(|j: usize| fs[j as int]) == fs.take(k as int).filter(
                |f: ArchiveFile| f.executable,
            ),
            non_doc@.map_values(|j: usize| fs[j as int]) == fs.take(k as int).filter(
                |f: ArchiveFile| !is_doc_spec(f.path@),
            ),
            forall|q: int| 0 <= q < ex@.len() ==> #[trigger] ex@[q] < fs.len(),
            forall|q: int| 0 <= q < non_doc@.len() ==> #[trigger] non_doc@[q] < fs.len(),
        decreases fs.len() - k,
    {
        proof {
            assert(fs.take(k + 1) =~= fs.take(k as int).push(fs[k as int]));
            fs.take(k as int).lemma_filter_push(fs[k as int], |f: ArchiveFile| f.executable);
            fs.take(k as int).lemma_filter_push(fs[k as int], |f: ArchiveFile| !is_doc_spec(f.path@));
        }
        let ghost ex0 = ex@;
        let ghost nd0 = non_doc@;
        if files[k].executable {
            ex.push(k);
            assert(ex@.map_values(|j: usize| fs[j as int]) =~= ex0.map_values(|j: usize| fs[j as int]).push(
                fs[k as int],
            ));
        }
        if !is_doc_artifact(files[k].path.as_str()) {
            non_doc.push(k);
            assert(non_doc@.map_values(|j: usize| fs[j as int]) =~= nd0.map_values(
                |j: usize| fs[j as int],
            ).push(fs[k as int]));
        }
        k += 1;
    }
    assert(fs.take(fs.len() as int) =~= fs);
    let chosen = if ex.len() > 0 {
        ex
    } else {
        non_doc
    };
    let ghost cv = chosen@.map_values(|j: usize| fs[j as int]);
    assert(cv =~= candidates(fs));
    if chosen.len() == 1 {
        assert(cv[0] == fs[chosen@[0] as int]);
        return Ok(files[chosen[0]].path.clone());
    }
    if chosen.len() == 0 {
        return Err("archive contains no candidate binary".to_owned());
    }
    let mut listing: Vec<String> = Vec::new();
    let mut q: usize = 0;
    while q < chosen.len()
        invariant
            q <= chosen@.len(),
            fs == files@,
            cv == chosen@.map_values(|j: usize| fs[j as int]),
            forall|z: int| 0 <= z < chosen@.len() ==> #[trigger] chosen@[z] < fs.len(),
            sv(listing@) == cv.map_values(|f: ArchiveFile| relative_to(f.path@, dir@)).take(q as int),
        decreases chosen@.len() - q,
    {
        let f = &files[chosen[q]];
        let rel = relative_path(f.path.as_str(), dir);
        let ghost before = listing@;
        listing.push(rel);
        proof {
            crate::text::lemma_sv_push(before, rel);
            assert(cv[q as int] == fs[chosen@[q as int] as int]);
            assert(cv.map_values(|f: ArchiveFile| relative_to(f.path@, dir@)).take(q + 1) =~= cv.map_values(
                |f: ArchiveFile| relative_to(f.path@, dir@),
            ).take(q as int).push(rel@));
        }
        q += 1;
    }
    assert(cv.map_values(|f: ArchiveFile| relative_to(f.path@, dir@)).take(chosen@.len() as int)
        =~= cv.map_values(|f: ArchiveFile| relative_to(f.path@, dir@)));
    let mut m = chars_of("archive contains multiple candidate binaries: [");
    let joined = join_strings(&listing, ", ");
    extend_str(&mut m, joined.as_str());
    extend_str(&mut m, "]; name the recipe after the binary or use a raw file URL");
    Err(string_of(&m))
}

/// `path` without the leading `dir/`, or unchanged.
fn relative_path(path: &str, dir: &str) -> (r: String)
    ensures
        r@ == relative_to(path@, dir@),
{
    let p = chars_of(path);
    let mut d = chars_of(dir);
    extend_str(&mut d, "/");
    proof {
        reveal_strlit("/");
    }
    if crate::text::has_prefix(&p, &d) {
        let r = crate::text::slice_of(&p, d.len(), p.len());
        assert(r@ =~= path@.skip(dir@.len() + 1int));
        string_of(&r)
    } else {
        string_of(&p)
    }
}

/// An installed copy is good: without a pin always; for an archive when its
/// marker file (trimmed) holds the pin; for a plain file when the digest of
/// its contents is the pin.
pub open spec fn pin_ok(
    url: Seq<char>,
    sha256: Option<Seq<char>>,
    marker: Option<Seq<char>>,
    file_digest: Seq<char>,
) -> bool {
    match sha256 {
        None => true,
        Some(expected) => if archive_kind_spec(url) is Some {
            match marker {
                Some(m) => crate::text::trim(m) == expected,
                None => false,
            }
        } else {
            file_digest == expected
        },
    }
}

/// Whether an installed copy matches the pin, given the marker file's text
/// (if it could be read) and the hex digest of the installed file
/// (`<missing>` when it could not be read).
pub fn installed_matches_pin(
    url: &str,
    sha256: Option<&str>,
    marker: Option<&str>,
    file_digest: &str,
) -> (b: bool)
    ensures
        b == pin_ok(
            url@,
            match sha256 {
                Some(s) => Some(s@),
                None => None,
            },
            match marker {
                Some(m) => Some(m@),
                None => None,
            },
            file_digest@,
        ),
{
    match sha256 {
        None => true,
        Some(expected) => {
            if archive_kind(url).is_some() {
                match marker {
                    Some(m) => {
                        let t = crate::text::trim_chars(&chars_of(m));
                        crate::text::chars_eq(&t, &chars_of(expected))
                    },
                    None => false,
                }
            } else {
                str_eq(file_digest, expected)
            }
        },
    }
}

/// Where the pinned digest of a binary installed from an archive is kept:
/// beside it, its name followed by `.mustsha256`.
pub fn marker_path(dest: &str) -> (r: String)
    ensures
        r@ == dest@ + ".mustsha256"@,
{
    let mut v = chars_of(dest);
    extend_str(&mut v, ".mustsha256");
    string_of(&v)
}

/// The text of a download whose digest is not the pinned one: none when
/// nothing is pinned or the digests agree.
pub open spec fn digest_mismatch_spec(expected: Option<Seq<char>>, actual: Seq<char>) -> Option<
    Seq<char>,
> {
    match expected {
        Some(e) => if e == actual {
            None
        } else {
            Some("SHA256 mismatch: expected "@ + e + ", got "@ + actual)
        },
        None => None,
    }
}

/// Checks a downloaded file's hex digest against the pin.
pub fn digest_mismatch(expected: Option<&str>, actual: &str) -> (r: Option<String>)
    ensures
        match r {
            Some(m) => digest_mismatch_spec(
                match expected {
                    Some(e) => Some(e@),
                    None => None,
                },
                actual@,
            ) == Some(m@),
            None => digest_mismatch_spec(
                match expected {
                    Some(e) => Some(e@),
                    None => None,
                },
                actual@,
            ) is None,
        },
{
    match expected {
        Some(e) => {
            if str_eq(e, actual) {
                None
            } else {
                let mut v = chars_of("SHA256 mismatch: expected ");
                extend_str(&mut v, e);
                extend_str(&mut v, ", got ");
                extend_str(&mut v, actual);
                Some(string_of(&v))
            }
        },
        None => None,
    }
}

/// Installs a precompiled binary.
pub struct PrecompiledBinRecipe {
    pub name: String,
    pub deps: Vec<String>,
    pub url: String,
    pub sha256: Option<String>,
    /// Where the binary goes, relative to the project root.
    pub output_path: String,
    pub env: OrdMap<String>,
}

/// What to do after the first decision.
pub enum FetchStep {
    /// The recipe is done.
    Done(RecipeOutput),
    /// See whether a good copy is installed at `dest`.
    Check { dest: String },
}

impl PrecompiledBinRecipe {
    pub fn new(name: &str, url: &str, output_path: &str) -> (r: Self)
        ensures
            r.name@ == name@,
            r.deps@.len() == 0,
            r.url@ == url@,
            r.sha256 is None,
            r.output_path@ == output_path@,
            r.env@.len() == 0,
    {
        PrecompiledBinRecipe {
            name: name.to_owned(),
            deps: Vec::new(),
            url: url.to_owned(),
            sha256: None,
            output_path: output_path.to_owned(),
            env: OrdMap::new(),
        }
    }

    /// Where the binary goes: the output path under the project root.  The
    /// URL must use HTTPS and the path must not climb out of the root.
    pub fn dest_path(&self, ctx: &BuildContext) -> (r: Result<String, Error>)
        ensures
            match r {
                Ok(d) => starts_with(self.url@, "https://"@) && !has_parent_component(
                    self.output_path@,
                ) && d@ == join_path(ctx.project_root@, self.output_path@),
                Err(e) => if !starts_with(self.url@, "https://"@) {
                    is_config_error(e, self.url@, "precompiled-bin URL must use https://"@)
                } else {
                    has_parent_component(self.output_path@) && is_config_error(
                        e,
                        self.output_path@,
                        "path must not contain '..' components"@,
                    )
                },
            },
    {
        let u = chars_of(self.url.as_str());
        if !has_prefix_str(&u, "https://") {
            return Err(
                Error::Config {
                    path: self.url.clone(),
                    message: "precompiled-bin URL must use https://".to_owned(),
                },
            );
        }
        ensure_within_root(ctx.project_root.as_str(), self.output_path.as_str())
    }

    /// No input files are tracked.
    pub fn inputs(&self, ctx: &BuildContext) -> (r: Result<Vec<String>, Error>)
        ensures
            r matches Ok(v) && v@.len() == 0,
    {
        Ok(Vec::new())
    }

    /// The installed binary.
    pub fn outputs(&self, ctx: &BuildContext) -> (r: Result<Vec<String>, Error>)
        ensures
            match r {
                Ok(v) => starts_with(self.url@, "https://"@) && !has_parent_component(
                    self.output_path@,
                ) && sv(v@) == seq![join_path(ctx.project_root@, self.output_path@)],
                Err(_) => !starts_with(self.url@, "https://"@) || has_parent_component(
                    self.output_path@,
                ),
            },
    {
        let d = self.dest_path(ctx)?;
        let mut v: Vec<String> = Vec::new();
        v.push(d);
        assert(sv(v@) =~= seq![join_path(ctx.project_root@, self.output_path@)]);
        Ok(v)
    }

    /// The flags that identify the download: URL, pin (when set) and path.
    pub open spec fn flags_spec(self) -> Seq<(Seq<char>, Seq<char>)> {
        let base = seq![("url"@, self.url@)];
        let with_pin = match self.sha256 {
            Some(s) => assoc_insert(base, "sha256"@, s@),
            None => base,
        };
        assoc_insert(with_pin, "output_path"@, self.output_path@)
    }

    /// The cache key: name, type tag `precompiled-bin`, no env, and the
    /// download's flags.
    pub fn cache_key(&self, ctx: &BuildContext) -> (r: Result<CacheKey, Error>)
        ensures
            r matches Ok(k) && key_view(k) == key_spec(
                self.name@,
                "precompiled-bin"@,
                *ctx,
                seq![],
                ""@,
                self.flags_spec(),
            ),
    {
        let mut flags = single("url", self.url.clone());
        match &self.sha256 {
            Some(s) => {
                flags.insert("sha256".to_owned(), s.clone());
            },
            None => {},
        }
        flags.insert("output_path".to_owned(), self.output_path.clone());
        let env: OrdMap<String> = OrdMap::new();
        Ok(make_cache_key(self.name.as_str(), "precompiled-bin", ctx, &env, "", &flags))
    }

    fn output_with(&self, dest: &str, from_cache: bool, stdout: String, duration_ms: u64) -> (o: RecipeOutput)
        ensures
            output_is(o, self.name@, from_cache, seq![dest@], stdout@, seq![], duration_ms),
    {
        let mut outputs: Vec<String> = Vec::new();
        outputs.push(dest.to_owned());
        assert(sv(outputs@) =~= seq![dest@]);
        RecipeOutput {
            recipe_name: self.name.clone(),
            from_cache,
            outputs,
            stdout,
            stderr: String::new(),
            duration_ms,
        }
    }

    /// The first step of executing the recipe: the destination (or its
    /// error); in a dry run, the report of the download.
    pub fn begin(&self, ctx: &BuildContext) -> (r: Result<FetchStep, Error>)
        ensures
            match r {
                Ok(FetchStep::Done(o)) => ctx.dry_run && starts_with(self.url@, "https://"@)
                    && !has_parent_component(self.output_path@) && output_is(
                    o,
                    self.name@,
                    false,
                    seq![join_path(ctx.project_root@, self.output_path@)],
                    "[dry-run] download "@ + self.url@ + " -> "@ + join_path(
                        ctx.project_root@,
                        self.output_path@,
                    ),
                    seq![],
                    0,
                ),
                Ok(FetchStep::Check { dest }) => !ctx.dry_run && starts_with(self.url@, "https://"@)
                    && !has_parent_component(self.output_path@) && dest@ == join_path(
                    ctx.project_root@,
                    self.output_path@,
                ),
                Err(_) => !starts_with(self.url@, "https://"@) || has_parent_component(
                    self.output_path@,
                ),
            },
    {
        let dest = self.dest_path(ctx)?;
        if ctx.dry_run {
            let mut t = chars_of("[dry-run] download ");
            extend_str(&mut t, self.url.as_str());
            extend_str(&mut t, " -> ");
            extend_str(&mut t, dest.as_str());
            let o = self.output_with(dest.as_str(), false, string_of(&t), 0);
            return Ok(FetchStep::Done(o));
        }
        Ok(FetchStep::Check { dest })
    }

    /// After checking the destination: a good installed copy is reported as
    /// cached; otherwise `None`, and the binary is to be downloaded.
    pub fn after_check(&self, dest: &str, installed_ok: bool) -> (r: Option<RecipeOutput>)
        ensures
            match r {
                Some(o) => installed_ok && output_is(
                    o,
                    self.name@,
                    true,
                    seq![dest@],
                    dest@ + " (already present)"@,
                    seq![],
                    0,
                ),
                None => !installed_ok,
            },
    {
        if installed_ok {
            let mut t = chars_of(dest);
            extend_str(&mut t, " (already present)");
            Some(self.output_with(dest, true, string_of(&t), 0))
        } else {
            None
        }
    }

    /// The result once the download has ended: its failure as the recipe's
    /// failure (exit code 1), or the report of the download.
    pub fn finish(&self, dest: &str, download: Result<u64, String>) -> (r: Result<RecipeOutput, Error>)
        ensures
            match download {
                Ok(ms) => r matches Ok(o) && output_is(
                    o,
                    self.name@,
                    false,
                    seq![dest@],
                    "downloaded "@ + self.url@ + " -> "@ + dest@,
                    seq![],
                    ms,
                ),
                Err(m) => r matches Err(e) && e matches Error::RecipeFailed { name, code, stderr }
                    && name@ == self.name@ && code == 1 && stderr@ == m@,
            },
    {
        match download {
            Ok(ms) => {
                let mut t = chars_of("downloaded ");
                extend_str(&mut t, self.url.as_str());
                extend_str(&mut t, " -> ");
                extend_str(&mut t, dest);
                Ok(self.output_with(dest, false, string_of(&t), ms))
            },
            Err(m) => Err(Error::RecipeFailed { name: self.name.clone(), code: 1, stderr: m }),
        }
    }
}

impl Recipe for PrecompiledBinRecipe {
    fn name(&self) -> (r: &str)
        ensures
            r@ == self.name@,
    {
        self.name.as_str()
    }

    fn deps(&self) -> (r: &[String])
        ensures
            r@ == self.deps@,
    {
        self.deps.as_slice()
    }

    fn cache_strategy(&self) -> (r: CacheStrategy)
        ensures
            r == CacheStrategy::Hash,
    {
        CacheStrategy::Hash
    }
}

} // verus!
