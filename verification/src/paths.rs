//! Path checks that keep recipe paths and names inside the project.
//!
//! Paths are handled as `/`-separated strings.

use vstd::prelude::*;
use crate::error::{Error, is_config_error};
use crate::text::{
    chars_of, extend, extend_str, find_sub, has_char, has_char_exec, contains, split,
    split_on, starts_with, string_of, has_prefix_str, has_suffix_str, ends_with, vv,
};

verus! {

/// `base` joined with `part`: an absolute `part` replaces `base`; otherwise
/// a `/` goes between them unless `base` is empty or already ends in `/`.
pub open spec fn join_path(base: Seq<char>, part: Seq<char>) -> Seq<char> {
    if starts_with(part, "/"@) || base.len() == 0 {
        part
    } else if ends_with(base, "/"@) {
        base + part
    } else {
        base + "/"@ + part
    }
}

/// Some `/`-separated component of `p` is `..`.
pub open spec fn has_parent_component(p: Seq<char>) -> bool {
    exists|i: int| 0 <= i < split(p, '/').len() && #[trigger] split(p, '/')[i] == ".."@
}

/// `base` joined with `part` (see [`join_path`]).
pub fn path_join(base: &str, part: &str) -> (r: String)
    ensures
        r@ == join_path(base@, part@),
{
    let pc = chars_of(part);
    let bc = chars_of(base);
    if has_prefix_str(&pc, "/") || bc.len() == 0 {
        return string_of(&pc);
    }
    let mut v = bc;
    if !has_suffix_str(&v, "/") {
        extend_str(&mut v, "/");
    }
    extend(&mut v, &pc);
    string_of(&v)
}

/// Resolve `path` against `root`, refusing any `..` component.
pub fn ensure_within_root(root: &str, path: &str) -> (r: Result<String, Error>)
    ensures
        match r {
            Ok(p) => !has_parent_component(path@) && p@ == join_path(root@, path@),
            Err(e) => has_parent_component(path@) && is_config_error(
                e,
                path@,
                "path must not contain '..' components"@,
            ),
        },
{
    let parts = split_on(&chars_of(path), '/');
    let mut i: usize = 0;
    while i < parts.len()
        invariant
            i <= parts@.len(),
            vv(parts@) == split(path@, '/'),
            forall|j: int| 0 <= j < i ==> #[trigger] split(path@, '/')[j] != ".."@,
        decreases parts@.len() - i,
    {
        let p = &parts[i];
        proof {
            reveal_strlit("..");
        }
        assert(vv(parts@)[i as int] == p@);
        if p.len() == 2 && p[0] == '.' && p[1] == '.' {
            assert(p@ =~= ".."@);
            return Err(Error::Config {
                path: path.to_owned(),
                message: "path must not contain '..' components".to_owned(),
            });
        }
        assert(p@ != ".."@) by {
            if p@ == ".."@ {
                assert(p@.len() == 2 && p@[0] == '.' && p@[1] == '.');
            }
        }
        i += 1;
    }
    Ok(path_join(root, path))
}

/// The platform's path separator: `\\` on Windows, else `/`.
pub open spec fn main_separator(windows: bool) -> char {
    if windows {
        '\\'
    } else {
        '/'
    }
}

/// Check that a recipe name holds neither `..` nor the path separator of
/// the platform (`\\` on Windows, else `/`).
pub fn validate_name_no_traversal(name: &str, windows: bool) -> (r: Result<(), Error>)
    ensures
        match r {
            Ok(_) => !contains(name@, ".."@) && !has_char(name@, main_separator(windows)),
            Err(e) => (contains(name@, ".."@) || has_char(name@, main_separator(windows)))
                && is_config_error(e, name@, "name must not contain '..' or path separators"@),
        },
{
    let nc = chars_of(name);
    let dots = chars_of("..");
    let sep = if windows {
        '\\'
    } else {
        '/'
    };
    if find_sub(&nc, &dots).is_some() || has_char_exec(&nc, sep) {
        return Err(Error::Config {
            path: name.to_owned(),
            message: "name must not contain '..' or path separators".to_owned(),
        });
    }
    Ok(())
}

// ---------------------------------------------------------------------------
// Path order
// ---------------------------------------------------------------------------

/// The sort key of one `/`-separated piece of a path: nothing for an empty
/// piece or `.`, a parent mark for `..`, and for a name a name mark, the
/// name and a NUL.
pub open spec fn piece_key(p: Seq<char>) -> Seq<char> {
    if p.len() == 0 || p == seq!['.'] {
        seq![]
    } else if p == seq!['.', '.'] {
        seq!['\u{3}', '\u{0}']
    } else {
        seq!['\u{4}'] + p + seq!['\u{0}']
    }
}

/// The keys of the pieces, in order.
pub open spec fn pieces_key(ps: Seq<Seq<char>>) -> Seq<char>
    decreases ps.len(),
{
    if ps.len() == 0 {
        seq![]
    } else {
        pieces_key(ps.drop_last()) + piece_key(ps.last())
    }
}

/// The sort key of a path: its components in order (a root mark for a
/// leading `/`, a current-directory mark for a leading `./`, then `..`
/// and names, with empty and `.` pieces left out), each as a mark, its
/// text and a NUL.  Two paths without NUL characters compare by their keys
/// as they compare component by component, the root before `.`, `.` before
/// `..` and `..` before any name, names character by character.
pub open spec fn path_key(p: Seq<char>) -> Seq<char> {
    let ps = split(p, '/');
    (if p.len() > 0 && p[0] == '/' {
        seq!['\u{1}', '\u{0}']
    } else if ps[0] == seq!['.'] {
        seq!['\u{2}', '\u{0}']
    } else {
        seq![]
    }) + pieces_key(ps)
}

/// The sort key of a path.
pub fn path_key_of(p: &str) -> (k: Vec<char>)
    ensures
        k@ == path_key(p@),
{
    let pc = chars_of(p);
    let ps = split_on(&pc, '/');
    let ghost psv = vv(ps@);
    proof {
        crate::text::lemma_split_nonempty(pc@, '/');
    }
    let mut k: Vec<char> = Vec::new();
    if pc.len() > 0 && pc[0] == '/' {
        k.push('\u{1}');
        k.push('\u{0}');
    } else if ps[0].len() == 1 && ps[0][0] == '.' {
        assert(psv[0] =~= seq!['.']);
        k.push('\u{2}');
        k.push('\u{0}');
    } else {
        assert(psv[0] != seq!['.']) by {
            if psv[0] == seq!['.'] {
                assert(ps@[0]@.len() == 1 && ps@[0]@[0] == '.');
            }
        }
    }
    let ghost head = k@;
    let mut i: usize = 0;
    assert(psv.take(0) =~= Seq::<Seq<char>>::empty());
    while i < ps.len()
        invariant
            i <= ps@.len(),
            psv == vv(ps@),
            k@ == head + pieces_key(psv.take(i as int)),
        decreases ps@.len() - i,
    {
        let piece = &ps[i];
        let ghost pv = piece@;
        assert(psv[i as int] == pv);
        if piece.len() == 0 || (piece.len() == 1 && piece[0] == '.') {
            assert(piece_key(pv) == Seq::<char>::empty()) by {
                if pv.len() == 1 {
                    assert(pv =~= seq!['.']);
                }
            }
        } else if piece.len() == 2 && piece[0] == '.' && piece[1] == '.' {
            assert(pv =~= seq!['.', '.']);
            k.push('\u{3}');
            k.push('\u{0}');
        } else {
            assert(pv != seq!['.'] && pv != seq!['.', '.']) by {
                if pv == seq!['.'] {
                    assert(pv.len() == 1 && pv[0] == '.');
                }
                if pv == seq!['.', '.'] {
                    assert(pv.len() == 2 && pv[0] == '.' && pv[1] == '.');
                }
            }
            k.push('\u{4}');
            extend(&mut k, piece.as_slice());
            k.push('\u{0}');
        }
        assert(psv.take(i + 1).drop_last() =~= psv.take(i as int));
        assert(k@ =~= head + pieces_key(psv.take(i + 1)));
        i += 1;
    }
    assert(psv.take(ps@.len() as int) =~= psv);
    assert(k@ =~= path_key(p@));
    k
}

} // verus!
