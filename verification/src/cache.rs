//! The on-disk cache's index keys, entry layout and decisions.
//!
//! The index maps a key made of recipe, target and profile to the hash of the
//! last stored build; each build's outputs live in a directory named after
//! its hash.

use vstd::prelude::*;
use vstd::utf8::{decode_utf8, encode_utf8, valid_utf8};
use vstd::string::StringSliceAdditionalSpecFns;
use crate::error::Error;
use crate::hash::{hash_string, hex_spec, sha256_spec};
use crate::paths::{join_path, path_join};
use crate::text::{chars_of, extend, extend_str, slice_of, string_of, str_eq, sv};
use crate::types::{CacheKey, CacheLookup};

verus! {

/// The eight big-endian bytes of `n`.
pub open spec fn be64(n: u64) -> Seq<u8> {
    seq![
        (n >> 56u64) as u8,
        (n >> 48u64) as u8,
        (n >> 40u64) as u8,
        (n >> 32u64) as u8,
        (n >> 24u64) as u8,
        (n >> 16u64) as u8,
        (n >> 8u64) as u8,
        n as u8,
    ]
}

/// The number whose big-endian bytes are the first eight of `s`.
pub open spec fn from_be(s: Seq<u8>) -> u64 {
    ((s[0] as u64) << 56u64) | ((s[1] as u64) << 48u64) | ((s[2] as u64) << 40u64) | ((
    s[3] as u64) << 32u64) | ((s[4] as u64) << 24u64) | ((s[5] as u64) << 16u64) | ((s[6] as u64)
        << 8u64) | (s[7] as u64)
}

pub proof fn lemma_be64_roundtrip(n: u64)
    ensures
        from_be(be64(n)) == n,
{
    let b0 = (n >> 56u64) as u8;
    let b1 = (n >> 48u64) as u8;
    let b2 = (n >> 40u64) as u8;
    let b3 = (n >> 32u64) as u8;
    let b4 = (n >> 24u64) as u8;
    let b5 = (n >> 16u64) as u8;
    let b6 = (n >> 8u64) as u8;
    let b7 = n as u8;
    assert(((b0 as u64) << 56u64) | ((b1 as u64) << 48u64) | ((b2 as u64) << 40u64) | ((
    b3 as u64) << 32u64) | ((b4 as u64) << 24u64) | ((b5 as u64) << 16u64) | ((b6 as u64)
        << 8u64) | (b7 as u64) == n) by (bit_vector)
        requires
            b0 == (n >> 56u64) as u8,
            b1 == (n >> 48u64) as u8,
            b2 == (n >> 40u64) as u8,
            b3 == (n >> 32u64) as u8,
            b4 == (n >> 24u64) as u8,
            b5 == (n >> 16u64) as u8,
            b6 == (n >> 8u64) as u8,
            b7 == n as u8,
    ;
}

/// One part of an index key: its UTF-8 length as eight big-endian bytes,
/// then its UTF-8 bytes.
pub open spec fn part_bytes(s: Seq<char>) -> Seq<u8> {
    be64(encode_utf8(s).len() as u64) + encode_utf8(s)
}

/// The index key of recipe, target and profile.
pub open spec fn sled_key_spec(recipe: Seq<char>, target: Seq<char>, profile: Seq<char>) -> Seq<u8> {
    part_bytes(recipe) + part_bytes(target) + part_bytes(profile)
}

/// Reads one part off the front of `b`: the text and what follows it, or
/// `None` when `b` is too short or the text is not UTF-8.
pub open spec fn take_part(b: Seq<u8>) -> Option<(Seq<char>, Seq<u8>)> {
    if b.len() < 8 {
        None
    } else {
        let n = (from_be(b.take(8)) as usize) as int;
        let rest = b.skip(8);
        if rest.len() < n {
            None
        } else if !valid_utf8(rest.take(n)) {
            None
        } else {
            Some((decode_utf8(rest.take(n)), rest.skip(n)))
        }
    }
}

/// The recipe, target and profile of an index key, or `None` when the bytes
/// are not exactly three parts.
pub open spec fn parse_sled_key_spec(b: Seq<u8>) -> Option<(Seq<char>, Seq<char>, Seq<char>)> {
    match take_part(b) {
        None => None,
        Some((r, b1)) => match take_part(b1) {
            None => None,
            Some((t, b2)) => match take_part(b2) {
                None => None,
                Some((p, b3)) => if b3.len() == 0 {
                    Some((r, t, p))
                } else {
                    None
                },
            },
        },
    }
}

/// `String::from_utf8`: the text of `v` when it is valid UTF-8.
#[verifier::external_body]
fn string_from_utf8(v: Vec<u8>) -> (r: Option<String>)
    ensures
        match r {
            Some(s) => valid_utf8(v@) && s@ == decode_utf8(v@),
            None => !valid_utf8(v@),
        },
{
    String::from_utf8(v).ok()
}

/// Appends the eight big-endian bytes of `n`.
fn push_be64(out: &mut Vec<u8>, n: u64)
    ensures
        final(out)@ == old(out)@ + be64(n),
{
    out.push((n >> 56u64) as u8);
    out.push((n >> 48u64) as u8);
    out.push((n >> 40u64) as u8);
    out.push((n >> 32u64) as u8);
    out.push((n >> 24u64) as u8);
    out.push((n >> 16u64) as u8);
    out.push((n >> 8u64) as u8);
    out.push(n as u8);
    assert(final(out)@ =~= old(out)@ + be64(n));
}

/// Appends one key part.
fn push_part(out: &mut Vec<u8>, s: &str)
    ensures
        final(out)@ == old(out)@ + part_bytes(s@),
{
    let b = s.as_bytes();
    let len = b.len();
    push_be64(out, len as u64);
    let ghost mid = out@;
    let mut i: usize = 0;
    while i < len
        invariant
            i <= len,
            len == b@.len(),
            b@ == encode_utf8(s@),
            out@ == mid + b@.take(i as int),
        decreases len - i,
    {
        out.push(b[i]);
        assert(b@.take(i + 1) =~= b@.take(i as int).push(b@[i as int]));
        i += 1;
    }
    assert(b@.take(len as int) =~= b@);
    assert(final(out)@ =~= old(out)@ + part_bytes(s@));
}

/// The index key of a cache key: recipe, target and profile, each as its
/// byte length (eight bytes, big-endian) followed by its UTF-8 bytes.
pub fn sled_key(key: &CacheKey) -> (r: Vec<u8>)
    ensures
        r@ == sled_key_spec(key.recipe@, key.target@, key.profile@),
{
    let mut out: Vec<u8> = Vec::new();
    push_part(&mut out, key.recipe.as_str());
    push_part(&mut out, key.target.as_str());
    push_part(&mut out, key.profile.as_str());
    assert(out@ =~= sled_key_spec(key.recipe@, key.target@, key.profile@));
    out
}

/// Reads one part of an index key starting at `pos`.
fn read_part(b: &[u8], pos: usize) -> (r: Option<(String, usize)>)
    requires
        pos <= b@.len(),
    ensures
        match r {
            Some((s, next)) => pos <= next <= b@.len() && take_part(b@.skip(pos as int)) == Some(
                (s@, b@.skip(next as int)),
            ),
            None => take_part(b@.skip(pos as int)) is None,
        },
{
    let ghost rest0 = b@.skip(pos as int);
    if b.len() - pos < 8 {
        return None;
    }
    let n: u64 = ((b[pos] as u64) << 56u64) | ((b[pos + 1] as u64) << 48u64) | ((b[pos + 2] as u64)
        << 40u64) | ((b[pos + 3] as u64) << 32u64) | ((b[pos + 4] as u64) << 24u64) | ((b[pos
        + 5] as u64) << 16u64) | ((b[pos + 6] as u64) << 8u64) | (b[pos + 7] as u64);
    assert(n == from_be(rest0.take(8)));
    let len = n as usize;
    let start = pos + 8;
    assert(rest0.skip(8) =~= b@.skip(start as int));
    if b.len() - start < len {
        return None;
    }
    let bl = b.len();
    let mut part: Vec<u8> = Vec::new();
    let mut i: usize = 0;
    while i < len
        invariant
            i <= len,
            bl == b@.len(),
            start + len <= b@.len(),
            part@ == b@.subrange(start as int, start + i),
        decreases len - i,
    {
        part.push(b[start + i]);
        assert(b@.subrange(start as int, start + i + 1) =~= b@.subrange(start as int, start + i).push(
            b@[start + i],
        ));
        i += 1;
    }
    assert(part@ =~= b@.skip(start as int).take(len as int));
    assert(b@.skip(start as int).skip(len as int) =~= b@.skip(start + len));
    match string_from_utf8(part) {
        Some(s) => Some((s, start + len)),
        None => None,
    }
}

/// The recipe, target and profile of an index key, or `None` when the bytes
/// are not three well-formed parts with nothing after them.
pub fn parse_sled_key(bytes: &[u8]) -> (r: Option<(String, String, String)>)
    ensures
        match r {
            Some((a, b, c)) => parse_sled_key_spec(bytes@) == Some((a@, b@, c@)),
            None => parse_sled_key_spec(bytes@) is None,
        },
{
    assert(bytes@.skip(0) =~= bytes@);
    let (recipe, p1) = match read_part(bytes, 0) {
        Some(x) => x,
        None => {
            return None;
        },
    };
    let (target, p2) = match read_part(bytes, p1) {
        Some(x) => x,
        None => {
            return None;
        },
    };
    let (profile, p3) = match read_part(bytes, p2) {
        Some(x) => x,
        None => {
            return None;
        },
    };
    if p3 != bytes.len() {
        return None;
    }
    Some((recipe, target, profile))
}

/// Law: reading back the index key of a cache key gives its recipe, target
/// and profile.
#[verifier::rlimit(40)]
pub proof fn law_sled_key_roundtrip(recipe: Seq<char>, target: Seq<char>, profile: Seq<char>)
    requires
        encode_utf8(recipe).len() <= usize::MAX,
        encode_utf8(target).len() <= usize::MAX,
        encode_utf8(profile).len() <= usize::MAX,
    ensures
        parse_sled_key_spec(sled_key_spec(recipe, target, profile)) == Some((recipe, target, profile)),
{
    let rest2 = part_bytes(profile);
    let rest1 = part_bytes(target) + rest2;
    let whole = sled_key_spec(recipe, target, profile);
    assert(whole =~= part_bytes(recipe) + rest1);
    lemma_take_part(recipe, rest1);
    assert(take_part(whole) == Some((recipe, rest1)));
    lemma_take_part(target, rest2);
    assert(take_part(rest1) == Some((target, rest2)));
    assert(part_bytes(profile) + Seq::<u8>::empty() =~= part_bytes(profile));
    lemma_take_part(profile, seq![]);
    assert(take_part(rest2) == Some((profile, Seq::<u8>::empty())));
}

pub proof fn lemma_take_part(s: Seq<char>, tail: Seq<u8>)
    requires
        encode_utf8(s).len() <= usize::MAX,
    ensures
        take_part(part_bytes(s) + tail) == Some((s, tail)),
{
    let e = encode_utf8(s);
    let b = part_bytes(s) + tail;
    lemma_be64_roundtrip(e.len() as u64);
    assert(b.take(8) =~= be64(e.len() as u64));
    assert(b.skip(8) =~= e + tail);
    assert((e + tail).take(e.len() as int) =~= e);
    assert((e + tail).skip(e.len() as int) =~= tail);
    vstd::utf8::encode_utf8_valid_utf8(s);
    vstd::utf8::encode_utf8_decode_utf8(s);
}

/// The directory of a cached build: under the cache directory, a directory
/// named by the first two bytes of the hash, holding one named by the rest.
pub open spec fn entry_dir_spec(cache_dir: Seq<char>, hash: Seq<char>) -> Seq<char> {
    let b = encode_utf8(hash);
    let m = if b.len() < 2 {
        b.len() as int
    } else {
        2
    };
    join_path(join_path(cache_dir, decode_utf8(b.take(m))), decode_utf8(b.skip(m)))
}

/// The directory of a cached build.  The split after the second byte must
/// fall on a character boundary (it does for the hex hashes keys carry).
pub fn entry_dir(cache_dir: &str, key: &CacheKey) -> (r: String)
    requires
        encode_utf8(key.hash@).len() <= usize::MAX,
        vstd::utf8::is_char_boundary(
            encode_utf8(key.hash@),
            if encode_utf8(key.hash@).len() < 2 {
                encode_utf8(key.hash@).len() as int
            } else {
                2
            },
        ),
    ensures
        r@ == entry_dir_spec(cache_dir@, key.hash@),
{
    let h = key.hash.as_str();
    assert(h.spec_bytes() == encode_utf8(key.hash@));
    let n = h.len();
    let m: usize = if n < 2 {
        n
    } else {
        2
    };
    let (prefix, rest) = h.split_at(m);
    proof {
        let b = encode_utf8(key.hash@);
        assert(prefix.spec_bytes() =~= b.take(m as int));
        assert(rest.spec_bytes() =~= b.skip(m as int));
        vstd::utf8::encode_utf8_decode_utf8(prefix@);
        vstd::utf8::encode_utf8_decode_utf8(rest@);
        assert(prefix.spec_bytes() == encode_utf8(prefix@));
        assert(rest.spec_bytes() == encode_utf8(rest@));
    }
    let first = path_join(cache_dir, prefix);
    path_join(first.as_str(), rest)
}

/// The answer of a lookup, given the hash bytes the index holds for the
/// key's recipe, target and profile (if any), the key's hash and whether
/// its entry directory exists.
pub open spec fn lookup_spec(stored: Option<Seq<u8>>, hash: Seq<char>, entry_exists: bool) -> CacheLookup {
    match stored {
        None => CacheLookup::Miss,
        Some(s) => if s == encode_utf8(hash) && entry_exists {
            CacheLookup::Hit
        } else {
            CacheLookup::Stale
        },
    }
}

/// Law: after a store of a key (the index holding its hash, its entry
/// directory present), a lookup of the same key is a hit; a lookup of a
/// key with another hash is stale; with nothing stored it is a miss.
pub proof fn law_lookup_after_store(stored_hash: Seq<char>, hash: Seq<char>, entry_exists: bool)
    ensures
        lookup_spec(Some(encode_utf8(hash)), hash, true) == CacheLookup::Hit,
        stored_hash != hash ==> lookup_spec(Some(encode_utf8(stored_hash)), hash, entry_exists)
            == CacheLookup::Stale,
        lookup_spec(None, hash, entry_exists) == CacheLookup::Miss,
{
    if stored_hash != hash {
        vstd::utf8::encode_utf8_decode_utf8(stored_hash);
        vstd::utf8::encode_utf8_decode_utf8(hash);
    }
}

/// The answer of a lookup: `Miss` without an index entry; `Hit` when the
/// stored hash is the key's and its entry directory exists; `Stale`
/// otherwise.
pub fn lookup_decision(stored: Option<&[u8]>, hash: &str, entry_exists: bool) -> (r: CacheLookup)
    ensures
        r == lookup_spec(
            match stored {
                Some(s) => Some(s@),
                None => None,
            },
            hash@,
            entry_exists,
        ),
{
    match stored {
        None => CacheLookup::Miss,
        Some(s) => {
            let hb = hash.as_bytes();
            if bytes_eq(s, hb) && entry_exists {
                CacheLookup::Hit
            } else {
                CacheLookup::Stale
            }
        },
    }
}

/// Byte-wise equality.
fn bytes_eq(a: &[u8], b: &[u8]) -> (r: bool)
    ensures
        r == (a@ == b@),
{
    if a.len() != b.len() {
        return false;
    }
    let mut i: usize = 0;
    while i < a.len()
        invariant
            i <= a@.len(),
            a@.len() == b@.len(),
            forall|j: int| 0 <= j < i ==> a@[j] == b@[j],
        decreases a@.len() - i,
    {
        if a[i] != b[i] {
            return false;
        }
        i += 1;
    }
    assert(a@ =~= b@);
    true
}

/// The name under which each stored output is copied: its file name, or,
/// when an earlier output already used that file name, the first sixteen
/// digits of the hash of its path, `-` and the file name.
pub open spec fn dest_names_spec(files: Seq<(Seq<char>, Seq<char>)>) -> Seq<Seq<char>>
    decreases files.len(),
{
    if files.len() == 0 {
        seq![]
    } else {
        let prev = files.drop_last();
        let (path, name) = files.last();
        let used = exists|j: int| 0 <= j < prev.len() && #[trigger] prev[j].1 == name;
        dest_names_spec(prev).push(
            if used {
                hex_spec(sha256_spec(encode_utf8(path))).take(16) + "-"@ + name
            } else {
                name
            },
        )
    }
}

/// The names under which the outputs (path, file name) are copied into a
/// cache entry.
pub fn dest_names(files: &Vec<(String, String)>) -> (r: Vec<String>)
    ensures
        sv(r@) == dest_names_spec(files@.map_values(|e: (String, String)| (e.0@, e.1@))),
{
    let ghost fv = files@.map_values(|e: (String, String)| (e.0@, e.1@));
    let mut out: Vec<String> = Vec::new();
    let mut i: usize = 0;
    while i < files.len()
        invariant
            i <= files@.len(),
            fv == files@.map_values(|e: (String, String)| (e.0@, e.1@)),
            sv(out@) == dest_names_spec(fv.take(i as int)),
        decreases files@.len() - i,
    {
        let name = &files[i].1;
        let mut used = false;
        let mut j: usize = 0;
        while j < i
            invariant
                j <= i < files@.len(),
                fv == files@.map_values(|e: (String, String)| (e.0@, e.1@)),
                used == exists|q: int| 0 <= q < j && #[trigger] fv[q].1 == name@,
            decreases i - j,
        {
            assert(fv[j as int].1 == files@[j as int].1@);
            if str_eq(files[j].1.as_str(), name.as_str()) {
                used = true;
            }
            assert(used == exists|q: int| 0 <= q < j + 1 && #[trigger] fv[q].1 == name@) by {
                if exists|q: int| 0 <= q < j + 1 && #[trigger] fv[q].1 == name@ {
                    let q = choose|q: int| 0 <= q < j + 1 && #[trigger] fv[q].1 == name@;
                    if q < j {
                    }
                }
            }
            j += 1;
        }
        let ghost prev = fv.take(i as int);
        assert(fv.take(i + 1).drop_last() =~= prev);
        assert(fv.take(i + 1).last() == fv[i as int]);
        assert(used == exists|q: int| 0 <= q < prev.len() && #[trigger] prev[q].1 == name@) by {
            if used {
                let q = choose|q: int| 0 <= q < i && #[trigger] fv[q].1 == name@;
                assert(prev[q] == fv[q]);
            }
            if exists|q: int| 0 <= q < prev.len() && #[trigger] prev[q].1 == name@ {
                let q = choose|q: int| 0 <= q < prev.len() && #[trigger] prev[q].1 == name@;
                assert(prev[q] == fv[q]);
            }
        }
        let d = if used {
            let digest = hash_string(files[i].0.as_str());
            let dc = chars_of(digest.as_str());
            let mut v = slice_of(&dc, 0, 16);
            extend_str(&mut v, "-");
            extend_str(&mut v, name.as_str());
            string_of(&v)
        } else {
            name.clone()
        };
        let ghost before = out@;
        out.push(d);
        proof {
            crate::text::lemma_sv_push(before, d);
        }
        i += 1;
    }
    assert(fv.take(files@.len() as int) =~= fv);
    out
}

} // verus!
