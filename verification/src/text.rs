//! Character-level helpers over `Seq<char>` models of strings.
//!
//! Every function here works on the characters of a string and states its
//! result over a spec function on `Seq<char>`.

use vstd::prelude::*;

verus! {

// ---------------------------------------------------------------------------
// Specifications
// ---------------------------------------------------------------------------

/// Unicode `White_Space`, as `char::is_whitespace` classifies it.
pub open spec fn is_ws(c: char) -> bool {
    ||| c == ' '
    ||| ('\u{9}' <= c && c <= '\u{d}')
    ||| c == '\u{85}'
    ||| c == '\u{a0}'
    ||| c == '\u{1680}'
    ||| ('\u{2000}' <= c && c <= '\u{200a}')
    ||| c == '\u{2028}'
    ||| c == '\u{2029}'
    ||| c == '\u{202f}'
    ||| c == '\u{205f}'
    ||| c == '\u{3000}'
}

/// `s` with trailing whitespace removed.
pub open spec fn trim_end(s: Seq<char>) -> Seq<char>
    decreases s.len(),
{
    if s.len() > 0 && is_ws(s.last()) {
        trim_end(s.drop_last())
    } else {
        s
    }
}

/// `s` with leading whitespace removed.
pub open spec fn trim_start(s: Seq<char>) -> Seq<char>
    decreases s.len(),
{
    if s.len() > 0 && is_ws(s.first()) {
        trim_start(s.drop_first())
    } else {
        s
    }
}

/// `s` with whitespace removed from both ends.
pub open spec fn trim(s: Seq<char>) -> Seq<char> {
    trim_start(trim_end(s))
}

/// `s` with every leading and trailing `c` removed.
pub open spec fn trim_char(s: Seq<char>, c: char) -> Seq<char> {
    strip_start_char(strip_end_char(s, c), c)
}

pub open spec fn strip_end_char(s: Seq<char>, c: char) -> Seq<char>
    decreases s.len(),
{
    if s.len() > 0 && s.last() == c {
        strip_end_char(s.drop_last(), c)
    } else {
        s
    }
}

pub open spec fn strip_start_char(s: Seq<char>, c: char) -> Seq<char>
    decreases s.len(),
{
    if s.len() > 0 && s.first() == c {
        strip_start_char(s.drop_first(), c)
    } else {
        s
    }
}

/// `p` is a prefix of `s`.
pub open spec fn starts_with(s: Seq<char>, p: Seq<char>) -> bool {
    p.len() <= s.len() && s.take(p.len() as int) == p
}

/// `p` is a suffix of `s`.
pub open spec fn ends_with(s: Seq<char>, p: Seq<char>) -> bool {
    p.len() <= s.len() && s.skip(s.len() - p.len()) == p
}

/// `p` occurs in `s` at position `i`.
pub open spec fn occurs_at(s: Seq<char>, p: Seq<char>, i: int) -> bool {
    0 <= i && i + p.len() <= s.len() && s.subrange(i, i + p.len()) == p
}

/// Position of the first occurrence of `p` in `s` at or after `i`, or -1.
pub open spec fn find_from(s: Seq<char>, p: Seq<char>, i: int) -> int
    decreases s.len() + 1 - i,
{
    if i < 0 || i + p.len() > s.len() {
        -1
    } else if occurs_at(s, p, i) {
        i
    } else {
        find_from(s, p, i + 1)
    }
}

/// Position of the first occurrence of `p` in `s`, or -1 (`str::find`).
pub open spec fn find(s: Seq<char>, p: Seq<char>) -> int {
    find_from(s, p, 0)
}

/// `s` contains `p`.
pub open spec fn contains(s: Seq<char>, p: Seq<char>) -> bool {
    find(s, p) >= 0
}

/// `s` has the character `c`.
pub open spec fn has_char(s: Seq<char>, c: char) -> bool {
    exists|i: int| 0 <= i < s.len() && s[i] == c
}

/// Removes one trailing `'\r'`.
pub open spec fn strip_cr(s: Seq<char>) -> Seq<char> {
    if s.len() > 0 && s.last() == '\r' {
        s.drop_last()
    } else {
        s
    }
}

/// The lines of `s[i..]`, `cur` being the part of the current line already read
/// (`str::lines`: split at `'\n'`, drop a `'\r'` before it, no empty last line).
pub open spec fn lines_from(s: Seq<char>, i: int, cur: Seq<char>) -> Seq<Seq<char>>
    decreases s.len() - i,
{
    if i < 0 || i >= s.len() {
        if cur.len() > 0 {
            seq![cur]
        } else {
            seq![]
        }
    } else if s[i] == '\n' {
        seq![strip_cr(cur)] + lines_from(s, i + 1, seq![])
    } else {
        lines_from(s, i + 1, cur.push(s[i]))
    }
}

/// The lines of `s`.
pub open spec fn lines(s: Seq<char>) -> Seq<Seq<char>> {
    lines_from(s, 0, seq![])
}

/// The whitespace-separated words of `s[i..]`, `cur` being the word being read
/// (`str::split_whitespace`).
pub open spec fn words_from(s: Seq<char>, i: int, cur: Seq<char>) -> Seq<Seq<char>>
    decreases s.len() - i,
{
    if i < 0 || i >= s.len() {
        if cur.len() > 0 {
            seq![cur]
        } else {
            seq![]
        }
    } else if is_ws(s[i]) {
        if cur.len() > 0 {
            seq![cur] + words_from(s, i + 1, seq![])
        } else {
            words_from(s, i + 1, seq![])
        }
    } else {
        words_from(s, i + 1, cur.push(s[i]))
    }
}

/// The whitespace-separated words of `s`.
pub open spec fn words(s: Seq<char>) -> Seq<Seq<char>> {
    words_from(s, 0, seq![])
}

/// The pieces of `s[i..]` between occurrences of `sep` (`str::split` on a char).
pub open spec fn split_from(s: Seq<char>, sep: char, i: int, cur: Seq<char>) -> Seq<Seq<char>>
    decreases s.len() - i,
{
    if i < 0 || i >= s.len() {
        seq![cur]
    } else if s[i] == sep {
        seq![cur] + split_from(s, sep, i + 1, seq![])
    } else {
        split_from(s, sep, i + 1, cur.push(s[i]))
    }
}

/// The pieces of `s` between occurrences of `sep`.
pub open spec fn split(s: Seq<char>, sep: char) -> Seq<Seq<char>> {
    split_from(s, sep, 0, seq![])
}

/// The parts joined with `sep` between them (`[..].join(sep)`).
pub open spec fn join(parts: Seq<Seq<char>>, sep: Seq<char>) -> Seq<char>
    decreases parts.len(),
{
    if parts.len() == 0 {
        seq![]
    } else if parts.len() == 1 {
        parts[0]
    } else {
        join(parts.drop_last(), sep) + sep + parts.last()
    }
}

/// Escapes `\` and `"` with a backslash, as in a TOML basic string.
pub open spec fn escape(s: Seq<char>) -> Seq<char>
    decreases s.len(),
{
    if s.len() == 0 {
        seq![]
    } else {
        escape(s.drop_last()) + escape_char(s.last())
    }
}

pub open spec fn escape_char(c: char) -> Seq<char> {
    if c == '\\' {
        seq!['\\', '\\']
    } else if c == '"' {
        seq!['\\', '"']
    } else {
        seq![c]
    }
}

/// The decimal digits of `n`.
pub open spec fn decimal(n: nat) -> Seq<char>
    decreases n,
{
    if n < 10 {
        seq![digit(n)]
    } else {
        decimal(n / 10) + seq![digit(n % 10)]
    }
}

pub open spec fn digit(d: nat) -> char {
    if d == 0 { '0' }
    else if d == 1 { '1' }
    else if d == 2 { '2' }
    else if d == 3 { '3' }
    else if d == 4 { '4' }
    else if d == 5 { '5' }
    else if d == 6 { '6' }
    else if d == 7 { '7' }
    else if d == 8 { '8' }
    else { '9' }
}

/// Lexicographic order on character sequences (the order of `str`'s `Ord`).
pub open spec fn lt(a: Seq<char>, b: Seq<char>) -> bool
    decreases a.len(),
{
    if a.len() == 0 {
        b.len() > 0
    } else if b.len() == 0 {
        false
    } else if a[0] != b[0] {
        a[0] < b[0]
    } else {
        lt(a.drop_first(), b.drop_first())
    }
}

/// The character sequences of a vector of character vectors.
pub open spec fn vv(v: Seq<Vec<char>>) -> Seq<Seq<char>> {
    v.map_values(|x: Vec<char>| x@)
}

/// The character sequences of a vector of strings.
pub open spec fn sv(v: Seq<String>) -> Seq<Seq<char>> {
    v.map_values(|x: String| x@)
}

/// Splitting always gives at least one piece.
pub proof fn lemma_split_from_nonempty(s: Seq<char>, sep: char, i: int, cur: Seq<char>)
    ensures
        split_from(s, sep, i, cur).len() >= 1,
    decreases s.len() - i,
{
    if 0 <= i < s.len() {
        if s[i] == sep {
            lemma_split_from_nonempty(s, sep, i + 1, seq![]);
        } else {
            lemma_split_from_nonempty(s, sep, i + 1, cur.push(s[i]));
        }
    }
}

/// Splitting always gives at least one piece.
pub proof fn lemma_split_nonempty(s: Seq<char>, sep: char)
    ensures
        split(s, sep).len() >= 1,
{
    lemma_split_from_nonempty(s, sep, 0, seq![]);
}

pub proof fn lemma_vv_push(v: Seq<Vec<char>>, x: Vec<char>)
    ensures
        vv(v.push(x)) == vv(v).push(x@),
{
    assert(vv(v.push(x)) =~= vv(v).push(x@));
}

pub proof fn lemma_sv_push(v: Seq<String>, x: String)
    ensures
        sv(v.push(x)) == sv(v).push(x@),
{
    assert(sv(v.push(x)) =~= sv(v).push(x@));
}

// ---------------------------------------------------------------------------
// Executable helpers
// ---------------------------------------------------------------------------

/// Appends one character to a string (`String::push`).
#[verifier::external_body]
pub(crate) fn push_char(s: &mut String, c: char)
    ensures
        final(s)@ == old(s)@.push(c),
{
    s.push(c);
}

/// The characters of `s`, in order.
pub fn chars_of(s: &str) -> (v: Vec<char>)
    ensures
        v@ == s@,
{
    let mut v: Vec<char> = Vec::new();
    for c in it: s.chars()
        invariant
            v@ == it.seq().take(it.index() as int),
    {
        v.push(c);
    }
    v
}

/// A string made of the characters `v`.
pub fn string_of(v: &[char]) -> (s: String)
    ensures
        s@ == v@,
{
    let mut s = String::new();
    let mut i: usize = 0;
    while i < v.len()
        invariant
            i <= v.len(),
            s@ == v@.take(i as int),
        decreases v.len() - i,
    {
        push_char(&mut s, v[i]);
        assert(v@.take(i + 1) == v@.take(i as int).push(v@[i as int]));
        i += 1;
    }
    assert(v@.take(v.len() as int) == v@);
    s
}

/// `v[i..j]` as a new vector.
pub fn slice_of(v: &[char], i: usize, j: usize) -> (r: Vec<char>)
    requires
        i <= j <= v.len(),
    ensures
        r@ == v@.subrange(i as int, j as int),
{
    let mut r: Vec<char> = Vec::new();
    let mut k = i;
    while k < j
        invariant
            i <= k <= j <= v.len(),
            r@ == v@.subrange(i as int, k as int),
        decreases j - k,
    {
        r.push(v[k]);
        assert(v@.subrange(i as int, k + 1) == v@.subrange(i as int, k as int).push(v@[k as int]));
        k += 1;
    }
    r
}

/// Appends the characters `w` to `v`.
pub fn extend(v: &mut Vec<char>, w: &[char])
    ensures
        final(v)@ == old(v)@ + w@,
{
    let mut k: usize = 0;
    while k < w.len()
        invariant
            k <= w.len(),
            v@ == old(v)@ + w@.take(k as int),
        decreases w.len() - k,
    {
        v.push(w[k]);
        assert(w@.take(k + 1) == w@.take(k as int).push(w@[k as int]));
        k += 1;
    }
    assert(w@.take(w.len() as int) == w@);
}

/// Appends the characters of `w` to `v`.
pub fn extend_str(v: &mut Vec<char>, w: &str)
    ensures
        final(v)@ == old(v)@ + w@,
{
    let c = chars_of(w);
    extend(v, &c);
}

/// `char::is_whitespace`.
pub fn is_whitespace(c: char) -> (b: bool)
    ensures
        b == is_ws(c),
{
    c == ' ' || ('\u{9}' <= c && c <= '\u{d}') || c == '\u{85}' || c == '\u{a0}' || c
        == '\u{1680}' || ('\u{2000}' <= c && c <= '\u{200a}') || c == '\u{2028}' || c
        == '\u{2029}' || c == '\u{202f}' || c == '\u{205f}' || c == '\u{3000}'
}

/// `s` with trailing whitespace removed.
pub fn trim_end_chars(s: &[char]) -> (r: Vec<char>)
    ensures
        r@ == trim_end(s@),
{
    let mut j = s.len();
    assert(s@.take(j as int) == s@);
    while j > 0 && is_whitespace(s[j - 1])
        invariant
            j <= s.len(),
            trim_end(s@) == trim_end(s@.take(j as int)),
        decreases j,
    {
        assert(s@.take(j as int).drop_last() == s@.take(j - 1));
        j -= 1;
    }
    slice_of(s, 0, j)
}

/// `s` with leading whitespace removed.
pub fn trim_start_chars(s: &[char]) -> (r: Vec<char>)
    ensures
        r@ == trim_start(s@),
{
    let mut i: usize = 0;
    assert(s@.skip(0) == s@);
    while i < s.len() && is_whitespace(s[i])
        invariant
            i <= s.len(),
            trim_start(s@) == trim_start(s@.skip(i as int)),
        decreases s.len() - i,
    {
        assert(s@.skip(i as int).drop_first() == s@.skip(i + 1));
        i += 1;
    }
    assert(s@.skip(i as int) == s@.subrange(i as int, s.len() as int));
    slice_of(s, i, s.len())
}

/// `s` with whitespace removed from both ends.
pub fn trim_chars(s: &[char]) -> (r: Vec<char>)
    ensures
        r@ == trim(s@),
{
    let e = trim_end_chars(s);
    trim_start_chars(&e)
}

/// `s` with every leading and trailing `c` removed (`trim_matches(c)`).
pub fn trim_char_chars(s: &[char], c: char) -> (r: Vec<char>)
    ensures
        r@ == trim_char(s@, c),
{
    let mut j = s.len();
    assert(s@.take(j as int) == s@);
    while j > 0 && s[j - 1] == c
        invariant
            j <= s.len(),
            strip_end_char(s@, c) == strip_end_char(s@.take(j as int), c),
        decreases j,
    {
        assert(s@.take(j as int).drop_last() == s@.take(j - 1));
        j -= 1;
    }
    let e = slice_of(s, 0, j);
    let mut i: usize = 0;
    assert(e@.skip(0) == e@);
    while i < e.len() && e[i] == c
        invariant
            i <= e.len(),
            e@ == strip_end_char(s@, c),
            strip_start_char(e@, c) == strip_start_char(e@.skip(i as int), c),
        decreases e.len() - i,
    {
        assert(e@.skip(i as int).drop_first() == e@.skip(i + 1));
        i += 1;
    }
    assert(e@.skip(i as int) == e@.subrange(i as int, e.len() as int));
    slice_of(&e, i, e.len())
}

/// `p` is a prefix of `s`.
pub fn has_prefix(s: &[char], p: &[char]) -> (b: bool)
    ensures
        b == starts_with(s@, p@),
{
    if p.len() > s.len() {
        return false;
    }
    let mut k: usize = 0;
    while k < p.len()
        invariant
            p.len() <= s.len(),
            k <= p.len(),
            forall|m: int| 0 <= m < k ==> s@[m] == p@[m],
        decreases p.len() - k,
    {
        if s[k] != p[k] {
            assert(s@.take(p.len() as int)[k as int] != p@[k as int]);
            return false;
        }
        k += 1;
    }
    assert(s@.take(p.len() as int) =~= p@);
    true
}

/// `p` is a prefix of `s`, `p` given as a string.
pub fn has_prefix_str(s: &[char], p: &str) -> (b: bool)
    ensures
        b == starts_with(s@, p@),
{
    let pc = chars_of(p);
    has_prefix(s, &pc)
}

/// `p` occurs in `s` at position `i`.
pub fn matches_at(s: &[char], p: &[char], i: usize) -> (b: bool)
    ensures
        b == occurs_at(s@, p@, i as int),
{
    if i > s.len() || p.len() > s.len() - i {
        return false;
    }
    let mut k: usize = 0;
    while k < p.len()
        invariant
            i + p.len() <= s.len(),
            k <= p.len(),
            forall|m: int| 0 <= m < k ==> s@[i + m] == p@[m],
        decreases p.len() - k,
    {
        if s[i + k] != p[k] {
            assert(s@.subrange(i as int, i + p.len())[k as int] != p@[k as int]);
            return false;
        }
        k += 1;
    }
    assert(s@.subrange(i as int, i + p.len()) =~= p@);
    true
}

/// Position of the first occurrence of `p` in `s` (`str::find`).
pub fn find_sub(s: &[char], p: &[char]) -> (r: Option<usize>)
    ensures
        match r {
            Some(i) => find(s@, p@) == i && i + p.len() <= s.len(),
            None => find(s@, p@) == -1,
        },
{
    let mut i: usize = 0;
    loop
        invariant
            i <= s.len(),
            find(s@, p@) == find_from(s@, p@, i as int),
        decreases s.len() - i,
    {
        if p.len() > s.len() - i {
            return None;
        }
        if matches_at(s, p, i) {
            return Some(i);
        }
        if i >= s.len() {
            assert(s@.subrange(i as int, i as int) =~= p@);
            return None;
        }
        i += 1;
    }
}

/// Position of the first occurrence of the character `c` in `s`.
pub fn find_char(s: &[char], c: char) -> (r: Option<usize>)
    ensures
        match r {
            Some(i) => find(s@, seq![c]) == i && i < s.len() && s@[i as int] == c,
            None => find(s@, seq![c]) == -1 && !has_char(s@, c),
        },
{
    let mut i: usize = 0;
    while i < s.len()
        invariant
            i <= s.len(),
            find(s@, seq![c]) == find_from(s@, seq![c], i as int),
            forall|m: int| 0 <= m < i ==> s@[m] != c,
        decreases s.len() - i,
    {
        assert(occurs_at(s@, seq![c], i as int) <==> s@[i as int] == c) by {
            if s@[i as int] == c {
                assert(s@.subrange(i as int, i + 1) =~= seq![c]);
            }
            if occurs_at(s@, seq![c], i as int) {
                assert(s@.subrange(i as int, i + 1)[0] == s@[i as int]);
            }
        }
        if s[i] == c {
            return Some(i);
        }
        i += 1;
    }
    None
}

/// `s` has the character `c`.
pub fn has_char_exec(s: &[char], c: char) -> (b: bool)
    ensures
        b == has_char(s@, c),
{
    match find_char(s, c) {
        Some(_) => true,
        None => false,
    }
}

/// The lines of `s` (`str::lines`).
pub fn split_lines(s: &[char]) -> (r: Vec<Vec<char>>)
    ensures
        vv(r@) == lines(s@),
{
    let mut out: Vec<Vec<char>> = Vec::new();
    let mut cur: Vec<char> = Vec::new();
    let mut i: usize = 0;
    while i < s.len()
        invariant
            i <= s.len(),
            vv(out@) + lines_from(s@, i as int, cur@) == lines(s@),
        decreases s.len() - i,
    {
        if s[i] == '\n' {
            let ghost old_out = vv(out@);
            let mut line = cur;
            if line.len() > 0 && line[line.len() - 1] == '\r' {
                line.pop();
            }
            out.push(line);
            assert(vv(out@) =~= old_out.push(strip_cr(cur@)));
            assert(old_out + (seq![strip_cr(cur@)] + lines_from(s@, i + 1, seq![])) == old_out.push(
                strip_cr(cur@),
            ) + lines_from(s@, i + 1, seq![]));
            cur = Vec::new();
        } else {
            cur.push(s[i]);
        }
        i += 1;
    }
    if cur.len() > 0 {
        let ghost old_out = vv(out@);
        out.push(cur);
        assert(vv(out@) =~= old_out.push(cur@));
    }
    assert(vv(out@) =~= lines(s@));
    out
}

/// The whitespace-separated words of `s` (`str::split_whitespace`).
pub fn split_words(s: &[char]) -> (r: Vec<Vec<char>>)
    ensures
        vv(r@) == words(s@),
{
    let mut out: Vec<Vec<char>> = Vec::new();
    let mut cur: Vec<char> = Vec::new();
    let mut i: usize = 0;
    while i < s.len()
        invariant
            i <= s.len(),
            vv(out@) + words_from(s@, i as int, cur@) == words(s@),
        decreases s.len() - i,
    {
        if is_whitespace(s[i]) {
            if cur.len() == 0 {
                assert(cur@ =~= seq![]);
            }
            if cur.len() > 0 {
                let ghost old_out = vv(out@);
                let ghost c = cur@;
                out.push(cur);
                assert(vv(out@) =~= old_out.push(c));
                assert(old_out + (seq![c] + words_from(s@, i + 1, seq![])) == old_out.push(c)
                    + words_from(s@, i + 1, seq![]));
                cur = Vec::new();
            }
        } else {
            cur.push(s[i]);
        }
        i += 1;
    }
    if cur.len() > 0 {
        let ghost old_out = vv(out@);
        let ghost c = cur@;
        out.push(cur);
        assert(vv(out@) =~= old_out.push(c));
    }
    assert(vv(out@) =~= words(s@));
    out
}

/// The pieces of `s` between occurrences of `sep` (`str::split`).
pub fn split_on(s: &[char], sep: char) -> (r: Vec<Vec<char>>)
    ensures
        vv(r@) == split(s@, sep),
{
    let mut out: Vec<Vec<char>> = Vec::new();
    let mut cur: Vec<char> = Vec::new();
    let mut i: usize = 0;
    while i < s.len()
        invariant
            i <= s.len(),
            vv(out@) + split_from(s@, sep, i as int, cur@) == split(s@, sep),
        decreases s.len() - i,
    {
        if s[i] == sep {
            let ghost old_out = vv(out@);
            let ghost c = cur@;
            out.push(cur);
            assert(vv(out@) =~= old_out.push(c));
            assert(old_out + (seq![c] + split_from(s@, sep, i + 1, seq![])) == old_out.push(c)
                + split_from(s@, sep, i + 1, seq![]));
            cur = Vec::new();
        } else {
            cur.push(s[i]);
        }
        i += 1;
    }
    let ghost old_out = vv(out@);
    let ghost c = cur@;
    out.push(cur);
    assert(vv(out@) =~= old_out.push(c));
    assert(vv(out@) =~= split(s@, sep));
    out
}

/// The parts joined with `sep` between them.
pub fn join_chars(parts: &Vec<Vec<char>>, sep: &[char]) -> (r: Vec<char>)
    ensures
        r@ == join(vv(parts@), sep@),
{
    let mut out: Vec<char> = Vec::new();
    let mut i: usize = 0;
    while i < parts.len()
        invariant
            i <= parts.len(),
            out@ == join(vv(parts@).take(i as int), sep@),
        decreases parts.len() - i,
    {
        let ghost pv = vv(parts@);
        assert(pv.take(i + 1).drop_last() == pv.take(i as int));
        if i > 0 {
            extend(&mut out, sep);
        }
        extend(&mut out, &parts[i]);
        i += 1;
    }
    assert(vv(parts@).take(parts.len() as int) == vv(parts@));
    out
}

/// The strings joined with `sep` between them.
pub fn join_strings(parts: &Vec<String>, sep: &str) -> (r: String)
    ensures
        r@ == join(sv(parts@), sep@),
{
    let mut cs: Vec<Vec<char>> = Vec::new();
    let mut i: usize = 0;
    while i < parts.len()
        invariant
            i <= parts.len(),
            vv(cs@) == sv(parts@).take(i as int),
        decreases parts.len() - i,
    {
        let ghost old_cs = vv(cs@);
        let c = chars_of(parts[i].as_str());
        assert(c@ == sv(parts@)[i as int]);
        let ghost prev = cs@;
        cs.push(c);
        proof {
            lemma_vv_push(prev, c);
        }
        assert(vv(cs@) =~= sv(parts@).take(i + 1));
        i += 1;
    }
    assert(sv(parts@).take(parts.len() as int) == sv(parts@));
    let sc = chars_of(sep);
    let j = join_chars(&cs, &sc);
    string_of(&j)
}

/// Escapes `\` and `"` with a backslash.
pub fn escape_chars(s: &[char]) -> (r: Vec<char>)
    ensures
        r@ == escape(s@),
{
    let mut out: Vec<char> = Vec::new();
    let mut i: usize = 0;
    while i < s.len()
        invariant
            i <= s.len(),
            out@ == escape(s@.take(i as int)),
        decreases s.len() - i,
    {
        assert(s@.take(i + 1).drop_last() == s@.take(i as int));
        let c = s[i];
        if c == '\\' {
            out.push('\\');
            out.push('\\');
        } else if c == '"' {
            out.push('\\');
            out.push('"');
        } else {
            out.push(c);
        }
        assert(out@ =~= escape(s@.take(i as int)) + escape_char(c));
        i += 1;
    }
    assert(s@.take(s.len() as int) == s@);
    out
}

/// The decimal representation of `n`.
pub fn decimal_chars(n: usize) -> (r: Vec<char>)
    ensures
        r@ == decimal(n as nat),
    decreases n,
{
    let d = n % 10;
    let c = if d == 0 { '0' } else if d == 1 { '1' } else if d == 2 { '2' } else if d == 3 {
        '3'
    } else if d == 4 { '4' } else if d == 5 { '5' } else if d == 6 { '6' } else if d == 7 {
        '7'
    } else if d == 8 { '8' } else { '9' };
    if n < 10 {
        let mut r = Vec::new();
        r.push(c);
        assert(r@ =~= decimal(n as nat));
        r
    } else {
        let mut r = decimal_chars(n / 10);
        r.push(c);
        r
    }
}

/// `a` comes strictly before `b` in lexicographic order.
pub fn less_than(a: &[char], b: &[char]) -> (r: bool)
    ensures
        r == lt(a@, b@),
{
    let mut i: usize = 0;
    assert(a@.skip(0) == a@);
    assert(b@.skip(0) == b@);
    while i < a.len() && i < b.len() && a[i] == b[i]
        invariant
            i <= a.len(),
            i <= b.len(),
            lt(a@, b@) == lt(a@.skip(i as int), b@.skip(i as int)),
        decreases a.len() - i,
    {
        assert(a@.skip(i as int).drop_first() == a@.skip(i + 1));
        assert(b@.skip(i as int).drop_first() == b@.skip(i + 1));
        i += 1;
    }
    if i == a.len() {
        i < b.len()
    } else if i == b.len() {
        false
    } else {
        a[i] < b[i]
    }
}

/// Two character sequences are equal.
pub fn chars_eq(a: &[char], b: &[char]) -> (r: bool)
    ensures
        r == (a@ == b@),
{
    if a.len() != b.len() {
        return false;
    }
    let mut i: usize = 0;
    while i < a.len()
        invariant
            a.len() == b.len(),
            i <= a.len(),
            forall|m: int| 0 <= m < i ==> a@[m] == b@[m],
        decreases a.len() - i,
    {
        if a[i] != b[i] {
            return false;
        }
        i += 1;
    }
    assert(a@ =~= b@);
    true
}

/// Two strings are equal.
pub fn str_eq(a: &str, b: &str) -> (r: bool)
    ensures
        r == (a@ == b@),
{
    let ac = chars_of(a);
    let bc = chars_of(b);
    chars_eq(&ac, &bc)
}

/// A string in the vector equals `s`.
pub fn vec_contains(v: &Vec<String>, s: &str) -> (r: bool)
    ensures
        r == sv(v@).contains(s@),
{
    let mut i: usize = 0;
    while i < v.len()
        invariant
            i <= v.len(),
            forall|m: int| 0 <= m < i ==> v@[m]@ != s@,
        decreases v.len() - i,
    {
        if str_eq(v[i].as_str(), s) {
            assert(sv(v@)[i as int] == s@);
            return true;
        }
        i += 1;
    }
    assert(!sv(v@).contains(s@)) by {
        if sv(v@).contains(s@) {
            let k = choose|k: int| 0 <= k < sv(v@).len() && sv(v@)[k] == s@;
            assert(v@[k]@ == s@);
        }
    }
    false
}

/// Strings made of each character vector.
pub fn strings_of(v: &Vec<Vec<char>>) -> (r: Vec<String>)
    ensures
        sv(r@) == vv(v@),
{
    let mut out: Vec<String> = Vec::new();
    let mut i: usize = 0;
    while i < v.len()
        invariant
            i <= v.len(),
            sv(out@) == vv(v@).take(i as int),
        decreases v.len() - i,
    {
        let st = string_of(&v[i]);
        assert(st@ == vv(v@)[i as int]);
        let ghost prev = out@;
        out.push(st);
        proof {
            lemma_sv_push(prev, st);
        }
        assert(sv(out@) =~= vv(v@).take(i + 1));
        i += 1;
    }
    assert(vv(v@).take(v.len() as int) == vv(v@));
    out
}

/// A copy of a vector of strings.
pub fn clone_strings(v: &Vec<String>) -> (r: Vec<String>)
    ensures
        sv(r@) == sv(v@),
{
    let mut out: Vec<String> = Vec::new();
    let mut i: usize = 0;
    while i < v.len()
        invariant
            i <= v.len(),
            sv(out@) == sv(v@).take(i as int),
        decreases v.len() - i,
    {
        let st = v[i].clone();
        let ghost prev = out@;
        out.push(st);
        proof {
            lemma_sv_push(prev, st);
        }
        assert(sv(out@) =~= sv(v@).take(i + 1));
        i += 1;
    }
    assert(sv(v@).take(v.len() as int) == sv(v@));
    out
}

/// A string made of the given string followed by the characters `w`.
pub fn concat_chars(a: &str, w: &[char]) -> (r: String)
    ensures
        r@ == a@ + w@,
{
    let mut v = chars_of(a);
    extend(&mut v, w);
    string_of(&v)
}

/// `p` is a suffix of `s`.
pub fn has_suffix(s: &[char], p: &[char]) -> (b: bool)
    ensures
        b == ends_with(s@, p@),
{
    if p.len() > s.len() {
        return false;
    }
    let off = s.len() - p.len();
    let mut k: usize = 0;
    while k < p.len()
        invariant
            p.len() <= s.len(),
            off == s.len() - p.len(),
            k <= p.len(),
            forall|m: int| 0 <= m < k ==> s@[off + m] == p@[m],
        decreases p.len() - k,
    {
        if s[off + k] != p[k] {
            assert(s@.skip(off as int)[k as int] != p@[k as int]);
            return false;
        }
        k += 1;
    }
    assert(s@.skip(off as int) =~= p@);
    true
}

/// `p` is a suffix of `s`, `p` given as a string.
pub fn has_suffix_str(s: &[char], p: &str) -> (b: bool)
    ensures
        b == ends_with(s@, p@),
{
    let pc = chars_of(p);
    has_suffix(s, &pc)
}

/// `trim_end` keeps a prefix that does not end in whitespace.
pub proof fn lemma_trim_end_prefix(s: Seq<char>) -> (m: int)
    ensures
        0 <= m <= s.len(),
        trim_end(s) == s.take(m),
        m > 0 ==> !is_ws(s[m - 1]),
    decreases s.len(),
{
    if s.len() > 0 && is_ws(s.last()) {
        let m = lemma_trim_end_prefix(s.drop_last());
        assert(s.drop_last().take(m) =~= s.take(m));
        m
    } else {
        assert(s.take(s.len() as int) =~= s);
        s.len() as int
    }
}

/// `trim_start` keeps a suffix that does not start with whitespace.
pub proof fn lemma_trim_start_suffix(s: Seq<char>) -> (n: int)
    ensures
        0 <= n <= s.len(),
        trim_start(s) == s.skip(n),
        n < s.len() ==> !is_ws(s[n]),
    decreases s.len(),
{
    if s.len() > 0 && is_ws(s.first()) {
        let n = lemma_trim_start_suffix(s.drop_first());
        assert(s.drop_first().skip(n) =~= s.skip(n + 1));
        n + 1
    } else {
        assert(s.skip(0) =~= s);
        0
    }
}

/// A trimmed text neither starts nor ends with whitespace, and holds no
/// character that the text did not hold.
pub proof fn lemma_trim_clean(s: Seq<char>, c: char)
    ensures
        trim(s).len() > 0 ==> !is_ws(trim(s)[0]) && !is_ws(trim(s).last()),
        !has_char(s, c) ==> !has_char(trim(s), c),
{
    let m = lemma_trim_end_prefix(s);
    let n = lemma_trim_start_suffix(s.take(m));
    let t = trim(s);
    assert(t == s.take(m).skip(n));
    if t.len() > 0 {
        assert(t[0] == s[n]);
        assert(t.last() == s[m - 1]);
    }
    if has_char(t, c) {
        let i = choose|i: int| 0 <= i < t.len() && t[i] == c;
        assert(s[n + i] == c);
    }
}

/// Removing quotes from a text that holds none leaves it as it is.
pub proof fn lemma_trim_char_absent(s: Seq<char>, c: char)
    requires
        !has_char(s, c),
    ensures
        trim_char(s, c) == s,
{
    if s.len() > 0 {
        assert(s[s.len() - 1] != c);
        assert(s[0] != c);
    }
}

/// No piece of a split holds a character that neither the pending piece
/// nor the text holds, and none holds the separator.
pub proof fn lemma_split_from_absent(s: Seq<char>, sep: char, i: int, cur: Seq<char>, c: char)
    requires
        !has_char(cur, c),
        c == sep || !has_char(s, c),
    ensures
        forall|k: int| 0 <= k < split_from(s, sep, i, cur).len() ==> !has_char(#[trigger] split_from(s, sep, i, cur)[k], c),
    decreases s.len() - i,
{
    if 0 <= i < s.len() {
        if s[i] == sep {
            let e = Seq::<char>::empty();
            lemma_split_from_absent(s, sep, i + 1, e, c);
            let r = split_from(s, sep, i + 1, e);
            assert(split_from(s, sep, i, cur) == seq![cur] + r);
            assert forall|k: int| 0 <= k < split_from(s, sep, i, cur).len() implies !has_char(#[trigger] split_from(s, sep, i, cur)[k], c) by {
                if k > 0 {
                    assert(split_from(s, sep, i, cur)[k] == r[k - 1]);
                } else {
                    assert(split_from(s, sep, i, cur)[k] == cur);
                }
            }
        } else {
            assert(s[i] != c);
            let nc = cur.push(s[i]);
            assert(!has_char(nc, c)) by {
                if has_char(nc, c) {
                    let q = choose|q: int| 0 <= q < nc.len() && nc[q] == c;
                    if q < cur.len() {
                        assert(cur[q] == c);
                    }
                }
            }
            lemma_split_from_absent(s, sep, i + 1, nc, c);
            assert(split_from(s, sep, i, cur) == split_from(s, sep, i + 1, nc));
        }
    } else {
        assert(split_from(s, sep, i, cur) == seq![cur]);
        assert forall|k: int| 0 <= k < split_from(s, sep, i, cur).len() implies !has_char(#[trigger] split_from(s, sep, i, cur)[k], c) by {
            assert(split_from(s, sep, i, cur)[k] == cur);
        }
    }
}

} // verus!
