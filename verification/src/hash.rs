//! Cache-key hashing: the bytes that identify a recipe build, digested with
//! SHA-256 and written as lowercase hex.

use vstd::prelude::*;
use vstd::utf8::encode_utf8;
use sha2::Digest;
use crate::map::OrdMap;
use crate::paths::{path_key, path_key_of};
use crate::text::{less_than, lt};

verus! {

/// The SHA-256 digest of `data`.
pub uninterp spec fn sha256_spec(data: Seq<u8>) -> Seq<u8>;

/// `sha2::Sha256::digest`: the 32-byte SHA-256 digest of `data`.  The
/// contract names the digest and states its documented length.
#[verifier::external_body]
fn sha256(data: &[u8]) -> (r: Vec<u8>)
    ensures
        r@ == sha256_spec(data@),
        r@.len() == 32,
{
    sha2::Sha256::digest(data).to_vec()
}

/// The lowercase hex digit of `d` (`0 <= d < 16`).
pub open spec fn hex_digit(d: int) -> char {
    if d < 10 {
        (48 + d) as char
    } else {
        (87 + d) as char
    }
}

/// The lowercase hex text of `b`, two digits per byte, high nibble first.
pub open spec fn hex_spec(b: Seq<u8>) -> Seq<char>
    decreases b.len(),
{
    if b.len() == 0 {
        seq![]
    } else {
        hex_spec(b.drop_last()) + seq![hex_digit(b.last() as int / 16), hex_digit(b.last() as int % 16)]
    }
}

/// `hex::encode`: the bytes as lowercase hex, two characters per byte, high
/// nibble first, as the crate documents.
#[verifier::external_body]
fn hex_encode(data: &[u8]) -> (r: String)
    ensures
        r@ == hex_spec(data@),
{
    hex::encode(data)
}

pub proof fn lemma_hex_len(b: Seq<u8>)
    ensures
        hex_spec(b).len() == 2 * b.len(),
    decreases b.len(),
{
    if b.len() > 0 {
        lemma_hex_len(b.drop_last());
    }
}

/// `key=value\0` for each pair, in order.
pub open spec fn pairs_bytes(m: Seq<(Seq<char>, Seq<char>)>) -> Seq<u8>
    decreases m.len(),
{
    if m.len() == 0 {
        seq![]
    } else {
        pairs_bytes(m.drop_last()) + encode_utf8(m.last().0) + seq![61u8] + encode_utf8(m.last().1)
            + seq![0u8]
    }
}

/// For each input file, its path, `\0`, then the digest of its contents, or
/// `<missing>\0` when it could not be read.
pub open spec fn inputs_bytes(inputs: Seq<(Seq<char>, Option<Seq<u8>>)>) -> Seq<u8>
    decreases inputs.len(),
{
    if inputs.len() == 0 {
        seq![]
    } else {
        inputs_bytes(inputs.drop_last()) + encode_utf8(inputs.last().0) + seq![0u8] + match inputs.last().1 {
            Some(c) => sha256_spec(c),
            None => encode_utf8("<missing>"@) + seq![0u8],
        }
    }
}

/// `x` placed into `s` before the first entry whose path comes after its
/// own (see `path_key`), so that entries with paths that compare equal
/// keep their order.
pub open spec fn insert_input(
    s: Seq<(Seq<char>, Option<Seq<u8>>)>,
    x: (Seq<char>, Option<Seq<u8>>),
) -> Seq<(Seq<char>, Option<Seq<u8>>)>
    decreases s.len(),
{
    if s.len() == 0 {
        seq![x]
    } else if lt(path_key(x.0), path_key(s[0].0)) {
        seq![x] + s
    } else {
        seq![s[0]] + insert_input(s.drop_first(), x)
    }
}

/// The input files in path order, those whose paths compare equal in the
/// order given (a stable sort).
pub open spec fn sort_inputs(s: Seq<(Seq<char>, Option<Seq<u8>>)>) -> Seq<(Seq<char>, Option<Seq<u8>>)>
    decreases s.len(),
{
    if s.len() == 0 {
        seq![]
    } else {
        insert_input(sort_inputs(s.drop_last()), s.last())
    }
}

/// Inserting before the first entry that comes after `x` is `insert_input`.
proof fn lemma_insert_input_at(
    s: Seq<(Seq<char>, Option<Seq<u8>>)>,
    x: (Seq<char>, Option<Seq<u8>>),
    p: int,
)
    requires
        0 <= p <= s.len(),
        forall|q: int| 0 <= q < p ==> !lt(path_key(x.0), path_key(#[trigger] s[q].0)),
        p < s.len() ==> lt(path_key(x.0), path_key(s[p].0)),
    ensures
        insert_input(s, x) == s.insert(p, x),
    decreases p,
{
    if s.len() == 0 {
        assert(s.insert(p, x) =~= seq![x]);
    } else if p == 0 {
        assert(s.insert(0, x) =~= seq![x] + s);
    } else {
        assert(!lt(path_key(x.0), path_key(s[0].0)));
        let t = s.drop_first();
        assert forall|q: int| 0 <= q < p - 1 implies !lt(path_key(x.0), path_key(#[trigger] t[q].0)) by {
            assert(t[q] == s[q + 1]);
        }
        if p - 1 < t.len() {
            assert(t[p - 1] == s[p]);
        }
        lemma_insert_input_at(t, x, p - 1);
        assert(seq![s[0]] + t.insert(p - 1, x) =~= s.insert(p, x));
    }
}

/// The bytes digested for a recipe's cache key: name, type, inputs (in
/// path order), env,
/// toolchain id and extra flags, with the separators above.
pub open spec fn hash_preimage(
    recipe_name: Seq<char>,
    recipe_type: Seq<char>,
    inputs: Seq<(Seq<char>, Option<Seq<u8>>)>,
    env: Seq<(Seq<char>, Seq<char>)>,
    toolchain_id: Seq<char>,
    extra_flags: Seq<(Seq<char>, Seq<char>)>,
) -> Seq<u8> {
    encode_utf8(recipe_name) + seq![0u8] + encode_utf8(recipe_type) + seq![0u8] + inputs_bytes(
        sort_inputs(inputs),
    ) + pairs_bytes(env) + encode_utf8(toolchain_id) + seq![0u8] + pairs_bytes(extra_flags)
}

/// The hex digest of the preimage.
pub open spec fn compute_hash_spec(
    recipe_name: Seq<char>,
    recipe_type: Seq<char>,
    inputs: Seq<(Seq<char>, Option<Seq<u8>>)>,
    env: Seq<(Seq<char>, Seq<char>)>,
    toolchain_id: Seq<char>,
    extra_flags: Seq<(Seq<char>, Seq<char>)>,
) -> Seq<char> {
    hex_spec(
        sha256_spec(hash_preimage(recipe_name, recipe_type, inputs, env, toolchain_id, extra_flags)),
    )
}

/// The input files as paths and contents.
pub open spec fn inputs_view(v: Seq<(String, Option<Vec<u8>>)>) -> Seq<(Seq<char>, Option<Seq<u8>>)> {
    v.map_values(
        |e: (String, Option<Vec<u8>>)|
            (
                e.0@,
                match e.1 {
                    Some(c) => Some(c@),
                    None => None,
                },
            ),
    )
}

/// Appends the UTF-8 bytes of `s`.
fn push_str_bytes(out: &mut Vec<u8>, s: &str)
    ensures
        final(out)@ == old(out)@ + encode_utf8(s@),
{
    let b = s.as_bytes();
    let ghost start = out@;
    let mut i: usize = 0;
    while i < b.len()
        invariant
            i <= b@.len(),
            b@ == encode_utf8(s@),
            out@ == start + b@.take(i as int),
        decreases b@.len() - i,
    {
        out.push(b[i]);
        assert(b@.take(i + 1) =~= b@.take(i as int).push(b@[i as int]));
        i += 1;
    }
    assert(b@.take(b@.len() as int) =~= b@);
}

/// Appends raw bytes.
fn push_bytes(out: &mut Vec<u8>, b: &[u8])
    ensures
        final(out)@ == old(out)@ + b@,
{
    let ghost start = out@;
    let mut i: usize = 0;
    while i < b.len()
        invariant
            i <= b@.len(),
            out@ == start + b@.take(i as int),
        decreases b@.len() - i,
    {
        out.push(b[i]);
        assert(b@.take(i + 1) =~= b@.take(i as int).push(b@[i as int]));
        i += 1;
    }
    assert(b@.take(b@.len() as int) =~= b@);
}

/// Appends `key=value\0` for each entry of `m`.
fn push_pairs(out: &mut Vec<u8>, m: &OrdMap<String>)
    ensures
        final(out)@ == old(out)@ + pairs_bytes(m@),
{
    let ghost start = out@;
    let n = m.len();
    let mut i: usize = 0;
    while i < n
        invariant
            i <= n,
            n == m@.len(),
            out@ == start + pairs_bytes(m@.take(i as int)),
        decreases n - i,
    {
        let (k, v) = m.entry(i);
        push_str_bytes(out, k.as_str());
        out.push(61u8);
        push_str_bytes(out, v.as_str());
        out.push(0u8);
        assert(m@.take(i + 1).drop_last() =~= m@.take(i as int));
        assert(out@ =~= start + pairs_bytes(m@.take(i + 1)));
        i += 1;
    }
    assert(m@.take(n as int) =~= m@);
}

/// Compute a deterministic cache key hash for a recipe from, in order: its
/// name, its type tag, its input files (path and contents, in path order;
/// `None` for a file that could not be read), the env vars that
/// affect the build, the toolchain id and extra flags (both maps in key
/// order).
pub fn compute_hash(
    recipe_name: &str,
    recipe_type: &str,
    inputs: &Vec<(String, Option<Vec<u8>>)>,
    env: &OrdMap<String>,
    toolchain_id: &str,
    extra_flags: &OrdMap<String>,
) -> (h: String)
    ensures
        h@ == compute_hash_spec(
            recipe_name@,
            recipe_type@,
            inputs_view(inputs@),
            env@,
            toolchain_id@,
            extra_flags@,
        ),
        h@.len() == 64,
{
    let mut buf: Vec<u8> = Vec::new();
    push_str_bytes(&mut buf, recipe_name);
    buf.push(0u8);
    push_str_bytes(&mut buf, recipe_type);
    buf.push(0u8);
    let ghost head = buf@;
    let ghost iv = inputs_view(inputs@);
    // the indices of the inputs in path order (a stable insertion sort)
    let mut order: Vec<usize> = Vec::new();
    let mut keys: Vec<Vec<char>> = Vec::new();
    let mut t: usize = 0;
    assert(iv.take(0) =~= Seq::<(Seq<char>, Option<Seq<u8>>)>::empty());
    while t < inputs.len()
        invariant
            t <= inputs@.len(),
            iv == inputs_view(inputs@),
            iv.len() == inputs@.len(),
            order@.len() == keys@.len(),
            forall|q: int| 0 <= q < order@.len() ==> #[trigger] order@[q] < inputs@.len(),
            order@.map_values(|o: usize| iv[o as int]) == sort_inputs(iv.take(t as int)),
            forall|q: int| 0 <= q < keys@.len() ==> (#[trigger] keys@[q])@ == path_key(iv[order@[q] as int].0),
        decreases inputs@.len() - t,
    {
        let ghost sorted = order@.map_values(|o: usize| iv[o as int]);
        let xk = path_key_of(inputs[t].0.as_str());
        assert(iv[t as int].0 == inputs@[t as int].0@);
        let mut p: usize = 0;
        while p < order.len() && !less_than(&xk, &keys[p])
            invariant
                p <= order@.len(),
                order@.len() == keys@.len(),
                sorted == order@.map_values(|o: usize| iv[o as int]),
                forall|q: int| 0 <= q < keys@.len() ==> (#[trigger] keys@[q])@ == path_key(iv[order@[q] as int].0),
                xk@ == path_key(iv[t as int].0),
                forall|q: int| 0 <= q < p ==> !lt(path_key(iv[t as int].0), path_key(#[trigger] sorted[q].0)),
            decreases order@.len() - p,
        {
            assert(keys@[p as int]@ == path_key(sorted[p as int].0));
            p += 1;
        }
        if p < order.len() {
            assert(keys@[p as int]@ == path_key(sorted[p as int].0));
        }
        proof {
            lemma_insert_input_at(sorted, iv[t as int], p as int);
            assert(iv.take(t + 1).drop_last() =~= iv.take(t as int));
            assert(iv.take(t + 1).last() == iv[t as int]);
        }
        let ghost old_order = order@;
        let ghost old_keys = keys@;
        order.insert(p, t);
        keys.insert(p, xk);
        proof {
            assert(order@ =~= old_order.insert(p as int, t));
            assert(order@.map_values(|o: usize| iv[o as int]) =~= sorted.insert(p as int, iv[t as int]));
            assert forall|q: int| 0 <= q < keys@.len() implies (#[trigger] keys@[q])@ == path_key(
                iv[order@[q] as int].0,
            ) by {
                if q < p {
                    assert(keys@[q] == old_keys[q] && order@[q] == old_order[q]);
                } else if q > p {
                    assert(keys@[q] == old_keys[q - 1] && order@[q] == old_order[q - 1]);
                }
            }
            assert forall|q: int| 0 <= q < order@.len() implies #[trigger] order@[q] < inputs@.len() by {
                if q < p {
                    assert(order@[q] == old_order[q]);
                } else if q > p {
                    assert(order@[q] == old_order[q - 1]);
                }
            }
        }
        t += 1;
    }
    assert(iv.take(inputs@.len() as int) =~= iv);
    let ghost sv_in = order@.map_values(|o: usize| iv[o as int]);
    assert(sv_in == sort_inputs(iv));
    let mut i: usize = 0;
    assert(sv_in.take(0) =~= Seq::<(Seq<char>, Option<Seq<u8>>)>::empty());
    while i < order.len()
        invariant
            i <= order@.len(),
            iv == inputs_view(inputs@),
            forall|q: int| 0 <= q < order@.len() ==> #[trigger] order@[q] < inputs@.len(),
            sv_in == order@.map_values(|o: usize| iv[o as int]),
            buf@ == head + inputs_bytes(sv_in.take(i as int)),
        decreases order@.len() - i,
    {
        let ix = order[i];
        assert(sv_in[i as int] == iv[ix as int]);
        let (path, contents) = (&inputs[ix].0, &inputs[ix].1);
        push_str_bytes(&mut buf, path.as_str());
        buf.push(0u8);
        match contents {
            Some(c) => {
                let d = sha256(c.as_slice());
                push_bytes(&mut buf, d.as_slice());
            },
            None => {
                push_str_bytes(&mut buf, "<missing>");
                buf.push(0u8);
            },
        }
        assert(sv_in.take(i + 1).drop_last() =~= sv_in.take(i as int));
        assert(buf@ =~= head + inputs_bytes(sv_in.take(i + 1)));
        i += 1;
    }
    assert(sv_in.take(order@.len() as int) =~= sv_in);
    push_pairs(&mut buf, env);
    push_str_bytes(&mut buf, toolchain_id);
    buf.push(0u8);
    push_pairs(&mut buf, extra_flags);
    assert(buf@ =~= hash_preimage(
        recipe_name@,
        recipe_type@,
        inputs_view(inputs@),
        env@,
        toolchain_id@,
        extra_flags@,
    ));
    let d = sha256(buf.as_slice());
    proof {
        lemma_hex_len(d@);
    }
    hex_encode(d.as_slice())
}

/// The hex SHA-256 digest of the UTF-8 bytes of `s`.
pub fn hash_string(s: &str) -> (h: String)
    ensures
        h@ == hex_spec(sha256_spec(encode_utf8(s@))),
        h@.len() == 64,
{
    let mut buf: Vec<u8> = Vec::new();
    push_str_bytes(&mut buf, s);
    assert(buf@ =~= encode_utf8(s@));
    let d = sha256(buf.as_slice());
    proof {
        lemma_hex_len(d@);
    }
    hex_encode(d.as_slice())
}

/// The digest recorded for a file: the hex SHA-256 of its contents, or
/// `<missing>` when it could not be read.
pub open spec fn file_digest_spec(contents: Option<Seq<u8>>) -> Seq<char> {
    match contents {
        Some(c) => hex_spec(sha256_spec(c)),
        None => "<missing>"@,
    }
}

/// The digest recorded for a file whose contents the caller read (`None`
/// when the file could not be read).
pub fn hash_contents(contents: Option<&[u8]>) -> (h: String)
    ensures
        h@ == file_digest_spec(
            match contents {
                Some(c) => Some(c@),
                None => None,
            },
        ),
        contents is Some ==> h@.len() == 64,
{
    match contents {
        Some(c) => {
            let d = sha256(c);
            proof {
                lemma_hex_len(d@);
            }
            hex_encode(d.as_slice())
        },
        None => "<missing>".to_owned(),
    }
}

/// Two sequences that agree but for a differing middle part differ.
pub proof fn lemma_middle_differs<A>(x: Seq<A>, e1: Seq<A>, e2: Seq<A>, y: Seq<A>)
    requires
        e1 != e2,
    ensures
        x + e1 + y != x + e2 + y,
{
    if e1.len() == e2.len() {
        assert(exists|k: int| 0 <= k < e1.len() && e1[k] != e2[k]) by {
            if !(exists|k: int| 0 <= k < e1.len() && e1[k] != e2[k]) {
                assert(e1 =~= e2);
            }
        }
        let k = choose|k: int| 0 <= k < e1.len() && e1[k] != e2[k];
        assert((x + e1 + y)[x.len() + k] == e1[k]);
        assert((x + e2 + y)[x.len() + k] == e2[k]);
    } else {
        assert((x + e1 + y).len() != (x + e2 + y).len());
    }
}

/// The bytes of a concatenation of pairs are the bytes of each part.
pub proof fn lemma_pairs_bytes_concat(a: Seq<(Seq<char>, Seq<char>)>, b: Seq<(Seq<char>, Seq<char>)>)
    ensures
        pairs_bytes(a + b) == pairs_bytes(a) + pairs_bytes(b),
    decreases b.len(),
{
    if b.len() == 0 {
        assert(a + b =~= a);
        assert(pairs_bytes(a) + pairs_bytes(b) =~= pairs_bytes(a));
    } else {
        lemma_pairs_bytes_concat(a, b.drop_last());
        assert((a + b).drop_last() =~= a + b.drop_last());
        assert((a + b).last() == b.last());
        assert(pairs_bytes(a + b) =~= pairs_bytes(a) + pairs_bytes(b));
    }
}

/// The bytes of a concatenation of inputs are the bytes of each part.
pub proof fn lemma_inputs_bytes_concat(
    a: Seq<(Seq<char>, Option<Seq<u8>>)>,
    b: Seq<(Seq<char>, Option<Seq<u8>>)>,
)
    ensures
        inputs_bytes(a + b) == inputs_bytes(a) + inputs_bytes(b),
    decreases b.len(),
{
    if b.len() == 0 {
        assert(a + b =~= a);
        assert(inputs_bytes(a) + inputs_bytes(b) =~= inputs_bytes(a));
    } else {
        lemma_inputs_bytes_concat(a, b.drop_last());
        assert((a + b).drop_last() =~= a + b.drop_last());
        assert((a + b).last() == b.last());
        assert(inputs_bytes(a + b) =~= inputs_bytes(a) + inputs_bytes(b));
    }
}

/// Inserting into two sequences that differ only in one entry, whose paths
/// are the same, gives two sequences that differ only in that entry.
proof fn lemma_insert_input_twins(
    a: Seq<(Seq<char>, Option<Seq<u8>>)>,
    b: Seq<(Seq<char>, Option<Seq<u8>>)>,
    y1: (Seq<char>, Option<Seq<u8>>),
    y2: (Seq<char>, Option<Seq<u8>>),
    z: (Seq<char>, Option<Seq<u8>>),
) -> (r: (Seq<(Seq<char>, Option<Seq<u8>>)>, Seq<(Seq<char>, Option<Seq<u8>>)>))
    requires
        y1.0 == y2.0,
    ensures
        insert_input(a + seq![y1] + b, z) == r.0 + seq![y1] + r.1,
        insert_input(a + seq![y2] + b, z) == r.0 + seq![y2] + r.1,
    decreases a.len(),
{
    let u1 = a + seq![y1] + b;
    let u2 = a + seq![y2] + b;
    if a.len() == 0 {
        assert(u1[0] == y1 && u2[0] == y2);
        if lt(path_key(z.0), path_key(y1.0)) {
            assert(seq![z] + u1 =~= seq![z] + seq![y1] + b);
            assert(seq![z] + u2 =~= seq![z] + seq![y2] + b);
            (seq![z], b)
        } else {
            assert(u1.drop_first() =~= b);
            assert(u2.drop_first() =~= b);
            assert(seq![y1] + insert_input(b, z) =~= Seq::<(Seq<char>, Option<Seq<u8>>)>::empty()
                + seq![y1] + insert_input(b, z));
            assert(seq![y2] + insert_input(b, z) =~= Seq::<(Seq<char>, Option<Seq<u8>>)>::empty()
                + seq![y2] + insert_input(b, z));
            (Seq::<(Seq<char>, Option<Seq<u8>>)>::empty(), insert_input(b, z))
        }
    } else {
        assert(u1[0] == a[0] && u2[0] == a[0]);
        if lt(path_key(z.0), path_key(a[0].0)) {
            assert(seq![z] + u1 =~= (seq![z] + a) + seq![y1] + b);
            assert(seq![z] + u2 =~= (seq![z] + a) + seq![y2] + b);
            (seq![z] + a, b)
        } else {
            assert(u1.drop_first() =~= a.drop_first() + seq![y1] + b);
            assert(u2.drop_first() =~= a.drop_first() + seq![y2] + b);
            let t = lemma_insert_input_twins(a.drop_first(), b, y1, y2, z);
            assert(seq![a[0]] + (t.0 + seq![y1] + t.1) =~= (seq![a[0]] + t.0) + seq![y1] + t.1);
            assert(seq![a[0]] + (t.0 + seq![y2] + t.1) =~= (seq![a[0]] + t.0) + seq![y2] + t.1);
            (seq![a[0]] + t.0, t.1)
        }
    }
}

/// Inserting two entries with the same path into one sequence gives two
/// sequences that differ only in that entry.
proof fn lemma_insert_input_same_path(
    u: Seq<(Seq<char>, Option<Seq<u8>>)>,
    x1: (Seq<char>, Option<Seq<u8>>),
    x2: (Seq<char>, Option<Seq<u8>>),
) -> (r: (Seq<(Seq<char>, Option<Seq<u8>>)>, Seq<(Seq<char>, Option<Seq<u8>>)>))
    requires
        x1.0 == x2.0,
    ensures
        insert_input(u, x1) == r.0 + seq![x1] + r.1,
        insert_input(u, x2) == r.0 + seq![x2] + r.1,
    decreases u.len(),
{
    let e = Seq::<(Seq<char>, Option<Seq<u8>>)>::empty();
    if u.len() == 0 {
        assert(seq![x1] =~= e + seq![x1] + e);
        assert(seq![x2] =~= e + seq![x2] + e);
        (e, e)
    } else if lt(path_key(x1.0), path_key(u[0].0)) {
        assert(seq![x1] + u =~= e + seq![x1] + u);
        assert(seq![x2] + u =~= e + seq![x2] + u);
        (e, u)
    } else {
        let t = lemma_insert_input_same_path(u.drop_first(), x1, x2);
        assert(seq![u[0]] + (t.0 + seq![x1] + t.1) =~= (seq![u[0]] + t.0) + seq![x1] + t.1);
        assert(seq![u[0]] + (t.0 + seq![x2] + t.1) =~= (seq![u[0]] + t.0) + seq![x2] + t.1);
        (seq![u[0]] + t.0, t.1)
    }
}

/// Replacing one input by another with the same path moves nothing else:
/// the two sorted sequences differ only in that entry.
proof fn lemma_sort_inputs_twins(
    s: Seq<(Seq<char>, Option<Seq<u8>>)>,
    i: int,
    x1: (Seq<char>, Option<Seq<u8>>),
    x2: (Seq<char>, Option<Seq<u8>>),
) -> (r: (Seq<(Seq<char>, Option<Seq<u8>>)>, Seq<(Seq<char>, Option<Seq<u8>>)>))
    requires
        0 <= i < s.len(),
        x1.0 == x2.0,
    ensures
        sort_inputs(s.update(i, x1)) == r.0 + seq![x1] + r.1,
        sort_inputs(s.update(i, x2)) == r.0 + seq![x2] + r.1,
    decreases s.len(),
{
    let s1 = s.update(i, x1);
    let s2 = s.update(i, x2);
    if i == s.len() - 1 {
        assert(s1.drop_last() =~= s.drop_last());
        assert(s2.drop_last() =~= s.drop_last());
        assert(s1.last() == x1 && s2.last() == x2);
        lemma_insert_input_same_path(sort_inputs(s.drop_last()), x1, x2)
    } else {
        assert(s1.drop_last() =~= s.drop_last().update(i, x1));
        assert(s2.drop_last() =~= s.drop_last().update(i, x2));
        assert(s1.last() == s.last() && s2.last() == s.last());
        let t = lemma_sort_inputs_twins(s.drop_last(), i, x1, x2);
        lemma_insert_input_twins(t.0, t.1, x1, x2, s.last())
    }
}

/// Law: the contents of each readable input file are part of what is
/// digested.  Two input lists that differ only in the contents of one
/// readable file, whose digests differ, give different preimages: the
/// entry of a readable file is its path, a NUL byte and the SHA-256 digest
/// of its contents, in the same place of both preimages.
pub proof fn law_contents_change_preimage(
    recipe_name: Seq<char>,
    recipe_type: Seq<char>,
    inputs: Seq<(Seq<char>, Option<Seq<u8>>)>,
    i: int,
    c1: Seq<u8>,
    c2: Seq<u8>,
    env: Seq<(Seq<char>, Seq<char>)>,
    toolchain_id: Seq<char>,
    extra_flags: Seq<(Seq<char>, Seq<char>)>,
)
    requires
        0 <= i < inputs.len(),
        sha256_spec(c1) != sha256_spec(c2),
    ensures
        hash_preimage(
            recipe_name,
            recipe_type,
            inputs.update(i, (inputs[i].0, Some(c1))),
            env,
            toolchain_id,
            extra_flags,
        ) != hash_preimage(
            recipe_name,
            recipe_type,
            inputs.update(i, (inputs[i].0, Some(c2))),
            env,
            toolchain_id,
            extra_flags,
        ),
{
    let p = inputs[i].0;
    let x1 = (p, Some(c1));
    let x2 = (p, Some(c2));
    let r = lemma_sort_inputs_twins(inputs, i, x1, x2);
    let ib1 = inputs_bytes(sort_inputs(inputs.update(i, x1)));
    let ib2 = inputs_bytes(sort_inputs(inputs.update(i, x2)));
    let front = inputs_bytes(r.0) + encode_utf8(p) + seq![0u8];
    assert(ib1 == front + sha256_spec(c1) + inputs_bytes(r.1)) by {
        lemma_inputs_bytes_concat(r.0 + seq![x1], r.1);
        lemma_inputs_bytes_concat(r.0, seq![x1]);
        assert(seq![x1].drop_last() =~= Seq::<(Seq<char>, Option<Seq<u8>>)>::empty());
        assert(seq![x1].last() == x1);
        assert(inputs_bytes(seq![x1].drop_last()) =~= Seq::<u8>::empty());
        assert(inputs_bytes(seq![x1]) =~= encode_utf8(p) + seq![0u8] + sha256_spec(c1));
        assert(ib1 =~= front + sha256_spec(c1) + inputs_bytes(r.1));
    }
    assert(ib2 == front + sha256_spec(c2) + inputs_bytes(r.1)) by {
        lemma_inputs_bytes_concat(r.0 + seq![x2], r.1);
        lemma_inputs_bytes_concat(r.0, seq![x2]);
        assert(seq![x2].drop_last() =~= Seq::<(Seq<char>, Option<Seq<u8>>)>::empty());
        assert(seq![x2].last() == x2);
        assert(inputs_bytes(seq![x2].drop_last()) =~= Seq::<u8>::empty());
        assert(inputs_bytes(seq![x2]) =~= encode_utf8(p) + seq![0u8] + sha256_spec(c2));
        assert(ib2 =~= front + sha256_spec(c2) + inputs_bytes(r.1));
    }
    lemma_middle_differs(front, sha256_spec(c1), sha256_spec(c2), inputs_bytes(r.1));
    let head = encode_utf8(recipe_name) + seq![0u8] + encode_utf8(recipe_type) + seq![0u8];
    let tail = pairs_bytes(env) + encode_utf8(toolchain_id) + seq![0u8] + pairs_bytes(extra_flags);
    assert(hash_preimage(recipe_name, recipe_type, inputs.update(i, x1), env, toolchain_id, extra_flags)
        =~= head + ib1 + tail);
    assert(hash_preimage(recipe_name, recipe_type, inputs.update(i, x2), env, toolchain_id, extra_flags)
        =~= head + ib2 + tail);
    lemma_middle_differs(head, ib1, ib2, tail);
}

} // verus!
