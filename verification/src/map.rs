//! A string-keyed map kept sorted by key, the library's stand-in for the
//! ordered maps of the configuration and import models.

use vstd::prelude::*;
use crate::text::{chars_of, chars_eq, less_than, lt};

verus! {

/// Keys are strictly increasing in lexicographic order.
pub open spec fn sorted_keys<W>(s: Seq<(Seq<char>, W)>) -> bool {
    forall|i: int, j: int| 0 <= i < j < s.len() ==> lt(#[trigger] s[i].0, #[trigger] s[j].0)
}

/// The entries after inserting `(k, v)`: the value of an equal key is
/// replaced, otherwise the pair goes before the first larger key.
pub open spec fn assoc_insert<W>(s: Seq<(Seq<char>, W)>, k: Seq<char>, v: W) -> Seq<(Seq<char>, W)>
    decreases s.len(),
{
    if s.len() == 0 {
        seq![(k, v)]
    } else if s[0].0 == k {
        seq![(k, v)] + s.drop_first()
    } else if lt(k, s[0].0) {
        seq![(k, v)] + s
    } else {
        seq![s[0]] + assoc_insert(s.drop_first(), k, v)
    }
}

/// The value stored under `k`, if any.
pub open spec fn assoc_get<W>(s: Seq<(Seq<char>, W)>, k: Seq<char>) -> Option<W>
    decreases s.len(),
{
    if s.len() == 0 {
        None
    } else if s[0].0 == k {
        Some(s[0].1)
    } else {
        assoc_get(s.drop_first(), k)
    }
}

/// The keys of the entries, in order.
pub open spec fn assoc_keys<W>(s: Seq<(Seq<char>, W)>) -> Seq<Seq<char>> {
    s.map_values(|e: (Seq<char>, W)| e.0)
}

pub proof fn lemma_lt_irrefl(a: Seq<char>)
    ensures
        !lt(a, a),
    decreases a.len(),
{
    if a.len() > 0 {
        lemma_lt_irrefl(a.drop_first());
    }
}

pub proof fn lemma_lt_trans(a: Seq<char>, b: Seq<char>, c: Seq<char>)
    requires
        lt(a, b),
        lt(b, c),
    ensures
        lt(a, c),
    decreases a.len(),
{
    if a.len() > 0 && b.len() > 0 && c.len() > 0 {
        if a[0] == b[0] && b[0] == c[0] {
            lemma_lt_trans(a.drop_first(), b.drop_first(), c.drop_first());
        }
    }
}

pub proof fn lemma_lt_total(a: Seq<char>, b: Seq<char>)
    requires
        a != b,
    ensures
        lt(a, b) || lt(b, a),
    decreases a.len(),
{
    if a.len() > 0 && b.len() > 0 {
        if a[0] == b[0] {
            if a.drop_first() == b.drop_first() {
                assert(a =~= seq![a[0]] + a.drop_first());
                assert(b =~= seq![b[0]] + b.drop_first());
            }
            lemma_lt_total(a.drop_first(), b.drop_first());
        } else {
        }
    } else if a.len() == 0 && b.len() == 0 {
        assert(a =~= b);
    }
}

pub proof fn lemma_lt_asym(a: Seq<char>, b: Seq<char>)
    requires
        lt(a, b),
    ensures
        !lt(b, a),
{
    if lt(b, a) {
        lemma_lt_trans(a, b, a);
        lemma_lt_irrefl(a);
    }
}

/// Inserting at the first position whose key is not smaller than `k`.
/// Law: after storing `v` under `k`, `k` gives `v` and every other key gives
/// what it gave before.
pub proof fn law_get_insert<W>(s: Seq<(Seq<char>, W)>, k: Seq<char>, v: W, k2: Seq<char>)
    ensures
        assoc_get(assoc_insert(s, k, v), k) == Some(v),
        k2 != k ==> assoc_get(assoc_insert(s, k, v), k2) == assoc_get(s, k2),
    decreases s.len(),
{
    if s.len() > 0 && s[0].0 != k && !lt(k, s[0].0) {
        law_get_insert(s.drop_first(), k, v, k2);
        let r = seq![s[0]] + assoc_insert(s.drop_first(), k, v);
        assert(r.drop_first() =~= assoc_insert(s.drop_first(), k, v));
        assert(r[0] == s[0]);
    } else if s.len() > 0 && s[0].0 == k {
        let r = seq![(k, v)] + s.drop_first();
        assert(r.drop_first() =~= s.drop_first());
        assert(r[0] == (k, v));
        if k2 != k {
            assert(assoc_get(r, k2) == assoc_get(s.drop_first(), k2));
        }
    } else if s.len() > 0 {
        let r = seq![(k, v)] + s;
        assert(r.drop_first() =~= s);
        assert(r[0] == (k, v));
        if k2 != k {
            assert(assoc_get(r, k2) == assoc_get(s, k2));
        }
    } else {
        assert(seq![(k, v)].drop_first() =~= Seq::<(Seq<char>, W)>::empty());
    }
}

/// Law: merging adds no value for a key the base already has, and gives
/// every key of `extra` a value.
pub proof fn law_merge_absent<W>(base: Seq<(Seq<char>, W)>, extra: Seq<(Seq<char>, W)>, k: Seq<char>)
    ensures
        assoc_get(base, k) is Some ==> assoc_get(merge_absent(base, extra), k) == assoc_get(base, k),
        assoc_get(extra, k) is Some ==> assoc_get(merge_absent(base, extra), k) is Some,
        assoc_get(base, k) is None && assoc_get(extra, k) is None ==> assoc_get(
            merge_absent(base, extra),
            k,
        ) is None,
    decreases extra.len(),
{
    if extra.len() > 0 {
        let e = extra.drop_last();
        law_merge_absent(base, e, k);
        let acc = merge_absent(base, e);
        law_get_insert(acc, extra.last().0, extra.last().1, k);
        lemma_get_last(extra, k);
    }
}

/// The value of `k` in `s` is its value in all but the last entry, unless
/// that entry has key `k` and no earlier one does.
pub proof fn lemma_get_last<W>(s: Seq<(Seq<char>, W)>, k: Seq<char>)
    requires
        s.len() > 0,
    ensures
        assoc_get(s, k) is Some <==> (assoc_get(s.drop_last(), k) is Some || s.last().0 == k),
    decreases s.len(),
{
    if s.len() > 1 {
        lemma_get_last(s.drop_first(), k);
        assert(s.drop_first().drop_last() =~= s.drop_last().drop_first());
        assert(s.drop_last()[0] == s[0]);
        assert(s.drop_first().last() == s.last());
    } else {
        assert(s.drop_first() =~= Seq::<(Seq<char>, W)>::empty());
        assert(s.drop_last() =~= Seq::<(Seq<char>, W)>::empty());
    }
}

proof fn lemma_insert_at<W>(s: Seq<(Seq<char>, W)>, k: Seq<char>, v: W, i: int)
    requires
        sorted_keys(s),
        0 <= i <= s.len(),
        forall|m: int| 0 <= m < i ==> lt(#[trigger] s[m].0, k),
        i < s.len() ==> !lt(s[i].0, k),
    ensures
        i < s.len() && s[i].0 == k ==> assoc_insert(s, k, v) == s.take(i).push((k, v)) + s.skip(
            i + 1,
        ),
        !(i < s.len() && s[i].0 == k) ==> assoc_insert(s, k, v) == s.take(i).push((k, v))
            + s.skip(i),
    decreases s.len(),
{
    if s.len() == 0 {
        assert(s.take(i).push((k, v)) + s.skip(i) =~= seq![(k, v)]);
    } else if i == 0 {
        if s[0].0 == k {
            assert(s.take(0).push((k, v)) + s.skip(1) =~= seq![(k, v)] + s.drop_first());
        } else {
            lemma_lt_total(s[0].0, k);
            assert(s.take(0).push((k, v)) + s.skip(0) =~= seq![(k, v)] + s);
        }
    } else {
        assert(lt(s[0].0, k));
        lemma_lt_asym(s[0].0, k);
        if s[0].0 == k {
            lemma_lt_irrefl(k);
        }
        let t = s.drop_first();
        assert(sorted_keys(t)) by {
            assert forall|a: int, b: int| 0 <= a < b < t.len() implies lt(t[a].0, t[b].0) by {
                assert(t[a] == s[a + 1]);
                assert(t[b] == s[b + 1]);
            }
        }
        assert forall|m: int| 0 <= m < i - 1 implies lt(#[trigger] t[m].0, k) by {
            assert(t[m] == s[m + 1]);
        }
        lemma_insert_at(t, k, v, i - 1);
        if i < s.len() && s[i].0 == k {
            assert(s.take(i).push((k, v)) + s.skip(i + 1) =~= seq![s[0]] + (t.take(i - 1).push(
                (k, v),
            ) + t.skip(i)));
        } else {
            assert(s.take(i).push((k, v)) + s.skip(i) =~= seq![s[0]] + (t.take(i - 1).push(
                (k, v),
            ) + t.skip(i - 1)));
        }
    }
}

/// A map from strings to values, kept sorted by key.
#[derive(Debug)]
pub struct OrdMap<V: View> {
    entries: Vec<(String, V)>,
}

impl<V: View> View for OrdMap<V> {
    type V = Seq<(Seq<char>, V::V)>;

    closed spec fn view(&self) -> Seq<(Seq<char>, V::V)> {
        self.entries@.map_values(|e: (String, V)| (e.0@, e.1@))
    }
}

impl<V: View> OrdMap<V> {
    #[verifier::type_invariant]
    spec fn inv(self) -> bool {
        sorted_keys(self@)
    }

    /// The stored pairs, in key order.
    pub closed spec fn pairs(&self) -> Seq<(String, V)> {
        self.entries@
    }

    /// An empty map.
    pub fn new() -> (m: Self)
        ensures
            m@ == Seq::<(Seq<char>, V::V)>::empty(),
    {
        let m = OrdMap { entries: Vec::new() };
        assert(m@ =~= Seq::<(Seq<char>, V::V)>::empty());
        m
    }

    /// Number of entries.
    pub fn len(&self) -> (n: usize)
        ensures
            n == self@.len(),
            sorted_keys(self@),
    {
        proof {
            use_type_invariant(self);
        }
        self.entries.len()
    }

    /// There are no entries.
    pub fn is_empty(&self) -> (b: bool)
        ensures
            b == (self@.len() == 0),
    {
        self.entries.len() == 0
    }

    /// The `i`-th entry in key order.
    pub fn entry(&self, i: usize) -> (r: (&String, &V))
        requires
            i < self@.len(),
        ensures
            (r.0@, r.1@) == self@[i as int],
            r.0 == self.pairs()[i as int].0,
            r.1 == self.pairs()[i as int].1,
    {
        let e = &self.entries[i];
        (&e.0, &e.1)
    }

    /// Position of the first key not smaller than `k`, and whether it equals `k`.
    fn locate(&self, k: &[char]) -> (r: (usize, bool))
        ensures
            r.0 <= self@.len(),
            forall|m: int| 0 <= m < r.0 ==> lt(#[trigger] self@[m].0, k@),
            r.0 < self@.len() ==> !lt(self@[r.0 as int].0, k@),
            r.1 == (r.0 < self@.len() && self@[r.0 as int].0 == k@),
    {
        let mut i: usize = 0;
        while i < self.entries.len()
            invariant
                i <= self.entries.len(),
                self@.len() == self.entries.len(),
                forall|m: int| 0 <= m < i ==> lt(#[trigger] self@[m].0, k@),
            decreases self.entries.len() - i,
        {
            let kc = chars_of(self.entries[i].0.as_str());
            assert(kc@ == self@[i as int].0);
            if !less_than(&kc, k) {
                let eq = chars_eq(&kc, k);
                return (i, eq);
            }
            i += 1;
        }
        (i, false)
    }

    /// The value stored under `k`.
    pub fn get(&self, k: &str) -> (r: Option<&V>)
        ensures
            match r {
                Some(v) => assoc_get(self@, k@) == Some(v@),
                None => assoc_get(self@, k@) is None,
            },
    {
        proof {
            use_type_invariant(self);
        }
        let kc = chars_of(k);
        let (i, found) = self.locate(&kc);
        proof {
            lemma_get_at(self@, k@, i as int);
        }
        if found {
            Some(&self.entries[i].1)
        } else {
            None
        }
    }

    /// There is an entry for `k`.
    pub fn contains_key(&self, k: &str) -> (b: bool)
        ensures
            b == (assoc_get(self@, k@) is Some),
    {
        match self.get(k) {
            Some(_) => true,
            None => false,
        }
    }

    /// Stores `v` under `k`, replacing an earlier value.
    pub fn insert(&mut self, k: String, v: V)
        ensures
            final(self)@ == assoc_insert(old(self)@, k@, v@),
    {
        proof {
            use_type_invariant(&*self);
        }
        let kc = chars_of(k.as_str());
        let (i, found) = self.locate(&kc);
        let ghost old_view = self@;
        proof {
            lemma_insert_at(old_view, k@, v@, i as int);
            lemma_insert_sorted(old_view, k@, v@, i as int);
        }
        let mut entries = Vec::new();
        std::mem::swap(&mut entries, &mut self.entries);
        let ghost old_entries = entries@;
        if found {
            entries.set(i, (k, v));
        } else {
            entries.insert(i, (k, v));
        }
        let ghost ne = entries@;
        assert(ne.map_values(|e: (String, V)| (e.0@, e.1@)) =~= assoc_insert(old_view, k@, v@));
        self.entries = entries;
    }
}

impl<V: View> OrdMap<V> {
    /// Stores `v` under `k` unless `k` already has a value.
    pub fn insert_absent(&mut self, k: String, v: V)
        ensures
            final(self)@ == (if assoc_get(old(self)@, k@) is Some {
                old(self)@
            } else {
                assoc_insert(old(self)@, k@, v@)
            }),
    {
        if !self.contains_key(k.as_str()) {
            self.insert(k, v);
        }
    }

    /// The entries, in key order.
    pub fn into_pairs(self) -> (r: Vec<(String, V)>)
        ensures
            r@.map_values(|e: (String, V)| (e.0@, e.1@)) == self@,
    {
        self.entries
    }
}

/// `base` with each entry of `extra` added when its key is not present yet.
pub open spec fn merge_absent<W>(base: Seq<(Seq<char>, W)>, extra: Seq<(Seq<char>, W)>) -> Seq<
    (Seq<char>, W),
>
    decreases extra.len(),
{
    if extra.len() == 0 {
        base
    } else {
        let acc = merge_absent(base, extra.drop_last());
        if assoc_get(acc, extra.last().0) is Some {
            acc
        } else {
            assoc_insert(acc, extra.last().0, extra.last().1)
        }
    }
}

/// Adds each entry of `extra` whose key `base` does not have.
pub fn merge_missing<V: View>(base: &mut OrdMap<V>, extra: OrdMap<V>)
    ensures
        final(base)@ == merge_absent(old(base)@, extra@),
{
    let ghost ev = extra@;
    let pairs = extra.into_pairs();
    assert forall|j: int| 0 <= j < pairs@.len() implies (#[trigger] pairs@[j].0@, pairs@[j].1@) == ev[0 + j] by {
        assert(pairs@.map_values(|e: (String, V)| (e.0@, e.1@))[j] == (pairs@[j].0@, pairs@[j].1@));
    }
    let ghost start = base@;
    let mut rest = pairs;
    let ghost n = ev.len();
    let ghost mut i: int = 0;
    while rest.len() > 0
        invariant
            rest@.len() + i == n,
            0 <= i,
            n == ev.len(),
            forall|j: int| 0 <= j < rest@.len() ==> (#[trigger] rest@[j].0@, rest@[j].1@) == ev[i + j],
            base@ == merge_absent(start, ev.take(i as int)),
        decreases rest@.len(),
    {
        let ghost before = rest@;
        let (k, v) = rest.remove(0);
        assert((k@, v@) == ev[i as int]) by {
            assert((before[0].0@, before[0].1@) == ev[i + 0]);
        }
        assert forall|j: int| 0 <= j < rest@.len() implies (#[trigger] rest@[j].0@, rest@[j].1@) == ev[(i + 1) + j] by {
            assert(rest@[j] == before[j + 1]);
            assert((before[j + 1].0@, before[j + 1].1@) == ev[i + (j + 1)]);
        }
        base.insert_absent(k, v);
        assert(ev.take(i + 1).drop_last() =~= ev.take(i as int));
        proof {
            i = i + 1;
        }
    }
    assert(ev.take(n as int) =~= ev);
}

impl OrdMap<String> {
    /// A copy of a map of strings.
    pub fn duplicate(&self) -> (m: Self)
        ensures
            m@ == self@,
    {
        proof {
            use_type_invariant(self);
        }
        let mut entries: Vec<(String, String)> = Vec::new();
        let mut i: usize = 0;
        while i < self.entries.len()
            invariant
                i <= self.entries@.len(),
                self@ == self.entries@.map_values(|e: (String, String)| (e.0@, e.1@)),
                entries@.map_values(|e: (String, String)| (e.0@, e.1@)) == self@.take(i as int),
            decreases self.entries@.len() - i,
        {
            let k = self.entries[i].0.clone();
            let v = self.entries[i].1.clone();
            let ghost prev = entries@;
            assert(k@ == self.entries@[i as int].0@ && v@ == self.entries@[i as int].1@);
            entries.push((k, v));
            assert(entries@.map_values(|e: (String, String)| (e.0@, e.1@)) =~= prev.map_values(
                |e: (String, String)| (e.0@, e.1@),
            ).push(self@[i as int]));
            assert(self@.take(i + 1) =~= self@.take(i as int).push(self@[i as int]));
            i += 1;
        }
        assert(self@.take(self.entries@.len() as int) =~= self@);
        OrdMap { entries }
    }

    /// The keys and values, in key order.
    pub fn to_pairs(&self) -> (r: Vec<(String, String)>)
        ensures
            r@.map_values(|e: (String, String)| (e.0@, e.1@)) == self@,
    {
        let mut out: Vec<(String, String)> = Vec::new();
        let mut i: usize = 0;
        while i < self.entries.len()
            invariant
                i <= self.entries@.len(),
                self@ == self.entries@.map_values(|e: (String, String)| (e.0@, e.1@)),
                out@.map_values(|e: (String, String)| (e.0@, e.1@)) == self@.take(i as int),
            decreases self.entries@.len() - i,
        {
            let k = self.entries[i].0.clone();
            let v = self.entries[i].1.clone();
            let ghost prev = out@;
            assert(k@ == self.entries@[i as int].0@ && v@ == self.entries@[i as int].1@);
            out.push((k, v));
            assert(out@.map_values(|e: (String, String)| (e.0@, e.1@)) =~= prev.map_values(
                |e: (String, String)| (e.0@, e.1@),
            ).push(self@[i as int]));
            assert(self@.take(i + 1) =~= self@.take(i as int).push(self@[i as int]));
            i += 1;
        }
        assert(self@.take(self.entries@.len() as int) =~= self@);
        out
    }
}

proof fn lemma_get_at<W>(s: Seq<(Seq<char>, W)>, k: Seq<char>, i: int)
    requires
        sorted_keys(s),
        0 <= i <= s.len(),
        forall|m: int| 0 <= m < i ==> lt(#[trigger] s[m].0, k),
        i < s.len() ==> !lt(s[i].0, k),
    ensures
        i < s.len() && s[i].0 == k ==> assoc_get(s, k) == Some(s[i].1),
        !(i < s.len() && s[i].0 == k) ==> assoc_get(s, k) is None,
    decreases s.len(),
{
    if s.len() == 0 {
    } else if i == 0 {
        if s[0].0 != k {
            lemma_not_found_after(s, k);
        }
    } else {
        assert(lt(s[0].0, k));
        if s[0].0 == k {
            lemma_lt_irrefl(k);
        }
        let t = s.drop_first();
        assert(sorted_keys(t)) by {
            assert forall|a: int, b: int| 0 <= a < b < t.len() implies lt(t[a].0, t[b].0) by {
                assert(t[a] == s[a + 1]);
                assert(t[b] == s[b + 1]);
            }
        }
        assert forall|m: int| 0 <= m < i - 1 implies lt(#[trigger] t[m].0, k) by {
            assert(t[m] == s[m + 1]);
        }
        lemma_get_at(t, k, i - 1);
    }
}

/// When the first key is larger than `k`, `k` is absent.
proof fn lemma_not_found_after<W>(s: Seq<(Seq<char>, W)>, k: Seq<char>)
    requires
        sorted_keys(s),
        s.len() > 0,
        !lt(s[0].0, k),
        s[0].0 != k,
    ensures
        assoc_get(s, k) is None,
    decreases s.len(),
{
    lemma_lt_total(s[0].0, k);
    if s.len() > 1 {
        let t = s.drop_first();
        assert(lt(s[0].0, s[1].0));
        lemma_lt_trans(k, s[0].0, s[1].0);
        lemma_lt_asym(k, s[1].0);
        if s[1].0 == k {
            lemma_lt_irrefl(k);
        }
        assert(sorted_keys(t)) by {
            assert forall|a: int, b: int| 0 <= a < b < t.len() implies lt(t[a].0, t[b].0) by {
                assert(t[a] == s[a + 1]);
                assert(t[b] == s[b + 1]);
            }
        }
        lemma_not_found_after(t, k);
    }
}

proof fn lemma_insert_sorted<W>(s: Seq<(Seq<char>, W)>, k: Seq<char>, v: W, i: int)
    requires
        sorted_keys(s),
        0 <= i <= s.len(),
        forall|m: int| 0 <= m < i ==> lt(#[trigger] s[m].0, k),
        i < s.len() ==> !lt(s[i].0, k),
    ensures
        sorted_keys(assoc_insert(s, k, v)),
{
    lemma_insert_at(s, k, v, i);
    let r = assoc_insert(s, k, v);
    if i < s.len() && s[i].0 == k {
        assert forall|a: int, b: int| 0 <= a < b < r.len() implies lt(
            #[trigger] r[a].0,
            #[trigger] r[b].0,
        ) by {
            assert(r[a].0 == s[a].0);
            assert(r[b].0 == s[b].0);
        }
    } else {
        if i < s.len() {
            lemma_lt_total(s[i].0, k);
        }
        assert forall|a: int, b: int| 0 <= a < b < r.len() implies lt(
            #[trigger] r[a].0,
            #[trigger] r[b].0,
        ) by {
            if b < i {
                assert(r[a] == s[a] && r[b] == s[b]);
            } else if b == i {
                assert(r[a] == s[a]);
            } else if a < i {
                assert(r[a] == s[a] && r[b] == s[b - 1]);
                assert(lt(s[a].0, k));
                assert(lt(k, s[i].0));
                if b - 1 > i {
                    assert(lt(s[i].0, s[b - 1].0));
                    lemma_lt_trans(k, s[i].0, s[b - 1].0);
                }
                lemma_lt_trans(s[a].0, k, s[b - 1].0);
            } else if a == i {
                assert(r[b] == s[b - 1]);
                if b - 1 > i {
                    assert(lt(s[i].0, s[b - 1].0));
                    lemma_lt_trans(k, s[i].0, s[b - 1].0);
                }
            } else {
                assert(r[a] == s[a - 1] && r[b] == s[b - 1]);
            }
        }
    }
}


/// The kept entries of a recipe table with their deps, the deps limited
/// to the kept names too when `within` is set (otherwise every entry and
/// dep is kept).
pub open spec fn dep_lists_spec(
    recipes: Seq<(Seq<char>, crate::config::RecipeV)>,
    keep: Seq<Seq<char>>,
    within: bool,
) -> Seq<(Seq<char>, Seq<Seq<char>>)> {
    recipes.filter(|e: (Seq<char>, crate::config::RecipeV)| !within || keep.contains(e.0)).map_values(
        |e: (Seq<char>, crate::config::RecipeV)|
            (e.0, e.1.deps.filter(|d: Seq<char>| !within || keep.contains(d))),
    )
}

/// The dep lists of a map of dep lists, as sequences of names.
pub open spec fn dep_view(m: Seq<(Seq<char>, Seq<String>)>) -> Seq<(Seq<char>, Seq<Seq<char>>)> {
    m.map_values(|e: (Seq<char>, Seq<String>)| (e.0, crate::text::sv(e.1)))
}

impl OrdMap<crate::config::Recipe> {
    /// Each recipe's name with its deps; with `within`, only the recipes
    /// named in `keep`, and of their deps only those named in `keep`.
    pub fn dep_lists(&self, keep: &Vec<String>, within: bool) -> (r: OrdMap<Vec<String>>)
        ensures
            dep_view(r@) == dep_lists_spec(self@, crate::text::sv(keep@), within),
            within ==> r@.len() <= self@.len(),
            !within ==> dep_view(r@) == self@.map_values(
                |e: (Seq<char>, crate::config::RecipeV)| (e.0, e.1.deps),
            ),
    {
        proof {
            use_type_invariant(self);
        }
        let ghost ks = crate::text::sv(keep@);
        let ghost f = |e: (Seq<char>, crate::config::RecipeV)| !within || ks.contains(e.0);
        let ghost g = |e: (Seq<char>, crate::config::RecipeV)|
            (e.0, e.1.deps.filter(|d: Seq<char>| !within || ks.contains(d)));
        let mut out: Vec<(String, Vec<String>)> = Vec::new();
        let mut i: usize = 0;
        while i < self.entries.len()
            invariant
                i <= self.entries@.len(),
                ks == crate::text::sv(keep@),
                f == (|e: (Seq<char>, crate::config::RecipeV)| !within || ks.contains(e.0)),
                g == (|e: (Seq<char>, crate::config::RecipeV)|
                    (e.0, e.1.deps.filter(|d: Seq<char>| !within || ks.contains(d)))),
                sorted_keys(self@),
                self@ == self.entries@.map_values(|e: (String, crate::config::Recipe)| (e.0@, e.1@)),
                dep_view(out@.map_values(|e: (String, Vec<String>)| (e.0@, e.1@))) == self@.take(
                    i as int,
                ).filter(f).map_values(g),
                sorted_keys(out@.map_values(|e: (String, Vec<String>)| (e.0@, e.1@))),
                forall|q: int, j: int|
                    0 <= q < out@.len() && i <= j < self@.len() ==> lt(
                        #[trigger] out@[q].0@,
                        #[trigger] self@[j].0,
                    ),
                out@.len() <= i,
            decreases self.entries@.len() - i,
        {
            let ghost ov = out@.map_values(|e: (String, Vec<String>)| (e.0@, e.1@));
            proof {
                assert(self@.take(i + 1) =~= self@.take(i as int).push(self@[i as int]));
                self@.take(i as int).lemma_filter_push(self@[i as int], f);
            }
            let name = &self.entries[i].0;
            let rec = &self.entries[i].1;
            assert(self@[i as int] == (name@, rec@));
            let keep_it = !within || crate::text::vec_contains(keep, name.as_str());
            if keep_it {
                let mut deps: Vec<String> = Vec::new();
                let mut j: usize = 0;
                let ghost fd = |d: Seq<char>| !within || ks.contains(d);
                while j < rec.deps.len()
                    invariant
                        j <= rec.deps@.len(),
                        ks == crate::text::sv(keep@),
                        fd == (|d: Seq<char>| !within || ks.contains(d)),
                        crate::text::sv(deps@) == crate::text::sv(rec.deps@).take(j as int).filter(fd),
                    decreases rec.deps@.len() - j,
                {
                    proof {
                        assert(crate::text::sv(rec.deps@).take(j + 1) =~= crate::text::sv(rec.deps@).take(
                            j as int,
                        ).push(rec.deps@[j as int]@));
                        crate::text::sv(rec.deps@).take(j as int).lemma_filter_push(rec.deps@[j as int]@, fd);
                    }
                    let ghost x = rec.deps@[j as int]@;
                    let ghost prefix = crate::text::sv(rec.deps@).take(j as int);
                    assert(crate::text::sv(rec.deps@).take(j + 1) == prefix.push(x));
                    assert(prefix.push(x).filter(fd) == if fd(x) {
                        prefix.filter(fd).push(x)
                    } else {
                        prefix.filter(fd)
                    });
                    if !within || crate::text::vec_contains(keep, rec.deps[j].as_str()) {
                        assert(fd(x));
                        let ghost before = deps@;
                        let d = rec.deps[j].clone();
                        assert(d@ == x);
                        deps.push(d);
                        proof {
                            crate::text::lemma_sv_push(before, d);
                            assert(deps@ == before.push(d));
                        }
                        assert(crate::text::sv(deps@) == prefix.filter(fd).push(x));
                    } else {
                        assert(!fd(x));
                    }
                    j += 1;
                }
                assert(crate::text::sv(rec.deps@).take(rec.deps@.len() as int) =~= crate::text::sv(
                    rec.deps@,
                ));
                let ghost before = out@;
                out.push((name.clone(), deps));
                proof {
                    let nv = out@.map_values(|e: (String, Vec<String>)| (e.0@, e.1@));
                    assert(nv =~= ov.push((name@, deps@)));
                    assert(dep_view(nv) =~= dep_view(ov).push((name@, crate::text::sv(deps@))));
                    assert(sorted_keys(nv)) by {
                        assert forall|a: int, b: int| 0 <= a < b < nv.len() implies lt(
                            #[trigger] nv[a].0,
                            #[trigger] nv[b].0,
                        ) by {
                            if b == nv.len() - 1 {
                                assert(nv[b].0 == self@[i as int].0);
                                assert(nv[a].0 == out@[a].0@);
                            } else {
                                assert(nv[a] == ov[a] && nv[b] == ov[b]);
                            }
                        }
                    }
                    assert forall|q: int, j2: int| 0 <= q < out@.len() && i + 1 <= j2 < self@.len() implies lt(
                        #[trigger] out@[q].0@,
                        #[trigger] self@[j2].0,
                    ) by {
                        if q == out@.len() - 1 {
                            assert(out@[q].0@ == self@[i as int].0);
                        } else {
                            assert(out@[q] == before[q]);
                        }
                    }
                }
            } else {
                proof {
                    assert forall|q: int, j2: int| 0 <= q < out@.len() && i + 1 <= j2 < self@.len() implies lt(
                        #[trigger] out@[q].0@,
                        #[trigger] self@[j2].0,
                    ) by {
                    }
                }
            }
            i += 1;
        }
        assert(self@.take(self.entries@.len() as int) =~= self@);
        proof {
            if !within {
                lemma_filter_true(self@, f);
                assert forall|i: int| 0 <= i < self@.len() implies g(#[trigger] self@[i]) == (
                    self@[i].0,
                    self@[i].1.deps,
                ) by {
                    lemma_filter_true(self@[i].1.deps, |d: Seq<char>| !within || ks.contains(d));
                }
                assert(self@.filter(f).map_values(g) =~= self@.map_values(
                    |e: (Seq<char>, crate::config::RecipeV)| (e.0, e.1.deps),
                ));
            }
        }
        OrdMap { entries: out }
    }
}

/// Filtering by a predicate that every item meets keeps everything.
pub proof fn lemma_filter_true<A>(s: Seq<A>, p: spec_fn(A) -> bool)
    requires
        forall|i: int| 0 <= i < s.len() ==> p(s[i]),
    ensures
        s.filter(p) == s,
    decreases s.len(),
{
    if s.len() > 0 {
        lemma_filter_true(s.drop_last(), p);
        s.drop_last().lemma_filter_push(s.last(), p);
        assert(s.drop_last().push(s.last()) =~= s);
        assert(p(s[s.len() - 1]));
    } else {
        reveal(Seq::filter);
        assert(s.filter(p) =~= s);
    }
}

impl OrdMap<crate::config::CrossConfig> {
    /// A copy of a map of cross settings.
    pub fn duplicate_cross(&self) -> (m: Self)
        ensures
            m@ == self@,
    {
        proof {
            use_type_invariant(self);
        }
        let mut entries: Vec<(String, crate::config::CrossConfig)> = Vec::new();
        let mut i: usize = 0;
        while i < self.entries.len()
            invariant
                i <= self.entries@.len(),
                self@ == self.entries@.map_values(|e: (String, crate::config::CrossConfig)| (e.0@, e.1@)),
                entries@.map_values(|e: (String, crate::config::CrossConfig)| (e.0@, e.1@)) == self@.take(
                    i as int,
                ),
            decreases self.entries@.len() - i,
        {
            let src = &self.entries[i].1;
            let c = crate::config::CrossConfig {
                linker: match &src.linker {
                    Some(l) => Some(l.clone()),
                    None => None,
                },
                cross: src.cross,
            };
            let k = self.entries[i].0.clone();
            assert(c@ == src@);
            let ghost prev = entries@;
            entries.push((k, c));
            assert(entries@.map_values(|e: (String, crate::config::CrossConfig)| (e.0@, e.1@)) =~= prev.map_values(
                |e: (String, crate::config::CrossConfig)| (e.0@, e.1@),
            ).push(self@[i as int]));
            assert(self@.take(i + 1) =~= self@.take(i as int).push(self@[i as int]));
            i += 1;
        }
        assert(self@.take(self.entries@.len() as int) =~= self@);
        OrdMap { entries }
    }
}

/// Storing two values under one key places them at the same position, with
/// the same entries before and after.
pub proof fn lemma_insert_twins<W>(s: Seq<(Seq<char>, W)>, k: Seq<char>, v1: W, v2: W) -> (r: (
    Seq<(Seq<char>, W)>,
    Seq<(Seq<char>, W)>,
))
    ensures
        assoc_insert(s, k, v1) == r.0 + seq![(k, v1)] + r.1,
        assoc_insert(s, k, v2) == r.0 + seq![(k, v2)] + r.1,
    decreases s.len(),
{
    let e = Seq::<(Seq<char>, W)>::empty();
    if s.len() == 0 {
        assert(seq![(k, v1)] =~= e + seq![(k, v1)] + e);
        assert(seq![(k, v2)] =~= e + seq![(k, v2)] + e);
        (e, e)
    } else if s[0].0 == k {
        assert(seq![(k, v1)] + s.drop_first() =~= e + seq![(k, v1)] + s.drop_first());
        assert(seq![(k, v2)] + s.drop_first() =~= e + seq![(k, v2)] + s.drop_first());
        (e, s.drop_first())
    } else if lt(k, s[0].0) {
        assert(seq![(k, v1)] + s =~= e + seq![(k, v1)] + s);
        assert(seq![(k, v2)] + s =~= e + seq![(k, v2)] + s);
        (e, s)
    } else {
        let t = lemma_insert_twins(s.drop_first(), k, v1, v2);
        assert(seq![s[0]] + (t.0 + seq![(k, v1)] + t.1) =~= (seq![s[0]] + t.0) + seq![(k, v1)] + t.1);
        assert(seq![s[0]] + (t.0 + seq![(k, v2)] + t.1) =~= (seq![s[0]] + t.0) + seq![(k, v2)] + t.1);
        (seq![s[0]] + t.0, t.1)
    }
}

} // verus!
