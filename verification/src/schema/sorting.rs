//! Byte-wise string order and a stable insertion sort over ordered keys.

use vstd::prelude::*;
use vstd::utf8::encode_utf8;

use crate::text::strings_view;

verus! {

broadcast use vstd::seq_lib::group_to_multiset_ensures;

/// Lexicographic order on byte strings: a proper prefix comes first.
pub open spec fn bytes_before(a: Seq<u8>, b: Seq<u8>) -> bool
    decreases a.len(),
{
    if a.len() == 0 {
        b.len() > 0
    } else if b.len() == 0 {
        false
    } else if a[0] != b[0] {
        a[0] < b[0]
    } else {
        bytes_before(a.drop_first(), b.drop_first())
    }
}

/// The order of `str` values: lexicographic on their UTF-8 bytes.
pub open spec fn text_before(a: Seq<char>, b: Seq<char>) -> bool {
    bytes_before(encode_utf8(a), encode_utf8(b))
}

/// No byte string comes before itself.
pub proof fn lemma_bytes_irreflexive(a: Seq<u8>)
    ensures
        !bytes_before(a, a),
    decreases a.len(),
{
    if a.len() > 0 {
        lemma_bytes_irreflexive(a.drop_first());
    }
}

/// The byte order is transitive.
pub proof fn lemma_bytes_transitive(a: Seq<u8>, b: Seq<u8>, c: Seq<u8>)
    requires
        bytes_before(a, b),
        bytes_before(b, c),
    ensures
        bytes_before(a, c),
    decreases a.len(),
{
    if a.len() > 0 && b.len() > 0 && c.len() > 0 && a[0] == b[0] && b[0] == c[0] {
        lemma_bytes_transitive(a.drop_first(), b.drop_first(), c.drop_first());
    }
}

/// The byte order is asymmetric.
pub proof fn lemma_bytes_asymmetric(a: Seq<u8>, b: Seq<u8>)
    requires
        bytes_before(a, b),
    ensures
        !bytes_before(b, a),
    decreases a.len(),
{
    if a.len() > 0 && b.len() > 0 && a[0] == b[0] {
        lemma_bytes_asymmetric(a.drop_first(), b.drop_first());
    }
}

/// Distinct byte strings are ordered one way or the other.
pub proof fn lemma_bytes_total(a: Seq<u8>, b: Seq<u8>)
    requires
        a != b,
    ensures
        bytes_before(a, b) || bytes_before(b, a),
    decreases a.len(),
{
    if a.len() == 0 {
        assert(b.len() > 0) by {
            if b.len() == 0 {
                assert(a =~= b);
            }
        }
    } else if b.len() == 0 {
    } else if a[0] == b[0] {
        if a.drop_first() == b.drop_first() {
            assert(a =~= seq![a[0]] + a.drop_first());
            assert(b =~= seq![b[0]] + b.drop_first());
        }
        lemma_bytes_total(a.drop_first(), b.drop_first());
    }
}

/// Distinct strings are ordered one way or the other in `str` order.
pub proof fn lemma_text_total(a: Seq<char>, b: Seq<char>)
    requires
        a != b,
    ensures
        text_before(a, b) || text_before(b, a),
{
    vstd::utf8::encode_utf8_decode_utf8(a);
    vstd::utf8::encode_utf8_decode_utf8(b);
    lemma_bytes_total(encode_utf8(a), encode_utf8(b));
}

/// The `str` order is transitive.
pub proof fn lemma_text_transitive(a: Seq<char>, b: Seq<char>, c: Seq<char>)
    requires
        text_before(a, b),
        text_before(b, c),
    ensures
        text_before(a, c),
{
    lemma_bytes_transitive(encode_utf8(a), encode_utf8(b), encode_utf8(c));
}

/// No string comes before itself, and the `str` order is asymmetric.
pub proof fn lemma_text_strict(a: Seq<char>, b: Seq<char>)
    ensures
        !text_before(a, a),
        text_before(a, b) ==> !text_before(b, a),
{
    lemma_bytes_irreflexive(encode_utf8(a));
    if text_before(a, b) {
        lemma_bytes_asymmetric(encode_utf8(a), encode_utf8(b));
    }
}

/// Strings in strictly increasing `str` order.
pub open spec fn strictly_ascending(s: Seq<Seq<char>>) -> bool {
    forall|i: int, j: int| 0 <= i < j < s.len() ==> text_before(#[trigger] s[i], #[trigger] s[j])
}

/// Adds `x` to a strictly ascending list of names unless it is already there.
pub fn insert_name(out: &mut Vec<String>, x: &String)
    requires
        strictly_ascending(strings_view(old(out)@)),
    ensures
        strictly_ascending(strings_view(final(out)@)),
        forall|y: Seq<char>|
            strings_view(final(out)@).contains(y) <==> (strings_view(old(out)@).contains(y) || y == x@),
{
    let ghost before = strings_view(out@);
    let mut p: usize = 0;
    while p < out.len() && str_less(out[p].as_str(), x.as_str())
        invariant
            p <= out@.len(),
            before == strings_view(out@),
            forall|q: int| 0 <= q < p ==> text_before(#[trigger] before[q], x@),
        decreases out@.len() - p,
    {
        p = p + 1;
    }
    if p < out.len() && out[p] == *x {
        assert(before[p as int] == x@);
        return;
    }
    proof {
        if p < before.len() {
            lemma_text_total(before[p as int], x@);
        }
        lemma_text_strict(x@, x@);
    }
    out.insert(p, x.clone());
    let ghost after = strings_view(out@);
    proof {
        assert(after =~= before.insert(p as int, x@));
        assert forall|i: int, j: int| 0 <= i < j < after.len() implies text_before(
            #[trigger] after[i],
            #[trigger] after[j],
        ) by {
            if j < p {
                assert(after[i] == before[i] && after[j] == before[j]);
            } else if j == p {
                assert(after[i] == before[i]);
            } else if i == p {
                assert(after[j] == before[j - 1]);
                if j - 1 > p {
                    lemma_text_transitive(x@, before[p as int], before[j - 1]);
                }
            } else if i < p {
                assert(after[i] == before[i] && after[j] == before[j - 1]);
            } else {
                assert(after[i] == before[i - 1] && after[j] == before[j - 1]);
            }
        }
        assert forall|y: Seq<char>| after.contains(y) <==> (before.contains(y) || y == x@) by {
            if after.contains(y) {
                let k = choose|k: int| 0 <= k < after.len() && after[k] == y;
                if k < p {
                    assert(before[k] == y);
                } else if k > p {
                    assert(before[k - 1] == y);
                }
            }
            if before.contains(y) {
                let k = choose|k: int| 0 <= k < before.len() && before[k] == y;
                if k < p {
                    assert(after[k] == y);
                } else {
                    assert(after[k + 1] == y);
                }
            }
            if y == x@ {
                assert(after[p as int] == y);
            }
        }
    }
}

/// What a sequence with one more element contains.
pub proof fn lemma_push_contains<A>(s: Seq<A>, v: A)
    ensures
        forall|y: A| #[trigger] s.push(v).contains(y) <==> (s.contains(y) || y == v),
{
    assert forall|y: A| #[trigger] s.push(v).contains(y) <==> (s.contains(y) || y == v) by {
        if s.push(v).contains(y) {
            let k = choose|k: int| 0 <= k < s.push(v).len() && s.push(v)[k] == y;
            if k < s.len() {
                assert(s[k] == y);
            }
        }
        if s.contains(y) {
            let k = choose|k: int| 0 <= k < s.len() && s[k] == y;
            assert(s.push(v)[k] == y);
        }
        if y == v {
            assert(s.push(v)[s.len() as int] == y);
        }
    }
}

/// The names of `a` and of `b`, each once, in `str` order.
pub fn merged_names(a: &Vec<String>, b: &Vec<String>) -> (r: Vec<String>)
    ensures
        strictly_ascending(strings_view(r@)),
        forall|y: Seq<char>|
            strings_view(r@).contains(y) <==> (strings_view(a@).contains(y) || strings_view(b@).contains(y)),
{
    let mut out: Vec<String> = Vec::new();
    let mut i: usize = 0;
    while i < a.len()
        invariant
            i <= a@.len(),
            strictly_ascending(strings_view(out@)),
            forall|y: Seq<char>| strings_view(out@).contains(y) <==> strings_view(a@).take(i as int).contains(y),
        decreases a@.len() - i,
    {
        insert_name(&mut out, &a[i]);
        assert(strings_view(a@).take(i + 1) =~= strings_view(a@).take(i as int).push(a@[i as int]@));
        proof {
            lemma_push_contains(strings_view(a@).take(i as int), a@[i as int]@);
        }
        i = i + 1;
    }
    assert(strings_view(a@).take(a@.len() as int) =~= strings_view(a@));
    let mut j: usize = 0;
    while j < b.len()
        invariant
            j <= b@.len(),
            strictly_ascending(strings_view(out@)),
            forall|y: Seq<char>|
                strings_view(out@).contains(y) <==> (strings_view(a@).contains(y) || strings_view(b@).take(
                    j as int,
                ).contains(y)),
        decreases b@.len() - j,
    {
        insert_name(&mut out, &b[j]);
        assert(strings_view(b@).take(j + 1) =~= strings_view(b@).take(j as int).push(b@[j as int]@));
        proof {
            lemma_push_contains(strings_view(b@).take(j as int), b@[j as int]@);
        }
        j = j + 1;
    }
    assert(strings_view(b@).take(b@.len() as int) =~= strings_view(b@));
    out
}

/// Whether byte string `a` comes before `b`.
pub fn bytes_less(a: &[u8], b: &[u8]) -> (r: bool)
    ensures
        r == bytes_before(a@, b@),
{
    let mut i: usize = 0;
    assert(a@.skip(0) =~= a@);
    assert(b@.skip(0) =~= b@);
    while i < a.len() && i < b.len() && a[i] == b[i]
        invariant
            i <= a@.len(),
            i <= b@.len(),
            bytes_before(a@, b@) == bytes_before(a@.skip(i as int), b@.skip(i as int)),
        decreases a@.len() - i,
    {
        assert(a@.skip(i as int).drop_first() =~= a@.skip(i + 1));
        assert(b@.skip(i as int).drop_first() =~= b@.skip(i + 1));
        i = i + 1;
    }
    if i == a.len() {
        i < b.len()
    } else if i == b.len() {
        false
    } else {
        a[i] < b[i]
    }
}

/// Whether string `a` comes before `b` in `str` order.
pub fn str_less(a: &str, b: &str) -> (r: bool)
    ensures
        r == text_before(a@, b@),
{
    bytes_less(a.as_bytes(), b.as_bytes())
}

/// A sort key: a rank, then two strings compared by their bytes.
pub ghost struct SortKey {
    pub rank: nat,
    pub first: Seq<u8>,
    pub second: Seq<u8>,
}

/// Lexicographic order on sort keys.
pub open spec fn key_before(a: SortKey, b: SortKey) -> bool {
    a.rank < b.rank || (a.rank == b.rank && (bytes_before(a.first, b.first) || (a.first == b.first
        && bytes_before(a.second, b.second))))
}

/// The key order is transitive.
pub proof fn lemma_key_transitive(a: SortKey, b: SortKey, c: SortKey)
    requires
        key_before(a, b),
        key_before(b, c),
    ensures
        key_before(a, c),
{
    if a.rank == b.rank && b.rank == c.rank {
        if bytes_before(a.first, b.first) && bytes_before(b.first, c.first) {
            lemma_bytes_transitive(a.first, b.first, c.first);
        } else if a.first == b.first && b.first == c.first {
            lemma_bytes_transitive(a.second, b.second, c.second);
        }
    }
}

/// Mapping two sequences with the same elements gives sequences with the same elements.
pub proof fn lemma_map_same_elements<A, B>(s1: Seq<A>, s2: Seq<A>, f: spec_fn(A) -> B)
    requires
        s1.to_multiset() == s2.to_multiset(),
    ensures
        s1.map_values(f).to_multiset() == s2.map_values(f).to_multiset(),
    decreases s1.len(),
{
    broadcast use vstd::multiset::group_multiset_axioms;

    if s1.len() == 0 {
        assert(s2.len() == 0) by {
            vstd::seq_lib::to_multiset_len(s1);
            vstd::seq_lib::to_multiset_len(s2);
        }
        assert(s1.map_values(f) =~= s2.map_values(f));
    } else {
        let x = s1.last();
        let s1p = s1.drop_last();
        assert(s1 =~= s1p.push(x));
        vstd::seq_lib::to_multiset_build(s1p, x);
        vstd::seq_lib::to_multiset_contains(s2, x);
        assert(s2.to_multiset().count(x) > 0);
        assert(s2.contains(x));
        let j = choose|j: int| 0 <= j < s2.len() && s2[j] == x;
        let s2p = s2.remove(j);
        vstd::seq_lib::to_multiset_remove(s2, j);
        assert(s1p.to_multiset() =~= s2p.to_multiset());
        lemma_map_same_elements(s1p, s2p, f);
        assert(s1.map_values(f) =~= s1p.map_values(f).push(f(x)));
        assert(s2.map_values(f) =~= s2p.map_values(f).insert(j, f(x)));
        vstd::seq_lib::to_multiset_build(s1p.map_values(f), f(x));
        vstd::seq_lib::to_multiset_insert(s2p.map_values(f), j, f(x));
    }
}

/// Values with a sort key.
pub trait Keyed {
    /// The value's sort key.
    spec fn sort_key(&self) -> SortKey;

    /// Whether this value's key comes before `other`'s.
    fn key_less(&self, other: &Self) -> (r: bool)
        ensures
            r == key_before(self.sort_key(), other.sort_key()),
    ;
}

/// No element's key comes before the key of an element placed earlier.
pub open spec fn sorted_by_key<T: Keyed>(s: Seq<T>) -> bool {
    forall|i: int, j: int|
        0 <= i < j < s.len() ==> !key_before(#[trigger] s[j].sort_key(), #[trigger] s[i].sort_key())
}

/// Sorts by key, keeping equal keys in their input order.
pub fn sort_by_key<T: Keyed>(v: Vec<T>) -> (r: Vec<T>)
    ensures
        r@.to_multiset() == v@.to_multiset(),
        sorted_by_key(r@),
{
    let ghost all = v@;
    let mut rest = v;
    let mut out: Vec<T> = Vec::new();
    let mut k: usize = 0;
    let n = rest.len();
    while rest.len() > 0
        invariant
            k + rest@.len() == all.len(),
            all.len() == n,
            rest@ == all.skip(k as int),
            out@.to_multiset() == all.take(k as int).to_multiset(),
            sorted_by_key(out@),
        decreases rest@.len(),
    {
        let x = rest.remove(0);
        let mut p: usize = 0;
        while p < out.len() && !x.key_less(&out[p])
            invariant
                p <= out@.len(),
                forall|q: int| 0 <= q < p ==> !key_before(x.sort_key(), #[trigger] out@[q].sort_key()),
            decreases out@.len() - p,
        {
            p = p + 1;
        }
        let ghost before = out@;
        proof {
            assert forall|q: int| p <= q < before.len() implies !key_before(
                #[trigger] before[q].sort_key(),
                x.sort_key(),
            ) by {
                assert(key_before(x.sort_key(), before[p as int].sort_key()));
                if key_before(before[q].sort_key(), x.sort_key()) {
                    lemma_key_transitive(before[q].sort_key(), x.sort_key(), before[p as int].sort_key());
                    if q > p {
                        assert(!key_before(before[q].sort_key(), before[p as int].sort_key()));
                    } else {
                        lemma_bytes_irreflexive(before[q].sort_key().first);
                        lemma_bytes_irreflexive(before[q].sort_key().second);
                    }
                }
            }
        }
        out.insert(p, x);
        proof {
            let s = out@;
            assert(s == before.insert(p as int, x));
            assert forall|i: int, j: int| 0 <= i < j < s.len() implies !key_before(
                #[trigger] s[j].sort_key(),
                #[trigger] s[i].sort_key(),
            ) by {
                if j < p {
                    assert(s[i] == before[i] && s[j] == before[j]);
                } else if j == p {
                    assert(s[i] == before[i]);
                } else if i == p {
                    assert(s[j] == before[j - 1]);
                } else if i < p {
                    assert(s[i] == before[i] && s[j] == before[j - 1]);
                } else {
                    assert(s[i] == before[i - 1] && s[j] == before[j - 1]);
                }
            }
            assert(all.take(k + 1) =~= all.take(k as int).push(x));
            vstd::seq_lib::to_multiset_insert(before, p as int, x);
            assert(rest@ =~= all.skip(k + 1));
        }
        k = k + 1;
    }
    assert(all.take(k as int) =~= all);
    out
}

} // verus!
