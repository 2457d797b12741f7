//! A collection of records that are found by a text key, each key at most once.

use crate::order::{in_order, is_ordered, lemma_in_order, sorted, Precedence};
use crate::text::{lemma_text_lt_irreflexive, lemma_text_lt_total, lemma_text_lt_transitive, same_text, text_before, text_lt};
use vstd::prelude::*;

verus! {

/// A record that carries the key it is found by.
pub trait Keyed: DeepView + Sized {
    /// The key of a record.
    spec fn key_of(v: Self::V) -> Seq<char>;

    /// The key.
    fn key(&self) -> (k: &str)
        ensures
            k@ == Self::key_of(self.deep_view()),
    ;

    /// Another record with the same contents.
    fn duplicate(&self) -> (r: Self)
        ensures
            r.deep_view() == self.deep_view(),
    ;
}

/// A test on records.
pub trait Selection<T: DeepView> {
    /// Whether a record is chosen.
    spec fn selects(&self, v: T::V) -> bool;

    /// What the test itself needs to hold.
    spec fn ready(&self) -> bool;

    /// Whether `row` is chosen.
    fn test(&self, row: &T) -> (r: bool)
        requires
            self.ready(),
        ensures
            r == self.selects(row.deep_view()),
    ;
}

/// Every record.
pub struct All;

impl<T: DeepView> Selection<T> for All {
    open spec fn selects(&self, v: T::V) -> bool {
        true
    }

    open spec fn ready(&self) -> bool {
        true
    }

    fn test(&self, row: &T) -> (r: bool) {
        true
    }
}

/// The record at `i` has the key `k`.
pub open spec fn key_at<T: Keyed>(s: Seq<T::V>, i: int, k: Seq<char>) -> bool {
    0 <= i < s.len() && T::key_of(s[i]) == k
}

/// Some record of `s` has the key `k`.
pub open spec fn has_key<T: Keyed>(s: Seq<T::V>, k: Seq<char>) -> bool {
    exists|i: int| key_at::<T>(s, i, k)
}

/// No two records of `s` share a key.
pub open spec fn distinct_keys<T: Keyed>(s: Seq<T::V>) -> bool {
    forall|i: int, j: int|
        0 <= i < j < s.len() ==> T::key_of(#[trigger] s[i]) != T::key_of(#[trigger] s[j])
}

/// The records of `s` by their keys.
pub open spec fn by_key<T: Keyed>(s: Seq<T::V>) -> Map<Seq<char>, T::V> {
    Map::new(|k: Seq<char>| has_key::<T>(s, k), |k: Seq<char>| s[choose|i: int| key_at::<T>(s, i, k)])
}

/// Records in ascending order of their keys.
pub struct ByKey;

impl<T: Keyed> Precedence<T> for ByKey {
    open spec fn before(a: T::V, b: T::V) -> bool {
        text_lt(T::key_of(a), T::key_of(b))
    }

    proof fn weak_order(a: T::V, b: T::V, c: T::V) {
        let (x, y, z) = (T::key_of(a), T::key_of(b), T::key_of(c));
        lemma_text_lt_irreflexive(x);
        if text_lt(x, y) && text_lt(y, x) {
            lemma_text_lt_transitive(x, y, x);
        }
        if !text_lt(y, x) && !text_lt(z, y) && text_lt(z, x) {
            lemma_text_lt_total(x, y);
            lemma_text_lt_total(y, z);
            if text_lt(x, y) {
                lemma_text_lt_transitive(z, x, y);
            }
        }
    }

    fn is_before(a: &T, b: &T) -> (r: bool) {
        text_before(a.key(), b.key())
    }
}

/// `out` lists exactly those records of `m` that `p` chooses, in ascending order
/// of their keys.
pub open spec fn lists<T: Keyed>(
    out: Seq<T::V>,
    m: Map<Seq<char>, T::V>,
    p: spec_fn(T::V) -> bool,
) -> bool {
    &&& forall|i: int, j: int|
        0 <= i < j < out.len() ==> text_lt(
            T::key_of(#[trigger] out[i]),
            T::key_of(#[trigger] out[j]),
        )
    &&& forall|v: T::V|
        out.contains(v) <==> p(v) && m.contains_key(T::key_of(v)) && m[T::key_of(v)] == v
}

/// `out` lists exactly those records of `m` that `p` chooses, each once, in the
/// order `P`; records that `P` does not tell apart stand in any order.
pub open spec fn lists_by<T: Keyed, P: Precedence<T>>(
    out: Seq<T::V>,
    m: Map<Seq<char>, T::V>,
    p: spec_fn(T::V) -> bool,
) -> bool {
    &&& is_ordered::<T, P>(out)
    &&& distinct_keys::<T>(out)
    &&& forall|v: T::V|
        out.contains(v) <==> p(v) && m.contains_key(T::key_of(v)) && m[T::key_of(v)] == v
}

/// Where keys are distinct, the record at `i` is the one found by its key.
pub proof fn lemma_by_key_at<T: Keyed>(s: Seq<T::V>, i: int)
    requires
        distinct_keys::<T>(s),
        0 <= i < s.len(),
    ensures
        by_key::<T>(s).contains_key(T::key_of(s[i])),
        by_key::<T>(s)[T::key_of(s[i])] == s[i],
{
    let k = T::key_of(s[i]);
    assert(key_at::<T>(s, i, k));
    let j = choose|j: int| key_at::<T>(s, j, k);
    assert(key_at::<T>(s, j, k));
    if i < j {
        assert(T::key_of(s[i]) != T::key_of(s[j]));
    }
    if j < i {
        assert(T::key_of(s[j]) != T::key_of(s[i]));
    }
}

/// A record found by a key has that key and stands in the sequence.
pub proof fn lemma_by_key_found<T: Keyed>(s: Seq<T::V>, k: Seq<char>)
    requires
        by_key::<T>(s).contains_key(k),
    ensures
        T::key_of(by_key::<T>(s)[k]) == k,
        s.contains(by_key::<T>(s)[k]),
{
    let j = choose|j: int| key_at::<T>(s, j, k);
    assert(key_at::<T>(s, j, k));
    assert(s[j] == by_key::<T>(s)[k]);
}

proof fn lemma_push<T: Keyed>(s: Seq<T::V>, x: T::V)
    requires
        distinct_keys::<T>(s),
        !by_key::<T>(s).contains_key(T::key_of(x)),
    ensures
        distinct_keys::<T>(s.push(x)),
        by_key::<T>(s.push(x)) == by_key::<T>(s).insert(T::key_of(x), x),
{
    let r = s.push(x);
    let kx = T::key_of(x);
    assert(!has_key::<T>(s, kx));
    assert forall|i: int, j: int| 0 <= i < j < r.len() implies T::key_of(#[trigger] r[i])
        != T::key_of(#[trigger] r[j]) by {
        if j == s.len() {
            assert(!key_at::<T>(s, i, kx));
        }
    }
    let m = by_key::<T>(r);
    let n = by_key::<T>(s).insert(kx, x);
    assert forall|k: Seq<char>| m.contains_key(k) <==> n.contains_key(k) by {
        if m.contains_key(k) {
            let j = choose|j: int| key_at::<T>(r, j, k);
            assert(key_at::<T>(r, j, k));
            if j < s.len() {
                assert(key_at::<T>(s, j, k));
            }
        }
        if n.contains_key(k) && k != kx {
            let j = choose|j: int| key_at::<T>(s, j, k);
            assert(key_at::<T>(s, j, k));
            assert(key_at::<T>(r, j, k));
        }
        if k == kx {
            assert(key_at::<T>(r, s.len() as int, k));
        }
    }
    assert forall|k: Seq<char>| m.contains_key(k) implies m[k] == n[k] by {
        let j = choose|j: int| key_at::<T>(r, j, k);
        assert(key_at::<T>(r, j, k));
        lemma_by_key_at::<T>(r, j);
        if j < s.len() {
            lemma_by_key_at::<T>(s, j);
            assert(!key_at::<T>(s, j, kx));
        }
    }
    assert(m =~= n);
}

proof fn lemma_update<T: Keyed>(s: Seq<T::V>, i: int, x: T::V)
    requires
        distinct_keys::<T>(s),
        0 <= i < s.len(),
        T::key_of(s[i]) == T::key_of(x),
    ensures
        distinct_keys::<T>(s.update(i, x)),
        by_key::<T>(s.update(i, x)) == by_key::<T>(s).insert(T::key_of(x), x),
{
    let r = s.update(i, x);
    let kx = T::key_of(x);
    assert forall|a: int, b: int| 0 <= a < b < r.len() implies T::key_of(#[trigger] r[a])
        != T::key_of(#[trigger] r[b]) by {
        assert(T::key_of(s[a]) != T::key_of(s[b]));
    }
    let m = by_key::<T>(r);
    let n = by_key::<T>(s).insert(kx, x);
    assert forall|k: Seq<char>| m.contains_key(k) <==> n.contains_key(k) by {
        if m.contains_key(k) {
            let j = choose|j: int| key_at::<T>(r, j, k);
            assert(key_at::<T>(r, j, k));
            assert(key_at::<T>(s, j, k));
        }
        if n.contains_key(k) && k != kx {
            let j = choose|j: int| key_at::<T>(s, j, k);
            assert(key_at::<T>(s, j, k));
            assert(key_at::<T>(r, j, k));
        }
        if k == kx {
            assert(key_at::<T>(r, i, k));
        }
    }
    assert forall|k: Seq<char>| m.contains_key(k) implies m[k] == n[k] by {
        let j = choose|j: int| key_at::<T>(r, j, k);
        assert(key_at::<T>(r, j, k));
        lemma_by_key_at::<T>(r, j);
        lemma_by_key_at::<T>(s, j);
        if j != i {
            assert(k != kx) by {
                if j < i {
                    assert(T::key_of(s[j]) != T::key_of(s[i]));
                } else {
                    assert(T::key_of(s[i]) != T::key_of(s[j]));
                }
            }
        }
    }
    assert(m =~= n);
}

/// With distinct keys there are as many keys as records.
pub proof fn lemma_by_key_len<T: Keyed>(s: Seq<T::V>)
    requires
        distinct_keys::<T>(s),
    ensures
        by_key::<T>(s).dom().finite(),
        by_key::<T>(s).dom().len() == s.len(),
    decreases s.len(),
{
    if s.len() == 0 {
        assert forall|k: Seq<char>| !by_key::<T>(s).contains_key(k) by {
            if has_key::<T>(s, k) {
                let j = choose|j: int| key_at::<T>(s, j, k);
                assert(key_at::<T>(s, j, k));
            }
        }
        assert(by_key::<T>(s).dom() =~= Set::empty());
    } else {
        let t = s.drop_last();
        let x = s.last();
        assert forall|i: int, j: int| 0 <= i < j < t.len() implies T::key_of(#[trigger] t[i])
            != T::key_of(#[trigger] t[j]) by {
            assert(T::key_of(s[i]) != T::key_of(s[j]));
        }
        lemma_by_key_len::<T>(t);
        assert(!by_key::<T>(t).contains_key(T::key_of(x))) by {
            if has_key::<T>(t, T::key_of(x)) {
                let j = choose|j: int| key_at::<T>(t, j, T::key_of(x));
                assert(key_at::<T>(t, j, T::key_of(x)));
                assert(T::key_of(s[j]) != T::key_of(s[s.len() - 1]));
            }
        }
        lemma_push::<T>(t, x);
        assert(t.push(x) =~= s);
        assert(by_key::<T>(s).dom() =~= by_key::<T>(t).dom().insert(T::key_of(x)));
    }
}

/// Sorting the chosen records in any order lists them in that order.
proof fn lemma_lists_by<T: Keyed, P: Precedence<T>>(s: Seq<T::V>, p: spec_fn(T::V) -> bool)
    requires
        distinct_keys::<T>(s),
    ensures
        lists_by::<T, P>(in_order::<T, P>(s.filter(p)), by_key::<T>(s), p),
{
    let f = s.filter(p);
    let out = in_order::<T, P>(f);
    lemma_in_order::<T, P>(f);
    lemma_filter_distinct::<T>(s, p);
    assert forall|v: T::V| out.contains(v) <==> p(v) && by_key::<T>(s).contains_key(T::key_of(v))
        && by_key::<T>(s)[T::key_of(v)] == v by {
        if out.contains(v) {
            assert(f.contains(v));
            lemma_filter_from::<T::V>(s, p, v);
            let i = choose|i: int| 0 <= i < s.len() && s[i] == v;
            lemma_by_key_at::<T>(s, i);
        }
        if p(v) && by_key::<T>(s).contains_key(T::key_of(v)) && by_key::<T>(s)[T::key_of(v)] == v {
            lemma_by_key_found::<T>(s, T::key_of(v));
            lemma_filter_into::<T::V>(s, p, v);
        }
    }
    assert forall|i: int, j: int| 0 <= i < j < out.len() implies T::key_of(#[trigger] out[i])
        != T::key_of(#[trigger] out[j]) by {
        lemma_permuted_distinct::<T>(f, out, i, j);
    }
}

/// Sorting the chosen records by key lists them.
proof fn lemma_lists<T: Keyed>(s: Seq<T::V>, p: spec_fn(T::V) -> bool)
    requires
        distinct_keys::<T>(s),
    ensures
        lists::<T>(in_order::<T, ByKey>(s.filter(p)), by_key::<T>(s), p),
{
    let out = in_order::<T, ByKey>(s.filter(p));
    lemma_lists_by::<T, ByKey>(s, p);
    assert forall|i: int, j: int| 0 <= i < j < out.len() implies text_lt(
        T::key_of(#[trigger] out[i]),
        T::key_of(#[trigger] out[j]),
    ) by {
        assert(!<ByKey as Precedence<T>>::before(out[j], out[i]));
        lemma_text_lt_total(T::key_of(out[i]), T::key_of(out[j]));
    }
}

/// A listing by key is determined by what it lists: there is only one.
pub proof fn law_listing_is_unique<T: Keyed>(
    a: Seq<T::V>,
    b: Seq<T::V>,
    m: Map<Seq<char>, T::V>,
    p: spec_fn(T::V) -> bool,
)
    requires
        lists::<T>(a, m, p),
        lists::<T>(b, m, p),
    ensures
        a == b,
{
    lemma_ascending_unique::<T>(a, b);
}

/// Two sequences in strictly ascending order of keys that hold the same records
/// are equal.
proof fn lemma_ascending_unique<T: Keyed>(a: Seq<T::V>, b: Seq<T::V>)
    requires
        forall|i: int, j: int|
            0 <= i < j < a.len() ==> text_lt(
                T::key_of(#[trigger] a[i]),
                T::key_of(#[trigger] a[j]),
            ),
        forall|i: int, j: int|
            0 <= i < j < b.len() ==> text_lt(
                T::key_of(#[trigger] b[i]),
                T::key_of(#[trigger] b[j]),
            ),
        forall|v: T::V| a.contains(v) <==> b.contains(v),
    ensures
        a == b,
    decreases a.len(),
{
    if a.len() == 0 {
        if b.len() > 0 {
            assert(b.contains(b[0]));
        }
        assert(a =~= b);
    } else {
        assert(a.contains(a[0]));
        let k = choose|k: int| 0 <= k < b.len() && b[k] == a[0];
        assert(b.contains(b[0]));
        let j = choose|j: int| 0 <= j < a.len() && a[j] == b[0];
        if k > 0 {
            assert(text_lt(T::key_of(b[0]), T::key_of(b[k])));
            if j > 0 {
                assert(text_lt(T::key_of(a[0]), T::key_of(a[j])));
                lemma_text_lt_transitive(T::key_of(a[0]), T::key_of(b[0]), T::key_of(a[0]));
            }
            lemma_text_lt_irreflexive(T::key_of(a[0]));
        }
        assert(a[0] == b[0]);
        let (x, y) = (a.drop_first(), b.drop_first());
        assert forall|v: T::V| x.contains(v) <==> y.contains(v) by {
            lemma_text_lt_irreflexive(T::key_of(v));
            if x.contains(v) {
                let i = choose|i: int| 0 <= i < x.len() && x[i] == v;
                assert(a[i + 1] == v);
                assert(text_lt(T::key_of(a[0]), T::key_of(a[i + 1])));
                assert(b.contains(v));
                let n = choose|n: int| 0 <= n < b.len() && b[n] == v;
                assert(n != 0);
                assert(y[n - 1] == v);
            }
            if y.contains(v) {
                let i = choose|i: int| 0 <= i < y.len() && y[i] == v;
                assert(b[i + 1] == v);
                assert(text_lt(T::key_of(b[0]), T::key_of(b[i + 1])));
                assert(a.contains(v));
                let n = choose|n: int| 0 <= n < a.len() && a[n] == v;
                assert(n != 0);
                assert(x[n - 1] == v);
            }
        }
        lemma_ascending_unique::<T>(x, y);
        assert(a =~= seq![a[0]] + x);
        assert(b =~= seq![b[0]] + y);
    }
}

/// What a filter keeps was there and satisfies the test.
pub proof fn lemma_filter_from<A>(s: Seq<A>, p: spec_fn(A) -> bool, v: A)
    requires
        s.filter(p).contains(v),
    ensures
        p(v),
        s.contains(v),
    decreases s.len(),
{
    reveal(Seq::filter);
    if s.len() > 0 {
        let t = s.drop_last();
        if t.filter(p).contains(v) {
            lemma_filter_from(t, p, v);
            let i = choose|i: int| 0 <= i < t.len() && t[i] == v;
            assert(s[i] == v);
        } else {
            assert(s[s.len() - 1] == v);
        }
    }
}

/// What was there and satisfies the test is kept by a filter.
pub proof fn lemma_filter_into<A>(s: Seq<A>, p: spec_fn(A) -> bool, v: A)
    requires
        p(v),
        s.contains(v),
    ensures
        s.filter(p).contains(v),
    decreases s.len(),
{
    reveal(Seq::filter);
    let i = choose|i: int| 0 <= i < s.len() && s[i] == v;
    let t = s.drop_last();
    if i == s.len() - 1 {
        assert(s.filter(p)[s.filter(p).len() - 1] == v);
    } else {
        assert(t[i] == v);
        lemma_filter_into(t, p, v);
        let k = choose|k: int| 0 <= k < t.filter(p).len() && t.filter(p)[k] == v;
        assert(s.filter(p)[k] == v);
    }
}

proof fn lemma_filter_distinct<T: Keyed>(s: Seq<T::V>, p: spec_fn(T::V) -> bool)
    requires
        distinct_keys::<T>(s),
    ensures
        distinct_keys::<T>(s.filter(p)),
    decreases s.len(),
{
    reveal(Seq::filter);
    if s.len() > 0 {
        let t = s.drop_last();
        assert forall|i: int, j: int| 0 <= i < j < t.len() implies T::key_of(#[trigger] t[i])
            != T::key_of(#[trigger] t[j]) by {
            assert(T::key_of(s[i]) != T::key_of(s[j]));
        }
        lemma_filter_distinct::<T>(t, p);
        let f = s.filter(p);
        let g = t.filter(p);
        if p(s.last()) {
            assert forall|i: int, j: int| 0 <= i < j < f.len() implies T::key_of(#[trigger] f[i])
                != T::key_of(#[trigger] f[j]) by {
                if j == g.len() {
                    assert(g.contains(g[i]));
                    lemma_filter_from(t, p, g[i]);
                    let k = choose|k: int| 0 <= k < t.len() && t[k] == g[i];
                    assert(T::key_of(s[k]) != T::key_of(s[s.len() - 1]));
                } else {
                    assert(T::key_of(g[i]) != T::key_of(g[j]));
                }
            }
        }
    }
}

/// Two places of a rearrangement of records with distinct keys hold different
/// keys.
proof fn lemma_permuted_distinct<T: Keyed>(s: Seq<T::V>, out: Seq<T::V>, i: int, j: int)
    requires
        distinct_keys::<T>(s),
        out.to_multiset() == s.to_multiset(),
        0 <= i < j < out.len(),
    ensures
        T::key_of(out[i]) != T::key_of(out[j]),
{
    broadcast use vstd::seq_lib::group_to_multiset_ensures;

    assert(s.contains(out[i])) by {
        assert(out.contains(out[i]));
        assert(out.to_multiset().count(out[i]) > 0);
    }
    assert(s.contains(out[j])) by {
        assert(out.contains(out[j]));
        assert(out.to_multiset().count(out[j]) > 0);
    }
    let a = choose|a: int| 0 <= a < s.len() && s[a] == out[i];
    let b = choose|b: int| 0 <= b < s.len() && s[b] == out[j];
    if T::key_of(out[i]) == T::key_of(out[j]) {
        if a < b {
            assert(T::key_of(s[a]) != T::key_of(s[b]));
        }
        if b < a {
            assert(T::key_of(s[b]) != T::key_of(s[a]));
        }
        assert(a == b);
        assert(s.no_duplicates()) by {
            assert forall|x: int, y: int| 0 <= x < s.len() && 0 <= y < s.len() && x != y implies s[x]
                != s[y] by {
                if x < y {
                    assert(T::key_of(s[x]) != T::key_of(s[y]));
                } else {
                    assert(T::key_of(s[y]) != T::key_of(s[x]));
                }
            }
        }
        s.lemma_multiset_has_no_duplicates();
        assert(out.to_multiset().count(out[i]) <= 1);
        let rest = out.remove(j);
        assert(rest[i] == out[i]);
        assert(rest.contains(out[i]));
        assert(out.to_multiset() =~= rest.to_multiset().insert(out[j])) by {
            assert(rest.insert(j, out[j]) =~= out);
        }
        assert(rest.to_multiset().count(out[i]) > 0);
        assert(false);
    }
}

/// Records by key, in the order in which they were added.
#[derive(Debug, PartialEq, Eq)]
pub struct Registry<T> {
    rows: Vec<T>,
}

impl<T: Keyed> Clone for Registry<T> {
    fn clone(&self) -> (r: Self)
        ensures
            r.sequence() == self.sequence(),
    {
        let mut rows: Vec<T> = Vec::new();
        let mut i: usize = 0;
        while i < self.rows.len()
            invariant
                i <= self.rows.len(),
                rows@.len() == i,
                forall|j: int|
                    0 <= j < i ==> (#[trigger] rows@[j]).deep_view()
                        == self.rows@[j].deep_view(),
            decreases self.rows.len() - i,
        {
            rows.push(self.rows[i].duplicate());
            i += 1;
        }
        let r: Registry<T> = Registry { rows };
        assert(r.sequence() =~= self.sequence());
        r
    }
}

impl<T: Keyed> DeepView for Registry<T> {
    type V = Map<Seq<char>, T::V>;

    open spec fn deep_view(&self) -> Map<Seq<char>, T::V> {
        by_key::<T>(self.sequence())
    }
}

impl<T: Keyed> View for Registry<T> {
    type V = Map<Seq<char>, T::V>;

    open spec fn view(&self) -> Map<Seq<char>, T::V> {
        by_key::<T>(self.sequence())
    }
}

impl<T: Keyed> Registry<T> {
    /// The records in the order in which they were added.
    pub closed spec fn sequence(&self) -> Seq<T::V> {
        self.rows.deep_view()
    }

    /// Each key occurs at most once.
    pub open spec fn well_formed(&self) -> bool {
        distinct_keys::<T>(self.sequence())
    }

    /// A registry without records.
    pub fn new() -> (r: Self)
        ensures
            r.well_formed(),
            r.sequence() == Seq::<T::V>::empty(),
            r@ == Map::<Seq<char>, T::V>::empty(),
    {
        let r: Registry<T> = Registry { rows: Vec::new() };
        assert(r.sequence() =~= Seq::<T::V>::empty());
        assert forall|k: Seq<char>| !r@.contains_key(k) by {
            if has_key::<T>(r.sequence(), k) {
                let j = choose|j: int| key_at::<T>(r.sequence(), j, k);
                assert(key_at::<T>(r.sequence(), j, k));
            }
        }
        assert(r@ =~= Map::<Seq<char>, T::V>::empty());
        r
    }

    /// The number of records.
    pub fn len(&self) -> (n: usize)
        requires
            self.well_formed(),
        ensures
            n == self.sequence().len(),
            n == self@.dom().len(),
    {
        proof {
            lemma_by_key_len::<T>(self.sequence());
        }
        self.rows.len()
    }

    /// The place of the record with `key`.
    fn position(&self, key: &str) -> (r: Option<usize>)
        requires
            self.well_formed(),
        ensures
            r is Some <==> self@.contains_key(key@),
            r is Some ==> r->0 < self.rows@.len() && self.sequence()[r->0 as int] == self@[key@]
                && T::key_of(self.sequence()[r->0 as int]) == key@,
    {
        let mut i: usize = 0;
        while i < self.rows.len()
            invariant
                self.well_formed(),
                i <= self.rows.len(),
                forall|j: int| 0 <= j < i ==> !key_at::<T>(self.sequence(), j, key@),
            decreases self.rows.len() - i,
        {
            assert(self.sequence()[i as int] == self.rows@[i as int].deep_view());
            if same_text(self.rows[i].key(), key) {
                proof {
                    lemma_by_key_at::<T>(self.sequence(), i as int);
                }
                return Some(i);
            }
            i += 1;
        }
        None
    }

    /// Whether there is a record with `key`.
    pub fn contains_key(&self, key: &str) -> (r: bool)
        requires
            self.well_formed(),
        ensures
            r == self@.contains_key(key@),
    {
        self.position(key).is_some()
    }

    /// The record with `key`.
    pub fn get(&self, key: &str) -> (r: Option<&T>)
        requires
            self.well_formed(),
        ensures
            r is Some <==> self@.contains_key(key@),
            r is Some ==> r->0.deep_view() == self@[key@] && T::key_of(self@[key@]) == key@,
    {
        match self.position(key) {
            Some(i) => {
                assert(self.sequence()[i as int] == self.rows@[i as int].deep_view());
                Some(&self.rows[i])
            },
            None => None,
        }
    }

    /// Adds `row` under its key, in place of the record that had it.
    pub fn insert(&mut self, row: T)
        requires
            old(self).well_formed(),
        ensures
            final(self).well_formed(),
            final(self)@ == old(self)@.insert(T::key_of(row.deep_view()), row.deep_view()),
            !old(self)@.contains_key(T::key_of(row.deep_view())) ==> final(self).sequence()
                == old(self).sequence().push(row.deep_view()),
    {
        let ghost s = self.sequence();
        let ghost x = row.deep_view();
        match self.position(row.key()) {
            Some(i) => {
                proof {
                    lemma_update::<T>(s, i as int, x);
                }
                self.rows.set(i, row);
                assert(self.sequence() =~= s.update(i as int, x));
            },
            None => {
                proof {
                    lemma_push::<T>(s, x);
                }
                self.rows.push(row);
                assert(self.sequence() =~= s.push(x));
            },
        }
    }

    /// Copies of the chosen records, in the order in which they were added.
    pub fn chosen<S: Selection<T>>(&self, selection: &S) -> (out: Vec<T>)
        requires
            selection.ready(),
        ensures
            out.deep_view() == self.sequence().filter(|v: T::V| selection.selects(v)),
    {
        let ghost p = |v: T::V| selection.selects(v);
        let ghost s = self.sequence();
        let mut out: Vec<T> = Vec::new();
        let mut i: usize = 0;
        proof {
            reveal(Seq::filter);
            assert(s.take(0) =~= Seq::empty());
            assert(out.deep_view() =~= Seq::empty());
        }
        while i < self.rows.len()
            invariant
                selection.ready(),
                i <= self.rows.len(),
                s == self.sequence(),
                s == self.rows.deep_view(),
                p == (|v: T::V| selection.selects(v)),
                out.deep_view() == s.take(i as int).filter(p),
            decreases self.rows.len() - i,
        {
            let ghost before = out.deep_view();
            proof {
                reveal(Seq::filter);
                assert(s.take(i + 1).drop_last() =~= s.take(i as int));
                assert(s[i as int] == self.rows@[i as int].deep_view());
            }
            if selection.test(&self.rows[i]) {
                out.push(self.rows[i].duplicate());
                assert(out.deep_view() =~= before.push(s[i as int]));
            }
            i += 1;
        }
        assert(s.take(s.len() as int) =~= s);
        out
    }

    /// Copies of the chosen records, in ascending order of their keys.
    pub fn listed<S: Selection<T>>(&self, selection: &S) -> (out: Vec<T>)
        requires
            self.well_formed(),
            selection.ready(),
        ensures
            lists::<T>(out.deep_view(), self@, |v: T::V| selection.selects(v)),
    {
        proof {
            lemma_lists::<T>(self.sequence(), |v: T::V| selection.selects(v));
        }
        sorted::<T, ByKey>(self.chosen(selection))
    }

    /// Copies of the chosen records, in the order `P`.
    pub fn listed_by<P: Precedence<T>, S: Selection<T>>(&self, selection: &S) -> (out: Vec<T>)
        requires
            self.well_formed(),
            selection.ready(),
        ensures
            lists_by::<T, P>(out.deep_view(), self@, |v: T::V| selection.selects(v)),
    {
        proof {
            lemma_lists_by::<T, P>(self.sequence(), |v: T::V| selection.selects(v));
        }
        sorted::<T, P>(self.chosen(selection))
    }
}

} // verus!
