//! Histories that hold each fact once, told apart by a key.

use crate::order::{in_order, lemma_in_order, put_in, Precedence};
use vstd::prelude::*;

verus! {

/// Some element has the key `k`.
pub open spec fn holds<A, K>(s: Seq<A>, key: spec_fn(A) -> K, k: K) -> bool {
    exists|i: int| 0 <= i < s.len() && key(#[trigger] s[i]) == k
}

/// No two elements have the same key.
pub open spec fn distinct<A, K>(s: Seq<A>, key: spec_fn(A) -> K) -> bool {
    forall|i: int, j: int| 0 <= i < j < s.len() ==> key(#[trigger] s[i]) != key(#[trigger] s[j])
}

/// A history with the elements of a batch behind it, each only where its key was
/// not there yet.
pub open spec fn merged<A, K>(s: Seq<A>, batch: Seq<A>, key: spec_fn(A) -> K) -> Seq<A>
    decreases batch.len(),
{
    if batch.len() == 0 {
        s
    } else {
        let before = merged(s, batch.drop_last(), key);
        if holds(before, key, key(batch.last())) {
            before
        } else {
            before.push(batch.last())
        }
    }
}

proof fn lemma_push_holds<A, K>(s: Seq<A>, x: A, key: spec_fn(A) -> K, k: K)
    ensures
        holds(s.push(x), key, k) <==> holds(s, key, k) || k == key(x),
{
    let t = s.push(x);
    if holds(s, key, k) {
        let i = choose|i: int| 0 <= i < s.len() && key(#[trigger] s[i]) == k;
        assert(t[i] == s[i]);
    }
    assert(t[s.len() as int] == x);
}

/// Merging keeps the history in front, holds the keys of both parts and no other,
/// and keeps the keys distinct.
pub proof fn lemma_merged<A, K>(s: Seq<A>, batch: Seq<A>, key: spec_fn(A) -> K)
    ensures
        s.len() <= merged(s, batch, key).len() <= s.len() + batch.len(),
        merged(s, batch, key).take(s.len() as int) == s,
        forall|k: K| #[trigger]
            holds(merged(s, batch, key), key, k) <==> holds(s, key, k) || holds(batch, key, k),
        distinct(s, key) ==> distinct(merged(s, batch, key), key),
        forall|x: A| #[trigger]
            merged(s, batch, key).contains(x) ==> s.contains(x) || batch.contains(x),
    decreases batch.len(),
{
    let m = merged(s, batch, key);
    if batch.len() == 0 {
        assert(m.take(s.len() as int) =~= s);
    } else {
        let rest = batch.drop_last();
        let x = batch.last();
        let before = merged(s, rest, key);
        lemma_merged(s, rest, key);
        assert(batch =~= rest.push(x));
        assert forall|k: K| #[trigger]
            holds(m, key, k) <==> holds(s, key, k) || holds(batch, key, k) by {
            lemma_push_holds(rest, x, key, k);
            lemma_push_holds(before, x, key, k);
        }
        if !holds(before, key, key(x)) {
            assert(m.take(s.len() as int) =~= before.take(s.len() as int));
            if distinct(s, key) {
                assert forall|i: int, j: int| 0 <= i < j < m.len() implies key(#[trigger] m[i])
                    != key(#[trigger] m[j]) by {
                    assert(m[i] == before[i]);
                    if j < before.len() {
                        assert(m[j] == before[j]);
                    }
                }
            }
        }
        assert forall|y: A| #[trigger] m.contains(y) implies s.contains(y) || batch.contains(y) by {
            let i = choose|i: int| 0 <= i < m.len() && m[i] == y;
            if i < before.len() {
                assert(before[i] == y);
                assert(before.contains(y));
                if rest.contains(y) {
                    let j = choose|j: int| 0 <= j < rest.len() && rest[j] == y;
                    assert(batch[j] == y);
                }
            } else {
                assert(batch[batch.len() - 1] == y);
            }
        }
    }
}

/// A batch of which every key is known adds nothing.
pub proof fn lemma_merged_known<A, K>(s: Seq<A>, batch: Seq<A>, key: spec_fn(A) -> K)
    requires
        forall|i: int| 0 <= i < batch.len() ==> holds(s, key, key(#[trigger] batch[i])),
    ensures
        merged(s, batch, key) == s,
    decreases batch.len(),
{
    if batch.len() > 0 {
        let rest = batch.drop_last();
        assert forall|i: int| 0 <= i < rest.len() implies holds(
            s,
            key,
            key(#[trigger] rest[i]),
        ) by {
            assert(rest[i] == batch[i]);
        }
        lemma_merged_known(s, rest, key);
        assert(batch.last() == batch[batch.len() - 1]);
    }
}

proof fn lemma_put_in_distinct<T: DeepView, P: Precedence<T>, K>(
    s: Seq<T::V>,
    x: T::V,
    key: spec_fn(T::V) -> K,
)
    requires
        distinct(s, key),
        !holds(s, key, key(x)),
    ensures
        distinct(put_in::<T, P>(s, x), key),
        forall|k: K| #[trigger]
            holds(put_in::<T, P>(s, x), key, k) <==> holds(s, key, k) || k == key(x),
    decreases s.len(),
{
    let r = put_in::<T, P>(s, x);
    if s.len() == 0 || !P::before(x, s.last()) {
        assert forall|k: K| #[trigger] holds(r, key, k) <==> holds(s, key, k) || k == key(x) by {
            lemma_push_holds(s, x, key, k);
        }
        assert forall|i: int, j: int| 0 <= i < j < r.len() implies key(#[trigger] r[i]) != key(
            #[trigger] r[j],
        ) by {
            assert(r[i] == s[i]);
            if j < s.len() {
                assert(r[j] == s[j]);
            }
        }
    } else {
        let rest = s.drop_last();
        let last = s.last();
        assert(s =~= rest.push(last));
        lemma_push_holds(rest, last, key, key(x));
        assert(distinct(rest, key)) by {
            assert forall|i: int, j: int| 0 <= i < j < rest.len() implies key(#[trigger] rest[i])
                != key(#[trigger] rest[j]) by {
                assert(rest[i] == s[i] && rest[j] == s[j]);
            }
        }
        lemma_put_in_distinct::<T, P, K>(rest, x, key);
        let inner = put_in::<T, P>(rest, x);
        assert(!holds(rest, key, key(last))) by {
            if holds(rest, key, key(last)) {
                let i = choose|i: int| 0 <= i < rest.len() && key(#[trigger] rest[i]) == key(last);
                assert(s[i] == rest[i]);
                assert(s[s.len() - 1] == last);
            }
        }
        assert(!holds(inner, key, key(last)));
        assert forall|k: K| #[trigger] holds(r, key, k) <==> holds(s, key, k) || k == key(x) by {
            lemma_push_holds(inner, last, key, k);
            lemma_push_holds(rest, last, key, k);
        }
        assert forall|i: int, j: int| 0 <= i < j < r.len() implies key(#[trigger] r[i]) != key(
            #[trigger] r[j],
        ) by {
            assert(r[i] == inner[i]);
            if j < inner.len() {
                assert(r[j] == inner[j]);
            }
        }
    }
}

/// Putting a history in order keeps its keys, and keeps them distinct.
pub proof fn lemma_in_order_distinct<T: DeepView, P: Precedence<T>, K>(
    s: Seq<T::V>,
    key: spec_fn(T::V) -> K,
)
    requires
        distinct(s, key),
    ensures
        distinct(in_order::<T, P>(s), key),
        forall|k: K| #[trigger] holds(in_order::<T, P>(s), key, k) <==> holds(s, key, k),
    decreases s.len(),
{
    if s.len() > 0 {
        let rest = s.drop_last();
        let last = s.last();
        assert(s =~= rest.push(last));
        assert(distinct(rest, key)) by {
            assert forall|i: int, j: int| 0 <= i < j < rest.len() implies key(#[trigger] rest[i])
                != key(#[trigger] rest[j]) by {
                assert(rest[i] == s[i] && rest[j] == s[j]);
            }
        }
        lemma_in_order_distinct::<T, P, K>(rest, key);
        assert(!holds(rest, key, key(last))) by {
            if holds(rest, key, key(last)) {
                let i = choose|i: int| 0 <= i < rest.len() && key(#[trigger] rest[i]) == key(last);
                assert(s[i] == rest[i]);
                assert(s[s.len() - 1] == last);
            }
        }
        lemma_put_in_distinct::<T, P, K>(in_order::<T, P>(rest), last, key);
        assert forall|k: K| #[trigger] holds(in_order::<T, P>(s), key, k) <==> holds(s, key, k) by {
            lemma_push_holds(rest, last, key, k);
        }
    }
}

/// A history in order holds the same keys.
pub proof fn lemma_in_order_holds<T: DeepView, P: Precedence<T>, K>(
    s: Seq<T::V>,
    key: spec_fn(T::V) -> K,
    k: K,
)
    ensures
        holds(in_order::<T, P>(s), key, k) <==> holds(s, key, k),
{
    lemma_in_order::<T, P>(s);
    let o = in_order::<T, P>(s);
    if holds(o, key, k) {
        let i = choose|i: int| 0 <= i < o.len() && key(#[trigger] o[i]) == k;
        assert(o.contains(o[i]));
        assert(s.contains(o[i]));
        let j = choose|j: int| 0 <= j < s.len() && s[j] == o[i];
        assert(key(s[j]) == k);
    }
    if holds(s, key, k) {
        let i = choose|i: int| 0 <= i < s.len() && key(#[trigger] s[i]) == k;
        assert(s.contains(s[i]));
        assert(o.contains(s[i]));
        let j = choose|j: int| 0 <= j < o.len() && o[j] == s[i];
        assert(key(o[j]) == k);
    }
}

/// Of a batch the first element with a key that is not there yet is taken in, as it is.
pub proof fn law_the_first_with_a_new_key_is_taken_in<A, K>(
    s: Seq<A>,
    batch: Seq<A>,
    key: spec_fn(A) -> K,
    i: int,
)
    requires
        0 <= i < batch.len(),
        forall|j: int| 0 <= j < s.len() ==> key(#[trigger] s[j]) != key(batch[i]),
        forall|j: int| 0 <= j < i ==> key(#[trigger] batch[j]) != key(batch[i]),
    ensures
        merged(s, batch, key).contains(batch[i]),
    decreases batch.len(),
{
    let rest = batch.drop_last();
    let before = merged(s, rest, key);
    let x = batch[i];
    if i < rest.len() {
        assert(rest[i] == x);
        assert forall|j: int| 0 <= j < i implies key(#[trigger] rest[j]) != key(rest[i]) by {
            assert(rest[j] == batch[j]);
        }
        law_the_first_with_a_new_key_is_taken_in(s, rest, key, i);
        let k = choose|k: int| 0 <= k < before.len() && before[k] == x;
        assert(merged(s, batch, key)[k] == x);
    } else {
        lemma_merged(s, rest, key);
        if holds(rest, key, key(x)) {
            let j = choose|j: int| 0 <= j < rest.len() && key(#[trigger] rest[j]) == key(x);
            assert(rest[j] == batch[j]);
        }
        assert(!holds(before, key, key(x)));
        assert(merged(s, batch, key)[before.len() as int] == x);
    }
}

/// What is taken in comes from the batch, is new, and comes once; what was there stays
/// where it is. Nothing is taken in exactly where every key was there.
pub proof fn law_taking_in_adds_only_new_keys<A, K>(s: Seq<A>, batch: Seq<A>, key: spec_fn(A) -> K)
    ensures
        s.len() <= merged(s, batch, key).len() <= s.len() + batch.len(),
        forall|i: int| 0 <= i < s.len() ==> #[trigger] merged(s, batch, key)[i] == s[i],
        forall|i: int|
            s.len() <= i < merged(s, batch, key).len() ==> batch.contains(
                #[trigger] merged(s, batch, key)[i],
            ),
        forall|i: int, j: int|
            0 <= j < i && s.len() <= i < merged(s, batch, key).len() ==> key(
                #[trigger] merged(s, batch, key)[j],
            ) != key(#[trigger] merged(s, batch, key)[i]),
        merged(s, batch, key).len() == s.len() <==> forall|i: int|
            0 <= i < batch.len() ==> holds(s, key, key(#[trigger] batch[i])),
    decreases batch.len(),
{
    let m = merged(s, batch, key);
    if batch.len() > 0 {
        let rest = batch.drop_last();
        let before = merged(s, rest, key);
        law_taking_in_adds_only_new_keys(s, rest, key);
        lemma_merged(s, rest, key);
        assert forall|i: int| s.len() <= i < m.len() implies batch.contains(#[trigger] m[i]) by {
            if i < before.len() {
                assert(rest.contains(before[i]));
                let k = choose|k: int| 0 <= k < rest.len() && rest[k] == before[i];
                assert(batch[k] == m[i]);
            } else {
                assert(batch[batch.len() - 1] == m[i]);
            }
        }
        assert forall|i: int, j: int| 0 <= j < i && s.len() <= i < m.len() implies key(
            #[trigger] m[j],
        ) != key(#[trigger] m[i]) by {
            if i < before.len() {
                assert(before[i] == m[i] && before[j] == m[j]);
            } else {
                assert(before[j] == m[j]);
                assert(!holds(before, key, key(m[i])));
            }
        }
        if forall|i: int| 0 <= i < batch.len() ==> holds(s, key, key(#[trigger] batch[i])) {
            lemma_merged_known(s, batch, key);
        }
        if m.len() == s.len() {
            assert(m == before);
            assert(before.take(s.len() as int) =~= before);
            assert forall|i: int| 0 <= i < batch.len() implies holds(
                s,
                key,
                key(#[trigger] batch[i]),
            ) by {
                if i < rest.len() {
                    assert(rest[i] == batch[i]);
                }
            }
        }
    }
}

} // verus!
