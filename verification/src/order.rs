//! Stable sorting by a strict weak order.

use vstd::prelude::*;

verus! {

/// An order on the values of `T`, given over their views.
pub trait Precedence<T: DeepView> {
    /// `a` comes strictly before `b`.
    spec fn before(a: T::V, b: T::V) -> bool;

    /// Of two values at most one comes before the other, and not coming before
    /// is transitive.
    proof fn weak_order(a: T::V, b: T::V, c: T::V)
        ensures
            !(Self::before(a, b) && Self::before(b, a)),
            !Self::before(b, a) && !Self::before(c, b) ==> !Self::before(c, a),
    ;

    /// Whether `a` comes strictly before `b`.
    fn is_before(a: &T, b: &T) -> (r: bool)
        ensures
            r == Self::before(a.deep_view(), b.deep_view()),
    ;
}

/// `s` with `x` put in behind every element that `x` does not come before.
pub open spec fn put_in<T: DeepView, P: Precedence<T>>(s: Seq<T::V>, x: T::V) -> Seq<T::V>
    decreases s.len(),
{
    if s.len() == 0 || !P::before(x, s.last()) {
        s.push(x)
    } else {
        put_in::<T, P>(s.drop_last(), x).push(s.last())
    }
}

/// The elements of `s` in order, equal ones as they stood.
pub open spec fn in_order<T: DeepView, P: Precedence<T>>(s: Seq<T::V>) -> Seq<T::V>
    decreases s.len(),
{
    if s.len() == 0 {
        s
    } else {
        put_in::<T, P>(in_order::<T, P>(s.drop_last()), s.last())
    }
}

/// No element comes before one that stands in front of it.
pub open spec fn is_ordered<T: DeepView, P: Precedence<T>>(s: Seq<T::V>) -> bool {
    forall|i: int, j: int| 0 <= i < j < s.len() ==> !P::before(#[trigger] s[j], #[trigger] s[i])
}

/// Where `put_in` places its element.
proof fn lemma_put_in_at<T: DeepView, P: Precedence<T>>(s: Seq<T::V>, x: T::V, k: int)
    requires
        0 <= k <= s.len(),
        forall|j: int| k <= j < s.len() ==> P::before(x, #[trigger] s[j]),
        k > 0 ==> !P::before(x, s[k - 1]),
    ensures
        put_in::<T, P>(s, x) == s.insert(k, x),
    decreases s.len(),
{
    if k == s.len() {
        assert(s.insert(k, x) =~= s.push(x));
    } else {
        lemma_put_in_at::<T, P>(s.drop_last(), x, k);
        assert(s.drop_last().insert(k, x).push(s.last()) =~= s.insert(k, x));
    }
}

/// `put_in` keeps the order and adds exactly its element.
proof fn lemma_put_in<T: DeepView, P: Precedence<T>>(s: Seq<T::V>, x: T::V)
    requires
        is_ordered::<T, P>(s),
    ensures
        is_ordered::<T, P>(put_in::<T, P>(s, x)),
        put_in::<T, P>(s, x).to_multiset() == s.to_multiset().insert(x),
        put_in::<T, P>(s, x).len() == s.len() + 1,
        forall|i: int| 0 <= i < s.len() + 1 ==> {
            ||| #[trigger] put_in::<T, P>(s, x)[i] == x
            ||| s.contains(put_in::<T, P>(s, x)[i])
        },
    decreases s.len(),
{
    broadcast use vstd::seq_lib::group_to_multiset_ensures;

    let r = put_in::<T, P>(s, x);
    if s.len() == 0 || !P::before(x, s.last()) {
        assert forall|i: int, j: int| 0 <= i < j < r.len() implies !P::before(
            #[trigger] r[j],
            #[trigger] r[i],
        ) by {
            if j == s.len() {
                P::weak_order(s[i], s.last(), x);
                P::weak_order(x, x, x);
                if i < s.len() - 1 {
                    assert(!P::before(s[s.len() - 1], s[i]));
                }
            }
        }
    } else {
        let t = s.drop_last();
        let q = put_in::<T, P>(t, x);
        lemma_put_in::<T, P>(t, x);
        assert(s =~= t.push(s.last()));
        assert forall|i: int, j: int| 0 <= i < j < r.len() implies !P::before(
            #[trigger] r[j],
            #[trigger] r[i],
        ) by {
            if j == q.len() {
                assert(r[i] == q[i]);
                P::weak_order(x, s.last(), x);
                if q[i] != x {
                    let k = choose|k: int| 0 <= k < t.len() && t[k] == q[i];
                    assert(s[k] == q[i]);
                    assert(!P::before(s[s.len() - 1], s[k]));
                }
            } else {
                assert(!P::before(q[j], q[i]));
            }
        }
        assert(s.to_multiset() =~= t.to_multiset().insert(s.last()));
        assert(r.to_multiset() =~= s.to_multiset().insert(x));
        assert forall|i: int| 0 <= i < s.len() + 1 implies {
            ||| #[trigger] r[i] == x
            ||| s.contains(r[i])
        } by {
            if i < q.len() {
                assert(r[i] == q[i]);
                if q[i] != x {
                    let k = choose|k: int| 0 <= k < t.len() && t[k] == q[i];
                    assert(s[k] == q[i]);
                }
            } else {
                assert(s[s.len() - 1] == r[i]);
            }
        }
    }
}

/// Sorting yields the same elements, in order.
pub proof fn lemma_in_order<T: DeepView, P: Precedence<T>>(s: Seq<T::V>)
    ensures
        is_ordered::<T, P>(in_order::<T, P>(s)),
        in_order::<T, P>(s).to_multiset() == s.to_multiset(),
        in_order::<T, P>(s).len() == s.len(),
        forall|x: T::V| in_order::<T, P>(s).contains(x) <==> s.contains(x),
    decreases s.len(),
{
    broadcast use vstd::seq_lib::group_to_multiset_ensures;

    if s.len() > 0 {
        lemma_in_order::<T, P>(s.drop_last());
        lemma_put_in::<T, P>(in_order::<T, P>(s.drop_last()), s.last());
        assert(s =~= s.drop_last().push(s.last()));
        assert(s.to_multiset() =~= s.drop_last().to_multiset().insert(s.last()));
    }
    let r = in_order::<T, P>(s);
    assert forall|x: T::V| r.contains(x) <==> s.contains(x) by {
        assert(r.contains(x) <==> r.to_multiset().count(x) > 0);
        assert(s.contains(x) <==> s.to_multiset().count(x) > 0);
    }
}

/// A sequence that is in order already is not changed.
pub proof fn lemma_in_order_of_ordered<T: DeepView, P: Precedence<T>>(s: Seq<T::V>)
    requires
        is_ordered::<T, P>(s),
    ensures
        in_order::<T, P>(s) == s,
    decreases s.len(),
{
    if s.len() > 0 {
        let t = s.drop_last();
        assert forall|i: int, j: int| 0 <= i < j < t.len() implies !P::before(
            #[trigger] t[j],
            #[trigger] t[i],
        ) by {
            assert(!P::before(s[j], s[i]));
        }
        lemma_in_order_of_ordered::<T, P>(t);
        if t.len() > 0 {
            assert(!P::before(s[s.len() - 1], s[s.len() - 2]));
        }
        assert(t.push(s.last()) =~= s);
    }
}

/// Elements that the order does not tell apart keep the order in which they
/// stood: any choice of mutually equal elements reads the same before and after.
pub proof fn lemma_in_order_is_stable<T: DeepView, P: Precedence<T>>(
    s: Seq<T::V>,
    chosen: spec_fn(T::V) -> bool,
)
    requires
        forall|a: T::V, b: T::V| chosen(a) && chosen(b) ==> !P::before(a, b),
    ensures
        in_order::<T, P>(s).filter(chosen) == s.filter(chosen),
    decreases s.len(),
{
    if s.len() > 0 {
        let t = s.drop_last();
        lemma_in_order_is_stable::<T, P>(t, chosen);
        lemma_put_in_is_stable::<T, P>(in_order::<T, P>(t), s.last(), chosen);
        reveal(Seq::filter);
        assert(s.filter(chosen) == (if chosen(s.last()) {
            t.filter(chosen).push(s.last())
        } else {
            t.filter(chosen)
        }));
    }
}

proof fn lemma_put_in_is_stable<T: DeepView, P: Precedence<T>>(
    s: Seq<T::V>,
    x: T::V,
    chosen: spec_fn(T::V) -> bool,
)
    requires
        forall|a: T::V, b: T::V| chosen(a) && chosen(b) ==> !P::before(a, b),
    ensures
        put_in::<T, P>(s, x).filter(chosen) == (if chosen(x) {
            s.filter(chosen).push(x)
        } else {
            s.filter(chosen)
        }),
    decreases s.len(),
{
    reveal(Seq::filter);
    let r = put_in::<T, P>(s, x);
    if s.len() == 0 || !P::before(x, s.last()) {
        assert(r.drop_last() =~= s);
    } else {
        lemma_put_in_is_stable::<T, P>(s.drop_last(), x, chosen);
        assert(r.drop_last() =~= put_in::<T, P>(s.drop_last(), x));
    }
}

/// `v` sorted by `P`, equal elements as they stood.
pub fn sorted<T: DeepView, P: Precedence<T>>(v: Vec<T>) -> (out: Vec<T>)
    ensures
        out.deep_view() == in_order::<T, P>(v.deep_view()),
{
    let mut out: Vec<T> = Vec::new();
    let ghost all = v.deep_view();
    assert(all.take(0) =~= Seq::empty());
    assert(out.deep_view() =~= Seq::empty());
    for x in it: v.into_iter()
        invariant
            it.seq() == v@,
            all == v.deep_view(),
            out.deep_view() == in_order::<T, P>(all.take(it.index() as int)),
    {
        let ghost n = it.index() as int;
        let ghost before = out.deep_view();
        let mut at: usize = out.len();
        while at > 0 && P::is_before(&x, &out[at - 1])
            invariant
                at <= out.len(),
                before == out.deep_view(),
                forall|j: int|
                    at <= j < before.len() ==> P::before(x.deep_view(), #[trigger] before[j]),
            decreases at,
        {
            assert(before[at - 1] == out@[at - 1].deep_view());
            at -= 1;
        }
        proof {
            if at > 0 {
                assert(before[at - 1] == out@[at - 1].deep_view());
            }
            lemma_put_in_at::<T, P>(before, x.deep_view(), at as int);
            assert(all.take(n + 1).drop_last() =~= all.take(n));
            assert(all.take(n + 1).last() == x.deep_view());
        }
        out.insert(at, x);
        assert(out.deep_view() =~= before.insert(at as int, x.deep_view()));
    }
    assert(all.take(all.len() as int) =~= all);
    out
}

} // verus!
