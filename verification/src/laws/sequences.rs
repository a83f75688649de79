//! Sequences that hold the same.

use vstd::prelude::*;

verus! {

/// Sequences without repetition that hold the same are permutations of each
/// other.
pub proof fn same_members<A>(x: Seq<A>, y: Seq<A>)
    requires
        x.no_duplicates(),
        y.no_duplicates(),
        forall|a: A| #[trigger] x.contains(a) <==> y.contains(a),
    ensures
        x.to_multiset() == y.to_multiset(),
{
    broadcast use vstd::seq_lib::group_to_multiset_ensures;

    x.lemma_multiset_has_no_duplicates();
    y.lemma_multiset_has_no_duplicates();
    assert forall|a: A| x.to_multiset().count(a) == y.to_multiset().count(a) by {
        assert(x.contains(a) <==> y.contains(a));
        assert(x.to_multiset().contains(a) <==> x.to_multiset().count(a) > 0);
        assert(y.to_multiset().contains(a) <==> y.to_multiset().count(a) > 0);
    }
    assert(x.to_multiset() =~= y.to_multiset());
}

/// Sequences without repetition that hold the same, both in the order of a key,
/// have the same keys in the same places.
pub proof fn same_keys<A, V>(
    x: Seq<A>,
    y: Seq<A>,
    key: spec_fn(A) -> V,
    le: spec_fn(V, V) -> bool,
)
    requires
        x.no_duplicates(),
        y.no_duplicates(),
        forall|a: A| #[trigger] x.contains(a) <==> y.contains(a),
        forall|v: V, w: V| #[trigger] le(v, w) && le(w, v) ==> v == w,
        forall|i: int, j: int|
            #![trigger x[i], x[j]]
            0 <= i < j < x.len() ==> le(key(x[i]), key(x[j])),
        forall|i: int, j: int|
            #![trigger y[i], y[j]]
            0 <= i < j < y.len() ==> le(key(y[i]), key(y[j])),
    ensures
        x.map_values(key) == y.map_values(key),
    decreases x.len(),
{
    if x.len() == 0 {
        if y.len() > 0 {
            assert(x.contains(y[0]) <==> y.contains(y[0]));
        }
        assert(x.map_values(key) =~= y.map_values(key));
    } else {
        let last = x.last();
        assert(x[x.len() - 1] == last);
        assert(x.contains(last) <==> y.contains(last));
        let j = choose|j: int| 0 <= j < y.len() && y[j] == last;
        let top = y.last();
        assert(y[y.len() - 1] == top);
        assert(y.contains(top));
        assert(x.contains(top));
        let k = choose|k: int| 0 <= k < x.len() && x[k] == top;
        let high = key(last);
        assert(key(top) == high) by {
            if top != last {
                assert(le(key(x[k]), key(x[x.len() - 1])));
                assert(le(key(y[j]), key(y[y.len() - 1])));
                assert(le(key(top), high) && le(high, key(top)));
            }
        }
        assert forall|i: int| j <= i < y.len() implies key(#[trigger] y[i]) == high by {
            if j < i && i < y.len() - 1 {
                assert(le(key(y[j]), key(y[i])));
                assert(le(key(y[i]), key(y[y.len() - 1])));
                assert(le(high, key(y[i])) && le(key(y[i]), high));
            }
        }
        let a = x.drop_last();
        let b = y.remove(j);
        assert(forall|i: int| 0 <= i < a.len() ==> #[trigger] a[i] == x[i]);
        assert(forall|i: int|
            0 <= i < b.len() ==> #[trigger] b[i] == if i < j {
                y[i]
            } else {
                y[i + 1]
            });
        assert forall|v: A| #[trigger] a.contains(v) <==> b.contains(v) by {
            if a.contains(v) {
                let i = choose|i: int| 0 <= i < a.len() && a[i] == v;
                assert(x[i] == v && v != last);
                assert(x.contains(v));
                let l = choose|l: int| 0 <= l < y.len() && y[l] == v;
                assert(b[if l < j { l } else { l - 1 }] == v);
            }
            if b.contains(v) {
                let l = choose|l: int| 0 <= l < b.len() && b[l] == v;
                let m = if l < j { l } else { l + 1 };
                assert(y[m] == v && v != last);
                assert(y.contains(v));
                assert(x.contains(v));
                let i = choose|i: int| 0 <= i < x.len() && x[i] == v;
                assert(a[i] == v);
            }
        }
        assert forall|i: int, l: int|
            #![trigger b[i], b[l]]
            0 <= i < l < b.len() implies le(key(b[i]), key(b[l])) by {
            let m = if i < j { i } else { i + 1 };
            let o = if l < j { l } else { l + 1 };
            assert(le(key(y[m]), key(y[o])));
        }
        same_keys(a, b, key, le);
        assert(y.len() == x.len()) by {
            assert(a.map_values(key).len() == b.map_values(key).len());
        }
        assert forall|i: int| 0 <= i < x.len() implies key(#[trigger] x[i]) == key(y[i]) by {
            if i < a.len() {
                assert(a.map_values(key)[i] == b.map_values(key)[i]);
                assert(a[i] == x[i]);
                if i >= j {
                    assert(key(b[i]) == key(y[i + 1]));
                    assert(key(y[i]) == high && key(y[i + 1]) == high);
                }
            } else {
                assert(key(y[i]) == high);
            }
        }
        assert(x.map_values(key) =~= y.map_values(key));
    }
}

/// To filter by a key and to filter the keys is the same.
pub proof fn filter_by_key<A, V>(
    x: Seq<A>,
    p: spec_fn(A) -> bool,
    key: spec_fn(A) -> V,
    q: spec_fn(V) -> bool,
)
    requires
        forall|a: A| #[trigger] p(a) == q(key(a)),
    ensures
        x.filter(p).map_values(key) == x.map_values(key).filter(q),
    decreases x.len(),
{
    reveal(Seq::filter);
    let keys = x.map_values(key);
    if x.len() == 0 {
        assert(x.filter(p).map_values(key) =~= keys.filter(q));
    } else {
        let fewer = x.drop_last();
        filter_by_key(fewer, p, key, q);
        assert(keys.drop_last() =~= fewer.map_values(key));
        assert(p(x.last()) == q(keys.last()));
        assert(fewer.filter(p).push(x.last()).map_values(key) =~= fewer.filter(p).map_values(
            key,
        ).push(key(x.last())));
    }
}

/// What one element adds to the images of those that pass.
proof fn one_image<A, B>(x: Seq<A>, p: spec_fn(A) -> bool, f: spec_fn(A) -> B, j: int)
    requires
        0 <= j < x.len(),
    ensures
        ({
            let others = x.remove(j).filter(p).map_values(f).to_multiset();
            x.filter(p).map_values(f).to_multiset() == if p(x[j]) {
                others.insert(f(x[j]))
            } else {
                others
            }
        }),
{
    let a = x.take(j);
    let b = seq![x[j]];
    let c = x.skip(j + 1);
    assert(x =~= a + b + c);
    assert(x.remove(j) =~= a + c);
    Seq::filter_distributes_over_add(a + b, c, p);
    Seq::filter_distributes_over_add(a, b, p);
    Seq::filter_distributes_over_add(a, c, p);
    let one = b.filter(p);
    assert(one == if p(x[j]) {
        b
    } else {
        Seq::empty()
    }) by {
        reveal(Seq::filter);
        assert(b.drop_last() =~= Seq::<A>::empty());
        assert(Seq::<A>::empty().filter(p) =~= Seq::<A>::empty());
        assert(Seq::<A>::empty().push(x[j]) =~= b);
    }
    let left = a.filter(p).map_values(f);
    let others = x.remove(j).filter(p).map_values(f);
    if p(x[j]) {
        assert(x.filter(p).map_values(f) =~= others.insert(left.len() as int, f(x[j])));
        vstd::seq_lib::to_multiset_insert(others, left.len() as int, f(x[j]));
    } else {
        assert(x.filter(p) =~= x.remove(j).filter(p));
    }
}

/// Of permutations of each other, the images of those that pass are permutations
/// of each other.
pub proof fn same_images<A, B>(x: Seq<A>, y: Seq<A>, p: spec_fn(A) -> bool, f: spec_fn(A) -> B)
    requires
        x.to_multiset() == y.to_multiset(),
    ensures
        x.filter(p).map_values(f).to_multiset() == y.filter(p).map_values(f).to_multiset(),
    decreases x.len(),
{
    broadcast use vstd::seq_lib::group_to_multiset_ensures;

    vstd::seq_lib::to_multiset_len(x);
    vstd::seq_lib::to_multiset_len(y);
    if x.len() == 0 {
        assert(x =~= y);
    } else {
        let i = x.len() - 1;
        assert(x.contains(x[i]));
        assert(x.to_multiset().count(x[i]) > 0);
        assert(y.contains(x[i]));
        let j = choose|j: int| 0 <= j < y.len() && y[j] == x[i];
        assert(x.remove(i).to_multiset() == y.remove(j).to_multiset());
        same_images(x.remove(i), y.remove(j), p, f);
        one_image(x, p, f, i);
        one_image(y, p, f, j);
    }
}

} // verus!
