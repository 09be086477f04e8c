//! Stable sorting, stated as insertion sort over a strict order.
use crate::text::{
    lemma_seq_lt_irreflexive, lemma_seq_lt_total, lemma_seq_lt_transitive, seq_lt, str_eq, str_lt,
    views,
};
use vstd::prelude::*;

verus! {

/// `x` placed before the first element that it sorts strictly before.
pub open spec fn insert_sorted<A>(x: A, s: Seq<A>, lt: spec_fn(A, A) -> bool) -> Seq<A>
    decreases s.len(),
{
    if s.len() == 0 {
        seq![x]
    } else if lt(x, s[0]) {
        seq![x] + s
    } else {
        seq![s[0]] + insert_sorted(x, s.drop_first(), lt)
    }
}

/// The stable sort of `s` by `lt`: elements that compare equal keep their
/// order.
pub open spec fn insertion_sort<A>(s: Seq<A>, lt: spec_fn(A, A) -> bool) -> Seq<A>
    decreases s.len(),
{
    if s.len() == 0 {
        s
    } else {
        insert_sorted(s.last(), insertion_sort(s.drop_last(), lt), lt)
    }
}

/// Inserting at the first position `p` whose element `x` sorts before.
pub proof fn lemma_insert_at<A>(x: A, s: Seq<A>, p: int, lt: spec_fn(A, A) -> bool)
    requires
        0 <= p <= s.len(),
        forall|j: int| 0 <= j < p ==> !lt(x, #[trigger] s[j]),
        p == s.len() || lt(x, s[p]),
    ensures
        insert_sorted(x, s, lt) == s.take(p) + seq![x] + s.skip(p),
    decreases p,
{
    if s.len() == 0 {
        assert(s.take(p) + seq![x] + s.skip(p) =~= seq![x]);
    } else if p == 0 {
        assert(s.take(0) + seq![x] + s.skip(0) =~= seq![x] + s);
    } else {
        let d = s.drop_first();
        assert forall|j: int| 0 <= j < p - 1 implies !lt(x, #[trigger] d[j]) by {
            assert(d[j] == s[j + 1]);
        }
        if p < s.len() {
            assert(d[p - 1] == s[p]);
        }
        lemma_insert_at(x, d, p - 1, lt);
        assert(!lt(x, s[0]));
        assert(seq![s[0]] + (d.take(p - 1) + seq![x] + d.skip(p - 1)) =~= s.take(p) + seq![x]
            + s.skip(p));
    }
}

/// `lt` is a strict order: irreflexive and transitive.
pub open spec fn strict_order<A>(lt: spec_fn(A, A) -> bool) -> bool {
    &&& forall|a: A| !#[trigger] lt(a, a)
    &&& forall|a: A, b: A, c: A| #[trigger] lt(a, b) && #[trigger] lt(b, c) ==> lt(a, c)
}

/// No element sorts strictly before an element ahead of it.
pub open spec fn sorted_by<A>(s: Seq<A>, lt: spec_fn(A, A) -> bool) -> bool {
    forall|i: int, j: int| 0 <= i < j < s.len() ==> !lt(#[trigger] s[j], #[trigger] s[i])
}

/// Where `insert_sorted` puts `x`: before the first element it sorts before.
pub open spec fn insert_pos<A>(x: A, s: Seq<A>, lt: spec_fn(A, A) -> bool) -> int
    decreases s.len(),
{
    if s.len() == 0 {
        0
    } else if lt(x, s[0]) {
        0
    } else {
        1 + insert_pos(x, s.drop_first(), lt)
    }
}

proof fn lemma_insert_pos<A>(x: A, s: Seq<A>, lt: spec_fn(A, A) -> bool)
    ensures
        0 <= insert_pos(x, s, lt) <= s.len(),
        forall|j: int| 0 <= j < insert_pos(x, s, lt) ==> !lt(x, #[trigger] s[j]),
        insert_pos(x, s, lt) == s.len() || lt(x, s[insert_pos(x, s, lt)]),
    decreases s.len(),
{
    if s.len() > 0 && !lt(x, s[0]) {
        let d = s.drop_first();
        lemma_insert_pos(x, d, lt);
        assert forall|j: int| 0 <= j < insert_pos(x, s, lt) implies !lt(x, #[trigger] s[j]) by {
            if j > 0 {
                assert(s[j] == d[j - 1]);
            }
        }
        if insert_pos(x, s, lt) < s.len() {
            assert(s[insert_pos(x, s, lt)] == d[insert_pos(x, d, lt)]);
        }
    }
}

/// Inserting into a sorted sequence keeps it sorted and adds `x` to its
/// elements.
pub proof fn lemma_insert_sorted<A>(x: A, s: Seq<A>, lt: spec_fn(A, A) -> bool)
    requires
        strict_order(lt),
        sorted_by(s, lt),
    ensures
        sorted_by(insert_sorted(x, s, lt), lt),
        insert_sorted(x, s, lt).to_multiset() == s.to_multiset().insert(x),
{
    let p = insert_pos(x, s, lt);
    lemma_insert_pos(x, s, lt);
    lemma_insert_at(x, s, p, lt);
    let r = insert_sorted(x, s, lt);
    assert(r == s.take(p) + seq![x] + s.skip(p));
    assert forall|i: int, j: int| 0 <= i < j < r.len() implies !lt(#[trigger] r[j], #[trigger] r[i]) by {
        if j < p {
            assert(r[i] == s[i] && r[j] == s[j]);
        } else if j == p {
            assert(r[j] == x && r[i] == s[i]);
        } else if i < p {
            assert(r[i] == s[i] && r[j] == s[j - 1]);
        } else if i == p {
            assert(r[i] == x && r[j] == s[j - 1]);
            if lt(s[j - 1], x) {
                if j - 1 == p {
                    assert(lt(x, x));
                } else {
                    assert(lt(s[j - 1], s[p]));
                }
            }
        } else {
            assert(r[i] == s[i - 1] && r[j] == s[j - 1]);
        }
    }
    assert(r =~= s.insert(p, x));
    vstd::seq_lib::to_multiset_insert(s, p, x);
    assert(r.to_multiset() =~= s.to_multiset().insert(x));
}

/// Insertion sort sorts, and keeps the elements.
pub proof fn lemma_insertion_sort<A>(s: Seq<A>, lt: spec_fn(A, A) -> bool)
    requires
        strict_order(lt),
    ensures
        sorted_by(insertion_sort(s, lt), lt),
        insertion_sort(s, lt).to_multiset() == s.to_multiset(),
    decreases s.len(),
{
    if s.len() > 0 {
        lemma_insertion_sort(s.drop_last(), lt);
        lemma_insert_sorted(s.last(), insertion_sort(s.drop_last(), lt), lt);
        assert(s.drop_last().push(s.last()) =~= s);
        vstd::seq_lib::to_multiset_build(s.drop_last(), s.last());
    }
}

/// Strings ordered by code point.
pub open spec fn text_lt() -> spec_fn(Seq<char>, Seq<char>) -> bool {
    |a: Seq<char>, b: Seq<char>| seq_lt(a, b)
}

/// `s` without repeats of the element just before.
pub open spec fn dedup(s: Seq<Seq<char>>) -> Seq<Seq<char>>
    decreases s.len(),
{
    if s.len() == 0 {
        s
    } else {
        let d = dedup(s.drop_last());
        if d.len() > 0 && d.last() == s.last() {
            d
        } else {
            d.push(s.last())
        }
    }
}

/// `lt` is a strict weak order: a strict order in which an element that
/// sorts before another also sorts before, or after, any third one.
pub open spec fn strict_weak_order<A>(lt: spec_fn(A, A) -> bool) -> bool {
    &&& strict_order(lt)
    &&& forall|a: A, b: A, c: A|
        #![trigger lt(a, b), lt(b, c), lt(a, c)]
        lt(a, c) ==> lt(a, b) || lt(b, c)
}

/// The elements that sort neither before nor after `x`.
pub open spec fn same_key<A>(lt: spec_fn(A, A) -> bool, x: A) -> spec_fn(A) -> bool {
    |y: A| !lt(x, y) && !lt(y, x)
}

/// Inserting into a sorted sequence puts the new element after the
/// elements that compare equal to it.
pub proof fn lemma_insert_sorted_stable<A>(y: A, s: Seq<A>, lt: spec_fn(A, A) -> bool, x: A)
    requires
        strict_weak_order(lt),
        sorted_by(s, lt),
    ensures
        insert_sorted(y, s, lt).filter(same_key(lt, x)) == if same_key(lt, x)(y) {
            s.filter(same_key(lt, x)).push(y)
        } else {
            s.filter(same_key(lt, x))
        },
{
    let key = same_key(lt, x);
    let p = insert_pos(y, s, lt);
    lemma_insert_pos(y, s, lt);
    lemma_insert_at(y, s, p, lt);
    let head = s.take(p);
    let tail = s.skip(p);
    assert(insert_sorted(y, s, lt) == head + seq![y] + tail);
    Seq::filter_distributes_over_add(head + seq![y], tail, key);
    Seq::filter_distributes_over_add(head, seq![y], key);
    Seq::filter_distributes_over_add(head, tail, key);
    assert(head + tail =~= s);
    assert(seq![y].drop_last() =~= Seq::<A>::empty());
    assert(seq![y].filter(key) == if key(y) {
        seq![y]
    } else {
        Seq::<A>::empty()
    }) by {
        reveal_with_fuel(Seq::filter, 2);
    }
    if key(y) {
        assert forall|k: int| 0 <= k < tail.len() implies !key(#[trigger] tail[k]) by {
            let z = tail[k];
            assert(z == s[p + k]);
            assert(lt(y, s[p]));
            if key(z) {
                assert(!lt(y, x) && !lt(x, y) && !lt(z, x) && !lt(x, z));
                // `y` and `z` compare equal, as both compare equal to `x`.
                if lt(y, z) {
                    assert(lt(y, x) || lt(x, z));
                }
                if k == 0 {
                    assert(lt(y, z));
                } else {
                    assert(!lt(s[p + k], s[p]));
                    assert(lt(y, z) || lt(z, s[p]));
                }
            }
        }
        tail.lemma_all_neg_filter_empty(key);
        assert(tail.filter(key) =~= Seq::<A>::empty());
        assert(head.filter(key) + seq![y] + Seq::<A>::empty() =~= (head.filter(key) + Seq::<
            A,
        >::empty()).push(y));
    } else {
        assert(head.filter(key) + Seq::<A>::empty() + tail.filter(key) =~= head.filter(key)
            + tail.filter(key));
    }
}

/// Insertion sort is stable: the elements that compare equal to any `x`
/// come out in the order they came in.
pub proof fn lemma_insertion_sort_stable<A>(s: Seq<A>, lt: spec_fn(A, A) -> bool, x: A)
    requires
        strict_weak_order(lt),
    ensures
        insertion_sort(s, lt).filter(same_key(lt, x)) == s.filter(same_key(lt, x)),
    decreases s.len(),
{
    if s.len() > 0 {
        lemma_insertion_sort_stable(s.drop_last(), lt, x);
        lemma_insertion_sort(s.drop_last(), lt);
        lemma_insert_sorted_stable(s.last(), insertion_sort(s.drop_last(), lt), lt, x);
        let key = same_key(lt, x);
        assert(s.filter(key) == if key(s.last()) {
            s.drop_last().filter(key).push(s.last())
        } else {
            s.drop_last().filter(key)
        }) by {
            reveal_with_fuel(Seq::filter, 1);
        }
    }
}

/// The order of strings is a strict order.
pub proof fn lemma_text_lt_strict_order()
    ensures
        strict_order(text_lt()),
{
    assert forall|a: Seq<char>| !#[trigger] text_lt()(a, a) by {
        lemma_seq_lt_irreflexive(a);
    }
    assert forall|a: Seq<char>, b: Seq<char>, c: Seq<char>|
        #[trigger] text_lt()(a, b) && #[trigger] text_lt()(b, c) implies text_lt()(a, c) by {
        lemma_seq_lt_transitive(a, b, c);
    }
}

/// Each string sorts before the ones after it.
pub open spec fn strictly_increasing(s: Seq<Seq<char>>) -> bool {
    forall|i: int, j: int| 0 <= i < j < s.len() ==> seq_lt(#[trigger] s[i], #[trigger] s[j])
}

/// Dropping repeats from a sorted sequence of strings leaves each string
/// once, in increasing order, and the same strings.
pub proof fn lemma_dedup_sorted(s: Seq<Seq<char>>)
    requires
        sorted_by(s, text_lt()),
    ensures
        strictly_increasing(dedup(s)),
        dedup(s).to_set() == s.to_set(),
        s.len() > 0 ==> dedup(s).len() > 0 && dedup(s).last() == s.last(),
    decreases s.len(),
{
    broadcast use vstd::seq_lib::group_seq_properties;

    if s.len() > 0 {
        let init = s.drop_last();
        assert(sorted_by(init, text_lt())) by {
            assert forall|i: int, j: int| 0 <= i < j < init.len() implies !text_lt()(
                #[trigger] init[j],
                #[trigger] init[i],
            ) by {
                assert(init[i] == s[i] && init[j] == s[j]);
            }
        }
        lemma_dedup_sorted(init);
        let d = dedup(init);
        assert(s =~= init.push(s.last()));
        if d.len() > 0 && d.last() == s.last() {
            assert(dedup(s) == d);
            assert(s.to_set() =~= init.to_set().insert(s.last()));
            assert(init.to_set().contains(s.last())) by {
                assert(init.contains(init.last()));
            }
            assert(dedup(s).to_set() =~= s.to_set());
        } else {
            let r = d.push(s.last());
            assert(dedup(s) == r);
            if init.len() > 0 {
                assert(d.last() == s[s.len() - 2]);
                assert(!text_lt()(s[s.len() - 1], s[s.len() - 2]));
                lemma_seq_lt_total(d.last(), s.last());
                assert(seq_lt(d.last(), s.last()));
                assert forall|i: int, j: int| 0 <= i < j < r.len() implies seq_lt(
                    #[trigger] r[i],
                    #[trigger] r[j],
                ) by {
                    if j == r.len() - 1 {
                        if i < d.len() - 1 {
                            assert(seq_lt(d[i], d[d.len() - 1]));
                            lemma_seq_lt_transitive(d[i], d.last(), s.last());
                        }
                    } else {
                        assert(r[i] == d[i] && r[j] == d[j]);
                    }
                }
            } else {
                assert(d.len() == 0);
            }
            assert(s.to_set() =~= init.to_set().insert(s.last()));
            assert(r.to_set() =~= d.to_set().insert(s.last()));
        }
    } else {
        assert(dedup(s).to_set() =~= s.to_set());
    }
}

/// Sorts strings by code point, stably.
pub fn sort_texts(v: Vec<String>) -> (r: Vec<String>)
    ensures
        views(r@) == insertion_sort(views(v@), text_lt()),
{
    let mut src = v;
    let ghost orig = views(src@);
    let n = src.len();
    let mut out: Vec<String> = Vec::new();
    let mut i: usize = 0;
    proof {
        assert(views(out@) =~= insertion_sort(orig.take(0), text_lt()));
    }
    while i < n
        invariant
            i <= n,
            n == orig.len(),
            views(src@) == orig.skip(i as int),
            views(out@) == insertion_sort(orig.take(i as int), text_lt()),
        decreases n - i,
    {
        proof {
            assert(views(src@).len() == n - i);
        }
        let ghost old_src = src@;
        let x = src.remove(0);
        proof {
            assert(views(old_src)[0] == old_src[0]@);
            assert(orig.skip(i as int)[0] == orig[i as int]);
            assert(x@ == orig[i as int]);
            assert(src@ =~= old_src.drop_first());
            assert(views(src@) =~= views(old_src).drop_first());
            assert(orig.skip(i as int).drop_first() =~= orig.skip(i + 1));
        }
        let mut p: usize = 0;
        while p < out.len() && !str_lt(x.as_str(), out[p].as_str())
            invariant
                p <= out@.len(),
                forall|j: int| 0 <= j < p ==> !text_lt()(x@, #[trigger] views(out@)[j]),
            decreases out@.len() - p,
        {
            proof {
                assert(views(out@)[p as int] == out@[p as int]@);
            }
            p += 1;
        }
        let ghost before = views(out@);
        proof {
            if p < out@.len() {
                assert(views(out@)[p as int] == out@[p as int]@);
            }
            lemma_insert_at(x@, before, p as int, text_lt());
            assert(orig.take(i + 1).drop_last() =~= orig.take(i as int));
            assert(orig.take(i + 1).last() == orig[i as int]);
        }
        out.insert(p, x);
        proof {
            assert(views(out@) =~= before.take(p as int) + seq![x@] + before.skip(p as int));
        }
        i += 1;
    }
    proof {
        assert(orig.take(n as int) =~= orig);
    }
    out
}

/// Drops each string equal to the one before it.
pub fn dedup_texts(v: &Vec<String>) -> (r: Vec<String>)
    ensures
        views(r@) == dedup(views(v@)),
{
    let mut r: Vec<String> = Vec::new();
    let ghost vv = views(v@);
    let mut i: usize = 0;
    proof {
        assert(vv.take(0) =~= Seq::<Seq<char>>::empty());
    }
    while i < v.len()
        invariant
            i <= v@.len(),
            vv == views(v@),
            views(r@) == dedup(vv.take(i as int)),
        decreases v@.len() - i,
    {
        let ghost prev = views(r@);
        let ghost t = vv.take(i + 1);
        proof {
            assert(t.drop_last() =~= vv.take(i as int));
            assert(t.last() == v@[i as int]@);
        }
        let n = r.len();
        if n > 0 && str_eq(r[n - 1].as_str(), v[i].as_str()) {
            proof {
                assert(prev.last() == r@[n - 1]@);
            }
        } else {
            let s = v[i].clone();
            r.push(s);
            proof {
                if n > 0 {
                    assert(prev.last() == r@[n - 1]@);
                }
                assert(views(r@) =~= prev.push(vv[i as int]));
            }
        }
        i += 1;
    }
    proof {
        assert(vv.take(v@.len() as int) =~= vv);
    }
    r
}

} // verus!
