use vstd::prelude::*;

verus! {

/// Every pair of elements, taken in sequence order, is related by `r`.
pub open spec fn pairwise<A>(s: Seq<A>, r: spec_fn(A, A) -> bool) -> bool {
    forall|i: int, j: int| 0 <= i < j < s.len() ==> #[trigger] r(s[i], s[j])
}

/// Every element satisfies `q`.
pub open spec fn all<A>(s: Seq<A>, q: spec_fn(A) -> bool) -> bool {
    forall|i: int| 0 <= i < s.len() ==> #[trigger] q(s[i])
}

/// One step of a loop that filters a sequence front to back.
pub proof fn lemma_filter_prefix_step<A>(s: Seq<A>, p: spec_fn(A) -> bool, i: int)
    requires
        0 <= i < s.len(),
    ensures
        s.subrange(0, i + 1).filter(p) == if p(s[i]) {
            s.subrange(0, i).filter(p).push(s[i])
        } else {
            s.subrange(0, i).filter(p)
        },
{
    assert(s.subrange(0, i + 1) =~= s.subrange(0, i).push(s[i]));
    s.subrange(0, i).lemma_filter_push(s[i], p);
}

/// Filtering keeps a property of every element.
pub proof fn lemma_filter_all<A>(s: Seq<A>, p: spec_fn(A) -> bool, q: spec_fn(A) -> bool)
    requires
        all(s, q),
    ensures
        all(s.filter(p), q),
{
    assert forall|k: int| 0 <= k < s.filter(p).len() implies #[trigger] q(s.filter(p)[k]) by {
        assert(s.filter(p).contains(s.filter(p)[k]));
        s.lemma_filter_contains_rev(p, s.filter(p)[k]);
    }
}

/// Filtering keeps a relation between every ordered pair.
pub proof fn lemma_filter_pairwise<A>(s: Seq<A>, p: spec_fn(A) -> bool, r: spec_fn(A, A) -> bool)
    requires
        pairwise(s, r),
    ensures
        pairwise(s.filter(p), r),
    decreases s.len(),
{
    reveal(Seq::filter);
    if s.len() > 0 {
        let d = s.drop_last();
        assert(pairwise(d, r));
        lemma_filter_pairwise(d, p, r);
        let f = d.filter(p);
        if p(s.last()) {
            assert forall|k: int| 0 <= k < f.len() implies #[trigger] r(f[k], s.last()) by {
                assert(f.contains(f[k]));
                d.lemma_filter_contains_rev(p, f[k]);
                let j = choose|j: int| 0 <= j < d.len() && d[j] == f[k];
                assert(r(s[j], s[s.len() - 1]));
            }
            assert forall|a: int, b: int| 0 <= a < b < f.push(s.last()).len() implies #[trigger] r(
                f.push(s.last())[a],
                f.push(s.last())[b],
            ) by {
                if b == f.len() {
                    assert(r(f[a], s.last()));
                } else {
                    assert(r(f[a], f[b]));
                }
            }
        }
    }
}

/// An element occurs in a filtered sequence exactly when it occurs in the
/// sequence and passes the filter.
pub proof fn lemma_filter_contains_iff<A>(s: Seq<A>, p: spec_fn(A) -> bool, x: A)
    ensures
        s.filter(p).contains(x) <==> s.contains(x) && p(x),
{
    broadcast use vstd::seq_lib::group_filter_ensures;

    if s.filter(p).contains(x) {
        s.lemma_filter_contains_rev(p, x);
        let k = choose|k: int| 0 <= k < s.filter(p).len() && s.filter(p)[k] == x;
        assert(p(s.filter(p)[k]));
    }
    if s.contains(x) && p(x) {
        let k = choose|k: int| 0 <= k < s.len() && s[k] == x;
        s.lemma_filter_contains(p, k);
    }
}

/// A first element related to every other keeps a pairwise relation.
pub proof fn lemma_prepend_pairwise<A>(s: Seq<A>, x: A, r: spec_fn(A, A) -> bool)
    requires
        pairwise(s, r),
        forall|i: int| 0 <= i < s.len() ==> #[trigger] r(x, s[i]),
    ensures
        pairwise(seq![x] + s, r),
{
    let t = seq![x] + s;
    assert forall|a: int, b: int| 0 <= a < b < t.len() implies #[trigger] r(t[a], t[b]) by {
        if a == 0 {
            assert(r(x, s[b - 1]));
        } else {
            assert(r(s[a - 1], s[b - 1]));
        }
    }
}

/// A first element that has a property keeps it true of every element.
pub proof fn lemma_prepend_all<A>(s: Seq<A>, x: A, q: spec_fn(A) -> bool)
    requires
        all(s, q),
        q(x),
    ensures
        all(seq![x] + s, q),
{
    let t = seq![x] + s;
    assert forall|a: int| 0 <= a < t.len() implies #[trigger] q(t[a]) by {
        if a > 0 {
            assert(q(s[a - 1]));
        }
    }
}

/// A weaker property holds of every element too.
pub proof fn lemma_all_implies<A>(s: Seq<A>, q1: spec_fn(A) -> bool, q2: spec_fn(A) -> bool)
    requires
        all(s, q1),
        forall|x: A| #[trigger] q1(x) ==> q2(x),
    ensures
        all(s, q2),
{
    assert forall|a: int| 0 <= a < s.len() implies #[trigger] q2(s[a]) by {
        assert(q1(s[a]));
    }
}

/// Tests a relation on every ordered pair of `v`.
pub(crate) fn check_pairwise<T, F: Fn(&T, &T) -> bool>(v: &Vec<T>, rel: F, Ghost(r): Ghost<
    spec_fn(T, T) -> bool,
>) -> (ok: bool)
    requires
        forall|a: &T, b: &T| #[trigger] rel.requires((a, b)),
        forall|a: &T, b: &T, res: bool| rel.ensures((a, b), res) ==> res == r(*a, *b),
    ensures
        ok == pairwise(v@, r),
{
    let n = v.len();
    let mut i: usize = 0;
    while i < n
        invariant
            n == v@.len(),
            i <= n,
            forall|a: &T, b: &T| #[trigger] rel.requires((a, b)),
            forall|a: &T, b: &T, res: bool| rel.ensures((a, b), res) ==> res == r(*a, *b),
            forall|a: int, b: int| 0 <= a < i && a < b < n ==> #[trigger] r(v@[a], v@[b]),
        decreases n - i,
    {
        let mut j: usize = i + 1;
        while j < n
            invariant
                n == v@.len(),
                i < n,
                i + 1 <= j <= n,
                forall|a: &T, b: &T| #[trigger] rel.requires((a, b)),
                forall|a: &T, b: &T, res: bool| rel.ensures((a, b), res) ==> res == r(*a, *b),
                forall|a: int, b: int| 0 <= a < i && a < b < n ==> #[trigger] r(v@[a], v@[b]),
                forall|b: int| i < b < j ==> #[trigger] r(v@[i as int], v@[b]),
            decreases n - j,
        {
            if !rel(&v[i], &v[j]) {
                return false;
            }
            j = j + 1;
        }
        i = i + 1;
    }
    true
}

/// Tests a property of every element of `v`, given a bound on ids and a
/// bound on times.
pub(crate) fn check_all<T, F: Fn(&T, i64, u64) -> bool>(
    v: &Vec<T>,
    pred: F,
    next: i64,
    clock: u64,
    Ghost(q): Ghost<spec_fn(T) -> bool>,
) -> (ok: bool)
    requires
        forall|a: &T| #[trigger] pred.requires((a, next, clock)),
        forall|a: &T, res: bool| pred.ensures((a, next, clock), res) ==> res == q(*a),
    ensures
        ok == all(v@, q),
{
    let n = v.len();
    let mut i: usize = 0;
    while i < n
        invariant
            n == v@.len(),
            i <= n,
            forall|a: &T| #[trigger] pred.requires((a, next, clock)),
            forall|a: &T, res: bool| pred.ensures((a, next, clock), res) ==> res == q(*a),
            forall|a: int| 0 <= a < i ==> #[trigger] q(v@[a]),
        decreases n - i,
    {
        if !pred(&v[i], next, clock) {
            return false;
        }
        i = i + 1;
    }
    true
}

} // verus!
