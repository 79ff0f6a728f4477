use vstd::prelude::*;
use crate::scalar::Scalar;

verus! {

/// Whether `r` is the index that a scan of the distances `d` from first to
/// last settles on, when a later distance replaces the one held only if it is
/// strictly less.
///
/// Nothing in `d` is less than `d[r]`. Whatever stands before `r` is strictly
/// greater, or is not a number. And since nothing compares less than a value
/// that is not a number, such a value at index 0 is never replaced.
pub open spec fn is_first_nearest(d: Seq<Scalar>, r: int) -> bool {
    &&& 0 <= r < d.len()
    &&& forall|j: int| 0 <= j < d.len() ==> !(#[trigger] d[j]).less(d[r])
    &&& forall|j: int| 0 <= j < r ==> d[r].less(#[trigger] d[j]) || d[j].is_nan()
    &&& d[0].is_nan() ==> r == 0
}

/// At most one index is the first nearest of a sequence of distances.
pub proof fn lemma_first_nearest_unique(d: Seq<Scalar>, a: int, b: int)
    requires
        is_first_nearest(d, a),
        is_first_nearest(d, b),
    ensures
        a == b,
{
    if a < b {
        assert(!d[b].less(d[a]));
        assert(d[b].less(d[a]) || d[a].is_nan());
        if a > 0 {
            assert(d[a].less(d[0]) || d[0].is_nan());
        }
    } else if b < a {
        assert(!d[a].less(d[b]));
        assert(d[a].less(d[b]) || d[b].is_nan());
        if b > 0 {
            assert(d[b].less(d[0]) || d[0].is_nan());
        }
    }
}

/// One step of the scan: with `r` the first nearest of `d`, a further
/// distance `x` takes its place exactly if `x` is strictly less than `d[r]`.
pub proof fn lemma_first_nearest_step(d: Seq<Scalar>, r: int, x: Scalar)
    requires
        is_first_nearest(d, r),
    ensures
        is_first_nearest(
            d.push(x),
            if x.less(d[r]) {
                d.len() as int
            } else {
                r
            },
        ),
{
    let e = d.push(x);
    let n = d.len() as int;
    assert(forall|j: int| 0 <= j < n ==> e[j] == d[j]);
    assert(e[n] == x);
    if x.less(d[r]) {
        assert forall|j: int| 0 <= j < e.len() implies !(#[trigger] e[j]).less(e[n]) by {
            if j < n {
                assert(!d[j].less(d[r]));
            }
        }
        assert forall|j: int| 0 <= j < n implies e[n].less(#[trigger] e[j]) || e[j].is_nan() by {
            assert(!d[j].less(d[r]));
        }
    } else {
        assert forall|j: int| 0 <= j < e.len() implies !(#[trigger] e[j]).less(e[r]) by {
            if j < n {
                assert(!d[j].less(d[r]));
            }
        }
        assert forall|j: int| 0 <= j < r implies e[r].less(#[trigger] e[j]) || e[j].is_nan() by {
            assert(d[r].less(d[j]) || d[j].is_nan());
        }
    }
}

/// Of two equal distances the later one is never chosen: on a tie the first
/// seed met is kept.
pub proof fn lemma_tie_keeps_first(d: Seq<Scalar>, r: int, i: int, j: int)
    requires
        is_first_nearest(d, r),
        0 <= i < j < d.len(),
        d[i] == d[j],
    ensures
        r != j,
{
    if r == j {
        assert(d[r].less(d[i]) || d[i].is_nan());
        assert(d[r].less(d[0]) || d[0].is_nan());
    }
}

/// The index of the nearest seed, given the distance of every seed from the
/// point in question: the first index that no other distance is strictly less
/// than. There has to be a distance.
pub fn first_nearest(dists: &Vec<Scalar>) -> (best: usize)
    requires
        dists@.len() > 0,
    ensures
        is_first_nearest(dists@, best as int),
{
    let mut best: usize = 0;
    let mut j: usize = 1;
    while j < dists.len()
        invariant
            1 <= j <= dists@.len(),
            best < j,
            is_first_nearest(dists@.take(j as int), best as int),
        decreases dists@.len() - j,
    {
        proof {
            let seen = dists@.take(j as int);
            lemma_first_nearest_step(seen, best as int, dists@[j as int]);
            assert(seen.push(dists@[j as int]) =~= dists@.take(j + 1));
            assert(seen[best as int] == dists@[best as int]);
        }
        if dists[j].lt(dists[best]) {
            best = j;
        }
        j += 1;
    }
    proof {
        assert(dists@.take(j as int) =~= dists@);
    }
    best
}

/// The index that `first_nearest` gives, or `None` exactly if there are no
/// distances.
pub fn nearest_index(dists: &Vec<Scalar>) -> (r: Option<usize>)
    ensures
        r is None <==> dists@.len() == 0,
        r matches Some(i) ==> is_first_nearest(dists@, i as int),
{
    if dists.len() == 0 {
        None
    } else {
        Some(first_nearest(dists))
    }
}

} // verus!
