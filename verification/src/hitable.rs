//! The choices of the intersection layer.
//!
//! Distances along a ray are compared here by *keys*: unsigned integers that are
//! ordered as the distances are. The caller solves the quadratic of each sphere
//! and hands over what came out.

use vstd::prelude::*;

verus! {

/// One of the two roots of a ray-sphere quadratic.
#[derive(Clone, Copy, Debug, PartialEq, Eq, Structural)]
pub enum Root {
    /// The smaller root: where the ray enters the sphere.
    Near,
    /// The larger root: where the ray leaves the sphere.
    Far,
}

/// The root at which a ray hits a sphere, if it does.
///
/// There are two roots only where the discriminant is positive: a ray that
/// touches the sphere in one point misses it. Of two roots the smaller is taken
/// if it lies strictly inside the range of distances asked for, else the larger
/// if that one does.
pub open spec fn root_choice(two_roots: bool, near_in_range: bool, far_in_range: bool) -> Option<
    Root,
> {
    if two_roots && near_in_range {
        Some(Root::Near)
    } else if two_roots && far_in_range {
        Some(Root::Far)
    } else {
        None
    }
}

/// Chooses the root at which a ray hits a sphere.
///
/// `two_roots` says whether the discriminant is positive, `near_in_range` and
/// `far_in_range` whether the smaller and the larger root lie strictly inside
/// the range of distances asked for.
pub fn choose_root(two_roots: bool, near_in_range: bool, far_in_range: bool) -> (root: Option<Root>)
    ensures
        root == root_choice(two_roots, near_in_range, far_in_range),
{
    if !two_roots {
        None
    } else if near_in_range {
        Some(Root::Near)
    } else if far_in_range {
        Some(Root::Far)
    } else {
        None
    }
}

/// Entry `i` of `hits` is the nearest hit: no entry has a smaller key, and no
/// entry before it has the same key.
pub open spec fn is_nearest(hits: Seq<Option<u32>>, i: int) -> bool {
    &&& 0 <= i < hits.len()
    &&& hits[i] is Some
    &&& forall|j: int|
        0 <= j < hits.len() && (#[trigger] hits[j]) is Some ==> hits[i]->0 <= hits[j]->0
    &&& forall|j: int| 0 <= j < i && (#[trigger] hits[j]) is Some ==> hits[i]->0 < hits[j]->0
}

/// The primitive that a ray hits first.
///
/// Entry `i` of `hits` is the key of the distance at which the ray hits
/// primitive `i` of the scene, or `None` where it misses that primitive. The
/// result is the place of the smallest key, the first of them where several
/// primitives are hit at the same distance, and `None` where the ray misses
/// them all.
pub fn nearest(hits: &Vec<Option<u32>>) -> (best: Option<usize>)
    ensures
        best matches Some(i) ==> is_nearest(hits@, i as int),
        best is None <==> forall|j: int| 0 <= j < hits.len() ==> (#[trigger] hits[j]) is None,
{
    let mut best: Option<usize> = None;
    let mut closest: u32 = 0;
    let mut k: usize = 0;
    while k < hits.len()
        invariant
            0 <= k <= hits.len(),
            best matches Some(i) ==> i < k && hits[i as int] == Some(closest) && is_nearest(
                hits@.take(k as int),
                i as int,
            ),
            best is None ==> forall|j: int| 0 <= j < k ==> (#[trigger] hits[j]) is None,
        decreases hits.len() - k,
    {
        let ghost seen = hits@.take(k as int);
        let ghost grown = hits@.take(k as int + 1);
        assert(forall|j: int| 0 <= j < k ==> grown[j] == seen[j]);
        match hits[k] {
            Some(key) => {
                let closer: bool = match best {
                    Some(_) => key < closest,
                    None => true,
                };
                if closer {
                    best = Some(k);
                    closest = key;
                }
                assert(best matches Some(i) && is_nearest(grown, i as int));
            },
            None => {
                assert(best matches Some(i) ==> is_nearest(grown, i as int));
            },
        }
        k = k + 1;
    }
    assert(hits@.take(k as int) =~= hits@);
    best
}

/// There is one nearest hit at most.
pub proof fn lemma_nearest_is_unique(hits: Seq<Option<u32>>, i: int, j: int)
    requires
        is_nearest(hits, i),
        is_nearest(hits, j),
    ensures
        i == j,
{
}

} // verus!
