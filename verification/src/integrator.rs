//! The rule by which a light path goes on or ends.
//!
//! A path starts at depth 0. Its ray is tested against the scene: a ray that
//! misses takes the colour of the background; a ray that hits at the depth limit
//! is black; any other hit is handed to the material of the surface. A material
//! that absorbs the ray makes the path black; one that scatters it sends the
//! path on, one level deeper, with the scattered ray. The colour of the path is
//! the product of the attenuations of its scatterings and of the colour at which
//! it ends.
//!
//! The caller does the geometry and the shading. The two transitions of a path
//! say what follows from each answer, and keep the depth; `trace` follows a path
//! to its end through two functions of the caller, one that tests a ray against
//! the scene and one that asks a material, and returns the attenuations to
//! multiply and the way the path ended.

use vstd::prelude::*;

verus! {

/// A path whose current ray is about to be tested against the scene.
pub struct Path {
    depth: u32,
    limit: u32,
}

/// A path whose ray has hit a surface below the depth limit: the material of
/// the surface is about to be asked for a scattered ray.
pub struct Bounce {
    depth: u32,
    limit: u32,
}

/// What follows from the test of a ray against the scene.
pub enum Tested {
    /// The ray left the scene: the path ends with the colour of the background.
    Background,
    /// The ray hit a surface at the depth limit: the path ends black.
    Black,
    /// The ray hit a surface: its material decides.
    Scatter(Bounce),
}

/// What follows from the answer of a material.
pub enum Scattered {
    /// The material absorbed the ray: the path ends black.
    Black,
    /// The material scattered the ray: the path goes on with the new ray.
    Continue(Path),
}

impl Path {
    /// The depth never passes the limit.
    #[verifier::type_invariant]
    pub closed spec fn wf(self) -> bool {
        self.depth <= self.limit
    }

    /// The number of scatterings behind this path.
    pub closed spec fn depth(self) -> nat {
        self.depth as nat
    }

    /// The number of scatterings after which a hit ends the path.
    pub closed spec fn limit(self) -> nat {
        self.limit as nat
    }

    /// A path at depth 0 that may be scattered `limit` times.
    pub fn new(limit: u32) -> (path: Path)
        ensures
            path.wf(),
            path.depth() == 0,
            path.limit() == limit,
    {
        Path { depth: 0, limit }
    }

    /// Takes the result of testing the ray against the scene: `hit` says
    /// whether it met a surface.
    pub fn tested(self, hit: bool) -> (next: Tested)
        ensures
            !hit ==> next is Background,
            hit && self.depth() >= self.limit() ==> next is Black,
            hit && self.depth() < self.limit() ==> next is Scatter,
            next matches Tested::Scatter(bounce) ==> bounce.wf() && bounce.depth() == self.depth()
                && bounce.limit() == self.limit(),
    {
        if !hit {
            Tested::Background
        } else if self.depth < self.limit {
            Tested::Scatter(Bounce { depth: self.depth, limit: self.limit })
        } else {
            Tested::Black
        }
    }
}

impl Bounce {
    /// A hit is handed to a material only below the depth limit.
    #[verifier::type_invariant]
    pub closed spec fn wf(self) -> bool {
        self.depth < self.limit
    }

    /// The number of scatterings behind this hit.
    pub closed spec fn depth(self) -> nat {
        self.depth as nat
    }

    /// The number of scatterings after which a hit ends the path.
    pub closed spec fn limit(self) -> nat {
        self.limit as nat
    }

    /// Takes the answer of the material: `scattered` says whether it returned a
    /// scattered ray, rather than absorbing the incoming one.
    pub fn scattered(self, scattered: bool) -> (next: Scattered)
        ensures
            !scattered ==> next is Black,
            scattered ==> next is Continue,
            next matches Scattered::Continue(path) ==> path.wf() && path.depth() == self.depth()
                + 1 && path.limit() == self.limit(),
    {
        proof {
            use_type_invariant(&self);
        }
        if scattered {
            Scattered::Continue(Path { depth: self.depth + 1, limit: self.limit })
        } else {
            Scattered::Black
        }
    }
}

/// How a light path ended.
pub enum End<R> {
    /// The path left the scene along this ray: its last factor is the colour of
    /// the background in the direction of the ray.
    Background(R),
    /// The path was absorbed or cut off: its colour is black.
    Black,
}

/// A light path that has been followed to its end.
pub struct Trace<R, A> {
    /// The attenuations of the surfaces that scattered the path, first surface
    /// first.
    pub attenuations: Vec<A>,
    /// How the path ended.
    pub end: End<R>,
}

/// The scatterer may be called on every hit that the probe can return.
pub open spec fn can_follow<R, H, A, P: Fn(&R) -> Option<H>, S: Fn(&R, H) -> Option<(A, R)>>(
    probe: P,
    scatter: S,
) -> bool {
    &&& forall|ray: R| call_requires(probe, (&ray,))
    &&& forall|ray: R, hit: H| #[trigger]
        call_ensures(probe, (&ray,), Some(hit)) ==> call_requires(scatter, (&ray, hit))
}

/// `rays` and `hits` are the rays and the hits of a path that starts with `ray`
/// and ends as `end` says: every ray but the last hit a surface that scattered
/// it into the next ray with the attenuation at its place, and the last ray
/// either left the scene, or hit a surface that absorbed it or that it met at
/// the depth limit. A path that ends black has a hit for its last ray too.
pub open spec fn follows<R, H, A, P: Fn(&R) -> Option<H>, S: Fn(&R, H) -> Option<(A, R)>>(
    probe: P,
    scatter: S,
    ray: R,
    limit: u32,
    attenuations: Seq<A>,
    end: End<R>,
    rays: Seq<R>,
    hits: Seq<H>,
) -> bool {
    &&& attenuations.len() <= limit
    &&& rays.len() == attenuations.len() + 1
    &&& hits.len() == if end is Black {
        rays.len()
    } else {
        attenuations.len()
    }
    &&& rays[0] == ray
    &&& forall|i: int|
        0 <= i < attenuations.len() ==> call_ensures(probe, (&rays[i],), Some(#[trigger] hits[i]))
            && call_ensures(
            scatter,
            (&rays[i], hits[i]),
            Some((attenuations[i], rays[i + 1])),
        )
    &&& match end {
        End::Background(last) => last == rays.last() && call_ensures(probe, (&last,), None::<H>),
        End::Black => call_ensures(probe, (&rays.last(),), Some(hits.last())) && (
        attenuations.len() == limit || call_ensures(
            scatter,
            (&rays.last(), hits.last()),
            None::<(A, R)>,
        )),
    }
}

/// `attenuations` and `end` describe a path that the probe and the scatterer
/// can produce from `ray` within `limit` scatterings.
pub open spec fn is_trace<R, H, A, P: Fn(&R) -> Option<H>, S: Fn(&R, H) -> Option<(A, R)>>(
    probe: P,
    scatter: S,
    ray: R,
    limit: u32,
    attenuations: Seq<A>,
    end: End<R>,
) -> bool {
    exists|rays: Seq<R>, hits: Seq<H>|
        follows(probe, scatter, ray, limit, attenuations, end, rays, hits)
}

/// Follows the light path that starts with `ray` to its end.
///
/// `probe` tests a ray against the scene and returns the hit, if there is one;
/// `scatter` asks the material of a hit for the scattered ray and its
/// attenuation, and returns `None` where the material absorbs the ray. The path
/// is scattered `limit` times at most.
pub fn trace<R, H, A, P, S>(ray: R, limit: u32, probe: &P, scatter: &S) -> (traced: Trace<R, A>) where
    P: Fn(&R) -> Option<H>,
    S: Fn(&R, H) -> Option<(A, R)>,

    requires
        can_follow(*probe, *scatter),
    ensures
        is_trace(*probe, *scatter, ray, limit, traced.attenuations@, traced.end),
{
    let ghost mut rays: Seq<R> = seq![ray];
    let ghost mut hits: Seq<H> = Seq::empty();
    let mut current = ray;
    let mut attenuations: Vec<A> = Vec::new();
    let mut path = Path::new(limit);
    loop
        invariant
            can_follow(*probe, *scatter),
            path.wf(),
            path.limit() == limit,
            path.depth() == attenuations.len(),
            rays.len() == attenuations.len() + 1,
            hits.len() == attenuations.len(),
            rays[0] == ray,
            rays.last() == current,
            forall|i: int|
                0 <= i < attenuations.len() ==> call_ensures(
                    *probe,
                    (&rays[i],),
                    Some(#[trigger] hits[i]),
                ) && call_ensures(
                    *scatter,
                    (&rays[i], hits[i]),
                    Some((attenuations@[i], rays[i + 1])),
                ),
        decreases limit - attenuations.len(),
    {
        let hit = probe(&current);
        match path.tested(hit.is_some()) {
            Tested::Background => {
                proof {
                    assert(follows(
                        *probe,
                        *scatter,
                        ray,
                        limit,
                        attenuations@,
                        End::Background(current),
                        rays,
                        hits,
                    ));
                }
                return Trace { attenuations, end: End::Background(current) };
            },
            Tested::Black => {
                proof {
                    lemma_path_ends_black(
                        *probe,
                        *scatter,
                        ray,
                        limit,
                        attenuations@,
                        rays,
                        hits,
                        hit->0,
                    );
                }
                return Trace { attenuations, end: End::Black };
            },
            Tested::Scatter(bounce) => {
                let found = hit.unwrap();
                let scattered = scatter(&current, found);
                match bounce.scattered(scattered.is_some()) {
                    Scattered::Black => {
                        proof {
                            lemma_path_ends_black(
                                *probe,
                                *scatter,
                                ray,
                                limit,
                                attenuations@,
                                rays,
                                hits,
                                found,
                            );
                        }
                        return Trace { attenuations, end: End::Black };
                    },
                    Scattered::Continue(deeper) => {
                        let (attenuation, next) = scattered.unwrap();
                        proof {
                            let ghost longer = rays.push(next);
                            let ghost more = hits.push(found);
                            assert forall|i: int| 0 <= i < attenuations.len() + 1 implies call_ensures(
                                *probe,
                                (&longer[i],),
                                Some(#[trigger] more[i]),
                            ) && call_ensures(
                                *scatter,
                                (&longer[i], more[i]),
                                Some((attenuations@.push(attenuation)[i], longer[i + 1])),
                            ) by {
                                if i < attenuations.len() {
                                    assert(attenuations@.push(attenuation)[i] == attenuations@[i]);
                                }
                            }
                            rays = longer;
                            hits = more;
                        }
                        attenuations.push(attenuation);
                        current = next;
                        path = deeper;
                    },
                }
            },
        }
    }
}

/// A ray that hits nothing takes the colour of the background and is not
/// attenuated: where the probe returns no hit for the first ray, the path has no
/// scattering and ends in the background along that ray.
pub proof fn lemma_missing_ray_takes_background<
    R,
    H,
    A,
    P: Fn(&R) -> Option<H>,
    S: Fn(&R, H) -> Option<(A, R)>,
>(probe: P, scatter: S, ray: R, limit: u32, attenuations: Seq<A>, end: End<R>)
    requires
        is_trace(probe, scatter, ray, limit, attenuations, end),
        forall|hit: H| !call_ensures(probe, (&ray,), Some(hit)),
    ensures
        attenuations.len() == 0,
        end == End::Background(ray),
{
    let (rays, hits) = choose|rays: Seq<R>, hits: Seq<H>|
        follows(probe, scatter, ray, limit, attenuations, end, rays, hits);
    if attenuations.len() > 0 {
        assert(call_ensures(probe, (&rays[0],), Some(hits[0])));
    }
    assert(rays.last() == ray);
}

/// A path is scattered `limit` times at most, and a path that was scattered
/// that often ends black if its last ray hits anything.
pub proof fn lemma_trace_is_bounded<R, H, A, P: Fn(&R) -> Option<H>, S: Fn(&R, H) -> Option<
    (A, R),
>>(probe: P, scatter: S, ray: R, limit: u32, attenuations: Seq<A>, end: End<R>)
    requires
        is_trace(probe, scatter, ray, limit, attenuations, end),
    ensures
        attenuations.len() <= limit,
        end matches End::Background(last) ==> call_ensures(probe, (&last,), None::<H>),
{
}

/// A path whose last ray hit a surface that absorbed it, or that it met at the
/// depth limit, ends black: the hit of the last ray completes the hits.
proof fn lemma_path_ends_black<R, H, A, P: Fn(&R) -> Option<H>, S: Fn(&R, H) -> Option<(A, R)>>(
    probe: P,
    scatter: S,
    ray: R,
    limit: u32,
    attenuations: Seq<A>,
    rays: Seq<R>,
    hits: Seq<H>,
    last: H,
)
    requires
        attenuations.len() <= limit,
        rays.len() == attenuations.len() + 1,
        hits.len() == attenuations.len(),
        rays[0] == ray,
        forall|i: int|
            0 <= i < attenuations.len() ==> call_ensures(
                probe,
                (&rays[i],),
                Some(#[trigger] hits[i]),
            ) && call_ensures(scatter, (&rays[i], hits[i]), Some((attenuations[i], rays[i + 1]))),
        call_ensures(probe, (&rays.last(),), Some(last)),
        attenuations.len() == limit || call_ensures(
            scatter,
            (&rays.last(), last),
            None::<(A, R)>,
        ),
    ensures
        is_trace(probe, scatter, ray, limit, attenuations, End::Black),
{
    let all = hits.push(last);
    assert forall|i: int| 0 <= i < attenuations.len() implies call_ensures(
        probe,
        (&rays[i],),
        Some(#[trigger] all[i]),
    ) && call_ensures(scatter, (&rays[i], all[i]), Some((attenuations[i], rays[i + 1]))) by {
        assert(all[i] == hits[i]);
    }
    assert(all.last() == last);
    assert(follows(probe, scatter, ray, limit, attenuations, End::<R>::Black, rays, all));
}

/// Each path of `chain` but the first is the one that went on from the path
/// before it, through one scattering.
pub open spec fn is_chain(chain: Seq<Path>) -> bool {
    &&& forall|i: int| 0 <= i < chain.len() ==> (#[trigger] chain[i]).wf()
    &&& forall|i: int|
        0 < i < chain.len() ==> (#[trigger] chain[i]).depth() == chain[i - 1].depth() + 1
            && chain[i].limit() == chain[i - 1].limit()
}

/// No path is scattered more often than its limit allows: a chain of paths that
/// starts at depth 0 holds at most `limit + 1` of them, and the path at place
/// `i` has depth `i`.
pub proof fn lemma_depth_is_bounded(chain: Seq<Path>)
    requires
        chain.len() > 0,
        chain[0].depth() == 0,
        is_chain(chain),
    ensures
        forall|i: int| 0 <= i < chain.len() ==> (#[trigger] chain[i]).depth() == i,
        chain.len() <= chain[0].limit() + 1,
{
    lemma_chain_depths(chain, chain.len() as int - 1);
    assert forall|i: int| 0 <= i < chain.len() implies (#[trigger] chain[i]).depth() == i by {
        lemma_chain_depths(chain, i);
    }
    let last = chain[chain.len() as int - 1];
    assert(last.wf());
}

proof fn lemma_chain_depths(chain: Seq<Path>, i: int)
    requires
        0 <= i < chain.len(),
        chain[0].depth() == 0,
        is_chain(chain),
    ensures
        chain[i].depth() == i,
        chain[i].limit() == chain[0].limit(),
    decreases i,
{
    if i > 0 {
        lemma_chain_depths(chain, i - 1);
    }
}

} // verus!
