//! Choosing among the boxes of a scene: the surface that a ray sees, and the
//! box that shadows a point.
//!
//! Both scans walk the whole list in order; there is no culling structure.

use vstd::prelude::*;
use crate::geometry::{law_hit_lies_in_every_slab, BoxSlabs, SlabHit};
use crate::scalar::{Scalar, INFINITY_BITS};

verus! {

/// The meeting point can be seen: its parameter is below infinity.
pub open spec fn visible(hit: Option<SlabHit>) -> bool {
    hit matches Some(h) && h.distance.lt(Scalar { bits: INFINITY_BITS })
}

/// The meeting point lies between a surface point and a light at the given
/// distance along the ray.
pub open spec fn occludes(hit: Option<SlabHit>, light_distance: Scalar) -> bool {
    hit matches Some(h) && h.distance.lt(light_distance)
}

/// Box `i` is what the ray sees: it is met at `hit`, no visible box is met at
/// a smaller parameter, and every visible box before it in the list is met at
/// a larger one.
pub open spec fn is_nearest(boxes: Seq<BoxSlabs>, i: int, hit: SlabHit) -> bool {
    &&& 0 <= i < boxes.len()
    &&& boxes[i].hit() == Some(hit)
    &&& visible(Some(hit))
    &&& forall|j: int|
        0 <= j < boxes.len() && visible(#[trigger] boxes[j].hit()) ==> hit.distance.key()
            <= boxes[j].hit()->0.distance.key()
    &&& forall|j: int|
        0 <= j < i && visible(#[trigger] boxes[j].hit()) ==> hit.distance.key()
            < boxes[j].hit()->0.distance.key()
}

/// Box `i` is the first in the list that lies between the surface point and
/// the light.
pub open spec fn is_first_occluder(
    boxes: Seq<BoxSlabs>,
    light_distance: Scalar,
    i: int,
    hit: SlabHit,
) -> bool {
    &&& 0 <= i < boxes.len()
    &&& boxes[i].hit() == Some(hit)
    &&& occludes(Some(hit), light_distance)
    &&& forall|j: int| 0 <= j < i ==> !occludes(#[trigger] boxes[j].hit(), light_distance)
}

/// Finds the box that the ray sees: the one met at the smallest parameter,
/// the earliest in the list where several are met at the same one.  Returns
/// `None` exactly when no box is met at a parameter below infinity.
pub fn nearest_hit(boxes: &Vec<BoxSlabs>) -> (r: Option<(usize, SlabHit)>)
    ensures
        match r {
            None => forall|j: int| 0 <= j < boxes.len() ==> !visible(#[trigger] boxes[j].hit()),
            Some((i, hit)) => is_nearest(boxes@, i as int, hit) && hit.distance.is_positive(),
        },
{
    let mut best: Option<(usize, SlabHit)> = None;
    let mut zbuffer: Scalar = Scalar::infinity();
    let mut k: usize = 0;
    while k < boxes.len()
        invariant
            k <= boxes.len(),
            !zbuffer.is_nan(),
            match best {
                None => zbuffer.bits == INFINITY_BITS && forall|j: int|
                    0 <= j < k ==> !visible(#[trigger] boxes[j].hit()),
                Some((i, hit)) => {
                    &&& zbuffer == hit.distance
                    &&& hit.distance.is_positive()
                    &&& is_nearest(boxes@.take(k as int), i as int, hit)
                },
            },
        decreases boxes.len() - k,
    {
        let found = boxes[k].ray_intersect();
        proof {
            law_hit_lies_in_every_slab(boxes[k as int].axes@);
        }
        match found {
            Some(hit) => {
                if hit.distance.lt(zbuffer) {
                    zbuffer = hit.distance;
                    best = Some((k, hit));
                }
            },
            None => {},
        }
        proof {
            let before = boxes@.take(k as int);
            let after = boxes@.take(k + 1);
            assert(forall|j: int| 0 <= j < k ==> before[j] == after[j]);
            assert(after[k as int] == boxes[k as int]);
        }
        k = k + 1;
    }
    proof {
        assert(boxes@.take(k as int) == boxes@);
    }
    best
}

/// Finds the first box in the list that the shadow ray meets before it
/// reaches the light.  A later box may lie nearer to the surface point; the
/// scan does not look for it.  Returns `None` exactly when no box lies
/// between the surface point and the light.  The occluder's distance is
/// above zero and below the light's.
pub fn first_occluder(boxes: &Vec<BoxSlabs>, light_distance: Scalar) -> (r: Option<(usize, SlabHit)>)
    ensures
        match r {
            None => forall|j: int|
                0 <= j < boxes.len() ==> !occludes(#[trigger] boxes[j].hit(), light_distance),
            Some((i, hit)) => is_first_occluder(boxes@, light_distance, i as int, hit)
                && hit.distance.is_positive(),
        },
{
    let mut k: usize = 0;
    while k < boxes.len()
        invariant
            k <= boxes.len(),
            forall|j: int| 0 <= j < k ==> !occludes(#[trigger] boxes[j].hit(), light_distance),
        decreases boxes.len() - k,
    {
        let found = boxes[k].ray_intersect();
        proof {
            law_hit_lies_in_every_slab(boxes[k as int].axes@);
        }
        match found {
            Some(hit) => {
                if hit.distance.lt(light_distance) {
                    return Some((k, hit));
                }
            },
            None => {},
        }
        k = k + 1;
    }
    None
}


/// A ray sees at most one box: two answers that both satisfy `is_nearest`
/// are the same box and the same meeting point.
pub proof fn law_nearest_is_unique(boxes: Seq<BoxSlabs>, i: int, hit: SlabHit, j: int, other: SlabHit)
    requires
        is_nearest(boxes, i, hit),
        is_nearest(boxes, j, other),
    ensures
        i == j,
        hit == other,
{
    assert(visible(boxes[i].hit()));
    assert(visible(boxes[j].hit()));
}

/// A point has at most one first occluder.
pub proof fn law_first_occluder_is_unique(
    boxes: Seq<BoxSlabs>,
    light_distance: Scalar,
    i: int,
    hit: SlabHit,
    j: int,
    other: SlabHit,
)
    requires
        is_first_occluder(boxes, light_distance, i, hit),
        is_first_occluder(boxes, light_distance, j, other),
    ensures
        i == j,
        hit == other,
{
    assert(occludes(boxes[i].hit(), light_distance));
    assert(occludes(boxes[j].hit(), light_distance));
}

/// Where the ray meets no box, nothing is seen and nothing casts a shadow,
/// however far the light is.
pub proof fn law_missed_boxes_neither_show_nor_shadow(
    boxes: Seq<BoxSlabs>,
    light_distance: Scalar,
    i: int,
    hit: SlabHit,
)
    requires
        forall|j: int| 0 <= j < boxes.len() ==> (#[trigger] boxes[j].hit()) is None,
    ensures
        !is_nearest(boxes, i, hit),
        !is_first_occluder(boxes, light_distance, i, hit),
{
}

} // verus!
