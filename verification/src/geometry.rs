//! The slab test for a ray and an axis-aligned box, decided on numbers that
//! the caller has computed.
//!
//! On each axis the box lies between two parallel planes.  The caller hands in,
//! per axis, the ray's origin and direction component, the two plane positions,
//! and the two ray parameters at which the ray reaches the planes.  From these
//! the test decides whether the ray meets the box at a positive parameter, at
//! which parameter, and through which face.

use vstd::prelude::*;
use crate::scalar::Scalar;

verus! {

/// A direction component of smaller absolute value counts as zero: the ray is
/// then parallel to the two planes of that axis.  The value is 2^-23.
pub const PARALLEL_EPSILON_BITS: u32 = 0x3400_0000;

#[derive(Clone, Copy, Debug, PartialEq, Eq, Structural)]
pub enum Axis {
    X,
    Y,
    Z,
}

/// One of the two planes that bound the box on an axis.
#[derive(Clone, Copy, Debug, PartialEq, Eq, Structural)]
pub enum Side {
    Min,
    Max,
}

impl Side {
    /// The direction of the face's outward normal along its axis: -1 for the
    /// lower face, +1 for the upper.
    pub open spec fn outward(self) -> int {
        match self {
            Side::Min => -1,
            Side::Max => 1,
        }
    }
}

impl Axis {
    pub open spec fn index(self) -> int {
        match self {
            Axis::X => 0,
            Axis::Y => 1,
            Axis::Z => 2,
        }
    }

    pub open spec fn at(i: int) -> Axis {
        if i == 0 {
            Axis::X
        } else if i == 1 {
            Axis::Y
        } else {
            Axis::Z
        }
    }

    /// The axis with the given index; every index above 1 gives Z.
    pub fn from_index(i: usize) -> (a: Axis)
        ensures
            a == Axis::at(i as int),
            i < 3 ==> a.index() == i,
    {
        if i == 0 {
            Axis::X
        } else if i == 1 {
            Axis::Y
        } else {
            Axis::Z
        }
    }
}

/// The two axes along which a texture is laid over the faces of an axis, the
/// first for its columns and the second for its rows: X and Z on the top and
/// bottom faces, Z and Y on the left and right faces, X and Y on the front and
/// back faces.  Together with the face's own axis they are all three axes.
pub fn texture_axes(face: Axis) -> (uv: (Axis, Axis))
    ensures
        uv == match face {
            Axis::Y => (Axis::X, Axis::Z),
            Axis::X => (Axis::Z, Axis::Y),
            Axis::Z => (Axis::X, Axis::Y),
        },
        uv.0 != face,
        uv.1 != face,
        uv.0 != uv.1,
{
    match face {
        Axis::Y => (Axis::X, Axis::Z),
        Axis::X => (Axis::Z, Axis::Y),
        Axis::Z => (Axis::X, Axis::Y),
    }
}

/// What the slab test reads on one axis.
#[derive(Clone, Copy, Debug)]
pub struct AxisSlab {
    /// The ray origin's coordinate on this axis.
    pub origin: Scalar,
    /// The ray direction's component on this axis.
    pub direction: Scalar,
    /// The position of the box's lower plane.
    pub min: Scalar,
    /// The position of the box's upper plane.
    pub max: Scalar,
    /// The ray parameter at the lower plane, `(min - origin) / direction`.
    pub to_min: Scalar,
    /// The ray parameter at the upper plane, `(max - origin) / direction`.
    pub to_max: Scalar,
}

impl AxisSlab {
    /// The ray runs parallel to the two planes.
    pub open spec fn parallel(self) -> bool {
        self.direction.abs().lt(Scalar { bits: PARALLEL_EPSILON_BITS })
    }

    /// The origin lies outside the two planes.
    pub open spec fn outside(self) -> bool {
        self.origin.lt(self.min) || self.max.lt(self.origin)
    }

    /// No point of the ray lies between the two planes, or the parameters say
    /// nothing: a parallel ray that starts outside, or a crossing ray with a
    /// NaN parameter.
    pub open spec fn blocked(self) -> bool {
        if self.parallel() {
            self.outside()
        } else {
            self.to_min.is_nan() || self.to_max.is_nan()
        }
    }

    /// The ray crosses both planes, at parameters that are numbers.
    pub open spec fn crossing(self) -> bool {
        !self.parallel() && !self.to_min.is_nan() && !self.to_max.is_nan()
    }

    /// The direction of the ray's travel along the axis: +1 if the direction
    /// component is above zero, else -1.
    pub open spec fn travel(self) -> int {
        if self.direction.is_positive() {
            1
        } else {
            -1
        }
    }

    /// The plane through which the ray enters the slab: the lower one if it
    /// travels up the axis, the upper one if it travels down.
    pub open spec fn near_side(self) -> Side {
        if self.direction.is_positive() {
            Side::Min
        } else {
            Side::Max
        }
    }

    /// The plane through which the ray leaves the slab.
    pub open spec fn far_side(self) -> Side {
        if self.direction.is_positive() {
            Side::Max
        } else {
            Side::Min
        }
    }

    /// The parameter at which the ray enters the slab.
    pub open spec fn near(self) -> Scalar {
        if self.direction.is_positive() {
            self.to_min
        } else {
            self.to_max
        }
    }

    /// The parameter at which the ray leaves the slab.
    pub open spec fn far(self) -> Scalar {
        if self.direction.is_positive() {
            self.to_max
        } else {
            self.to_min
        }
    }

    pub fn is_parallel(&self) -> (r: bool)
        ensures
            r == self.parallel(),
    {
        self.direction.abs().lt(Scalar::from_bits(PARALLEL_EPSILON_BITS))
    }

    pub fn is_blocked(&self) -> (r: bool)
        ensures
            r == self.blocked(),
    {
        if self.is_parallel() {
            self.origin.lt(self.min) || self.max.lt(self.origin)
        } else {
            self.to_min.is_nan() || self.to_max.is_nan()
        }
    }
}

/// Where a ray meets a box.
#[derive(Clone, Copy, Debug)]
pub struct SlabHit {
    /// The ray parameter of the meeting point; positive.
    pub distance: Scalar,
    /// The axis of the face that is struck.
    pub axis: Axis,
    /// Which of the axis's two faces is struck.  The outward normal points
    /// down the axis for `Min` and up the axis for `Max`.
    pub side: Side,
}

/// Among the first `n` axes, the crossing one that the ray enters last; the
/// earliest such axis where several tie.  `None` if none of them is crossing.
pub open spec fn entry_upto(axes: Seq<AxisSlab>, n: int) -> Option<int>
    decreases n,
{
    if n <= 0 {
        None
    } else {
        let before = entry_upto(axes, n - 1);
        if !axes[n - 1].crossing() {
            before
        } else {
            match before {
                None => Some(n - 1),
                Some(b) => if axes[n - 1].near().key() > axes[b].near().key() {
                    Some(n - 1)
                } else {
                    before
                },
            }
        }
    }
}

/// Among the first `n` axes, the crossing one that the ray leaves first; the
/// earliest such axis where several tie.  `None` if none of them is crossing.
pub open spec fn exit_upto(axes: Seq<AxisSlab>, n: int) -> Option<int>
    decreases n,
{
    if n <= 0 {
        None
    } else {
        let before = exit_upto(axes, n - 1);
        if !axes[n - 1].crossing() {
            before
        } else {
            match before {
                None => Some(n - 1),
                Some(b) => if axes[n - 1].far().key() < axes[b].far().key() {
                    Some(n - 1)
                } else {
                    before
                },
            }
        }
    }
}

pub open spec fn any_blocked(axes: Seq<AxisSlab>) -> bool {
    axes[0].blocked() || axes[1].blocked() || axes[2].blocked()
}

/// The slab test on three axes.
///
/// The ray misses if an axis is blocked, if it crosses no axis at all, or if
/// it leaves one slab before it has entered another (or itself: a box whose
/// lower plane lies above its upper one is never met).  Otherwise it is
/// inside all slabs from the last entry to the first exit.  The meeting point is the
/// last entry if its parameter is positive; else, with the origin inside the
/// box, the first exit if its parameter is positive; else the box lies behind
/// the ray and is missed.
pub open spec fn slab_hit(axes: Seq<AxisSlab>) -> Option<SlabHit> {
    if any_blocked(axes) {
        None
    } else {
        match (entry_upto(axes, 3), exit_upto(axes, 3)) {
            (Some(e), Some(x)) => {
                if axes[e].near().key() > axes[x].far().key() {
                    None
                } else if axes[e].near().key() > 0 {
                    Some(
                        SlabHit {
                            distance: axes[e].near(),
                            axis: Axis::at(e),
                            side: axes[e].near_side(),
                        },
                    )
                } else if axes[x].far().key() > 0 {
                    Some(
                        SlabHit {
                            distance: axes[x].far(),
                            axis: Axis::at(x),
                            side: axes[x].far_side(),
                        },
                    )
                } else {
                    None
                }
            },
            _ => None,
        }
    }
}

/// A ray and a box, axis by axis: X, Y, Z.
#[derive(Clone, Copy, Debug)]
pub struct BoxSlabs {
    pub axes: [AxisSlab; 3],
}

impl BoxSlabs {
    pub open spec fn hit(self) -> Option<SlabHit> {
        slab_hit(self.axes@)
    }

    /// Decides whether the ray meets the box, and where.
    pub fn ray_intersect(&self) -> (r: Option<SlabHit>)
        ensures
            r == self.hit(),
    {
        let mut entry: Option<(usize, Scalar, Side)> = None;
        let mut exit: Option<(usize, Scalar, Side)> = None;
        let mut i: usize = 0;
        while i < 3
            invariant
                i <= 3,
                self.axes@.len() == 3,
                forall|j: int| 0 <= j < i ==> !(#[trigger] self.axes@[j]).blocked(),
                match entry {
                    None => entry_upto(self.axes@, i as int) is None,
                    Some((e, t, s)) => e < i && entry_upto(self.axes@, i as int) == Some(e as int)
                        && t == self.axes@[e as int].near() && s == self.axes@[e as int].near_side(),
                },
                match exit {
                    None => exit_upto(self.axes@, i as int) is None,
                    Some((x, t, s)) => x < i && exit_upto(self.axes@, i as int) == Some(x as int)
                        && t == self.axes@[x as int].far() && s == self.axes@[x as int].far_side(),
                },
            decreases 3 - i,
        {
            let slab = self.axes[i];
            if slab.is_blocked() {
                return None;
            }
            if !slab.is_parallel() {
                let (near, near_side, far, far_side) = if slab.direction.is_positive() {
                    (slab.to_min, Side::Min, slab.to_max, Side::Max)
                } else {
                    (slab.to_max, Side::Max, slab.to_min, Side::Min)
                };
                entry = match entry {
                    None => Some((i, near, near_side)),
                    Some((e, t, s)) => if near.order_key() > t.order_key() {
                        Some((i, near, near_side))
                    } else {
                        Some((e, t, s))
                    },
                };
                exit = match exit {
                    None => Some((i, far, far_side)),
                    Some((x, t, s)) => if far.order_key() < t.order_key() {
                        Some((i, far, far_side))
                    } else {
                        Some((x, t, s))
                    },
                };
            }
            i = i + 1;
        }
        match (entry, exit) {
            (Some((e, t_in, s_in)), Some((x, t_out, s_out))) => {
                if t_in.order_key() > t_out.order_key() {
                    None
                } else if t_in.order_key() > 0 {
                    Some(SlabHit { distance: t_in, axis: Axis::from_index(e), side: s_in })
                } else if t_out.order_key() > 0 {
                    Some(SlabHit { distance: t_out, axis: Axis::from_index(x), side: s_out })
                } else {
                    None
                }
            },
            _ => None,
        }
    }
}


/// What `entry_upto` picks: a crossing axis whose entry is the latest of all
/// crossing axes among the first `n`, and later than that of every crossing
/// axis before it.
pub proof fn lemma_entry_is_latest(axes: Seq<AxisSlab>, n: int)
    requires
        0 <= n <= axes.len(),
    ensures
        match entry_upto(axes, n) {
            None => forall|j: int| 0 <= j < n ==> !(#[trigger] axes[j]).crossing(),
            Some(e) => {
                &&& 0 <= e < n
                &&& axes[e].crossing()
                &&& forall|j: int|
                    0 <= j < n && (#[trigger] axes[j]).crossing() ==> axes[j].near().key()
                        <= axes[e].near().key()
                &&& forall|j: int|
                    0 <= j < e && (#[trigger] axes[j]).crossing() ==> axes[j].near().key()
                        < axes[e].near().key()
            },
        },
    decreases n,
{
    if n > 0 {
        lemma_entry_is_latest(axes, n - 1);
    }
}

/// What `exit_upto` picks: a crossing axis whose exit is the earliest of all
/// crossing axes among the first `n`, and earlier than that of every crossing
/// axis before it.
pub proof fn lemma_exit_is_earliest(axes: Seq<AxisSlab>, n: int)
    requires
        0 <= n <= axes.len(),
    ensures
        match exit_upto(axes, n) {
            None => forall|j: int| 0 <= j < n ==> !(#[trigger] axes[j]).crossing(),
            Some(x) => {
                &&& 0 <= x < n
                &&& axes[x].crossing()
                &&& forall|j: int|
                    0 <= j < n && (#[trigger] axes[j]).crossing() ==> axes[x].far().key()
                        <= axes[j].far().key()
                &&& forall|j: int|
                    0 <= j < x && (#[trigger] axes[j]).crossing() ==> axes[x].far().key()
                        < axes[j].far().key()
            },
        },
    decreases n,
{
    if n > 0 {
        lemma_exit_is_earliest(axes, n - 1);
    }
}

/// The ray meets the box exactly when no axis is blocked, the ray crosses at
/// least one axis, it has entered every slab before it leaves any, and it
/// leaves every slab at a positive parameter.
pub proof fn law_hit_iff_ray_meets_box(axes: Seq<AxisSlab>)
    requires
        axes.len() == 3,
    ensures
        slab_hit(axes) is Some <==> {
            &&& !any_blocked(axes)
            &&& exists|i: int| 0 <= i < 3 && (#[trigger] axes[i]).crossing()
            &&& forall|i: int, j: int|
                0 <= i < 3 && 0 <= j < 3 && (#[trigger] axes[i]).crossing() && (
                #[trigger] axes[j]).crossing() ==> axes[i].near().key() <= axes[j].far().key()
            &&& forall|j: int|
                0 <= j < 3 && (#[trigger] axes[j]).crossing() ==> axes[j].far().key() > 0
        },
{
    lemma_entry_is_latest(axes, 3);
    lemma_exit_is_earliest(axes, 3);
}

/// A meeting point has a positive parameter that is a number, and lies in
/// every slab that the ray crosses: not before the slab's entry, not after
/// its exit.  Its parameter is one of the two plane parameters of the axis
/// that is struck, the one of the side that is struck.
pub proof fn law_hit_lies_in_every_slab(axes: Seq<AxisSlab>)
    requires
        axes.len() == 3,
    ensures
        slab_hit(axes) matches Some(h) ==> {
            &&& h.distance.is_positive()
            &&& forall|i: int|
                0 <= i < 3 && (#[trigger] axes[i]).crossing() ==> axes[i].near().key()
                    <= h.distance.key() <= axes[i].far().key()
            &&& axes[h.axis.index()].crossing()
            &&& h.distance == match h.side {
                Side::Min => axes[h.axis.index()].to_min,
                Side::Max => axes[h.axis.index()].to_max,
            }
        },
{
    lemma_entry_is_latest(axes, 3);
    lemma_exit_is_earliest(axes, 3);
}

/// The face that is struck turns towards where the ray comes from.  Either
/// the ray enters the box there, at the latest entry, and the face's outward
/// normal opposes the ray's travel along that axis; or the origin lies in the
/// box, no entry has a positive parameter, and the ray leaves the box there,
/// at the earliest exit, with the outward normal along its travel.
pub proof fn law_struck_face(axes: Seq<AxisSlab>)
    requires
        axes.len() == 3,
    ensures
        slab_hit(axes) matches Some(h) ==> {
            let slab = axes[h.axis.index()];
            ||| {
                &&& h.distance == slab.near()
                &&& h.side == slab.near_side()
                &&& h.side.outward() == -slab.travel()
            }
            ||| {
                &&& h.distance == slab.far()
                &&& h.side == slab.far_side()
                &&& h.side.outward() == slab.travel()
                &&& forall|i: int|
                    0 <= i < 3 && (#[trigger] axes[i]).crossing() ==> axes[i].near().key() <= 0
            }
        },
{
    lemma_entry_is_latest(axes, 3);
    lemma_exit_is_earliest(axes, 3);
}

/// A ray that travels along one axis towards a box in front of it, starting
/// within the box's extent on the other two axes, strikes the box on that
/// axis, where it enters the slab.  The outward normal of the face that is
/// struck is the opposite of the ray's direction.
pub proof fn law_axis_aligned_ray_strikes_facing_side(axes: Seq<AxisSlab>, along: Axis)
    requires
        axes.len() == 3,
        axes[along.index()].crossing(),
        axes[along.index()].near().is_positive(),
        axes[along.index()].near().key() <= axes[along.index()].far().key(),
        forall|i: int|
            0 <= i < 3 && i != along.index() ==> (#[trigger] axes[i]).parallel()
                && !axes[i].outside(),
    ensures
        slab_hit(axes) == Some(
            SlabHit {
                distance: axes[along.index()].near(),
                axis: along,
                side: axes[along.index()].near_side(),
            },
        ),
        axes[along.index()].near_side().outward() == -axes[along.index()].travel(),
{
    reveal_with_fuel(entry_upto, 4);
    reveal_with_fuel(exit_upto, 4);
    assert(!axes[along.index()].blocked());
    assert(forall|i: int| 0 <= i < 3 && i != along.index() ==> !(#[trigger] axes[i]).blocked());
}

/// A ray that runs parallel to the planes of an axis and starts outside them
/// misses the box, whatever holds on the other axes.
pub proof fn law_offset_parallel_ray_misses(axes: Seq<AxisSlab>, i: int)
    requires
        axes.len() == 3,
        0 <= i < 3,
        axes[i].parallel(),
        axes[i].outside(),
    ensures
        slab_hit(axes) is None,
{
}

/// A ray that leaves the slab of one axis before it enters the slab of
/// another misses the box.
pub proof fn law_separated_slabs_miss(axes: Seq<AxisSlab>, i: int, j: int)
    requires
        axes.len() == 3,
        0 <= i < 3,
        0 <= j < 3,
        axes[i].crossing(),
        axes[j].crossing(),
        axes[i].near().key() > axes[j].far().key(),
    ensures
        slab_hit(axes) is None,
{
    law_hit_iff_ray_meets_box(axes);
}

/// A box that lies wholly behind the ray's origin is missed.
pub proof fn law_box_behind_ray_misses(axes: Seq<AxisSlab>, j: int)
    requires
        axes.len() == 3,
        0 <= j < 3,
        axes[j].crossing(),
        axes[j].far().key() <= 0,
    ensures
        slab_hit(axes) is None,
{
    law_hit_iff_ray_meets_box(axes);
}

} // verus!
