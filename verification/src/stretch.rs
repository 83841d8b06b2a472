//! The axis-aligned stretch planner.
//!
//! Geometry is modelled in integer thousandths of a length unit, so every
//! threshold comparison is exact.  For each axis with a positive
//! displacement the solid is cut at the given coordinate by a half-space
//! (approximated by the kernel with a very large box), the positive piece is
//! translated, the faces lying on the cut plane are extruded into a filler,
//! and the three pieces are fused; the axes are processed in the fixed order
//! X, Y, Z, and a cleanup pass runs only if at least one axis stretched.  A
//! non-positive displacement is clamped to a no-op; the clamp is policy, not
//! an accident.

use vstd::prelude::*;

verus! {

/// A coordinate triple in thousandths of a length unit.
#[derive(Clone, Copy, PartialEq, Eq, Structural, Debug)]
pub struct Vec3i {
    pub x: i64,
    pub y: i64,
    pub z: i64,
}

/// A face qualifies as a cut face when its unit normal's axis component
/// exceeds this many thousandths (0.99 of a unit normal).
pub const NORMAL_THRESHOLD_MILLI: i64 = 990;

/// ... and its centroid's axis coordinate lies within this many thousandths
/// of the cut coordinate (0.1 length units).
pub const COORD_TOLERANCE_MILLI: i64 = 100;

/// What the kernel reports of one face: its outward unit normal, scaled to
/// thousandths, and its centroid coordinates.
#[derive(Clone, Copy, PartialEq, Eq, Structural, Debug)]
pub struct FaceInfo {
    pub normal: Vec3i,
    pub center: Vec3i,
}

/// The component of `v` along axis 0, 1 or 2.
pub open spec fn spec_axis_of(v: Vec3i, axis: u8) -> int {
    if axis == 0 {
        v.x as int
    } else if axis == 1 {
        v.y as int
    } else {
        v.z as int
    }
}

/// Absolute value.
pub open spec fn abs_of(v: int) -> int {
    if v < 0 {
        -v
    } else {
        v
    }
}

/// Whether a face lies on the cut plane of `axis` at `cut`: its normal is
/// nearly parallel to the axis and its centroid is within tolerance of the
/// cut coordinate.
pub open spec fn face_qualifies(f: FaceInfo, axis: u8, cut: int) -> bool {
    abs_of(spec_axis_of(f.normal, axis)) > NORMAL_THRESHOLD_MILLI && abs_of(
        spec_axis_of(f.center, axis) - cut,
    ) < COORD_TOLERANCE_MILLI
}

/// The component of `v` along `axis`.
fn axis_of(v: Vec3i, axis: u8) -> (r: i64)
    requires
        axis < 3,
    ensures
        r as int == spec_axis_of(v, axis),
{
    if axis == 0 {
        v.x
    } else if axis == 1 {
        v.y
    } else {
        v.z
    }
}

/// The indices, in order, of the faces that lie on the cut plane and will be
/// extruded into the filler solid; every qualifying face is selected and no
/// other.
pub fn select_cut_faces(faces: &Vec<FaceInfo>, axis: u8, cut: i64) -> (r: Vec<usize>)
    requires
        axis < 3,
    ensures
        forall|a: int, b: int| 0 <= a < b < r@.len() ==> r@[a] < r@[b],
        forall|a: int|
            0 <= a < r@.len() ==> r@[a] < faces@.len() && face_qualifies(
                faces@[r@[a] as int],
                axis,
                cut as int,
            ),
        forall|j: int|
            0 <= j < faces@.len() && face_qualifies(faces@[j], axis, cut as int) ==> r@.contains(
                j as usize,
            ),
{
    let mut r: Vec<usize> = Vec::new();
    let mut i: usize = 0;
    while i < faces.len()
        invariant
            axis < 3,
            i <= faces@.len(),
            forall|a: int, b: int| 0 <= a < b < r@.len() ==> r@[a] < r@[b],
            forall|a: int| 0 <= a < r@.len() ==> r@[a] < i,
            forall|a: int|
                0 <= a < r@.len() ==> face_qualifies(faces@[r@[a] as int], axis, cut as int),
            forall|j: int|
                0 <= j < i && face_qualifies(faces@[j], axis, cut as int) ==> r@.contains(
                    j as usize,
                ),
        decreases faces@.len() - i,
    {
        let f = faces[i];
        let n = axis_of(f.normal, axis);
        let c = axis_of(f.center, axis);
        let n_wide: i128 = n as i128;
        let n_abs: i128 = if n_wide < 0 { -n_wide } else { n_wide };
        let diff: i128 = (c as i128) - (cut as i128);
        let d_abs: i128 = if diff < 0 { -diff } else { diff };
        if n_abs > (NORMAL_THRESHOLD_MILLI as i128) && d_abs < (COORD_TOLERANCE_MILLI as i128) {
            let ghost pre = r@;
            r.push(i);
            proof {
                assert(face_qualifies(faces@[i as int], axis, cut as int));
                assert(forall|j: int|
                    0 <= j < i && face_qualifies(faces@[j], axis, cut as int) ==> pre.contains(
                        j as usize,
                    ));
                assert(forall|j: int| #![auto]
                    0 <= j < pre.len() ==> r@[j] == pre[j] && r@.contains(pre[j]));
                assert(r@[r@.len() - 1] == i as usize);
                assert(r@.contains(i as usize));
            }
        }
        i += 1;
    }
    r
}

/// One axis of a stretch: cut coordinate and positive displacement.
#[derive(Clone, Copy, PartialEq, Eq, Structural, Debug)]
pub struct AxisStretch {
    pub axis: u8,
    pub cut: i64,
    pub delta: i64,
}

/// The whole plan of a stretch: the axes that actually stretch, in the fixed
/// order X, Y, Z, and whether the final cleanup pass runs.
pub struct StretchPlan {
    pub axes: Vec<AxisStretch>,
    pub clean: bool,
}

/// The axes a stretch at `cut` by `delta` processes: one entry per axis with
/// a positive displacement, in the order X, Y, Z.
pub open spec fn spec_stretch_axes(cut: Vec3i, delta: Vec3i) -> Seq<AxisStretch> {
    let sx: Seq<AxisStretch> = if delta.x > 0 {
        seq![AxisStretch { axis: 0, cut: cut.x, delta: delta.x }]
    } else {
        Seq::empty()
    };
    let sy: Seq<AxisStretch> = if delta.y > 0 {
        seq![AxisStretch { axis: 1, cut: cut.y, delta: delta.y }]
    } else {
        Seq::empty()
    };
    let sz: Seq<AxisStretch> = if delta.z > 0 {
        seq![AxisStretch { axis: 2, cut: cut.z, delta: delta.z }]
    } else {
        Seq::empty()
    };
    sx + sy + sz
}

/// Whether any axis of `delta` actually stretches.
pub open spec fn spec_stretch_active(delta: Vec3i) -> bool {
    delta.x > 0 || delta.y > 0 || delta.z > 0
}

/// Plans a stretch: which axes to cut, translate and fill, in the fixed
/// order X, Y, Z, and whether to run the final cleanup.  A non-positive
/// displacement on an axis makes that axis a no-op (the documented clamp
/// policy), and a stretch with no active axis is a complete no-op: no
/// kernel operation is planned and no cleanup runs.
pub fn shape_stretch(cut: Vec3i, delta: Vec3i) -> (r: StretchPlan)
    ensures
        r.axes@ == spec_stretch_axes(cut, delta),
        r.clean == spec_stretch_active(delta),
{
    let mut axes: Vec<AxisStretch> = Vec::new();
    if delta.x > 0 {
        axes.push(AxisStretch { axis: 0, cut: cut.x, delta: delta.x });
    }
    if delta.y > 0 {
        axes.push(AxisStretch { axis: 1, cut: cut.y, delta: delta.y });
    }
    if delta.z > 0 {
        axes.push(AxisStretch { axis: 2, cut: cut.z, delta: delta.z });
    }
    let clean = delta.x > 0 || delta.y > 0 || delta.z > 0;
    proof {
        assert(axes@ =~= spec_stretch_axes(cut, delta));
    }
    StretchPlan { axes, clean }
}

/// Stretch no-op: with no positive displacement the plan holds no axis and
/// schedules no cleanup, so the solid passes through untouched.
pub proof fn lemma_stretch_noop(cut: Vec3i, delta: Vec3i)
    requires
        delta.x <= 0,
        delta.y <= 0,
        delta.z <= 0,
    ensures
        spec_stretch_axes(cut, delta) == Seq::<AxisStretch>::empty(),
        !spec_stretch_active(delta),
{
    assert(spec_stretch_axes(cut, delta) =~= Seq::<AxisStretch>::empty());
}

/// Stretch clamp: displacements that agree axis by axis — where equal, or
/// where both are non-positive — plan exactly the same operations, so a
/// negative displacement behaves identically to zero.
pub proof fn lemma_stretch_clamp(cut: Vec3i, d1: Vec3i, d2: Vec3i)
    requires
        (d1.x == d2.x) || (d1.x <= 0 && d2.x <= 0),
        (d1.y == d2.y) || (d1.y <= 0 && d2.y <= 0),
        (d1.z == d2.z) || (d1.z <= 0 && d2.z <= 0),
    ensures
        spec_stretch_axes(cut, d1) == spec_stretch_axes(cut, d2),
        spec_stretch_active(d1) == spec_stretch_active(d2),
{
    assert(spec_stretch_axes(cut, d1) =~= spec_stretch_axes(cut, d2));
}

/// An axis-aligned bounding box, corner to corner.
#[derive(Clone, Copy, PartialEq, Eq, Structural, Debug)]
pub struct BoxExtent {
    pub min: Vec3i,
    pub max: Vec3i,
}

impl BoxExtent {
    /// The low corner is below the high corner on every axis.
    pub open spec fn wf(&self) -> bool {
        self.min.x <= self.max.x && self.min.y <= self.max.y && self.min.z <= self.max.z
    }
}

/// What one axis of a stretch does to an interval `[lo, hi]` cut at `c` and
/// displaced by `d`: with the cut below the box the whole box rides along;
/// with the cut above the box nothing moves; with the cut inside, the high
/// side moves and the filler bridges the gap, so the extent grows by `d`.
pub open spec fn stretch_interval(lo: int, hi: int, c: int, d: int) -> (int, int) {
    if d <= 0 {
        (lo, hi)
    } else if c <= lo {
        (lo + d, hi + d)
    } else if c >= hi {
        (lo, hi)
    } else {
        (lo, hi + d)
    }
}

/// Stretch monotonicity on an interval: a cut strictly inside grows the
/// extent by exactly the displacement.
pub proof fn lemma_stretch_interval_monotone(lo: int, hi: int, c: int, d: int)
    requires
        lo < c < hi,
        d >= 0,
    ensures
        stretch_interval(lo, hi, c, d).1 - stretch_interval(lo, hi, c, d).0 == (hi - lo) + d,
{
}

/// What one planned axis does to the three coordinate intervals of a box:
/// its own axis is stretched, the other two are untouched.
pub open spec fn apply_axis_to_intervals(
    ax: AxisStretch,
    xs: (int, int),
    ys: (int, int),
    zs: (int, int),
) -> ((int, int), (int, int), (int, int)) {
    if ax.axis == 0 {
        (stretch_interval(xs.0, xs.1, ax.cut as int, ax.delta as int), ys, zs)
    } else if ax.axis == 1 {
        (xs, stretch_interval(ys.0, ys.1, ax.cut as int, ax.delta as int), zs)
    } else {
        (xs, ys, stretch_interval(zs.0, zs.1, ax.cut as int, ax.delta as int))
    }
}

/// The intervals after a whole sequence of planned axes, applied in order.
pub open spec fn apply_axes_to_intervals(
    axes: Seq<AxisStretch>,
    xs: (int, int),
    ys: (int, int),
    zs: (int, int),
) -> ((int, int), (int, int), (int, int))
    decreases axes.len(),
{
    if axes.len() == 0 {
        (xs, ys, zs)
    } else {
        let first = apply_axis_to_intervals(axes[0], xs, ys, zs);
        apply_axes_to_intervals(axes.drop_first(), first.0, first.1, first.2)
    }
}

/// The plan's effect on a box: running the axes `shape_stretch` plans, in
/// their fixed order, over a box's coordinate intervals is exactly the
/// componentwise interval stretch — what `stretch_box` computes.
pub proof fn lemma_plan_on_box(
    cut: Vec3i,
    delta: Vec3i,
    xs: (int, int),
    ys: (int, int),
    zs: (int, int),
)
    ensures
        apply_axes_to_intervals(spec_stretch_axes(cut, delta), xs, ys, zs) == (
            stretch_interval(xs.0, xs.1, cut.x as int, delta.x as int),
            stretch_interval(ys.0, ys.1, cut.y as int, delta.y as int),
            stretch_interval(zs.0, zs.1, cut.z as int, delta.z as int),
        ),
{
    reveal_with_fuel(apply_axes_to_intervals, 5);
    let ax = AxisStretch { axis: 0, cut: cut.x, delta: delta.x };
    let ay = AxisStretch { axis: 1, cut: cut.y, delta: delta.y };
    let az = AxisStretch { axis: 2, cut: cut.z, delta: delta.z };
    let axes = spec_stretch_axes(cut, delta);
    let xs2 = stretch_interval(xs.0, xs.1, cut.x as int, delta.x as int);
    let ys2 = stretch_interval(ys.0, ys.1, cut.y as int, delta.y as int);
    let zs2 = stretch_interval(zs.0, zs.1, cut.z as int, delta.z as int);
    if delta.x > 0 {
        if delta.y > 0 {
            if delta.z > 0 {
                assert(axes =~= seq![ax, ay, az]);
                assert(axes.drop_first() =~= seq![ay, az]);
                assert(axes.drop_first().drop_first() =~= seq![az]);
                assert(axes.drop_first().drop_first().drop_first()
                    =~= Seq::<AxisStretch>::empty());
            } else {
                assert(axes =~= seq![ax, ay]);
                assert(axes.drop_first() =~= seq![ay]);
                assert(axes.drop_first().drop_first() =~= Seq::<AxisStretch>::empty());
            }
        } else {
            if delta.z > 0 {
                assert(axes =~= seq![ax, az]);
                assert(axes.drop_first() =~= seq![az]);
                assert(axes.drop_first().drop_first() =~= Seq::<AxisStretch>::empty());
            } else {
                assert(axes =~= seq![ax]);
                assert(axes.drop_first() =~= Seq::<AxisStretch>::empty());
            }
        }
    } else {
        if delta.y > 0 {
            if delta.z > 0 {
                assert(axes =~= seq![ay, az]);
                assert(axes.drop_first() =~= seq![az]);
                assert(axes.drop_first().drop_first() =~= Seq::<AxisStretch>::empty());
            } else {
                assert(axes =~= seq![ay]);
                assert(axes.drop_first() =~= Seq::<AxisStretch>::empty());
            }
        } else {
            if delta.z > 0 {
                assert(axes =~= seq![az]);
                assert(axes.drop_first() =~= Seq::<AxisStretch>::empty());
            } else {
                assert(axes =~= Seq::<AxisStretch>::empty());
            }
        }
    }
    assert(apply_axes_to_intervals(axes, xs, ys, zs) == (xs2, ys2, zs2));
}

/// Applies a stretch at `cut` by `delta` to an axis-aligned box, axis by
/// axis in the order X, Y, Z — exactly the axes `shape_stretch` plans.
pub fn stretch_box(b: BoxExtent, cut: Vec3i, delta: Vec3i) -> (r: BoxExtent)
    requires
        b.wf(),
        delta.x > 0 ==> b.max.x + delta.x <= i64::MAX,
        delta.y > 0 ==> b.max.y + delta.y <= i64::MAX,
        delta.z > 0 ==> b.max.z + delta.z <= i64::MAX,
    ensures
        r.wf(),
        (r.min.x as int, r.max.x as int) == stretch_interval(
            b.min.x as int,
            b.max.x as int,
            cut.x as int,
            delta.x as int,
        ),
        (r.min.y as int, r.max.y as int) == stretch_interval(
            b.min.y as int,
            b.max.y as int,
            cut.y as int,
            delta.y as int,
        ),
        (r.min.z as int, r.max.z as int) == stretch_interval(
            b.min.z as int,
            b.max.z as int,
            cut.z as int,
            delta.z as int,
        ),
{
    let mut r = b;
    if delta.x > 0 {
        if cut.x <= b.min.x {
            r.min.x = b.min.x + delta.x;
            r.max.x = b.max.x + delta.x;
        } else if cut.x < b.max.x {
            r.max.x = b.max.x + delta.x;
        }
    }
    if delta.y > 0 {
        if cut.y <= b.min.y {
            r.min.y = b.min.y + delta.y;
            r.max.y = b.max.y + delta.y;
        } else if cut.y < b.max.y {
            r.max.y = b.max.y + delta.y;
        }
    }
    if delta.z > 0 {
        if cut.z <= b.min.z {
            r.min.z = b.min.z + delta.z;
            r.max.z = b.max.z + delta.z;
        } else if cut.z < b.max.z {
            r.max.z = b.max.z + delta.z;
        }
    }
    r
}

} // verus!
