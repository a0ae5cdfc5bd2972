//! Axis-aligned bounding boxes and the ray slab test.

use vstd::prelude::*;

verus! {

use crate::fx::{fxdiv, Fx, BOXB};
use crate::math::interval::{
    ext_le, ext_lt, ext_max, ext_min, interval_endpoints_in, spec_pad, ExtFx, Interval,
};
use crate::math::point3::{point_in, Point3};
use crate::math::ray::{ray_within, Ray};
use crate::math::Axis;

/// Minimum thickness given to every axis of a constructed box, so that flat
/// shapes still own a sliver of volume.
pub const PAD_RAW: i128 = 92;

/// Axis-aligned bounding box.
#[derive(Clone, Debug, PartialEq, Eq, Structural)]
pub struct Aabb {
    pub x: Interval,
    pub y: Interval,
    pub z: Interval,
}

/// An axis interval as construction leaves it: the canonical empty
/// interval, or at least the padding across.
pub open spec fn interval_wf(i: Interval) -> bool {
    ||| (i.min == ExtFx::PosInf && i.max == ExtFx::NegInf)
    ||| ext_le(ExtFx::Fin(Fx(PAD_RAW)), crate::math::interval::spec_size(i))
}

/// Every axis of the box is as construction leaves it.
pub open spec fn aabb_wf(b: Aabb) -> bool {
    interval_wf(b.x) && interval_wf(b.y) && interval_wf(b.z)
}

/// All finite endpoints of the box lie within `m` in magnitude.
pub open spec fn aabb_in(b: Aabb, m: int) -> bool {
    &&& interval_endpoints_in(b.x, m)
    &&& interval_endpoints_in(b.y, m)
    &&& interval_endpoints_in(b.z, m)
}

/// One slab step for an axis the ray travels along: the parameter window in
/// which the ray is between the two walls, intersected with the running
/// window.  `None` means the running window became empty.
pub open spec fn slab_step_moving(
    iv: Interval,
    o: int,
    d: int,
    tmin: ExtFx,
    tmax: ExtFx,
) -> Option<(ExtFx, ExtFx)> {
    let t0 = slab_wall(iv.min, o, d);
    let t1 = slab_wall(iv.max, o, d);
    let lo = ext_min(t0, t1);
    let hi = ext_max(t0, t1);
    let nmin = ext_max(tmin, lo);
    let nmax = ext_min(tmax, hi);
    if ext_le(nmax, nmin) {
        None
    } else {
        Some((nmin, nmax))
    }
}

/// The parameter at which the ray crosses one wall, on extended scalars.
pub open spec fn slab_wall(w: ExtFx, o: int, d: int) -> ExtFx {
    match w {
        ExtFx::NegInf => if d > 0 {
            ExtFx::NegInf
        } else {
            ExtFx::PosInf
        },
        ExtFx::PosInf => if d > 0 {
            ExtFx::PosInf
        } else {
            ExtFx::NegInf
        },
        ExtFx::Fin(wv) => ExtFx::Fin(Fx(fxdiv(wv.0 - o, d) as i128)),
    }
}

/// One slab step for an axis the ray does not travel along.  A wall
/// exactly at the origin gives no constraint, a wall on the wrong side
/// forces the window empty, exactly as dividing by zero does for floats.
pub open spec fn slab_step_still(
    iv: Interval,
    o: int,
    tmin: ExtFx,
    tmax: ExtFx,
) -> Option<(ExtFx, ExtFx)> {
    let a = still_wall(iv.min, o);
    let b = still_wall(iv.max, o);
    let nmin = match (a, b) {
        (Some(t0), Some(t1)) => ext_max(tmin, ext_min(t0, t1)),
        (Some(t0), None) => ext_max(tmin, t0),
        (None, Some(t1)) => ext_max(tmin, t1),
        (None, None) => tmin,
    };
    let nmax = match (a, b) {
        (Some(t0), Some(t1)) => ext_min(tmax, ext_max(t0, t1)),
        (Some(t0), None) => ext_min(tmax, t0),
        (None, Some(t1)) => ext_min(tmax, t1),
        (None, None) => tmax,
    };
    if ext_le(nmax, nmin) {
        None
    } else {
        Some((nmin, nmax))
    }
}

/// Where a still ray stands relative to one wall: beyond it in one of the
/// two directions, or exactly on it (no constraint).
pub open spec fn still_wall(w: ExtFx, o: int) -> Option<ExtFx> {
    if ext_lt(w, ExtFx::Fin(Fx(o as i128))) {
        Some(ExtFx::NegInf)
    } else if ext_lt(ExtFx::Fin(Fx(o as i128)), w) {
        Some(ExtFx::PosInf)
    } else {
        None
    }
}

/// One slab step, either kind.
pub open spec fn slab_step(
    iv: Interval,
    o: int,
    d: int,
    tmin: ExtFx,
    tmax: ExtFx,
) -> Option<(ExtFx, ExtFx)> {
    if d == 0 {
        slab_step_still(iv, o, tmin, tmax)
    } else {
        slab_step_moving(iv, o, d, tmin, tmax)
    }
}

/// The whole slab test: the three axes in order, starting from the query
/// interval's window.
pub open spec fn spec_aabb_hit(b: Aabb, r: Ray, ray_t: Interval) -> bool {
    match slab_step(b.x, r.spec_origin().0.x.0 as int, r.spec_direction().x.0 as int, ray_t.min, ray_t.max) {
        None => false,
        Some((m1, x1)) => match slab_step(b.y, r.spec_origin().0.y.0 as int, r.spec_direction().y.0 as int, m1, x1) {
            None => false,
            Some((m2, x2)) => slab_step(
                b.z,
                r.spec_origin().0.z.0 as int,
                r.spec_direction().z.0 as int,
                m2,
                x2,
            ) is Some,
        },
    }
}

/// Exec form of one slab step.
fn slab_step_exec(iv: &Interval, o: Fx, d: Fx, tmin: ExtFx, tmax: ExtFx) -> (r: Option<(ExtFx, ExtFx)>)
    requires
        interval_endpoints_in(*iv, BOXB as int),
        -BOXB <= o.0 <= BOXB,
    ensures
        r == slab_step(*iv, o.0 as int, d.0 as int, tmin, tmax),
{
    if d.0 == 0 {
        let a = still_wall_exec(iv.min, o);
        let b = still_wall_exec(iv.max, o);
        let nmin = match (a, b) {
            (Some(t0), Some(t1)) => tmin.max(t0.min(t1)),
            (Some(t0), None) => tmin.max(t0),
            (None, Some(t1)) => tmin.max(t1),
            (None, None) => tmin,
        };
        let nmax = match (a, b) {
            (Some(t0), Some(t1)) => tmax.min(t0.max(t1)),
            (Some(t0), None) => tmax.min(t0),
            (None, Some(t1)) => tmax.min(t1),
            (None, None) => tmax,
        };
        if nmax.le(nmin) {
            None
        } else {
            Some((nmin, nmax))
        }
    } else {
        let t0 = slab_wall_exec(iv.min, o, d);
        let t1 = slab_wall_exec(iv.max, o, d);
        let lo = t0.min(t1);
        let hi = t0.max(t1);
        let nmin = tmin.max(lo);
        let nmax = tmax.min(hi);
        if nmax.le(nmin) {
            None
        } else {
            Some((nmin, nmax))
        }
    }
}

fn slab_wall_exec(w: ExtFx, o: Fx, d: Fx) -> (r: ExtFx)
    requires
        d.0 != 0,
        (w matches ExtFx::Fin(wv) ==> -BOXB <= wv.0 <= BOXB),
        -BOXB <= o.0 <= BOXB,
    ensures
        r == slab_wall(w, o.0 as int, d.0 as int),
{
    match w {
        ExtFx::NegInf => if d.0 > 0 {
            ExtFx::NegInf
        } else {
            ExtFx::PosInf
        },
        ExtFx::PosInf => if d.0 > 0 {
            ExtFx::PosInf
        } else {
            ExtFx::NegInf
        },
        ExtFx::Fin(wv) => ExtFx::Fin(wv.sub(o).div(d)),
    }
}

fn still_wall_exec(w: ExtFx, o: Fx) -> (r: Option<ExtFx>)
    ensures
        r == still_wall(w, o.0 as int),
{
    let fo = ExtFx::Fin(o);
    if w.lt(fo) {
        Some(ExtFx::NegInf)
    } else if fo.lt(w) {
        Some(ExtFx::PosInf)
    } else {
        None
    }
}

impl Aabb {
    /// Build from axis intervals, padding each thin axis.
    pub fn new(x: Interval, y: Interval, z: Interval) -> (r: Aabb)
        requires
            interval_endpoints_in(x, BOXB as int),
            interval_endpoints_in(y, BOXB as int),
            interval_endpoints_in(z, BOXB as int),
        ensures
            r.x == spec_pad(x, PAD_RAW as int),
            r.y == spec_pad(y, PAD_RAW as int),
            r.z == spec_pad(z, PAD_RAW as int),
    {
        let delta = Fx(PAD_RAW);
        Aabb {
            x: x.expand_if_smaller_than(delta),
            y: y.expand_if_smaller_than(delta),
            z: z.expand_if_smaller_than(delta),
        }
    }

    /// The box holding nothing.
    pub fn empty() -> (r: Aabb)
        ensures
            r.x == (Interval { min: ExtFx::PosInf, max: ExtFx::NegInf }),
            r.y == (Interval { min: ExtFx::PosInf, max: ExtFx::NegInf }),
            r.z == (Interval { min: ExtFx::PosInf, max: ExtFx::NegInf }),
            aabb_wf(r),
    {
        Aabb { x: Interval::empty(), y: Interval::empty(), z: Interval::empty() }
    }

    /// Widen to hold the point `p`.
    pub fn widen(&mut self, p: Point3)
        ensures
            final(self).x.min == ext_min(old(self).x.min, ExtFx::Fin(p.0.x)),
            final(self).x.max == ext_max(old(self).x.max, ExtFx::Fin(p.0.x)),
            final(self).y.min == ext_min(old(self).y.min, ExtFx::Fin(p.0.y)),
            final(self).y.max == ext_max(old(self).y.max, ExtFx::Fin(p.0.y)),
            final(self).z.min == ext_min(old(self).z.min, ExtFx::Fin(p.0.z)),
            final(self).z.max == ext_max(old(self).z.max, ExtFx::Fin(p.0.z)),
    {
        self.x.widen(p.0.x);
        self.y.widen(p.0.y);
        self.z.widen(p.0.z);
    }

    /// The padded box spanned by two opposite corners.
    pub fn from_points(a: Point3, b: Point3) -> (r: Aabb)
        requires
            point_in(a, BOXB as int),
            point_in(b, BOXB as int),
        ensures
            r.x == spec_pad(spec_corner_iv(a.0.x, b.0.x), PAD_RAW as int),
            r.y == spec_pad(spec_corner_iv(a.0.y, b.0.y), PAD_RAW as int),
            r.z == spec_pad(spec_corner_iv(a.0.z, b.0.z), PAD_RAW as int),
            r == spec_corner_box(a, b),
    {
        Aabb::new(
            corner_iv(a.0.x, b.0.x),
            corner_iv(a.0.y, b.0.y),
            corner_iv(a.0.z, b.0.z),
        )
    }

    /// The smallest padded box holding both inputs.
    pub fn merge(a: &Aabb, b: &Aabb) -> (r: Aabb)
        requires
            aabb_in(*a, BOXB as int),
            aabb_in(*b, BOXB as int),
        ensures
            r.x == spec_pad(spec_merged_iv(a.x, b.x), PAD_RAW as int),
            r.y == spec_pad(spec_merged_iv(a.y, b.y), PAD_RAW as int),
            r.z == spec_pad(spec_merged_iv(a.z, b.z), PAD_RAW as int),
            r == spec_merge_box(*a, *b),
    {
        Aabb::new(
            Interval::merge(&a.x, &b.x),
            Interval::merge(&a.y, &b.y),
            Interval::merge(&a.z, &b.z),
        )
    }

    pub fn axis_interval(&self, a: Axis) -> (r: &Interval)
        ensures
            *r == self.spec_axis_interval(a),
    {
        match a {
            Axis::X => &self.x,
            Axis::Y => &self.y,
            Axis::Z => &self.z,
        }
    }

    pub open spec fn spec_axis_interval(self, a: Axis) -> Interval {
        match a {
            Axis::X => self.x,
            Axis::Y => self.y,
            Axis::Z => self.z,
        }
    }

    /// The axis the box extends farthest along.
    pub fn longest_axis(&self) -> (r: Axis)
        requires
            aabb_in(*self, BOXB as int),
        ensures
            r == spec_longest_axis(*self),
    {
        let sx = self.x.size();
        let sy = self.y.size();
        let sz = self.z.size();
        if sy.lt(sx) {
            if sz.lt(sx) {
                Axis::X
            } else {
                Axis::Z
            }
        } else if sz.lt(sy) {
            Axis::Y
        } else {
            Axis::Z
        }
    }

    /// The slab test: whether the ray passes through the box within the
    /// query window.
    pub fn hit(&self, ray: &Ray, ray_t: &Interval) -> (r: bool)
        requires
            aabb_in(*self, BOXB as int),
            ray_within(*ray, BOXB as int, BOXB as int),
        ensures
            r == spec_aabb_hit(*self, *ray, *ray_t),
    {
        let o = ray.origin();
        let d = ray.direction();
        let step_x = slab_step_exec(&self.x, o.0.x, d.x, ray_t.min, ray_t.max);
        match step_x {
            None => false,
            Some((m1, x1)) => {
                let step_y = slab_step_exec(&self.y, o.0.y, d.y, m1, x1);
                match step_y {
                    None => false,
                    Some((m2, x2)) => {
                        let step_z = slab_step_exec(&self.z, o.0.z, d.z, m2, x2);
                        step_z.is_some()
                    },
                }
            },
        }
    }
}

/// The plain merge of two intervals, before padding.
pub open spec fn spec_merged_iv(a: Interval, b: Interval) -> Interval {
    Interval { min: ext_min(a.min, b.min), max: ext_max(a.max, b.max) }
}

/// The padded box spanned by two corner points, as a value.
pub open spec fn spec_corner_box(a: Point3, b: Point3) -> Aabb {
    Aabb {
        x: spec_pad(spec_corner_iv(a.0.x, b.0.x), PAD_RAW as int),
        y: spec_pad(spec_corner_iv(a.0.y, b.0.y), PAD_RAW as int),
        z: spec_pad(spec_corner_iv(a.0.z, b.0.z), PAD_RAW as int),
    }
}

/// The clamped-and-repadded box, as a value.
pub open spec fn spec_clamp_box(b: Aabb, m: int) -> Aabb {
    Aabb { x: spec_clamp_iv(b.x, m), y: spec_clamp_iv(b.y, m), z: spec_clamp_iv(b.z, m) }
}

/// The interval between two corner coordinates, lower end first.
pub open spec fn spec_corner_iv(a: Fx, b: Fx) -> Interval {
    if a.0 < b.0 {
        Interval { min: ExtFx::Fin(a), max: ExtFx::Fin(b) }
    } else {
        Interval { min: ExtFx::Fin(b), max: ExtFx::Fin(a) }
    }
}

fn corner_iv(a: Fx, b: Fx) -> (r: Interval)
    ensures
        r == spec_corner_iv(a, b),
{
    if a.0 < b.0 {
        Interval::from_fx(a, b)
    } else {
        Interval::from_fx(b, a)
    }
}

/// The padded box that `Aabb::merge` builds from two boxes.
pub open spec fn spec_merge_box(a: Aabb, b: Aabb) -> Aabb {
    Aabb {
        x: spec_pad(spec_merged_iv(a.x, b.x), PAD_RAW as int),
        y: spec_pad(spec_merged_iv(a.y, b.y), PAD_RAW as int),
        z: spec_pad(spec_merged_iv(a.z, b.z), PAD_RAW as int),
    }
}

/// The order on extended scalars is total.
pub proof fn lemma_ext_total(x: ExtFx, y: ExtFx)
    ensures
        ext_le(x, y) || ext_le(y, x),
{
}

/// Taking the smaller of two extended scalars is associative.
pub proof fn lemma_ext_min_assoc(x: ExtFx, y: ExtFx, z: ExtFx)
    ensures
        ext_min(ext_min(x, y), z) == ext_min(x, ext_min(y, z)),
{
}

/// Taking the larger of two extended scalars is associative.
pub proof fn lemma_ext_max_assoc(x: ExtFx, y: ExtFx, z: ExtFx)
    ensures
        ext_max(ext_max(x, y), z) == ext_max(x, ext_max(y, z)),
{
}

/// An interval that only widens keeps the padded thickness.
pub proof fn lemma_size_widens(i: Interval, j: Interval)
    requires
        ext_le(j.min, i.min),
        ext_le(i.max, j.max),
        ext_le(ExtFx::Fin(Fx(PAD_RAW)), crate::math::interval::spec_size(i)),
        interval_endpoints_in(i, BOXB as int),
        interval_endpoints_in(j, BOXB as int),
    ensures
        ext_le(ExtFx::Fin(Fx(PAD_RAW)), crate::math::interval::spec_size(j)),
{
}

/// Merging two axes left sound by construction needs no padding, and the
/// result is sound again and no wider than its inputs.
pub proof fn lemma_merge_iv(a: Interval, b: Interval, m: int)
    requires
        interval_wf(a),
        interval_wf(b),
        interval_endpoints_in(a, m),
        interval_endpoints_in(b, m),
        0 <= m <= BOXB,
    ensures
        spec_pad(spec_merged_iv(a, b), PAD_RAW as int) == spec_merged_iv(a, b),
        interval_wf(spec_merged_iv(a, b)),
        interval_endpoints_in(spec_merged_iv(a, b), m),
{
    let merged = spec_merged_iv(a, b);
    lemma_ext_total(a.min, b.min);
    lemma_ext_total(a.max, b.max);
    if a.min == ExtFx::PosInf && a.max == ExtFx::NegInf {
        assert(merged == b);
    } else if b.min == ExtFx::PosInf && b.max == ExtFx::NegInf {
        assert(merged == a);
    } else {
        assert(ext_le(merged.min, a.min));
        assert(ext_le(a.max, merged.max));
        lemma_size_widens(a, merged);
    }
}

/// Merging two boxes left sound by construction pads nothing, and keeps
/// the box sound and bounded.
pub proof fn lemma_merge_keeps_wf(a: Aabb, b: Aabb, m: int)
    requires
        aabb_wf(a),
        aabb_wf(b),
        aabb_in(a, m),
        aabb_in(b, m),
        0 <= m <= BOXB,
    ensures
        spec_merge_box(a, b) == (Aabb {
            x: spec_merged_iv(a.x, b.x),
            y: spec_merged_iv(a.y, b.y),
            z: spec_merged_iv(a.z, b.z),
        }),
        aabb_wf(spec_merge_box(a, b)),
        aabb_in(spec_merge_box(a, b), m),
{
    lemma_merge_iv(a.x, b.x, m);
    lemma_merge_iv(a.y, b.y, m);
    lemma_merge_iv(a.z, b.z, m);
}

/// The box built over two bounded corner points is sound and bounded.
pub proof fn lemma_from_points_wf(a: Point3, b: Point3, m: int)
    requires
        point_in(a, m),
        point_in(b, m),
        0 <= m <= BOXB,
    ensures
        interval_wf(spec_pad(spec_corner_iv(a.0.x, b.0.x), PAD_RAW as int)),
        interval_wf(spec_pad(spec_corner_iv(a.0.y, b.0.y), PAD_RAW as int)),
        interval_wf(spec_pad(spec_corner_iv(a.0.z, b.0.z), PAD_RAW as int)),
        interval_endpoints_in(spec_pad(spec_corner_iv(a.0.x, b.0.x), PAD_RAW as int), m + 46),
        interval_endpoints_in(spec_pad(spec_corner_iv(a.0.y, b.0.y), PAD_RAW as int), m + 46),
        interval_endpoints_in(spec_pad(spec_corner_iv(a.0.z, b.0.z), PAD_RAW as int), m + 46),
{
    lemma_pad_corner(a.0.x, b.0.x, m);
    lemma_pad_corner(a.0.y, b.0.y, m);
    lemma_pad_corner(a.0.z, b.0.z, m);
}

/// Padding the interval between two bounded values gives a sound, bounded
/// axis.
pub proof fn lemma_pad_corner(a: Fx, b: Fx, m: int)
    requires
        -m <= a.0 <= m,
        -m <= b.0 <= m,
        0 <= m <= BOXB,
    ensures
        interval_wf(spec_pad(spec_corner_iv(a, b), PAD_RAW as int)),
        interval_endpoints_in(spec_pad(spec_corner_iv(a, b), PAD_RAW as int), m + 46),
{
    let iv = spec_corner_iv(a, b);
    let lo = if a.0 < b.0 {
        a.0 as int
    } else {
        b.0 as int
    };
    let hi = if a.0 < b.0 {
        b.0 as int
    } else {
        a.0 as int
    };
    assert(iv.min == ExtFx::Fin(Fx(lo as i128)) && iv.max == ExtFx::Fin(Fx(hi as i128)));
    assert(crate::math::interval::spec_size(iv) == ExtFx::Fin(Fx((hi - lo) as i128)));
    if hi - lo < PAD_RAW {
        assert(spec_pad(iv, PAD_RAW as int) == crate::math::interval::spec_expand(
            iv,
            PAD_RAW as int,
        ));
        assert((PAD_RAW as int) / 2 == 46);
    } else {
        assert(spec_pad(iv, PAD_RAW as int) == iv);
    }
}

/// Law: merging two constructed boxes is commutative in the resulting
/// bounds on every axis.
pub proof fn lemma_merge_commutative(a: Aabb, b: Aabb)
    requires
        aabb_wf(a),
        aabb_wf(b),
        aabb_in(a, crate::fx::BOXB as int),
        aabb_in(b, crate::fx::BOXB as int),
    ensures
        spec_merge_box(a, b) == spec_merge_box(b, a),
{
    lemma_merge_keeps_wf(a, b, crate::fx::BOXB as int);
    lemma_merge_keeps_wf(b, a, crate::fx::BOXB as int);
    lemma_ext_total(a.x.min, b.x.min);
    lemma_ext_total(a.y.min, b.y.min);
    lemma_ext_total(a.z.min, b.z.min);
    lemma_ext_total(a.x.max, b.x.max);
    lemma_ext_total(a.y.max, b.y.max);
    lemma_ext_total(a.z.max, b.z.max);
}

/// Law: merging three constructed boxes gives the same bounds on every
/// axis whichever pair is merged first.
pub proof fn lemma_merge_associative(a: Aabb, b: Aabb, c: Aabb)
    requires
        aabb_wf(a),
        aabb_wf(b),
        aabb_wf(c),
        aabb_in(a, crate::fx::BOXB as int),
        aabb_in(b, crate::fx::BOXB as int),
        aabb_in(c, crate::fx::BOXB as int),
    ensures
        spec_merge_box(spec_merge_box(a, b), c) == spec_merge_box(a, spec_merge_box(b, c)),
{
    let m = crate::fx::BOXB as int;
    lemma_merge_keeps_wf(a, b, m);
    lemma_merge_keeps_wf(b, c, m);
    lemma_merge_keeps_wf(spec_merge_box(a, b), c, m);
    lemma_merge_keeps_wf(a, spec_merge_box(b, c), m);
    lemma_ext_min_assoc(a.x.min, b.x.min, c.x.min);
    lemma_ext_min_assoc(a.y.min, b.y.min, c.y.min);
    lemma_ext_min_assoc(a.z.min, b.z.min, c.z.min);
    lemma_ext_max_assoc(a.x.max, b.x.max, c.x.max);
    lemma_ext_max_assoc(a.y.max, b.y.max, c.y.max);
    lemma_ext_max_assoc(a.z.max, b.z.max, c.z.max);
}

/// An interval of a usable shape: the canonical empty interval, or one
/// whose lower end is at or below its upper end with neither at the
/// wrong infinity.
pub open spec fn interval_sane(i: Interval) -> bool {
    ||| (i.min == ExtFx::PosInf && i.max == ExtFx::NegInf)
    ||| (ext_le(i.min, i.max) && i.min != ExtFx::PosInf && i.max != ExtFx::NegInf)
}

/// A sound interval is of a usable shape.
pub proof fn lemma_wf_sane(i: Interval)
    requires
        interval_wf(i),
        interval_endpoints_in(i, BOXB as int),
    ensures
        interval_sane(i),
{
}

/// One interval endpoint clamped into the storable range.
pub open spec fn spec_clamp_end(e: ExtFx, m: int) -> ExtFx {
    match e {
        ExtFx::Fin(v) => if v.0 < -m {
            ExtFx::Fin(Fx((-m) as i128))
        } else if v.0 > m {
            ExtFx::Fin(Fx(m as i128))
        } else {
            e
        },
        _ => e,
    }
}

/// An interval with both ends clamped into the storable range, then
/// padded back to soundness.
pub open spec fn spec_clamp_iv(i: Interval, m: int) -> Interval {
    spec_pad(
        Interval { min: spec_clamp_end(i.min, m), max: spec_clamp_end(i.max, m) },
        PAD_RAW as int,
    )
}

fn clamp_end(e: ExtFx, m: i128) -> (r: ExtFx)
    requires
        0 < m <= crate::fx::DIVIN,
    ensures
        r == spec_clamp_end(e, m as int),
{
    match e {
        ExtFx::Fin(v) => if v.0 < -m {
            ExtFx::Fin(Fx(-m))
        } else if v.0 > m {
            ExtFx::Fin(Fx(m))
        } else {
            e
        },
        _ => e,
    }
}

/// A box with every endpoint clamped into the storable range and each
/// axis padded back to soundness.  The stored box is advisory: clamping
/// only widens the set of rays the box test can accept near the limits.
pub fn clamp_box(b: &Aabb, m: i128) -> (r: Aabb)
    requires
        0 < m,
        m + 46 <= BOXB,
        interval_sane(b.x),
        interval_sane(b.y),
        interval_sane(b.z),
    ensures
        r.x == spec_clamp_iv(b.x, m as int),
        r.y == spec_clamp_iv(b.y, m as int),
        r.z == spec_clamp_iv(b.z, m as int),
        r == spec_clamp_box(*b, m as int),
        aabb_wf(r),
        aabb_in(r, m as int + 46),
{
    let x = clamp_axis(&b.x, m);
    let y = clamp_axis(&b.y, m);
    let z = clamp_axis(&b.z, m);
    Aabb { x, y, z }
}

fn clamp_axis(iv: &Interval, m: i128) -> (r: Interval)
    requires
        0 < m,
        m + 46 <= BOXB,
        interval_sane(*iv),
    ensures
        r == spec_clamp_iv(*iv, m as int),
        interval_wf(r),
        interval_endpoints_in(r, m as int + 46),
{
    let lo = clamp_end(iv.min, m);
    let hi = clamp_end(iv.max, m);
    let clamped = Interval { min: lo, max: hi };
    clamped.expand_if_smaller_than(Fx(PAD_RAW))
}

/// The origin sits strictly inside the axis slab, with at least one
/// representation step of margin per unit of ray speed on that axis.
pub open spec fn inside_axis(iv: Interval, o: int, d: int) -> bool {
    &&& iv.min matches ExtFx::Fin(lo)
    &&& iv.max matches ExtFx::Fin(hi)
    &&& (iv.min matches ExtFx::Fin(lo) ==> (iv.max matches ExtFx::Fin(hi) ==> (if d == 0 {
        lo.0 < o < hi.0
    } else {
        (o - lo.0) * (crate::fx::SCALE as int) >= (if d >= 0 {
            d
        } else {
            -d
        }) && (hi.0 - o) * (crate::fx::SCALE as int) >= (if d >= 0 {
            d
        } else {
            -d
        })
    })))
}

/// One slab step keeps a window that straddles zero when the origin sits
/// inside the axis slab.
proof fn lemma_slab_axis_inside(iv: Interval, o: int, d: int, tmin: ExtFx, tmax: ExtFx)
    requires
        inside_axis(iv, o, d),
        interval_endpoints_in(iv, BOXB as int),
        -BOXB <= o <= BOXB,
        ext_lt(tmin, ExtFx::Fin(Fx(0))),
        ext_lt(ExtFx::Fin(Fx(0)), tmax),
    ensures
        slab_step(iv, o, d, tmin, tmax) is Some,
        ext_lt(slab_step(iv, o, d, tmin, tmax).unwrap().0, ExtFx::Fin(Fx(0))),
        ext_lt(ExtFx::Fin(Fx(0)), slab_step(iv, o, d, tmin, tmax).unwrap().1),
{
    let lo = iv.min->Fin_0;
    let hi = iv.max->Fin_0;
    if d == 0 {
        assert(still_wall(iv.min, o) == Some(ExtFx::NegInf));
        assert(still_wall(iv.max, o) == Some(ExtFx::PosInf));
    } else {
        let s = crate::fx::SCALE as int;
        let t0 = fxdiv(lo.0 - o, d);
        let t1 = fxdiv(hi.0 - o, d);
        if d > 0 {
            crate::fx::lemma_tdiv_unit_mag((lo.0 - o) * s, d);
            crate::fx::lemma_tdiv_abs_le((lo.0 - o) * s, d);
            crate::fx::lemma_tdiv_unit_mag((hi.0 - o) * s, d);
            crate::fx::lemma_tdiv_abs_le((hi.0 - o) * s, d);
            assert(t0 <= -1 && t1 >= 1);
        } else {
            crate::fx::lemma_tdiv_unit_mag((lo.0 - o) * s, -d);
            crate::fx::lemma_tdiv_abs_le((lo.0 - o) * s, d);
            crate::fx::lemma_tdiv_unit_mag((hi.0 - o) * s, -d);
            crate::fx::lemma_tdiv_abs_le((hi.0 - o) * s, d);
            assert(t0 >= 1 && t1 <= -1);
        }
    }
}

/// Law: a ray whose origin sits strictly inside the box on every axis,
/// with a margin of one representation step per unit of speed, is
/// reported hit whenever the query window straddles zero.
pub proof fn lemma_hit_from_inside(b: Aabb, r: Ray, ray_t: Interval)
    requires
        inside_axis(b.x, r.spec_origin().0.x.0 as int, r.spec_direction().x.0 as int),
        inside_axis(b.y, r.spec_origin().0.y.0 as int, r.spec_direction().y.0 as int),
        inside_axis(b.z, r.spec_origin().0.z.0 as int, r.spec_direction().z.0 as int),
        aabb_in(b, BOXB as int),
        ray_within(r, BOXB as int, BOXB as int),
        ext_lt(ray_t.min, ExtFx::Fin(Fx(0))),
        ext_lt(ExtFx::Fin(Fx(0)), ray_t.max),
    ensures
        spec_aabb_hit(b, r, ray_t),
{
    let ox = r.spec_origin().0.x.0 as int;
    let oy = r.spec_origin().0.y.0 as int;
    let oz = r.spec_origin().0.z.0 as int;
    let dx = r.spec_direction().x.0 as int;
    let dy = r.spec_direction().y.0 as int;
    let dz = r.spec_direction().z.0 as int;
    lemma_slab_axis_inside(b.x, ox, dx, ray_t.min, ray_t.max);
    let s1 = slab_step(b.x, ox, dx, ray_t.min, ray_t.max).unwrap();
    lemma_slab_axis_inside(b.y, oy, dy, s1.0, s1.1);
    let s2 = slab_step(b.y, oy, dy, s1.0, s1.1).unwrap();
    lemma_slab_axis_inside(b.z, oz, dz, s2.0, s2.1);
}

/// The axis of greatest extent, sizes compared on extended scalars.
pub open spec fn spec_longest_axis(b: Aabb) -> Axis {
    let sx = crate::math::interval::spec_size(b.x);
    let sy = crate::math::interval::spec_size(b.y);
    let sz = crate::math::interval::spec_size(b.z);
    if ext_lt(sy, sx) {
        if ext_lt(sz, sx) {
            Axis::X
        } else {
            Axis::Z
        }
    } else if ext_lt(sz, sy) {
        Axis::Y
    } else {
        Axis::Z
    }
}

} // verus!
