//! A flat, unordered collection of scene objects.

use vstd::prelude::*;

verus! {

use crate::fx::{DMAX, PMAX};
use crate::hittables::{hit_ok, hittable_wf, hr_wf, lemma_bbox_wf, spec_bbox, HitRecord, Hittable, BBND};
use crate::math::aabb::{aabb_in, aabb_wf, Aabb};
use crate::math::interval::Interval;
use crate::math::ray::{ray_within, Ray};
use crate::rng::RandomSource;

/// A list of objects with a cached box covering all of them.
pub struct HittableList {
    pub objects: Vec<Hittable>,
    pub bbox: Aabb,
}

/// The nearer of a running best hit and a new candidate; a tie goes to
/// the newer, as a linear minimum scan leaves the last of equals.
pub open spec fn pick_nearer<'a>(
    best: Option<HitRecord<'a>>,
    new: Option<HitRecord<'a>>,
) -> Option<HitRecord<'a>> {
    match new {
        Option::None => best,
        Option::Some(nh) => match best {
            Option::None => new,
            Option::Some(bh) => if nh.t.0 <= bh.t.0 {
                new
            } else {
                best
            },
        },
    }
}

/// The nearest hit among the first `n` per-object results.
pub open spec fn fold_nearest<'a>(rs: Seq<Option<HitRecord<'a>>>, n: int) -> Option<
    HitRecord<'a>,
>
    decreases n,
{
    if n <= 0 {
        Option::<HitRecord<'a>>::None
    } else {
        pick_nearer(fold_nearest(rs, n - 1), rs[n - 1])
    }
}

impl HittableList {
    /// An empty list.
    pub fn new() -> (r: HittableList)
        ensures
            r.objects@.len() == 0,
            hittable_wf(Hittable::List(r)),
    {
        HittableList { objects: Vec::new(), bbox: Aabb::empty() }
    }

    /// Add an object, widening the cached box to cover it.
    pub fn push(&mut self, h: Hittable)
        requires
            hittable_wf(h),
            hittable_wf(Hittable::List(*old(self))),
        ensures
            final(self).objects@ == old(self).objects@.push(h),
            final(self).bbox == crate::math::aabb::spec_merge_box(old(self).bbox, spec_bbox(h)),
            hittable_wf(Hittable::List(*final(self))),
    {
        proof {
            lemma_bbox_wf(h);
        }
        let merged = Aabb::merge(&self.bbox, h.bounding_box());
        proof {
            crate::math::aabb::lemma_merge_keeps_wf(self.bbox, spec_bbox(h), BBND as int);
        }
        self.bbox = merged;
        self.objects.push(h);
    }

    /// The nearest hit over a linear scan of every object.
    pub fn hit<'a>(
        &'a self,
        r: &Ray,
        ray_bounds: &Interval,
        rng: &mut RandomSource,
    ) -> (res: Option<HitRecord<'a>>)
        requires
            hittable_wf(Hittable::List(*self)),
            ray_within(*r, PMAX as int, DMAX as int),
        ensures
            hit_ok(Hittable::List(*self), *r, *ray_bounds, res),
            res matches Some(h) ==> hr_wf(h),
        decreases *self,
    {
        let ghost mut rs: Seq<Option<HitRecord<'a>>> = Seq::empty();
        let mut best: Option<HitRecord<'a>> = None;
        let mut i: usize = 0;
        while i < self.objects.len()
            invariant
                hittable_wf(Hittable::List(*self)),
                ray_within(*r, PMAX as int, DMAX as int),
                i <= self.objects.len(),
                rs.len() == i,
                forall|j: int| 0 <= j < i ==> hit_ok(self.objects@[j], *r, *ray_bounds, #[trigger] rs[j]),
                best == fold_nearest(rs, i as int),
                best matches Some(h) ==> hr_wf(h),
            decreases self.objects.len() - i,
        {
            assert(hittable_wf(self.objects@[i as int]));
            let cur = self.objects[i].hit(r, ray_bounds, rng);
            proof {
                let prev = rs;
                rs = rs.push(cur);
                assert forall|j: int| 0 <= j < i + 1 implies hit_ok(
                    self.objects@[j],
                    *r,
                    *ray_bounds,
                    #[trigger] rs[j],
                ) by {
                    if j < i {
                        assert(rs[j] == prev[j]);
                    } else {
                        assert(rs[j] == cur);
                    }
                }
                lemma_fold_agrees(prev, rs, i as int);
            }
            best = match (cur, best) {
                (Option::None, b) => b,
                (Option::Some(nh), Option::None) => Some(nh),
                (Option::Some(nh), Option::Some(bh)) => if nh.t.0 <= bh.t.0 {
                    Some(nh)
                } else {
                    Some(bh)
                },
            };
            i = i + 1;
        }
        proof {
            assert(rs.len() == self.objects@.len());
            assert(best == fold_nearest(rs, rs.len() as int));
        }
        best
    }
}

/// Two result sequences that agree on a prefix fold to the same nearest
/// hit over that prefix.
proof fn lemma_fold_agrees<'a>(a: Seq<Option<HitRecord<'a>>>, b: Seq<Option<HitRecord<'a>>>, n: int)
    requires
        forall|j: int| 0 <= j < n ==> a[j] == b[j],
    ensures
        fold_nearest(a, n) == fold_nearest(b, n),
    decreases n,
{
    if n > 0 {
        lemma_fold_agrees(a, b, n - 1);
    }
}

} // verus!
