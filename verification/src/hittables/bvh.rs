//! Bounding-volume-hierarchy nodes: a binary tree pruned by boxes.

use vstd::prelude::*;

verus! {

use vstd::multiset::Multiset;
use vstd::seq_lib::to_multiset_insert;

use crate::fx::{DMAX, PMAX};
use crate::hittables::{hit_ok, hittable_wf, hr_wf, lemma_bbox_wf, spec_bbox, HitRecord, Hittable, BBND};
use crate::math::aabb::{aabb_in, aabb_wf, spec_merge_box, Aabb};
use crate::math::interval::{ext_lt, ExtFx, Interval};
use crate::math::ray::{ray_within, Ray};
use crate::math::Axis;
use crate::rng::RandomSource;

/// One binary tree node over a fixed set of objects.
pub struct BvhNode {
    pub left: Box<Hittable>,
    pub right: Box<Hittable>,
    pub bbox: Aabb,
}

/// The window the right subtree is queried with: capped at the left
/// subtree's hit distance, so a right hit is never farther.
pub open spec fn restricted<'a>(ray_t: Interval, lres: Option<HitRecord<'a>>) -> Interval {
    Interval {
        min: ray_t.min,
        max: match lres {
            Option::Some(h) => ExtFx::Fin(h.t),
            Option::None => ray_t.max,
        },
    }
}

/// The objects at the leaves of a tree, as a multiset.  Tree nodes open
/// into their children and a list that holds nothing contributes
/// nothing; everything else is a leaf.
pub open spec fn bvh_leaf_objects(h: Hittable) -> Multiset<Hittable>
    decreases h,
{
    match h {
        Hittable::BvhNode(b) => bvh_leaf_objects(*b.left).add(bvh_leaf_objects(*b.right)),
        Hittable::List(l) => if l.objects@.len() == 0 {
            Multiset::<Hittable>::empty()
        } else {
            Multiset::singleton(h)
        },
        _ => Multiset::singleton(h),
    }
}

/// The leaf objects contributed by a sequence of objects.
pub open spec fn seq_leaf_objects(s: Seq<Hittable>) -> Multiset<Hittable>
    decreases s.len(),
{
    if s.len() == 0 {
        Multiset::<Hittable>::empty()
    } else {
        seq_leaf_objects(s.drop_last()).add(bvh_leaf_objects(s.last()))
    }
}

/// Leaf objects distribute over concatenation.
proof fn lemma_leaves_concat(a: Seq<Hittable>, b: Seq<Hittable>)
    ensures
        seq_leaf_objects(a + b) == seq_leaf_objects(a).add(seq_leaf_objects(b)),
    decreases b.len(),
{
    broadcast use vstd::multiset::group_multiset_axioms;

    if b.len() == 0 {
        assert(a + b =~= a);
        assert(seq_leaf_objects(a + b).add(seq_leaf_objects(b)) =~= seq_leaf_objects(a).add(
            seq_leaf_objects(b),
        ));
        assert(seq_leaf_objects(a).add(Multiset::<Hittable>::empty()) =~= seq_leaf_objects(a));
    } else {
        lemma_leaves_concat(a, b.drop_last());
        assert((a + b).drop_last() =~= a + b.drop_last());
        assert((a + b).last() == b.last());
        assert(seq_leaf_objects(a).add(seq_leaf_objects(b.drop_last())).add(
            bvh_leaf_objects(b.last()),
        ) =~= seq_leaf_objects(a).add(
            seq_leaf_objects(b.drop_last()).add(bvh_leaf_objects(b.last())),
        ));
    }
}

/// Removing one member moves its leaves out of the total.
proof fn lemma_leaves_remove(s: Seq<Hittable>, j: int)
    requires
        0 <= j < s.len(),
    ensures
        seq_leaf_objects(s) == seq_leaf_objects(s.remove(j)).add(bvh_leaf_objects(s[j])),
    decreases s.len(),
{
    broadcast use vstd::multiset::group_multiset_axioms;

    if j == s.len() - 1 {
        assert(s.remove(j) =~= s.drop_last());
    } else {
        lemma_leaves_remove(s.drop_last(), j);
        assert(s.remove(j).drop_last() =~= s.drop_last().remove(j));
        assert(s.remove(j).last() == s.last());
        assert(seq_leaf_objects(s.drop_last().remove(j)).add(
            bvh_leaf_objects(s.drop_last()[j]),
        ).add(bvh_leaf_objects(s.last())) =~= seq_leaf_objects(s.drop_last().remove(j)).add(
            bvh_leaf_objects(s.last()),
        ).add(bvh_leaf_objects(s[j])));
    }
}

/// Sequences holding the same objects contribute the same leaves.
proof fn lemma_leaves_permutation(a: Seq<Hittable>, b: Seq<Hittable>)
    requires
        a.to_multiset() == b.to_multiset(),
    ensures
        seq_leaf_objects(a) == seq_leaf_objects(b),
    decreases a.len(),
{
    broadcast use vstd::multiset::group_multiset_axioms;

    a.to_multiset_ensures();
    b.to_multiset_ensures();
    if a.len() == 0 {
        assert(b.len() == 0);
    } else {
        let x = a.last();
        assert(a.to_multiset().count(x) > 0) by {
            assert(a.contains(x));
        }
        assert(b.contains(x));
        let j = choose|j: int| 0 <= j < b.len() && b[j] == x;
        lemma_leaves_remove(b, j);
        assert(a.drop_last() =~= a.remove(a.len() - 1));
        lemma_leaves_remove(a, a.len() - 1);
        assert(a.remove(a.len() - 1).to_multiset() == b.remove(j).to_multiset()) by {
            assert(a.remove(a.len() - 1).to_multiset() =~= a.to_multiset().remove(x));
            assert(b.remove(j).to_multiset() =~= b.to_multiset().remove(x));
        }
        lemma_leaves_permutation(a.remove(a.len() - 1), b.remove(j));
    }
}

/// The fold of the merged, padded boxes over the first `n` objects.
pub open spec fn spec_merged_boxes(s: Seq<Hittable>, n: int) -> Aabb
    decreases n,
{
    if n <= 0 {
        Aabb {
            x: Interval { min: ExtFx::PosInf, max: ExtFx::NegInf },
            y: Interval { min: ExtFx::PosInf, max: ExtFx::NegInf },
            z: Interval { min: ExtFx::PosInf, max: ExtFx::NegInf },
        }
    } else {
        spec_merge_box(spec_merged_boxes(s, n - 1), spec_bbox(s[n - 1]))
    }
}

impl BvhNode {
    /// Build a tree over the objects: single or paired leaves directly,
    /// larger sets sorted along the widest axis and split at the median.
    /// The built tree holds exactly the given objects at its leaves, and
    /// its box is the ordered merge of their boxes.
    pub fn new(objects: Vec<Hittable>) -> (r: BvhNode)
        requires
            objects@.len() >= 1,
            forall|i: int| 0 <= i < objects@.len() ==> hittable_wf(#[trigger] objects@[i]),
        ensures
            hittable_wf(Hittable::BvhNode(r)),
            bvh_leaf_objects(Hittable::BvhNode(r)) == seq_leaf_objects(objects@),
            r.bbox == spec_merged_boxes(objects@, objects@.len() as int),
        decreases objects@.len(),
    {
        let ghost input = objects@;
        let mut objects = objects;
        let bbox = merge_boxes(&objects);
        let axis = bbox.longest_axis();
        let n = objects.len();
        if n == 1 {
            let only = objects.pop().unwrap();
            let empty = Hittable::List(crate::hittables::HittableList::new());
            proof {
                broadcast use vstd::multiset::group_multiset_axioms;

                reveal_with_fuel(seq_leaf_objects, 2);
                assert(bvh_leaf_objects(empty) =~= Multiset::<Hittable>::empty());
                assert(input.drop_last() =~= Seq::<Hittable>::empty());
                assert(seq_leaf_objects(input.drop_last()) =~= Multiset::<Hittable>::empty());
                assert(only == input.last());
                assert(seq_leaf_objects(input) =~= Multiset::<Hittable>::empty().add(
                    bvh_leaf_objects(only),
                ));
                assert(bvh_leaf_objects(only).add(bvh_leaf_objects(empty)) =~= seq_leaf_objects(
                    input,
                ));
            }
            BvhNode { left: Box::new(only), right: Box::new(empty), bbox }
        } else if n == 2 {
            let second = objects.pop().unwrap();
            let first = objects.pop().unwrap();
            proof {
                broadcast use vstd::multiset::group_multiset_axioms;

                reveal_with_fuel(seq_leaf_objects, 3);
                assert(second == input.last());
                assert(first == input.drop_last().last());
                assert(input.drop_last().drop_last() =~= Seq::<Hittable>::empty());
                assert(seq_leaf_objects(input.drop_last().drop_last()) =~= Multiset::<
                    Hittable,
                >::empty());
                assert(seq_leaf_objects(input) =~= Multiset::<Hittable>::empty().add(
                    bvh_leaf_objects(first),
                ).add(bvh_leaf_objects(second)));
                assert(bvh_leaf_objects(second).add(bvh_leaf_objects(first)) =~= seq_leaf_objects(
                    input,
                ));
            }
            BvhNode { left: Box::new(second), right: Box::new(first), bbox }
        } else {
            sort_by_axis_min(&mut objects, axis);
            let ghost sorted = objects@;
            let mid = objects.len() / 2;
            let right_vec = objects.split_off(mid);
            proof {
                assert(forall|i: int|
                    0 <= i < objects@.len() ==> hittable_wf(#[trigger] objects@[i]));
                assert(forall|i: int|
                    0 <= i < right_vec@.len() ==> hittable_wf(#[trigger] right_vec@[i]));
            }
            let ghost left_part = objects@;
            let ghost right_part = right_vec@;
            let left = BvhNode::new(objects);
            let right = BvhNode::new(right_vec);
            proof {
                broadcast use vstd::multiset::group_multiset_axioms;

                assert(sorted =~= left_part + right_part);
                lemma_leaves_concat(left_part, right_part);
                lemma_leaves_permutation(input, sorted);
                assert(bvh_leaf_objects(Hittable::BvhNode(left)).add(
                    bvh_leaf_objects(Hittable::BvhNode(right)),
                ) =~= seq_leaf_objects(input));
            }
            BvhNode {
                left: Box::new(Hittable::BvhNode(left)),
                right: Box::new(Hittable::BvhNode(right)),
                bbox,
            }
        }
    }

    /// Query the node: prune by the box, query the left subtree over the
    /// full window, then the right over the window capped at the left
    /// hit, and prefer the right result.
    pub fn hit<'a>(
        &'a self,
        r: &Ray,
        ray_bounds: &Interval,
        rng: &mut RandomSource,
    ) -> (res: Option<HitRecord<'a>>)
        requires
            hittable_wf(Hittable::BvhNode(*self)),
            ray_within(*r, PMAX as int, DMAX as int),
        ensures
            hit_ok(Hittable::BvhNode(*self), *r, *ray_bounds, res),
            res matches Some(h) ==> hr_wf(h),
        decreases *self,
    {
        if !self.bbox.hit(r, ray_bounds) {
            return None;
        }
        let hit_left = self.left.hit(r, ray_bounds, rng);
        let right_bound = match &hit_left {
            Option::Some(h) => ExtFx::Fin(h.t),
            Option::None => ray_bounds.max,
        };
        let restricted_iv = Interval { min: ray_bounds.min, max: right_bound };
        let hit_right = self.right.hit(r, &restricted_iv, rng);
        proof {
            assert(restricted_iv == restricted(*ray_bounds, hit_left));
            assert(crate::hittables::probed(hit_left));
            assert(crate::hittables::probed(hit_right));
        }
        match hit_right {
            Option::Some(h) => Some(h),
            Option::None => hit_left,
        }
    }
}

/// The merged box over every object's stored box, in order.
fn merge_boxes(objects: &Vec<Hittable>) -> (b: Aabb)
    requires
        forall|i: int| 0 <= i < objects@.len() ==> hittable_wf(#[trigger] objects@[i]),
    ensures
        aabb_wf(b),
        aabb_in(b, BBND as int),
        b == spec_merged_boxes(objects@, objects@.len() as int),
{
    let mut bbox = Aabb::empty();
    let mut i: usize = 0;
    while i < objects.len()
        invariant
            forall|j: int| 0 <= j < objects@.len() ==> hittable_wf(#[trigger] objects@[j]),
            i <= objects.len(),
            aabb_wf(bbox),
            aabb_in(bbox, BBND as int),
            bbox == spec_merged_boxes(objects@, i as int),
        decreases objects.len() - i,
    {
        proof {
            lemma_bbox_wf(objects@[i as int]);
        }
        let merged = Aabb::merge(&bbox, objects[i].bounding_box());
        proof {
            crate::math::aabb::lemma_merge_keeps_wf(
                bbox,
                spec_bbox(objects@[i as int]),
                BBND as int,
            );
        }
        bbox = merged;
        i = i + 1;
    }
    bbox
}

/// Whether the first object's box begins before the second's on the axis.
fn box_lt(a: &Hittable, b: &Hittable, axis: Axis) -> (r: bool)
    ensures
        r == ext_lt(
            spec_bbox(*a).spec_axis_interval(axis).min,
            spec_bbox(*b).spec_axis_interval(axis).min,
        ),
{
    let am = a.bounding_box().axis_interval(axis).min;
    let bm = b.bounding_box().axis_interval(axis).min;
    am.lt(bm)
}

/// Sort the objects by the lower end of their boxes on the axis, by
/// insertion; the multiset of objects is unchanged, so soundness of
/// every element is kept.
fn sort_by_axis_min(v: &mut Vec<Hittable>, axis: Axis)
    requires
        forall|i: int| 0 <= i < old(v)@.len() ==> hittable_wf(#[trigger] old(v)@[i]),
    ensures
        final(v)@.len() == old(v)@.len(),
        final(v)@.to_multiset() == old(v)@.to_multiset(),
        forall|i: int| 0 <= i < final(v)@.len() ==> hittable_wf(#[trigger] final(v)@[i]),
{
    let n = v.len();
    if n <= 1 {
        return ;
    }
    let mut i: usize = 1;
    while i < n
        invariant
            n == v@.len(),
            1 <= i || n <= 1,
            i <= n,
            v@.to_multiset() == old(v)@.to_multiset(),
            forall|k: int| 0 <= k < v@.len() ==> hittable_wf(#[trigger] v@[k]),
        decreases n - i,
    {
        let mut j = i;
        while j > 0
            invariant
                n == v@.len(),
                j <= i < n,
                v@.to_multiset() == old(v)@.to_multiset(),
                forall|k: int| 0 <= k < v@.len() ==> hittable_wf(#[trigger] v@[k]),
            decreases j,
        {
            if box_lt(&v[j], &v[j - 1], axis) {
                let ghost pre = v@;
                let x = v.remove(j);
                proof {
                    pre.to_multiset_ensures();
                }
                v.insert(j - 1, x);
                proof {
                    broadcast use vstd::multiset::group_multiset_axioms;

                    to_multiset_insert(pre.remove(j as int), j - 1, x);
                    assert(pre.contains(pre[j as int]));
                    assert(pre.to_multiset().count(x) > 0);
                    assert(v@.to_multiset() =~= pre.to_multiset());
                    assert(forall|k: int|
                        0 <= k < v@.len() ==> hittable_wf(#[trigger] v@[k]));
                }
                j = j - 1;
            } else {
                break ;
            }
        }
        i = i + 1;
    }
}

} // verus!
