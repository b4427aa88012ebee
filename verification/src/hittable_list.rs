//! A flat collection of surfaces.

use vstd::prelude::*;
use crate::aabb::AABB;
use crate::hit_record::HitRecord;
use crate::hittable::Hittable;
use crate::interval::Interval;
use crate::ray::Ray;
use crate::scalar::Scalar;

verus! {

/// Surfaces that are tested one after the other.
pub struct HittableList<H> {
    pub objects: Vec<H>,
    pub bounding_box: AABB,
}

/// The box around the boxes of all the surfaces: the empty box widened by
/// each surface's box in turn, from the last surface to the first.
pub open spec fn boxes_union<H: Hittable>(objects: Seq<H>) -> AABB
    decreases objects.len(),
{
    if objects.len() == 0 {
        AABB::empty_spec()
    } else {
        AABB::from_boxes_spec(boxes_union(objects.skip(1)), objects[0].bounding_box_spec())
    }
}

/// What testing the surfaces from number `i` on reports, when the nearest
/// intersection found so far is `best` and lies at the ray parameter
/// `closest`: each surface is tested within `low .. closest`, and an
/// intersection found takes the place of `best` and its ray parameter that of
/// `closest`.
pub open spec fn hit_from<H: Hittable>(
    objects: Seq<H>,
    ray: Ray,
    low: Scalar,
    closest: Scalar,
    best: Option<HitRecord>,
    i: int,
) -> Option<HitRecord>
    decreases objects.len() - i,
{
    if i < 0 || i >= objects.len() {
        best
    } else {
        match objects[i].hit_spec(ray, Interval { min: low, max: closest }) {
            Some(found) => hit_from(objects, ray, low, found.time, Some(found), i + 1),
            None => hit_from(objects, ray, low, closest, best, i + 1),
        }
    }
}

impl<H: Hittable> HittableList<H> {
    /// Whether the stored box is the box around the boxes of the surfaces.
    pub open spec fn well_formed(self) -> bool {
        self.bounding_box == boxes_union(self.objects@)
    }

    /// A list without surfaces.
    pub fn new() -> (r: HittableList<H>)
        ensures
            r.objects@.len() == 0,
            r.well_formed(),
    {
        HittableList { objects: Vec::new(), bounding_box: AABB::empty() }
    }

    /// Puts `object` at the front of the list and widens the box by its box.
    pub fn add(&mut self, object: H)
        ensures
            final(self).objects@ == seq![object] + old(self).objects@,
            final(self).bounding_box == AABB::from_boxes_spec(
                old(self).bounding_box,
                object.bounding_box_spec(),
            ),
            old(self).well_formed() ==> final(self).well_formed(),
    {
        let bounding_box = object.bounding_box();
        self.objects.insert(0, object);
        self.bounding_box = AABB::from_boxes(&self.bounding_box, &bounding_box);
        proof {
            assert(self.objects@ =~= seq![object] + old(self).objects@);
            assert(self.objects@.skip(1) =~= old(self).objects@);
        }
    }
}

impl<H: Hittable> Hittable for HittableList<H> {
    /// The intersection that is left after all the surfaces were tested,
    /// each within what the ones before it left of `ray_time`.
    open spec fn hit_spec(&self, ray: Ray, ray_time: Interval) -> Option<HitRecord> {
        hit_from(self.objects@, ray, ray_time.min, ray_time.max, None, 0)
    }

    open spec fn bounding_box_spec(&self) -> AABB {
        self.bounding_box
    }

    fn hit(&self, ray: &Ray, ray_time: Interval, hit_record: &mut HitRecord) -> (r: bool) {
        let mut hit_anything = false;
        let mut closest_so_far = ray_time.max;
        let ghost mut best: Option<HitRecord> = None;
        let mut i: usize = 0;
        while i < self.objects.len()
            invariant
                0 <= i <= self.objects.len(),
                hit_anything == best.is_some(),
                hit_anything ==> *hit_record == best.unwrap(),
                self.hit_spec(*ray, ray_time) == hit_from(
                    self.objects@,
                    *ray,
                    ray_time.min,
                    closest_so_far,
                    best,
                    i as int,
                ),
            decreases self.objects.len() - i,
        {
            let mut temp_hit_record = HitRecord::default();
            if self.objects[i].hit(
                ray,
                Interval { min: ray_time.min, max: closest_so_far },
                &mut temp_hit_record,
            ) {
                hit_anything = true;
                closest_so_far = temp_hit_record.time;
                *hit_record = temp_hit_record;
                proof {
                    best = Some(temp_hit_record);
                }
            }
            i = i + 1;
        }
        hit_anything
    }

    fn bounding_box(&self) -> (r: AABB) {
        self.bounding_box
    }
}

} // verus!
