//! Why a tree of boxes and a flat list find the same nearest intersection.
//!
//! Both are shown to report an intersection that no surface undercuts,
//! provided that each surface reports its own nearest intersection and each
//! box of the tree lets through the rays that hit what it bounds.

use vstd::prelude::*;
use crate::bvh::{hit_of, leaves_of, BVHChild, BVHNode};
use crate::hit_record::HitRecord;
use crate::hittable::Hittable;
use crate::hittable_list::{hit_from, HittableList};
use crate::interval::Interval;
use crate::ray::Ray;
use crate::scalar::Scalar;
use crate::sphere::Sphere;

verus! {

/// The intersection, where it lies below the ray parameter `upper`.
pub open spec fn below(found: Option<HitRecord>, upper: Scalar) -> Option<HitRecord> {
    match found {
        Some(record) => if record.time.lt_spec(upper) {
            Some(record)
        } else {
            None
        },
        None => None,
    }
}

/// What the surface with number `i` reports within `ray_time`.
pub open spec fn first_hit<H: Hittable>(objects: Seq<H>, i: int, ray: Ray, ray_time: Interval)
    -> Option<HitRecord> {
    objects[i].hit_spec(ray, ray_time)
}

/// The range `ray_time` with its upper end lowered to `upper`.
pub open spec fn lowered(ray_time: Interval, upper: Scalar) -> Interval {
    Interval { min: ray_time.min, max: upper }
}

/// Whether the surface reports its nearest intersection within `ray_time`:
/// what it reports lies strictly inside the range, and within a range with
/// a lower upper end it reports the same intersection where that still lies
/// below the end, and none otherwise.
pub open spec fn reports_nearest<H: Hittable>(object: H, ray: Ray, ray_time: Interval) -> bool {
    &&& object.hit_spec(ray, ray_time) matches Some(record) ==> ray_time.surrounds_spec(
        record.time,
    )
    &&& forall|upper: Scalar|
        upper.le_spec(ray_time.max) ==> #[trigger] object.hit_spec(ray, lowered(ray_time, upper))
            == below(object.hit_spec(ray, ray_time), upper)
}

/// Whether every one of the surfaces reports its nearest intersection.
pub open spec fn all_report_nearest<H: Hittable>(objects: Seq<H>, ray: Ray, ray_time: Interval)
    -> bool {
    forall|i: int| 0 <= i < objects.len() ==> reports_nearest(#[trigger] objects[i], ray, ray_time)
}

/// Whether `result` is a nearest intersection of the ray with the surfaces
/// below the ray parameter `upper`: it is what one of the surfaces reports
/// within `ray_time`, it lies below `upper`, and no surface reports an
/// intersection before it; or there is none, and no surface reports an
/// intersection below `upper`.
pub open spec fn nearest_below<H: Hittable>(
    objects: Seq<H>,
    ray: Ray,
    ray_time: Interval,
    upper: Scalar,
    result: Option<HitRecord>,
) -> bool {
    match result {
        None => forall|i: int|
            0 <= i < objects.len() ==> below(
                #[trigger] first_hit(objects, i, ray, ray_time),
                upper,
            ) is None,
        Some(record) => {
            &&& record.time.lt_spec(upper)
            &&& exists|i: int|
                0 <= i < objects.len() && #[trigger] first_hit(objects, i, ray, ray_time) == Some(
                    record,
                )
            &&& forall|i: int|
                0 <= i < objects.len() ==> (#[trigger] first_hit(
                    objects,
                    i,
                    ray,
                    ray_time,
                ) matches Some(other) ==> record.time.le_spec(other.time))
        },
    }
}

/// Whether the box lets through every ray that the surfaces stop: where a
/// surface reports an intersection below `upper`, the ray hits the box
/// within the range lowered to `upper`.
pub open spec fn box_admits<H: Hittable>(
    bounding_box: crate::aabb::AABB,
    objects: Seq<H>,
    ray: Ray,
    ray_time: Interval,
) -> bool {
    forall|upper: Scalar, i: int|
        upper.le_spec(ray_time.max) && 0 <= i < objects.len() && (#[trigger] below(
            first_hit(objects, i, ray, ray_time),
            upper,
        )) is Some ==> bounding_box.hit_spec(ray, lowered(ray_time, upper))
}

/// Whether the box of every node below lets through the rays that its
/// surfaces stop.
pub open spec fn child_admits<H: Hittable>(child: Option<BVHChild<H>>, ray: Ray, ray_time: Interval)
    -> bool
    decreases child,
{
    match child {
        Some(BVHChild::Node(node)) => tree_admits(*node, ray, ray_time),
        _ => true,
    }
}

/// Whether the box of this node and of every node below lets through the
/// rays that its surfaces stop.
pub open spec fn tree_admits<H: Hittable>(node: BVHNode<H>, ray: Ray, ray_time: Interval) -> bool
    decreases node,
{
    &&& box_admits(node.bounding_box, node.leaves(), ray, ray_time)
    &&& child_admits(node.left, ray, ray_time)
    &&& child_admits(node.right, ray, ray_time)
}

/// Whether each of the two sequences holds every surface of the other.
pub open spec fn same_objects<H>(a: Seq<H>, b: Seq<H>) -> bool {
    &&& forall|i: int| 0 <= i < a.len() ==> b.contains(#[trigger] a[i])
    &&& forall|i: int| 0 <= i < b.len() ==> a.contains(#[trigger] b[i])
}

/// A sphere reports its nearest intersection, provided that the far root
/// of its quadratic, as rounded, is not below the near root.
pub proof fn lemma_sphere_reports_nearest(sphere: Sphere, ray: Ray, ray_time: Interval)
    requires
        !sphere.far_root_spec(ray).lt_spec(sphere.near_root_spec(ray)),
    ensures
        reports_nearest(sphere, ray, ray_time),
{
    let first = sphere.hit_spec(ray, ray_time);
    assert forall|upper: Scalar| upper.le_spec(ray_time.max) implies #[trigger] sphere.hit_spec(
        ray,
        lowered(ray_time, upper),
    ) == below(first, upper) by {
        let narrow = lowered(ray_time, upper);
        assert(sphere.hit_spec(ray, narrow) == match sphere.root_spec(ray, narrow) {
            Some(root) => Some(sphere.record_at(ray, root)),
            None => None,
        });
    }
}

/// What a child reports is a nearest intersection with the surfaces below
/// it.
proof fn lemma_child_nearest<H: Hittable>(
    child: Option<BVHChild<H>>,
    ray: Ray,
    ray_time: Interval,
    upper: Scalar,
)
    requires
        upper.le_spec(ray_time.max),
        child_admits(child, ray, ray_time),
        all_report_nearest(leaves_of(child), ray, ray_time),
    ensures
        nearest_below(
            leaves_of(child),
            ray,
            ray_time,
            upper,
            hit_of(child, ray, lowered(ray_time, upper)),
        ),
    decreases child, 0nat,
{
    match child {
        None => {},
        Some(BVHChild::Object(object)) => {
            let objects = leaves_of(child);
            assert(objects[0] == object);
            assert(reports_nearest(objects[0], ray, ray_time));
            let result = object.hit_spec(ray, lowered(ray_time, upper));
            assert(result == below(first_hit(objects, 0, ray, ray_time), upper));
        },
        Some(BVHChild::Node(node)) => {
            lemma_node_nearest(*node, ray, ray_time, upper);
        },
    }
}

/// What a node reports is a nearest intersection with the surfaces of its
/// tree.
pub proof fn lemma_node_nearest<H: Hittable>(
    node: BVHNode<H>,
    ray: Ray,
    ray_time: Interval,
    upper: Scalar,
)
    requires
        upper.le_spec(ray_time.max),
        tree_admits(node, ray, ray_time),
        all_report_nearest(node.leaves(), ray, ray_time),
    ensures
        nearest_below(
            node.leaves(),
            ray,
            ray_time,
            upper,
            node.node_hit_spec(ray, lowered(ray_time, upper)),
        ),
    decreases node, 1nat,
{
    let objects = node.leaves();
    let lefts = leaves_of(node.left);
    let rights = leaves_of(node.right);
    assert(objects =~= lefts + rights);
    let range = lowered(ray_time, upper);
    let result = node.node_hit_spec(ray, range);
    assert forall|i: int| 0 <= i < lefts.len() implies reports_nearest(
        #[trigger] lefts[i],
        ray,
        ray_time,
    ) by {
        assert(lefts[i] == objects[i]);
    }
    assert forall|i: int| 0 <= i < rights.len() implies reports_nearest(
        #[trigger] rights[i],
        ray,
        ray_time,
    ) by {
        assert(rights[i] == objects[lefts.len() + i]);
    }
    assert forall|i: int| 0 <= i < objects.len() implies first_hit(objects, i, ray, ray_time) == (
    if i < lefts.len() {
        first_hit(lefts, i, ray, ray_time)
    } else {
        first_hit(rights, i - lefts.len(), ray, ray_time)
    }) by {}
    if !node.bounding_box.hit_spec(ray, range) {
        assert forall|i: int| 0 <= i < objects.len() implies below(
            #[trigger] first_hit(objects, i, ray, ray_time),
            upper,
        ) is None by {
            if below(first_hit(objects, i, ray, ray_time), upper) is Some {
                assert(node.bounding_box.hit_spec(ray, lowered(ray_time, upper)));
            }
        }
    } else {
        let left = hit_of(node.left, ray, range);
        lemma_child_nearest(node.left, ray, ray_time, upper);
        let tighter = match left {
            Some(found) => found.time,
            None => upper,
        };
        assert(lowered(ray_time, tighter) == Interval { min: range.min, max: tighter });
        let right = hit_of(node.right, ray, lowered(ray_time, tighter));
        lemma_child_nearest(node.right, ray, ray_time, tighter);
        match right {
            Some(found) => {
                let k = choose|k: int|
                    0 <= k < rights.len() && first_hit(rights, k, ray, ray_time) == Some(found);
                assert(first_hit(objects, lefts.len() + k, ray, ray_time) == Some(found));
                assert forall|i: int| 0 <= i < objects.len() implies (#[trigger] first_hit(
                    objects,
                    i,
                    ray,
                    ray_time,
                ) matches Some(other) ==> found.time.le_spec(other.time)) by {
                    if i < lefts.len() {
                        let other_hit = first_hit(lefts, i, ray, ray_time);
                        if other_hit is Some {
                            if left is None {
                                assert(below(other_hit, upper) is None);
                            }
                        }
                    } else {
                        let other_hit = first_hit(rights, i - lefts.len(), ray, ray_time);
                    }
                }
            },
            None => {
                match left {
                    Some(found) => {
                        let k = choose|k: int|
                            0 <= k < lefts.len() && first_hit(lefts, k, ray, ray_time) == Some(
                                found,
                            );
                        assert(first_hit(objects, k, ray, ray_time) == Some(found));
                        assert forall|i: int| 0 <= i < objects.len() implies (#[trigger] first_hit(
                            objects,
                            i,
                            ray,
                            ray_time,
                        ) matches Some(other) ==> found.time.le_spec(other.time)) by {
                            if i >= lefts.len() {
                                let other_hit = first_hit(rights, i - lefts.len(), ray, ray_time);
                                assert(below(other_hit, tighter) is None);
                                if other_hit is Some {
                                    let j = i - lefts.len();
                                    assert(reports_nearest(rights[j], ray, ray_time));
                                }
                            } else {
                                let other_hit = first_hit(lefts, i, ray, ray_time);
                            }
                        }
                    },
                    None => {
                        assert forall|i: int| 0 <= i < objects.len() implies below(
                            #[trigger] first_hit(objects, i, ray, ray_time),
                            upper,
                        ) is None by {
                            if i < lefts.len() {
                                assert(below(first_hit(lefts, i, ray, ray_time), upper) is None);
                            } else {
                                assert(below(
                                    first_hit(rights, i - lefts.len(), ray, ray_time),
                                    upper,
                                ) is None);
                            }
                        }
                    },
                }
            },
        }
    }
}

/// Testing the surfaces from number `i` on reports a nearest intersection
/// with all of them, where `best` is a nearest one with those before `i`
/// and `closest` its ray parameter, or the upper end of the range where
/// there is none yet.
pub proof fn lemma_list_nearest_from<H: Hittable>(
    objects: Seq<H>,
    ray: Ray,
    ray_time: Interval,
    closest: Scalar,
    best: Option<HitRecord>,
    i: int,
)
    requires
        0 <= i <= objects.len(),
        all_report_nearest(objects, ray, ray_time),
        nearest_below(objects.take(i), ray, ray_time, ray_time.max, best),
        best matches Some(record) ==> closest == record.time,
        best is None ==> closest == ray_time.max,
        !ray_time.max.is_nan_spec(),
    ensures
        nearest_below(
            objects,
            ray,
            ray_time,
            ray_time.max,
            hit_from(objects, ray, ray_time.min, closest, best, i),
        ),
    decreases objects.len() - i,
{
    if i >= objects.len() {
        assert(objects.take(i) =~= objects);
    } else {
        let earlier = objects.take(i);
        let longer = objects.take(i + 1);
        assert(reports_nearest(objects[i], ray, ray_time));
        assert(closest.le_spec(ray_time.max));
        let found = objects[i].hit_spec(ray, lowered(ray_time, closest));
        assert(found == below(first_hit(objects, i, ray, ray_time), closest));
        assert forall|k: int| 0 <= k < longer.len() implies first_hit(longer, k, ray, ray_time)
            == first_hit(objects, k, ray, ray_time) by {}
        assert forall|k: int| 0 <= k < earlier.len() implies first_hit(earlier, k, ray, ray_time)
            == first_hit(objects, k, ray, ray_time) by {}
        match found {
            Some(record) => {
                assert(first_hit(longer, i, ray, ray_time) == Some(record));
                assert forall|k: int| 0 <= k < longer.len() implies (#[trigger] first_hit(
                    longer,
                    k,
                    ray,
                    ray_time,
                ) matches Some(other) ==> record.time.le_spec(other.time)) by {
                    if k < i {
                        let other_hit = first_hit(earlier, k, ray, ray_time);
                        if other_hit is Some {
                            if best is None {
                                assert(below(other_hit, ray_time.max) is None);
                                assert(reports_nearest(objects[k], ray, ray_time));
                            }
                        }
                    }
                }
                assert(nearest_below(longer, ray, ray_time, ray_time.max, Some(record)));
                lemma_list_nearest_from(objects, ray, ray_time, record.time, Some(record), i + 1);
            },
            None => {
                match best {
                    Some(record) => {
                        let k = choose|k: int|
                            0 <= k < earlier.len() && first_hit(earlier, k, ray, ray_time) == Some(
                                record,
                            );
                        assert(first_hit(longer, k, ray, ray_time) == Some(record));
                        assert forall|k: int| 0 <= k < longer.len() implies (#[trigger] first_hit(
                            longer,
                            k,
                            ray,
                            ray_time,
                        ) matches Some(other) ==> record.time.le_spec(other.time)) by {
                            if k < i {
                                let other_hit = first_hit(earlier, k, ray, ray_time);
                            }
                        }
                    },
                    None => {
                        assert forall|k: int| 0 <= k < longer.len() implies below(
                            #[trigger] first_hit(longer, k, ray, ray_time),
                            ray_time.max,
                        ) is None by {
                            if k < i {
                                assert(below(first_hit(earlier, k, ray, ray_time), ray_time.max)
                                    is None);
                            }
                        }
                    },
                }
                assert(nearest_below(longer, ray, ray_time, ray_time.max, best));
                lemma_list_nearest_from(objects, ray, ray_time, closest, best, i + 1);
            },
        }
    }
}

/// What a list reports is a nearest intersection with its surfaces.
pub proof fn lemma_list_nearest<H: Hittable>(list: HittableList<H>, ray: Ray, ray_time: Interval)
    requires
        all_report_nearest(list.objects@, ray, ray_time),
    ensures
        nearest_below(list.objects@, ray, ray_time, ray_time.max, list.hit_spec(ray, ray_time)),
{
    let objects = list.objects@;
    if ray_time.max.is_nan_spec() {
        lemma_list_misses_from(objects, ray, ray_time, 0);
    } else {
        assert(objects.take(0).len() == 0);
        lemma_list_nearest_from(objects, ray, ray_time, ray_time.max, None, 0);
    }
}

/// Within a range whose upper end is not a number, surfaces that report
/// their nearest intersection report none, and so does a list of them.
proof fn lemma_list_misses_from<H: Hittable>(objects: Seq<H>, ray: Ray, ray_time: Interval, i: int)
    requires
        0 <= i <= objects.len(),
        all_report_nearest(objects, ray, ray_time),
        ray_time.max.is_nan_spec(),
    ensures
        hit_from(objects, ray, ray_time.min, ray_time.max, None, i) is None,
        nearest_below(objects, ray, ray_time, ray_time.max, None),
    decreases objects.len() - i,
{
    assert forall|k: int| 0 <= k < objects.len() implies below(
        #[trigger] first_hit(objects, k, ray, ray_time),
        ray_time.max,
    ) is None by {
        assert(reports_nearest(objects[k], ray, ray_time));
    }
    if i < objects.len() {
        assert(reports_nearest(objects[i], ray, ray_time));
        assert(lowered(ray_time, ray_time.max) == ray_time);
        lemma_list_misses_from(objects, ray, ray_time, i + 1);
    }
}

/// Two nearest intersections with the same surfaces lie at the same ray
/// parameter, or both are missing.
pub proof fn lemma_nearest_agree<H: Hittable>(
    a: Seq<H>,
    b: Seq<H>,
    ray: Ray,
    ray_time: Interval,
    upper: Scalar,
    in_a: Option<HitRecord>,
    in_b: Option<HitRecord>,
)
    requires
        same_objects(a, b),
        nearest_below(a, ray, ray_time, upper, in_a),
        nearest_below(b, ray, ray_time, upper, in_b),
    ensures
        in_a.is_some() == in_b.is_some(),
        in_a is Some ==> in_a.unwrap().time.same_value_spec(in_b.unwrap().time),
{
    match in_a {
        Some(record) => {
            let i = choose|i: int|
                0 <= i < a.len() && first_hit(a, i, ray, ray_time) == Some(record);
            assert(b.contains(a[i]));
            let j = choose|j: int| 0 <= j < b.len() && b[j] == a[i];
            assert(first_hit(b, j, ray, ray_time) == Some(record));
            match in_b {
                Some(other) => {
                    let k = choose|k: int|
                        0 <= k < b.len() && first_hit(b, k, ray, ray_time) == Some(other);
                    assert(a.contains(b[k]));
                    let m = choose|m: int| 0 <= m < a.len() && a[m] == b[k];
                    assert(first_hit(a, m, ray, ray_time) == Some(other));
                },
                None => {
                    assert(below(first_hit(b, j, ray, ray_time), upper) is None);
                },
            }
        },
        None => {
            match in_b {
                Some(other) => {
                    let k = choose|k: int|
                        0 <= k < b.len() && first_hit(b, k, ray, ray_time) == Some(other);
                    assert(a.contains(b[k]));
                    let m = choose|m: int| 0 <= m < a.len() && a[m] == b[k];
                    assert(first_hit(a, m, ray, ray_time) == Some(other));
                    assert(below(first_hit(a, m, ray, ray_time), upper) is None);
                },
                None => {},
            }
        },
    }
}

/// A tree and a list over the same surfaces find the same nearest
/// intersection of a ray: both find none, or both find one at the same ray
/// parameter. This holds where each surface reports its nearest
/// intersection within the range, and each box of the tree lets through the
/// rays that its surfaces stop.
pub proof fn lemma_tree_agrees_with_list<H: Hittable>(
    tree: BVHNode<H>,
    list: HittableList<H>,
    ray: Ray,
    ray_time: Interval,
)
    requires
        same_objects(tree.leaves(), list.objects@),
        all_report_nearest(list.objects@, ray, ray_time),
        tree_admits(tree, ray, ray_time),
    ensures
        tree.hit_spec(ray, ray_time).is_some() == list.hit_spec(ray, ray_time).is_some(),
        tree.hit_spec(ray, ray_time) is Some ==> tree.hit_spec(
            ray,
            ray_time,
        ).unwrap().time.same_value_spec(list.hit_spec(ray, ray_time).unwrap().time),
{
    let leaves = tree.leaves();
    assert forall|i: int| 0 <= i < leaves.len() implies reports_nearest(
        #[trigger] leaves[i],
        ray,
        ray_time,
    ) by {
        assert(list.objects@.contains(leaves[i]));
    }
    lemma_list_nearest(list, ray, ray_time);
    if ray_time.max.is_nan_spec() {
        lemma_tree_misses(tree, ray, ray_time);
    } else {
        assert(lowered(ray_time, ray_time.max) == ray_time);
        lemma_node_nearest(tree, ray, ray_time, ray_time.max);
        lemma_nearest_agree(
            leaves,
            list.objects@,
            ray,
            ray_time,
            ray_time.max,
            tree.hit_spec(ray, ray_time),
            list.hit_spec(ray, ray_time),
        );
    }
}

/// Whether no two of the surfaces tie: where two of them report
/// intersections at the same ray parameter, the records are the same.
pub open spec fn without_ties<H: Hittable>(objects: Seq<H>, ray: Ray, ray_time: Interval) -> bool {
    forall|i: int, j: int|
        0 <= i < objects.len() && 0 <= j < objects.len() ==> (#[trigger] first_hit(
            objects,
            i,
            ray,
            ray_time,
        ) matches Some(a) ==> (#[trigger] first_hit(objects, j, ray, ray_time) matches Some(b)
            ==> (a.time.same_value_spec(b.time) ==> a == b)))
}

/// A tree and a list over the same surfaces report the same record, point,
/// normal and material included, where in addition no two surfaces tie.
pub proof fn lemma_tree_and_list_report_the_same<H: Hittable>(
    tree: BVHNode<H>,
    list: HittableList<H>,
    ray: Ray,
    ray_time: Interval,
)
    requires
        same_objects(tree.leaves(), list.objects@),
        all_report_nearest(list.objects@, ray, ray_time),
        tree_admits(tree, ray, ray_time),
        without_ties(list.objects@, ray, ray_time),
    ensures
        tree.hit_spec(ray, ray_time) == list.hit_spec(ray, ray_time),
{
    lemma_tree_agrees_with_list(tree, list, ray, ray_time);
    let in_tree = tree.hit_spec(ray, ray_time);
    let in_list = list.hit_spec(ray, ray_time);
    if in_tree is Some {
        let leaves = tree.leaves();
        let objects = list.objects@;
        assert forall|i: int| 0 <= i < leaves.len() implies reports_nearest(
            #[trigger] leaves[i],
            ray,
            ray_time,
        ) by {
            assert(objects.contains(leaves[i]));
        }
        lemma_list_nearest(list, ray, ray_time);
        assert(!ray_time.max.is_nan_spec()) by {
            if ray_time.max.is_nan_spec() {
                lemma_tree_misses(tree, ray, ray_time);
            }
        }
        assert(lowered(ray_time, ray_time.max) == ray_time);
        lemma_node_nearest(tree, ray, ray_time, ray_time.max);
        let a = in_tree.unwrap();
        let b = in_list.unwrap();
        let i = choose|i: int|
            0 <= i < leaves.len() && first_hit(leaves, i, ray, ray_time) == Some(a);
        assert(objects.contains(leaves[i]));
        let m = choose|m: int| 0 <= m < objects.len() && objects[m] == leaves[i];
        let j = choose|j: int|
            0 <= j < objects.len() && first_hit(objects, j, ray, ray_time) == Some(b);
        assert(first_hit(objects, m, ray, ray_time) == Some(a));
        assert(first_hit(objects, j, ray, ray_time) == Some(b));
    }
}

/// Within a range whose upper end is not a number, a child over surfaces
/// that report their nearest intersection reports none.
proof fn lemma_child_misses<H: Hittable>(child: Option<BVHChild<H>>, ray: Ray, ray_time: Interval)
    requires
        all_report_nearest(leaves_of(child), ray, ray_time),
        ray_time.max.is_nan_spec(),
    ensures
        hit_of(child, ray, ray_time) is None,
    decreases child, 0nat,
{
    match child {
        None => {},
        Some(BVHChild::Object(object)) => {
            assert(leaves_of(child)[0] == object);
            assert(reports_nearest(leaves_of(child)[0], ray, ray_time));
        },
        Some(BVHChild::Node(node)) => {
            lemma_tree_misses(*node, ray, ray_time);
        },
    }
}

/// Within a range whose upper end is not a number, a tree over surfaces
/// that report their nearest intersection reports none.
proof fn lemma_tree_misses<H: Hittable>(tree: BVHNode<H>, ray: Ray, ray_time: Interval)
    requires
        all_report_nearest(tree.leaves(), ray, ray_time),
        ray_time.max.is_nan_spec(),
    ensures
        tree.node_hit_spec(ray, ray_time) is None,
    decreases tree, 1nat,
{
    let objects = tree.leaves();
    let lefts = leaves_of(tree.left);
    let rights = leaves_of(tree.right);
    assert(objects =~= lefts + rights);
    assert forall|i: int| 0 <= i < lefts.len() implies reports_nearest(
        #[trigger] lefts[i],
        ray,
        ray_time,
    ) by {
        assert(lefts[i] == objects[i]);
    }
    assert forall|i: int| 0 <= i < rights.len() implies reports_nearest(
        #[trigger] rights[i],
        ray,
        ray_time,
    ) by {
        assert(rights[i] == objects[lefts.len() + i]);
    }
    lemma_child_misses(tree.left, ray, ray_time);
    lemma_child_misses(tree.right, ray, ray_time);
    assert(Interval { min: ray_time.min, max: ray_time.max } == ray_time);
}

} // verus!
