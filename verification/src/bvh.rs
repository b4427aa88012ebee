//! A tree of bounding boxes over a set of surfaces.

use vstd::prelude::*;
use vstd::seq_lib::to_multiset_update;
use core::cmp::Ordering;
use std::collections::VecDeque;
use rand::rngs::StdRng;
use crate::aabb::AABB;
use crate::axis::{Axis, AxisIndex};
use crate::hit_record::HitRecord;
use crate::hittable::Hittable;
use crate::interval::Interval;
use crate::ray::Ray;
use crate::util::random_integer;

verus! {

/// What hangs below a node: a surface, or a further node.
pub enum BVHChild<H> {
    Object(H),
    Node(Box<BVHNode<H>>),
}

/// A node of a bounding volume hierarchy: a box, and what lies in it.
pub struct BVHNode<H> {
    pub bounding_box: AABB,
    pub left: Option<BVHChild<H>>,
    pub right: Option<BVHChild<H>>,
}

/// The place of a surface on an axis by which the surfaces are ordered: the
/// lower end of its box on that axis, in the total order of the numbers.
pub open spec fn box_key<H: Hittable>(object: H, axis: Axis) -> int {
    object.bounding_box_spec().axis_spec(axis).min.total_rank()
}

/// Whether the entries `start .. end` are in ascending order of their keys.
pub open spec fn sorted_by_key<H: Hittable>(objects: Seq<H>, start: int, end: int, axis: Axis)
    -> bool {
    forall|i: int, j: int|
        start <= i <= j < end ==> box_key(#[trigger] objects[i], axis) <= box_key(
            #[trigger] objects[j],
            axis,
        )
}

/// Whether `object` is one of the entries `start .. end`.
pub open spec fn occurs_in<H>(objects: Seq<H>, object: H, start: int, end: int) -> bool {
    exists|j: int| start <= j < end && #[trigger] objects[j] == object
}

/// Whether `after` holds the entries of `before`, rearranged among the
/// places `start .. end` only.
pub open spec fn rearranged<H>(before: Seq<H>, after: Seq<H>, start: int, end: int) -> bool {
    &&& after.len() == before.len()
    &&& after.to_multiset() == before.to_multiset()
    &&& forall|k: int| 0 <= k < start || end <= k < after.len() ==> after[k] == before[k]
    &&& forall|k: int| start <= k < end ==> occurs_in(before, #[trigger] after[k], start, end)
}

/// Orders two surfaces by the lower ends of their boxes on the axis.
pub fn box_compare<H: Hittable>(a: &H, b: &H, axis: Axis) -> (r: Ordering)
    ensures
        r is Less <==> box_key(*a, axis) < box_key(*b, axis),
        r is Equal <==> box_key(*a, axis) == box_key(*b, axis),
        r is Greater <==> box_key(*a, axis) > box_key(*b, axis),
{
    a.bounding_box().axis(&axis).min.total_cmp(b.bounding_box().axis(&axis).min)
}

pub fn box_x_compare<H: Hittable>(a: &H, b: &H) -> (r: Ordering)
    ensures
        r is Less <==> box_key(*a, Axis::X) < box_key(*b, Axis::X),
        r is Equal <==> box_key(*a, Axis::X) == box_key(*b, Axis::X),
        r is Greater <==> box_key(*a, Axis::X) > box_key(*b, Axis::X),
{
    box_compare(a, b, Axis::X)
}

pub fn box_y_compare<H: Hittable>(a: &H, b: &H) -> (r: Ordering)
    ensures
        r is Less <==> box_key(*a, Axis::Y) < box_key(*b, Axis::Y),
        r is Equal <==> box_key(*a, Axis::Y) == box_key(*b, Axis::Y),
        r is Greater <==> box_key(*a, Axis::Y) > box_key(*b, Axis::Y),
{
    box_compare(a, b, Axis::Y)
}

pub fn box_z_compare<H: Hittable>(a: &H, b: &H) -> (r: Ordering)
    ensures
        r is Less <==> box_key(*a, Axis::Z) < box_key(*b, Axis::Z),
        r is Equal <==> box_key(*a, Axis::Z) == box_key(*b, Axis::Z),
        r is Greater <==> box_key(*a, Axis::Z) > box_key(*b, Axis::Z),
{
    box_compare(a, b, Axis::Z)
}

/// Whether the key of `a` is below that of `b`.
fn box_before<H: Hittable>(a: &H, b: &H, axis: Axis) -> (r: bool)
    ensures
        r == (box_key(*a, axis) < box_key(*b, axis)),
{
    a.bounding_box().axis(&axis).min.total_lt(b.bounding_box().axis(&axis).min)
}

/// Exchanges two entries.
fn swap_entries<H: Copy>(objects: &mut Vec<H>, i: usize, j: usize)
    requires
        i < old(objects).len(),
        j < old(objects).len(),
    ensures
        final(objects)@ == old(objects)@.update(i as int, old(objects)@[j as int]).update(
            j as int,
            old(objects)@[i as int],
        ),
        final(objects)@.to_multiset() == old(objects)@.to_multiset(),
{
    let a = objects[i];
    let b = objects[j];
    objects.set(i, b);
    objects.set(j, a);
    proof {
        broadcast use vstd::multiset::group_multiset_axioms;

        let s0 = old(objects)@;
        let s1 = s0.update(i as int, b);
        s0.to_multiset_ensures();
        s1.to_multiset_ensures();
        assert(s0[i as int] == a && s0[j as int] == b && s1[i as int] == b);
        to_multiset_update(s0, i as int, b);
        to_multiset_update(s1, j as int, a);
        assert(objects@.to_multiset() =~= s0.to_multiset());
    }
}

/// Whether `origin` names, for each place of `after`, the place of `before`
/// that its entry came from, no place being named twice.
pub open spec fn traced<H>(before: Seq<H>, after: Seq<H>, origin: Seq<int>) -> bool {
    &&& origin.len() == after.len()
    &&& before.len() == after.len()
    &&& forall|k: int|
        0 <= k < after.len() ==> 0 <= #[trigger] origin[k] < before.len() && after[k]
            == before[origin[k]]
    &&& forall|k1: int, k2: int|
        0 <= k1 < k2 < origin.len() ==> #[trigger] origin[k1] != #[trigger] origin[k2]
}

/// Whether entries with equal keys among the places `start .. end` stand in
/// the order of the places they came from.
pub open spec fn ties_in_order<H: Hittable>(
    after: Seq<H>,
    origin: Seq<int>,
    start: int,
    end: int,
    axis: Axis,
) -> bool {
    forall|p: int, q: int|
        start <= p < q < end && box_key(#[trigger] after[p], axis) == box_key(
            #[trigger] after[q],
            axis,
        ) ==> origin[p] < origin[q]
}

/// Whether `after` is `before` with the entries `start .. end` sorted by
/// their keys on the axis, entries with equal keys keeping their order.
pub open spec fn stably_sorted<H: Hittable>(
    before: Seq<H>,
    after: Seq<H>,
    start: int,
    end: int,
    axis: Axis,
) -> bool {
    &&& rearranged(before, after, start, end)
    &&& sorted_by_key(after, start, end, axis)
    &&& exists|origin: Seq<int>|
        #[trigger] traced(before, after, origin) && ties_in_order(after, origin, start, end, axis)
}

/// Whether `object`, which came from the place `origin`, is one of the first
/// `n` entries of a run with the given origins.
pub open spec fn taken_from<H>(run: Seq<H>, origins: Seq<int>, n: int, object: H, origin: int)
    -> bool {
    exists|x: int| 0 <= x < n && #[trigger] origins[x] == origin && run[x] == object
}

/// Whether `run` holds the entries `lo .. hi` sorted by their keys on the
/// axis, entries with equal keys in the order of the places they came from,
/// which `origins` names.
pub open spec fn sorted_run<H: Hittable>(
    objects: Seq<H>,
    lo: int,
    hi: int,
    axis: Axis,
    run: Seq<H>,
    origins: Seq<int>,
) -> bool {
    &&& run.len() == hi - lo
    &&& origins.len() == run.len()
    &&& run.to_multiset() == objects.subrange(lo, hi).to_multiset()
    &&& forall|k: int|
        0 <= k < run.len() ==> lo <= #[trigger] origins[k] < hi && run[k] == objects[origins[k]]
    &&& forall|k1: int, k2: int|
        0 <= k1 < k2 < run.len() ==> #[trigger] origins[k1] != #[trigger] origins[k2]
    &&& forall|p: int, q: int|
        0 <= p < q < run.len() ==> box_key(#[trigger] run[p], axis) <= box_key(
            #[trigger] run[q],
            axis,
        ) && (box_key(run[p], axis) == box_key(run[q], axis) ==> origins[p] < origins[q])
}

/// Merges two sorted runs of neighbouring ranges into one. Of two entries
/// with equal keys the one of the first run comes first.
fn merge_runs<H: Hittable + Copy>(
    a: &Vec<H>,
    b: &Vec<H>,
    axis: Axis,
    Ghost(oa): Ghost<Seq<int>>,
    Ghost(ob): Ghost<Seq<int>>,
    Ghost(objects): Ghost<Seq<H>>,
    Ghost(lo): Ghost<int>,
    Ghost(mid): Ghost<int>,
    Ghost(hi): Ghost<int>,
) -> (r: (Vec<H>, Ghost<Seq<int>>))
    requires
        0 <= lo <= mid <= hi <= objects.len(),
        sorted_run(objects, lo, mid, axis, a@, oa),
        sorted_run(objects, mid, hi, axis, b@, ob),
    ensures
        sorted_run(objects, lo, hi, axis, r.0@, r.1@),
{
    let mut out: Vec<H> = Vec::new();
    let ghost mut o: Seq<int> = Seq::empty();
    let mut i: usize = 0;
    let mut j: usize = 0;
    proof {
        let none = Seq::<H>::empty();
        assert(a@.take(0) =~= none);
        assert(b@.take(0) =~= none);
        assert(out@ =~= none + none);
        vstd::seq_lib::lemma_multiset_commutative(none, none);
    }
    while i < a.len() || j < b.len()
        invariant
            0 <= i <= a.len(),
            0 <= j <= b.len(),
            0 <= lo <= mid <= hi <= objects.len(),
            sorted_run(objects, lo, mid, axis, a@, oa),
            sorted_run(objects, mid, hi, axis, b@, ob),
            out.len() == i + j,
            o.len() == out.len(),
            out@.to_multiset() == a@.take(i as int).to_multiset().add(
                b@.take(j as int).to_multiset(),
            ),
            forall|k: int|
                0 <= k < out.len() ==> taken_from(a@, oa, i as int, out@[k], #[trigger] o[k])
                    || taken_from(b@, ob, j as int, out@[k], o[k]),
            forall|y: int, x: int|
                0 <= y < j && i <= x < a.len() ==> box_key(#[trigger] b@[y], axis) < box_key(
                    #[trigger] a@[x],
                    axis,
                ),
            forall|x: int, y: int|
                0 <= x < i && j <= y < b.len() ==> box_key(#[trigger] a@[x], axis) <= box_key(
                    #[trigger] b@[y],
                    axis,
                ),
            forall|k1: int, k2: int|
                0 <= k1 < k2 < o.len() ==> #[trigger] o[k1] != #[trigger] o[k2],
            forall|p: int, q: int|
                0 <= p < q < out.len() ==> box_key(#[trigger] out@[p], axis) <= box_key(
                    #[trigger] out@[q],
                    axis,
                ) && (box_key(out@[p], axis) == box_key(out@[q], axis) ==> o[p] < o[q]),
        decreases a.len() - i + b.len() - j,
    {
        let ghost before = out@;
        let ghost before_o = o;
        let from_first = i < a.len() && (j == b.len() || !box_before(&b[j], &a[i], axis));
        if from_first {
            let x = a[i];
            out.push(x);
            proof {
                o = before_o.push(oa[i as int]);
                assert(a@.take(i + 1) =~= a@.take(i as int).push(x));
                vstd::seq_lib::to_multiset_build(before, x);
                vstd::seq_lib::to_multiset_build(a@.take(i as int), x);
                broadcast use vstd::multiset::group_multiset_axioms;

                assert(out@.to_multiset() =~= a@.take(i + 1).to_multiset().add(
                    b@.take(j as int).to_multiset(),
                ));
                assert forall|k: int| 0 <= k < out.len() implies taken_from(
                    a@,
                    oa,
                    i + 1,
                    out@[k],
                    #[trigger] o[k],
                ) || taken_from(b@, ob, j as int, out@[k], o[k]) by {
                    if k < before.len() {
                        assert(out@[k] == before[k] && o[k] == before_o[k]);
                        if taken_from(a@, oa, i as int, before[k], before_o[k]) {
                            let w = choose|w: int|
                                0 <= w < i && #[trigger] oa[w] == before_o[k] && a@[w]
                                    == before[k];
                            assert(oa[w] == o[k] && a@[w] == out@[k]);
                        }
                    } else {
                        assert(oa[i as int] == o[k] && a@[i as int] == out@[k]);
                    }
                }
                assert forall|p: int| 0 <= p < before.len() implies box_key(before[p], axis)
                    <= box_key(x, axis) && (box_key(before[p], axis) == box_key(x, axis)
                    ==> before_o[p] < oa[i as int]) && #[trigger] before_o[p] != oa[i as int] by {
                    if taken_from(a@, oa, i as int, before[p], before_o[p]) {
                        let w = choose|w: int|
                            0 <= w < i && #[trigger] oa[w] == before_o[p] && a@[w] == before[p];
                        assert(box_key(a@[w], axis) <= box_key(a@[i as int], axis));
                        assert(oa[w] != oa[i as int]);
                    } else {
                        let w = choose|w: int|
                            0 <= w < j && #[trigger] ob[w] == before_o[p] && b@[w] == before[p];
                        assert(box_key(b@[w], axis) < box_key(a@[i as int], axis));
                        assert(mid <= ob[w]);
                        assert(oa[i as int] < mid);
                    }
                }
                assert forall|p: int, q: int| 0 <= p < q < out.len() implies box_key(
                    #[trigger] out@[p],
                    axis,
                ) <= box_key(#[trigger] out@[q], axis) && (box_key(out@[p], axis) == box_key(
                    out@[q],
                    axis,
                ) ==> o[p] < o[q]) by {
                    if q < before.len() {
                        assert(out@[p] == before[p] && out@[q] == before[q]);
                    } else {
                        assert(out@[p] == before[p] && o[p] == before_o[p]);
                    }
                }
                assert forall|k1: int, k2: int| 0 <= k1 < k2 < o.len() implies #[trigger] o[k1]
                    != #[trigger] o[k2] by {
                    if k2 < before_o.len() {
                        assert(before_o[k1] != before_o[k2]);
                    } else {
                        assert(o[k1] == before_o[k1]);
                    }
                }
                assert forall|v: int, y: int| 0 <= v < i + 1 && j <= y < b.len() implies box_key(
                    #[trigger] a@[v],
                    axis,
                ) <= box_key(#[trigger] b@[y], axis) by {
                    if v == i {
                        assert(box_key(b@[j as int], axis) <= box_key(b@[y], axis));
                    }
                }
            }
            i = i + 1;
        } else {
            let x = b[j];
            out.push(x);
            proof {
                o = before_o.push(ob[j as int]);
                assert(b@.take(j + 1) =~= b@.take(j as int).push(x));
                vstd::seq_lib::to_multiset_build(before, x);
                vstd::seq_lib::to_multiset_build(b@.take(j as int), x);
                broadcast use vstd::multiset::group_multiset_axioms;

                assert(out@.to_multiset() =~= a@.take(i as int).to_multiset().add(
                    b@.take(j + 1).to_multiset(),
                ));
                assert forall|k: int| 0 <= k < out.len() implies taken_from(
                    a@,
                    oa,
                    i as int,
                    out@[k],
                    #[trigger] o[k],
                ) || taken_from(b@, ob, j + 1, out@[k], o[k]) by {
                    if k < before.len() {
                        assert(out@[k] == before[k] && o[k] == before_o[k]);
                        if !taken_from(a@, oa, i as int, before[k], before_o[k]) {
                            let w = choose|w: int|
                                0 <= w < j && #[trigger] ob[w] == before_o[k] && b@[w]
                                    == before[k];
                            assert(ob[w] == o[k] && b@[w] == out@[k]);
                        }
                    } else {
                        assert(ob[j as int] == o[k] && b@[j as int] == out@[k]);
                    }
                }
                assert forall|p: int| 0 <= p < before.len() implies box_key(before[p], axis)
                    <= box_key(x, axis) && (box_key(before[p], axis) == box_key(x, axis)
                    ==> before_o[p] < ob[j as int]) && #[trigger] before_o[p] != ob[j as int] by {
                    if taken_from(a@, oa, i as int, before[p], before_o[p]) {
                        let w = choose|w: int|
                            0 <= w < i && #[trigger] oa[w] == before_o[p] && a@[w] == before[p];
                        assert(box_key(a@[w], axis) <= box_key(b@[j as int], axis));
                        assert(oa[w] < mid);
                        assert(mid <= ob[j as int]);
                    } else {
                        let w = choose|w: int|
                            0 <= w < j && #[trigger] ob[w] == before_o[p] && b@[w] == before[p];
                        assert(box_key(b@[w], axis) <= box_key(b@[j as int], axis));
                        assert(ob[w] != ob[j as int]);
                    }
                }
                assert forall|p: int, q: int| 0 <= p < q < out.len() implies box_key(
                    #[trigger] out@[p],
                    axis,
                ) <= box_key(#[trigger] out@[q], axis) && (box_key(out@[p], axis) == box_key(
                    out@[q],
                    axis,
                ) ==> o[p] < o[q]) by {
                    if q < before.len() {
                        assert(out@[p] == before[p] && out@[q] == before[q]);
                    } else {
                        assert(out@[p] == before[p] && o[p] == before_o[p]);
                    }
                }
                assert forall|k1: int, k2: int| 0 <= k1 < k2 < o.len() implies #[trigger] o[k1]
                    != #[trigger] o[k2] by {
                    if k2 < before_o.len() {
                        assert(before_o[k1] != before_o[k2]);
                    } else {
                        assert(o[k1] == before_o[k1]);
                    }
                }
                assert forall|y: int, v: int| 0 <= y < j + 1 && i <= v < a.len() implies box_key(
                    #[trigger] b@[y],
                    axis,
                ) < box_key(#[trigger] a@[v], axis) by {
                    if y == j {
                        assert(box_key(a@[i as int], axis) <= box_key(a@[v], axis));
                    }
                }
            }
            j = j + 1;
        }
    }
    proof {
        assert(a@.take(i as int) =~= a@);
        assert(b@.take(j as int) =~= b@);
        assert(objects.subrange(lo, hi) =~= objects.subrange(lo, mid) + objects.subrange(mid, hi));
        vstd::seq_lib::lemma_multiset_commutative(
            objects.subrange(lo, mid),
            objects.subrange(mid, hi),
        );
        assert forall|k: int| 0 <= k < out.len() implies lo <= #[trigger] o[k] < hi && out@[k]
            == objects[o[k]] by {
            if taken_from(a@, oa, i as int, out@[k], o[k]) {
                let w = choose|w: int|
                    0 <= w < i && #[trigger] oa[w] == o[k] && a@[w] == out@[k];
            } else {
                let w = choose|w: int|
                    0 <= w < j && #[trigger] ob[w] == o[k] && b@[w] == out@[k];
            }
        }
    }
    (out, Ghost(o))
}

/// The entries `lo .. hi` as a sorted run: the two halves of the range are
/// sorted and merged.
fn merge_sorted<H: Hittable + Copy>(objects: &Vec<H>, lo: usize, hi: usize, axis: Axis) -> (r: (
    Vec<H>,
    Ghost<Seq<int>>,
))
    requires
        lo <= hi <= objects.len(),
    ensures
        sorted_run(objects@, lo as int, hi as int, axis, r.0@, r.1@),
    decreases hi - lo,
{
    if hi - lo == 0 {
        let run: Vec<H> = Vec::new();
        assert(run@ =~= objects@.subrange(lo as int, hi as int));
        let ghost origins: Seq<int> = Seq::empty();
        (run, Ghost(origins))
    } else if hi - lo == 1 {
        let mut run: Vec<H> = Vec::new();
        run.push(objects[lo]);
        assert(run@ =~= objects@.subrange(lo as int, hi as int));
        let ghost origins: Seq<int> = Seq::empty().push(lo as int);
        (run, Ghost(origins))
    } else {
        let mid = lo + (hi - lo) / 2;
        let (first, Ghost(first_origins)) = merge_sorted(objects, lo, mid, axis);
        let (second, Ghost(second_origins)) = merge_sorted(objects, mid, hi, axis);
        merge_runs(
            &first,
            &second,
            axis,
            Ghost(first_origins),
            Ghost(second_origins),
            Ghost(objects@),
            Ghost(lo as int),
            Ghost(mid as int),
            Ghost(hi as int),
        )
    }
}

/// Sorts the entries `start .. end` by their keys on the axis, by merging.
/// Entries with equal keys keep their order.
pub fn sort_range<H: Hittable + Copy>(objects: &mut Vec<H>, start: usize, end: usize, axis: Axis)
    requires
        start <= end <= old(objects).len(),
    ensures
        stably_sorted(old(objects)@, final(objects)@, start as int, end as int, axis),
{
    let (sorted, Ghost(origins)) = merge_sorted(objects, start, end, axis);
    let mut k: usize = 0;
    while k < sorted.len()
        invariant
            0 <= k <= sorted.len(),
            sorted.len() == end - start,
            start <= end <= objects.len(),
            objects.len() == old(objects).len(),
            forall|m: int|
                0 <= m < start || start + k <= m < objects.len() ==> #[trigger] objects@[m] == old(
                    objects,
                )@[m],
            forall|m: int| start <= m < start + k ==> #[trigger] objects@[m] == sorted@[m - start],
        decreases sorted.len() - k,
    {
        objects.set(start + k, sorted[k]);
        k = k + 1;
    }
    proof {
        let before = old(objects)@;
        let after = objects@;
        let n = before.len() as int;
        let s = start as int;
        let e = end as int;
        assert(after =~= before.subrange(0, s) + sorted@ + before.subrange(e, n));
        assert(before =~= before.subrange(0, s) + before.subrange(s, e) + before.subrange(e, n));
        vstd::seq_lib::lemma_multiset_commutative(before.subrange(0, s), sorted@);
        vstd::seq_lib::lemma_multiset_commutative(
            before.subrange(0, s) + sorted@,
            before.subrange(e, n),
        );
        vstd::seq_lib::lemma_multiset_commutative(before.subrange(0, s), before.subrange(s, e));
        vstd::seq_lib::lemma_multiset_commutative(
            before.subrange(0, s) + before.subrange(s, e),
            before.subrange(e, n),
        );
        assert(after.to_multiset() =~= before.to_multiset());
        assert forall|m: int| s <= m < e implies occurs_in(before, #[trigger] after[m], s, e) by {
            assert(after[m] == sorted@[m - s]);
            assert(before[origins[m - s]] == after[m]);
        }
        assert forall|i: int, j: int| s <= i <= j < e implies box_key(
            #[trigger] after[i],
            axis,
        ) <= box_key(#[trigger] after[j], axis) by {
            assert(after[i] == sorted@[i - s] && after[j] == sorted@[j - s]);
        }
        let origin = Seq::new(
            before.len(),
            |m: int|
                if s <= m < e {
                    origins[m - s]
                } else {
                    m
                },
        );
        assert forall|m: int| 0 <= m < after.len() implies 0 <= #[trigger] origin[m] < before.len()
            && after[m] == before[origin[m]] by {
            if s <= m < e {
                assert(after[m] == sorted@[m - s]);
                assert(s <= origins[m - s] < e);
            }
        }
        assert forall|k1: int, k2: int| 0 <= k1 < k2 < origin.len() implies #[trigger] origin[k1]
            != #[trigger] origin[k2] by {
            if s <= k1 < e {
                assert(s <= origins[k1 - s] < e);
            }
            if s <= k2 < e {
                assert(s <= origins[k2 - s] < e);
            }
            if s <= k1 < e && s <= k2 < e {
                assert(origins[k1 - s] != origins[k2 - s]);
            }
        }
        assert forall|p: int, q: int|
            s <= p < q < e && box_key(#[trigger] after[p], axis) == box_key(
                #[trigger] after[q],
                axis,
            ) implies origin[p] < origin[q] by {
            assert(after[p] == sorted@[p - s] && after[q] == sorted@[q - s]);
        }
        assert(traced(before, after, origin) && ties_in_order(after, origin, s, e, axis));
    }
}

/// The entries with the pair at the places `start` and `start + 1` put in
/// the order of their keys on the axis: the pair is left as it is where the
/// key of the first is below that of the second, and exchanged otherwise,
/// also on a tie.
pub open spec fn pair_ordered<H: Hittable>(objects: Seq<H>, start: int, axis: Axis) -> Seq<H> {
    if box_key(objects[start], axis) < box_key(objects[start + 1], axis) {
        objects
    } else {
        objects.update(start, objects[start + 1]).update(start + 1, objects[start])
    }
}

/// Puts the pair of entries at the places `start` and `start + 1` in the
/// order of their keys on the axis.
pub fn order_pair<H: Hittable + Copy>(objects: &mut Vec<H>, start: usize, axis: Axis)
    requires
        start + 1 < old(objects).len(),
    ensures
        final(objects)@ == pair_ordered(old(objects)@, start as int, axis),
        rearranged(old(objects)@, final(objects)@, start as int, start + 2),
        box_key(final(objects)@[start as int], axis) <= box_key(final(objects)@[start + 1], axis),
{
    if !box_before(&objects[start], &objects[start + 1], axis) {
        swap_entries(objects, start, start + 1);
    }
    proof {
        let before = old(objects)@;
        assert forall|k: int| start <= k < start + 2 implies occurs_in(
            before,
            #[trigger] objects@[k],
            start as int,
            start + 2,
        ) by {
            assert(objects@[k] == before[start as int] || objects@[k] == before[start + 1]);
        }
    }
}

/// Nothing rearranged is a rearrangement.
pub proof fn lemma_rearranged_same<H>(objects: Seq<H>, start: int, end: int)
    requires
        0 <= start <= end <= objects.len(),
    ensures
        rearranged(objects, objects, start, end),
{
    assert forall|k: int| start <= k < end implies occurs_in(
        objects,
        #[trigger] objects[k],
        start,
        end,
    ) by {
        assert(objects[k] == objects[k]);
    }
}

/// A rearrangement within a range, followed by one within a part of that
/// range, is a rearrangement within the range.
pub proof fn lemma_rearranged_twice<H>(
    first: Seq<H>,
    second: Seq<H>,
    third: Seq<H>,
    start: int,
    end: int,
    inner_start: int,
    inner_end: int,
)
    requires
        0 <= start <= inner_start <= inner_end <= end <= first.len(),
        rearranged(first, second, start, end),
        rearranged(second, third, inner_start, inner_end),
    ensures
        rearranged(first, third, start, end),
{
    assert forall|k: int| start <= k < end implies occurs_in(
        first,
        #[trigger] third[k],
        start,
        end,
    ) by {
        if inner_start <= k < inner_end {
            assert(occurs_in(second, third[k], inner_start, inner_end));
            let j = choose|j: int| inner_start <= j < inner_end && second[j] == third[k];
            assert(occurs_in(first, second[j], start, end));
        } else {
            assert(third[k] == second[k]);
            assert(occurs_in(first, second[k], start, end));
        }
    }
}

impl<H: Hittable> BVHChild<H> {
    /// The surfaces below, from left to right.
    pub open spec fn leaves(self) -> Seq<H>
        decreases self,
    {
        match self {
            BVHChild::Object(object) => seq![object],
            BVHChild::Node(node) => node.leaves(),
        }
    }

    /// The box of the surface or of the node.
    pub open spec fn box_spec(self) -> AABB {
        match self {
            BVHChild::Object(object) => object.bounding_box_spec(),
            BVHChild::Node(node) => node.bounding_box,
        }
    }

    /// Whether every node below has the box that its children give.
    pub open spec fn well_formed(self) -> bool
        decreases self,
    {
        match self {
            BVHChild::Object(_) => true,
            BVHChild::Node(node) => node.well_formed(),
        }
    }

    /// Whether every node below divides its surfaces as the construction
    /// does.
    pub open spec fn balanced(self) -> bool
        decreases self,
    {
        match self {
            BVHChild::Object(_) => true,
            BVHChild::Node(node) => node.balanced(),
        }
    }

    /// Whether every node below has its surfaces in order on some axis.
    pub open spec fn split_ordered(self) -> bool
        decreases self,
    {
        match self {
            BVHChild::Object(_) => true,
            BVHChild::Node(node) => node.split_ordered(),
        }
    }

    /// What testing the surface, or the node, reports.
    pub open spec fn hit_spec(self, ray: Ray, ray_time: Interval) -> Option<HitRecord>
        decreases self,
    {
        match self {
            BVHChild::Object(object) => object.hit_spec(ray, ray_time),
            BVHChild::Node(node) => node.node_hit_spec(ray, ray_time),
        }
    }
}

/// The surfaces below a child that may be missing.
pub open spec fn leaves_of<H: Hittable>(child: Option<BVHChild<H>>) -> Seq<H> {
    match child {
        Some(c) => c.leaves(),
        None => Seq::empty(),
    }
}

/// What testing a child that may be missing reports.
pub open spec fn hit_of<H: Hittable>(child: Option<BVHChild<H>>, ray: Ray, ray_time: Interval)
    -> Option<HitRecord> {
    match child {
        Some(c) => c.hit_spec(ray, ray_time),
        None => None,
    }
}

impl<H: Hittable> BVHNode<H> {
    /// The surfaces of the tree, from left to right.
    pub open spec fn leaves(self) -> Seq<H>
        decreases self,
    {
        (match self.left {
            Some(c) => c.leaves(),
            None => Seq::empty(),
        }) + (match self.right {
            Some(c) => c.leaves(),
            None => Seq::empty(),
        })
    }

    /// Whether the node has a left child, and it and every node below have
    /// the box that their children give: the child's box where there is one
    /// child, the box around both where there are two.
    pub open spec fn well_formed(self) -> bool
        decreases self,
    {
        match self.left {
            None => false,
            Some(left) => {
                &&& left.well_formed()
                &&& match self.right {
                    None => self.bounding_box == left.box_spec(),
                    Some(right) => {
                        &&& right.well_formed()
                        &&& self.bounding_box == AABB::from_boxes_spec(
                            left.box_spec(),
                            right.box_spec(),
                        )
                    },
                }
            },
        }
    }

    /// Whether the tree divides its surfaces as the construction does: one
    /// surface hangs alone on the left, two hang side by side, and more are
    /// divided between two nodes, the left one getting half of them,
    /// rounded down.
    pub open spec fn balanced(self) -> bool
        decreases self,
    {
        match (self.left, self.right) {
            (Some(BVHChild::Object(_)), None) => true,
            (Some(BVHChild::Object(_)), Some(BVHChild::Object(_))) => true,
            (Some(BVHChild::Node(left)), Some(BVHChild::Node(right))) => {
                &&& left.balanced()
                &&& right.balanced()
                &&& self.leaves().len() >= 3
                &&& left.leaves().len() == self.leaves().len() / 2
            },
            _ => false,
        }
    }

    /// Whether no surface on the left comes after one on the right in the
    /// order of the keys on `axis`.
    pub open spec fn ordered_on(self, axis: Axis) -> bool {
        forall|i: int, j: int|
            0 <= i < leaves_of(self.left).len() && 0 <= j < leaves_of(self.right).len()
                ==> box_key(#[trigger] leaves_of(self.left)[i], axis) <= box_key(
                #[trigger] leaves_of(self.right)[j],
                axis,
            )
    }

    /// Whether this node and every node below have their surfaces in order
    /// on some axis, which may differ from node to node.
    pub open spec fn split_ordered(self) -> bool
        decreases self,
    {
        &&& exists|axis: Axis| self.ordered_on(axis)
        &&& match self.left {
            Some(c) => c.split_ordered(),
            None => true,
        }
        &&& match self.right {
            Some(c) => c.split_ordered(),
            None => true,
        }
    }

    /// What testing the tree reports: nothing where the ray misses the
    /// node's box within `ray_time`; else the left child is tested within
    /// `ray_time`, the right child within what the left child's intersection
    /// leaves of it, and the right child's intersection, where there is one,
    /// is preferred.
    pub open spec fn node_hit_spec(self, ray: Ray, ray_time: Interval) -> Option<HitRecord>
        decreases self,
    {
        if !self.bounding_box.hit_spec(ray, ray_time) {
            None
        } else {
            let left = match self.left {
                Some(c) => c.hit_spec(ray, ray_time),
                None => None,
            };
            let upper = match left {
                Some(found) => found.time,
                None => ray_time.max,
            };
            let right = match self.right {
                Some(c) => c.hit_spec(ray, Interval { min: ray_time.min, max: upper }),
                None => None,
            };
            match right {
                Some(found) => Some(found),
                None => left,
            }
        }
    }

    /// Builds the tree over the entries `start .. end` of `source_objects`.
    ///
    /// An axis is drawn at random for this node. One entry becomes a leaf.
    /// Two entries are put in the order of their keys on the axis, a tie
    /// exchanging them, and hang side by side. More entries are sorted by
    /// their keys on the axis and divided at the middle between two trees
    /// built in the same way. The entries end up in the order in which the
    /// tree holds them.
    pub fn from_objects_and_times(
        source_objects: &mut VecDeque<H>,
        start: usize,
        end: usize,
        rng: &mut StdRng,
    ) -> (r: BVHNode<H>) where H: Copy
        requires
            start < end <= old(source_objects)@.len(),
        ensures
            rearranged(old(source_objects)@, final(source_objects)@, start as int, end as int),
            r.leaves() == final(source_objects)@.subrange(start as int, end as int),
            r.well_formed(),
            r.balanced(),
            r.split_ordered(),
    {
        let mut working: Vec<H> = Vec::new();
        loop
            invariant
                working@ + source_objects@ == old(source_objects)@,
            ensures
                working@ == old(source_objects)@,
                source_objects@.len() == 0,
            decreases source_objects@.len(),
        {
            match source_objects.pop_front() {
                Some(object) => {
                    let ghost before = working@;
                    working.push(object);
                    assert(working@ + source_objects@ =~= old(source_objects)@);
                },
                None => {
                    assert(working@ =~= old(source_objects)@);
                    break ;
                },
            }
        }
        let r = Self::build_range(&mut working, start, end, rng);
        let mut i: usize = 0;
        while i < working.len()
            invariant
                0 <= i <= working.len(),
                source_objects@ == working@.take(i as int),
            decreases working.len() - i,
        {
            source_objects.push_back(working[i]);
            assert(source_objects@ =~= working@.take(i + 1));
            i = i + 1;
        }
        assert(source_objects@ =~= working@);
        r
    }

    /// Builds the tree over the entries `start .. end` of a vector, as
    /// [`BVHNode::from_objects_and_times`] does over those of a queue.
    pub fn build_range(
        source_objects: &mut Vec<H>,
        start: usize,
        end: usize,
        rng: &mut StdRng,
    ) -> (r: BVHNode<H>) where H: Copy
        requires
            start < end <= old(source_objects).len(),
        ensures
            rearranged(old(source_objects)@, final(source_objects)@, start as int, end as int),
            r.leaves() == final(source_objects)@.subrange(start as int, end as int),
            r.well_formed(),
            r.balanced(),
            r.split_ordered(),
        decreases end - start,
    {
        let axis = match random_integer(0, 2, rng) {
            0 => Axis::X,
            1 => Axis::Y,
            _ => Axis::Z,
        };
        let span = end - start;
        if span == 1 {
            let object = source_objects[start];
            let node = BVHNode {
                bounding_box: object.bounding_box(),
                left: Some(BVHChild::Object(object)),
                right: None,
            };
            proof {
                lemma_rearranged_same(source_objects@, start as int, end as int);
                assert(node.leaves() =~= source_objects@.subrange(start as int, end as int));
                assert(node.ordered_on(axis));
            }
            node
        } else if span == 2 {
            order_pair(source_objects, start, axis);
            let left = source_objects[start];
            let right = source_objects[start + 1];
            let node = BVHNode {
                bounding_box: AABB::from_boxes(&left.bounding_box(), &right.bounding_box()),
                left: Some(BVHChild::Object(left)),
                right: Some(BVHChild::Object(right)),
            };
            proof {
                assert(node.leaves() =~= source_objects@.subrange(start as int, end as int));
                assert(leaves_of(node.left) =~= seq![left]);
                assert(leaves_of(node.right) =~= seq![right]);
                assert(node.ordered_on(axis));
            }
            node
        } else {
            sort_range(source_objects, start, end, axis);
            let mid = start + span / 2;
            let ghost sorted = source_objects@;
            let left = Self::build_range(source_objects, start, mid, rng);
            let ghost halfway = source_objects@;
            let right = Self::build_range(source_objects, mid, end, rng);
            let node = BVHNode {
                bounding_box: AABB::from_boxes(&left.bounding_box, &right.bounding_box),
                left: Some(BVHChild::Node(Box::new(left))),
                right: Some(BVHChild::Node(Box::new(right))),
            };
            proof {
                let done = source_objects@;
                lemma_rearranged_twice(
                    old(source_objects)@,
                    sorted,
                    halfway,
                    start as int,
                    end as int,
                    start as int,
                    mid as int,
                );
                lemma_rearranged_twice(
                    old(source_objects)@,
                    halfway,
                    done,
                    start as int,
                    end as int,
                    mid as int,
                    end as int,
                );
                assert(left.leaves() =~= done.subrange(start as int, mid as int));
                assert(node.leaves() =~= done.subrange(start as int, end as int));
                assert forall|i: int, j: int|
                    0 <= i < leaves_of(node.left).len() && 0 <= j < leaves_of(
                        node.right,
                    ).len() implies box_key(#[trigger] leaves_of(node.left)[i], axis) <= box_key(
                    #[trigger] leaves_of(node.right)[j],
                    axis,
                ) by {
                    let x = halfway[start + i];
                    let y = done[mid + j];
                    assert(leaves_of(node.left)[i] == x);
                    assert(leaves_of(node.right)[j] == y);
                    assert(occurs_in(sorted, x, start as int, mid as int));
                    assert(occurs_in(halfway, y, mid as int, end as int));
                    let a = choose|a: int| start <= a < mid && sorted[a] == x;
                    let b = choose|b: int| mid <= b < end && halfway[b] == y;
                    assert(halfway[b] == sorted[b]);
                }
                assert(node.ordered_on(axis));
            }
            node
        }
    }

    fn hit_child(child: &BVHChild<H>, ray: &Ray, ray_time: Interval, hit_record: &mut HitRecord)
        -> (r: bool)
        ensures
            r == child.hit_spec(*ray, ray_time).is_some(),
            r ==> *final(hit_record) == child.hit_spec(*ray, ray_time).unwrap(),
        decreases child,
    {
        match child {
            BVHChild::Object(object) => object.hit(ray, ray_time, hit_record),
            BVHChild::Node(node) => node.hit_node(ray, ray_time, hit_record),
        }
    }

    fn hit_node(&self, ray: &Ray, ray_time: Interval, hit_record: &mut HitRecord) -> (r: bool)
        ensures
            r == self.node_hit_spec(*ray, ray_time).is_some(),
            r ==> *final(hit_record) == self.node_hit_spec(*ray, ray_time).unwrap(),
        decreases self,
    {
        if !self.bounding_box.hit(ray, ray_time) {
            return false;
        }
        let hit_left = match &self.left {
            Some(left_obj) => Self::hit_child(left_obj, ray, ray_time, hit_record),
            None => false,
        };
        let mut right_record = HitRecord::default();
        let hit_right = match &self.right {
            Some(right_obj) => Self::hit_child(
                right_obj,
                ray,
                Interval {
                    min: ray_time.min,
                    max: if hit_left {
                        hit_record.time
                    } else {
                        ray_time.max
                    },
                },
                &mut right_record,
            ),
            None => false,
        };
        if hit_right {
            *hit_record = right_record;
        }
        hit_left || hit_right
    }
}

impl<H: Hittable> Hittable for BVHNode<H> {
    open spec fn hit_spec(&self, ray: Ray, ray_time: Interval) -> Option<HitRecord> {
        self.node_hit_spec(ray, ray_time)
    }

    open spec fn bounding_box_spec(&self) -> AABB {
        self.bounding_box
    }

    fn hit(&self, ray: &Ray, ray_time: Interval, hit_record: &mut HitRecord) -> (r: bool) {
        self.hit_node(ray, ray_time, hit_record)
    }

    fn bounding_box(&self) -> (r: AABB) {
        self.bounding_box
    }
}

} // verus!
