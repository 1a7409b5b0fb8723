//! Properties of the engine that hold for every input, proved from the
//! specifications that the functions' contracts use.
use vstd::prelude::*;
use crate::article::{
    Article, Collision, CONTACT_EPSILON, Mass, chosen_contact, is_chosen, collided, sweep_rest,
    no_contact, default_round, default_count, drifted, swept_along, ITERATION_CAP, SNAP_THRESHOLD, contact, elastic_pair, rects_of, rider_added,
    rider_removed, snapped_article, axis_delta,
};
use crate::geometry::{Axis, in_range, intersection_of, offset_of};

verus! {

/// After the pre-pass, a velocity component of magnitude below the snap
/// threshold is exactly zero, and a larger one is kept.
pub proof fn lemma_snap_zeroes_small_velocity(a: Article)
    ensures
        -SNAP_THRESHOLD < a.vel.x < SNAP_THRESHOLD ==> snapped_article(a).vel.x == 0,
        -SNAP_THRESHOLD < a.vel.y < SNAP_THRESHOLD ==> snapped_article(a).vel.y == 0,
        !(-SNAP_THRESHOLD < a.vel.x < SNAP_THRESHOLD) ==> snapped_article(a).vel.x == a.vel.x,
        !(-SNAP_THRESHOLD < a.vel.y < SNAP_THRESHOLD) ==> snapped_article(a).vel.y == a.vel.y,
{
}

/// In an elastic resolution, a side of infinite mass keeps its velocity along
/// the axis.
pub proof fn lemma_infinite_mass_unmoved(ma: Mass, mb: Mass, va: i64, vb: i64, e: int)
    ensures
        ma is Infinite ==> elastic_pair(ma, mb, va, vb, e).0 == va,
        mb is Infinite ==> elastic_pair(ma, mb, va, vb, e).1 == vb,
{
}

/// An elastic resolution always yields velocities inside the world, for any
/// masses, including two zero masses, which stop both sides.
pub proof fn lemma_elastic_defined(ma: Mass, mb: Mass, va: i64, vb: i64, e: int)
    requires
        in_range(va as int),
        in_range(vb as int),
    ensures
        in_range(elastic_pair(ma, mb, va, vb, e).0 as int),
        in_range(elastic_pair(ma, mb, va, vb, e).1 as int),
        (ma, mb) == (Mass::Finite(0), Mass::Finite(0)) ==> elastic_pair(ma, mb, va, vb, e) == (0i64, 0i64),
{
}

/// An overlap no thicker than `CONTACT_EPSILON` across the swept axis is never
/// a contact.
pub proof fn lemma_glancing_overlap_ignored(a: Article, others: Seq<Article>, axis: Axis, t: int, j: int, b: int)
    requires
        0 <= t < rects_of(a).len(),
        0 <= j < others.len(),
        0 <= b < rects_of(others[j]).len(),
        ({
            let top = offset_of(offset_of(rects_of(a)[t], axis_delta(a.vel, axis)), a.pos);
            let bottom = offset_of(rects_of(others[j])[b], others[j].pos);
            intersection_of(bottom, top) is Some && intersection_of(bottom, top)->Some_0.across(axis)
                <= CONTACT_EPSILON
        }),
    ensures
        contact(a, others, axis, t, j, b) is None,
{
}

/// After `attach`, the supporting article lists the attached one among its
/// riders, exactly once if it did not before.
pub proof fn lemma_attach_lists_rider(riders: Seq<String>, name: String)
    ensures
        exists|i: int| 0 <= i < rider_added(riders, name).len() && (#[trigger] rider_added(riders, name)[i])@ == name@,
        (forall|i: int| 0 <= i < riders.len() ==> riders[i]@ != name@) ==> rider_added(riders, name) == riders.push(name),
{
    if exists|i: int| 0 <= i < riders.len() && riders[i]@ == name@ {
        let i = choose|i: int| 0 <= i < riders.len() && riders[i]@ == name@;
        assert(rider_added(riders, name)[i]@ == name@);
    } else {
        assert(rider_added(riders, name)[riders.len() as int] == name);
    }
}

/// After `remove_attachment`, the former support lists no rider of the
/// detached article's name, and keeps every other rider.
pub proof fn lemma_detach_drops_rider(riders: Seq<String>, name: Seq<char>)
    ensures
        forall|i: int| 0 <= i < rider_removed(riders, name).len() ==> (#[trigger] rider_removed(riders, name)[i])@ != name,
        forall|i: int| 0 <= i < riders.len() && riders[i]@ != name ==> rider_removed(riders, name).contains(#[trigger] riders[i]),
{
    broadcast use vstd::seq_lib::group_filter_ensures;

}

/// The sweep's choice among contacts is determined: a single contact is the
/// shallowest along the axis, the last in scan order among equally shallow ones.
pub proof fn lemma_chosen_contact_unique(a: Article, others: Seq<Article>, axis: Axis, c1: Collision, c2: Collision)
    requires
        chosen_contact(a, others, axis, c1),
        chosen_contact(a, others, axis, c2),
    ensures
        c1 == c2,
{
    let (t1, b1) = choose|t: int, b: int|
        #[trigger] contact(a, others, axis, t, c1.bottom_index as int, b) == Some(c1.intersection)
            && is_chosen(a, others, axis, t, c1.bottom_index as int, b);
    let (t2, b2) = choose|t: int, b: int|
        #[trigger] contact(a, others, axis, t, c2.bottom_index as int, b) == Some(c2.intersection)
            && is_chosen(a, others, axis, t, c2.bottom_index as int, b);
    let j1 = c1.bottom_index as int;
    let j2 = c2.bottom_index as int;
    assert(contact(a, others, axis, t2, j2, b2) is Some);
    assert(contact(a, others, axis, t1, j1, b1) is Some);
    if t1 == t2 && j1 == j2 && b1 == b2 {
        assert(c1.intersection == c2.intersection);
    } else {
        assert(false);
    }
}

/// The contact the sweep keeps is no deeper along the axis than any other.
pub proof fn lemma_chosen_contact_shallowest(a: Article, others: Seq<Article>, axis: Axis, c: Collision, t: int, j: int, b: int)
    requires
        chosen_contact(a, others, axis, c),
        contact(a, others, axis, t, j, b) is Some,
    ensures
        c.intersection.extent(axis) <= contact(a, others, axis, t, j, b)->Some_0.extent(axis),
{
}

/// The velocity component across `axis`.
pub open spec fn across_velocity(a: Article, axis: Axis) -> i64 {
    match axis {
        Axis::X => a.vel.y,
        Axis::Y => a.vel.x,
    }
}

/// The rounds of a sweep never move the article, and keep a zero velocity
/// across the swept axis at zero.
pub proof fn lemma_rounds_keep_position(
    axis: Axis,
    a: Article,
    s: Seq<Article>,
    counter: int,
    scans: int,
    a_end: Article,
    s_end: Seq<Article>,
)
    requires
        sweep_rest(axis, a, s, counter, scans, a_end, s_end),
    ensures
        a_end.pos == a.pos,
        across_velocity(a, axis) == 0 ==> across_velocity(a_end, axis) == 0,
    decreases ITERATION_CAP - scans,
{
    if 0 < counter < ITERATION_CAP && 0 <= scans < ITERATION_CAP && !no_contact(a, s, axis) {
        let (c, a1, s1) = choose|c: Collision, a1: Article, s1: Seq<Article>|
            #![trigger default_round(axis, a, s, c, a1, s1)]
            chosen_contact(a, s, axis, c) && default_round(axis, a, s, c, a1, s1) && sweep_rest(
                axis,
                a1,
                s1,
                counter + default_count(s[c.bottom_index as int]),
                scans + 1,
                a_end,
                s_end,
            );
        assert(a1.pos == a.pos);
        assert(across_velocity(a, axis) == 0 ==> across_velocity(a1, axis) == 0);
        lemma_rounds_keep_position(
            axis,
            a1,
            s1,
            counter + default_count(s[c.bottom_index as int]),
            scans + 1,
            a_end,
            s_end,
        );
    }
}

/// A velocity component snapped to zero stays zero through the whole step of
/// an article without a collision response of its own, and the article does
/// not move along it.
pub proof fn lemma_snap_carried_through(a: Article, s: Seq<Article>, a2: Article, s2: Seq<Article>)
    requires
        a.wf(),
        a.do_collide is None,
        collided(a, s, a2, s2),
    ensures
        -SNAP_THRESHOLD < a.vel.x < SNAP_THRESHOLD ==> a2.vel.x == 0 && a2.pos.x == a.pos.x,
        -SNAP_THRESHOLD < a.vel.y < SNAP_THRESHOLD ==> a2.vel.y == 0 && a2.pos.y == a.pos.y,
{
    let a0 = snapped_article(a);
    let (ax, sx) = choose|ax: Article, sx: Seq<Article>|
        #![trigger swept_along(Axis::X, snapped_article(a), s, ax, sx)]
        swept_along(Axis::X, snapped_article(a), s, ax, sx) && swept_along(Axis::Y, ax, sx, a2, s2);
    let a1 = choose|a1: Article|
        #![trigger sweep_rest(Axis::X, a0, s, 1, 0, a1, sx)]
        sweep_rest(Axis::X, a0, s, 1, 0, a1, sx) && ax == drifted(a1, Axis::X);
    lemma_rounds_keep_position(Axis::X, a0, s, 1, 0, a1, sx);
    assert(ax.do_collide is None);
    let a3 = choose|a3: Article|
        #![trigger sweep_rest(Axis::Y, ax, sx, 1, 0, a3, s2)]
        sweep_rest(Axis::Y, ax, sx, 1, 0, a3, s2) && a2 == drifted(a3, Axis::Y);
    lemma_rounds_keep_position(Axis::Y, ax, sx, 1, 0, a3, s2);
    if -SNAP_THRESHOLD < a.vel.x < SNAP_THRESHOLD {
        assert(no_contact(a0, s, Axis::X));
        assert(a1 == a0);
    }
    if -SNAP_THRESHOLD < a.vel.y < SNAP_THRESHOLD {
        assert(ax.vel.y == 0);
        assert(no_contact(ax, sx, Axis::Y));
        assert(a3 == ax);
    }
}

} // verus!
