//! What holds of the zone.

use crate::fixed::{
    cos_of, lemma_cos_bounds, lemma_scaled_bounds, lemma_sin_bounds, run_down, scaled, sin_of,
    LIMIT,
};
use crate::match_state::MatchView;
use crate::physics::{in_world, within};
use crate::rng::lemma_pick_in_range;
use crate::zone::{lemma_shrink_radius_between, lemma_shrink_radius_monotone};
use vstd::prelude::*;

verus! {

/// Distance between two radii.
pub open spec fn gap(a: int, b: int) -> int {
    if a >= b {
        a - b
    } else {
        b - a
    }
}

/// After a zone step, a shrinking zone has the radius that its schedule
/// gives it for the time left.
pub proof fn lemma_stepped_radius(v: MatchView)
    requires
        v.wf(),
    ensures
        ({
            let a = v.zone_stepped();
            a.is_shrinking ==> {
                &&& a.phase_index() < a.zone_config.phases.len()
                &&& a.zone_config == v.zone_config
                &&& a.zone.radius == a.scheduled_radius(a.zone_timer as int)
                &&& a.zone.target_radius
                    == a.zone_config.phases[a.phase_index()].target_radius
                &&& 0 <= a.zone.radius <= LIMIT
            }
        }),
{
    let a = v.zone_stepped();
    if a.is_shrinking {
        let index = a.phase_index();
        assert(v.zone_config.phases[index].wf());
        if index > 0 {
            assert(v.zone_config.phases[index - 1].wf());
        }
        lemma_shrink_radius_between(
            a.zone_config.start_radius(index),
            a.zone_config.phases[index].target_radius as int,
            a.zone_timer as int,
            a.zone_config.phases[index].shrink_duration as int,
        );
    }
}

/// A zone step keeps the state consistent.
pub proof fn lemma_zone_stepped_wf(v: MatchView)
    requires
        v.wf(),
    ensures
        v.zone_stepped().wf(),
{
    let a = v.zone_stepped();
    lemma_stepped_radius(v);
    if v.phase_index() < v.zone_config.phases.len() {
        assert(v.zone_config.phases[v.phase_index()].wf());
    }
}

/// While the zone shrinks, its radius lies between the radius of the phase
/// before (the initial radius in the first phase) and the radius that it
/// shrinks to.
pub proof fn law_zone_radius_between(v: MatchView)
    requires
        v.wf(),
    ensures
        ({
            let a = v.zone_stepped();
            let start = a.zone_config.start_radius(a.phase_index());
            let target = a.zone.target_radius;
            a.is_shrinking ==> {
                &&& target <= start ==> target <= a.zone.radius <= start
                &&& start <= target ==> start <= a.zone.radius <= target
            }
        }),
{
    let a = v.zone_stepped();
    lemma_stepped_radius(v);
    if a.is_shrinking {
        let index = a.phase_index();
        lemma_shrink_radius_between(
            a.zone_config.start_radius(index),
            a.zone_config.phases[index].target_radius as int,
            a.zone_timer as int,
            a.zone_config.phases[index].shrink_duration as int,
        );
    }
}

/// From one tick of shrinking to the next, the zone's radius comes no
/// further from the radius that it shrinks to.
pub proof fn law_zone_radius_approaches_target(v: MatchView)
    requires
        v.wf(),
    ensures
        ({
            let a = v.zone_stepped();
            let b = a.zone_stepped();
            a.is_shrinking && b.is_shrinking ==> {
                &&& b.zone.target_radius == a.zone.target_radius
                &&& gap(b.zone.radius as int, b.zone.target_radius as int) <= gap(
                    a.zone.radius as int,
                    a.zone.target_radius as int,
                )
            }
        }),
{
    let a = v.zone_stepped();
    let b = a.zone_stepped();
    lemma_zone_stepped_wf(v);
    lemma_stepped_radius(v);
    lemma_stepped_radius(a);
    if a.is_shrinking && b.is_shrinking {
        let index = a.phase_index();
        let start = a.zone_config.start_radius(index);
        let target = a.zone_config.phases[index].target_radius as int;
        let duration = a.zone_config.phases[index].shrink_duration as int;
        assert(!a.zone_due());
        assert(b.zone_timer == run_down(a.zone_timer as int));
        assert(b.phase_index() == index);
        lemma_shrink_radius_monotone(
            start,
            target,
            a.zone_timer as int,
            b.zone_timer as int,
            duration,
        );
        lemma_shrink_radius_between(start, target, a.zone_timer as int, duration);
        lemma_shrink_radius_between(start, target, b.zone_timer as int, duration);
    }
}

/// A point moved by at most `reach` along each axis and then held inside
/// the world is still at most `reach` away along each axis, if it started
/// inside the world.
pub proof fn lemma_in_world_no_further(c: int, d: int, reach: int)
    requires
        -LIMIT <= c <= LIMIT,
        -reach <= d <= reach,
    ensures
        -reach <= in_world(c + d) - c <= reach,
{
}

/// When the zone begins a phase that does not widen it, the disc that it
/// will shrink to lies inside the disc that it is: the distance by which
/// the centre moves and the new radius together do not exceed the radius.
pub proof fn law_zone_target_inside(v: MatchView)
    requires
        v.wf(),
        v.zone_begins_phase(),
        v.zone_config.phases[v.phase_index()].target_radius <= v.zone.radius,
    ensures
        ({
            let next = v.zone_retargeted().zone;
            &&& 0 <= v.shrink_offset()
            &&& v.shrink_offset() + next.target_radius <= v.zone.radius
            &&& within(
                next.target_center_x as int,
                next.target_center_y as int,
                v.zone.center_x as int,
                v.zone.center_y as int,
                v.zone.radius - next.target_radius,
            )
        }),
{
    let next = v.zone_retargeted().zone;
    let phase = v.zone_config.phases[v.phase_index()];
    assert(phase.wf());
    let room = v.zone.radius - phase.target_radius;
    let offset = v.shrink_offset();
    let angle = v.shrink_angle();
    if room / 2 > 0 {
        lemma_pick_in_range(v.rng.advanced(1).upcoming(), 0, room / 2);
    }
    assert(0 <= offset && 2 * offset <= room);
    lemma_cos_bounds(angle);
    lemma_sin_bounds(angle);
    lemma_scaled_bounds(offset, cos_of(angle));
    lemma_scaled_bounds(offset, sin_of(angle));
    let px = scaled(offset, cos_of(angle));
    let py = scaled(offset, sin_of(angle));
    lemma_in_world_no_further(v.zone.center_x as int, px, offset);
    lemma_in_world_no_further(v.zone.center_y as int, py, offset);
    let dx = next.target_center_x - v.zone.center_x;
    let dy = next.target_center_y - v.zone.center_y;
    assert(dx * dx + dy * dy <= room * room) by (nonlinear_arith)
        requires
            -offset <= dx <= offset,
            -offset <= dy <= offset,
            0 <= offset,
            2 * offset <= room,
    {
        assert(dx * dx <= offset * offset);
        assert(dy * dy <= offset * offset);
        assert(4 * (offset * offset) <= room * room);
    }
}

} // verus!
