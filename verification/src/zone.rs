//! The shrinking zone: its schedule and how its radius changes.

use crate::fixed::{
    clamp, clamp_to, div_round, div_toward_zero, lemma_div_toward_zero_bounds, LIMIT, SCALE,
};
use crate::protocol::ZoneState;
use vstd::prelude::*;

verus! {

/// One step of the zone's schedule.
#[derive(Debug, Clone, Copy, PartialEq, Eq, Structural)]
pub struct ZonePhase {
    /// Radius that the zone shrinks to.
    pub target_radius: i64,
    /// Time that the shrinking takes.
    pub shrink_duration: i64,
    /// Damage per second outside the zone.
    pub damage_per_second: i64,
    /// Time that the zone rests before the next phase.
    pub delay_after: i64,
}

impl ZonePhase {
    /// The phase is within the ranges that the simulation computes on.
    pub open spec fn wf(self) -> bool {
        &&& 0 <= self.target_radius <= LIMIT
        &&& 0 <= self.shrink_duration <= LIMIT
        &&& 0 <= self.damage_per_second <= LIMIT
        &&& 0 <= self.delay_after <= LIMIT
    }
}

/// The zone's schedule.
#[derive(Debug, Clone)]
pub struct ZoneConfig {
    /// Radius at the start of the match.
    pub initial_radius: i64,
    /// Time before the first phase.
    pub initial_delay: i64,
    /// The phases, in order.
    pub phases: Vec<ZonePhase>,
}

impl ZoneConfig {
    /// The schedule is within the ranges that the simulation computes on.
    pub open spec fn wf(self) -> bool {
        &&& 0 <= self.initial_radius <= LIMIT
        &&& 0 <= self.initial_delay <= LIMIT
        &&& self.phases.len() <= u32::MAX
        &&& forall|i: int| 0 <= i < self.phases.len() ==> (#[trigger] self.phases[i]).wf()
    }

    /// The phases of the standard schedule: radius, shrinking time, damage
    /// per second and rest of each.
    pub open spec fn standard_phases() -> Seq<ZonePhase> {
        seq![
            ZonePhase {
                target_radius: (1000 * SCALE) as i64,
                shrink_duration: (30 * SCALE) as i64,
                damage_per_second: (5 * SCALE) as i64,
                delay_after: (45 * SCALE) as i64,
            },
            ZonePhase {
                target_radius: (600 * SCALE) as i64,
                shrink_duration: (25 * SCALE) as i64,
                damage_per_second: (10 * SCALE) as i64,
                delay_after: (30 * SCALE) as i64,
            },
            ZonePhase {
                target_radius: (300 * SCALE) as i64,
                shrink_duration: (20 * SCALE) as i64,
                damage_per_second: (15 * SCALE) as i64,
                delay_after: (20 * SCALE) as i64,
            },
            ZonePhase {
                target_radius: (50 * SCALE) as i64,
                shrink_duration: (15 * SCALE) as i64,
                damage_per_second: (25 * SCALE) as i64,
                delay_after: 0,
            },
        ]
    }

    /// The schedule is the standard one: a radius of 1500 that rests for 60
    /// seconds and then goes through the standard phases.
    pub open spec fn is_standard(self) -> bool {
        &&& self.initial_radius == 1500 * SCALE
        &&& self.initial_delay == 60 * SCALE
        &&& self.phases@ == ZoneConfig::standard_phases()
    }

    /// Radius from which the zone shrinks in phase `index`: the radius of
    /// the phase before, or the initial radius.
    pub open spec fn start_radius(self, index: int) -> int {
        if index <= 0 || index > self.phases.len() {
            self.initial_radius as int
        } else {
            self.phases[index - 1].target_radius as int
        }
    }

    /// The zone as it is before the first phase.
    pub open spec fn initial_zone(self) -> ZoneState {
        ZoneState {
            center_x: 0,
            center_y: 0,
            radius: self.initial_radius,
            target_center_x: 0,
            target_center_y: 0,
            target_radius: self.initial_radius,
            damage_per_second: if self.phases.len() > 0 {
                self.phases[0].damage_per_second
            } else {
                0
            },
            shrink_delay: self.initial_delay,
            phase: 0,
        }
    }

    /// Radius from which the zone shrinks in phase `index`.
    pub fn phase_start_radius(&self, index: usize) -> (r: i64)
        ensures
            r == self.start_radius(index as int),
    {
        if index == 0 || index > self.phases.len() {
            self.initial_radius
        } else {
            self.phases[index - 1].target_radius
        }
    }
}

impl Default for ZoneConfig {
    fn default() -> (config: ZoneConfig)
        ensures
            config.is_standard(),
            config.wf(),
    {
        let mut phases: Vec<ZonePhase> = Vec::new();
        phases.push(
            ZonePhase {
                target_radius: 1000 * SCALE,
                shrink_duration: 30 * SCALE,
                damage_per_second: 5 * SCALE,
                delay_after: 45 * SCALE,
            },
        );
        phases.push(
            ZonePhase {
                target_radius: 600 * SCALE,
                shrink_duration: 25 * SCALE,
                damage_per_second: 10 * SCALE,
                delay_after: 30 * SCALE,
            },
        );
        phases.push(
            ZonePhase {
                target_radius: 300 * SCALE,
                shrink_duration: 20 * SCALE,
                damage_per_second: 15 * SCALE,
                delay_after: 20 * SCALE,
            },
        );
        phases.push(
            ZonePhase {
                target_radius: 50 * SCALE,
                shrink_duration: 15 * SCALE,
                damage_per_second: 25 * SCALE,
                delay_after: 0,
            },
        );
        proof {
            assert(phases@ =~= ZoneConfig::standard_phases());
        }
        ZoneConfig { initial_radius: 1500 * SCALE, initial_delay: 60 * SCALE, phases }
    }
}

/// Radius of a zone that shrinks from `start` to `target` over `duration`
/// when `timer` of that time is left: it changes evenly with the time that
/// has passed, and is `target` at once where the shrinking takes no time.
pub open spec fn shrink_radius(start: int, target: int, timer: int, duration: int) -> int {
    if duration <= 0 {
        target
    } else {
        start + div_toward_zero((target - start) * (duration - clamp(timer, 0, duration)), duration)
    }
}

/// A shrinking zone's radius lies between the radius it started from and
/// the radius it shrinks to.
pub proof fn lemma_shrink_radius_between(start: int, target: int, timer: int, duration: int)
    ensures
        target <= start ==> target <= shrink_radius(start, target, timer, duration) <= start,
        start <= target ==> start <= shrink_radius(start, target, timer, duration) <= target,
{
    if duration > 0 {
        let e = duration - clamp(timer, 0, duration);
        let d = target - start;
        lemma_div_toward_zero_bounds(d * e, duration);
        let q = div_toward_zero(d * e, duration);
        if d >= 0 {
            assert(0 <= d * e <= d * duration) by (nonlinear_arith)
                requires
                    d >= 0,
                    0 <= e <= duration,
            ;
            assert(q <= d) by (nonlinear_arith)
                requires
                    q * duration <= d * e,
                    d * e <= d * duration,
                    duration > 0,
            ;
        } else {
            assert(d * duration <= d * e <= 0) by (nonlinear_arith)
                requires
                    d < 0,
                    0 <= e <= duration,
            ;
            assert(q >= d) by (nonlinear_arith)
                requires
                    q * duration >= d * e,
                    d * e >= d * duration,
                    duration > 0,
            ;
        }
    }
}

/// The less time is left, the closer a shrinking zone's radius is to the
/// radius it shrinks to.
pub proof fn lemma_shrink_radius_monotone(start: int, target: int, earlier: int, later: int, duration: int)
    requires
        later <= earlier,
    ensures
        target <= start ==> shrink_radius(start, target, later, duration) <= shrink_radius(
            start,
            target,
            earlier,
            duration,
        ),
        start <= target ==> shrink_radius(start, target, later, duration) >= shrink_radius(
            start,
            target,
            earlier,
            duration,
        ),
{
    if duration > 0 {
        let e1 = duration - clamp(earlier, 0, duration);
        let e2 = duration - clamp(later, 0, duration);
        let d = target - start;
        assert(e1 <= e2);
        if d == 0 {
            assert(d * e1 == 0 && d * e2 == 0) by (nonlinear_arith)
                requires
                    d == 0,
            ;
        } else if d > 0 {
            assert(0 <= d * e1 <= d * e2) by (nonlinear_arith)
                requires
                    d >= 0,
                    0 <= e1 <= e2,
            ;
            assert((d * e1) / duration <= (d * e2) / duration) by (nonlinear_arith)
                requires
                    0 <= d * e1 <= d * e2,
                    duration > 0,
            ;
        } else {
            assert(0 <= -(d * e1) <= -(d * e2)) by (nonlinear_arith)
                requires
                    d < 0,
                    0 <= e1 <= e2,
            ;
            assert((-(d * e1)) / duration <= (-(d * e2)) / duration) by (nonlinear_arith)
                requires
                    0 <= -(d * e1) <= -(d * e2),
                    duration > 0,
            ;
            assert(0int / duration == 0) by (nonlinear_arith)
                requires
                    duration > 0,
            ;
            assert((-(d * e2)) / duration >= 0) by (nonlinear_arith)
                requires
                    0 <= -(d * e2),
                    duration > 0,
            ;
        }
    }
}

/// Radius of a shrinking zone; see `shrink_radius`.
pub fn interpolate_radius(start: i64, target: i64, timer: i64, duration: i64) -> (r: i64)
    requires
        0 <= start <= LIMIT,
        0 <= target <= LIMIT,
        duration <= LIMIT,
    ensures
        r == shrink_radius(start as int, target as int, timer as int, duration as int),
        0 <= r <= LIMIT,
{
    if duration <= 0 {
        return target;
    }
    let left: i64 = clamp_to(timer, 0, duration);
    proof {
        lemma_shrink_radius_between(start as int, target as int, timer as int, duration as int);
        assert(-LIMIT * LIMIT <= (target - start) * (duration - left) <= LIMIT * LIMIT)
            by (nonlinear_arith)
            requires
                -LIMIT <= target - start <= LIMIT,
                0 <= duration - left <= LIMIT,
        ;
        assert(LIMIT * LIMIT == 0x1_0000_0000_0000_0000_0000) by (nonlinear_arith);
    }
    let wide: i128 = (target as i128 - start as i128) * (duration as i128 - left as i128);
    (start as i128 + div_round(wide, duration as i128)) as i64
}

} // verus!
