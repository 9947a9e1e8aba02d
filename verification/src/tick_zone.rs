//! The zone step of a tick and the damage that the zone deals.

use crate::combat::{health_after, CombatSystem};
use crate::fixed::{
    add_capped, clamp_to, cos, cos_of, lemma_cos_bounds, lemma_div_toward_zero_bounds,
    lemma_scaled_bounds, lemma_sin_bounds, mul_scaled, per_tick, run_down, scaled, sin, sin_of,
    tick_down, LIMIT, TAU, TICKS_PER_SECOND,
};
use crate::match_state::{players_wf, zone_wf, MatchState, MatchView};
use crate::physics::{in_world, lemma_class_stats_wf, within, PhysicsSystem};
use crate::player::{lemma_player_views, same_inputs, same_users, PlayerState, PlayerView};
use crate::protocol::{GameEvent, KillCause, ZoneState};
use crate::rng::pick;
use crate::tick_combat::wounded;
use crate::zone::interpolate_radius;
use vstd::prelude::*;

verus! {

impl MatchView {
    /// The zone's timer runs out on this tick.
    pub open spec fn zone_due(self) -> bool {
        run_down(self.zone_timer as int) <= 0
    }

    /// The zone's timer has only run down by a tick.
    pub open spec fn zone_waiting(self) -> MatchView {
        MatchView { zone_timer: run_down(self.zone_timer as int) as i64, ..self }
    }

    /// The state after the zone has finished shrinking: it is the disc that
    /// it shrank to, and rests for the time that the finished phase gives.
    pub open spec fn zone_settled(self) -> MatchView {
        let rested = self.phase_index() < self.zone_config.phases.len();
        MatchView {
            zone: ZoneState {
                radius: self.zone.target_radius,
                center_x: self.zone.target_center_x,
                center_y: self.zone.target_center_y,
                ..self.zone
            },
            is_shrinking: false,
            zone_timer: if rested {
                self.zone_config.phases[self.phase_index()].delay_after
            } else {
                run_down(self.zone_timer as int) as i64
            },
            current_zone_phase: if rested {
                (self.current_zone_phase + 1) as usize
            } else {
                self.current_zone_phase
            },
            ..self
        }
    }

    /// Direction in which the next disc's centre is moved: the next word of
    /// the random stream picks it from the full turn.
    pub open spec fn shrink_angle(self) -> int {
        pick(self.rng.upcoming(), 0, TAU as int)
    }

    /// Distance by which the next disc's centre is moved: the word after
    /// picks it below half the difference between the zone's radius and the
    /// next one.
    pub open spec fn shrink_offset(self) -> int {
        let narrowing = self.zone.radius
            - self.zone_config.phases[self.phase_index()].target_radius;
        pick(
            self.rng.advanced(1).upcoming(),
            0,
            if narrowing > 0 {
                narrowing / 2
            } else {
                0
            },
        )
    }

    /// The state after the zone has begun its next phase: the disc that it
    /// shrinks to is chosen and the timer holds the phase's shrinking time.
    pub open spec fn zone_retargeted(self) -> MatchView {
        let phase = self.zone_config.phases[self.phase_index()];
        MatchView {
            zone: ZoneState {
                target_center_x: in_world(
                    self.zone.center_x + scaled(self.shrink_offset(), cos_of(self.shrink_angle())),
                ) as i64,
                target_center_y: in_world(
                    self.zone.center_y + scaled(self.shrink_offset(), sin_of(self.shrink_angle())),
                ) as i64,
                target_radius: phase.target_radius,
                damage_per_second: phase.damage_per_second,
                phase: self.current_zone_phase as u32,
                ..self.zone
            },
            zone_timer: phase.shrink_duration,
            is_shrinking: true,
            rng: self.rng.advanced(2),
            ..self
        }
    }

    /// The zone begins a phase on this tick.
    pub open spec fn zone_begins_phase(self) -> bool {
        self.zone_due() && !self.is_shrinking && self.phase_index()
            < self.zone_config.phases.len()
    }

    /// The state after the timer has run down by a tick and, where it ran
    /// out, the zone has settled or begun its next phase.
    pub open spec fn zone_turned(self) -> MatchView {
        if !self.zone_due() {
            self.zone_waiting()
        } else if self.is_shrinking {
            self.zone_settled()
        } else if self.phase_index() < self.zone_config.phases.len() {
            self.zone_retargeted()
        } else {
            self.zone_waiting()
        }
    }

    /// The state after the zone step: the timer has run, the zone has
    /// turned, a shrinking zone has the radius that its schedule gives it,
    /// and the zone shows the timer.
    pub open spec fn zone_stepped(self) -> MatchView {
        let t = self.zone_turned();
        MatchView {
            zone: ZoneState {
                radius: if t.is_shrinking && t.phase_index() < t.zone_config.phases.len() {
                    t.scheduled_radius(t.zone_timer as int) as i64
                } else {
                    t.zone.radius
                },
                shrink_delay: t.zone_timer,
                ..t.zone
            },
            ..t
        }
    }

    /// The events of the zone step: one where the zone begins a phase.
    pub open spec fn zone_events(self) -> Seq<GameEvent> {
        if self.zone_begins_phase() {
            seq![
                GameEvent::ZoneShrink {
                    phase: self.zone_retargeted().zone.phase,
                    new_center_x: self.zone_retargeted().zone.target_center_x,
                    new_center_y: self.zone_retargeted().zone.target_center_y,
                    new_radius: self.zone_retargeted().zone.target_radius,
                },
            ]
        } else {
            Seq::empty()
        }
    }
}

/// The zone hurts the player: alive and outside the zone's disc.
pub open spec fn outside_zone(p: PlayerView, zone: ZoneState) -> bool {
    p.alive && !within(
        p.x as int,
        p.y as int,
        zone.center_x as int,
        zone.center_y as int,
        zone.radius as int,
    )
}

/// The player after the zone's damage of one tick at time `now`.
pub open spec fn scorched(p: PlayerView, zone: ZoneState, now: u64) -> PlayerView {
    if outside_zone(p, zone) {
        wounded(p, per_tick(zone.damage_per_second as int), now)
    } else {
        p
    }
}

/// The zone's damage of this tick kills the player.
pub open spec fn dies_in_zone(p: PlayerView, zone: ZoneState) -> bool {
    outside_zone(p, zone) && health_after(p.health as int, per_tick(zone.damage_per_second as int))
        == 0
}

/// Every player after the zone's damage of one tick.
pub open spec fn all_scorched(players: Seq<PlayerView>, zone: ZoneState, now: u64) -> Seq<PlayerView> {
    Seq::new(players.len(), |i: int| scorched(players[i], zone, now))
}

/// The events that tell whom the zone hurt, in the players' order.
pub open spec fn zone_damage_events(players: Seq<PlayerView>, zone: ZoneState) -> Seq<GameEvent>
    decreases players.len(),
{
    if players.len() == 0 {
        Seq::empty()
    } else if outside_zone(players.last(), zone) {
        zone_damage_events(players.drop_last(), zone).push(
            GameEvent::ZoneDamage {
                user_id: players.last().user_id,
                damage: per_tick(zone.damage_per_second as int) as i64,
            },
        )
    } else {
        zone_damage_events(players.drop_last(), zone)
    }
}

/// The events that tell whom the zone killed, in the players' order.
pub open spec fn zone_kill_events(players: Seq<PlayerView>, zone: ZoneState) -> Seq<GameEvent>
    decreases players.len(),
{
    if players.len() == 0 {
        Seq::empty()
    } else if dies_in_zone(players.last(), zone) {
        zone_kill_events(players.drop_last(), zone).push(
            GameEvent::Kill {
                killer_id: None,
                victim_id: players.last().user_id,
                cause: KillCause::Zone,
            },
        )
    } else {
        zone_kill_events(players.drop_last(), zone)
    }
}

/// Runs the zone's timer by a tick and lets the zone settle, begin its next
/// phase or shrink on; returns the events of the step.
pub fn step_zone(state: &mut MatchState) -> (events: Vec<GameEvent>)
    requires
        old(state).wf(),
    ensures
        final(state)@ == old(state)@.zone_stepped(),
        events@ == old(state)@.zone_events(),
        final(state).wf(),
{
    let mut events: Vec<GameEvent> = Vec::new();
    let ghost before = state@;
    state.zone_timer = tick_down(state.zone_timer);
    if state.zone_timer <= 0 {
        if state.is_shrinking {
            state.zone.radius = state.zone.target_radius;
            state.zone.center_x = state.zone.target_center_x;
            state.zone.center_y = state.zone.target_center_y;
            state.is_shrinking = false;
            let index = state.current_zone_phase;
            if index < state.zone_config.phases.len() {
                state.zone_timer = state.zone_config.phases[index].delay_after;
                state.current_zone_phase = index + 1;
            }
            assert(state@ == before.zone_settled());
        } else if state.current_zone_phase < state.zone_config.phases.len() {
            let phase = state.zone_config.phases[state.current_zone_phase];
            assert(phase.wf());
            let angle: i64 = state.rng.gen_range(0, TAU);
            let narrowing: i64 = state.zone.radius - phase.target_radius;
            let max_offset: i64 = if narrowing > 0 {
                narrowing / 2
            } else {
                0
            };
            let offset: i64 = state.rng.gen_range(0, max_offset);
            proof {
                lemma_cos_bounds(angle as int);
                lemma_sin_bounds(angle as int);
                lemma_scaled_bounds(offset as int, cos_of(angle as int));
                lemma_scaled_bounds(offset as int, sin_of(angle as int));
            }
            state.zone.target_center_x = clamp_to(
                state.zone.center_x + mul_scaled(offset, cos(angle)),
                -LIMIT,
                LIMIT,
            );
            state.zone.target_center_y = clamp_to(
                state.zone.center_y + mul_scaled(offset, sin(angle)),
                -LIMIT,
                LIMIT,
            );
            state.zone.target_radius = phase.target_radius;
            state.zone.damage_per_second = phase.damage_per_second;
            state.zone.phase = state.current_zone_phase as u32;
            state.zone_timer = phase.shrink_duration;
            state.is_shrinking = true;
            events.push(
                GameEvent::ZoneShrink {
                    phase: state.zone.phase,
                    new_center_x: state.zone.target_center_x,
                    new_center_y: state.zone.target_center_y,
                    new_radius: state.zone.target_radius,
                },
            );
            assert(state@ == before.zone_retargeted());
        }
    }
    assert(state@ == before.zone_turned());
    if state.is_shrinking {
        let index = state.current_zone_phase;
        if index < state.zone_config.phases.len() {
            let phase = state.zone_config.phases[index];
            assert(phase.wf());
            let start: i64 = state.zone_config.phase_start_radius(index);
            assert(0 <= start <= LIMIT) by {
                if 0 < index {
                    assert(state.zone_config.phases[index - 1].wf());
                }
            }
            state.zone.radius = interpolate_radius(
                start,
                phase.target_radius,
                state.zone_timer,
                phase.shrink_duration,
            );
        }
    }
    state.zone.shrink_delay = state.zone_timer;
    events
}

/// Deals the zone's damage of one tick at time `now` to every living
/// player outside the zone; returns the events that tell whom it hurt and,
/// after those, whom it killed.
pub fn scorch_players(players: &mut Vec<PlayerState>, zone: &ZoneState, now: u64) -> (events: Vec<
    GameEvent,
>)
    requires
        players_wf(old(players).deep_view()),
        zone_wf(*zone),
    ensures
        final(players).deep_view() == all_scorched(old(players).deep_view(), *zone, now),
        events@ == zone_damage_events(old(players).deep_view(), *zone) + zone_kill_events(
            old(players).deep_view(),
            *zone,
        ),
        players_wf(final(players).deep_view()),
        same_users(final(players).deep_view(), old(players).deep_view()),
        same_inputs(final(players).deep_view(), old(players).deep_view()),
{
    let ghost before = players.deep_view();
    let mut events: Vec<GameEvent> = Vec::new();
    let mut deaths: Vec<GameEvent> = Vec::new();
    let damage: i64 = CombatSystem::zone_damage(zone.damage_per_second);
    proof {
        lemma_div_toward_zero_bounds(zone.damage_per_second as int, TICKS_PER_SECOND as int);
    }
    let n = players.len();
    let mut i: usize = 0;
    proof {
        lemma_player_views(players);
    }
    while i < n
        invariant
            i <= n,
            n == players.len(),
            n == before.len(),
            players_wf(before),
            zone_wf(*zone),
            damage == per_tick(zone.damage_per_second as int),
            0 <= damage <= LIMIT,
            forall|j: int|
                0 <= j < i ==> (#[trigger] players@[j])@ == scorched(before[j], *zone, now),
            forall|j: int| i <= j < n ==> (#[trigger] players@[j])@ == before[j],
            forall|j: int| 0 <= j < n ==> (#[trigger] players@[j])@.wf(),
            events@ == zone_damage_events(before.take(i as int), *zone),
            deaths@ == zone_kill_events(before.take(i as int), *zone),
        decreases n - i,
    {
        proof {
            assert(before.take(i + 1).drop_last() == before.take(i as int));
            assert(before[i as int].wf());
            lemma_class_stats_wf(before[i as int].ship_type);
        }
        if players[i].alive && !PhysicsSystem::is_in_zone(
            players[i].x,
            players[i].y,
            zone.center_x,
            zone.center_y,
            zone.radius,
        ) {
            let (left, killed) = CombatSystem::apply_damage(players[i].health, damage);
            players[i].health = left;
            players[i].damage_taken = add_capped(players[i].damage_taken, damage);
            events.push(GameEvent::ZoneDamage { user_id: players[i].user_id, damage });
            if killed {
                players[i].alive = false;
                players[i].death_time = Some(now);
                deaths.push(
                    GameEvent::Kill {
                        killer_id: None,
                        victim_id: players[i].user_id,
                        cause: KillCause::Zone,
                    },
                );
            }
        }
        i += 1;
    }
    proof {
        assert(before.take(n as int) == before);
        lemma_player_views(players);
        assert(players.deep_view() =~= all_scorched(before, *zone, now));
    }
    events.append(&mut deaths);
    events
}

} // verus!
