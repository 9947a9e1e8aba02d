//! A match: its tick.

use crate::fixed::{run_down, tick_down};
use crate::game_match::{GameMatch, GameMatchView};
use crate::match_state::{MatchPhase, MatchView};
use crate::player::{lemma_player_views, same_inputs, same_users};
use crate::protocol::{views, GameEvent, ServerMsg, ServerMsgView};
use crate::tick_combat::{apply_hits, combat, fire_weapons, fly_projectiles};
use crate::tick_physics::{headings_wrapped, move_ships, physics, resolve_collisions};
use crate::tick_zone::{all_scorched, scorch_players, step_zone, zone_damage_events, zone_kill_events};
use vstd::prelude::*;

verus! {

/// The identifier `offset` places after `first`, counted around the
/// identifiers' range.
pub open spec fn numbered(first: u128, offset: int) -> u128 {
    ((first + offset) % (u128::MAX + 1)) as u128
}

impl MatchView {
    /// The state after the physics step.
    pub open spec fn after_physics(self) -> MatchView {
        MatchView { players: physics(self.players), ..self }
    }

    /// The state after the combat step at time `now`, where the player in
    /// place `i` would fire the projectile `ids[i]`.
    pub open spec fn after_combat(self, now: u64, ids: Seq<u128>) -> MatchView {
        let fought = combat(self.players, self.projectiles, now, ids);
        MatchView { players: fought.players, projectiles: fought.projectiles, ..self }
    }

    /// The events of the combat step.
    pub open spec fn combat_events(self, now: u64, ids: Seq<u128>) -> Seq<GameEvent> {
        combat(self.players, self.projectiles, now, ids).events
    }

    /// The identifiers for the projectiles of this tick: the player in place
    /// `i` would fire the projectile numbered `i` from the match's next
    /// number on.
    pub open spec fn own_ids(self) -> Seq<u128> {
        Seq::new(self.players.len(), |i: int| numbered(self.next_projectile_id, i))
    }

    /// The state after the combat step at time `now` with the match's own
    /// identifiers for the projectiles; the numbers of all players' places
    /// are used up.
    pub open spec fn fought(self, now: u64) -> MatchView {
        MatchView {
            next_projectile_id: numbered(self.next_projectile_id, self.players.len() as int),
            ..self.after_combat(now, self.own_ids())
        }
    }

    /// The state after the zone has dealt its damage at time `now`.
    pub open spec fn after_zone_damage(self, now: u64) -> MatchView {
        MatchView { players: all_scorched(self.players, self.zone, now), ..self }
    }

    /// The events that tell of the zone's damage.
    pub open spec fn zone_damage_told(self) -> Seq<GameEvent> {
        zone_damage_events(self.players, self.zone) + zone_kill_events(self.players, self.zone)
    }

    /// The state after the simulation of one tick of a match in progress:
    /// physics, then combat, then the zone, then the zone's damage.
    pub open spec fn simulated(self, now: u64) -> MatchView {
        self.after_physics().fought(now).zone_stepped().after_zone_damage(now)
    }

    /// The events of one tick of a match in progress, in the order of the
    /// steps.
    pub open spec fn simulation_events(self, now: u64) -> Seq<GameEvent> {
        let moved = self.after_physics();
        let fought = moved.fought(now);
        moved.combat_events(now, moved.own_ids()) + fought.zone_events()
            + fought.zone_stepped().zone_damage_told()
    }

    /// The countdown ends on this tick.
    pub open spec fn countdown_ends(self) -> bool {
        self.phase == MatchPhase::Countdown && run_down(self.countdown_remaining as int) <= 0
    }

    /// The state after a tick of the countdown: when it ends, the match is
    /// in progress from `now` and the zone rests for its initial delay.
    pub open spec fn counted_down(self, now: u64) -> MatchView {
        if self.countdown_ends() {
            MatchView {
                countdown_remaining: run_down(self.countdown_remaining as int) as i64,
                phase: MatchPhase::InProgress,
                start_time: Some(now),
                zone_timer: self.zone_config.initial_delay,
                ..self
            }
        } else {
            MatchView {
                countdown_remaining: run_down(self.countdown_remaining as int) as i64,
                ..self
            }
        }
    }
}

impl GameMatchView {
    /// The match after one tick at time `now`. The tick is counted; a match
    /// in its countdown counts down, a match in progress is simulated and
    /// then looked at for a winner, and nothing else happens to a match that
    /// is waiting or has ended.
    pub open spec fn ticked(self, now: u64) -> GameMatchView {
        let counted = MatchView { tick: (self.state.tick + 1) as u64, ..self.state };
        match self.state.phase {
            MatchPhase::Countdown => GameMatchView { state: counted.counted_down(now), ..self },
            MatchPhase::InProgress => (GameMatchView {
                state: counted.simulated(now),
                ..self
            }).win_checked(),
            _ => GameMatchView { state: counted, ..self },
        }
    }

    /// The events of the tick.
    pub open spec fn tick_events(self, now: u64) -> Seq<GameEvent> {
        match self.state.phase {
            MatchPhase::InProgress => self.state.simulation_events(now),
            _ => Seq::empty(),
        }
    }

    /// The messages of the tick: the start of the match on the tick on
    /// which the countdown ends.
    pub open spec fn tick_messages(self) -> Seq<ServerMsgView> {
        if self.state.countdown_ends() {
            seq![ServerMsgView::MatchStarted { tick: (self.state.tick + 1) as u64 }]
        } else {
            Seq::empty()
        }
    }
}

impl GameMatch {
    /// Moves the living players' ships by a tick and pushes overlapping
    /// ships apart.
    pub fn update_physics(&mut self)
        requires
            old(self).wf(),
        ensures
            final(self)@ == (GameMatchView {
                state: old(self)@.state.after_physics(),
                ..old(self)@
            }),
            same_users(final(self)@.state.players, old(self)@.state.players),
            same_inputs(final(self)@.state.players, old(self)@.state.players),
            headings_wrapped(final(self)@.state.players),
            final(self).wf(),
    {
        move_ships(&mut self.state.players);
        resolve_collisions(&mut self.state.players);
    }

    /// Runs the combat step at time `now`; the player in place `i` would
    /// fire the projectile `ids[i]`. Returns the events of the step.
    pub fn update_combat_with(&mut self, now: u64, ids: &Vec<u128>) -> (events: Vec<GameEvent>)
        requires
            old(self).wf(),
            ids.len() >= old(self).state.players.len(),
        ensures
            final(self)@ == (GameMatchView {
                state: old(self)@.state.after_combat(now, ids@),
                ..old(self)@
            }),
            events@ == old(self)@.state.combat_events(now, ids@),
            same_users(final(self)@.state.players, old(self)@.state.players),
            same_inputs(final(self)@.state.players, old(self)@.state.players),
            final(self).wf(),
    {
        let mut events: Vec<GameEvent> = Vec::new();
        fire_weapons(&mut self.state.players, ids, &mut self.state.projectiles, &mut events);
        let (in_flight, hits) = fly_projectiles(&self.state.projectiles, &self.state.players);
        self.state.projectiles = in_flight;
        apply_hits(&mut self.state.players, &hits, now, &mut events);
        events
    }

    /// The identifiers for the projectiles of this tick, one for each
    /// player's place.
    pub fn own_projectile_ids(&self) -> (ids: Vec<u128>)
        ensures
            ids@ == self@.state.own_ids(),
    {
        let mut ids: Vec<u128> = Vec::new();
        let n = self.state.players.len();
        let mut i: usize = 0;
        proof {
            lemma_player_views(&self.state.players);
        }
        while i < n
            invariant
                i <= n,
                n == self.state.players.len(),
                ids.len() == i,
                forall|j: int|
                    0 <= j < i ==> #[trigger] ids@[j] == numbered(self.state.next_projectile_id, j),
            decreases n - i,
        {
            ids.push(self.state.next_projectile_id.wrapping_add(i as u128));
            i += 1;
        }
        proof {
            assert(ids@ =~= self@.state.own_ids());
        }
        ids
    }

    /// Runs the combat step at time `now`. The projectiles that are fired
    /// get the match's own identifiers, so the step depends on nothing but
    /// the match and the time. Returns the events of the step.
    pub fn update_combat(&mut self, now: u64) -> (events: Vec<GameEvent>)
        requires
            old(self).wf(),
        ensures
            final(self)@ == (GameMatchView { state: old(self)@.state.fought(now), ..old(self)@ }),
            events@ == old(self)@.state.combat_events(now, old(self)@.state.own_ids()),
            same_users(final(self)@.state.players, old(self)@.state.players),
            same_inputs(final(self)@.state.players, old(self)@.state.players),
            final(self).wf(),
    {
        let ids = self.own_projectile_ids();
        let count = self.state.players.len();
        let events = self.update_combat_with(now, &ids);
        self.state.next_projectile_id = self.state.next_projectile_id.wrapping_add(count as u128);
        events
    }

    /// Runs the zone's timer and lets the zone settle, begin its next phase
    /// or shrink on; returns the events of the step.
    pub fn update_zone(&mut self) -> (events: Vec<GameEvent>)
        requires
            old(self).wf(),
        ensures
            final(self)@ == (GameMatchView {
                state: old(self)@.state.zone_stepped(),
                ..old(self)@
            }),
            events@ == old(self)@.state.zone_events(),
            final(self).wf(),
    {
        step_zone(&mut self.state)
    }

    /// Deals the zone's damage of one tick at time `now`; returns the events
    /// that tell whom it hurt and, after those, whom it killed.
    pub fn apply_zone_damage(&mut self, now: u64) -> (events: Vec<GameEvent>)
        requires
            old(self).wf(),
        ensures
            final(self)@ == (GameMatchView {
                state: old(self)@.state.after_zone_damage(now),
                ..old(self)@
            }),
            events@ == old(self)@.state.zone_damage_told(),
            same_users(final(self)@.state.players, old(self)@.state.players),
            same_inputs(final(self)@.state.players, old(self)@.state.players),
            final(self).wf(),
    {
        scorch_players(&mut self.state.players, &self.state.zone, now)
    }

    /// Runs one tick of the match at time `now`. Returns the events and the
    /// messages of the tick.
    pub fn run_tick(&mut self, now: u64) -> (r: (Vec<GameEvent>, Vec<ServerMsg>))
        requires
            old(self).wf(),
            old(self).state.tick < u64::MAX,
        ensures
            final(self)@ == old(self)@.ticked(now),
            r.0@ == old(self)@.tick_events(now),
            views(r.1@) == old(self)@.tick_messages(),
            same_inputs(final(self)@.state.players, old(self)@.state.players),
            final(self).wf(),
    {
        let mut events: Vec<GameEvent> = Vec::new();
        let mut msgs: Vec<ServerMsg> = Vec::new();
        self.state.tick = self.state.tick + 1;
        match self.state.phase {
            MatchPhase::Waiting => {},
            MatchPhase::Countdown => {
                self.state.countdown_remaining = tick_down(self.state.countdown_remaining);
                if self.state.countdown_remaining <= 0 {
                    self.state.phase = MatchPhase::InProgress;
                    self.state.start_time = Some(now);
                    self.state.zone_timer = self.state.zone_config.initial_delay;
                    msgs.push(ServerMsg::MatchStarted { tick: self.state.tick });
                }
            },
            MatchPhase::InProgress => {
                self.update_physics();
                let mut fought = self.update_combat(now);
                events.append(&mut fought);
                let mut shrunk = self.update_zone();
                events.append(&mut shrunk);
                let mut scorched = self.apply_zone_damage(now);
                events.append(&mut scorched);
                self.check_win_condition();
            },
            MatchPhase::Ended => {},
        }
        proof {
            assert(views(msgs@) =~= old(self)@.tick_messages());
        }
        (events, msgs)
    }
}

} // verus!
