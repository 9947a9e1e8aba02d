//! The state of a match.

use crate::combat::Projectile;
use crate::fixed::{
    cos, cos_of, clamp_to, lemma_cos_bounds, lemma_scaled_bounds, lemma_sin_bounds, mul_scaled,
    scaled, sin, sin_of, LIMIT, TAU,
};
use crate::physics::in_world;
use crate::player::{alive_in, count_alive, distinct_ids, PlayerState, PlayerView};
use crate::protocol::ZoneState;
use crate::rng::{pick, MatchRng};
use crate::zone::{shrink_radius, ZoneConfig};
use vstd::prelude::*;

verus! {

/// Length of the countdown before a match starts.
pub const COUNTDOWN: i64 = 15000;

/// Whole seconds of the countdown.
pub const COUNTDOWN_SECONDS: u32 = 5;

/// Players spawn at least this far from the zone's centre.
pub const SPAWN_MIN_DISTANCE: i64 = 600000;

/// Players spawn within this share of the zone's radius.
pub const SPAWN_RADIUS_SHARE: i64 = 2400;

/// The phases of a match.
#[derive(Debug, Clone, Copy, PartialEq, Eq, Structural)]
pub enum MatchPhase {
    /// Too few players have joined.
    Waiting,
    /// The match starts when the countdown ends.
    Countdown,
    /// The match is being played.
    InProgress,
    /// The match is over.
    Ended,
}

/// The state of a match; its one owner is the match's task.
#[derive(Debug)]
pub struct MatchState {
    pub id: u128,
    pub seed: u64,
    pub phase: MatchPhase,
    pub tick: u64,
    /// The players, in the order in which they joined.
    pub players: Vec<PlayerState>,
    pub zone: ZoneState,
    pub zone_config: ZoneConfig,
    pub zone_timer: i64,
    pub current_zone_phase: usize,
    pub is_shrinking: bool,
    /// The projectiles in flight, oldest first.
    pub projectiles: Vec<Projectile>,
    pub rng: MatchRng,
    /// The id that the next projectile of the first player would get.
    pub next_projectile_id: u128,
    /// Wall-clock time at which the match started, in milliseconds.
    pub start_time: Option<u64>,
    pub countdown_remaining: i64,
    pub min_players: usize,
    pub max_players: usize,
}

/// What a `MatchState` holds.
pub struct MatchView {
    pub id: u128,
    pub seed: u64,
    pub phase: MatchPhase,
    pub tick: u64,
    pub players: Seq<PlayerView>,
    pub zone: ZoneState,
    pub zone_config: ZoneConfig,
    pub zone_timer: i64,
    pub current_zone_phase: usize,
    pub is_shrinking: bool,
    pub projectiles: Seq<Projectile>,
    pub rng: MatchRng,
    pub next_projectile_id: u128,
    pub start_time: Option<u64>,
    pub countdown_remaining: i64,
    pub min_players: usize,
    pub max_players: usize,
}

impl View for MatchState {
    type V = MatchView;

    open spec fn view(&self) -> MatchView {
        MatchView {
            id: self.id,
            seed: self.seed,
            phase: self.phase,
            tick: self.tick,
            players: self.players.deep_view(),
            zone: self.zone,
            zone_config: self.zone_config,
            zone_timer: self.zone_timer,
            current_zone_phase: self.current_zone_phase,
            is_shrinking: self.is_shrinking,
            projectiles: self.projectiles@,
            rng: self.rng,
            next_projectile_id: self.next_projectile_id,
            start_time: self.start_time,
            countdown_remaining: self.countdown_remaining,
            min_players: self.min_players,
            max_players: self.max_players,
        }
    }
}

/// The zone and both of its discs lie inside the world.
pub open spec fn zone_wf(zone: ZoneState) -> bool {
    &&& -LIMIT <= zone.center_x <= LIMIT
    &&& -LIMIT <= zone.center_y <= LIMIT
    &&& 0 <= zone.radius <= LIMIT
    &&& -LIMIT <= zone.target_center_x <= LIMIT
    &&& -LIMIT <= zone.target_center_y <= LIMIT
    &&& 0 <= zone.target_radius <= LIMIT
    &&& 0 <= zone.damage_per_second <= LIMIT
}

/// Every player of `players` is consistent.
pub open spec fn players_wf(players: Seq<PlayerView>) -> bool {
    forall|i: int| 0 <= i < players.len() ==> (#[trigger] players[i]).wf()
}

/// Every projectile of `projectiles` is in flight inside the world.
pub open spec fn projectiles_wf(projectiles: Seq<Projectile>) -> bool {
    forall|i: int| 0 <= i < projectiles.len() ==> (#[trigger] projectiles[i]).wf()
}

/// Where and how a new player spawns, as `(x, y, rotation)`: at a random
/// angle and distance from the zone's centre, the distance between
/// `SPAWN_MIN_DISTANCE` and 0.8 of the zone's radius, with a random heading.
/// The three choices are the next three words of the random stream.
pub open spec fn spawn_place(zone: ZoneState, rng: MatchRng) -> (int, int, int) {
    let angle = pick(rng.upcoming(), 0, TAU as int);
    let distance = pick(
        rng.advanced(1).upcoming(),
        SPAWN_MIN_DISTANCE as int,
        scaled(zone.radius as int, SPAWN_RADIUS_SHARE as int),
    );
    let rotation = pick(rng.advanced(2).upcoming(), 0, TAU as int);
    (
        in_world(zone.center_x + scaled(distance, cos_of(angle))),
        in_world(zone.center_y + scaled(distance, sin_of(angle))),
        rotation,
    )
}

impl MatchView {
    /// The phase of the schedule that the zone is in or comes to next.
    pub open spec fn phase_index(self) -> int {
        self.current_zone_phase as int
    }

    /// Radius that the zone has by its schedule while it shrinks with
    /// `timer` left.
    pub open spec fn scheduled_radius(self, timer: int) -> int {
        shrink_radius(
            self.zone_config.start_radius(self.phase_index()),
            self.zone_config.phases[self.phase_index()].target_radius as int,
            timer,
            self.zone_config.phases[self.phase_index()].shrink_duration as int,
        )
    }

    /// The state is consistent: every player and projectile is, no two
    /// players share a user id, the zone lies inside the world and, while
    /// it shrinks, shrinks to the radius of its current phase.
    pub open spec fn wf(self) -> bool {
        &&& players_wf(self.players)
        &&& distinct_ids(self.players)
        &&& self.players.len() <= self.max_players
        &&& projectiles_wf(self.projectiles)
        &&& zone_wf(self.zone)
        &&& self.zone_config.wf()
        &&& -LIMIT <= self.zone_timer <= LIMIT
        &&& -LIMIT <= self.countdown_remaining <= LIMIT
        &&& self.current_zone_phase <= self.zone_config.phases.len()
        &&& self.is_shrinking ==> {
            &&& self.current_zone_phase < self.zone_config.phases.len()
            &&& self.zone.target_radius
                == self.zone_config.phases[self.phase_index()].target_radius
        }
    }

    /// A match that nobody has joined yet. Its projectiles will be numbered
    /// from the match's id onward.
    pub open spec fn fresh(
        id: u128,
        seed: u64,
        min_players: usize,
        max_players: usize,
        zone_config: ZoneConfig,
    ) -> MatchView {
        MatchView {
            id,
            seed,
            phase: MatchPhase::Waiting,
            tick: 0,
            players: Seq::empty(),
            zone: zone_config.initial_zone(),
            zone_config,
            zone_timer: 0,
            current_zone_phase: 0,
            is_shrinking: false,
            projectiles: Seq::empty(),
            rng: MatchRng { seed, drawn: 0 },
            next_projectile_id: id,
            start_time: None,
            countdown_remaining: COUNTDOWN,
            min_players,
            max_players,
        }
    }
}

impl MatchState {
    /// The state is consistent; see `MatchView::wf`.
    pub open spec fn wf(self) -> bool {
        self@.wf()
    }

    /// A match with the standard zone schedule that nobody has joined yet.
    /// Its random stream is the one of `seed`.
    pub fn new(id: u128, seed: u64, min_players: usize, max_players: usize) -> (state: MatchState)
        ensures
            state@ == MatchView::fresh(id, seed, min_players, max_players, state.zone_config),
            state.zone_config.is_standard(),
            state.wf(),
    {
        let zone_config = ZoneConfig::default();
        let zone = ZoneState {
            center_x: 0,
            center_y: 0,
            radius: zone_config.initial_radius,
            target_center_x: 0,
            target_center_y: 0,
            target_radius: zone_config.initial_radius,
            damage_per_second: zone_config.phases[0].damage_per_second,
            shrink_delay: zone_config.initial_delay,
            phase: 0,
        };
        let players: Vec<PlayerState> = Vec::new();
        assert(players.deep_view() =~= Seq::empty());
        MatchState {
            id,
            seed,
            phase: MatchPhase::Waiting,
            tick: 0,
            players,
            zone,
            zone_config,
            zone_timer: 0,
            current_zone_phase: 0,
            is_shrinking: false,
            projectiles: Vec::new(),
            rng: MatchRng::new(seed),
            next_projectile_id: id,
            start_time: None,
            countdown_remaining: COUNTDOWN,
            min_players,
            max_players,
        }
    }

    /// Draws a place and a heading for a new player, as `(x, y, rotation)`.
    pub fn generate_spawn_position(&mut self) -> (place: (i64, i64, i64))
        requires
            zone_wf(old(self).zone),
        ensures
            (place.0 as int, place.1 as int, place.2 as int) == spawn_place(
                old(self).zone,
                old(self).rng,
            ),
            final(self)@ == (MatchView { rng: old(self).rng.advanced(3), ..old(self)@ }),
            -LIMIT <= place.0 <= LIMIT,
            -LIMIT <= place.1 <= LIMIT,
            0 <= place.2 < TAU,
    {
        let angle: i64 = self.rng.gen_range(0, TAU);
        proof {
            lemma_scaled_bounds(self.zone.radius as int, SPAWN_RADIUS_SHARE as int);
        }
        let distance: i64 = self.rng.gen_range(
            SPAWN_MIN_DISTANCE,
            mul_scaled(self.zone.radius, SPAWN_RADIUS_SHARE),
        );
        let rotation: i64 = self.rng.gen_range(0, TAU);
        proof {
            lemma_cos_bounds(angle as int);
            lemma_sin_bounds(angle as int);
            lemma_scaled_bounds(distance as int, cos_of(angle as int));
            lemma_scaled_bounds(distance as int, sin_of(angle as int));
        }
        let x: i64 = clamp_to(self.zone.center_x + mul_scaled(distance, cos(angle)), -LIMIT, LIMIT);
        let y: i64 = clamp_to(self.zone.center_y + mul_scaled(distance, sin(angle)), -LIMIT, LIMIT);
        (x, y, rotation)
    }

    /// Number of players who are alive.
    pub fn alive_count(&self) -> (n: usize)
        ensures
            n == alive_in(self.players.deep_view()),
    {
        count_alive(&self.players)
    }
}

} // verus!
