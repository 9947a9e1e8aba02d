//! A player inside a match.

use crate::fixed::{LIMIT, SCALE};
use crate::physics::ShipStats;
use crate::protocol::{ClientMsg, PlayerInfo, PlayerInfoView, PlayerSnapshot, ShipType};
use crate::time::unix_millis;
use vstd::prelude::*;

verus! {

/// A message from a client, with its sender and the time it arrived.
#[derive(Debug, Clone, Copy, PartialEq, Eq, Structural)]
pub struct PlayerInput {
    pub user_id: u128,
    pub msg: ClientMsg,
    pub received_at: u64,
}

/// The controls that a ship obeys until the next accepted input.
#[derive(Debug, Clone, Copy, PartialEq, Eq, Structural)]
pub struct TickInput {
    pub seq: u32,
    pub throttle: i64,
    pub steer: i64,
    pub shoot: bool,
    pub aim_yaw: i64,
}

impl TickInput {
    /// Controls at rest.
    pub open spec fn idle() -> TickInput {
        TickInput { seq: 0, throttle: 0, steer: 0, shoot: false, aim_yaw: 0 }
    }
}

impl Default for TickInput {
    fn default() -> (input: TickInput)
        ensures
            input == TickInput::idle(),
    {
        TickInput { seq: 0, throttle: 0, steer: 0, shoot: false, aim_yaw: 0 }
    }
}

/// The authoritative state of one player.
#[derive(Debug, Clone)]
pub struct PlayerState {
    pub user_id: u128,
    pub display_name: String,
    pub ship_type: ShipType,
    pub flag_skin_id: Option<u128>,
    pub x: i64,
    pub y: i64,
    pub rotation: i64,
    pub vel_x: i64,
    pub vel_y: i64,
    pub health: i64,
    pub alive: bool,
    pub weapon_cooldown: i64,
    pub last_input_seq: u32,
    pub current_input: TickInput,
    pub kills: u32,
    pub damage_dealt: i64,
    pub damage_taken: i64,
    pub shots_fired: u32,
    pub shots_hit: u32,
    /// Wall-clock time of the spawn, in milliseconds.
    pub spawn_time: u64,
    /// Wall-clock time of the death, in milliseconds.
    pub death_time: Option<u64>,
}

/// What a `PlayerState` holds.
pub struct PlayerView {
    pub user_id: u128,
    pub display_name: Seq<char>,
    pub ship_type: ShipType,
    pub flag_skin_id: Option<u128>,
    pub x: i64,
    pub y: i64,
    pub rotation: i64,
    pub vel_x: i64,
    pub vel_y: i64,
    pub health: i64,
    pub alive: bool,
    pub weapon_cooldown: i64,
    pub last_input_seq: u32,
    pub current_input: TickInput,
    pub kills: u32,
    pub damage_dealt: i64,
    pub damage_taken: i64,
    pub shots_fired: u32,
    pub shots_hit: u32,
    pub spawn_time: u64,
    pub death_time: Option<u64>,
}

impl View for PlayerState {
    type V = PlayerView;

    open spec fn view(&self) -> PlayerView {
        PlayerView {
            user_id: self.user_id,
            display_name: self.display_name@,
            ship_type: self.ship_type,
            flag_skin_id: self.flag_skin_id,
            x: self.x,
            y: self.y,
            rotation: self.rotation,
            vel_x: self.vel_x,
            vel_y: self.vel_y,
            health: self.health,
            alive: self.alive,
            weapon_cooldown: self.weapon_cooldown,
            last_input_seq: self.last_input_seq,
            current_input: self.current_input,
            kills: self.kills,
            damage_dealt: self.damage_dealt,
            damage_taken: self.damage_taken,
            shots_fired: self.shots_fired,
            shots_hit: self.shots_hit,
            spawn_time: self.spawn_time,
            death_time: self.death_time,
        }
    }
}

impl DeepView for PlayerState {
    type V = PlayerView;

    open spec fn deep_view(&self) -> PlayerView {
        self@
    }
}

impl PlayerView {
    /// The stats of the player's ship.
    pub open spec fn stats(self) -> ShipStats {
        ShipStats::of(self.ship_type)
    }

    /// The player's state is consistent: the ship is inside the world and
    /// no faster than its class allows, its health is between zero and the
    /// class's maximum, and it is alive exactly while it has health left.
    pub open spec fn wf(self) -> bool {
        &&& -LIMIT <= self.x <= LIMIT
        &&& -LIMIT <= self.y <= LIMIT
        &&& self.vel_x * self.vel_x + self.vel_y * self.vel_y <= self.stats().max_speed
            * self.stats().max_speed
        &&& -self.stats().max_speed <= self.vel_x <= self.stats().max_speed
        &&& -self.stats().max_speed <= self.vel_y <= self.stats().max_speed
        &&& 0 <= self.health <= self.stats().max_health
        &&& self.alive <==> self.health > 0
        &&& 0 <= self.weapon_cooldown <= LIMIT
        &&& -SCALE <= self.current_input.throttle <= SCALE
        &&& -SCALE <= self.current_input.steer <= SCALE
        &&& self.damage_dealt >= 0
        &&& self.damage_taken >= 0
    }

    /// A player who spawns at time `now`: at rest, at full health, with a
    /// ready weapon and no input yet.
    pub open spec fn spawned(
        user_id: u128,
        display_name: Seq<char>,
        ship_type: ShipType,
        flag_skin_id: Option<u128>,
        spawn_x: i64,
        spawn_y: i64,
        spawn_rotation: i64,
        now: u64,
    ) -> PlayerView {
        PlayerView {
            user_id,
            display_name,
            ship_type,
            flag_skin_id,
            x: spawn_x,
            y: spawn_y,
            rotation: spawn_rotation,
            vel_x: 0,
            vel_y: 0,
            health: ShipStats::of(ship_type).max_health,
            alive: true,
            weapon_cooldown: 0,
            last_input_seq: 0,
            current_input: TickInput::idle(),
            kills: 0,
            damage_dealt: 0,
            damage_taken: 0,
            shots_fired: 0,
            shots_hit: 0,
            spawn_time: now,
            death_time: None,
        }
    }

    /// What a snapshot tells of the player.
    pub open spec fn snapshot(self) -> PlayerSnapshot {
        PlayerSnapshot {
            user_id: self.user_id,
            x: self.x,
            y: self.y,
            rotation: self.rotation,
            vel_x: self.vel_x,
            vel_y: self.vel_y,
            health: self.health,
            alive: self.alive,
            last_input_seq: self.last_input_seq,
            weapon_cooldown: self.weapon_cooldown,
        }
    }

    /// Who the player is, as told to the other players.
    pub open spec fn info(self) -> PlayerInfoView {
        PlayerInfoView {
            user_id: self.user_id,
            display_name: self.display_name,
            ship_type: self.ship_type,
            flag_skin_id: self.flag_skin_id,
        }
    }
}

impl PlayerState {
    /// The player's state is consistent; see `PlayerView::wf`.
    pub open spec fn wf(self) -> bool {
        self@.wf()
    }

    /// A player who spawns now, by the wall clock.
    pub fn new(
        user_id: u128,
        display_name: String,
        ship_type: ShipType,
        flag_skin_id: Option<u128>,
        spawn_x: i64,
        spawn_y: i64,
        spawn_rotation: i64,
    ) -> (p: PlayerState)
        requires
            -LIMIT <= spawn_x <= LIMIT,
            -LIMIT <= spawn_y <= LIMIT,
        ensures
            p@ == PlayerView::spawned(
                user_id,
                display_name@,
                ship_type,
                flag_skin_id,
                spawn_x,
                spawn_y,
                spawn_rotation,
                p.spawn_time,
            ),
            p.wf(),
    {
        PlayerState::at(
            user_id,
            display_name,
            ship_type,
            flag_skin_id,
            spawn_x,
            spawn_y,
            spawn_rotation,
            unix_millis(),
        )
    }

    /// A player who spawns at time `now`.
    pub fn at(
        user_id: u128,
        display_name: String,
        ship_type: ShipType,
        flag_skin_id: Option<u128>,
        spawn_x: i64,
        spawn_y: i64,
        spawn_rotation: i64,
        now: u64,
    ) -> (p: PlayerState)
        requires
            -LIMIT <= spawn_x <= LIMIT,
            -LIMIT <= spawn_y <= LIMIT,
        ensures
            p@ == PlayerView::spawned(
                user_id,
                display_name@,
                ship_type,
                flag_skin_id,
                spawn_x,
                spawn_y,
                spawn_rotation,
                now,
            ),
            p.wf(),
    {
        let stats = ShipStats::for_type(ship_type);
        PlayerState {
            user_id,
            display_name,
            ship_type,
            flag_skin_id,
            x: spawn_x,
            y: spawn_y,
            rotation: spawn_rotation,
            vel_x: 0,
            vel_y: 0,
            health: stats.max_health,
            alive: true,
            weapon_cooldown: 0,
            last_input_seq: 0,
            current_input: TickInput::default(),
            kills: 0,
            damage_dealt: 0,
            damage_taken: 0,
            shots_fired: 0,
            shots_hit: 0,
            spawn_time: now,
            death_time: None,
        }
    }

    /// What a snapshot tells of the player.
    pub fn to_snapshot(&self) -> (s: PlayerSnapshot)
        ensures
            s == self@.snapshot(),
    {
        PlayerSnapshot {
            user_id: self.user_id,
            x: self.x,
            y: self.y,
            rotation: self.rotation,
            vel_x: self.vel_x,
            vel_y: self.vel_y,
            health: self.health,
            alive: self.alive,
            last_input_seq: self.last_input_seq,
            weapon_cooldown: self.weapon_cooldown,
        }
    }

    /// Who the player is, as told to the other players.
    pub fn to_info(&self) -> (info: PlayerInfo)
        ensures
            info@ == self@.info(),
    {
        PlayerInfo {
            user_id: self.user_id,
            display_name: self.display_name.clone(),
            ship_type: self.ship_type,
            flag_skin_id: self.flag_skin_id,
        }
    }
}

/// The first place at or after `from` where a player `user_id` stands in
/// `players`.
pub open spec fn position_from(players: Seq<PlayerView>, user_id: u128, from: int) -> Option<int>
    decreases players.len() - from,
{
    if from < 0 || from >= players.len() {
        None
    } else if players[from].user_id == user_id {
        Some(from)
    } else {
        position_from(players, user_id, from + 1)
    }
}

/// The place of the player `user_id` in `players`.
pub open spec fn position(players: Seq<PlayerView>, user_id: u128) -> Option<int> {
    position_from(players, user_id, 0)
}

/// No two players share a user id.
pub open spec fn distinct_ids(players: Seq<PlayerView>) -> bool {
    forall|i: int, j: int|
        0 <= i < j < players.len() ==> #[trigger] players[i].user_id != #[trigger] players[j].user_id
}

/// Both sequences hold the same users in the same places.
pub open spec fn same_users(a: Seq<PlayerView>, b: Seq<PlayerView>) -> bool {
    &&& a.len() == b.len()
    &&& forall|i: int| 0 <= i < a.len() ==> #[trigger] a[i].user_id == b[i].user_id
}

/// Both sequences hold the same users in the same places, and each user has
/// taken the same input in both.
pub open spec fn same_inputs(a: Seq<PlayerView>, b: Seq<PlayerView>) -> bool {
    &&& a.len() == b.len()
    &&& forall|i: int|
        0 <= i < a.len() ==> {
            &&& (#[trigger] a[i]).user_id == b[i].user_id
            &&& a[i].last_input_seq == b[i].last_input_seq
            &&& a[i].current_input == b[i].current_input
        }
}

/// Number of players in `players` who are alive.
pub open spec fn alive_in(players: Seq<PlayerView>) -> nat
    decreases players.len(),
{
    if players.len() == 0 {
        0
    } else {
        alive_in(players.drop_last()) + if players.last().alive {
            1nat
        } else {
            0nat
        }
    }
}

/// `position_from` finds the first player with the user id, if there is
/// one.
pub proof fn lemma_position_from(players: Seq<PlayerView>, user_id: u128, from: int)
    requires
        0 <= from,
    ensures
        match position_from(players, user_id, from) {
            Some(i) => from <= i < players.len() && players[i].user_id == user_id && forall|j: int|
                from <= j < i ==> players[j].user_id != user_id,
            None => forall|j: int| from <= j < players.len() ==> players[j].user_id != user_id,
        },
    decreases players.len() - from,
{
    if from < players.len() && players[from].user_id != user_id {
        lemma_position_from(players, user_id, from + 1);
    }
}

/// Where users stand depends on the user ids alone.
pub proof fn lemma_position_same_users(a: Seq<PlayerView>, b: Seq<PlayerView>, user_id: u128, from: int)
    requires
        same_users(a, b),
        0 <= from,
    ensures
        position_from(a, user_id, from) == position_from(b, user_id, from),
    decreases a.len() - from,
{
    if from < a.len() && a[from].user_id != user_id {
        lemma_position_same_users(a, b, user_id, from + 1);
    }
}

/// A list's deep view holds the view of each of its players.
pub proof fn lemma_player_views(players: &Vec<PlayerState>)
    ensures
        players.deep_view().len() == players.len(),
        forall|j: int|
            0 <= j < players.len() ==> #[trigger] players.deep_view()[j] == players@[j]@,
        forall|j: int|
            0 <= j < players.len() ==> (#[trigger] players@[j])@ == players.deep_view()[j],
{
}

/// Finds the place of the player `user_id`.
pub fn find_player(players: &Vec<PlayerState>, user_id: u128) -> (found: Option<usize>)
    ensures
        match found {
            Some(i) => position(players.deep_view(), user_id) == Some(i as int) && i < players.len()
                && players@[i as int].user_id == user_id,
            None => position(players.deep_view(), user_id).is_none(),
        },
        found.is_none() ==> forall|j: int|
            0 <= j < players.len() ==> (#[trigger] players@[j]).user_id != user_id,
{
    let mut i: usize = 0;
    proof {
        lemma_player_views(players);
    }
    while i < players.len()
        invariant
            i <= players.len(),
            position(players.deep_view(), user_id) == position_from(
                players.deep_view(),
                user_id,
                i as int,
            ),
            forall|j: int| 0 <= j < i ==> (#[trigger] players@[j]).user_id != user_id,
            forall|j: int|
                0 <= j < players.len() ==> #[trigger] players.deep_view()[j] == players@[j]@,
        decreases players.len() - i,
    {
        if players[i].user_id == user_id {
            return Some(i);
        }
        i += 1;
    }
    None
}

/// Counts the players who are alive.
pub fn count_alive(players: &Vec<PlayerState>) -> (n: usize)
    ensures
        n == alive_in(players.deep_view()),
{
    let mut n: usize = 0;
    let mut i: usize = 0;
    while i < players.len()
        invariant
            i <= players.len(),
            n == alive_in(players.deep_view().take(i as int)),
            n <= i,
        decreases players.len() - i,
    {
        proof {
            lemma_player_views(players);
            assert(players.deep_view().take(i + 1).drop_last() == players.deep_view().take(i as int));
        }
        if players[i].alive {
            n += 1;
        }
        i += 1;
    }
    proof {
        assert(players.deep_view().take(players.len() as int) == players.deep_view());
    }
    n
}

} // verus!
