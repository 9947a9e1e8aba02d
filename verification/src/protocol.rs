//! Messages exchanged between clients and the server, in their typed form.
//!
//! Identifiers are 128-bit numbers and every measured quantity is a
//! fixed-point number (see [`crate::fixed`]). The transport encodes these
//! values; this module fixes what each message carries.

use crate::fixed::SCALE;
use vstd::prelude::*;

verus! {

/// The four ship classes.
#[derive(Debug, Clone, Copy, PartialEq, Eq, Structural)]
pub enum ShipType {
    /// Fast but fragile.
    Scout,
    /// Balanced.
    Fighter,
    /// Slow but sturdy.
    Cruiser,
    /// High damage, low mobility.
    Destroyer,
}

impl Default for ShipType {
    fn default() -> (r: Self)
        ensures
            r == ShipType::Fighter,
    {
        ShipType::Fighter
    }
}

impl ShipType {
    /// The class's name on the wire.
    pub open spec fn wire_name(self) -> Seq<char> {
        match self {
            ShipType::Scout => "scout"@,
            ShipType::Fighter => "fighter"@,
            ShipType::Cruiser => "cruiser"@,
            ShipType::Destroyer => "destroyer"@,
        }
    }

    /// The class's name on the wire.
    pub fn as_str(&self) -> (s: &'static str)
        ensures
            s@ == self.wire_name(),
    {
        match self {
            ShipType::Scout => "scout",
            ShipType::Fighter => "fighter",
            ShipType::Cruiser => "cruiser",
            ShipType::Destroyer => "destroyer",
        }
    }
}

/// Why a player died.
#[derive(Debug, Clone, Copy, PartialEq, Eq, Structural)]
pub enum KillCause {
    /// Hit by a projectile.
    Shot,
    /// Standing outside the zone.
    Zone,
}

impl KillCause {
    /// The cause's name on the wire.
    pub open spec fn wire_name(self) -> Seq<char> {
        match self {
            KillCause::Shot => "shot"@,
            KillCause::Zone => "zone"@,
        }
    }

    /// The cause's name on the wire.
    pub fn as_str(&self) -> (s: &'static str)
        ensures
            s@ == self.wire_name(),
    {
        match self {
            KillCause::Shot => "shot",
            KillCause::Zone => "zone",
        }
    }
}

/// Why a player is no longer part of a match.
#[derive(Debug, Clone, Copy, PartialEq, Eq, Structural)]
pub enum LeaveReason {
    /// The player's connection ended.
    Disconnected,
}

impl LeaveReason {
    /// The reason's name on the wire.
    pub open spec fn wire_name(self) -> Seq<char> {
        "disconnected"@
    }

    /// The reason's name on the wire.
    pub fn as_str(&self) -> (s: &'static str)
        ensures
            s@ == self.wire_name(),
    {
        "disconnected"
    }
}

/// What a match may refuse.
#[derive(Debug, Clone, Copy, PartialEq, Eq, Structural)]
pub enum ErrorCode {
    /// The match already holds as many players as it admits.
    MatchFull,
}

impl ErrorCode {
    /// The code on the wire.
    pub open spec fn wire_code(self) -> Seq<char> {
        "match_full"@
    }

    /// The text that accompanies the code.
    pub open spec fn wire_message(self) -> Seq<char> {
        "Match is full"@
    }

    /// The code on the wire.
    pub fn code(&self) -> (s: &'static str)
        ensures
            s@ == self.wire_code(),
    {
        "match_full"
    }

    /// The text that accompanies the code.
    pub fn message(&self) -> (s: &'static str)
        ensures
            s@ == self.wire_message(),
    {
        "Match is full"
    }
}

/// A message from a client.
#[derive(Debug, Clone, Copy, PartialEq, Eq, Structural)]
pub enum ClientMsg {
    /// Asks to take part in a match.
    JoinMatch { match_id: Option<u128>, ship_type: ShipType },
    /// The player's controls for the coming ticks.
    InputTick { seq: u32, throttle: i64, steer: i64, shoot: bool, aim_yaw: i64 },
    /// Latency probe; `t` is the client's own time stamp.
    Ping { t: u64 },
    /// Leaves the current match.
    LeaveMatch,
}

/// Who a player is, as told to the other players.
#[derive(Debug, Clone)]
pub struct PlayerInfo {
    pub user_id: u128,
    pub display_name: String,
    pub ship_type: ShipType,
    pub flag_skin_id: Option<u128>,
}

/// The playable disc and the disc it is shrinking to.
#[derive(Debug, Clone, Copy, PartialEq, Eq, Structural)]
pub struct ZoneState {
    pub center_x: i64,
    pub center_y: i64,
    pub radius: i64,
    pub target_center_x: i64,
    pub target_center_y: i64,
    pub target_radius: i64,
    pub damage_per_second: i64,
    /// Time left on the zone's timer.
    pub shrink_delay: i64,
    pub phase: u32,
}

impl Default for ZoneState {
    fn default() -> (z: Self)
        ensures
            z.center_x == 0 && z.center_y == 0,
            z.target_center_x == 0 && z.target_center_y == 0,
            z.radius == 1000 * SCALE && z.target_radius == 1000 * SCALE,
            z.damage_per_second == 5 * SCALE,
            z.shrink_delay == 60 * SCALE,
            z.phase == 0,
    {
        ZoneState {
            center_x: 0,
            center_y: 0,
            radius: 1000 * SCALE,
            target_center_x: 0,
            target_center_y: 0,
            target_radius: 1000 * SCALE,
            damage_per_second: 5 * SCALE,
            shrink_delay: 60 * SCALE,
            phase: 0,
        }
    }
}

/// One player's state in a snapshot.
#[derive(Debug, Clone, Copy, PartialEq, Eq, Structural)]
pub struct PlayerSnapshot {
    pub user_id: u128,
    pub x: i64,
    pub y: i64,
    pub rotation: i64,
    pub vel_x: i64,
    pub vel_y: i64,
    pub health: i64,
    pub alive: bool,
    pub last_input_seq: u32,
    pub weapon_cooldown: i64,
}

/// Something that happened during a tick.
#[derive(Debug, Clone, Copy, PartialEq, Eq, Structural)]
pub enum GameEvent {
    /// A projectile was fired.
    Shot { shooter_id: u128, projectile_id: u128, x: i64, y: i64, direction: i64, speed: i64 },
    /// A projectile struck a ship.
    Hit { shooter_id: u128, target_id: u128, damage: i64, x: i64, y: i64 },
    /// A player died.
    Kill { killer_id: Option<u128>, victim_id: u128, cause: KillCause },
    /// The zone hurt a player.
    ZoneDamage { user_id: u128, damage: i64 },
    /// The zone began to shrink toward a new disc.
    ZoneShrink { phase: u32, new_center_x: i64, new_center_y: i64, new_radius: i64 },
}

/// One player's record at the end of a match.
#[derive(Debug, Clone, Copy, PartialEq, Eq, Structural)]
pub struct PlayerMatchStats {
    pub user_id: u128,
    pub kills: u32,
    pub damage_dealt: i64,
    pub damage_taken: i64,
    pub shots_fired: u32,
    pub shots_hit: u32,
    pub placement: u32,
    pub alive_time_secs: u32,
}

/// The record of a finished match.
#[derive(Debug, Clone)]
pub struct MatchStats {
    pub duration_secs: u32,
    pub total_players: u32,
    pub player_stats: Vec<PlayerMatchStats>,
}

/// A message from the server.
#[allow(inconsistent_fields)]
#[derive(Debug, Clone)]
pub enum ServerMsg {
    /// Greets a connection.
    Welcome { user_id: u128, server_time: u64 },
    /// Tells who is in the match that a player has joined.
    MatchJoined { match_id: u128, seed: u64, players: Vec<PlayerInfo> },
    /// A player joined the match.
    PlayerJoined { player: PlayerInfo },
    /// A player left the match.
    PlayerLeft { user_id: u128, reason: LeaveReason },
    /// The authoritative state after a tick.
    Snapshot { tick: u64, zone: ZoneState, players: Vec<PlayerSnapshot>, events: Vec<GameEvent> },
    /// The match is about to start.
    MatchCountdown { seconds_remaining: u32 },
    /// The match has started.
    MatchStarted { tick: u64 },
    /// The match is over.
    MatchEnd { winner_user_id: Option<u128>, stats: MatchStats },
    /// A request was refused.
    Error { code: ErrorCode },
    /// Answer to a ping, with the client's time stamp.
    Pong { t: u64 },
}

/// What a `PlayerInfo` holds.
pub struct PlayerInfoView {
    pub user_id: u128,
    pub display_name: Seq<char>,
    pub ship_type: ShipType,
    pub flag_skin_id: Option<u128>,
}

impl View for PlayerInfo {
    type V = PlayerInfoView;

    open spec fn view(&self) -> PlayerInfoView {
        PlayerInfoView {
            user_id: self.user_id,
            display_name: self.display_name@,
            ship_type: self.ship_type,
            flag_skin_id: self.flag_skin_id,
        }
    }
}

impl DeepView for PlayerInfo {
    type V = PlayerInfoView;

    open spec fn deep_view(&self) -> PlayerInfoView {
        self@
    }
}

/// What a `MatchStats` holds.
pub struct MatchStatsView {
    pub duration_secs: u32,
    pub total_players: u32,
    pub player_stats: Seq<PlayerMatchStats>,
}

impl View for MatchStats {
    type V = MatchStatsView;

    open spec fn view(&self) -> MatchStatsView {
        MatchStatsView {
            duration_secs: self.duration_secs,
            total_players: self.total_players,
            player_stats: self.player_stats@,
        }
    }
}

/// What a `ServerMsg` holds.
#[allow(inconsistent_fields)]
pub enum ServerMsgView {
    Welcome { user_id: u128, server_time: u64 },
    MatchJoined { match_id: u128, seed: u64, players: Seq<PlayerInfoView> },
    PlayerJoined { player: PlayerInfoView },
    PlayerLeft { user_id: u128, reason: LeaveReason },
    Snapshot { tick: u64, zone: ZoneState, players: Seq<PlayerSnapshot>, events: Seq<GameEvent> },
    MatchCountdown { seconds_remaining: u32 },
    MatchStarted { tick: u64 },
    MatchEnd { winner_user_id: Option<u128>, stats: MatchStatsView },
    Error { code: ErrorCode },
    Pong { t: u64 },
}

impl View for ServerMsg {
    type V = ServerMsgView;

    open spec fn view(&self) -> ServerMsgView {
        match *self {
            ServerMsg::Welcome { user_id, server_time } => ServerMsgView::Welcome {
                user_id,
                server_time,
            },
            ServerMsg::MatchJoined { match_id, seed, players } => ServerMsgView::MatchJoined {
                match_id,
                seed,
                players: players.deep_view(),
            },
            ServerMsg::PlayerJoined { player } => ServerMsgView::PlayerJoined { player: player@ },
            ServerMsg::PlayerLeft { user_id, reason } => ServerMsgView::PlayerLeft {
                user_id,
                reason,
            },
            ServerMsg::Snapshot { tick, zone, players, events } => ServerMsgView::Snapshot {
                tick,
                zone,
                players: players@,
                events: events@,
            },
            ServerMsg::MatchCountdown { seconds_remaining } => ServerMsgView::MatchCountdown {
                seconds_remaining,
            },
            ServerMsg::MatchStarted { tick } => ServerMsgView::MatchStarted { tick },
            ServerMsg::MatchEnd { winner_user_id, stats } => ServerMsgView::MatchEnd {
                winner_user_id,
                stats: stats@,
            },
            ServerMsg::Error { code } => ServerMsgView::Error { code },
            ServerMsg::Pong { t } => ServerMsgView::Pong { t },
        }
    }
}

/// What each message of a list holds.
pub open spec fn views(msgs: Seq<ServerMsg>) -> Seq<ServerMsgView> {
    Seq::new(msgs.len(), |i: int| msgs[i]@)
}

} // verus!
