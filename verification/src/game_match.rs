//! A match: how it takes its players' messages.

use crate::fixed::{clamp, clamp_to, SCALE};
use crate::ids::{default_display_name, default_name};
use crate::match_state::{
    spawn_place, MatchPhase, MatchState, MatchView, COUNTDOWN, COUNTDOWN_SECONDS,
};
use crate::player::{
    alive_in, find_player, lemma_player_views, lemma_position_from, position, PlayerState,
    PlayerView, TickInput,
};
use crate::protocol::{
    views, ErrorCode, LeaveReason, PlayerInfo, PlayerInfoView, ServerMsg, ServerMsgView,
    ShipType,
};
use crate::snapshot::{SnapshotBuilder, SNAPSHOT_INTERVAL_TICKS};
use vstd::prelude::*;

verus! {

/// A match: its state and the cadence of its snapshots.
#[derive(Debug)]
pub struct GameMatch {
    pub state: MatchState,
    pub snapshot_builder: SnapshotBuilder,
}

/// What a `GameMatch` holds.
pub struct GameMatchView {
    pub state: MatchView,
    pub snapshot_builder: SnapshotBuilder,
}

impl View for GameMatch {
    type V = GameMatchView;

    open spec fn view(&self) -> GameMatchView {
        GameMatchView { state: self.state@, snapshot_builder: self.snapshot_builder }
    }
}

/// The player with the controls of an input message, if the message is
/// newer than the last one taken: throttle and steer are clamped to
/// `[-1, 1]`. A dead player takes no input.
pub open spec fn with_input(
    p: PlayerView,
    seq: u32,
    throttle: i64,
    steer: i64,
    shoot: bool,
    aim_yaw: i64,
) -> PlayerView {
    if p.alive && seq > p.last_input_seq {
        PlayerView {
            last_input_seq: seq,
            current_input: TickInput {
                seq,
                throttle: clamp(throttle as int, -SCALE as int, SCALE as int) as i64,
                steer: clamp(steer as int, -SCALE as int, SCALE as int) as i64,
                shoot,
                aim_yaw,
            },
            ..p
        }
    } else {
        p
    }
}

/// Who the players are, in their order.
pub open spec fn roster_of(players: Seq<PlayerView>) -> Seq<PlayerInfoView> {
    Seq::new(players.len(), |i: int| players[i].info())
}

impl MatchView {
    /// The user is a player of the match.
    pub open spec fn has_player(self, user_id: u128) -> bool {
        position(self.players, user_id).is_some()
    }

    /// The match holds as many players as it admits.
    pub open spec fn is_full(self) -> bool {
        self.players.len() >= self.max_players
    }

    /// A join request of the user is granted: the user is no player yet and
    /// the match is not full.
    pub open spec fn admits(self, user_id: u128) -> bool {
        !self.has_player(user_id) && !self.is_full()
    }

    /// The player that the user becomes by joining at time `now`: spawned
    /// at the place that the random stream gives, under the default name.
    pub open spec fn newcomer(self, user_id: u128, ship_type: ShipType, now: u64) -> PlayerView {
        let place = spawn_place(self.zone, self.rng);
        PlayerView::spawned(
            user_id,
            default_name(user_id),
            ship_type,
            None,
            place.0 as i64,
            place.1 as i64,
            place.2 as i64,
            now,
        )
    }

    /// One more player makes the countdown begin: the match is waiting and
    /// has its minimum of players with the newcomer.
    pub open spec fn join_starts_countdown(self) -> bool {
        self.phase == MatchPhase::Waiting && self.players.len() + 1 >= self.min_players
    }

    /// The state after a join request at time `now`. A request that is
    /// granted adds the newcomer behind the other players and uses three
    /// words of the random stream; it begins the countdown where the match
    /// was waiting for this player. Any other request changes nothing.
    pub open spec fn after_join(self, user_id: u128, ship_type: ShipType, now: u64) -> MatchView {
        if !self.admits(user_id) {
            self
        } else {
            MatchView {
                players: self.players.push(self.newcomer(user_id, ship_type, now)),
                rng: self.rng.advanced(3),
                phase: if self.join_starts_countdown() {
                    MatchPhase::Countdown
                } else {
                    self.phase
                },
                countdown_remaining: if self.join_starts_countdown() {
                    COUNTDOWN
                } else {
                    self.countdown_remaining
                },
                ..self
            }
        }
    }

    /// The messages that answer a join request: nothing to a player of the
    /// match, an error to a user who finds the match full, and otherwise
    /// the newcomer's arrival, the roster with the newcomer and, where it
    /// begins, the countdown.
    pub open spec fn join_messages(self, user_id: u128, ship_type: ShipType, now: u64) -> Seq<
        ServerMsgView,
    > {
        if self.has_player(user_id) {
            Seq::empty()
        } else if self.is_full() {
            seq![ServerMsgView::Error { code: ErrorCode::MatchFull }]
        } else {
            let told = seq![
                ServerMsgView::PlayerJoined {
                    player: self.newcomer(user_id, ship_type, now).info(),
                },
                ServerMsgView::MatchJoined {
                    match_id: self.id,
                    seed: self.seed,
                    players: roster_of(self.after_join(user_id, ship_type, now).players),
                },
            ];
            if self.join_starts_countdown() {
                told.push(ServerMsgView::MatchCountdown { seconds_remaining: COUNTDOWN_SECONDS })
            } else {
                told
            }
        }
    }

    /// The state after an input message of the user.
    pub open spec fn after_input(
        self,
        user_id: u128,
        seq: u32,
        throttle: i64,
        steer: i64,
        shoot: bool,
        aim_yaw: i64,
    ) -> MatchView {
        match position(self.players, user_id) {
            Some(i) => MatchView {
                players: self.players.update(
                    i,
                    with_input(self.players[i], seq, throttle, steer, shoot, aim_yaw),
                ),
                ..self
            },
            None => self,
        }
    }
}

impl GameMatchView {
    /// The match is won or lost: it is in progress and at most one player
    /// is alive.
    pub open spec fn is_decided(self) -> bool {
        self.state.phase == MatchPhase::InProgress && alive_in(self.state.players) <= 1
    }

    /// The match after a look at who is alive: a decided match has ended,
    /// and its next tick is due a snapshot.
    pub open spec fn win_checked(self) -> GameMatchView {
        if self.is_decided() {
            GameMatchView {
                state: MatchView { phase: MatchPhase::Ended, ..self.state },
                snapshot_builder: self.snapshot_builder.forced(),
            }
        } else {
            self
        }
    }

    /// The match after the user has left: the player is gone, the others
    /// keep their order, and the match may be decided by it.
    pub open spec fn after_leave(self, user_id: u128) -> GameMatchView {
        match position(self.state.players, user_id) {
            Some(i) => (GameMatchView {
                state: MatchView { players: self.state.players.remove(i), ..self.state },
                ..self
            }).win_checked(),
            None => self,
        }
    }

    /// The messages that tell of the user's leaving, if the user was a
    /// player.
    pub open spec fn leave_messages(self, user_id: u128) -> Seq<ServerMsgView> {
        if self.state.has_player(user_id) {
            seq![ServerMsgView::PlayerLeft { user_id, reason: LeaveReason::Disconnected }]
        } else {
            Seq::empty()
        }
    }
}

/// Who the players are, in their order.
pub fn roster(players: &Vec<PlayerState>) -> (infos: Vec<PlayerInfo>)
    ensures
        infos.deep_view() == roster_of(players.deep_view()),
{
    let mut infos: Vec<PlayerInfo> = Vec::new();
    let mut i: usize = 0;
    while i < players.len()
        invariant
            i <= players.len(),
            infos.len() == i,
            forall|k: int| 0 <= k < i ==> (#[trigger] infos@[k])@ == players@[k]@.info(),
        decreases players.len() - i,
    {
        infos.push(players[i].to_info());
        i += 1;
    }
    proof {
        lemma_player_views(players);
        assert(infos.deep_view() =~= roster_of(players.deep_view()));
    }
    infos
}

impl GameMatch {
    /// The match is consistent; see `MatchView::wf`.
    pub open spec fn wf(self) -> bool {
        self.state.wf()
    }

    /// A match that nobody has joined yet, with the standard zone schedule
    /// and a snapshot every `SNAPSHOT_INTERVAL_TICKS` ticks.
    pub fn new(id: u128, seed: u64, min_players: usize, max_players: usize) -> (game: GameMatch)
        ensures
            game@.state == MatchView::fresh(
                id,
                seed,
                min_players,
                max_players,
                game.state.zone_config,
            ),
            game.state.zone_config.is_standard(),
            game.snapshot_builder == (SnapshotBuilder {
                ticks_since_snapshot: 0,
                snapshot_interval: SNAPSHOT_INTERVAL_TICKS,
            }),
            game.wf(),
    {
        GameMatch {
            state: MatchState::new(id, seed, min_players, max_players),
            snapshot_builder: SnapshotBuilder::new(SNAPSHOT_INTERVAL_TICKS),
        }
    }

    /// Number of players in the match.
    pub fn player_count(&self) -> (n: usize)
        ensures
            n == self@.state.players.len(),
    {
        self.state.players.len()
    }

    /// Takes a join request of the user at time `now` and returns the
    /// messages that answer it.
    pub fn handle_join(&mut self, user_id: u128, ship_type: ShipType, now: u64) -> (msgs: Vec<ServerMsg>)
        requires
            old(self).wf(),
        ensures
            final(self)@.state == old(self)@.state.after_join(user_id, ship_type, now),
            final(self).snapshot_builder == old(self).snapshot_builder,
            views(msgs@) == old(self)@.state.join_messages(user_id, ship_type, now),
            final(self).state.players.len() <= old(self).state.players.len() + 1,
            final(self).state.tick == old(self).state.tick,
            final(self).wf(),
    {
        let mut msgs: Vec<ServerMsg> = Vec::new();
        let ghost before = self@.state;
        if find_player(&self.state.players, user_id).is_some() {
            assert(views(msgs@) =~= Seq::empty());
            return msgs;
        }
        if self.state.players.len() >= self.state.max_players {
            msgs.push(ServerMsg::Error { code: ErrorCode::MatchFull });
            assert(views(msgs@) =~= seq![ServerMsgView::Error { code: ErrorCode::MatchFull }]);
            return msgs;
        }
        let (spawn_x, spawn_y, spawn_rotation) = self.state.generate_spawn_position();
        let player = PlayerState::at(
            user_id,
            default_display_name(user_id),
            ship_type,
            None,
            spawn_x,
            spawn_y,
            spawn_rotation,
            now,
        );
        let info = player.to_info();
        proof {
            lemma_player_views(&self.state.players);
            lemma_position_from(before.players, user_id, 0);
        }
        self.state.players.push(player);
        proof {
            lemma_player_views(&self.state.players);
            assert(self.state.players.deep_view() =~= before.players.push(
                before.newcomer(user_id, ship_type, now),
            ));
        }
        msgs.push(ServerMsg::PlayerJoined { player: info });
        msgs.push(
            ServerMsg::MatchJoined {
                match_id: self.state.id,
                seed: self.state.seed,
                players: roster(&self.state.players),
            },
        );
        let starts = match self.state.phase {
            MatchPhase::Waiting => self.state.players.len() >= self.state.min_players,
            _ => false,
        };
        if starts {
            self.state.phase = MatchPhase::Countdown;
            self.state.countdown_remaining = COUNTDOWN;
            msgs.push(ServerMsg::MatchCountdown { seconds_remaining: COUNTDOWN_SECONDS });
        }
        proof {
            assert(views(msgs@) =~= before.join_messages(user_id, ship_type, now));
        }
        msgs
    }

    /// Takes an input message of the user.
    pub fn handle_input(
        &mut self,
        user_id: u128,
        seq: u32,
        throttle: i64,
        steer: i64,
        shoot: bool,
        aim_yaw: i64,
    )
        requires
            old(self).wf(),
        ensures
            final(self)@.state == old(self)@.state.after_input(
                user_id,
                seq,
                throttle,
                steer,
                shoot,
                aim_yaw,
            ),
            final(self).snapshot_builder == old(self).snapshot_builder,
            final(self).state.players.len() == old(self).state.players.len(),
            final(self).state.tick == old(self).state.tick,
            final(self).wf(),
    {
        let ghost before = self@.state;
        proof {
            lemma_player_views(&self.state.players);
        }
        match find_player(&self.state.players, user_id) {
            Some(i) => {
                if self.state.players[i].alive && seq > self.state.players[i].last_input_seq {
                    self.state.players[i].last_input_seq = seq;
                    self.state.players[i].current_input = TickInput {
                        seq,
                        throttle: clamp_to(throttle, -SCALE, SCALE),
                        steer: clamp_to(steer, -SCALE, SCALE),
                        shoot,
                        aim_yaw,
                    };
                }
                proof {
                    lemma_player_views(&self.state.players);
                    assert(before.players[i as int].wf());
                    assert(self.state.players.deep_view() =~= before.players.update(
                        i as int,
                        with_input(before.players[i as int], seq, throttle, steer, shoot, aim_yaw),
                    ));
                }
            },
            None => {},
        }
    }

    /// Ends a match in progress in which at most one player is alive, and
    /// makes its next tick due a snapshot.
    pub fn check_win_condition(&mut self)
        ensures
            final(self)@ == old(self)@.win_checked(),
            final(self).state.players.len() == old(self).state.players.len(),
            final(self).state.tick == old(self).state.tick,
            old(self).wf() ==> final(self).wf(),
    {
        match self.state.phase {
            MatchPhase::InProgress => {
                if self.state.alive_count() <= 1 {
                    self.state.phase = MatchPhase::Ended;
                    self.snapshot_builder.force_next();
                }
            },
            _ => {},
        }
    }

    /// Takes the user out of the match and returns the message that tells
    /// of it; nothing happens where the user is no player.
    pub fn handle_leave(&mut self, user_id: u128) -> (msgs: Vec<ServerMsg>)
        requires
            old(self).wf(),
        ensures
            final(self)@ == old(self)@.after_leave(user_id),
            views(msgs@) == old(self)@.leave_messages(user_id),
            final(self).state.players.len() <= old(self).state.players.len(),
            final(self).state.tick == old(self).state.tick,
            final(self).wf(),
    {
        let mut msgs: Vec<ServerMsg> = Vec::new();
        let ghost before = self@.state;
        proof {
            lemma_player_views(&self.state.players);
        }
        match find_player(&self.state.players, user_id) {
            Some(i) => {
                let _gone = self.state.players.remove(i);
                proof {
                    lemma_player_views(&self.state.players);
                    assert(self.state.players.deep_view() =~= before.players.remove(i as int));
                }
                msgs.push(
                    ServerMsg::PlayerLeft { user_id, reason: LeaveReason::Disconnected },
                );
                self.check_win_condition();
                proof {
                    assert(views(msgs@) =~= seq![
                        ServerMsgView::PlayerLeft { user_id, reason: LeaveReason::Disconnected },
                    ]);
                }
            },
            None => {
                assert(views(msgs@) =~= Seq::empty());
            },
        }
        msgs
    }
}

} // verus!
