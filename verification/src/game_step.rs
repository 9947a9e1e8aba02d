//! A match: one turn of its loop, from the messages that came in to the
//! messages that go out.

use crate::game_match::{GameMatch, GameMatchView};
use crate::match_state::{MatchPhase, MatchView};
use crate::player::{lemma_player_views, PlayerInput, PlayerView};
use crate::protocol::{
    views, ClientMsg, MatchStats, MatchStatsView, PlayerMatchStats, ServerMsg, ServerMsgView,
};
use crate::snapshot::snapshots_of;
use crate::time::unix_millis;
use vstd::prelude::*;

verus! {

/// Whole seconds from `from` to `to`, both in milliseconds, as kept in 32
/// bits; zero where `to` is the earlier.
pub open spec fn seconds_between(from: u64, to: u64) -> u32 {
    if to >= from {
        (((to - from) as u64) / 1000) as u32
    } else {
        0
    }
}

/// A player's record at the end of a match that lasted `duration` seconds,
/// not yet placed. A player who died was alive from spawn to death, and a
/// survivor for the whole match.
pub open spec fn record_of(p: PlayerView, duration: u32) -> PlayerMatchStats {
    PlayerMatchStats {
        user_id: p.user_id,
        kills: p.kills,
        damage_dealt: p.damage_dealt,
        damage_taken: p.damage_taken,
        shots_fired: p.shots_fired,
        shots_hit: p.shots_hit,
        placement: 0,
        alive_time_secs: match p.death_time {
            Some(died) => seconds_between(p.spawn_time, died),
            None => duration,
        },
    }
}

/// The first place at or after `from` whose record was alive for less than
/// `secs` seconds; the length of `records` if there is none.
pub open spec fn slot_from(records: Seq<PlayerMatchStats>, secs: u32, from: int) -> int
    decreases records.len() - from,
{
    if from < 0 || from >= records.len() {
        records.len() as int
    } else if records[from].alive_time_secs < secs {
        from
    } else {
        slot_from(records, secs, from + 1)
    }
}

/// The records ordered by the time alive, longest first; records with equal
/// times keep their order.
pub open spec fn ranked(records: Seq<PlayerMatchStats>) -> Seq<PlayerMatchStats>
    decreases records.len(),
{
    if records.len() == 0 {
        Seq::empty()
    } else {
        let before = ranked(records.drop_last());
        before.insert(slot_from(before, records.last().alive_time_secs, 0), records.last())
    }
}

/// The records, each with its place in the list as its placement, counted
/// from 1.
pub open spec fn with_placements(records: Seq<PlayerMatchStats>) -> Seq<PlayerMatchStats> {
    Seq::new(
        records.len(),
        |k: int| PlayerMatchStats { placement: (k + 1) as u32, ..records[k] },
    )
}

/// The unplaced records of the players, in the players' order.
pub open spec fn records_of(players: Seq<PlayerView>, duration: u32) -> Seq<PlayerMatchStats> {
    Seq::new(players.len(), |i: int| record_of(players[i], duration))
}

/// The user id of the first player at or after `from` who is alive.
pub open spec fn first_alive_from(players: Seq<PlayerView>, from: int) -> Option<u128>
    decreases players.len() - from,
{
    if from < 0 || from >= players.len() {
        None
    } else if players[from].alive {
        Some(players[from].user_id)
    } else {
        first_alive_from(players, from + 1)
    }
}

impl MatchView {
    /// Whole seconds that the match has lasted at time `now`; zero for a
    /// match that has not started.
    pub open spec fn duration_secs(self, now: u64) -> u32 {
        match self.start_time {
            Some(start) => seconds_between(start, now),
            None => 0,
        }
    }

    /// The record of the match at time `now`: the players are placed by the
    /// time they were alive, longest first.
    pub open spec fn final_stats(self, now: u64) -> MatchStatsView {
        MatchStatsView {
            duration_secs: self.duration_secs(now),
            total_players: self.players.len() as u32,
            player_stats: with_placements(
                ranked(records_of(self.players, self.duration_secs(now))),
            ),
        }
    }

    /// The winner: the first player who is alive.
    pub open spec fn winner(self) -> Option<u128> {
        first_alive_from(self.players, 0)
    }

    /// The message that ends the match at time `now`.
    pub open spec fn match_end(self, now: u64) -> ServerMsgView {
        ServerMsgView::MatchEnd { winner_user_id: self.winner(), stats: self.final_stats(now) }
    }

    /// The match's loop ends: the match has ended, or has left the waiting
    /// phase and has no player.
    pub open spec fn is_over(self) -> bool {
        self.phase == MatchPhase::Ended || (self.players.len() == 0 && self.phase
            != MatchPhase::Waiting)
    }
}

impl GameMatchView {
    /// The match after one message of a client, taken at time `now`.
    pub open spec fn input_handled(self, input: PlayerInput, now: u64) -> GameMatchView {
        match input.msg {
            ClientMsg::JoinMatch { match_id, ship_type } => GameMatchView {
                state: self.state.after_join(input.user_id, ship_type, now),
                ..self
            },
            ClientMsg::InputTick { seq, throttle, steer, shoot, aim_yaw } => GameMatchView {
                state: self.state.after_input(input.user_id, seq, throttle, steer, shoot, aim_yaw),
                ..self
            },
            ClientMsg::Ping { t } => self,
            ClientMsg::LeaveMatch => self.after_leave(input.user_id),
        }
    }

    /// The messages that answer one message of a client. A ping is answered
    /// with its own time stamp.
    pub open spec fn input_messages(self, input: PlayerInput, now: u64) -> Seq<ServerMsgView> {
        match input.msg {
            ClientMsg::JoinMatch { match_id, ship_type } => self.state.join_messages(
                input.user_id,
                ship_type,
                now,
            ),
            ClientMsg::InputTick { seq, throttle, steer, shoot, aim_yaw } => Seq::empty(),
            ClientMsg::Ping { t } => seq![ServerMsgView::Pong { t }],
            ClientMsg::LeaveMatch => self.leave_messages(input.user_id),
        }
    }

    /// The match after the clients' messages `inputs`, taken in order.
    pub open spec fn inputs_handled(self, inputs: Seq<PlayerInput>, now: u64) -> GameMatchView
        decreases inputs.len(),
    {
        if inputs.len() == 0 {
            self
        } else {
            self.inputs_handled(inputs.drop_last(), now).input_handled(inputs.last(), now)
        }
    }

    /// The messages that answer the clients' messages `inputs`, in order.
    pub open spec fn inputs_messages(self, inputs: Seq<PlayerInput>, now: u64) -> Seq<ServerMsgView>
        decreases inputs.len(),
    {
        if inputs.len() == 0 {
            Seq::empty()
        } else {
            self.inputs_messages(inputs.drop_last(), now) + self.inputs_handled(
                inputs.drop_last(),
                now,
            ).input_messages(inputs.last(), now)
        }
    }

    /// The match after one turn of its loop at time `now`: the clients'
    /// messages are taken, the tick runs, and the tick is counted toward
    /// the next snapshot.
    pub open spec fn stepped(self, inputs: Seq<PlayerInput>, now: u64) -> GameMatchView {
        let run = self.inputs_handled(inputs, now).ticked(now);
        GameMatchView { snapshot_builder: run.snapshot_builder.counted_on(), ..run }
    }

    /// The snapshot of the turn, if the tick is due one: the state after
    /// the tick and the tick's events.
    pub open spec fn step_snapshot(self, inputs: Seq<PlayerInput>, now: u64) -> Seq<
        ServerMsgView,
    > {
        let heard = self.inputs_handled(inputs, now);
        let run = heard.ticked(now);
        if run.snapshot_builder.due() {
            seq![
                ServerMsgView::Snapshot {
                    tick: run.state.tick,
                    zone: run.state.zone,
                    players: snapshots_of(run.state.players),
                    events: heard.tick_events(now),
                },
            ]
        } else {
            Seq::empty()
        }
    }

    /// The messages that one turn of the loop sends, in order: the answers
    /// to the clients' messages, the messages of the tick, the snapshot if
    /// one is due, and the end of the match if the loop ends.
    pub open spec fn step_messages(self, inputs: Seq<PlayerInput>, now: u64) -> Seq<
        ServerMsgView,
    > {
        let heard = self.inputs_handled(inputs, now);
        let run = heard.ticked(now);
        self.inputs_messages(inputs, now) + heard.tick_messages() + self.step_snapshot(inputs, now) + if run.state.is_over() {
            seq![run.state.match_end(now)]
        } else {
            Seq::empty()
        }
    }
}

/// Concatenating lists of messages concatenates what they hold.
pub proof fn lemma_views_add(a: Seq<ServerMsg>, b: Seq<ServerMsg>)
    ensures
        views(a + b) == views(a) + views(b),
{
    assert(views(a + b) =~= views(a) + views(b));
}

/// What one turn of a match's loop gives.
#[derive(Debug)]
pub struct StepOutcome {
    /// The messages to send to every player of the match, in order.
    pub messages: Vec<ServerMsg>,
    /// The loop ends with this turn.
    pub finished: bool,
}

/// Whole seconds from `from` to `to`.
fn whole_seconds(from: u64, to: u64) -> (secs: u32)
    ensures
        secs == seconds_between(from, to),
{
    if to >= from {
        #[verifier::truncate]
        (((to - from) / 1000) as u32)
    } else {
        0
    }
}

/// Finds where a record that was alive for `secs` seconds goes into the
/// ordered records.
fn find_slot(records: &Vec<PlayerMatchStats>, secs: u32) -> (slot: usize)
    ensures
        slot == slot_from(records@, secs, 0),
        slot <= records.len(),
{
    let mut k: usize = 0;
    while k < records.len()
        invariant
            k <= records.len(),
            slot_from(records@, secs, 0) == slot_from(records@, secs, k as int),
        decreases records.len() - k,
    {
        if records[k].alive_time_secs < secs {
            return k;
        }
        k += 1;
    }
    k
}

impl GameMatch {
    /// Takes the clients' messages in order at time `now` and returns the
    /// messages that answer them.
    pub fn process_inputs(&mut self, inputs: &Vec<PlayerInput>, now: u64) -> (msgs: Vec<ServerMsg>)
        requires
            old(self).wf(),
        ensures
            final(self)@ == old(self)@.inputs_handled(inputs@, now),
            views(msgs@) == old(self)@.inputs_messages(inputs@, now),
            final(self).state.players.len() <= old(self).state.players.len() + inputs.len(),
            final(self).state.tick == old(self).state.tick,
            final(self).wf(),
    {
        let mut msgs: Vec<ServerMsg> = Vec::new();
        let ghost before = self@;
        let ghost count = self.state.players.len();
        let mut i: usize = 0;
        assert(views(msgs@) =~= Seq::empty());
        while i < inputs.len()
            invariant
                i <= inputs.len(),
                self@ == before.inputs_handled(inputs@.take(i as int), now),
                views(msgs@) == before.inputs_messages(inputs@.take(i as int), now),
                self.state.players.len() <= count + i,
                self.state.tick == before.state.tick,
                self.wf(),
            decreases inputs.len() - i,
        {
            proof {
                assert(inputs@.take(i + 1).drop_last() == inputs@.take(i as int));
                lemma_player_views(&self.state.players);
            }
            let ghost told = msgs@;
            let input = inputs[i];
            let mut answer: Vec<ServerMsg> = match input.msg {
                ClientMsg::JoinMatch { match_id, ship_type } => self.handle_join(
                    input.user_id,
                    ship_type,
                    now,
                ),
                ClientMsg::InputTick { seq, throttle, steer, shoot, aim_yaw } => {
                    self.handle_input(input.user_id, seq, throttle, steer, shoot, aim_yaw);
                    Vec::new()
                },
                ClientMsg::Ping { t } => {
                    let mut pong: Vec<ServerMsg> = Vec::new();
                    pong.push(ServerMsg::Pong { t });
                    pong
                },
                ClientMsg::LeaveMatch => self.handle_leave(input.user_id),
            };
            proof {
                lemma_player_views(&self.state.players);
                assert(views(answer@) =~= before.inputs_handled(
                    inputs@.take(i as int),
                    now,
                ).input_messages(input, now));
                lemma_views_add(told, answer@);
            }
            msgs.append(&mut answer);
            i += 1;
        }
        proof {
            assert(inputs@.take(inputs.len() as int) == inputs@);
        }
        msgs
    }

    /// The user id of the first player who is alive.
    pub fn winner(&self) -> (winner: Option<u128>)
        ensures
            winner == self@.state.winner(),
    {
        let mut i: usize = 0;
        proof {
            lemma_player_views(&self.state.players);
        }
        while i < self.state.players.len()
            invariant
                i <= self.state.players.len(),
                self@.state.winner() == first_alive_from(self@.state.players, i as int),
                forall|j: int|
                    0 <= j < self.state.players.len() ==> #[trigger] self@.state.players[j]
                        == self.state.players@[j]@,
            decreases self.state.players.len() - i,
        {
            if self.state.players[i].alive {
                return Some(self.state.players[i].user_id);
            }
            i += 1;
        }
        None
    }

    /// The record of the match at time `now`.
    pub fn build_match_stats(&self, now: u64) -> (stats: MatchStats)
        ensures
            stats@ == self@.state.final_stats(now),
    {
        let duration: u32 = match self.state.start_time {
            Some(start) => whole_seconds(start, now),
            None => 0,
        };
        let ghost records = records_of(self@.state.players, duration);
        let mut sorted: Vec<PlayerMatchStats> = Vec::new();
        let n = self.state.players.len();
        let mut i: usize = 0;
        proof {
            lemma_player_views(&self.state.players);
        }
        while i < n
            invariant
                i <= n,
                n == self.state.players.len(),
                records == records_of(self@.state.players, duration),
                sorted@ == ranked(records.take(i as int)),
                sorted.len() == i,
                forall|j: int|
                    0 <= j < n ==> #[trigger] self@.state.players[j] == self.state.players@[j]@,
            decreases n - i,
        {
            proof {
                assert(records.take(i + 1).drop_last() == records.take(i as int));
            }
            let p = &self.state.players[i];
            let record = PlayerMatchStats {
                user_id: p.user_id,
                kills: p.kills,
                damage_dealt: p.damage_dealt,
                damage_taken: p.damage_taken,
                shots_fired: p.shots_fired,
                shots_hit: p.shots_hit,
                placement: 0,
                alive_time_secs: match p.death_time {
                    Some(died) => whole_seconds(p.spawn_time, died),
                    None => duration,
                },
            };
            let slot = find_slot(&sorted, record.alive_time_secs);
            sorted.insert(slot, record);
            i += 1;
        }
        proof {
            assert(records.take(n as int) == records);
        }
        let ghost ordered = sorted@;
        let mut k: usize = 0;
        while k < n
            invariant
                k <= n,
                n == sorted.len(),
                n == ordered.len(),
                forall|j: int|
                    0 <= j < k ==> #[trigger] sorted@[j] == (PlayerMatchStats {
                        placement: (j + 1) as u32,
                        ..ordered[j]
                    }),
                forall|j: int| k <= j < n ==> #[trigger] sorted@[j] == ordered[j],
            decreases n - k,
        {
            sorted[k].placement = #[verifier::truncate]
            ((k + 1) as u32);
            k += 1;
        }
        proof {
            assert(sorted@ =~= with_placements(ordered));
        }
        MatchStats {
            duration_secs: duration,
            total_players: #[verifier::truncate]
            (n as u32),
            player_stats: sorted,
        }
    }

    /// The match's loop ends.
    pub fn is_over(&self) -> (over: bool)
        ensures
            over == self@.state.is_over(),
    {
        match self.state.phase {
            MatchPhase::Ended => true,
            MatchPhase::Waiting => false,
            _ => self.state.players.len() == 0,
        }
    }

    /// Runs the tick at time `now`, sends a snapshot if one is due and ends
    /// the match if its loop is over; `msgs` are the messages of this turn
    /// so far.
    fn finish_step(&mut self, now: u64, msgs: Vec<ServerMsg>) -> (out: StepOutcome)
        requires
            old(self).wf(),
            old(self).state.tick < u64::MAX,
        ensures
            final(self)@ == (GameMatchView {
                snapshot_builder: old(self)@.ticked(now).snapshot_builder.counted_on(),
                ..old(self)@.ticked(now)
            }),
            views(out.messages@) == views(msgs@) + old(self)@.tick_messages() + (if old(
                self,
            )@.ticked(now).snapshot_builder.due() {
                seq![
                    ServerMsgView::Snapshot {
                        tick: old(self)@.ticked(now).state.tick,
                        zone: old(self)@.ticked(now).state.zone,
                        players: snapshots_of(old(self)@.ticked(now).state.players),
                        events: old(self)@.tick_events(now),
                    },
                ]
            } else {
                Seq::empty()
            }) + (if old(self)@.ticked(now).state.is_over() {
                seq![old(self)@.ticked(now).state.match_end(now)]
            } else {
                Seq::empty()
            }),
            out.finished == old(self)@.ticked(now).state.is_over(),
            final(self).wf(),
    {
        let mut msgs = msgs;
        let ghost heard = msgs@;
        let (events, mut told) = self.run_tick(now);
        proof {
            lemma_views_add(heard, told@);
        }
        msgs.append(&mut told);
        let ghost after_tick = msgs@;
        if self.snapshot_builder.should_send() {
            let snapshot = self.snapshot_builder.build(
                self.state.tick,
                &self.state.zone,
                &self.state.players,
                events,
            );
            msgs.push(snapshot);
            proof {
                assert(views(msgs@) =~= views(after_tick) + seq![snapshot@]);
            }
        } else {
            proof {
                assert(views(msgs@) =~= views(after_tick) + Seq::empty());
            }
        }
        let ghost after_snapshot = msgs@;
        let finished = self.is_over();
        if finished {
            let end = ServerMsg::MatchEnd {
                winner_user_id: self.winner(),
                stats: self.build_match_stats(now),
            };
            msgs.push(end);
            proof {
                assert(views(msgs@) =~= views(after_snapshot) + seq![end@]);
            }
        } else {
            proof {
                assert(views(msgs@) =~= views(after_snapshot) + Seq::empty());
            }
        }
        StepOutcome { messages: msgs, finished }
    }

    /// Runs one turn of the match's loop at time `now`: takes the clients'
    /// messages, runs the tick and returns what is to be sent. The turn
    /// depends on nothing but the match, the messages and the time.
    pub fn step_at(&mut self, inputs: &Vec<PlayerInput>, now: u64) -> (out: StepOutcome)
        requires
            old(self).wf(),
            old(self).state.tick < u64::MAX,
        ensures
            final(self)@ == old(self)@.stepped(inputs@, now),
            views(out.messages@) == old(self)@.step_messages(inputs@, now),
            out.finished == final(self)@.state.is_over(),
            final(self).wf(),
    {
        let heard = self.process_inputs(inputs, now);
        self.finish_step(now, heard)
    }

    /// Runs one turn of the match's loop: reads the wall clock, takes the
    /// clients' messages, runs the tick and returns what is to be sent.
    /// Only the time that the clock gives is open.
    pub fn step(&mut self, inputs: &Vec<PlayerInput>) -> (out: StepOutcome)
        requires
            old(self).wf(),
            old(self).state.tick < u64::MAX,
        ensures
            exists|now: u64|
                final(self)@ == #[trigger] old(self)@.stepped(inputs@, now) && views(
                    out.messages@,
                ) == old(self)@.step_messages(inputs@, now),
            out.finished == final(self)@.state.is_over(),
            final(self).wf(),
    {
        let now = unix_millis();
        let out = self.step_at(inputs, now);
        proof {
            assert(self@ == old(self)@.stepped(inputs@, now));
        }
        out
    }
}

} // verus!
