//! What holds of a match over its turns.

use crate::game_match::{with_input, GameMatchView};
use crate::match_state::{MatchPhase, MatchView};
use crate::player::{lemma_position_from, position, PlayerInput, PlayerView};
use crate::protocol::ServerMsgView;
use crate::tick_physics::{
    all_separated, all_steered, collide, physics, row_resolved, rows_resolved,
};
use vstd::prelude::*;

verus! {

/// An input message never takes a player's sequence number back, and one
/// that is not newer than the last message taken changes nothing.
pub proof fn law_input_sequence(
    v: MatchView,
    user_id: u128,
    seq: u32,
    throttle: i64,
    steer: i64,
    shoot: bool,
    aim_yaw: i64,
)
    ensures
        ({
            let after = v.after_input(user_id, seq, throttle, steer, shoot, aim_yaw);
            &&& after.players.len() == v.players.len()
            &&& forall|i: int|
                0 <= i < v.players.len() ==> (#[trigger] after.players[i]).last_input_seq
                    >= v.players[i].last_input_seq
            &&& match position(v.players, user_id) {
                Some(i) => seq <= v.players[i].last_input_seq ==> after == v,
                None => after == v,
            }
        }),
{
    let after = v.after_input(user_id, seq, throttle, steer, shoot, aim_yaw);
    lemma_position_from(v.players, user_id, 0);
    match position(v.players, user_id) {
        Some(i) => {
            if seq <= v.players[i].last_input_seq {
                assert(after.players =~= v.players);
            }
        },
        None => {},
    }
}

/// In a consistent match every player's health lies between zero and the
/// maximum of the ship's class, a player is alive exactly while health is
/// left, and no ship is faster than its class allows.
pub proof fn law_consistent_players(v: MatchView, i: int)
    requires
        v.wf(),
        0 <= i < v.players.len(),
    ensures
        0 <= v.players[i].health <= v.players[i].stats().max_health,
        v.players[i].alive <==> v.players[i].health > 0,
        v.players[i].vel_x * v.players[i].vel_x + v.players[i].vel_y * v.players[i].vel_y
            <= v.players[i].stats().max_speed * v.players[i].stats().max_speed,
{
    assert(v.players[i].wf());
}

/// Looking at the pairs of a row leaves a dead player's ship as it is.
proof fn lemma_row_keeps_dead(players: Seq<PlayerView>, snap: Seq<PlayerView>, i: int, upto: int, k: int)
    requires
        players.len() == snap.len(),
        0 <= i,
        upto <= snap.len(),
        0 <= k < snap.len(),
        !snap[k].alive,
    ensures
        row_resolved(players, snap, i, upto).len() == players.len(),
        row_resolved(players, snap, i, upto)[k] == players[k],
    decreases upto,
{
    if !(upto <= i + 1 || upto <= 0) {
        lemma_row_keeps_dead(players, snap, i, upto - 1, k);
    }
}

/// Looking at the pairs of the first rows leaves a dead player's ship as
/// it is.
proof fn lemma_rows_keep_dead(players: Seq<PlayerView>, snap: Seq<PlayerView>, upto: int, k: int)
    requires
        players.len() == snap.len(),
        upto <= snap.len(),
        0 <= k < snap.len(),
        !snap[k].alive,
    ensures
        rows_resolved(players, snap, upto).len() == players.len(),
        rows_resolved(players, snap, upto)[k] == players[k],
    decreases upto,
{
    if upto > 0 {
        lemma_rows_keep_dead(players, snap, upto - 1, k);
        lemma_row_keeps_dead(
            rows_resolved(players, snap, upto - 1),
            snap,
            upto - 1,
            snap.len() as int,
            k,
        );
    }
}

/// A dead player is frozen: the physics step leaves the ship where and as
/// it was, and an input message changes nothing about the player.
pub proof fn law_dead_players_are_frozen(
    players: Seq<PlayerView>,
    k: int,
    seq: u32,
    throttle: i64,
    steer: i64,
    shoot: bool,
    aim_yaw: i64,
)
    requires
        0 <= k < players.len(),
        !players[k].alive,
    ensures
        physics(players).len() == players.len(),
        physics(players)[k] == players[k],
        with_input(players[k], seq, throttle, steer, shoot, aim_yaw) == players[k],
{
    let moved = all_steered(players);
    assert(moved[k] == players[k]);
    lemma_rows_keep_dead(moved, moved, moved.len() as int, k);
}

/// Looking at the pairs of a row in which no ships overlap changes
/// nothing.
proof fn lemma_row_without_overlap(players: Seq<PlayerView>, snap: Seq<PlayerView>, i: int, upto: int)
    requires
        0 <= i,
        upto <= snap.len(),
        forall|a: int, b: int| 0 <= a < b < snap.len() ==> !collide(snap, a, b),
    ensures
        row_resolved(players, snap, i, upto) == players,
    decreases upto,
{
    if !(upto <= i + 1 || upto <= 0) {
        lemma_row_without_overlap(players, snap, i, upto - 1);
        assert(!collide(snap, i, upto - 1));
    }
}

/// Looking at the pairs of rows in which no ships overlap changes nothing.
proof fn lemma_rows_without_overlap(players: Seq<PlayerView>, snap: Seq<PlayerView>, upto: int)
    requires
        upto <= snap.len(),
        forall|a: int, b: int| 0 <= a < b < snap.len() ==> !collide(snap, a, b),
    ensures
        rows_resolved(players, snap, upto) == players,
    decreases upto,
{
    if upto > 0 {
        lemma_rows_without_overlap(players, snap, upto - 1);
        lemma_row_without_overlap(players, snap, upto - 1, snap.len() as int);
    }
}

/// Ships of which no two living ones overlap stay where they are.
pub proof fn law_no_overlap_no_push(players: Seq<PlayerView>)
    requires
        forall|a: int, b: int| 0 <= a < b < players.len() ==> !collide(players, a, b),
    ensures
        all_separated(players) == players,
{
    lemma_rows_without_overlap(players, players, players.len() as int);
}

/// How far a match has come: waiting, countdown, in progress, ended.
pub open spec fn phase_rank(phase: MatchPhase) -> int {
    match phase {
        MatchPhase::Waiting => 0,
        MatchPhase::Countdown => 1,
        MatchPhase::InProgress => 2,
        MatchPhase::Ended => 3,
    }
}

/// A message of a client moves the match on by at most one phase and never
/// back.
pub proof fn lemma_input_advances_phase(g: GameMatchView, input: PlayerInput, now: u64)
    ensures
        phase_rank(g.state.phase) <= phase_rank(g.input_handled(input, now).state.phase)
            <= phase_rank(g.state.phase) + 1,
{
}

/// The clients' messages never move the match back to an earlier phase.
pub proof fn lemma_inputs_never_return(g: GameMatchView, inputs: Seq<PlayerInput>, now: u64)
    ensures
        phase_rank(g.state.phase) <= phase_rank(g.inputs_handled(inputs, now).state.phase),
    decreases inputs.len(),
{
    if inputs.len() > 0 {
        lemma_inputs_never_return(g, inputs.drop_last(), now);
        lemma_input_advances_phase(g.inputs_handled(inputs.drop_last(), now), inputs.last(), now);
    }
}

/// A tick moves the match on by at most one phase and never back, and the
/// match starts on exactly the tick that announces it: its messages hold
/// `MatchStarted`, once, if the tick leads from the countdown into the
/// match, and are empty otherwise.
pub proof fn law_tick_phases(g: GameMatchView, now: u64)
    ensures
        phase_rank(g.state.phase) <= phase_rank(g.ticked(now).state.phase) <= phase_rank(
            g.state.phase,
        ) + 1,
        (g.state.phase == MatchPhase::Countdown && g.ticked(now).state.phase
            == MatchPhase::InProgress) <==> g.tick_messages() == seq![
            ServerMsgView::MatchStarted { tick: g.ticked(now).state.tick },
        ],
        !(g.state.phase == MatchPhase::Countdown && g.ticked(now).state.phase
            == MatchPhase::InProgress) <==> g.tick_messages() == Seq::<ServerMsgView>::empty(),
{
    let started = seq![ServerMsgView::MatchStarted { tick: g.ticked(now).state.tick }];
    assert(started.len() == 1);
}

/// A turn of the loop never moves the match back to an earlier phase.
pub proof fn law_phase_never_returns(g: GameMatchView, inputs: Seq<PlayerInput>, now: u64)
    ensures
        phase_rank(g.state.phase) <= phase_rank(g.stepped(inputs, now).state.phase),
{
    lemma_inputs_never_return(g, inputs, now);
    law_tick_phases(g.inputs_handled(inputs, now), now);
}

/// The message announces the start of a match.
pub open spec fn is_start(msg: ServerMsgView) -> bool {
    msg is MatchStarted
}

/// The message is a snapshot.
pub open spec fn is_snapshot(msg: ServerMsgView) -> bool {
    msg is Snapshot
}

/// The message announces the end of a match.
pub open spec fn is_end(msg: ServerMsgView) -> bool {
    msg is MatchEnd
}

/// The answers to clients' messages hold no start, snapshot or end.
pub proof fn lemma_answers_are_plain(g: GameMatchView, inputs: Seq<PlayerInput>, now: u64)
    ensures
        forall|i: int|
            0 <= i < g.inputs_messages(inputs, now).len() ==> {
                let msg = #[trigger] g.inputs_messages(inputs, now)[i];
                !is_start(msg) && !is_snapshot(msg) && !is_end(msg)
            },
    decreases inputs.len(),
{
    if inputs.len() > 0 {
        lemma_answers_are_plain(g, inputs.drop_last(), now);
    }
}

/// Within the messages of one turn, the start of the match comes before
/// the snapshot, and the end of the match comes after every other message:
/// it is the last message of the turn with which the loop ends, and no other
/// turn sends one.
pub proof fn law_message_order(g: GameMatchView, inputs: Seq<PlayerInput>, now: u64)
    ensures
        ({
            let msgs = g.step_messages(inputs, now);
            &&& forall|i: int, j: int|
                0 <= i < msgs.len() && 0 <= j < msgs.len() && is_start(#[trigger] msgs[i])
                    && is_snapshot(#[trigger] msgs[j]) ==> i < j
            &&& forall|i: int| 0 <= i < msgs.len() && is_end(#[trigger] msgs[i]) ==> i == msgs.len() - 1
            &&& g.stepped(inputs, now).state.is_over() <==> msgs.len() > 0 && is_end(
                msgs.last(),
            )
        }),
{
    let heard = g.inputs_handled(inputs, now);
    let msgs = g.step_messages(inputs, now);
    lemma_answers_are_plain(g, inputs, now);
    let answers = g.inputs_messages(inputs, now);
    let told = heard.tick_messages();
    let shot = g.step_snapshot(inputs, now);
    assert forall|i: int| 0 <= i < msgs.len() implies (i < answers.len() ==> #[trigger] msgs[i]
        == answers[i]) && (answers.len() <= i < answers.len() + told.len() ==> is_start(msgs[i]))
        && (answers.len() + told.len() <= i < answers.len() + told.len() + shot.len()
        ==> is_snapshot(msgs[i])) && (answers.len() + told.len() + shot.len() <= i ==> is_end(
        msgs[i],
    )) by {}
}

/// A turn of a match: the messages that came in and the time.
pub struct Turn {
    pub inputs: Seq<PlayerInput>,
    pub now: u64,
}

impl GameMatchView {
    /// The match after the turns `turns`.
    pub open spec fn replayed(self, turns: Seq<Turn>) -> GameMatchView
        decreases turns.len(),
    {
        if turns.len() == 0 {
            self
        } else {
            let last = turns.last();
            self.replayed(turns.drop_last()).stepped(last.inputs, last.now)
        }
    }

    /// The messages that the match sends in the last of the turns `turns`.
    pub open spec fn replayed_messages(self, turns: Seq<Turn>) -> Seq<ServerMsgView> {
        if turns.len() == 0 {
            Seq::empty()
        } else {
            let last = turns.last();
            self.replayed(turns.drop_last()).step_messages(last.inputs, last.now)
        }
    }
}

/// Two matches that start equal and take the same turns stay equal and send
/// the same messages in every turn: the match as it was made (its id, seed
/// and limits) and the timeline of inputs and times determine a run.
pub proof fn law_replay_is_deterministic(a: GameMatchView, b: GameMatchView, turns: Seq<Turn>, upto: int)
    requires
        a == b,
        0 <= upto <= turns.len(),
    ensures
        a.replayed(turns.take(upto)) == b.replayed(turns.take(upto)),
        a.replayed_messages(turns.take(upto)) == b.replayed_messages(turns.take(upto)),
{
}

/// Number of messages in `msgs` that announce the start of a match.
pub open spec fn starts_in(msgs: Seq<ServerMsgView>) -> nat
    decreases msgs.len(),
{
    if msgs.len() == 0 {
        0
    } else {
        starts_in(msgs.drop_last()) + if is_start(msgs.last()) {
            1nat
        } else {
            0nat
        }
    }
}

/// Two lists of messages hold as many starts as both together.
pub proof fn lemma_starts_add(a: Seq<ServerMsgView>, b: Seq<ServerMsgView>)
    ensures
        starts_in(a + b) == starts_in(a) + starts_in(b),
    decreases b.len(),
{
    if b.len() == 0 {
        assert(a + b == a);
    } else {
        assert((a + b).drop_last() == a + b.drop_last());
        lemma_starts_add(a, b.drop_last());
    }
}

/// A list without a start holds none.
pub proof fn lemma_no_starts(msgs: Seq<ServerMsgView>)
    requires
        forall|i: int| 0 <= i < msgs.len() ==> !is_start(#[trigger] msgs[i]),
    ensures
        starts_in(msgs) == 0,
    decreases msgs.len(),
{
    if msgs.len() > 0 {
        assert(!is_start(msgs[msgs.len() - 1]));
        assert forall|i: int| 0 <= i < msgs.drop_last().len() implies !is_start(
            #[trigger] msgs.drop_last()[i],
        ) by {
            assert(msgs.drop_last()[i] == msgs[i]);
        }
        lemma_no_starts(msgs.drop_last());
    }
}

/// The clients' messages leave a match that has not started unstarted.
pub proof fn lemma_inputs_start_nothing(g: GameMatchView, inputs: Seq<PlayerInput>, now: u64)
    requires
        phase_rank(g.state.phase) <= 1,
    ensures
        phase_rank(g.inputs_handled(inputs, now).state.phase) <= 1,
    decreases inputs.len(),
{
    if inputs.len() > 0 {
        lemma_inputs_start_nothing(g, inputs.drop_last(), now);
    }
}

/// The messages of a turn hold one start if the countdown ends on the
/// turn's tick, and none otherwise.
pub proof fn lemma_turn_starts(g: GameMatchView, inputs: Seq<PlayerInput>, now: u64)
    ensures
        starts_in(g.step_messages(inputs, now)) == if g.inputs_handled(
            inputs,
            now,
        ).state.countdown_ends() {
            1nat
        } else {
            0nat
        },
{
    let heard = g.inputs_handled(inputs, now);
    let run = heard.ticked(now);
    let answers = g.inputs_messages(inputs, now);
    let told = heard.tick_messages();
    let shot = g.step_snapshot(inputs, now);
    let end = if run.state.is_over() {
        seq![run.state.match_end(now)]
    } else {
        Seq::<ServerMsgView>::empty()
    };
    lemma_answers_are_plain(g, inputs, now);
    lemma_no_starts(answers);
    lemma_no_starts(shot);
    lemma_no_starts(end);
    if heard.state.countdown_ends() {
        assert(told.drop_last() =~= Seq::<ServerMsgView>::empty());
        assert(starts_in(Seq::<ServerMsgView>::empty()) == 0);
        assert(starts_in(told) == 1);
    } else {
        assert(starts_in(told) == 0);
    }
    lemma_starts_add(answers, told);
    lemma_starts_add(answers + told, shot);
    lemma_starts_add(answers + told + shot, end);
}

impl GameMatchView {
    /// All messages that the match sends in the turns `turns`, in order.
    pub open spec fn run_messages(self, turns: Seq<Turn>) -> Seq<ServerMsgView>
        decreases turns.len(),
    {
        if turns.len() == 0 {
            Seq::empty()
        } else {
            self.run_messages(turns.drop_last()) + self.replayed_messages(turns)
        }
    }
}

/// Over a whole run of a match that had not started, the start of the match
/// is announced exactly once if the match has come to be in progress or has
/// ended, and not at all if it has not: it is never announced twice.
pub proof fn law_started_once(g: GameMatchView, turns: Seq<Turn>)
    requires
        phase_rank(g.state.phase) <= 1,
    ensures
        starts_in(g.run_messages(turns)) == if phase_rank(g.replayed(turns).state.phase) >= 2 {
            1nat
        } else {
            0nat
        },
    decreases turns.len(),
{
    if turns.len() > 0 {
        let last = turns.last();
        let before = g.replayed(turns.drop_last());
        law_started_once(g, turns.drop_last());
        lemma_turn_starts(before, last.inputs, last.now);
        lemma_starts_add(g.run_messages(turns.drop_last()), g.replayed_messages(turns));
        let heard = before.inputs_handled(last.inputs, last.now);
        if phase_rank(before.state.phase) >= 2 {
            lemma_inputs_never_return(before, last.inputs, last.now);
            law_tick_phases(heard, last.now);
        } else {
            lemma_inputs_start_nothing(before, last.inputs, last.now);
        }
    }
}

/// Over a whole run of a match that had not started, every snapshot of a
/// match that is in progress or has ended comes after the one message that
/// announced its start.
pub proof fn law_snapshots_follow_start(g: GameMatchView, turns: Seq<Turn>, j: int)
    requires
        phase_rank(g.state.phase) <= 1,
        turns.len() > 0,
        0 <= j < g.replayed_messages(turns).len(),
        is_snapshot(g.replayed_messages(turns)[j]),
        phase_rank(g.replayed(turns).state.phase) >= 2,
    ensures
        starts_in(g.run_messages(turns.drop_last()) + g.replayed_messages(turns).take(j)) == 1,
{
    let last = turns.last();
    let before = g.replayed(turns.drop_last());
    let earlier = g.run_messages(turns.drop_last());
    let msgs = g.replayed_messages(turns);
    law_started_once(g, turns);
    law_message_order(before, last.inputs, last.now);
    let head = msgs.take(j);
    let tail = msgs.skip(j);
    assert(msgs =~= head + tail);
    assert forall|i: int| 0 <= i < tail.len() implies !is_start(#[trigger] tail[i]) by {
        assert(tail[i] == msgs[j + i]);
        if is_start(msgs[j + i]) {
            assert(is_snapshot(msgs[j]));
        }
    }
    lemma_no_starts(tail);
    lemma_starts_add(head, tail);
    lemma_starts_add(earlier, msgs);
    lemma_starts_add(earlier, head);
}

} // verus!
