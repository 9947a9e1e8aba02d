//! When snapshots are sent and what they hold.

use crate::fixed::counted;
use crate::player::{lemma_player_views, PlayerState, PlayerView};
use crate::protocol::{GameEvent, PlayerSnapshot, ServerMsg, ServerMsgView, ZoneState};
use vstd::prelude::*;

verus! {

/// Ticks from one snapshot to the next: the tick rate divided by the
/// snapshot rate, rounded up.
pub const SNAPSHOT_INTERVAL_TICKS: u32 = 2;

/// Decides on which ticks a snapshot is sent, and builds it.
#[derive(Debug, Clone, Copy, PartialEq, Eq, Structural)]
pub struct SnapshotBuilder {
    /// Ticks counted since the last snapshot.
    pub ticks_since_snapshot: u32,
    /// Ticks from one snapshot to the next.
    pub snapshot_interval: u32,
}

/// What a snapshot tells of each player, in the players' order.
pub open spec fn snapshots_of(players: Seq<PlayerView>) -> Seq<PlayerSnapshot> {
    Seq::new(players.len(), |i: int| players[i].snapshot())
}

impl SnapshotBuilder {
    /// The tick that is counted next is due a snapshot.
    pub open spec fn due(self) -> bool {
        counted(self.ticks_since_snapshot) >= self.snapshot_interval
    }

    /// The builder after it has counted one more tick: it starts from zero
    /// after a tick that is due a snapshot.
    pub open spec fn counted_on(self) -> SnapshotBuilder {
        SnapshotBuilder {
            ticks_since_snapshot: if self.due() {
                0
            } else {
                counted(self.ticks_since_snapshot)
            },
            ..self
        }
    }

    /// The builder with the next tick made due.
    pub open spec fn forced(self) -> SnapshotBuilder {
        SnapshotBuilder { ticks_since_snapshot: self.snapshot_interval, ..self }
    }

    /// The builder after `n` more ticks.
    pub open spec fn after_ticks(self, n: nat) -> SnapshotBuilder
        decreases n,
    {
        if n == 0 {
            self
        } else {
            self.after_ticks((n - 1) as nat).counted_on()
        }
    }

    /// A builder that sends a snapshot every `snapshot_interval` ticks.
    pub fn new(snapshot_interval: u32) -> (b: SnapshotBuilder)
        ensures
            b == (SnapshotBuilder { ticks_since_snapshot: 0, snapshot_interval }),
    {
        SnapshotBuilder { ticks_since_snapshot: 0, snapshot_interval }
    }

    /// Counts a tick and tells whether a snapshot is due on it.
    pub fn should_send(&mut self) -> (send: bool)
        ensures
            send == old(self).due(),
            *final(self) == old(self).counted_on(),
    {
        if self.ticks_since_snapshot < u32::MAX {
            self.ticks_since_snapshot += 1;
        }
        if self.ticks_since_snapshot >= self.snapshot_interval {
            self.ticks_since_snapshot = 0;
            true
        } else {
            false
        }
    }

    /// Makes the next tick due a snapshot.
    pub fn force_next(&mut self)
        ensures
            *final(self) == old(self).forced(),
            final(self).due(),
    {
        self.ticks_since_snapshot = self.snapshot_interval;
    }

    /// The snapshot message of tick `tick`: the zone, each player's state
    /// in the players' order, and the tick's events.
    pub fn build(&self, tick: u64, zone: &ZoneState, players: &Vec<PlayerState>, events: Vec<GameEvent>) -> (msg:
        ServerMsg)
        ensures
            msg@ == (ServerMsgView::Snapshot {
                tick,
                zone: *zone,
                players: snapshots_of(players.deep_view()),
                events: events@,
            }),
    {
        let mut snapshots: Vec<PlayerSnapshot> = Vec::new();
        let mut i: usize = 0;
        while i < players.len()
            invariant
                i <= players.len(),
                snapshots@ == snapshots_of(players.deep_view().take(i as int)),
            decreases players.len() - i,
        {
            snapshots.push(players[i].to_snapshot());
            i += 1;
            proof {
                lemma_player_views(players);
                assert(snapshots@ =~= snapshots_of(players.deep_view().take(i as int)));
            }
        }
        proof {
            assert(players.deep_view().take(players.len() as int) == players.deep_view());
        }
        ServerMsg::Snapshot { tick, zone: *zone, players: snapshots, events }
    }
}

/// A builder that has just sent a snapshot sends the next one exactly
/// `snapshot_interval` ticks later, and none in between.
pub proof fn lemma_snapshot_cadence(b: SnapshotBuilder, n: nat)
    requires
        b.ticks_since_snapshot == 0,
        b.snapshot_interval >= 1,
        n < b.snapshot_interval,
    ensures
        b.after_ticks(n).ticks_since_snapshot == n,
        b.after_ticks(n).snapshot_interval == b.snapshot_interval,
        b.after_ticks(n).due() <==> n + 1 == b.snapshot_interval,
    decreases n,
{
    if n > 0 {
        lemma_snapshot_cadence(b, (n - 1) as nat);
    }
}

} // verus!
