//! What holds of the matchmaking queue and of the placements.

use crate::game_step::{ranked, slot_from, with_placements};
use crate::protocol::PlayerMatchStats;
use crate::queue::{lemma_place_from, place, without, QueueView, QueuedPlayerView};
use vstd::prelude::*;

verus! {

/// A user who joins the queue while waiting in it leaves the number of
/// waiting players unchanged and waits at the back afterwards, in one
/// place only; everybody else keeps their order.
pub proof fn law_reenqueue(queue: QueueView, player: QueuedPlayerView)
    requires
        queue.wf(),
        queue.holds(player.user_id),
    ensures
        queue.enqueued(player).entries.len() == queue.entries.len(),
        queue.enqueued(player).entries.last() == player,
        place(queue.enqueued(player).entries, player.user_id) == Some(queue.entries.len() - 1),
        queue.enqueued(player).entries.drop_last() == without(queue.entries, player.user_id),
        queue.enqueued(player).wf(),
{
    let after = queue.enqueued(player).entries;
    let rest = without(queue.entries, player.user_id);
    lemma_place_from(queue.entries, player.user_id, 0);
    assert(after.drop_last() =~= rest);
    lemma_place_from(after, player.user_id, 0);
}

/// A user who joins the queue without waiting in it makes it longer by
/// one, at the back.
pub proof fn law_enqueue_new(queue: QueueView, player: QueuedPlayerView)
    requires
        queue.wf(),
        !queue.holds(player.user_id),
    ensures
        queue.enqueued(player).entries == queue.entries.push(player),
        queue.enqueued(player).wf(),
{
    lemma_place_from(queue.entries, player.user_id, 0);
}

/// The records are in order: none was alive for less time than one behind
/// it.
pub open spec fn longest_first(records: Seq<PlayerMatchStats>) -> bool {
    forall|a: int, b: int|
        0 <= a < b < records.len() ==> #[trigger] records[a].alive_time_secs
            >= #[trigger] records[b].alive_time_secs
}

/// Where a record goes into ordered records, every record before was alive
/// at least as long and every record from there on for less time.
pub proof fn lemma_slot(records: Seq<PlayerMatchStats>, secs: u32, from: int)
    requires
        0 <= from <= records.len(),
        longest_first(records),
    ensures
        from <= slot_from(records, secs, from) <= records.len(),
        forall|k: int|
            from <= k < slot_from(records, secs, from) ==> (#[trigger] records[k]).alive_time_secs
                >= secs,
        forall|k: int|
            slot_from(records, secs, from) <= k < records.len() ==> (
            #[trigger] records[k]).alive_time_secs < secs,
    decreases records.len() - from,
{
    if from < records.len() && records[from].alive_time_secs >= secs {
        lemma_slot(records, secs, from + 1);
    }
}

/// Ranking keeps every record, and puts them in order, longest alive
/// first.
pub proof fn law_ranked_in_order(records: Seq<PlayerMatchStats>)
    ensures
        ranked(records).len() == records.len(),
        longest_first(ranked(records)),
        ranked(records).to_multiset() == records.to_multiset(),
    decreases records.len(),
{
    if records.len() == 0 {
        assert(ranked(records) =~= records);
    } else {
        let rest = records.drop_last();
        let last = records.last();
        law_ranked_in_order(rest);
        let before = ranked(rest);
        let slot = slot_from(before, last.alive_time_secs, 0);
        lemma_slot(before, last.alive_time_secs, 0);
        let after = before.insert(slot, last);
        assert forall|a: int, b: int| 0 <= a < b < after.len() implies #[trigger] after[a].alive_time_secs
            >= #[trigger] after[b].alive_time_secs by {
            if a < slot && b > slot {
                assert(after[a] == before[a]);
                assert(after[b] == before[b - 1]);
            } else if a < slot && b < slot {
                assert(after[a] == before[a]);
                assert(after[b] == before[b]);
            } else if a < slot && b == slot {
                assert(after[a] == before[a]);
            } else if a == slot {
                assert(after[b] == before[b - 1]);
            } else {
                assert(after[a] == before[a - 1]);
                assert(after[b] == before[b - 1]);
            }
        }
        assert(records =~= rest.push(last));
        vstd::seq_lib::to_multiset_build(rest, last);
        vstd::seq_lib::to_multiset_insert(before, slot, last);
    }
}

/// Placements count the ordered records from 1, without gaps.
pub proof fn law_placements(records: Seq<PlayerMatchStats>)
    requires
        records.len() <= u32::MAX,
    ensures
        with_placements(records).len() == records.len(),
        forall|k: int|
            0 <= k < records.len() ==> (#[trigger] with_placements(records)[k]).placement == k + 1,
{
}

} // verus!
