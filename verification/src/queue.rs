//! The matchmaking queue: who waits for a match, in the order of arrival.

use crate::protocol::ShipType;
use crate::time::Timer;
use std::collections::{HashSet, VecDeque};
use vstd::prelude::*;

verus! {

broadcast use vstd::std_specs::hash::group_hash_axioms;

/// A player who waits for a match.
#[derive(Debug, Clone)]
pub struct QueuedPlayer {
    pub user_id: u128,
    pub display_name: String,
    pub ship_type: ShipType,
    pub flag_skin_id: Option<u128>,
    /// Time at which the player joined the queue, in milliseconds on the
    /// queue's clock.
    pub queued_at: u64,
}

/// What a `QueuedPlayer` holds.
pub struct QueuedPlayerView {
    pub user_id: u128,
    pub display_name: Seq<char>,
    pub ship_type: ShipType,
    pub flag_skin_id: Option<u128>,
    pub queued_at: u64,
}

impl View for QueuedPlayer {
    type V = QueuedPlayerView;

    open spec fn view(&self) -> QueuedPlayerView {
        QueuedPlayerView {
            user_id: self.user_id,
            display_name: self.display_name@,
            ship_type: self.ship_type,
            flag_skin_id: self.flag_skin_id,
            queued_at: self.queued_at,
        }
    }
}

impl DeepView for QueuedPlayer {
    type V = QueuedPlayerView;

    open spec fn deep_view(&self) -> QueuedPlayerView {
        self@
    }
}

impl QueuedPlayerView {
    /// Milliseconds that the player has waited at time `now`.
    pub open spec fn waited(self, now: u64) -> u64 {
        if now >= self.queued_at {
            (now - self.queued_at) as u64
        } else {
            0
        }
    }
}

impl QueuedPlayer {
    /// A player who joins the queue now, by the reading of `clock`, with no
    /// cosmetic. The clock is the queue's own, which never steps back.
    pub fn new(user_id: u128, display_name: String, ship_type: ShipType, clock: &Timer) -> (p:
        QueuedPlayer)
        ensures
            p@ == (QueuedPlayerView {
                user_id,
                display_name: display_name@,
                ship_type,
                flag_skin_id: None,
                queued_at: p.queued_at,
            }),
    {
        QueuedPlayer::at(user_id, display_name, ship_type, clock.elapsed_ms())
    }

    /// A player who joined the queue at time `queued_at`, with no cosmetic.
    pub fn at(user_id: u128, display_name: String, ship_type: ShipType, queued_at: u64) -> (p:
        QueuedPlayer)
        ensures
            p@ == (QueuedPlayerView {
                user_id,
                display_name: display_name@,
                ship_type,
                flag_skin_id: None,
                queued_at,
            }),
    {
        QueuedPlayer { user_id, display_name, ship_type, flag_skin_id: None, queued_at }
    }

    /// Milliseconds that the player has waited, by the reading of `clock`.
    pub fn wait_time(&self, clock: &Timer) -> (waited: u64)
        ensures
            exists|now: u64| waited == #[trigger] self@.waited(now),
    {
        self.waited(clock.elapsed_ms())
    }

    /// Milliseconds that the player has waited at time `now`.
    pub fn waited(&self, now: u64) -> (waited: u64)
        ensures
            waited == self@.waited(now),
    {
        if now >= self.queued_at {
            now - self.queued_at
        } else {
            0
        }
    }
}

/// The first place at or after `from` where the user waits in `entries`.
pub open spec fn place_from(entries: Seq<QueuedPlayerView>, user_id: u128, from: int) -> Option<int>
    decreases entries.len() - from,
{
    if from < 0 || from >= entries.len() {
        None
    } else if entries[from].user_id == user_id {
        Some(from)
    } else {
        place_from(entries, user_id, from + 1)
    }
}

/// The place where the user waits in `entries`.
pub open spec fn place(entries: Seq<QueuedPlayerView>, user_id: u128) -> Option<int> {
    place_from(entries, user_id, 0)
}

/// `entries` without the user.
pub open spec fn without(entries: Seq<QueuedPlayerView>, user_id: u128) -> Seq<QueuedPlayerView> {
    match place(entries, user_id) {
        Some(i) => entries.remove(i),
        None => entries,
    }
}

/// No user waits twice.
pub open spec fn waits_once(entries: Seq<QueuedPlayerView>) -> bool {
    forall|i: int, j: int|
        0 <= i < j < entries.len() ==> #[trigger] entries[i].user_id != #[trigger] entries[j].user_id
}

/// Number of entries of `entries` whose user is in `connected`.
pub open spec fn connected_in(entries: Seq<QueuedPlayerView>, connected: Set<u128>) -> int
    decreases entries.len(),
{
    if entries.len() == 0 {
        0
    } else {
        connected_in(entries.drop_last(), connected) + if connected.contains(
            entries.last().user_id,
        ) {
            1int
        } else {
            0int
        }
    }
}

/// The entries that are drawn from `entries` for a match of at most `cap`
/// players: the first `cap` whose user is in `connected`, in their order.
pub open spec fn drawn(entries: Seq<QueuedPlayerView>, connected: Set<u128>, cap: int) -> Seq<
    QueuedPlayerView,
>
    decreases entries.len(),
{
    if entries.len() == 0 {
        Seq::empty()
    } else {
        let before = drawn(entries.drop_last(), connected, cap);
        if connected.contains(entries.last().user_id) && before.len() < cap {
            before.push(entries.last())
        } else {
            before
        }
    }
}

/// The entries that stay when a match is drawn from `entries`, in their
/// order.
pub open spec fn passed_over(entries: Seq<QueuedPlayerView>, connected: Set<u128>, cap: int) -> Seq<
    QueuedPlayerView,
>
    decreases entries.len(),
{
    if entries.len() == 0 {
        Seq::empty()
    } else {
        let before = passed_over(entries.drop_last(), connected, cap);
        if connected.contains(entries.last().user_id) && drawn(
            entries.drop_last(),
            connected,
            cap,
        ).len() < cap {
            before
        } else {
            before.push(entries.last())
        }
    }
}

/// What a `MatchmakingQueue` holds.
pub struct QueueView {
    /// The waiting players, oldest first.
    pub entries: Seq<QueuedPlayerView>,
    pub min_players: usize,
    pub max_players: usize,
    /// Longest wait before a match is formed with fewer players, in
    /// milliseconds.
    pub max_wait_time: u64,
}

impl QueueView {
    /// No user waits twice.
    pub open spec fn wf(self) -> bool {
        waits_once(self.entries)
    }

    /// The user waits in the queue.
    pub open spec fn holds(self, user_id: u128) -> bool {
        place(self.entries, user_id).is_some()
    }

    /// The queue after a player has joined it: at the back, and no longer
    /// where the same user may have waited before.
    pub open spec fn enqueued(self, player: QueuedPlayerView) -> QueueView {
        QueueView { entries: without(self.entries, player.user_id).push(player), ..self }
    }

    /// The queue after the user has left it.
    pub open spec fn dequeued(self, user_id: u128) -> QueueView {
        QueueView { entries: without(self.entries, user_id), ..self }
    }

    /// Enough players wait for a match.
    pub open spec fn has_enough(self) -> bool {
        self.entries.len() >= self.min_players
    }

    /// Too few players wait, but the one who came first has waited the
    /// longest allowed time at `now`.
    pub open spec fn is_overdue(self, now: u64) -> bool {
        !self.has_enough() && self.entries.len() >= 1 && self.entries[0].waited(now)
            >= self.max_wait_time
    }

    /// Number of players of a match that is formed from enough players: all
    /// who wait, up to the most that a match takes.
    pub open spec fn batch_size(self) -> int {
        if self.entries.len() <= self.max_players {
            self.entries.len() as int
        } else {
            self.max_players as int
        }
    }

    /// The match that is formed at time `now`: from the front of the queue
    /// when enough players wait, from everybody when the first has waited
    /// too long, and otherwise none.
    pub open spec fn formed(self, now: u64) -> Option<Seq<QueuedPlayerView>> {
        if self.has_enough() {
            Some(self.entries.take(self.batch_size()))
        } else if self.is_overdue(now) {
            Some(self.entries)
        } else {
            None
        }
    }

    /// The queue after a match has been formed at time `now`.
    pub open spec fn after_forming(self, now: u64) -> QueueView {
        if self.has_enough() {
            QueueView { entries: self.entries.skip(self.batch_size()), ..self }
        } else if self.is_overdue(now) {
            QueueView { entries: Seq::empty(), ..self }
        } else {
            self
        }
    }

    /// A waiting player whose user is in `connected` has waited the longest
    /// allowed time at `now`.
    pub open spec fn connected_overdue(self, connected: Set<u128>, now: u64) -> bool {
        exists|i: int|
            0 <= i < self.entries.len() && connected.contains((#[trigger] self.entries[i]).user_id)
                && self.entries[i].waited(now) >= self.max_wait_time
    }

    /// A match is due for the waiting players whose users are in
    /// `connected`: enough of them wait, or at least one does and one of
    /// them has waited too long.
    pub open spec fn match_due(self, connected: Set<u128>, now: u64) -> bool {
        let count = connected_in(self.entries, connected);
        count >= self.min_players || (count >= 1 && self.connected_overdue(connected, now))
    }
}

/// The matchmaking queue.
#[derive(Debug)]
pub struct MatchmakingQueue {
    queue: VecDeque<QueuedPlayer>,
    min_players: usize,
    max_players: usize,
    max_wait_time: u64,
    /// The clock on which waiting is measured; it starts with the queue and
    /// never steps back.
    clock: Timer,
}

impl View for MatchmakingQueue {
    type V = QueueView;

    closed spec fn view(&self) -> QueueView {
        QueueView {
            entries: self.queue.deep_view(),
            min_players: self.min_players,
            max_players: self.max_players,
            max_wait_time: self.max_wait_time,
        }
    }
}

/// A queue's deep view holds the view of each of its entries.
proof fn lemma_entry_views(queue: &VecDeque<QueuedPlayer>)
    ensures
        queue.deep_view().len() == queue.len(),
        forall|j: int| 0 <= j < queue.len() ==> #[trigger] queue.deep_view()[j] == queue@[j]@,
        forall|j: int| 0 <= j < queue.len() ==> (#[trigger] queue@[j])@ == queue.deep_view()[j],
{
}

/// `place_from` finds the first entry of the user, if there is one.
pub proof fn lemma_place_from(entries: Seq<QueuedPlayerView>, user_id: u128, from: int)
    requires
        0 <= from,
    ensures
        match place_from(entries, user_id, from) {
            Some(i) => from <= i < entries.len() && entries[i].user_id == user_id && forall|j: int|
                from <= j < i ==> entries[j].user_id != user_id,
            None => forall|j: int| from <= j < entries.len() ==> entries[j].user_id != user_id,
        },
    decreases entries.len() - from,
{
    if from < entries.len() && entries[from].user_id != user_id {
        lemma_place_from(entries, user_id, from + 1);
    }
}

impl MatchmakingQueue {
    /// No user waits twice.
    pub open spec fn wf(self) -> bool {
        self@.wf()
    }

    /// An empty queue that forms matches of `min_players` to `max_players`
    /// players, and of fewer once a player has waited `max_wait_secs`
    /// seconds.
    pub fn new(min_players: usize, max_players: usize, max_wait_secs: u64) -> (q: MatchmakingQueue)
        ensures
            q@ == (QueueView {
                entries: Seq::empty(),
                min_players,
                max_players,
                max_wait_time: if max_wait_secs * 1000 > u64::MAX {
                    u64::MAX
                } else {
                    (max_wait_secs * 1000) as u64
                },
            }),
            q.wf(),
    {
        let queue: VecDeque<QueuedPlayer> = VecDeque::new();
        assert(queue.deep_view() =~= Seq::empty());
        MatchmakingQueue {
            queue,
            min_players,
            max_players,
            max_wait_time: if max_wait_secs > u64::MAX / 1000 {
                u64::MAX
            } else {
                max_wait_secs * 1000
            },
            clock: Timer::new(),
        }
    }

    /// The clock on which the queue measures waiting.
    pub fn clock(&self) -> &Timer {
        &self.clock
    }

    /// Milliseconds on the queue's clock now.
    pub fn now(&self) -> u64 {
        self.clock.elapsed_ms()
    }

    /// Finds the place where the user waits.
    fn find(&self, user_id: u128) -> (found: Option<usize>)
        ensures
            match found {
                Some(i) => place(self@.entries, user_id) == Some(i as int) && i < self.queue.len(),
                None => place(self@.entries, user_id).is_none(),
            },
    {
        let mut i: usize = 0;
        proof {
            lemma_entry_views(&self.queue);
        }
        while i < self.queue.len()
            invariant
                i <= self.queue.len(),
                place(self@.entries, user_id) == place_from(self@.entries, user_id, i as int),
                forall|j: int|
                    0 <= j < self.queue.len() ==> #[trigger] self@.entries[j] == self.queue@[j]@,
            decreases self.queue.len() - i,
        {
            if self.queue[i].user_id == user_id {
                return Some(i);
            }
            i += 1;
        }
        None
    }

    /// Puts a player at the back of the queue; a user who waits already
    /// gives up the earlier place.
    pub fn enqueue(&mut self, player: QueuedPlayer)
        requires
            old(self).wf(),
        ensures
            final(self)@ == old(self)@.enqueued(player@),
            final(self).wf(),
    {
        let ghost before = self@.entries;
        proof {
            lemma_entry_views(&self.queue);
            lemma_place_from(before, player.user_id, 0);
        }
        match self.find(player.user_id) {
            Some(i) => {
                let _earlier = self.queue.remove(i);
            },
            None => {},
        }
        proof {
            lemma_entry_views(&self.queue);
            assert(self.queue.deep_view() =~= without(before, player.user_id));
        }
        let ghost rest = self.queue.deep_view();
        self.queue.push_back(player);
        proof {
            lemma_entry_views(&self.queue);
            assert(self.queue.deep_view() =~= rest.push(player@));
        }
    }

    /// Takes the user out of the queue and returns the entry, if the user
    /// waited.
    pub fn dequeue(&mut self, user_id: u128) -> (entry: Option<QueuedPlayer>)
        requires
            old(self).wf(),
        ensures
            final(self)@ == old(self)@.dequeued(user_id),
            match entry {
                Some(p) => place(old(self)@.entries, user_id).is_some() && p@ == old(
                    self,
                )@.entries[place(old(self)@.entries, user_id).unwrap()],
                None => !old(self)@.holds(user_id),
            },
            final(self).wf(),
    {
        let ghost before = self@.entries;
        proof {
            lemma_entry_views(&self.queue);
        }
        match self.find(user_id) {
            Some(i) => {
                let entry = self.queue.remove(i);
                proof {
                    lemma_entry_views(&self.queue);
                    assert(self.queue.deep_view() =~= before.remove(i as int));
                }
                entry
            },
            None => None,
        }
    }

    /// Whether the user waits in the queue.
    pub fn contains(&self, user_id: &u128) -> (waits: bool)
        ensures
            waits == self@.holds(*user_id),
    {
        self.find(*user_id).is_some()
    }

    /// Number of waiting players.
    pub fn len(&self) -> (n: usize)
        ensures
            n == self@.entries.len(),
    {
        proof {
            lemma_entry_views(&self.queue);
        }
        self.queue.len()
    }

    /// Whether nobody waits.
    pub fn is_empty(&self) -> (empty: bool)
        ensures
            empty == (self@.entries.len() == 0),
    {
        proof {
            lemma_entry_views(&self.queue);
        }
        self.queue.len() == 0
    }

    /// Fewest players of a match.
    pub fn min_players(&self) -> (n: usize)
        ensures
            n == self@.min_players,
    {
        self.min_players
    }

    /// Most players of a match.
    pub fn max_players(&self) -> (n: usize)
        ensures
            n == self@.max_players,
    {
        self.max_players
    }

    /// The user ids of the waiting players, oldest first.
    pub fn user_ids(&self) -> (ids: Vec<u128>)
        ensures
            ids@ == Seq::new(self@.entries.len(), |i: int| self@.entries[i].user_id),
    {
        let mut ids: Vec<u128> = Vec::new();
        let mut i: usize = 0;
        proof {
            lemma_entry_views(&self.queue);
        }
        while i < self.queue.len()
            invariant
                i <= self.queue.len(),
                ids.len() == i,
                forall|j: int| 0 <= j < i ==> ids@[j] == self.queue@[j].user_id,
            decreases self.queue.len() - i,
        {
            ids.push(self.queue[i].user_id);
            i += 1;
        }
        proof {
            assert(ids@ =~= Seq::new(self@.entries.len(), |i: int| self@.entries[i].user_id));
        }
        ids
    }

    /// Takes the first `count` players out of the queue.
    fn take_front(&mut self, count: usize) -> (batch: Vec<QueuedPlayer>)
        requires
            count <= old(self)@.entries.len(),
        ensures
            batch.deep_view() == old(self)@.entries.take(count as int),
            final(self)@ == (QueueView {
                entries: old(self)@.entries.skip(count as int),
                ..old(self)@
            }),
    {
        let ghost before = self@.entries;
        let mut batch: Vec<QueuedPlayer> = Vec::new();
        let mut i: usize = 0;
        proof {
            lemma_entry_views(&self.queue);
        }
        while i < count
            invariant
                i <= count,
                count <= before.len(),
                batch.len() == i,
                self.queue.len() == before.len() - i,
                forall|j: int| 0 <= j < i ==> (#[trigger] batch@[j])@ == before[j],
                forall|j: int|
                    0 <= j < self.queue.len() ==> (#[trigger] self.queue@[j])@ == before[i + j],
                self.min_players == old(self).min_players,
                self.max_players == old(self).max_players,
                self.max_wait_time == old(self).max_wait_time,
            decreases count - i,
        {
            match self.queue.pop_front() {
                Some(p) => {
                    batch.push(p);
                },
                None => {},
            }
            i += 1;
        }
        proof {
            lemma_entry_views(&self.queue);
            assert(batch.deep_view() =~= before.take(count as int));
            assert(self.queue.deep_view() =~= before.skip(count as int));
        }
        batch
    }

    /// Forms a match at time `now`, if one is due, and takes its players
    /// out of the queue.
    pub fn try_form_match_at(&mut self, now: u64) -> (batch: Option<Vec<QueuedPlayer>>)
        requires
            old(self).wf(),
        ensures
            final(self)@ == old(self)@.after_forming(now),
            match batch {
                Some(players) => old(self)@.formed(now) == Some(players.deep_view()),
                None => old(self)@.formed(now).is_none(),
            },
            final(self).wf(),
    {
        proof {
            lemma_entry_views(&self.queue);
        }
        let waiting = self.queue.len();
        if waiting >= self.min_players {
            let count = if waiting <= self.max_players {
                waiting
            } else {
                self.max_players
            };
            return Some(self.take_front(count));
        }
        if waiting >= 1 && self.queue[0].waited(now) >= self.max_wait_time {
            let all = self.take_front(waiting);
            proof {
                assert(old(self)@.entries.take(waiting as int) =~= old(self)@.entries);
                assert(old(self)@.entries.skip(waiting as int) =~= Seq::empty());
            }
            return Some(all);
        }
        None
    }

    /// Forms a match now, by the queue's clock, if one is due.
    pub fn try_form_match(&mut self) -> (batch: Option<Vec<QueuedPlayer>>)
        requires
            old(self).wf(),
        ensures
            exists|now: u64|
                final(self)@ == #[trigger] old(self)@.after_forming(now) && match batch {
                    Some(players) => old(self)@.formed(now) == Some(players.deep_view()),
                    None => old(self)@.formed(now).is_none(),
                },
            final(self).wf(),
    {
        let now = self.now();
        self.try_form_match_at(now)
    }

    /// Number of waiting players whose user is in `connected`.
    pub fn connected_count(&self, connected: &HashSet<u128>) -> (n: usize)
        ensures
            n == connected_in(self@.entries, connected@),
    {
        let mut n: usize = 0;
        let mut i: usize = 0;
        proof {
            lemma_entry_views(&self.queue);
        }
        while i < self.queue.len()
            invariant
                i <= self.queue.len(),
                n <= i,
                n == connected_in(self@.entries.take(i as int), connected@),
                forall|j: int|
                    0 <= j < self.queue.len() ==> #[trigger] self@.entries[j] == self.queue@[j]@,
            decreases self.queue.len() - i,
        {
            proof {
                assert(self@.entries.take(i + 1).drop_last() == self@.entries.take(i as int));
            }
            if connected.contains(&self.queue[i].user_id) {
                n += 1;
            }
            i += 1;
        }
        proof {
            assert(self@.entries.take(self.queue.len() as int) == self@.entries);
        }
        n
    }

    /// Whether a waiting player whose user is in `connected` has waited the
    /// longest allowed time at `now`.
    pub fn has_waited_too_long_at(&self, connected: &HashSet<u128>, now: u64) -> (overdue: bool)
        ensures
            overdue == self@.connected_overdue(connected@, now),
    {
        let mut i: usize = 0;
        proof {
            lemma_entry_views(&self.queue);
        }
        while i < self.queue.len()
            invariant
                i <= self.queue.len(),
                forall|j: int|
                    0 <= j < self.queue.len() ==> #[trigger] self@.entries[j] == self.queue@[j]@,
                forall|j: int|
                    0 <= j < i ==> !(connected@.contains((#[trigger] self@.entries[j]).user_id)
                        && self@.entries[j].waited(now) >= self@.max_wait_time),
            decreases self.queue.len() - i,
        {
            if connected.contains(&self.queue[i].user_id) && self.queue[i].waited(now)
                >= self.max_wait_time {
                proof {
                    let entry = self@.entries[i as int];
                    assert(connected@.contains(entry.user_id) && entry.waited(now)
                        >= self@.max_wait_time);
                }
                return true;
            }
            i += 1;
        }
        false
    }

    /// Whether a waiting player whose user is in `connected` has waited the
    /// longest allowed time, by the queue's clock.
    pub fn has_waited_too_long(&self, connected: &HashSet<u128>) -> (overdue: bool)
        ensures
            exists|now: u64| overdue == #[trigger] self@.connected_overdue(connected@, now),
    {
        self.has_waited_too_long_at(connected, self.now())
    }

    /// Takes out of the queue the first `max_count` players whose user is
    /// in `connected`; the others keep their places.
    pub fn drain_connected(&mut self, connected: &HashSet<u128>, max_count: usize) -> (batch: Vec<
        QueuedPlayer,
    >)
        requires
            old(self).wf(),
        ensures
            batch.deep_view() == drawn(old(self)@.entries, connected@, max_count as int),
            final(self)@ == (QueueView {
                entries: passed_over(old(self)@.entries, connected@, max_count as int),
                ..old(self)@
            }),
            batch.len() <= max_count,
            forall|k: int|
                0 <= k < batch.len() ==> connected@.contains((#[trigger] batch@[k]).user_id),
            final(self).wf(),
    {
        let ghost before = self@.entries;
        let mut extracted: Vec<QueuedPlayer> = Vec::new();
        let mut remaining: VecDeque<QueuedPlayer> = VecDeque::new();
        let total = self.queue.len();
        let mut i: usize = 0;
        proof {
            lemma_entry_views(&self.queue);
            lemma_entry_views(&remaining);
            assert(extracted.deep_view() =~= drawn(before.take(0), connected@, max_count as int));
            assert(remaining.deep_view() =~= passed_over(
                before.take(0),
                connected@,
                max_count as int,
            ));
        }
        while i < total
            invariant
                i <= total,
                total == before.len(),
                self.queue.len() == total - i,
                forall|j: int|
                    0 <= j < self.queue.len() ==> (#[trigger] self.queue@[j])@ == before[i + j],
                extracted.deep_view() == drawn(before.take(i as int), connected@, max_count as int),
                remaining.deep_view() == passed_over(
                    before.take(i as int),
                    connected@,
                    max_count as int,
                ),
                self.min_players == old(self).min_players,
                self.max_players == old(self).max_players,
                self.max_wait_time == old(self).max_wait_time,
            decreases total - i,
        {
            proof {
                assert(before.take(i + 1).drop_last() == before.take(i as int));
            }
            let ghost drawn_before = extracted.deep_view();
            let ghost passed_before = remaining.deep_view();
            match self.queue.pop_front() {
                Some(player) => {
                    if connected.contains(&player.user_id) && extracted.len() < max_count {
                        extracted.push(player);
                        proof {
                            assert(extracted.deep_view() =~= drawn_before.push(before[i as int]));
                        }
                    } else {
                        remaining.push_back(player);
                        proof {
                            assert(remaining.deep_view() =~= passed_before.push(before[i as int]));
                        }
                    }
                },
                None => {},
            }
            i += 1;
        }
        proof {
            assert(before.take(total as int) == before);
            lemma_passed_over_waits_once(before, connected@, max_count as int);
            lemma_drawn_bounds(before, connected@, max_count as int);
            assert forall|k: int| 0 <= k < extracted.len() implies connected@.contains(
                (#[trigger] extracted@[k]).user_id,
            ) by {
                assert(extracted.deep_view()[k] == extracted@[k]@);
            }
        }
        self.queue = remaining;
        extracted
    }
}

/// A match that is drawn has at most `cap` players, and the user of each
/// is in `connected`.
pub proof fn lemma_drawn_bounds(entries: Seq<QueuedPlayerView>, connected: Set<u128>, cap: int)
    requires
        cap >= 0,
    ensures
        drawn(entries, connected, cap).len() <= cap,
        drawn(entries, connected, cap).len() <= entries.len(),
        forall|k: int|
            0 <= k < drawn(entries, connected, cap).len() ==> connected.contains(
                (#[trigger] drawn(entries, connected, cap)[k]).user_id,
            ),
    decreases entries.len(),
{
    if entries.len() > 0 {
        lemma_drawn_bounds(entries.drop_last(), connected, cap);
    }
}

/// Everybody who stays when a match is drawn waited before, in the same
/// order; so nobody waits twice afterwards.
pub proof fn lemma_passed_over_waits_once(entries: Seq<QueuedPlayerView>, connected: Set<u128>, cap: int)
    requires
        waits_once(entries),
    ensures
        waits_once(passed_over(entries, connected, cap)),
        forall|k: int|
            0 <= k < passed_over(entries, connected, cap).len() ==> exists|i: int|
                0 <= i < entries.len() && entries[i] == #[trigger] passed_over(
                    entries,
                    connected,
                    cap,
                )[k],
    decreases entries.len(),
{
    if entries.len() > 0 {
        let rest = entries.drop_last();
        lemma_passed_over_waits_once(rest, connected, cap);
        let before = passed_over(rest, connected, cap);
        let all = passed_over(entries, connected, cap);
        assert forall|k: int| 0 <= k < all.len() implies exists|i: int|
            0 <= i < entries.len() && entries[i] == #[trigger] all[k] by {
            if k < before.len() {
                let i = choose|i: int| 0 <= i < rest.len() && rest[i] == before[k];
                assert(entries[i] == all[k]);
            } else {
                assert(entries[entries.len() - 1] == all[k]);
            }
        }
        assert forall|a: int, b: int| 0 <= a < b < all.len() implies #[trigger] all[a].user_id
            != #[trigger] all[b].user_id by {
            if b < before.len() {
                assert(before[a].user_id != before[b].user_id);
            } else {
                let i = choose|i: int| 0 <= i < rest.len() && rest[i] == before[a];
                assert(entries[i].user_id != entries[entries.len() - 1].user_id);
            }
        }
    }
}

impl Default for MatchmakingQueue {
    /// The standard queue: matches of 1 to 20 players, so that a player who
    /// waits alone gets a match at once; with a larger minimum a match would
    /// be formed with fewer players after 5 seconds.
    fn default() -> (q: MatchmakingQueue)
        ensures
            q@ == (QueueView {
                entries: Seq::empty(),
                min_players: 1,
                max_players: 20,
                max_wait_time: 5000,
            }),
            q.wf(),
    {
        MatchmakingQueue::new(1, 20, 5)
    }
}

} // verus!
