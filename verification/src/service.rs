//! The matchmaking service: who is connected, who waits, and who plays in
//! which match.
//!
//! The service decides; its owner connects the channels, starts the match
//! tasks and calls the service when something happens.

use crate::game_match::GameMatch;
use crate::ids::fresh_id;
use crate::match_state::MatchView;
use crate::player::PlayerInput;
use crate::protocol::ClientMsg;
use crate::queue::{drawn, passed_over, MatchmakingQueue, QueueView, QueuedPlayer, QueuedPlayerView};
use crate::time::{unix_millis, Timer};
use std::collections::{HashMap, HashSet};
use vstd::prelude::*;

verus! {

broadcast use vstd::std_specs::hash::group_hash_axioms;

/// Fewest players with which a match begins its countdown. It is the
/// standard queue's minimum: the queue decides how many players a match
/// gets, a match of one player is allowed, and a match begins its countdown
/// as soon as the first of its players has joined.
pub const MATCH_MIN_PLAYERS: usize = 1;

/// Most players of a match.
pub const MATCH_MAX_PLAYERS: usize = 20;

/// Why a player cannot join the queue.
#[derive(Debug, Clone, Copy, PartialEq, Eq, Structural)]
pub enum JoinQueueError {
    /// The player is in a match.
    AlreadyInMatch,
}

impl JoinQueueError {
    /// The text that tells of the error.
    pub fn message(&self) -> (text: &'static str)
        ensures
            text@ == "Already in a match"@,
    {
        "Already in a match"
    }
}

/// Draws a random seed for a match.
///
/// Trusted: calls `rand::random::<u64>`, which draws from the thread's
/// random generator; nothing is known of the number.
#[verifier::external_body]
fn random_seed() -> u64 {
    rand::random::<u64>()
}

/// What a `MatchmakingService` holds.
pub struct ServiceView {
    pub queue: QueueView,
    /// The users with a connection.
    pub connected: Set<u128>,
    /// The match of each user who plays.
    pub player_matches: Map<u128, u128>,
}

/// The join requests that move the connected players of `players` into the
/// match `match_id` at time `now`, in the players' order.
pub open spec fn join_requests(
    players: Seq<QueuedPlayerView>,
    connected: Set<u128>,
    match_id: u128,
    now: u64,
) -> Seq<PlayerInput>
    decreases players.len(),
{
    if players.len() == 0 {
        Seq::empty()
    } else {
        let before = join_requests(players.drop_last(), connected, match_id, now);
        if connected.contains(players.last().user_id) {
            before.push(
                PlayerInput {
                    user_id: players.last().user_id,
                    msg: ClientMsg::JoinMatch {
                        match_id: Some(match_id),
                        ship_type: players.last().ship_type,
                    },
                    received_at: now,
                },
            )
        } else {
            before
        }
    }
}

/// `matches` with every player of `players` assigned to the match
/// `match_id`.
pub open spec fn assigned(matches: Map<u128, u128>, players: Seq<QueuedPlayerView>, match_id: u128) -> Map<
    u128,
    u128,
>
    decreases players.len(),
{
    if players.len() == 0 {
        matches
    } else {
        assigned(matches, players.drop_last(), match_id).insert(players.last().user_id, match_id)
    }
}

/// `matches` without the users `members`.
pub open spec fn released(matches: Map<u128, u128>, members: Seq<u128>) -> Map<u128, u128>
    decreases members.len(),
{
    if members.len() == 0 {
        matches
    } else {
        released(matches, members.drop_last()).remove(members.last())
    }
}

impl ServiceView {
    /// The queue is consistent.
    pub open spec fn wf(self) -> bool {
        self.queue.wf()
    }

    /// The service after the user has connected.
    pub open spec fn registered(self, user_id: u128) -> ServiceView {
        ServiceView { connected: self.connected.insert(user_id), ..self }
    }

    /// The service after the user has disconnected: the user is neither
    /// connected nor assigned to a match nor waiting.
    pub open spec fn unregistered(self, user_id: u128) -> ServiceView {
        ServiceView {
            connected: self.connected.remove(user_id),
            player_matches: self.player_matches.remove(user_id),
            queue: self.queue.dequeued(user_id),
        }
    }

    /// The service after a player has asked to wait for a match: a player
    /// who is in a match is turned away, any other is put at the back of
    /// the queue.
    pub open spec fn queue_joined(self, player: QueuedPlayerView) -> ServiceView {
        if self.player_matches.contains_key(player.user_id) {
            self
        } else {
            ServiceView { queue: self.queue.enqueued(player), ..self }
        }
    }

    /// The players of the match that is formed at time `now`: where a match
    /// is due for the connected players who wait, the first of them up to
    /// the most that a match takes. None where no match is due or nobody
    /// would be in it.
    pub open spec fn batch(self, now: u64) -> Option<Seq<QueuedPlayerView>> {
        let players = drawn(self.queue.entries, self.connected, self.queue.max_players as int);
        if self.queue.match_due(self.connected, now) && players.len() > 0 {
            Some(players)
        } else {
            None
        }
    }

    /// The service after a look at the queue at time `now`: the players of
    /// a match that is formed have left the queue.
    pub open spec fn polled(self, now: u64) -> ServiceView {
        if self.queue.match_due(self.connected, now) {
            ServiceView {
                queue: QueueView {
                    entries: passed_over(
                        self.queue.entries,
                        self.connected,
                        self.queue.max_players as int,
                    ),
                    ..self.queue
                },
                ..self
            }
        } else {
            self
        }
    }
}

/// The matchmaking service.
pub struct MatchmakingService {
    queue: MatchmakingQueue,
    connected: HashSet<u128>,
    player_matches: HashMap<u128, u128>,
}

impl View for MatchmakingService {
    type V = ServiceView;

    closed spec fn view(&self) -> ServiceView {
        ServiceView {
            queue: self.queue@,
            connected: self.connected@,
            player_matches: self.player_matches@,
        }
    }
}

/// What the service hands to the task of a new match.
pub struct NewMatch {
    /// The match.
    pub game: GameMatch,
    /// The join requests to send through the players' connections.
    pub joins: Vec<PlayerInput>,
    /// The users who are assigned to the match.
    pub members: Vec<u128>,
}

impl MatchmakingService {
    /// The service is consistent.
    pub open spec fn wf(self) -> bool {
        self@.wf()
    }

    /// A service with the standard queue, nobody connected and no match.
    pub fn new() -> (service: MatchmakingService)
        ensures
            service@ == (ServiceView {
                queue: QueueView {
                    entries: Seq::empty(),
                    min_players: 1,
                    max_players: 20,
                    max_wait_time: 5000,
                },
                connected: Set::<u128>::empty(),
                player_matches: Map::<u128, u128>::empty(),
            }),
            service.wf(),
    {
        MatchmakingService {
            queue: MatchmakingQueue::default(),
            connected: HashSet::new(),
            player_matches: HashMap::new(),
        }
    }

    /// Notes that the user has connected.
    pub fn register_player(&mut self, user_id: u128)
        requires
            old(self).wf(),
        ensures
            final(self)@ == old(self)@.registered(user_id),
            final(self).wf(),
    {
        self.connected.insert(user_id);
    }

    /// Notes that the user has disconnected.
    pub fn unregister_player(&mut self, user_id: u128)
        requires
            old(self).wf(),
        ensures
            final(self)@ == old(self)@.unregistered(user_id),
            final(self).wf(),
    {
        self.connected.remove(&user_id);
        self.player_matches.remove(&user_id);
        let _entry = self.queue.dequeue(user_id);
    }

    /// The clock on which the queue measures waiting; a player who is to
    /// join the queue is stamped with its reading.
    pub fn clock(&self) -> &Timer {
        self.queue.clock()
    }

    /// Whether the user is connected.
    pub fn is_connected(&self, user_id: &u128) -> (connected: bool)
        ensures
            connected == self@.connected.contains(*user_id),
    {
        self.connected.contains(user_id)
    }

    /// Puts a player into the queue, unless the player is in a match.
    pub fn join_queue(&mut self, player: QueuedPlayer) -> (r: Result<(), JoinQueueError>)
        requires
            old(self).wf(),
        ensures
            final(self)@ == old(self)@.queue_joined(player@),
            r.is_err() == old(self)@.player_matches.contains_key(player.user_id),
            final(self).wf(),
    {
        if self.player_matches.contains_key(&player.user_id) {
            return Err(JoinQueueError::AlreadyInMatch);
        }
        self.queue.enqueue(player);
        Ok(())
    }

    /// Takes the user out of the queue.
    pub fn leave_queue(&mut self, user_id: u128)
        requires
            old(self).wf(),
        ensures
            final(self)@ == (ServiceView {
                queue: old(self)@.queue.dequeued(user_id),
                ..old(self)@
            }),
            final(self).wf(),
    {
        let _entry = self.queue.dequeue(user_id);
    }

    /// Looks at the queue at time `now` and returns the players of the
    /// match that is to be made, if one is due.
    pub fn poll_at(&mut self, now: u64) -> (batch: Option<Vec<QueuedPlayer>>)
        requires
            old(self).wf(),
        ensures
            final(self)@ == old(self)@.polled(now),
            match batch {
                Some(players) => old(self)@.batch(now) == Some(players.deep_view()),
                None => old(self)@.batch(now).is_none(),
            },
            final(self).wf(),
    {
        let count = self.queue.connected_count(&self.connected);
        let overdue = self.queue.has_waited_too_long_at(&self.connected, now);
        if count >= self.queue.min_players() || (count >= 1 && overdue) {
            let players = self.queue.drain_connected(&self.connected, self.queue.max_players());
            if players.len() > 0 {
                Some(players)
            } else {
                None
            }
        } else {
            None
        }
    }

    /// Looks at the queue now, by the queue's clock.
    pub fn poll(&mut self) -> (batch: Option<Vec<QueuedPlayer>>)
        requires
            old(self).wf(),
        ensures
            exists|now: u64|
                final(self)@ == #[trigger] old(self)@.polled(now) && match batch {
                    Some(players) => old(self)@.batch(now) == Some(players.deep_view()),
                    None => old(self)@.batch(now).is_none(),
                },
            final(self).wf(),
    {
        let now = self.queue.now();
        self.poll_at(now)
    }

    /// Makes the match `match_id` with the seed `seed` for `players` at
    /// time `now`: assigns every player to the match and returns the match,
    /// which begins its countdown with `MATCH_MIN_PLAYERS` players and takes
    /// `MATCH_MAX_PLAYERS`, together with the join requests of the players
    /// who are connected.
    pub fn create_match_with(
        &mut self,
        players: &Vec<QueuedPlayer>,
        match_id: u128,
        seed: u64,
        now: u64,
    ) -> (made: NewMatch)
        requires
            old(self).wf(),
        ensures
            final(self)@ == (ServiceView {
                player_matches: assigned(
                    old(self)@.player_matches,
                    players.deep_view(),
                    match_id,
                ),
                ..old(self)@
            }),
            made.game@.state == MatchView::fresh(
                match_id,
                seed,
                MATCH_MIN_PLAYERS,
                MATCH_MAX_PLAYERS,
                made.game.state.zone_config,
            ),
            made.game.state.zone_config.is_standard(),
            made.game.wf(),
            made.joins@ == join_requests(
                players.deep_view(),
                old(self)@.connected,
                match_id,
                now,
            ),
            made.members@ == Seq::new(players.len() as nat, |i: int| players.deep_view()[i].user_id),
            final(self).wf(),
    {
        let game = GameMatch::new(match_id, seed, MATCH_MIN_PLAYERS, MATCH_MAX_PLAYERS);
        let mut joins: Vec<PlayerInput> = Vec::new();
        let mut members: Vec<u128> = Vec::new();
        let ghost before = self@;
        let ghost batch = players.deep_view();
        let mut i: usize = 0;
        while i < players.len()
            invariant
                i <= players.len(),
                batch == players.deep_view(),
                self@ == (ServiceView {
                    player_matches: assigned(before.player_matches, batch.take(i as int), match_id),
                    ..before
                }),
                joins@ == join_requests(batch.take(i as int), before.connected, match_id, now),
                members.len() == i,
                forall|j: int| 0 <= j < i ==> members@[j] == batch[j].user_id,
            decreases players.len() - i,
        {
            proof {
                assert(batch.take(i + 1).drop_last() == batch.take(i as int));
            }
            let user_id = players[i].user_id;
            self.player_matches.insert(user_id, match_id);
            members.push(user_id);
            if self.connected.contains(&user_id) {
                joins.push(
                    PlayerInput {
                        user_id,
                        msg: ClientMsg::JoinMatch {
                            match_id: Some(match_id),
                            ship_type: players[i].ship_type,
                        },
                        received_at: now,
                    },
                );
            }
            i += 1;
        }
        proof {
            assert(batch.take(players.len() as int) == batch);
            assert(members@ =~= Seq::new(players.len() as nat, |i: int| batch[i].user_id));
        }
        NewMatch { game, joins, members }
    }

    /// Makes a match for `players` with a fresh random id and seed, now by
    /// the wall clock.
    pub fn create_match(&mut self, players: &Vec<QueuedPlayer>) -> (made: NewMatch)
        requires
            old(self).wf(),
        ensures
            final(self)@ == (ServiceView {
                player_matches: assigned(
                    old(self)@.player_matches,
                    players.deep_view(),
                    made.game.state.id,
                ),
                ..old(self)@
            }),
            made.game@.state == MatchView::fresh(
                made.game.state.id,
                made.game.state.seed,
                MATCH_MIN_PLAYERS,
                MATCH_MAX_PLAYERS,
                made.game.state.zone_config,
            ),
            made.game.state.zone_config.is_standard(),
            made.game.wf(),
            made.members@ == Seq::new(players.len() as nat, |i: int| players.deep_view()[i].user_id),
            exists|now: u64|
                made.joins@ == #[trigger] join_requests(
                    players.deep_view(),
                    old(self)@.connected,
                    made.game.state.id,
                    now,
                ),
            final(self).wf(),
    {
        let match_id = fresh_id();
        let seed = random_seed();
        self.create_match_with(players, match_id, seed, unix_millis())
    }

    /// Releases the users `members` from the match that has ended.
    pub fn finish_match(&mut self, members: &Vec<u128>)
        requires
            old(self).wf(),
        ensures
            final(self)@ == (ServiceView {
                player_matches: released(old(self)@.player_matches, members@),
                ..old(self)@
            }),
            final(self).wf(),
    {
        let ghost before = self@;
        let mut i: usize = 0;
        while i < members.len()
            invariant
                i <= members.len(),
                self@ == (ServiceView {
                    player_matches: released(before.player_matches, members@.take(i as int)),
                    ..before
                }),
            decreases members.len() - i,
        {
            proof {
                assert(members@.take(i + 1).drop_last() == members@.take(i as int));
            }
            self.player_matches.remove(&members[i]);
            i += 1;
        }
        proof {
            assert(members@.take(members.len() as int) == members@);
        }
    }

    /// Number of players who wait.
    pub fn queue_size(&self) -> (n: usize)
        ensures
            n == self@.queue.entries.len(),
    {
        self.queue.len()
    }

    /// Whether the user waits.
    pub fn is_in_queue(&self, user_id: &u128) -> (waits: bool)
        ensures
            waits == self@.queue.holds(*user_id),
    {
        self.queue.contains(user_id)
    }

    /// The match of the user, if the user plays in one. Input of a user
    /// without a match goes nowhere.
    pub fn get_player_match(&self, user_id: &u128) -> (match_id: Option<u128>)
        ensures
            match match_id {
                Some(id) => self@.player_matches.contains_key(*user_id)
                    && self@.player_matches[*user_id] == id,
                None => !self@.player_matches.contains_key(*user_id),
            },
    {
        match self.player_matches.get(user_id) {
            Some(id) => Some(*id),
            None => None,
        }
    }
}

} // verus!
