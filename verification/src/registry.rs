//! The directory of running matches.

use crate::player::PlayerInput;
use crate::protocol::ServerMsg;
use dashmap::DashMap;
use std::sync::atomic::AtomicUsize;
use std::sync::Arc;
use tokio::sync::broadcast;
use tokio::sync::mpsc;
use vstd::prelude::*;

verus! {

/// The concurrent map of the `dashmap` crate.
#[verifier::external_type_specification]
#[verifier::external_body]
#[verifier::reject_recursive_types(K)]
#[verifier::reject_recursive_types(V)]
#[verifier::reject_recursive_types(S)]
pub struct ExDashMap<K, V, S>(DashMap<K, V, S>);

/// The sending half of a `tokio` channel with many senders and one
/// receiver.
#[verifier::external_type_specification]
#[verifier::external_body]
#[verifier::reject_recursive_types(T)]
pub struct ExInputSender<T>(mpsc::Sender<T>);

/// The sending half of a `tokio` broadcast channel.
#[verifier::external_type_specification]
#[verifier::external_body]
#[verifier::reject_recursive_types(T)]
pub struct ExBroadcastSender<T>(broadcast::Sender<T>);

/// Another handle to the same channel.
///
/// Trusted: `tokio::sync::mpsc::Sender::clone`; nothing is claimed of it.
pub assume_specification<T>[ <mpsc::Sender<T> as Clone>::clone ](sender: &mpsc::Sender<T>) -> mpsc::Sender<T>;

/// Another handle to the same channel.
///
/// Trusted: `tokio::sync::broadcast::Sender::clone`; nothing is claimed of
/// it.
pub assume_specification<T>[ <broadcast::Sender<T> as Clone>::clone ](
    sender: &broadcast::Sender<T>,
) -> broadcast::Sender<T>;

/// How a running match is reached: where its inputs go, where its
/// messages come from, and how many players it has.
#[derive(Clone)]
pub struct MatchHandle {
    pub id: u128,
    pub input_tx: mpsc::Sender<PlayerInput>,
    pub snapshot_tx: broadcast::Sender<ServerMsg>,
    pub player_count: Arc<AtomicUsize>,
}

impl MatchHandle {
    /// Number of players that the match has published last.
    pub fn player_count(&self) -> usize {
        self.player_count.load(std::sync::atomic::Ordering::Relaxed)
    }

    /// Another handle to the same match.
    pub fn duplicate(&self) -> (handle: MatchHandle)
        ensures
            handle.id == self.id,
    {
        MatchHandle {
            id: self.id,
            input_tx: self.input_tx.clone(),
            snapshot_tx: self.snapshot_tx.clone(),
            player_count: self.player_count.clone(),
        }
    }

    /// Publishes the number of players of the match.
    pub fn publish_player_count(&self, count: usize) {
        self.player_count.store(count, std::sync::atomic::Ordering::Relaxed);
    }
}

/// What a directory holds: for every key under which it holds a handle,
/// the match id of that handle.
pub uninterp spec fn directory_held(directory: DashMap<u128, MatchHandle>) -> Map<u128, u128>;

/// What an empty directory holds.
pub open spec fn nothing_held() -> Map<u128, u128> {
    Map::empty()
}

/// An empty directory.
///
/// Trusted: calls `DashMap::new`, which makes a map without entries.
#[verifier::external_body]
fn directory_new() -> (directory: DashMap<u128, MatchHandle>)
    ensures
        directory_held(directory) == nothing_held(),
{
    DashMap::new()
}

/// Puts a handle into the directory under `key`.
///
/// Trusted: calls `DashMap::insert`. The map then holds the handle under
/// the key, in place of an earlier one if there was one, and its other
/// entries are as before.
#[verifier::external_body]
fn directory_insert(directory: &mut DashMap<u128, MatchHandle>, key: u128, handle: MatchHandle)
    ensures
        directory_held(*final(directory)) == directory_held(*old(directory)).insert(
            key,
            handle.id,
        ),
{
    directory.insert(key, handle);
}

/// Takes the handle under `key` out of the directory.
///
/// Trusted: calls `DashMap::remove`. It returns the entry that the map held
/// under the key, if it held one, and the map holds none under it
/// afterwards, with its other entries as before.
#[verifier::external_body]
fn directory_remove(directory: &mut DashMap<u128, MatchHandle>, key: u128) -> (handle: Option<
    MatchHandle,
>)
    ensures
        directory_held(*final(directory)) == directory_held(*old(directory)).remove(key),
        handle.is_some() == directory_held(*old(directory)).contains_key(key),
        handle matches Some(h) ==> h.id == directory_held(*old(directory))[key],
{
    directory.remove(&key).map(|(_, h)| h)
}

/// Another handle to the match whose handle the directory holds under
/// `key`.
///
/// Trusted: calls `DashMap::get`, which finds the entry that the map holds
/// under the key, if it holds one; the handle found is duplicated.
#[verifier::external_body]
fn directory_get(directory: &DashMap<u128, MatchHandle>, key: u128) -> (handle: Option<MatchHandle>)
    ensures
        handle.is_some() == directory_held(*directory).contains_key(key),
        handle matches Some(h) ==> h.id == directory_held(*directory)[key],
{
    directory.get(&key).map(|m| m.value().duplicate())
}

/// Number of handles in the directory.
///
/// Trusted: calls `DashMap::len`, the number of the map's entries.
#[verifier::external_body]
fn directory_len(directory: &DashMap<u128, MatchHandle>) -> (n: usize)
    ensures
        n == directory_held(*directory).dom().len(),
{
    directory.len()
}

/// Every key of the directory with another handle to the match whose
/// handle it holds there, in the order in which the map is walked.
///
/// Trusted: calls `DashMap::iter` and duplicates the handle of each entry.
/// The walk visits every entry once, so there are as many pairs as entries
/// and no key comes twice; its order is not known.
#[verifier::external_body]
fn directory_entries(directory: &DashMap<u128, MatchHandle>) -> (entries: Vec<(u128, MatchHandle)>)
    ensures
        forall|i: int|
            0 <= i < entries.len() ==> directory_held(*directory).contains_key(
                (#[trigger] entries@[i]).0,
            ) && entries@[i].1.id == directory_held(*directory)[entries@[i].0],
        forall|i: int, j: int|
            0 <= i < j < entries.len() ==> (#[trigger] entries@[i]).0 != (#[trigger] entries@[j]).0,
        forall|key: u128|
            directory_held(*directory).contains_key(key) ==> exists|i: int|
                0 <= i < entries.len() && (#[trigger] entries@[i]).0 == key,
        entries.len() == directory_held(*directory).dom().len(),
{
    directory.iter().map(|entry| (*entry.key(), entry.value().duplicate())).collect()
}

/// Sum of the counts, held at the largest value that can be stored.
pub open spec fn counts_sum(counts: Seq<usize>) -> int
    decreases counts.len(),
{
    if counts.len() == 0 {
        0
    } else {
        let sum = counts_sum(counts.drop_last()) + counts.last();
        if sum > usize::MAX {
            usize::MAX as int
        } else {
            sum
        }
    }
}

/// Place of the first count at or after `from` that is below `cap`.
pub open spec fn first_below_from(counts: Seq<usize>, cap: usize, from: int) -> Option<int>
    decreases counts.len() - from,
{
    if from < 0 || from >= counts.len() {
        None
    } else if counts[from] < cap {
        Some(from)
    } else {
        first_below_from(counts, cap, from + 1)
    }
}

/// Adds up the player counts of matches.
pub fn sum_counts(counts: &Vec<usize>) -> (total: usize)
    ensures
        total == counts_sum(counts@),
{
    let mut total: usize = 0;
    let mut i: usize = 0;
    while i < counts.len()
        invariant
            i <= counts.len(),
            total == counts_sum(counts@.take(i as int)),
        decreases counts.len() - i,
    {
        proof {
            assert(counts@.take(i + 1).drop_last() == counts@.take(i as int));
        }
        total = if total > usize::MAX - counts[i] {
            usize::MAX
        } else {
            total + counts[i]
        };
        i += 1;
    }
    proof {
        assert(counts@.take(counts.len() as int) == counts@);
    }
    total
}

/// Finds the first match with fewer than `cap` players among the player
/// counts of matches.
pub fn first_below(counts: &Vec<usize>, cap: usize) -> (found: Option<usize>)
    ensures
        match found {
            Some(i) => first_below_from(counts@, cap, 0) == Some(i as int) && i < counts.len()
                && counts@[i as int] < cap,
            None => first_below_from(counts@, cap, 0).is_none(),
        },
{
    let mut i: usize = 0;
    while i < counts.len()
        invariant
            i <= counts.len(),
            first_below_from(counts@, cap, 0) == first_below_from(counts@, cap, i as int),
        decreases counts.len() - i,
    {
        if counts[i] < cap {
            return Some(i);
        }
        i += 1;
    }
    None
}

/// Another handle to the first match of `entries` that had fewer than `cap`
/// players, where `counts` holds the player count read for each.
pub fn choose_available(entries: &Vec<(u128, MatchHandle)>, counts: &Vec<usize>, cap: usize) -> (handle:
    Option<MatchHandle>)
    requires
        counts.len() == entries.len(),
    ensures
        match first_below_from(counts@, cap, 0) {
            Some(i) => handle matches Some(h) && 0 <= i < entries.len() && h.id
                == entries@[i].1.id && counts@[i] < cap,
            None => handle.is_none(),
        },
{
    match first_below(counts, cap) {
        Some(i) => Some(entries[i].1.duplicate()),
        None => None,
    }
}

/// The directory of running matches, by match id.
pub struct MatchRegistry {
    matches: DashMap<u128, MatchHandle>,
}

impl MatchRegistry {
    /// Every handle stands under the id of its own match.
    pub closed spec fn wf(self) -> bool {
        forall|key: u128| #[trigger]
            directory_held(self.matches).contains_key(key) ==> directory_held(self.matches)[key]
                == key
    }

    /// The ids of the matches in the directory.
    pub closed spec fn ids(self) -> Set<u128> {
        directory_held(self.matches).dom()
    }

    /// A directory without matches.
    pub fn new() -> (registry: MatchRegistry)
        ensures
            registry.ids() == Set::<u128>::empty(),
            registry.wf(),
    {
        let matches = directory_new();
        assert(directory_held(matches).dom() =~= Set::<u128>::empty());
        MatchRegistry { matches }
    }

    /// Another handle to the match `id`, if the directory holds one.
    pub fn get(&self, id: &u128) -> (handle: Option<MatchHandle>)
        requires
            self.wf(),
        ensures
            handle.is_some() == self.ids().contains(*id),
            handle matches Some(h) ==> h.id == *id,
    {
        directory_get(&self.matches, *id)
    }

    /// Puts a match into the directory under its id, in place of an earlier
    /// one with the same id.
    pub fn insert(&mut self, handle: MatchHandle)
        requires
            old(self).wf(),
        ensures
            final(self).ids() == old(self).ids().insert(handle.id),
            final(self).wf(),
    {
        let ghost before = directory_held(self.matches);
        directory_insert(&mut self.matches, handle.id, handle);
        proof {
            assert(directory_held(self.matches).dom() =~= before.dom().insert(handle.id));
        }
    }

    /// Takes the match `id` out of the directory and returns its handle, if
    /// the directory held one.
    pub fn remove(&mut self, id: &u128) -> (handle: Option<MatchHandle>)
        requires
            old(self).wf(),
        ensures
            final(self).ids() == old(self).ids().remove(*id),
            handle.is_some() == old(self).ids().contains(*id),
            handle matches Some(h) ==> h.id == *id,
            final(self).wf(),
    {
        let ghost before = directory_held(self.matches);
        let handle = directory_remove(&mut self.matches, *id);
        proof {
            assert(directory_held(self.matches).dom() =~= before.dom().remove(*id));
        }
        handle
    }

    /// Number of matches in the directory.
    pub fn active_matches(&self) -> (n: usize)
        ensures
            n == self.ids().len(),
    {
        directory_len(&self.matches)
    }

    /// The player counts that the matches of `entries` have published
    /// last, in the order of `entries`.
    fn read_counts(entries: &Vec<(u128, MatchHandle)>) -> (counts: Vec<usize>)
        ensures
            counts.len() == entries.len(),
    {
        let mut counts: Vec<usize> = Vec::new();
        let mut i: usize = 0;
        while i < entries.len()
            invariant
                i <= entries.len(),
                counts.len() == i,
            decreases entries.len() - i,
        {
            counts.push(entries[i].1.player_count());
            i += 1;
        }
        counts
    }

    /// Sum of the player counts that the matches have published last. The
    /// counts change while matches run, so nothing is known of the sum but
    /// that it is the sum of one reading of each.
    pub fn total_players(&self) -> (total: usize)
        ensures
            exists|counts: Seq<usize>|
                counts.len() == self.ids().len() && total == #[trigger] counts_sum(counts),
    {
        let entries = directory_entries(&self.matches);
        let counts = MatchRegistry::read_counts(&entries);
        sum_counts(&counts)
    }

    /// A match of the directory that had fewer than `max_players` players
    /// when its count was read; none if every match was full then. The
    /// count of every match is read once, and a match is returned exactly if
    /// one of the counts read was below `max_players`.
    pub fn find_available_match(&self, max_players: usize) -> (handle: Option<MatchHandle>)
        requires
            self.wf(),
        ensures
            handle matches Some(h) ==> self.ids().contains(h.id),
            max_players == 0 ==> handle.is_none(),
            self.ids() == Set::<u128>::empty() ==> handle.is_none(),
            exists|counts: Seq<usize>|
                counts.len() == self.ids().len() && handle.is_some() == (#[trigger] first_below_from(
                    counts,
                    max_players,
                    0,
                )).is_some(),
    {
        let entries = directory_entries(&self.matches);
        let counts = MatchRegistry::read_counts(&entries);
        let handle = choose_available(&entries, &counts, max_players);
        proof {
            assert(handle.is_some() == first_below_from(counts@, max_players, 0).is_some());
            match first_below_from(counts@, max_players, 0) {
                Some(i) => {
                    assert(directory_held(self.matches).contains_key(entries@[i].0));
                },
                None => {},
            }
        }
        handle
    }
}

impl Default for MatchRegistry {
    fn default() -> (registry: MatchRegistry)
        ensures
            registry.ids() == Set::<u128>::empty(),
            registry.wf(),
    {
        MatchRegistry::new()
    }
}

} // verus!
