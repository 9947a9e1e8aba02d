//! What holds of the combat step.

use crate::combat::{HitResult, Projectile};
use crate::player::{
    lemma_position_from, lemma_position_same_users, position, same_users, PlayerView,
};
use crate::protocol::GameEvent;
use crate::tick_combat::{
    can_hit, combat, credited, events_of_hits, first_target_from, flies_on, hit_events, hits_on,
    in_flight_after, kills_target, players_after_hits, shot_events, shots, struck, triggered,
    wounded,
};
use vstd::prelude::*;

verus! {

/// A projectile with no first target can hit nobody.
pub proof fn lemma_no_target(q: Projectile, players: Seq<PlayerView>, from: int)
    requires
        0 <= from,
        first_target_from(q, players, from).is_none(),
    ensures
        forall|j: int| from <= j < players.len() ==> !can_hit(q, #[trigger] players[j]),
    decreases players.len() - from,
{
    if from < players.len() {
        lemma_no_target(q, players, from + 1);
    }
}

/// Every projectile that outlives the tick is a projectile of before,
/// moved, that can hit none of `players`.
pub proof fn lemma_in_flight_hits_nobody(projectiles: Seq<Projectile>, players: Seq<PlayerView>)
    ensures
        forall|k: int, j: int|
            0 <= k < in_flight_after(projectiles, players).len() && 0 <= j < players.len()
                ==> !can_hit(
                #[trigger] in_flight_after(projectiles, players)[k],
                #[trigger] players[j],
            ),
    decreases projectiles.len(),
{
    if projectiles.len() > 0 {
        lemma_in_flight_hits_nobody(projectiles.drop_last(), players);
        if flies_on(projectiles.last(), players) {
            lemma_no_target(projectiles.last().advanced(), players, 0);
        }
        let rest = in_flight_after(projectiles.drop_last(), players);
        let all = in_flight_after(projectiles, players);
        assert forall|k: int, j: int| 0 <= k < all.len() && 0 <= j < players.len() implies !can_hit(
            #[trigger] all[k],
            #[trigger] players[j],
        ) by {
            if k < rest.len() {
                assert(all[k] == rest[k]);
                assert(!can_hit(rest[k], players[j]));
            }
        }
    }
}

/// `b` holds the players of `a` where they were, and none of them is alive
/// who was dead.
pub open spec fn none_revived(a: Seq<PlayerView>, b: Seq<PlayerView>) -> bool {
    &&& a.len() == b.len()
    &&& forall|j: int|
        0 <= j < a.len() ==> {
            &&& (#[trigger] b[j]).user_id == a[j].user_id
            &&& b[j].ship_type == a[j].ship_type
            &&& b[j].x == a[j].x
            &&& b[j].y == a[j].y
            &&& b[j].alive ==> a[j].alive
        }
}

/// A hit moves nobody and revives nobody.
pub proof fn lemma_struck_revives_nobody(players: Seq<PlayerView>, hit: HitResult, now: u64)
    ensures
        none_revived(players, struck(players, hit, now)),
{
    lemma_position_from(players, hit.target_id, 0);
    let hurt = match position(players, hit.target_id) {
        Some(t) => players.update(t, wounded(players[t], hit.damage as int, now)),
        None => players,
    };
    lemma_position_from(hurt, hit.shooter_id, 0);
}

/// Hits move nobody and revive nobody.
pub proof fn lemma_hits_revive_nobody(players: Seq<PlayerView>, hits: Seq<HitResult>, now: u64)
    ensures
        none_revived(players, players_after_hits(players, hits, now)),
    decreases hits.len(),
{
    if hits.len() > 0 {
        lemma_hits_revive_nobody(players, hits.drop_last(), now);
        lemma_struck_revives_nobody(
            players_after_hits(players, hits.drop_last(), now),
            hits.last(),
            now,
        );
    }
}

/// After the combat step no projectile in flight touches a living ship
/// other than its owner's: every hit is resolved on the tick on which it
/// occurs.
pub proof fn law_no_overlap_after_combat(
    players: Seq<PlayerView>,
    projectiles: Seq<Projectile>,
    now: u64,
    ids: Seq<u128>,
)
    ensures
        forall|k: int, j: int|
            0 <= k < combat(players, projectiles, now, ids).projectiles.len() && 0 <= j < combat(
                players,
                projectiles,
                now,
                ids,
            ).players.len() ==> !can_hit(
                #[trigger] combat(players, projectiles, now, ids).projectiles[k],
                #[trigger] combat(players, projectiles, now, ids).players[j],
            ),
{
    let armed = triggered(players);
    let flying = projectiles + shots(players, ids);
    let hits = hits_on(flying, armed);
    let out = combat(players, projectiles, now, ids);
    lemma_in_flight_hits_nobody(flying, armed);
    lemma_hits_revive_nobody(armed, hits, now);
    assert forall|k: int, j: int|
        0 <= k < out.projectiles.len() && 0 <= j < out.players.len() implies !can_hit(
        #[trigger] out.projectiles[k],
        #[trigger] out.players[j],
    ) by {
        assert(!can_hit(in_flight_after(flying, armed)[k], armed[j]));
    }
}

/// Sum of the damage that the players have dealt.
pub open spec fn total_dealt(players: Seq<PlayerView>) -> int
    decreases players.len(),
{
    if players.len() == 0 {
        0
    } else {
        total_dealt(players.drop_last()) + players.last().damage_dealt
    }
}

/// Sum of the damage of the hits.
pub open spec fn total_damage(hits: Seq<HitResult>) -> int
    decreases hits.len(),
{
    if hits.len() == 0 {
        0
    } else {
        total_damage(hits.drop_last()) + hits.last().damage
    }
}

/// No hit has a negative damage, the shooter of every hit is among
/// `players`, and no player's count of damage dealt is stopped by its largest
/// value on the way.
pub open spec fn all_credited(players: Seq<PlayerView>, hits: Seq<HitResult>, now: u64) -> bool
    decreases hits.len(),
{
    if hits.len() == 0 {
        true
    } else {
        let before = players_after_hits(players, hits.drop_last(), now);
        &&& all_credited(players, hits.drop_last(), now)
        &&& hits.last().damage >= 0
        &&& match position(before, hits.last().shooter_id) {
            Some(s) => before[s].damage_dealt + hits.last().damage <= i64::MAX,
            None => false,
        }
    }
}

/// Changing one player's count changes the sum by the difference.
pub proof fn lemma_total_dealt_update(players: Seq<PlayerView>, i: int, p: PlayerView)
    requires
        0 <= i < players.len(),
    ensures
        total_dealt(players.update(i, p)) == total_dealt(players) - players[i].damage_dealt
            + p.damage_dealt,
    decreases players.len(),
{
    if i == players.len() - 1 {
        assert(players.update(i, p).drop_last() == players.drop_last());
    } else {
        assert(players.update(i, p).drop_last() == players.drop_last().update(i, p));
        lemma_total_dealt_update(players.drop_last(), i, p);
    }
}

/// A hit whose shooter is a player adds its damage to the damage that the
/// players have dealt.
pub proof fn lemma_struck_credits(players: Seq<PlayerView>, hit: HitResult, now: u64)
    requires
        hit.damage >= 0,
        match position(players, hit.shooter_id) {
            Some(s) => players[s].damage_dealt + hit.damage <= i64::MAX,
            None => false,
        },
    ensures
        total_dealt(struck(players, hit, now)) == total_dealt(players) + hit.damage,
{
    lemma_position_from(players, hit.target_id, 0);
    lemma_position_from(players, hit.shooter_id, 0);
    let hurt = match position(players, hit.target_id) {
        Some(t) => players.update(t, wounded(players[t], hit.damage as int, now)),
        None => players,
    };
    match position(players, hit.target_id) {
        Some(t) => {
            lemma_total_dealt_update(players, t, wounded(players[t], hit.damage as int, now));
        },
        None => {},
    }
    assert(same_users(hurt, players));
    lemma_position_same_users(hurt, players, hit.shooter_id, 0);
    let s = position(hurt, hit.shooter_id).unwrap();
    lemma_total_dealt_update(
        hurt,
        s,
        credited(hurt[s], hit.damage as int, kills_target(players, hit)),
    );
}

/// The damage that the players have dealt grows in the combat step by the
/// damage of the step's hits, provided that every shooter is still a
/// player and no count is stopped by its largest value.
pub proof fn law_damage_dealt_matches_hits(players: Seq<PlayerView>, hits: Seq<HitResult>, now: u64)
    requires
        all_credited(players, hits, now),
    ensures
        total_dealt(players_after_hits(players, hits, now)) == total_dealt(players)
            + total_damage(hits),
    decreases hits.len(),
{
    if hits.len() > 0 {
        law_damage_dealt_matches_hits(players, hits.drop_last(), now);
        lemma_struck_credits(
            players_after_hits(players, hits.drop_last(), now),
            hits.last(),
            now,
        );
    }
}

/// Sum of the damage of the hits that the events tell of.
pub open spec fn hit_damage_told(events: Seq<GameEvent>) -> int
    decreases events.len(),
{
    if events.len() == 0 {
        0
    } else {
        hit_damage_told(events.drop_last()) + match events.last() {
            GameEvent::Hit { damage, .. } => damage as int,
            _ => 0,
        }
    }
}

/// The damage told by two lists of events is the sum of what each tells.
pub proof fn lemma_hit_damage_told_add(a: Seq<GameEvent>, b: Seq<GameEvent>)
    ensures
        hit_damage_told(a + b) == hit_damage_told(a) + hit_damage_told(b),
    decreases b.len(),
{
    if b.len() == 0 {
        assert(a + b == a);
    } else {
        assert((a + b).drop_last() == a + b.drop_last());
        lemma_hit_damage_told_add(a, b.drop_last());
    }
}

/// The events of shots tell of no hit.
pub proof fn lemma_shots_tell_no_hit(players: Seq<PlayerView>, ids: Seq<u128>)
    ensures
        hit_damage_told(shot_events(players, ids)) == 0,
    decreases players.len(),
{
    if players.len() > 0 {
        lemma_shots_tell_no_hit(players.drop_last(), ids);
        let rest = shot_events(players.drop_last(), ids);
        let all = shot_events(players, ids);
        if all.len() > rest.len() {
            assert(all.drop_last() == rest);
        }
    }
}

/// The events of hits tell of the damage of every hit.
pub proof fn lemma_hits_told(players: Seq<PlayerView>, hits: Seq<HitResult>, now: u64)
    ensures
        hit_damage_told(events_of_hits(players, hits, now)) == total_damage(hits),
    decreases hits.len(),
{
    if hits.len() > 0 {
        lemma_hits_told(players, hits.drop_last(), now);
        let before = players_after_hits(players, hits.drop_last(), now);
        let told = hit_events(before, hits.last());
        lemma_hit_damage_told_add(events_of_hits(players, hits.drop_last(), now), told);
        let hit = hits.last();
        let one = seq![
            GameEvent::Hit {
                shooter_id: hit.shooter_id,
                target_id: hit.target_id,
                damage: hit.damage,
                x: hit.x,
                y: hit.y,
            },
        ];
        assert(one.drop_last() =~= Seq::<GameEvent>::empty());
        assert(hit_damage_told(Seq::<GameEvent>::empty()) == 0);
        assert(hit_damage_told(one) == hit.damage);
        if kills_target(before, hit) {
            assert(told.drop_last() =~= one);
        }
        assert(hit_damage_told(told) == hit.damage);
    }
}

/// Shooting changes nobody's count of damage dealt.
pub proof fn lemma_triggered_keeps_dealt(players: Seq<PlayerView>)
    ensures
        total_dealt(triggered(players)) == total_dealt(players),
    decreases players.len(),
{
    if players.len() > 0 {
        assert(triggered(players).drop_last() == triggered(players.drop_last()));
        lemma_triggered_keeps_dealt(players.drop_last());
    }
}

/// In the combat step the damage that the players have dealt grows by the
/// damage of the hits that the step's events tell of, provided that every
/// shooter is still a player and no count is stopped by its largest value.
pub proof fn law_damage_accounting(
    players: Seq<PlayerView>,
    projectiles: Seq<Projectile>,
    now: u64,
    ids: Seq<u128>,
)
    requires
        all_credited(
            triggered(players),
            hits_on(projectiles + shots(players, ids), triggered(players)),
            now,
        ),
    ensures
        total_dealt(combat(players, projectiles, now, ids).players) == total_dealt(players)
            + hit_damage_told(combat(players, projectiles, now, ids).events),
{
    let armed = triggered(players);
    let hits = hits_on(projectiles + shots(players, ids), armed);
    lemma_triggered_keeps_dealt(players);
    law_damage_dealt_matches_hits(armed, hits, now);
    lemma_hits_told(armed, hits, now);
    lemma_shots_tell_no_hit(players, ids);
    lemma_hit_damage_told_add(shot_events(players, ids), events_of_hits(armed, hits, now));
}

} // verus!
