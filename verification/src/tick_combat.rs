//! The combat step of a tick: shooting, projectiles in flight and hits.

use crate::combat::{
    cooled, health_after, lemma_class_weapon_wf, CombatSystem, HitResult, Projectile, WeaponStats,
};
use crate::fixed::{
    add_capped, capped_sum, clamp_to, cos, cos_of, count_up, counted, lemma_cos_bounds,
    lemma_scaled_bounds, lemma_sin_bounds, mul_scaled, scaled, sin, sin_of, LIMIT,
};
use crate::match_state::{players_wf, projectiles_wf};
use crate::physics::{in_world, lemma_class_stats_wf, ShipStats};
use crate::player::{
    find_player, lemma_player_views, position, same_inputs, same_users, PlayerState,
    PlayerView,
};
use crate::protocol::{GameEvent, KillCause};
use vstd::prelude::*;

verus! {

/// Distance from a ship's hull to the place where its shots appear.
pub const MUZZLE_OFFSET: i64 = 15000;

/// The weapon of the player's ship.
pub open spec fn weapon(p: PlayerView) -> WeaponStats {
    WeaponStats::of(p.ship_type)
}

/// The player shoots on this tick: alive, asking to shoot, and with a
/// weapon whose cooldown has run out by this tick.
pub open spec fn fires(p: PlayerView) -> bool {
    p.alive && p.current_input.shoot && cooled(p.weapon_cooldown as int) <= 0
}

/// Where the player's shot appears: ahead of the hull in the direction of
/// aim.
pub open spec fn muzzle(p: PlayerView) -> (int, int) {
    let reach = p.stats().hitbox_radius + MUZZLE_OFFSET;
    (
        in_world(p.x + scaled(reach, cos_of(p.current_input.aim_yaw as int))),
        in_world(p.y + scaled(reach, sin_of(p.current_input.aim_yaw as int))),
    )
}

/// The projectile `id` that the player fires.
pub open spec fn shot_by(p: PlayerView, id: u128) -> Projectile {
    Projectile::launched(
        id,
        p.user_id,
        muzzle(p).0 as i64,
        muzzle(p).1 as i64,
        p.current_input.aim_yaw,
        weapon(p),
    )
}

/// The event that tells of the player's shot.
pub open spec fn shot_event(p: PlayerView, id: u128) -> GameEvent {
    GameEvent::Shot {
        shooter_id: p.user_id,
        projectile_id: id,
        x: muzzle(p).0 as i64,
        y: muzzle(p).1 as i64,
        direction: p.current_input.aim_yaw,
        speed: weapon(p).projectile_speed,
    }
}

/// The player after the shooting of this tick: a living player's cooldown
/// runs down by a tick, and starts anew when the player shoots.
pub open spec fn after_trigger(p: PlayerView) -> PlayerView {
    if !p.alive {
        p
    } else if fires(p) {
        PlayerView {
            weapon_cooldown: weapon(p).cooldown,
            shots_fired: counted(p.shots_fired),
            ..p
        }
    } else {
        PlayerView { weapon_cooldown: cooled(p.weapon_cooldown as int) as i64, ..p }
    }
}

/// Every player after the shooting of this tick.
pub open spec fn triggered(players: Seq<PlayerView>) -> Seq<PlayerView> {
    Seq::new(players.len(), |i: int| after_trigger(players[i]))
}

/// The projectiles fired on this tick, in the players' order; the player in
/// place `i` fires the projectile `ids[i]`.
pub open spec fn shots(players: Seq<PlayerView>, ids: Seq<u128>) -> Seq<Projectile>
    decreases players.len(),
{
    if players.len() == 0 {
        Seq::empty()
    } else if fires(players.last()) {
        shots(players.drop_last(), ids).push(shot_by(players.last(), ids[players.len() - 1]))
    } else {
        shots(players.drop_last(), ids)
    }
}

/// The events that tell of this tick's shots, in the players' order.
pub open spec fn shot_events(players: Seq<PlayerView>, ids: Seq<u128>) -> Seq<GameEvent>
    decreases players.len(),
{
    if players.len() == 0 {
        Seq::empty()
    } else if fires(players.last()) {
        shot_events(players.drop_last(), ids).push(
            shot_event(players.last(), ids[players.len() - 1]),
        )
    } else {
        shot_events(players.drop_last(), ids)
    }
}

/// The projectile can hit the player: the player is alive, is not the one
/// who fired it, and is touched by it.
pub open spec fn can_hit(q: Projectile, p: PlayerView) -> bool {
    p.alive && p.user_id != q.owner_id && q.touches(
        p.x as int,
        p.y as int,
        p.stats().hitbox_radius as int,
    )
}

/// Place of the first player at or after `from` whom the projectile can
/// hit.
pub open spec fn first_target_from(q: Projectile, players: Seq<PlayerView>, from: int) -> Option<int>
    decreases players.len() - from,
{
    if from < 0 || from >= players.len() {
        None
    } else if can_hit(q, players[from]) {
        Some(from)
    } else {
        first_target_from(q, players, from + 1)
    }
}

/// Place of the first player whom the projectile can hit.
pub open spec fn first_target(q: Projectile, players: Seq<PlayerView>) -> Option<int> {
    first_target_from(q, players, 0)
}

/// The projectile outlives this tick: after its move it has lifetime left
/// and can hit nobody.
pub open spec fn flies_on(q: Projectile, players: Seq<PlayerView>) -> bool {
    q.advanced().lifetime_remaining > 0 && first_target(q.advanced(), players).is_none()
}

/// The projectile hits somebody on this tick: after its move it has
/// lifetime left and can hit a player.
pub open spec fn strikes(q: Projectile, players: Seq<PlayerView>) -> bool {
    q.advanced().lifetime_remaining > 0 && first_target(q.advanced(), players).is_some()
}

/// The hit of a projectile that strikes: on the first player whom it can
/// hit after its move.
pub open spec fn hit_of(q: Projectile, players: Seq<PlayerView>) -> HitResult {
    let a = q.advanced();
    HitResult {
        projectile_id: a.id,
        shooter_id: a.owner_id,
        target_id: players[first_target(a, players).unwrap()].user_id,
        damage: a.damage,
        x: a.x,
        y: a.y,
        target_killed: false,
    }
}

/// The projectiles that outlive this tick, moved, in their old order.
pub open spec fn in_flight_after(projectiles: Seq<Projectile>, players: Seq<PlayerView>) -> Seq<
    Projectile,
>
    decreases projectiles.len(),
{
    if projectiles.len() == 0 {
        Seq::empty()
    } else if flies_on(projectiles.last(), players) {
        in_flight_after(projectiles.drop_last(), players).push(projectiles.last().advanced())
    } else {
        in_flight_after(projectiles.drop_last(), players)
    }
}

/// The hits of this tick, in the projectiles' order.
pub open spec fn hits_on(projectiles: Seq<Projectile>, players: Seq<PlayerView>) -> Seq<HitResult>
    decreases projectiles.len(),
{
    if projectiles.len() == 0 {
        Seq::empty()
    } else if strikes(projectiles.last(), players) {
        hits_on(projectiles.drop_last(), players).push(hit_of(projectiles.last(), players))
    } else {
        hits_on(projectiles.drop_last(), players)
    }
}

/// A player who has taken `damage` at time `now`: the damage comes off the
/// health and is added to the damage taken; a player with no health left is
/// dead from `now`.
pub open spec fn wounded(p: PlayerView, damage: int, now: u64) -> PlayerView {
    let left = health_after(p.health as int, damage);
    PlayerView {
        health: left as i64,
        damage_taken: capped_sum(p.damage_taken as int, damage) as i64,
        alive: if left == 0 {
            false
        } else {
            p.alive
        },
        death_time: if left == 0 {
            Some(now)
        } else {
            p.death_time
        },
        ..p
    }
}

/// A player who has landed a hit of `damage`, which killed or did not.
pub open spec fn credited(p: PlayerView, damage: int, killed: bool) -> PlayerView {
    PlayerView {
        shots_hit: counted(p.shots_hit),
        damage_dealt: capped_sum(p.damage_dealt as int, damage) as i64,
        kills: if killed {
            counted(p.kills)
        } else {
            p.kills
        },
        ..p
    }
}

/// The hit leaves its target, who is among `players`, without health.
pub open spec fn kills_target(players: Seq<PlayerView>, hit: HitResult) -> bool {
    match position(players, hit.target_id) {
        Some(t) => health_after(players[t].health as int, hit.damage as int) == 0,
        None => false,
    }
}

/// The players after a hit at time `now`: the target is wounded, then the
/// shooter is credited; either only if still in the match.
pub open spec fn struck(players: Seq<PlayerView>, hit: HitResult, now: u64) -> Seq<PlayerView> {
    let hurt = match position(players, hit.target_id) {
        Some(t) => players.update(t, wounded(players[t], hit.damage as int, now)),
        None => players,
    };
    match position(hurt, hit.shooter_id) {
        Some(s) => hurt.update(
            s,
            credited(hurt[s], hit.damage as int, kills_target(players, hit)),
        ),
        None => hurt,
    }
}

/// The events that tell of a hit on `players`: the hit, and the kill if it
/// was one.
pub open spec fn hit_events(players: Seq<PlayerView>, hit: HitResult) -> Seq<GameEvent> {
    let told = seq![
        GameEvent::Hit {
            shooter_id: hit.shooter_id,
            target_id: hit.target_id,
            damage: hit.damage,
            x: hit.x,
            y: hit.y,
        },
    ];
    if kills_target(players, hit) {
        told.push(
            GameEvent::Kill {
                killer_id: Some(hit.shooter_id),
                victim_id: hit.target_id,
                cause: KillCause::Shot,
            },
        )
    } else {
        told
    }
}

/// The players after the hits `hits`, applied in order at time `now`.
pub open spec fn players_after_hits(players: Seq<PlayerView>, hits: Seq<HitResult>, now: u64) -> Seq<
    PlayerView,
>
    decreases hits.len(),
{
    if hits.len() == 0 {
        players
    } else {
        struck(players_after_hits(players, hits.drop_last(), now), hits.last(), now)
    }
}

/// The events that tell of the hits `hits`, applied in order.
pub open spec fn events_of_hits(players: Seq<PlayerView>, hits: Seq<HitResult>, now: u64) -> Seq<
    GameEvent,
>
    decreases hits.len(),
{
    if hits.len() == 0 {
        Seq::empty()
    } else {
        events_of_hits(players, hits.drop_last(), now) + hit_events(
            players_after_hits(players, hits.drop_last(), now),
            hits.last(),
        )
    }
}

/// Every hit carries a damage that a weapon can deal.
pub open spec fn hits_wf(hits: Seq<HitResult>) -> bool {
    forall|i: int| 0 <= i < hits.len() ==> 0 <= (#[trigger] hits[i]).damage <= LIMIT
}

/// What the combat step leaves behind.
pub struct CombatOutcome {
    pub players: Seq<PlayerView>,
    pub projectiles: Seq<Projectile>,
    pub events: Seq<GameEvent>,
}

/// The combat step at time `now`, where the player in place `i` would fire
/// the projectile `ids[i]`.
///
/// Living players' cooldowns run down and those who ask to shoot and can,
/// do. Then every projectile, the new ones too, moves; one whose lifetime
/// is over is gone, and one that can hit a player hits the first such
/// player and is gone. Then the hits are applied in the projectiles' order.
/// The events tell of the shots, then of each hit and the kill it made.
pub open spec fn combat(
    players: Seq<PlayerView>,
    projectiles: Seq<Projectile>,
    now: u64,
    ids: Seq<u128>,
) -> CombatOutcome {
    let armed = triggered(players);
    let flying = projectiles + shots(players, ids);
    let hits = hits_on(flying, armed);
    CombatOutcome {
        players: players_after_hits(armed, hits, now),
        projectiles: in_flight_after(flying, armed),
        events: shot_events(players, ids) + events_of_hits(armed, hits, now),
    }
}

/// Lets every living player's weapon cool down and fire where its player
/// asks for it; appends the new projectiles to `projectiles` and the events
/// that tell of them to `events`.
pub fn fire_weapons(
    players: &mut Vec<PlayerState>,
    ids: &Vec<u128>,
    projectiles: &mut Vec<Projectile>,
    events: &mut Vec<GameEvent>,
)
    requires
        players_wf(old(players).deep_view()),
        projectiles_wf(old(projectiles)@),
        ids.len() >= old(players).len(),
    ensures
        final(players).deep_view() == triggered(old(players).deep_view()),
        final(projectiles)@ == old(projectiles)@ + shots(old(players).deep_view(), ids@),
        final(events)@ == old(events)@ + shot_events(old(players).deep_view(), ids@),
        players_wf(final(players).deep_view()),
        same_users(final(players).deep_view(), old(players).deep_view()),
        same_inputs(final(players).deep_view(), old(players).deep_view()),
        projectiles_wf(final(projectiles)@),
{
    let ghost before = players.deep_view();
    let ghost flying = projectiles@;
    let ghost told = events@;
    let n = players.len();
    let mut i: usize = 0;
    proof {
        lemma_player_views(players);
    }
    while i < n
        invariant
            i <= n,
            n == players.len(),
            n == before.len(),
            ids.len() >= n,
            players_wf(before),
            forall|j: int| 0 <= j < i ==> (#[trigger] players@[j])@ == after_trigger(before[j]),
            forall|j: int| i <= j < n ==> (#[trigger] players@[j])@ == before[j],
            forall|j: int| 0 <= j < n ==> (#[trigger] players@[j])@.wf(),
            projectiles@ == flying + shots(before.take(i as int), ids@),
            events@ == told + shot_events(before.take(i as int), ids@),
            projectiles_wf(projectiles@),
        decreases n - i,
    {
        proof {
            assert(before.take(i + 1).drop_last() == before.take(i as int));
            assert(before[i as int].wf());
            lemma_class_weapon_wf(before[i as int].ship_type);
            lemma_class_stats_wf(before[i as int].ship_type);
        }
        if players[i].alive {
            let cooldown: i64 = CombatSystem::update_cooldown(players[i].weapon_cooldown);
            if players[i].current_input.shoot && CombatSystem::can_fire(cooldown) {
                let weapon_stats = WeaponStats::for_type(players[i].ship_type);
                let ship_stats = ShipStats::for_type(players[i].ship_type);
                let aim: i64 = players[i].current_input.aim_yaw;
                let reach: i64 = ship_stats.hitbox_radius + MUZZLE_OFFSET;
                proof {
                    lemma_cos_bounds(aim as int);
                    lemma_sin_bounds(aim as int);
                    lemma_scaled_bounds(reach as int, cos_of(aim as int));
                    lemma_scaled_bounds(reach as int, sin_of(aim as int));
                }
                let spawn_x: i64 = clamp_to(
                    players[i].x + mul_scaled(reach, cos(aim)),
                    -LIMIT,
                    LIMIT,
                );
                let spawn_y: i64 = clamp_to(
                    players[i].y + mul_scaled(reach, sin(aim)),
                    -LIMIT,
                    LIMIT,
                );
                let projectile = Projectile::with_id(
                    ids[i],
                    players[i].user_id,
                    spawn_x,
                    spawn_y,
                    aim,
                    &weapon_stats,
                );
                events.push(
                    GameEvent::Shot {
                        shooter_id: players[i].user_id,
                        projectile_id: projectile.id,
                        x: spawn_x,
                        y: spawn_y,
                        direction: aim,
                        speed: weapon_stats.projectile_speed,
                    },
                );
                projectiles.push(projectile);
                players[i].weapon_cooldown = CombatSystem::fire_cooldown(&weapon_stats);
                players[i].shots_fired = count_up(players[i].shots_fired);
            } else {
                players[i].weapon_cooldown = cooldown;
            }
        }
        i += 1;
    }
    proof {
        assert(before.take(n as int) == before);
        lemma_player_views(players);
        assert(players.deep_view() =~= triggered(before));
    }
}

/// Finds the first player whom the projectile can hit.
pub fn find_target(q: &Projectile, players: &Vec<PlayerState>) -> (found: Option<usize>)
    requires
        q.wf(),
    ensures
        match found {
            Some(i) => first_target(*q, players.deep_view()) == Some(i as int) && i < players.len(),
            None => first_target(*q, players.deep_view()).is_none(),
        },
{
    let mut i: usize = 0;
    proof {
        lemma_player_views(players);
    }
    while i < players.len()
        invariant
            i <= players.len(),
            q.wf(),
            first_target(*q, players.deep_view()) == first_target_from(
                *q,
                players.deep_view(),
                i as int,
            ),
            forall|j: int|
                0 <= j < players.len() ==> #[trigger] players.deep_view()[j] == players@[j]@,
        decreases players.len() - i,
    {
        let p = &players[i];
        if p.alive && p.user_id != q.owner_id {
            let ship_stats = ShipStats::for_type(p.ship_type);
            if q.check_hit(p.x, p.y, ship_stats.hitbox_radius) {
                return Some(i);
            }
        }
        i += 1;
    }
    None
}

/// Moves every projectile by a tick. Returns those that are still in
/// flight and have hit nobody, in their old order, and the hits of the
/// others whose lifetime is not over.
pub fn fly_projectiles(projectiles: &Vec<Projectile>, players: &Vec<PlayerState>) -> (r: (
    Vec<Projectile>,
    Vec<HitResult>,
))
    requires
        projectiles_wf(projectiles@),
    ensures
        r.0@ == in_flight_after(projectiles@, players.deep_view()),
        r.1@ == hits_on(projectiles@, players.deep_view()),
        projectiles_wf(r.0@),
        hits_wf(r.1@),
{
    let mut kept: Vec<Projectile> = Vec::new();
    let mut hits: Vec<HitResult> = Vec::new();
    let mut k: usize = 0;
    while k < projectiles.len()
        invariant
            k <= projectiles.len(),
            projectiles_wf(projectiles@),
            kept@ == in_flight_after(projectiles@.take(k as int), players.deep_view()),
            hits@ == hits_on(projectiles@.take(k as int), players.deep_view()),
            projectiles_wf(kept@),
            hits_wf(hits@),
        decreases projectiles.len() - k,
    {
        proof {
            assert(projectiles@.take(k + 1).drop_last() == projectiles@.take(k as int));
            assert(projectiles@[k as int].wf());
        }
        proof {
            lemma_player_views(players);
        }
        let mut q: Projectile = projectiles[k];
        if q.update() {
            match find_target(&q, players) {
                Some(t) => {
                    hits.push(
                        HitResult {
                            projectile_id: q.id,
                            shooter_id: q.owner_id,
                            target_id: players[t].user_id,
                            damage: q.damage,
                            x: q.x,
                            y: q.y,
                            target_killed: false,
                        },
                    );
                },
                None => {
                    kept.push(q);
                },
            }
        }
        k += 1;
    }
    proof {
        assert(projectiles@.take(projectiles.len() as int) == projectiles@);
    }
    (kept, hits)
}

/// Applies the hits in order at time `now` and appends the events that tell
/// of them to `events`.
pub fn apply_hits(
    players: &mut Vec<PlayerState>,
    hits: &Vec<HitResult>,
    now: u64,
    events: &mut Vec<GameEvent>,
)
    requires
        players_wf(old(players).deep_view()),
        hits_wf(hits@),
    ensures
        final(players).deep_view() == players_after_hits(old(players).deep_view(), hits@, now),
        final(events)@ == old(events)@ + events_of_hits(old(players).deep_view(), hits@, now),
        players_wf(final(players).deep_view()),
        same_users(final(players).deep_view(), old(players).deep_view()),
        same_inputs(final(players).deep_view(), old(players).deep_view()),
{
    let ghost before = players.deep_view();
    let ghost told = events@;
    let mut k: usize = 0;
    while k < hits.len()
        invariant
            k <= hits.len(),
            hits_wf(hits@),
            players.deep_view() == players_after_hits(before, hits@.take(k as int), now),
            events@ == told + events_of_hits(before, hits@.take(k as int), now),
            players_wf(players.deep_view()),
            same_users(players.deep_view(), before),
            same_inputs(players.deep_view(), before),
        decreases hits.len() - k,
    {
        proof {
            assert(hits@.take(k + 1).drop_last() == hits@.take(k as int));
        }
        let ghost current = players.deep_view();
        let hit: HitResult = hits[k];
        let mut killed = false;
        proof {
            lemma_player_views(players);
        }
        match find_player(players, hit.target_id) {
            Some(t) => {
                assert(current[t as int].wf());
                let (left, dead) = CombatSystem::apply_damage(players[t].health, hit.damage);
                players[t].health = left;
                players[t].damage_taken = add_capped(players[t].damage_taken, hit.damage);
                killed = dead;
                if dead {
                    players[t].alive = false;
                    players[t].death_time = Some(now);
                }
                proof {
                    lemma_class_stats_wf(current[t as int].ship_type);
                    lemma_player_views(players);
                    assert(players.deep_view() =~= current.update(
                        t as int,
                        wounded(current[t as int], hit.damage as int, now),
                    ));
                }
            },
            None => {},
        }
        let ghost hurt = players.deep_view();
        proof {
            lemma_player_views(players);
        }
        assert(same_users(hurt, current));
        assert(players_wf(hurt));
        match find_player(players, hit.shooter_id) {
            Some(s) => {
                assert(hurt[s as int].wf());
                players[s].shots_hit = count_up(players[s].shots_hit);
                players[s].damage_dealt = add_capped(players[s].damage_dealt, hit.damage);
                if killed {
                    players[s].kills = count_up(players[s].kills);
                }
                proof {
                    lemma_player_views(players);
                    assert(players.deep_view() =~= hurt.update(
                        s as int,
                        credited(hurt[s as int], hit.damage as int, killed),
                    ));
                }
            },
            None => {},
        }
        events.push(
            GameEvent::Hit {
                shooter_id: hit.shooter_id,
                target_id: hit.target_id,
                damage: hit.damage,
                x: hit.x,
                y: hit.y,
            },
        );
        if killed {
            events.push(
                GameEvent::Kill {
                    killer_id: Some(hit.shooter_id),
                    victim_id: hit.target_id,
                    cause: KillCause::Shot,
                },
            );
        }
        proof {
            assert(killed == kills_target(current, hit));
            assert(players.deep_view() == struck(current, hit, now));
            assert(events@ =~= told + events_of_hits(before, hits@.take(k as int), now)
                + hit_events(current, hit));
        }
        k += 1;
    }
    proof {
        assert(hits@.take(hits.len() as int) == hits@);
    }
}

} // verus!
