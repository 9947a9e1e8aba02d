//! Every turn keeps a match consistent.

use crate::combat::{lemma_class_weapon_wf, HitResult, Projectile};
use crate::fixed::{
    cos_of, lemma_cos_bounds, lemma_div_toward_zero_bounds, lemma_scaled_bounds, lemma_sin_bounds,
    sin_of, LIMIT, TAU, TICKS_PER_SECOND,
};
use crate::game_match::GameMatchView;
use crate::laws_zone::lemma_zone_stepped_wf;
use crate::match_state::{players_wf, projectiles_wf, zone_wf, MatchView};
use crate::physics::{lemma_class_stats_wf, lemma_limit_speed, pushed, thrust_power, turned};
use crate::player::{
    distinct_ids, lemma_position_from, position, same_users, PlayerInput, PlayerView,
};
use crate::protocol::{ClientMsg, ShipType, ZoneState};
use crate::tick_combat::{
    hits_on, hits_wf, in_flight_after, players_after_hits, shots, struck, triggered, weapon,
    wounded,
};
use crate::tick_physics::{
    all_steered, pair_resolved, physics, row_resolved, rows_resolved, steered,
};
use crate::tick_zone::all_scorched;
use vstd::prelude::*;

verus! {

/// A tick of movement keeps a player consistent, and leaves a living
/// player's heading in `[0, TAU)`.
pub proof fn lemma_steered_wf(p: PlayerView)
    requires
        p.wf(),
    ensures
        steered(p).wf(),
        steered(p).user_id == p.user_id,
        p.alive ==> 0 <= steered(p).rotation < TAU,
{
    lemma_class_stats_wf(p.ship_type);
    if p.alive {
        let stats = p.stats();
        let rot = turned(p.rotation as int, p.current_input.steer as int, stats);
        let power = thrust_power(p.current_input.throttle as int, stats);
        let vx = pushed(p.vel_x as int, cos_of(rot), power, stats);
        let vy = pushed(p.vel_y as int, sin_of(rot), power, stats);
        lemma_limit_speed(vx, vy, stats.max_speed as int);
    }
}

/// Pushing ships apart only moves ships, and keeps them inside the world.
pub open spec fn moved_within_world(a: Seq<PlayerView>, b: Seq<PlayerView>) -> bool {
    &&& a.len() == b.len()
    &&& forall|k: int|
        0 <= k < a.len() ==> #[trigger] b[k] == (PlayerView { x: b[k].x, y: b[k].y, ..a[k] })
            && -LIMIT <= b[k].x <= LIMIT && -LIMIT <= b[k].y <= LIMIT
}

/// Looking at one pair only moves ships inside the world.
proof fn lemma_pair_moves(players: Seq<PlayerView>, snap: Seq<PlayerView>, i: int, j: int)
    requires
        players_wf(snap),
        moved_within_world(snap, players),
        0 <= i < j < snap.len(),
    ensures
        moved_within_world(snap, pair_resolved(players, snap, i, j)),
{
    assert(snap[i].wf());
    assert(snap[j].wf());
    lemma_class_stats_wf(snap[i].ship_type);
    lemma_class_stats_wf(snap[j].ship_type);
}

/// Looking at the pairs of a row only moves ships inside the world.
proof fn lemma_row_moves(players: Seq<PlayerView>, snap: Seq<PlayerView>, i: int, upto: int)
    requires
        players_wf(snap),
        moved_within_world(snap, players),
        0 <= i,
        upto <= snap.len(),
    ensures
        moved_within_world(snap, row_resolved(players, snap, i, upto)),
    decreases upto,
{
    if !(upto <= i + 1 || upto <= 0) {
        lemma_row_moves(players, snap, i, upto - 1);
        lemma_pair_moves(row_resolved(players, snap, i, upto - 1), snap, i, upto - 1);
    }
}

/// Looking at the pairs of the first rows only moves ships inside the
/// world.
proof fn lemma_rows_move(players: Seq<PlayerView>, snap: Seq<PlayerView>, upto: int)
    requires
        players_wf(snap),
        moved_within_world(snap, players),
        upto <= snap.len(),
    ensures
        moved_within_world(snap, rows_resolved(players, snap, upto)),
    decreases upto,
{
    if upto > 0 {
        lemma_rows_move(players, snap, upto - 1);
        lemma_row_moves(rows_resolved(players, snap, upto - 1), snap, upto - 1, snap.len() as int);
    }
}

/// The physics step keeps the players consistent and in their places in
/// the list; afterwards no ship is faster than its class allows and every
/// living player's heading lies in `[0, TAU)`.
pub proof fn law_physics_keeps_consistent(players: Seq<PlayerView>)
    requires
        players_wf(players),
    ensures
        players_wf(physics(players)),
        same_users(physics(players), players),
        forall|k: int|
            0 <= k < players.len() && players[k].alive ==> 0 <= (#[trigger] physics(
                players,
            )[k]).rotation < TAU,
{
    let moved = all_steered(players);
    assert forall|k: int| 0 <= k < moved.len() implies (#[trigger] moved[k]).wf() by {
        assert(players[k].wf());
        lemma_steered_wf(players[k]);
    }
    assert forall|k: int| 0 <= k < players.len() implies moved[k].user_id == players[k].user_id
        && (players[k].alive ==> 0 <= moved[k].rotation < TAU) by {
        assert(players[k].wf());
        lemma_steered_wf(players[k]);
    }
    assert(moved_within_world(moved, moved)) by {
        assert forall|k: int| 0 <= k < moved.len() implies #[trigger] moved[k] == (PlayerView {
            x: moved[k].x,
            y: moved[k].y,
            ..moved[k]
        }) && -LIMIT <= moved[k].x <= LIMIT && -LIMIT <= moved[k].y <= LIMIT by {
            assert(moved[k].wf());
        }
    }
    lemma_rows_move(moved, moved, moved.len() as int);
    let after = physics(players);
    assert forall|k: int| 0 <= k < after.len() implies (#[trigger] after[k]).wf() by {
        assert(moved[k].wf());
    }
}

/// Shooting keeps the players consistent and the new projectiles are in
/// flight inside the world.
pub proof fn lemma_shooting_wf(players: Seq<PlayerView>, ids: Seq<u128>)
    requires
        players_wf(players),
    ensures
        players_wf(triggered(players)),
        same_users(triggered(players), players),
        projectiles_wf(shots(players, ids)),
    decreases players.len(),
{
    let armed = triggered(players);
    assert forall|k: int| 0 <= k < armed.len() implies (#[trigger] armed[k]).wf() by {
        assert(players[k].wf());
        lemma_class_weapon_wf(players[k].ship_type);
    }
    if players.len() > 0 {
        let rest = players.drop_last();
        assert forall|k: int| 0 <= k < rest.len() implies (#[trigger] rest[k]).wf() by {
            assert(players[k].wf());
        }
        lemma_shooting_wf(rest, ids);
        let p = players.last();
        assert(p.wf());
        lemma_class_weapon_wf(p.ship_type);
        lemma_class_stats_wf(p.ship_type);
        let aim = p.current_input.aim_yaw as int;
        lemma_cos_bounds(aim);
        lemma_sin_bounds(aim);
        lemma_scaled_bounds(weapon(p).projectile_speed as int, cos_of(aim));
        lemma_scaled_bounds(weapon(p).projectile_speed as int, sin_of(aim));
    }
}

/// The projectiles that outlive a tick are in flight inside the world, and
/// the hits of the others carry the damage of a weapon.
pub proof fn lemma_flight_wf(projectiles: Seq<Projectile>, players: Seq<PlayerView>)
    requires
        projectiles_wf(projectiles),
    ensures
        projectiles_wf(in_flight_after(projectiles, players)),
        hits_wf(hits_on(projectiles, players)),
    decreases projectiles.len(),
{
    if projectiles.len() > 0 {
        let rest = projectiles.drop_last();
        assert forall|k: int| 0 <= k < rest.len() implies (#[trigger] rest[k]).wf() by {
            assert(projectiles[k].wf());
        }
        lemma_flight_wf(rest, players);
        assert(projectiles.last().wf());
    }
}

/// A hit keeps the players consistent and in their places in the list.
pub proof fn lemma_struck_wf(players: Seq<PlayerView>, hit: HitResult, now: u64)
    requires
        players_wf(players),
        0 <= hit.damage <= LIMIT,
    ensures
        players_wf(struck(players, hit, now)),
        same_users(struck(players, hit, now), players),
{
    lemma_position_from(players, hit.target_id, 0);
    let hurt = match position(players, hit.target_id) {
        Some(t) => players.update(t, wounded(players[t], hit.damage as int, now)),
        None => players,
    };
    match position(players, hit.target_id) {
        Some(t) => {
            assert(players[t].wf());
            lemma_class_stats_wf(players[t].ship_type);
        },
        None => {},
    }
    assert forall|k: int| 0 <= k < hurt.len() implies (#[trigger] hurt[k]).wf() by {
        assert(players[k].wf());
    }
    lemma_position_from(hurt, hit.shooter_id, 0);
    let after = struck(players, hit, now);
    assert forall|k: int| 0 <= k < after.len() implies (#[trigger] after[k]).wf() by {
        assert(hurt[k].wf());
    }
}

/// Hits keep the players consistent and in their places in the list.
pub proof fn lemma_hits_wf(players: Seq<PlayerView>, hits: Seq<HitResult>, now: u64)
    requires
        players_wf(players),
        hits_wf(hits),
    ensures
        players_wf(players_after_hits(players, hits, now)),
        same_users(players_after_hits(players, hits, now), players),
    decreases hits.len(),
{
    if hits.len() > 0 {
        let rest = hits.drop_last();
        assert forall|k: int| 0 <= k < rest.len() implies 0 <= (#[trigger] rest[k]).damage
            <= LIMIT by {
            assert(hits[k].damage >= 0);
        }
        lemma_hits_wf(players, rest, now);
        assert(0 <= hits[hits.len() - 1].damage <= LIMIT);
        lemma_struck_wf(players_after_hits(players, rest, now), hits.last(), now);
    }
}

/// The zone's damage keeps the players consistent and in their places in
/// the list.
pub proof fn lemma_scorched_wf(players: Seq<PlayerView>, zone: ZoneState, now: u64)
    requires
        players_wf(players),
        zone_wf(zone),
    ensures
        players_wf(all_scorched(players, zone, now)),
        same_users(all_scorched(players, zone, now), players),
{
    lemma_div_toward_zero_bounds(zone.damage_per_second as int, TICKS_PER_SECOND as int);
    let after = all_scorched(players, zone, now);
    assert forall|k: int| 0 <= k < after.len() implies (#[trigger] after[k]).wf() by {
        assert(players[k].wf());
        lemma_class_stats_wf(players[k].ship_type);
    }
}

/// Players in the same places with the same user ids are distinct if the
/// others are.
proof fn lemma_same_users_distinct(a: Seq<PlayerView>, b: Seq<PlayerView>)
    requires
        same_users(a, b),
        distinct_ids(b),
    ensures
        distinct_ids(a),
{
    assert forall|i: int, j: int| 0 <= i < j < a.len() implies #[trigger] a[i].user_id
        != #[trigger] a[j].user_id by {
        assert(b[i].user_id != b[j].user_id);
    }
}

/// The simulation of a tick keeps a match consistent.
pub proof fn law_simulation_keeps_consistent(v: MatchView, now: u64)
    requires
        v.wf(),
    ensures
        v.simulated(now).wf(),
{
    let moved = v.after_physics();
    let ids = moved.own_ids();
    law_physics_keeps_consistent(v.players);
    lemma_same_users_distinct(moved.players, v.players);
    assert(moved.wf());

    let armed = triggered(moved.players);
    let flying = moved.projectiles + shots(moved.players, ids);
    lemma_shooting_wf(moved.players, ids);
    assert forall|k: int| 0 <= k < flying.len() implies (#[trigger] flying[k]).wf() by {
        if k < moved.projectiles.len() {
            assert(moved.projectiles[k].wf());
        } else {
            assert(shots(moved.players, ids)[k - moved.projectiles.len()].wf());
        }
    }
    lemma_flight_wf(flying, armed);
    lemma_hits_wf(armed, hits_on(flying, armed), now);
    let fought = moved.fought(now);
    assert(same_users(fought.players, moved.players));
    lemma_same_users_distinct(fought.players, moved.players);
    assert(fought.wf());

    lemma_zone_stepped_wf(fought);
    let zoned = fought.zone_stepped();
    lemma_scorched_wf(zoned.players, zoned.zone, now);
    let done = zoned.after_zone_damage(now);
    lemma_same_users_distinct(done.players, zoned.players);
}

/// A tick keeps a match consistent.
pub proof fn law_tick_keeps_consistent(g: GameMatchView, now: u64)
    requires
        g.state.wf(),
    ensures
        g.ticked(now).state.wf(),
{
    let counted = MatchView { tick: (g.state.tick + 1) as u64, ..g.state };
    assert(counted.wf());
    law_simulation_keeps_consistent(counted, now);
}

/// A player who has just spawned is consistent.
proof fn lemma_newcomer_wf(v: MatchView, user_id: u128, ship_type: ShipType, now: u64)
    ensures
        v.newcomer(user_id, ship_type, now).wf(),
{
    let newcomer = v.newcomer(user_id, ship_type, now);
    lemma_class_stats_wf(ship_type);
    let top = newcomer.stats().max_speed;
    assert(0 <= top * top) by (nonlinear_arith);
    assert(newcomer.vel_x == 0 && newcomer.vel_y == 0);
    assert(newcomer.vel_x * newcomer.vel_x + newcomer.vel_y * newcomer.vel_y == 0);
}

/// A message of a client keeps a match consistent.
pub proof fn law_input_keeps_consistent(g: GameMatchView, input: PlayerInput, now: u64)
    requires
        g.state.wf(),
    ensures
        g.input_handled(input, now).state.wf(),
{
    let v = g.state;
    let after = g.input_handled(input, now).state;
    lemma_position_from(v.players, input.user_id, 0);
    match input.msg {
        ClientMsg::JoinMatch { match_id, ship_type } => {
            if v.admits(input.user_id) {
                let newcomer = v.newcomer(input.user_id, ship_type, now);
                lemma_newcomer_wf(v, input.user_id, ship_type, now);
                assert forall|k: int| 0 <= k < after.players.len() implies (
                #[trigger] after.players[k]).wf() by {
                    if k < v.players.len() {
                        assert(v.players[k].wf());
                    }
                }
            }
        },
        ClientMsg::InputTick { seq, throttle, steer, shoot, aim_yaw } => {
            assert forall|k: int| 0 <= k < after.players.len() implies (
            #[trigger] after.players[k]).wf() by {
                assert(v.players[k].wf());
            }
        },
        ClientMsg::Ping { t } => {},
        ClientMsg::LeaveMatch => {
            match position(v.players, input.user_id) {
                Some(i) => {
                    let rest = v.players.remove(i);
                    assert forall|k: int| 0 <= k < rest.len() implies (#[trigger] rest[k]).wf() by {
                        if k < i {
                            assert(v.players[k].wf());
                        } else {
                            assert(v.players[k + 1].wf());
                        }
                    }
                    assert forall|a: int, b: int| 0 <= a < b < rest.len() implies #[trigger] rest[a].user_id
                        != #[trigger] rest[b].user_id by {
                        let a0 = if a < i { a } else { a + 1 };
                        let b0 = if b < i { b } else { b + 1 };
                        assert(v.players[a0].user_id != v.players[b0].user_id);
                    }
                },
                None => {},
            }
        },
    }
}

/// The clients' messages keep a match consistent.
pub proof fn lemma_inputs_keep_consistent(g: GameMatchView, inputs: Seq<PlayerInput>, now: u64)
    requires
        g.state.wf(),
    ensures
        g.inputs_handled(inputs, now).state.wf(),
    decreases inputs.len(),
{
    if inputs.len() > 0 {
        lemma_inputs_keep_consistent(g, inputs.drop_last(), now);
        law_input_keeps_consistent(g.inputs_handled(inputs.drop_last(), now), inputs.last(), now);
    }
}

/// A turn of the loop keeps a match consistent, whatever comes in: in every
/// run, on every tick, every player's health lies between zero and the
/// maximum of the class, a player is alive exactly while health is left, no
/// ship is faster than its class allows, and no two players share a user
/// id.
pub proof fn law_turn_keeps_consistent(g: GameMatchView, inputs: Seq<PlayerInput>, now: u64)
    requires
        g.state.wf(),
    ensures
        g.stepped(inputs, now).state.wf(),
{
    lemma_inputs_keep_consistent(g, inputs, now);
    law_tick_keeps_consistent(g.inputs_handled(inputs, now), now);
}

} // verus!
