//! The physics step of a tick: ships move, then overlapping ships are
//! pushed apart.

use crate::fixed::LIMIT;
use crate::match_state::players_wf;
use crate::physics::{lemma_class_stats_wf, separated, ship_step, within, PhysicsSystem, ShipStats};
use crate::fixed::TAU;
use crate::player::{lemma_player_views, same_inputs, same_users, PlayerState, PlayerView};
use vstd::prelude::*;

verus! {

/// The player after a tick of movement under the current input; a dead
/// player's ship stays as it is.
pub open spec fn steered(p: PlayerView) -> PlayerView {
    if !p.alive {
        p
    } else {
        let s = ship_step(
            p.x as int,
            p.y as int,
            p.rotation as int,
            p.vel_x as int,
            p.vel_y as int,
            p.current_input.throttle as int,
            p.current_input.steer as int,
            p.stats(),
        );
        PlayerView {
            x: s.0 as i64,
            y: s.1 as i64,
            rotation: s.2 as i64,
            vel_x: s.3 as i64,
            vel_y: s.4 as i64,
            ..p
        }
    }
}

/// Every player after a tick of movement.
pub open spec fn all_steered(players: Seq<PlayerView>) -> Seq<PlayerView> {
    Seq::new(players.len(), |i: int| steered(players[i]))
}

/// The player moved to `(x, y)`.
pub open spec fn placed(p: PlayerView, x: int, y: int) -> PlayerView {
    PlayerView { x: x as i64, y: y as i64, ..p }
}

/// The ships in places `i` and `j` of `snap` are alive and overlap.
pub open spec fn collide(snap: Seq<PlayerView>, i: int, j: int) -> bool {
    snap[i].alive && snap[j].alive && within(
        snap[i].x as int,
        snap[i].y as int,
        snap[j].x as int,
        snap[j].y as int,
        snap[i].stats().hitbox_radius + snap[j].stats().hitbox_radius,
    )
}

/// `players` after the pair `(i, j)` has been looked at: where the two
/// ships overlap in `snap`, both are placed where `snap` pushes them apart.
pub open spec fn pair_resolved(players: Seq<PlayerView>, snap: Seq<PlayerView>, i: int, j: int) -> Seq<
    PlayerView,
> {
    if collide(snap, i, j) {
        let s = separated(
            snap[i].x as int,
            snap[i].y as int,
            snap[i].stats().hitbox_radius as int,
            snap[j].x as int,
            snap[j].y as int,
            snap[j].stats().hitbox_radius as int,
        );
        players.update(i, placed(players[i], s.0.0, s.0.1)).update(
            j,
            placed(players[j], s.1.0, s.1.1),
        )
    } else {
        players
    }
}

/// `players` after the pairs `(i, i + 1)` to `(i, upto - 1)` have been looked
/// at in turn.
pub open spec fn row_resolved(players: Seq<PlayerView>, snap: Seq<PlayerView>, i: int, upto: int) -> Seq<
    PlayerView,
>
    decreases upto,
{
    if upto <= i + 1 || upto <= 0 {
        players
    } else {
        pair_resolved(row_resolved(players, snap, i, upto - 1), snap, i, upto - 1)
    }
}

/// `players` after every pair `(i, j)` with `i < upto` and `i < j` has been
/// looked at, in the order of `i` and then of `j`.
pub open spec fn rows_resolved(players: Seq<PlayerView>, snap: Seq<PlayerView>, upto: int) -> Seq<
    PlayerView,
>
    decreases upto,
{
    if upto <= 0 {
        players
    } else {
        row_resolved(rows_resolved(players, snap, upto - 1), snap, upto - 1, snap.len() as int)
    }
}

/// The players with overlapping ships pushed apart. Every pair of living
/// players is tested where the ships stand at the start, and a ship that
/// overlaps several others ends where the last of its pairs puts it.
pub open spec fn all_separated(players: Seq<PlayerView>) -> Seq<PlayerView> {
    rows_resolved(players, players, players.len() as int)
}

/// The players after the physics step: moved, then pushed apart.
pub open spec fn physics(players: Seq<PlayerView>) -> Seq<PlayerView> {
    all_separated(all_steered(players))
}

/// `b` differs from `a` at most in where the ships stand, and those stand
/// inside the world.
pub open spec fn only_moved(a: Seq<PlayerView>, b: Seq<PlayerView>) -> bool {
    &&& a.len() == b.len()
    &&& forall|k: int|
        0 <= k < a.len() ==> #[trigger] b[k] == placed(a[k], b[k].x as int, b[k].y as int)
            && -LIMIT <= b[k].x <= LIMIT && -LIMIT <= b[k].y <= LIMIT
}

/// Every living player's heading lies in `[0, TAU)`.
pub open spec fn headings_wrapped(players: Seq<PlayerView>) -> bool {
    forall|j: int|
        0 <= j < players.len() && (#[trigger] players[j]).alive ==> 0 <= players[j].rotation < TAU
}

/// Moves every living player's ship by a tick.
pub fn move_ships(players: &mut Vec<PlayerState>)
    requires
        players_wf(old(players).deep_view()),
    ensures
        final(players).deep_view() == all_steered(old(players).deep_view()),
        players_wf(final(players).deep_view()),
        same_users(final(players).deep_view(), old(players).deep_view()),
        same_inputs(final(players).deep_view(), old(players).deep_view()),
        headings_wrapped(final(players).deep_view()),
{
    let ghost before = players.deep_view();
    let n = players.len();
    let mut i: usize = 0;
    proof {
        lemma_player_views(players);
    }
    while i < n
        invariant
            i <= n,
            n == players.len(),
            n == before.len(),
            players_wf(before),
            forall|j: int| 0 <= j < i ==> (#[trigger] players@[j])@ == steered(before[j]),
            forall|j: int| i <= j < n ==> (#[trigger] players@[j])@ == before[j],
            forall|j: int| 0 <= j < n ==> (#[trigger] players@[j])@.wf(),
            forall|j: int|
                0 <= j < i && (#[trigger] players@[j]).alive ==> 0 <= players@[j].rotation < TAU,
        decreases n - i,
    {
        proof {
            assert(before[i as int].wf());
            lemma_class_stats_wf(before[i as int].ship_type);
        }
        if players[i].alive {
            let stats = ShipStats::for_type(players[i].ship_type);
            let (x, y, rotation, vel_x, vel_y) = PhysicsSystem::update_ship(
                players[i].x,
                players[i].y,
                players[i].rotation,
                players[i].vel_x,
                players[i].vel_y,
                players[i].current_input.throttle,
                players[i].current_input.steer,
                &stats,
            );
            players[i].x = x;
            players[i].y = y;
            players[i].rotation = rotation;
            players[i].vel_x = vel_x;
            players[i].vel_y = vel_y;
        }
        i += 1;
    }
    proof {
        lemma_player_views(players);
        assert(players.deep_view() =~= all_steered(before));
    }
}

/// Where a ship stands, how large it is and whether it is alive.
#[derive(Debug, Clone, Copy, PartialEq, Eq, Structural)]
pub struct Hull {
    pub x: i64,
    pub y: i64,
    pub radius: i64,
    pub alive: bool,
}

/// The hull of the player's ship.
pub open spec fn hull_of(p: PlayerView) -> Hull {
    Hull { x: p.x, y: p.y, radius: p.stats().hitbox_radius, alive: p.alive }
}

/// The hulls of the players' ships.
pub fn hulls(players: &Vec<PlayerState>) -> (hulls: Vec<Hull>)
    ensures
        hulls.len() == players.len(),
        forall|k: int|
            0 <= k < players.len() ==> #[trigger] hulls@[k] == hull_of(players.deep_view()[k]),
{
    let mut hulls: Vec<Hull> = Vec::new();
    let mut i: usize = 0;
    while i < players.len()
        invariant
            i <= players.len(),
            hulls.len() == i,
            forall|k: int| 0 <= k < i ==> #[trigger] hulls@[k] == hull_of(players@[k]@),
        decreases players.len() - i,
    {
        let stats = ShipStats::for_type(players[i].ship_type);
        hulls.push(
            Hull {
                x: players[i].x,
                y: players[i].y,
                radius: stats.hitbox_radius,
                alive: players[i].alive,
            },
        );
        i += 1;
    }
    proof {
        lemma_player_views(players);
    }
    hulls
}

/// Pushes overlapping ships apart.
pub fn resolve_collisions(players: &mut Vec<PlayerState>)
    requires
        players_wf(old(players).deep_view()),
    ensures
        final(players).deep_view() == all_separated(old(players).deep_view()),
        players_wf(final(players).deep_view()),
        same_users(final(players).deep_view(), old(players).deep_view()),
        same_inputs(final(players).deep_view(), old(players).deep_view()),
        only_moved(old(players).deep_view(), final(players).deep_view()),
{
    let ghost snap = players.deep_view();
    let n = players.len();
    let hulls = hulls(players);
    let mut i: usize = 0;
    while i < n
        invariant
            i <= n,
            n == players.len(),
            n == snap.len(),
            n == hulls.len(),
            players_wf(snap),
            forall|k: int| 0 <= k < n ==> #[trigger] hulls@[k] == hull_of(snap[k]),
            players.deep_view() == rows_resolved(snap, snap, i as int),
            only_moved(snap, players.deep_view()),
        decreases n - i,
    {
        let ghost row_start = players.deep_view();
        let mut j: usize = i + 1;
        while j < n
            invariant
                i < j <= n,
                n == players.len(),
                n == snap.len(),
                n == hulls.len(),
                players_wf(snap),
                forall|k: int| 0 <= k < n ==> #[trigger] hulls@[k] == hull_of(snap[k]),
                players.deep_view() == row_resolved(row_start, snap, i as int, j as int),
                only_moved(snap, players.deep_view()),
            decreases n - j,
        {
            let a = hulls[i];
            let b = hulls[j];
            proof {
                assert(snap[i as int].wf());
                assert(snap[j as int].wf());
                lemma_class_stats_wf(snap[i as int].ship_type);
                lemma_class_stats_wf(snap[j as int].ship_type);
            }
            if a.alive && b.alive && PhysicsSystem::check_ship_collision(
                a.x,
                a.y,
                a.radius,
                b.x,
                b.y,
                b.radius,
            ) {
                let ((x1, y1), (x2, y2)) = PhysicsSystem::resolve_ship_collision(
                    a.x,
                    a.y,
                    a.radius,
                    b.x,
                    b.y,
                    b.radius,
                );
                let ghost current = players.deep_view();
                proof {
                    lemma_player_views(players);
                }
                players[i].x = x1;
                players[i].y = y1;
                players[j].x = x2;
                players[j].y = y2;
                proof {
                    lemma_player_views(players);
                    assert(players.deep_view() =~= pair_resolved(current, snap, i as int, j as int));
                }
            }
            j += 1;
        }
        proof {
            if i + 1 >= n {
                assert(row_resolved(row_start, snap, i as int, n as int) == row_start);
            }
        }
        i += 1;
    }
    proof {
        let after = players.deep_view();
        assert forall|k: int| 0 <= k < n implies (#[trigger] after[k]).wf() by {
            assert(snap[k].wf());
            assert(after[k] == placed(snap[k], after[k].x as int, after[k].y as int));
        }
    }
}

} // verus!
