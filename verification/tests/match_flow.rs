use ship_game::fixed::{LIMIT, SCALE, TAU};
use ship_game::game_match::GameMatch;
use ship_game::game_step::StepOutcome;
use ship_game::match_state::{MatchPhase, MatchState, COUNTDOWN};
use ship_game::player::PlayerInput;
use ship_game::protocol::{
    ClientMsg, ErrorCode, GameEvent, KillCause, LeaveReason, ServerMsg, ShipType,
};
use ship_game::zone::{ZoneConfig, ZonePhase};

const ALICE: u128 = 0xa11ce000_0000_4000_8000_000000000001;
const BOB: u128 = 0xb0b00000_0000_4000_8000_000000000002;
const CAROL: u128 = 0xca401000_0000_4000_8000_000000000003;

fn join(user_id: u128, ship_type: ShipType) -> PlayerInput {
    PlayerInput { user_id, msg: ClientMsg::JoinMatch { match_id: None, ship_type }, received_at: 0 }
}

fn input(user_id: u128, seq: u32, throttle: i64, steer: i64, shoot: bool, aim_yaw: i64) -> PlayerInput {
    PlayerInput { user_id, msg: ClientMsg::InputTick { seq, throttle, steer, shoot, aim_yaw }, received_at: 0 }
}

fn step(game: &mut GameMatch, inputs: Vec<PlayerInput>, turn: u64) -> StepOutcome {
    game.step_at(&inputs, 1_000_000 + turn * 33)
}

fn kinds(msgs: &[ServerMsg]) -> Vec<&'static str> {
    msgs.iter()
        .map(|m| match m {
            ServerMsg::Welcome { .. } => "welcome",
            ServerMsg::MatchJoined { .. } => "match_joined",
            ServerMsg::PlayerJoined { .. } => "player_joined",
            ServerMsg::PlayerLeft { .. } => "player_left",
            ServerMsg::Snapshot { .. } => "snapshot",
            ServerMsg::MatchCountdown { .. } => "match_countdown",
            ServerMsg::MatchStarted { .. } => "match_started",
            ServerMsg::MatchEnd { .. } => "match_end",
            ServerMsg::Error { .. } => "error",
            ServerMsg::Pong { .. } => "pong",
        })
        .collect()
}

fn events_of(msgs: &[ServerMsg]) -> Vec<GameEvent> {
    let mut all = Vec::new();
    for m in msgs {
        if let ServerMsg::Snapshot { events, .. } = m {
            all.extend(events.iter().cloned());
        }
    }
    all
}

fn no_projectile_touches_a_living_ship(state: &MatchState) {
    for q in &state.projectiles {
        assert!(q.lifetime_remaining > 0);
        for p in &state.players {
            let radius = ship_game::physics::ShipStats::for_type(p.ship_type).hitbox_radius;
            assert!(!(p.alive && p.user_id != q.owner_id && q.check_hit(p.x, p.y, radius)));
        }
    }
}

fn health_is_consistent(state: &MatchState) {
    for p in &state.players {
        let max = ship_game::physics::ShipStats::for_type(p.ship_type).max_health;
        assert!(0 <= p.health && p.health <= max);
        assert_eq!(p.alive, p.health > 0);
        assert!(-LIMIT <= p.x && p.x <= LIMIT && -LIMIT <= p.y && p.y <= LIMIT);
    }
}

#[test]
fn new_match_waits_with_the_standard_zone() {
    let game = GameMatch::new(7, 0x1234, 2, 20);
    assert_eq!(game.state.id, 7);
    assert_eq!(game.state.seed, 0x1234);
    assert_eq!(game.state.phase, MatchPhase::Waiting);
    assert_eq!(game.state.tick, 0);
    assert_eq!(game.player_count(), 0);
    assert_eq!(game.state.countdown_remaining, COUNTDOWN);
    assert_eq!((game.state.min_players, game.state.max_players), (2, 20));
    assert_eq!(game.state.zone.radius, 1500 * SCALE);
    assert_eq!(game.state.zone.target_radius, 1500 * SCALE);
    assert_eq!(game.state.zone.damage_per_second, 5 * SCALE);
    assert_eq!(game.state.zone.shrink_delay, 60 * SCALE);
    assert_eq!((game.state.zone_config.initial_radius, game.state.zone_config.initial_delay), (4_500_000, 180_000));
    assert_eq!(
        game.state.zone_config.phases,
        vec![
            ZonePhase { target_radius: 3_000_000, shrink_duration: 90_000, damage_per_second: 15_000, delay_after: 135_000 },
            ZonePhase { target_radius: 1_800_000, shrink_duration: 75_000, damage_per_second: 30_000, delay_after: 90_000 },
            ZonePhase { target_radius: 900_000, shrink_duration: 60_000, damage_per_second: 45_000, delay_after: 60_000 },
            ZonePhase { target_radius: 150_000, shrink_duration: 45_000, damage_per_second: 75_000, delay_after: 0 },
        ]
    );
    assert_eq!(ZoneConfig::default().phases.len(), 4);
    assert_eq!(game.snapshot_builder.snapshot_interval, 2);
    assert_eq!(game.state.alive_count(), 0);
}

#[test]
fn solo_countdown_and_end() {
    let mut game = GameMatch::new(7, 99, 1, 4);
    let first = step(&mut game, vec![join(ALICE, ShipType::Fighter)], 1);
    assert_eq!(kinds(&first.messages), vec!["player_joined", "match_joined", "match_countdown"]);
    match &first.messages[0] {
        ServerMsg::PlayerJoined { player } => {
            assert_eq!(player.user_id, ALICE);
            assert_eq!(player.display_name, "Player_a11ce000");
            assert_eq!(player.ship_type, ShipType::Fighter);
            assert_eq!(player.flag_skin_id, None);
        }
        _ => panic!("no player_joined"),
    }
    match &first.messages[1] {
        ServerMsg::MatchJoined { match_id, seed, players } => {
            assert_eq!((*match_id, *seed, players.len()), (7, 99, 1));
            assert_eq!(players[0].user_id, ALICE);
        }
        _ => panic!("no match_joined"),
    }
    match &first.messages[2] {
        ServerMsg::MatchCountdown { seconds_remaining } => assert_eq!(*seconds_remaining, 5),
        _ => panic!("no countdown"),
    }
    assert!(!first.finished);
    assert_eq!(game.state.phase, MatchPhase::Countdown);

    let mut turn = 2;
    let mut started_at = None;
    while started_at.is_none() {
        let out = step(&mut game, vec![], turn);
        assert!(!out.finished);
        for m in &out.messages {
            if let ServerMsg::MatchStarted { tick } = m {
                started_at = Some(*tick);
            }
        }
        turn += 1;
        assert!(turn < 200);
    }
    assert_eq!(started_at, Some(150));
    assert_eq!(game.state.phase, MatchPhase::InProgress);
    assert_eq!(game.state.start_time, Some(1_000_000 + 150 * 33));
    assert_eq!(game.state.zone_timer, 60 * SCALE);

    let last = step(&mut game, vec![], turn);
    assert!(last.finished);
    assert_eq!(game.state.phase, MatchPhase::Ended);
    assert_eq!(kinds(&last.messages), vec!["snapshot", "match_end"]);
    match &last.messages[1] {
        ServerMsg::MatchEnd { winner_user_id, stats } => {
            assert_eq!(*winner_user_id, Some(ALICE));
            assert_eq!(stats.total_players, 1);
            assert_eq!(stats.player_stats.len(), 1);
            assert_eq!(stats.player_stats[0].placement, 1);
            assert_eq!(stats.player_stats[0].user_id, ALICE);
        }
        _ => panic!("no match_end"),
    }
}

fn duel() -> GameMatch {
    let mut game = GameMatch::new(7, 5, 2, 20);
    let out = step(&mut game, vec![join(ALICE, ShipType::Fighter), join(BOB, ShipType::Fighter)], 1);
    assert_eq!(
        kinds(&out.messages),
        vec!["player_joined", "match_joined", "player_joined", "match_joined", "match_countdown"]
    );
    game.state.players[0].x = 0;
    game.state.players[0].y = 0;
    game.state.players[1].x = 300 * SCALE;
    game.state.players[1].y = 0;
    let mut turn = 2;
    while game.state.phase == MatchPhase::Countdown {
        let out = step(&mut game, vec![], turn);
        assert!(!out.finished);
        turn += 1;
    }
    assert_eq!(game.state.tick, 150);
    game
}

#[test]
fn two_player_duel_one_kills_the_other() {
    let mut game = duel();
    let mut turn = game.state.tick + 1;
    let mut all_events = Vec::new();
    while !game.is_over() {
        let now = 1_000_000 + turn * 33;
        let answers = game.process_inputs(&vec![input(ALICE, turn as u32, 0, 0, true, 0)], now);
        assert!(answers.is_empty());
        let (events, told) = game.run_tick(now);
        assert!(told.is_empty());
        health_is_consistent(&game.state);
        no_projectile_touches_a_living_ship(&game.state);
        all_events.extend(events);
        turn += 1;
        assert!(turn < 1000);
    }
    assert_eq!(game.state.phase, MatchPhase::Ended);
    let shots = all_events.iter().filter(|e| matches!(e, GameEvent::Shot { shooter_id, .. } if *shooter_id == ALICE)).count();
    assert!(shots >= 9);
    let mut hit_damage = 0;
    let mut hits = 0;
    for e in &all_events {
        if let GameEvent::Hit { shooter_id, target_id, damage, .. } = e {
            assert_eq!((*shooter_id, *target_id, *damage), (ALICE, BOB, 12 * SCALE));
            hit_damage += damage;
            hits += 1;
        }
    }
    assert_eq!(hits, 9);
    assert!(hit_damage >= 100 * SCALE);
    let kills: Vec<&GameEvent> = all_events.iter().filter(|e| matches!(e, GameEvent::Kill { .. })).collect();
    assert_eq!(kills, vec![&GameEvent::Kill { killer_id: Some(ALICE), victim_id: BOB, cause: KillCause::Shot }]);
    assert!(matches!(all_events.last(), Some(GameEvent::Kill { .. })));
    assert_eq!(game.winner(), Some(ALICE));
    let stats = game.build_match_stats(1_000_000 + turn * 33);
    assert_eq!(stats.total_players, 2);
    // Both spawned five seconds before the match started, so the loser was
    // alive for longer than the match lasted and is placed first.
    let alice_stats = stats.player_stats.iter().find(|s| s.user_id == ALICE).unwrap();
    assert_eq!((alice_stats.kills, alice_stats.shots_hit), (1, 9));
    assert_eq!(stats.duration_secs, 2);
    assert_eq!((alice_stats.alive_time_secs, alice_stats.placement), (2, 2));
    assert_eq!(alice_stats.damage_dealt, 108 * SCALE);
    let bob_stats = stats.player_stats.iter().find(|s| s.user_id == BOB).unwrap();
    assert_eq!((bob_stats.kills, bob_stats.damage_taken), (0, 108 * SCALE));
    assert_eq!((bob_stats.alive_time_secs, bob_stats.placement), (7, 1));
    let alice = &game.state.players[0];
    let bob = &game.state.players[1];
    assert!(alice.alive && !bob.alive);
    assert_eq!(bob.health, 0);
    assert!(bob.death_time.is_some());
    assert_eq!(alice.shots_fired as usize, shots);
    for q in &game.state.projectiles {
        assert!(!(alice.user_id != q.owner_id && q.check_hit(alice.x, alice.y, 60_000)));
    }
}

#[test]
fn duel_ends_with_a_snapshot_and_the_end_of_the_match() {
    let mut game = duel();
    let mut turn = game.state.tick + 1;
    let mut end = None;
    let mut kills_told = 0;
    while end.is_none() {
        let out = step(&mut game, vec![input(ALICE, turn as u32, 0, 0, true, 0)], turn);
        for e in events_of(&out.messages) {
            if let GameEvent::Kill { killer_id, victim_id, cause } = e {
                assert_eq!((killer_id, victim_id, cause), (Some(ALICE), BOB, KillCause::Shot));
                kills_told += 1;
            }
        }
        if out.finished {
            let told = kinds(&out.messages);
            assert_eq!(told[told.len() - 2..].to_vec(), vec!["snapshot", "match_end"]);
            end = out.messages.last().cloned();
        } else {
            assert!(!kinds(&out.messages).contains(&"match_end"));
        }
        turn += 1;
        assert!(turn < 1000);
    }
    assert_eq!(kills_told, 1);
    match end {
        Some(ServerMsg::MatchEnd { winner_user_id, stats }) => {
            assert_eq!(winner_user_id, Some(ALICE));
            assert_eq!(stats.total_players, 2);
            let alice = stats.player_stats.iter().find(|s| s.user_id == ALICE).unwrap();
            assert_eq!(alice.kills, 1);
        }
        _ => panic!("no match_end"),
    }
}

#[test]
fn winner_of_a_duel_between_players_who_spawn_at_the_start_is_placed_first() {
    let mut game = GameMatch::new(7, 5, 2, 20);
    let joins = vec![join(ALICE, ShipType::Fighter), join(BOB, ShipType::Fighter)];
    let _ = game.step_at(&joins, 50_000);
    game.state.players[0].x = 0;
    game.state.players[0].y = 0;
    game.state.players[1].x = 300 * SCALE;
    game.state.players[1].y = 0;
    while game.state.phase == MatchPhase::Countdown {
        let _ = game.step_at(&vec![], 50_000);
    }
    assert_eq!(game.state.start_time, Some(50_000));
    let mut now = 50_000;
    let mut seq = 1;
    loop {
        now += 33;
        let out = game.step_at(&vec![input(ALICE, seq, 0, 0, true, 0)], now);
        seq += 1;
        if out.finished {
            match out.messages.last() {
                Some(ServerMsg::MatchEnd { winner_user_id, stats }) => {
                    assert_eq!(*winner_user_id, Some(ALICE));
                    let order: Vec<(u128, u32, u32)> =
                        stats.player_stats.iter().map(|s| (s.user_id, s.kills, s.placement)).collect();
                    assert_eq!(order, vec![(ALICE, 1, 1), (BOB, 0, 2)]);
                }
                _ => panic!("no match_end"),
            }
            break;
        }
        assert!(seq < 1000);
    }
}

#[test]
fn damage_dealt_matches_the_hits_that_are_told() {
    let mut game = duel();
    let mut turn = game.state.tick + 1;
    let mut told = 0;
    while turn < 200 && !game.is_over() {
        let now = 1_000_000 + turn * 33;
        let shooting = vec![input(ALICE, turn as u32, 0, 0, true, 0), input(BOB, turn as u32, 0, 0, true, TAU / 2)];
        let _ = game.process_inputs(&shooting, now);
        let (events, _) = game.run_tick(now);
        no_projectile_touches_a_living_ship(&game.state);
        for e in events {
            if let GameEvent::Hit { damage, .. } = e {
                told += damage;
            }
        }
        turn += 1;
    }
    assert!(told > 0);
    let dealt: i64 = game.state.players.iter().map(|p| p.damage_dealt).sum();
    let taken: i64 = game.state.players.iter().map(|p| p.damage_taken).sum();
    assert_eq!(dealt, told);
    assert_eq!(dealt, taken);
}

#[test]
fn zone_kills_a_player_who_stays_outside() {
    let mut game = GameMatch::new(7, 11, 3, 20);
    let joins = vec![join(ALICE, ShipType::Fighter), join(BOB, ShipType::Fighter), join(CAROL, ShipType::Fighter)];
    let _ = step(&mut game, joins, 1);
    game.state.players[0].x = 1400 * SCALE;
    game.state.players[0].y = 0;
    game.state.players[1].x = 0;
    game.state.players[1].y = 100 * SCALE;
    game.state.players[2].x = 0;
    game.state.players[2].y = -100 * SCALE;
    let mut turn = 2;
    let mut zone_damage = 0;
    let mut shrink_events = Vec::new();
    let mut kill = None;
    let mut last_radius = game.state.zone.radius;
    while kill.is_none() {
        let (events, _) = game.run_tick(1_000_000 + turn * 33);
        assert!(!game.is_over());
        health_is_consistent(&game.state);
        assert!(game.state.zone.radius <= last_radius);
        last_radius = game.state.zone.radius;
        if game.state.is_shrinking {
            assert!(game.state.zone.target_radius <= game.state.zone.radius);
            assert!(game.state.zone.radius <= 1500 * SCALE);
        }
        for e in events {
            match e {
                GameEvent::ZoneDamage { user_id, damage } => {
                    assert_eq!((user_id, damage), (ALICE, 500));
                    zone_damage += 1;
                }
                GameEvent::ZoneShrink { .. } => shrink_events.push(e),
                GameEvent::Kill { .. } => kill = Some(e),
                _ => panic!("unexpected event"),
            }
        }
        turn += 1;
        assert!(turn < 5000);
    }
    assert_eq!(kill, Some(GameEvent::Kill { killer_id: None, victim_id: ALICE, cause: KillCause::Zone }));
    assert_eq!(zone_damage, 600);
    assert_eq!(shrink_events.len(), 1);
    match shrink_events[0] {
        GameEvent::ZoneShrink { phase, new_center_x, new_center_y, new_radius } => {
            assert_eq!((phase, new_radius), (0, 1000 * SCALE));
            let dx = new_center_x as i128;
            let dy = new_center_y as i128;
            assert!(dx * dx + dy * dy <= (500 * SCALE as i128) * (500 * SCALE as i128));
        }
        _ => panic!("not a shrink"),
    }
    assert_eq!(game.state.players[0].health, 0);
    assert!(!game.state.players[0].alive);
    assert_eq!(game.state.players[0].damage_taken, 100 * SCALE);
    assert!(game.state.players[1].alive && game.state.players[2].alive);
    assert_eq!(game.state.phase, MatchPhase::InProgress);

    let frozen = format!("{:?}", game.state.players[0]);
    let mut later = turn;
    while later < turn + 10 {
        let now = 1_000_000 + later * 33;
        let _ = game.process_inputs(&vec![input(ALICE, 9000 + later as u32, SCALE, SCALE, true, 5)], now);
        let (events, _) = game.run_tick(now);
        assert!(events.is_empty());
        later += 1;
    }
    assert_eq!(format!("{:?}", game.state.players[0]), frozen);
}

#[test]
fn phases_advance_in_order_and_are_announced_once() {
    let mut game = GameMatch::new(7, 5, 2, 20);
    let mut told: Vec<&'static str> = Vec::new();
    let mut phases = vec![game.state.phase];
    let mut turn = 1;
    loop {
        let mut inputs = Vec::new();
        if turn == 3 {
            inputs.push(join(ALICE, ShipType::Fighter));
        }
        if turn == 20 {
            inputs.push(join(BOB, ShipType::Fighter));
        }
        if turn == 400 {
            inputs.push(PlayerInput { user_id: BOB, msg: ClientMsg::LeaveMatch, received_at: 0 });
        }
        let out = step(&mut game, inputs, turn);
        if *phases.last().unwrap() != game.state.phase {
            phases.push(game.state.phase);
        }
        let kinds_now = kinds(&out.messages);
        if let Some(end) = kinds_now.iter().position(|k| *k == "match_end") {
            assert_eq!(end, kinds_now.len() - 1);
            assert!(out.finished);
        }
        if let (Some(start), Some(shot)) = (
            kinds_now.iter().position(|k| *k == "match_started"),
            kinds_now.iter().position(|k| *k == "snapshot"),
        ) {
            assert!(start < shot);
        }
        for m in &out.messages {
            if let ServerMsg::Snapshot { .. } = m {
                let started = told.contains(&"match_started");
                let in_progress = game.state.phase == MatchPhase::InProgress || game.state.phase == MatchPhase::Ended;
                assert!(!in_progress || started || kinds_now.contains(&"match_started"));
            }
        }
        told.extend(kinds_now);
        if out.finished {
            break;
        }
        turn += 1;
        assert!(turn < 1000);
    }
    assert_eq!(
        phases,
        vec![MatchPhase::Waiting, MatchPhase::Countdown, MatchPhase::InProgress, MatchPhase::Ended]
    );
    assert_eq!(told.iter().filter(|k| **k == "match_countdown").count(), 1);
    assert_eq!(told.iter().filter(|k| **k == "match_started").count(), 1);
    assert_eq!(told.iter().filter(|k| **k == "match_end").count(), 1);
    assert_eq!(*told.last().unwrap(), "match_end");
    assert_eq!(game.state.tick, 400);
}

#[test]
fn stale_input_is_ignored() {
    let mut game = GameMatch::new(7, 5, 2, 20);
    let _ = step(&mut game, vec![join(ALICE, ShipType::Scout)], 1);
    let out = step(
        &mut game,
        vec![input(ALICE, 5, 2 * SCALE, -SCALE / 2, true, 1000), input(ALICE, 3, -SCALE, SCALE, false, 7)],
        2,
    );
    let snapshot = out.messages.iter().find_map(|m| match m {
        ServerMsg::Snapshot { players, .. } => Some(players.clone()),
        _ => None,
    });
    assert_eq!(snapshot.unwrap()[0].last_input_seq, 5);
    let alice = &game.state.players[0];
    assert_eq!(alice.last_input_seq, 5);
    assert_eq!(
        (alice.current_input.seq, alice.current_input.throttle, alice.current_input.steer),
        (5, SCALE, -SCALE / 2)
    );
    assert_eq!((alice.current_input.shoot, alice.current_input.aim_yaw), (true, 1000));
    game.handle_input(ALICE, 5, 0, 0, false, 0);
    assert_eq!(game.state.players[0].current_input.throttle, SCALE);
    game.handle_input(ALICE, 6, 0, 0, false, 0);
    assert_eq!(game.state.players[0].last_input_seq, 6);
    game.handle_input(BOB, 9, 0, 0, false, 0);
    assert_eq!(game.player_count(), 1);
}

#[test]
fn join_while_full_is_refused() {
    let mut game = GameMatch::new(7, 5, 2, 2);
    let _ = step(&mut game, vec![join(ALICE, ShipType::Scout), join(BOB, ShipType::Cruiser)], 1);
    assert_eq!(game.player_count(), 2);
    let drawn = game.state.rng.drawn;
    let msgs = game.handle_join(CAROL, ShipType::Fighter, 5);
    assert_eq!(msgs.len(), 1);
    match &msgs[0] {
        ServerMsg::Error { code } => {
            assert_eq!(*code, ErrorCode::MatchFull);
            assert_eq!(code.code(), "match_full");
        }
        _ => panic!("no error"),
    }
    assert_eq!(game.player_count(), 2);
    assert_eq!(game.state.alive_count(), 2);
    assert_eq!(game.state.rng.drawn, drawn);
}

#[test]
fn joining_twice_changes_nothing() {
    let mut game = GameMatch::new(7, 5, 3, 20);
    assert_eq!(game.handle_join(ALICE, ShipType::Scout, 5).len(), 2);
    let drawn = game.state.rng.drawn;
    assert_eq!(drawn, 3);
    assert!(game.handle_join(ALICE, ShipType::Destroyer, 6).is_empty());
    assert_eq!(game.player_count(), 1);
    assert_eq!(game.state.players[0].ship_type, ShipType::Scout);
    assert_eq!(game.state.rng.drawn, drawn);
    assert_eq!(game.state.phase, MatchPhase::Waiting);
}

#[test]
fn players_spawn_inside_the_zone_at_rest() {
    let mut game = GameMatch::new(7, 0xfeed, 50, 50);
    let mut user = 1;
    while user <= 40 {
        let _ = game.handle_join(user, ShipType::Destroyer, 1234);
        user += 1;
    }
    assert_eq!(game.player_count(), 40);
    assert_eq!(game.state.rng.drawn, 120);
    for p in &game.state.players {
        let d2 = (p.x as i128) * (p.x as i128) + (p.y as i128) * (p.y as i128);
        assert!(d2 <= (1200 * SCALE as i128 + 2) * (1200 * SCALE as i128 + 2));
        assert!(d2 >= (198 * SCALE as i128) * (198 * SCALE as i128));
        assert!(0 <= p.rotation && p.rotation < TAU);
        assert_eq!((p.vel_x, p.vel_y, p.health, p.alive), (0, 0, 120 * SCALE, true));
        assert_eq!((p.spawn_time, p.death_time, p.last_input_seq, p.kills), (1234, None, 0, 0));
    }
}

#[test]
fn ping_is_answered_with_its_time_stamp() {
    let mut game = GameMatch::new(7, 5, 2, 20);
    let ping = PlayerInput { user_id: ALICE, msg: ClientMsg::Ping { t: 424_242 }, received_at: 0 };
    let msgs = game.process_inputs(&vec![ping], 9);
    assert_eq!(kinds(&msgs), vec!["pong"]);
    match msgs[0] {
        ServerMsg::Pong { t } => assert_eq!(t, 424_242),
        _ => panic!("no pong"),
    }
    assert_eq!(game.player_count(), 0);
}

#[test]
fn leaving_tells_the_others_and_can_end_the_match() {
    let mut game = duel();
    let turn = game.state.tick + 1;
    let leave = PlayerInput { user_id: BOB, msg: ClientMsg::LeaveMatch, received_at: 0 };
    let out = step(&mut game, vec![leave], turn);
    assert_eq!(kinds(&out.messages), vec!["player_left", "snapshot", "match_end"]);
    match &out.messages[0] {
        ServerMsg::PlayerLeft { user_id, reason } => {
            assert_eq!((*user_id, *reason), (BOB, LeaveReason::Disconnected));
        }
        _ => panic!("no player_left"),
    }
    assert!(out.finished);
    assert_eq!(game.player_count(), 1);
    match out.messages.last() {
        Some(ServerMsg::MatchEnd { winner_user_id, stats }) => {
            assert_eq!(*winner_user_id, Some(ALICE));
            assert_eq!(stats.total_players, 1);
        }
        _ => panic!("no match_end"),
    }
    assert!(game.handle_leave(BOB).is_empty());
}

#[test]
fn countdown_without_players_ends_the_match() {
    let mut game = GameMatch::new(7, 5, 1, 20);
    let _ = step(&mut game, vec![join(ALICE, ShipType::Scout)], 1);
    assert_eq!(game.state.phase, MatchPhase::Countdown);
    let leave = PlayerInput { user_id: ALICE, msg: ClientMsg::LeaveMatch, received_at: 0 };
    let out = step(&mut game, vec![leave], 2);
    assert!(out.finished);
    assert_eq!(game.state.phase, MatchPhase::Countdown);
    match out.messages.last() {
        Some(ServerMsg::MatchEnd { winner_user_id, stats }) => {
            assert_eq!(*winner_user_id, None);
            assert_eq!((stats.total_players, stats.duration_secs, stats.player_stats.len()), (0, 0, 0));
        }
        _ => panic!("no match_end"),
    }
}

#[test]
fn waiting_match_only_counts_ticks() {
    let mut game = GameMatch::new(7, 5, 2, 20);
    let first = step(&mut game, vec![], 1);
    assert!(first.messages.is_empty() && !first.finished);
    let second = step(&mut game, vec![], 2);
    assert_eq!(kinds(&second.messages), vec!["snapshot"]);
    assert_eq!(game.state.tick, 2);
    assert_eq!(game.state.phase, MatchPhase::Waiting);
}

#[test]
fn snapshots_come_every_second_tick() {
    let mut game = GameMatch::new(7, 5, 2, 20);
    let _ = step(&mut game, vec![join(ALICE, ShipType::Scout)], 1);
    let mut turn = 2;
    let mut sent = Vec::new();
    while turn <= 9 {
        let out = step(&mut game, vec![], turn);
        sent.push(kinds(&out.messages).contains(&"snapshot"));
        turn += 1;
    }
    assert_eq!(sent, vec![true, false, true, false, true, false, true, false]);
}

#[test]
fn placements_follow_the_time_alive() {
    let mut game = GameMatch::new(7, 5, 9, 20);
    let _ = game.handle_join(ALICE, ShipType::Scout, 10_000);
    let _ = game.handle_join(BOB, ShipType::Scout, 10_000);
    let _ = game.handle_join(CAROL, ShipType::Scout, 10_000);
    let _ = game.handle_join(4, ShipType::Scout, 10_000);
    game.state.start_time = Some(10_000);
    game.state.players[0].death_time = Some(13_500);
    game.state.players[2].death_time = Some(19_999);
    game.state.players[3].death_time = Some(13_999);
    game.state.players[1].kills = 3;
    let stats = game.build_match_stats(20_000);
    assert_eq!((stats.duration_secs, stats.total_players), (10, 4));
    let order: Vec<(u128, u32, u32)> =
        stats.player_stats.iter().map(|s| (s.user_id, s.alive_time_secs, s.placement)).collect();
    assert_eq!(order, vec![(BOB, 10, 1), (CAROL, 9, 2), (ALICE, 3, 3), (4, 3, 4)]);
    assert_eq!(stats.player_stats[0].kills, 3);
    assert_eq!(game.winner(), Some(ALICE));
    assert_eq!(game.build_match_stats(5).duration_secs, 0);
}

fn replay(seed: u64) -> (Vec<String>, String) {
    let mut game = GameMatch::new(7, seed, 2, 20);
    let mut sent = Vec::new();
    let mut turn = 1;
    while turn <= 400 {
        let mut inputs = Vec::new();
        if turn == 1 {
            inputs.push(join(ALICE, ShipType::Scout));
            inputs.push(join(BOB, ShipType::Destroyer));
        }
        if turn == 3 {
            inputs.push(join(CAROL, ShipType::Cruiser));
        }
        if turn > 150 {
            let t = turn as i64;
            inputs.push(input(ALICE, turn as u32, SCALE, (t % 7 - 3) * 500, turn % 5 == 0, t * 311));
            inputs.push(input(BOB, turn as u32, -SCALE / 2, SCALE, turn % 3 == 0, t * 97));
            inputs.push(input(CAROL, turn as u32, SCALE / 3, -SCALE, true, -t * 13));
        }
        let out = step(&mut game, inputs, turn);
        for m in &out.messages {
            sent.push(format!("{:?}", m));
        }
        if out.finished {
            break;
        }
        turn += 1;
    }
    (sent, format!("{:?}", game))
}

#[test]
fn same_seed_and_inputs_give_the_same_match() {
    let (first, first_state) = replay(0x1234);
    let (second, second_state) = replay(0x1234);
    assert!(first.len() > 200);
    assert_eq!(first, second);
    assert_eq!(first_state, second_state);
    assert!(first.iter().any(|m| m.contains("Shot")));
    let (other, _) = replay(0x1235);
    assert_ne!(first, other);
}

#[test]
fn projectiles_are_numbered_from_the_match_id() {
    let mut game = GameMatch::new(7000, 5, 1, 20);
    assert_eq!(game.state.next_projectile_id, 7000);
    let _ = game.handle_join(ALICE, ShipType::Scout, 1);
    let _ = game.handle_join(BOB, ShipType::Scout, 1);
    assert_eq!(game.own_projectile_ids(), vec![7000, 7001]);
    game.state.phase = MatchPhase::InProgress;
    game.state.players[1].current_input.shoot = true;
    let events = game.update_combat(77);
    assert_eq!(events.len(), 1);
    assert!(matches!(events[0], GameEvent::Shot { shooter_id, projectile_id, .. } if shooter_id == BOB && projectile_id == 7001));
    assert_eq!(game.state.projectiles.len(), 1);
    assert_eq!(game.state.projectiles[0].id, 7001);
    assert_eq!(game.state.next_projectile_id, 7002);
    assert_eq!(game.state.players[1].shots_fired, 1);
    assert_eq!(game.state.players[1].weapon_cooldown, 450);
    game.state.next_projectile_id = u128::MAX;
    assert_eq!(game.own_projectile_ids(), vec![u128::MAX, 0]);
}

#[test]
fn step_reads_the_clock_and_runs_the_same_rules() {
    let mut game = GameMatch::new(7, 5, 1, 20);
    let out = game.step(&vec![join(ALICE, ShipType::Scout)]);
    assert_eq!(kinds(&out.messages), vec!["player_joined", "match_joined", "match_countdown"]);
    assert_eq!(game.state.tick, 1);
    assert_eq!(game.state.countdown_remaining, COUNTDOWN - 100);
    assert!(game.state.players[0].spawn_time > 1_600_000_000_000);
}

fn snapshots_of_a_run_on_the_clock() -> Vec<String> {
    let mut game = GameMatch::new(7, 0x1234, 2, 20);
    let mut sent = Vec::new();
    let mut turn = 1;
    while turn <= 260 {
        let mut inputs = Vec::new();
        if turn == 1 {
            inputs.push(join(ALICE, ShipType::Scout));
            inputs.push(join(BOB, ShipType::Destroyer));
        }
        if turn > 150 {
            let t = turn as i64;
            inputs.push(input(ALICE, turn as u32, SCALE, (t % 7 - 3) * 500, true, t * 311));
            inputs.push(input(BOB, turn as u32, -SCALE / 2, SCALE, true, t * 97));
        }
        let out = game.step(&inputs);
        for m in &out.messages {
            if let ServerMsg::Snapshot { .. } = m {
                sent.push(format!("{:?}", m));
            }
        }
        if out.finished {
            break;
        }
        turn += 1;
    }
    sent
}

#[test]
fn snapshots_depend_on_seed_and_inputs_alone() {
    let first = snapshots_of_a_run_on_the_clock();
    let second = snapshots_of_a_run_on_the_clock();
    assert!(first.len() > 100);
    assert!(first.iter().any(|m| m.contains("Shot")));
    assert_eq!(first, second);
}
