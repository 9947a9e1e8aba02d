use rand::{RngCore, SeedableRng};
use ship_game::auth::{extract_bearer_token, AuthError};
use ship_game::ids::default_display_name;
use ship_game::player::{PlayerInput, PlayerState};
use ship_game::protocol::{
    ClientMsg, ErrorCode, GameEvent, KillCause, LeaveReason, ServerMsg, ShipType, ZoneState,
};
use ship_game::registry::{choose_available, first_below, sum_counts, MatchHandle, MatchRegistry};
use ship_game::rng::{pick_in_range, MatchRng};
use ship_game::session::{
    admit_text, classify_frame, leave_request, writer_step, FrameAction, InboundFrame, Received,
    RelayAction, RouterWait, SnapshotRouter,
};
use ship_game::snapshot::{SnapshotBuilder, SNAPSHOT_INTERVAL_TICKS};
use ship_game::time::{init_server_time, keep_low_64, unix_micros, unix_millis, uptime_secs, Timer};
use std::sync::atomic::AtomicUsize;
use std::sync::Arc;

#[test]
fn default_name_is_player_and_eight_digits() {
    let id = uuid::Uuid::parse_str("67e55044-10b1-426f-9247-bb680e5fe0c8").unwrap().as_u128();
    assert_eq!(default_display_name(id), "Player_67e55044");
    assert_eq!(default_display_name(0), "Player_00000000");
    assert_eq!(default_display_name(u128::MAX), "Player_ffffffff");
    assert_eq!(default_display_name(0x0123_4567_89ab_cdef_0000_0000_0000_0000), "Player_01234567");
}

#[test]
fn match_rng_follows_the_chacha8_stream() {
    let mut reference = rand_chacha::ChaCha8Rng::seed_from_u64(0x1234);
    let mut rng = MatchRng::new(0x1234);
    let mut draws = 0;
    while draws < 40 {
        assert_eq!(rng.next_word(), reference.next_u32());
        draws += 1;
    }
    assert_eq!(rng.drawn, 40);
    assert_eq!(rng.seed, 0x1234);
}

#[test]
fn match_rng_depends_on_seed_and_position_only() {
    let mut a = MatchRng::new(77);
    let mut b = MatchRng::new(77);
    let first = a.next_word();
    let second = a.next_word();
    assert_eq!(b.next_word(), first);
    assert_eq!(b.next_word(), second);
    let mut again = MatchRng { seed: 77, drawn: 1 };
    assert_eq!(again.next_word(), second);
    let mut other = MatchRng::new(78);
    assert_ne!((other.next_word(), other.next_word()), (first, second));
    assert_ne!((first, second), (0, 1));
}

#[test]
fn match_rng_wraps_its_position() {
    let mut rng = MatchRng { seed: 1, drawn: u64::MAX };
    let _ = rng.next_word();
    assert_eq!(rng.drawn, 0);
}

#[test]
fn random_words_pick_evenly_from_a_range() {
    assert_eq!(pick_in_range(0, 0, 18_848), 0);
    assert_eq!(pick_in_range(u32::MAX, 0, 18_848), 18_847);
    assert_eq!(pick_in_range(0x8000_0000, 10, 20), 15);
    assert_eq!(pick_in_range(5, 7, 7), 7);
    assert_eq!(pick_in_range(5, 7, 3), 7);
    assert_eq!(pick_in_range(u32::MAX, i64::MIN, i64::MAX), i64::MAX - 4_294_967_296);
}

#[test]
fn gen_range_draws_one_word_each_time() {
    let mut rng = MatchRng::new(5);
    let mut probe = MatchRng::new(5);
    let word = probe.next_word();
    assert_eq!(rng.gen_range(100, 200), pick_in_range(word, 100, 200));
    assert_eq!(rng.drawn, 1);
    let v = rng.gen_range(9, 9);
    assert_eq!(v, 9);
    assert_eq!(rng.drawn, 2);
}

#[test]
fn bearer_token_follows_the_prefix() {
    assert_eq!(extract_bearer_token("Bearer abc.def.ghi"), Some("abc.def.ghi"));
    assert_eq!(extract_bearer_token("Bearer "), Some(""));
    assert_eq!(extract_bearer_token("Bearer"), None);
    assert_eq!(extract_bearer_token("bearer abc"), None);
    assert_eq!(extract_bearer_token("Basic abc"), None);
    assert_eq!(extract_bearer_token(""), None);
    assert_eq!(extract_bearer_token("Bearer \u{e9}t\u{e9}"), Some("\u{e9}t\u{e9}"));
}

#[test]
fn auth_errors_have_a_status_and_a_text() {
    assert_eq!(AuthError::MissingHeader.status(), 401);
    assert_eq!(AuthError::InvalidFormat.status(), 400);
    assert_eq!(AuthError::InvalidToken.status(), 401);
    assert_eq!(AuthError::TokenExpired.status(), 401);
    assert_eq!(AuthError::InvalidAudience.status(), 401);
    assert_eq!(AuthError::MissingHeader.message(), "Missing authorization header");
    assert_eq!(AuthError::InvalidFormat.message(), "Invalid authorization header format");
    assert_eq!(AuthError::InvalidToken.message(), "Invalid token");
    assert_eq!(AuthError::TokenExpired.message(), "Token expired");
    assert_eq!(AuthError::InvalidAudience.message(), "Invalid audience");
}

#[test]
fn wire_names() {
    assert_eq!(ShipType::Scout.as_str(), "scout");
    assert_eq!(ShipType::Fighter.as_str(), "fighter");
    assert_eq!(ShipType::Cruiser.as_str(), "cruiser");
    assert_eq!(ShipType::Destroyer.as_str(), "destroyer");
    assert_eq!(ShipType::default(), ShipType::Fighter);
    assert_eq!(KillCause::Shot.as_str(), "shot");
    assert_eq!(KillCause::Zone.as_str(), "zone");
    assert_eq!(LeaveReason::Disconnected.as_str(), "disconnected");
    assert_eq!(ErrorCode::MatchFull.code(), "match_full");
    assert_eq!(ErrorCode::MatchFull.message(), "Match is full");
}

#[test]
fn default_zone_state() {
    let zone = ZoneState::default();
    assert_eq!(
        zone,
        ZoneState {
            center_x: 0,
            center_y: 0,
            radius: 3_000_000,
            target_center_x: 0,
            target_center_y: 0,
            target_radius: 3_000_000,
            damage_per_second: 15_000,
            shrink_delay: 180_000,
            phase: 0,
        }
    );
}

#[test]
fn clocks_can_be_read() {
    let millis = unix_millis();
    let micros = unix_micros();
    assert!(millis > 1_600_000_000_000);
    assert!(micros / 1000 >= millis);
    let start = init_server_time();
    assert!(uptime_secs(&start) < 5);
    let mut timer = Timer::new();
    let first = timer.elapsed_micros();
    let second = timer.elapsed_micros();
    assert!(second >= first);
    assert!(timer.elapsed_ms() < 5000);
    timer.reset();
    assert!(timer.elapsed_ms() < 5000);
    let _ = Timer::default();
}

#[test]
fn snapshots_are_due_once_per_interval() {
    let mut builder = SnapshotBuilder::new(3);
    let due: Vec<bool> = (0..7).map(|_| builder.should_send()).collect();
    assert_eq!(due, vec![false, false, true, false, false, true, false]);
    assert_eq!(SNAPSHOT_INTERVAL_TICKS, 2);
    let mut every = SnapshotBuilder::new(1);
    assert!(every.should_send());
    assert!(every.should_send());
    let mut never_zero = SnapshotBuilder::new(0);
    assert!(never_zero.should_send());
}

#[test]
fn forced_snapshot_is_due_on_the_next_tick() {
    let mut builder = SnapshotBuilder::new(5);
    assert!(!builder.should_send());
    builder.force_next();
    assert!(builder.should_send());
    assert!(!builder.should_send());
    assert_eq!(builder.ticks_since_snapshot, 1);
}

#[test]
fn snapshot_holds_every_player_in_order() {
    let builder = SnapshotBuilder::new(2);
    let zone = ZoneState::default();
    let mut first = PlayerState::at(1, "one".to_string(), ShipType::Scout, None, 10, 20, 30, 1000);
    first.last_input_seq = 4;
    let second = PlayerState::at(2, "two".to_string(), ShipType::Cruiser, Some(9), -5, -6, 7, 1000);
    let events = vec![GameEvent::ZoneDamage { user_id: 2, damage: 500 }];
    let msg = builder.build(42, &zone, &vec![first, second], events.clone());
    match msg {
        ServerMsg::Snapshot { tick, zone: z, players, events: told } => {
            assert_eq!(tick, 42);
            assert_eq!(z, zone);
            assert_eq!(told, events);
            assert_eq!(players.len(), 2);
            assert_eq!((players[0].user_id, players[0].x, players[0].y, players[0].rotation), (1, 10, 20, 30));
            assert_eq!((players[0].health, players[0].alive, players[0].last_input_seq), (180_000, true, 4));
            assert_eq!((players[1].user_id, players[1].health, players[1].weapon_cooldown), (2, 450_000, 0));
        }
        _ => panic!("not a snapshot"),
    }
}

fn handle(id: u128, players: usize) -> MatchHandle {
    let (input_tx, _input_rx) = tokio::sync::mpsc::channel(4);
    let (snapshot_tx, _snapshot_rx) = tokio::sync::broadcast::channel(4);
    MatchHandle { id, input_tx, snapshot_tx, player_count: Arc::new(AtomicUsize::new(players)) }
}

#[test]
fn registry_keeps_matches_by_id() {
    let mut registry = MatchRegistry::new();
    assert_eq!(registry.active_matches(), 0);
    assert!(registry.get(&1).is_none());
    registry.insert(handle(1, 3));
    registry.insert(handle(2, 20));
    assert_eq!(registry.active_matches(), 2);
    assert_eq!(registry.get(&1).map(|h| h.id), Some(1));
    assert_eq!(registry.get(&2).map(|h| h.player_count()), Some(20));
    assert!(registry.get(&3).is_none());
    registry.insert(handle(1, 5));
    assert_eq!(registry.active_matches(), 2);
    assert_eq!(registry.get(&1).map(|h| h.player_count()), Some(5));
    assert_eq!(registry.remove(&1).map(|h| h.id), Some(1));
    assert!(registry.remove(&1).is_none());
    assert_eq!(registry.active_matches(), 1);
    assert_eq!(MatchRegistry::default().active_matches(), 0);
}

#[test]
fn registry_counts_players_and_finds_room() {
    let mut registry = MatchRegistry::new();
    assert_eq!(registry.total_players(), 0);
    assert!(registry.find_available_match(20).is_none());
    registry.insert(handle(1, 20));
    registry.insert(handle(2, 7));
    registry.insert(handle(3, 20));
    assert_eq!(registry.total_players(), 47);
    assert_eq!(registry.find_available_match(20).map(|h| h.id), Some(2));
    assert!(registry.find_available_match(7).is_none());
    let shared = registry.get(&2).unwrap();
    shared.publish_player_count(20);
    assert!(registry.find_available_match(20).is_none());
    assert_eq!(shared.duplicate().id, 2);
    assert_eq!(shared.duplicate().player_count(), 20);
}

#[test]
fn player_counts_add_up_and_the_first_free_match_is_found() {
    assert_eq!(sum_counts(&vec![]), 0);
    assert_eq!(sum_counts(&vec![3, 4, 5]), 12);
    assert_eq!(sum_counts(&vec![usize::MAX, 4]), usize::MAX);
    assert_eq!(first_below(&vec![20, 20, 3, 1], 20), Some(2));
    assert_eq!(first_below(&vec![20, 21], 20), None);
    assert_eq!(first_below(&vec![], 20), None);
    assert_eq!(first_below(&vec![0], 0), None);
}

#[test]
fn reader_reads_text_and_stops_on_close() {
    assert_eq!(classify_frame(InboundFrame::Text), FrameAction::Read);
    assert_eq!(classify_frame(InboundFrame::Binary), FrameAction::Ignore);
    assert_eq!(classify_frame(InboundFrame::Ping), FrameAction::Ignore);
    assert_eq!(classify_frame(InboundFrame::Pong), FrameAction::Ignore);
    assert_eq!(classify_frame(InboundFrame::Close), FrameAction::Stop);
    assert_eq!(classify_frame(InboundFrame::Failed), FrameAction::Stop);
}

#[test]
fn reader_drops_what_the_rate_limit_or_the_parser_refuses() {
    let ping = ClientMsg::Ping { t: 5 };
    assert_eq!(admit_text(9, true, Some(ping), 77), Some(PlayerInput { user_id: 9, msg: ping, received_at: 77 }));
    assert_eq!(admit_text(9, false, Some(ping), 77), None);
    assert_eq!(admit_text(9, true, None, 77), None);
    assert_eq!(leave_request(9, 78), PlayerInput { user_id: 9, msg: ClientMsg::LeaveMatch, received_at: 78 });
}

#[test]
fn writer_tolerates_lag() {
    assert_eq!(writer_step(Received::Message), RelayAction::Forward);
    assert_eq!(writer_step(Received::Lagged(12)), RelayAction::Continue);
    assert_eq!(writer_step(Received::Closed), RelayAction::Stop);
}

#[test]
fn snapshot_router_follows_the_assigned_match() {
    let mut router = SnapshotRouter::new();
    assert_eq!(router.wait(), RouterWait::Pause);
    assert!(!router.needs_retarget(None));
    assert!(router.needs_retarget(Some(4)));
    assert!(router.retarget(Some(4), true));
    assert_eq!(router, SnapshotRouter { current_match: Some(4), subscribed: true });
    assert_eq!(router.wait(), RouterWait::Message);
    assert!(!router.retarget(Some(4), true));
    assert_eq!(router.received(Received::Message), RelayAction::Forward);
    assert_eq!(router.received(Received::Lagged(3)), RelayAction::Continue);
    assert_eq!(router, SnapshotRouter { current_match: Some(4), subscribed: true });
    assert_eq!(router.received(Received::Closed), RelayAction::Continue);
    assert_eq!(router, SnapshotRouter { current_match: None, subscribed: false });
    assert!(!router.retarget(Some(5), false));
    assert_eq!(router, SnapshotRouter { current_match: Some(5), subscribed: false });
    assert_eq!(router.wait(), RouterWait::Pause);
    assert!(!router.retarget(None, false));
    assert_eq!(router.current_match, None);
}

#[test]
fn first_match_with_room_is_chosen() {
    let handles = vec![(1, handle(1, 0)), (2, handle(2, 0)), (3, handle(3, 0))];
    assert_eq!(choose_available(&handles, &vec![20, 7, 3], 20).map(|h| h.id), Some(2));
    assert_eq!(choose_available(&handles, &vec![20, 20, 19], 20).map(|h| h.id), Some(3));
    assert!(choose_available(&handles, &vec![20, 21, 22], 20).is_none());
    assert!(choose_available(&handles, &vec![0, 0, 0], 0).is_none());
    assert!(choose_available(&vec![], &vec![], 20).is_none());
}

#[test]
fn clock_readings_keep_their_low_64_bits() {
    assert_eq!(keep_low_64(0), 0);
    assert_eq!(keep_low_64(1_700_000_000_123), 1_700_000_000_123);
    assert_eq!(keep_low_64(u64::MAX as u128), u64::MAX);
    assert_eq!(keep_low_64((1u128 << 64) + 5), 5);
}
