use ship_game::protocol::{ClientMsg, ShipType};
use ship_game::queue::{MatchmakingQueue, QueuedPlayer};
use ship_game::service::{JoinQueueError, MatchmakingService, MATCH_MAX_PLAYERS, MATCH_MIN_PLAYERS};
use std::collections::HashSet;

fn waiting(user_id: u128, queued_at: u64) -> QueuedPlayer {
    QueuedPlayer::at(user_id, format!("user {}", user_id), ShipType::Fighter, queued_at)
}

fn ids_of(players: &[QueuedPlayer]) -> Vec<u128> {
    players.iter().map(|p| p.user_id).collect()
}

fn set(ids: &[u128]) -> HashSet<u128> {
    ids.iter().cloned().collect()
}

#[test]
fn queue_is_first_in_first_out() {
    let mut queue = MatchmakingQueue::new(2, 3, 5);
    assert!(queue.is_empty());
    assert_eq!((queue.min_players(), queue.max_players()), (2, 3));
    queue.enqueue(waiting(1, 100));
    queue.enqueue(waiting(2, 110));
    queue.enqueue(waiting(3, 120));
    queue.enqueue(waiting(4, 130));
    assert_eq!(queue.len(), 4);
    assert_eq!(queue.user_ids(), vec![1, 2, 3, 4]);
    assert!(queue.contains(&3));
    assert!(!queue.contains(&9));
    let batch = queue.try_form_match_at(200).unwrap();
    assert_eq!(ids_of(&batch), vec![1, 2, 3]);
    assert_eq!(queue.user_ids(), vec![4]);
    assert!(queue.try_form_match_at(200).is_none());
    assert_eq!(queue.len(), 1);
}

#[test]
fn reenqueue_keeps_the_length_and_moves_to_the_back() {
    let mut queue = MatchmakingQueue::new(5, 20, 5);
    queue.enqueue(waiting(1, 100));
    queue.enqueue(waiting(2, 110));
    queue.enqueue(waiting(3, 120));
    queue.enqueue(QueuedPlayer::at(1, "again".to_string(), ShipType::Scout, 300));
    assert_eq!(queue.len(), 3);
    assert_eq!(queue.user_ids(), vec![2, 3, 1]);
    let back = queue.dequeue(1).unwrap();
    assert_eq!((back.display_name.as_str(), back.ship_type, back.queued_at), ("again", ShipType::Scout, 300));
    assert_eq!(back.flag_skin_id, None);
}

#[test]
fn dequeue_removes_by_user() {
    let mut queue = MatchmakingQueue::default();
    queue.enqueue(waiting(1, 100));
    queue.enqueue(waiting(2, 110));
    assert_eq!(queue.dequeue(1).map(|p| p.user_id), Some(1));
    assert!(queue.dequeue(1).is_none());
    assert_eq!(queue.user_ids(), vec![2]);
}

#[test]
fn overdue_player_gets_a_match_with_too_few() {
    let mut queue = MatchmakingQueue::new(3, 20, 5);
    queue.enqueue(waiting(1, 1000));
    queue.enqueue(waiting(2, 4000));
    assert!(queue.try_form_match_at(5999).is_none());
    assert_eq!(queue.len(), 2);
    let batch = queue.try_form_match_at(6000).unwrap();
    assert_eq!(ids_of(&batch), vec![1, 2]);
    assert!(queue.is_empty());
    assert!(queue.try_form_match_at(99_999).is_none());
}

#[test]
fn default_queue_forms_solo_matches() {
    let mut queue = MatchmakingQueue::default();
    assert_eq!((queue.min_players(), queue.max_players()), (1, 20));
    queue.enqueue(waiting(1, 1000));
    assert_eq!(queue.try_form_match_at(1000).map(|b| ids_of(&b)), Some(vec![1]));
}

#[test]
fn wait_is_measured_from_the_enqueue_time() {
    let p = waiting(1, 1000);
    assert_eq!(p.waited(1000), 0);
    assert_eq!(p.waited(6000), 5000);
    assert_eq!(p.waited(10), 0);
    let queue = MatchmakingQueue::default();
    let now = QueuedPlayer::new(2, "now".to_string(), ShipType::Scout, queue.clock());
    assert!(now.queued_at < 5000);
    assert!(now.wait_time(queue.clock()) < 5000);
    assert!(queue.now() >= now.queued_at);
}

#[test]
fn queue_measures_waiting_on_its_own_clock() {
    let mut patient = MatchmakingQueue::new(3, 20, 3600);
    let first = QueuedPlayer::new(1, "one".to_string(), ShipType::Scout, patient.clock());
    patient.enqueue(first);
    assert!(!patient.has_waited_too_long(&set(&[1])));
    assert!(patient.try_form_match().is_none());
    assert_eq!(patient.len(), 1);

    let mut hasty = MatchmakingQueue::new(3, 20, 0);
    let second = QueuedPlayer::new(1, "one".to_string(), ShipType::Scout, hasty.clock());
    hasty.enqueue(second);
    assert!(hasty.has_waited_too_long(&set(&[1])));
    assert!(!hasty.has_waited_too_long(&set(&[2])));
    assert_eq!(hasty.try_form_match().map(|b| ids_of(&b)), Some(vec![1]));
}

#[test]
fn connected_players_are_counted_and_timed() {
    let mut queue = MatchmakingQueue::new(3, 20, 5);
    queue.enqueue(waiting(1, 1000));
    queue.enqueue(waiting(2, 2000));
    queue.enqueue(waiting(3, 9000));
    assert_eq!(queue.connected_count(&set(&[2, 3, 8])), 2);
    assert_eq!(queue.connected_count(&set(&[])), 0);
    assert!(queue.has_waited_too_long_at(&set(&[2]), 7000));
    assert!(!queue.has_waited_too_long_at(&set(&[2]), 6999));
    assert!(!queue.has_waited_too_long_at(&set(&[3]), 7000));
    assert!(!queue.has_waited_too_long_at(&set(&[]), 99_999));
}

#[test]
fn drain_takes_connected_players_in_order() {
    let mut queue = MatchmakingQueue::new(2, 20, 5);
    let mut user = 1;
    while user <= 6 {
        queue.enqueue(waiting(user, 100 + user as u64));
        user += 1;
    }
    let batch = queue.drain_connected(&set(&[2, 3, 5, 6]), 3);
    assert_eq!(ids_of(&batch), vec![2, 3, 5]);
    assert_eq!(queue.user_ids(), vec![1, 4, 6]);
    let none = queue.drain_connected(&set(&[6]), 0);
    assert!(none.is_empty());
    assert_eq!(queue.user_ids(), vec![1, 4, 6]);
    let rest = queue.drain_connected(&set(&[1, 4, 6, 7]), 20);
    assert_eq!(ids_of(&rest), vec![1, 4, 6]);
    assert!(queue.is_empty());
}

#[test]
fn service_forms_matches_from_connected_players() {
    let mut service = MatchmakingService::new();
    service.register_player(1);
    service.register_player(2);
    assert!(service.is_connected(&1));
    assert!(!service.is_connected(&3));
    assert_eq!(service.join_queue(waiting(1, 1000)), Ok(()));
    assert_eq!(service.join_queue(waiting(3, 1000)), Ok(()));
    assert_eq!(service.queue_size(), 2);
    assert!(service.is_in_queue(&3));
    let batch = service.poll_at(1000).unwrap();
    assert_eq!(ids_of(&batch), vec![1]);
    assert_eq!(service.queue_size(), 1);
    assert!(service.poll_at(99_999).is_none());
    assert!(service.is_in_queue(&3));

    let made = service.create_match_with(&batch, 77, 0x1234, 5000);
    assert_eq!((made.game.state.id, made.game.state.seed), (77, 0x1234));
    assert_eq!((made.game.state.min_players, made.game.state.max_players), (MATCH_MIN_PLAYERS, MATCH_MAX_PLAYERS));
    assert_eq!((MATCH_MIN_PLAYERS, MATCH_MAX_PLAYERS), (1, 20));
    assert_eq!(made.members, vec![1]);
    assert_eq!(made.joins.len(), 1);
    assert_eq!((made.joins[0].user_id, made.joins[0].received_at), (1, 5000));
    assert_eq!(made.joins[0].msg, ClientMsg::JoinMatch { match_id: Some(77), ship_type: ShipType::Fighter });
    assert_eq!(service.get_player_match(&1), Some(77));
    assert_eq!(service.get_player_match(&2), None);

    assert_eq!(service.join_queue(waiting(1, 6000)), Err(JoinQueueError::AlreadyInMatch));
    assert_eq!(JoinQueueError::AlreadyInMatch.message(), "Already in a match");
    assert_eq!(service.queue_size(), 1);

    service.finish_match(&made.members);
    assert_eq!(service.get_player_match(&1), None);
    assert_eq!(service.join_queue(waiting(1, 7000)), Ok(()));
}

#[test]
fn service_skips_players_without_a_connection() {
    let mut service = MatchmakingService::new();
    service.register_player(1);
    let batch = vec![waiting(1, 10), waiting(2, 20)];
    let made = service.create_match_with(&batch, 9, 1, 100);
    assert_eq!(made.members, vec![1, 2]);
    assert_eq!(made.joins.iter().map(|j| j.user_id).collect::<Vec<u128>>(), vec![1]);
    assert_eq!(service.get_player_match(&2), Some(9));
}

#[test]
fn disconnecting_clears_every_trace_of_the_player() {
    let mut service = MatchmakingService::new();
    service.register_player(1);
    assert_eq!(service.join_queue(waiting(1, 1000)), Ok(()));
    let _ = service.create_match_with(&vec![waiting(1, 1000)], 9, 1, 100);
    service.unregister_player(1);
    assert!(!service.is_connected(&1));
    assert!(!service.is_in_queue(&1));
    assert_eq!(service.get_player_match(&1), None);
    service.register_player(2);
    assert_eq!(service.join_queue(waiting(2, 1000)), Ok(()));
    service.leave_queue(2);
    assert_eq!(service.queue_size(), 0);
    assert!(service.poll().is_none());
    let stamped = QueuedPlayer::new(2, "two".to_string(), ShipType::Scout, service.clock());
    assert!(stamped.queued_at < 5000);
    assert_eq!(service.join_queue(stamped), Ok(()));
    assert_eq!(service.poll().map(|b| ids_of(&b)), Some(vec![2]));
}

#[test]
fn service_makes_matches_with_fresh_ids() {
    let mut service = MatchmakingService::new();
    service.register_player(1);
    let first = service.create_match(&vec![waiting(1, 10)]);
    let second = service.create_match(&vec![waiting(1, 10)]);
    assert_ne!(first.game.state.id, second.game.state.id);
    assert_eq!(uuid::Uuid::from_u128(first.game.state.id).get_version_num(), 4);
    assert_eq!(service.get_player_match(&1), Some(second.game.state.id));
    assert_eq!(first.joins.len(), 1);
    assert_eq!(first.joins[0].msg, ClientMsg::JoinMatch { match_id: Some(first.game.state.id), ship_type: ShipType::Fighter });
}

#[test]
fn a_lone_player_gets_a_match_that_starts() {
    let mut service = MatchmakingService::new();
    service.register_player(1);
    assert_eq!(service.join_queue(waiting(1, 1000)), Ok(()));
    let batch = service.poll_at(1000).unwrap();
    assert_eq!(ids_of(&batch), vec![1]);
    let mut made = service.create_match_with(&batch, 77, 0x1234, 5000);
    let out = made.game.step_at(&made.joins, 5000);
    assert!(!out.finished);
    assert_eq!(made.game.state.phase, ship_game::match_state::MatchPhase::Countdown);
    assert_eq!(made.game.player_count(), 1);
}
