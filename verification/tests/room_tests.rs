use rps_server::application::GameRoom;
use rps_server::domain::{
    GameChoice, GameConfig, GameError, GameStatus, PlayerInfo, PlayerMove, ServerMessage,
};

fn player(id: &str) -> PlayerInfo {
    PlayerInfo::new(id.to_string())
}

fn config(max_rounds: u32) -> GameConfig {
    GameConfig { max_rounds, min_players: 2, max_players: 2 }
}

fn pair_room(max_rounds: u32) -> GameRoom {
    let mut room = GameRoom::new("room".to_string(), config(max_rounds));
    assert!(room.add_player(player("ann")));
    assert!(room.add_player(player("ben")));
    room
}

fn stamped(choice: GameChoice) -> PlayerMove {
    PlayerMove { choice, timestamp: 42 }
}

fn score(room: &GameRoom, id: &str) -> Option<u32> {
    room.scores.get(id).copied()
}

#[test]
fn new_room_is_empty_and_waits() {
    let room = GameRoom::new("r".to_string(), config(3));
    assert_eq!(room.players.len(), 0);
    assert_eq!(room.scores.len(), 0);
    assert_eq!(room.moves.len(), 0);
    assert_eq!(room.status, GameStatus::Waiting);
    assert_eq!(room.current_round, 1);
    assert!(!room.has_player("ann"));
}

#[test]
fn room_plays_only_once_the_minimum_is_reached() {
    let mut room = GameRoom::new("r".to_string(), config(3));
    assert!(room.add_player(player("ann")));
    assert_eq!(room.status, GameStatus::Waiting);
    assert_eq!(score(&room, "ann"), Some(0));
    assert!(room.add_player(player("ben")));
    assert_eq!(room.status, GameStatus::Playing);
    assert_eq!(score(&room, "ben"), Some(0));
    assert!(room.has_player("ann"));
    assert!(room.has_player("ben"));
}

#[test]
fn join_is_rejected_at_the_maximum_and_changes_nothing() {
    let mut room = pair_room(3);
    assert!(!room.add_player(player("cat")));
    assert_eq!(room.players.len(), 2);
    assert_eq!(room.scores.len(), 2);
    assert!(!room.has_player("cat"));
    assert_eq!(score(&room, "cat"), None);
    assert_eq!(room.status, GameStatus::Playing);
}

#[test]
fn join_with_a_larger_minimum_keeps_waiting() {
    let limits = GameConfig { max_rounds: 3, min_players: 3, max_players: 4 };
    let mut room = GameRoom::new("r".to_string(), limits);
    assert!(room.add_player(player("a")));
    assert!(room.add_player(player("b")));
    assert_eq!(room.status, GameStatus::Waiting);
    assert!(room.add_player(player("c")));
    assert_eq!(room.status, GameStatus::Playing);
    assert!(room.add_player(player("d")));
    assert!(!room.add_player(player("e")));
    assert_eq!(room.players.len(), 4);
}

#[test]
fn a_finished_room_stays_finished_when_joined() {
    let limits = GameConfig { max_rounds: 3, min_players: 1, max_players: 3 };
    let mut room = GameRoom::new("r".to_string(), limits);
    assert!(room.add_player(player("a")));
    assert_eq!(room.finish(), Some("a".to_string()));
    assert!(room.add_player(player("b")));
    assert_eq!(room.status, GameStatus::Finished);
}

#[test]
fn move_is_refused_while_waiting() {
    let mut room = GameRoom::new("r".to_string(), config(3));
    assert!(room.add_player(player("ann")));
    assert!(!room.record_move("ann", stamped(GameChoice::Rock)));
    assert_eq!(room.moves.len(), 0);
}

#[test]
fn move_is_refused_from_a_stranger() {
    let mut room = pair_room(3);
    assert!(!room.record_move("cat", stamped(GameChoice::Rock)));
    assert!(!room.submit_move("cat", GameChoice::Rock));
    assert_eq!(room.moves.len(), 0);
}

#[test]
fn move_is_refused_once_finished() {
    let mut room = pair_room(3);
    room.finish();
    assert!(!room.record_move("ann", stamped(GameChoice::Rock)));
    assert_eq!(room.moves.len(), 0);
}

#[test]
fn round_is_ready_when_everybody_has_moved() {
    let mut room = pair_room(3);
    assert!(!room.all_moved());
    assert!(!room.record_move("ann", stamped(GameChoice::Rock)));
    assert!(!room.all_moved());
    assert!(room.record_move("ben", stamped(GameChoice::Paper)));
    assert!(room.all_moved());
}

#[test]
fn last_move_of_a_participant_wins_over_earlier_ones() {
    let mut room = pair_room(3);
    assert!(!room.record_move("ann", stamped(GameChoice::Rock)));
    assert!(!room.record_move("ann", stamped(GameChoice::Paper)));
    assert_eq!(room.moves.len(), 1);
    assert_eq!(room.moves.get("ann").map(|m| m.choice), Some(GameChoice::Paper));
    assert!(room.record_move("ben", stamped(GameChoice::Rock)));
    let outcome = room.resolve_round().unwrap();
    assert_eq!(outcome.winner, Some("ann".to_string()));
}

#[test]
fn recorded_move_keeps_its_timestamp() {
    let mut room = pair_room(3);
    room.record_move("ann", PlayerMove { choice: GameChoice::Scissors, timestamp: 1234 });
    assert_eq!(
        room.moves.get("ann").copied(),
        Some(PlayerMove { choice: GameChoice::Scissors, timestamp: 1234 })
    );
}

#[test]
fn submitted_move_is_stamped_with_the_clock() {
    let mut room = pair_room(3);
    assert!(!room.submit_move("ann", GameChoice::Rock));
    let recorded = room.moves.get("ann").copied().unwrap();
    assert_eq!(recorded.choice, GameChoice::Rock);
    // 2020-01-01T00:00:00Z in milliseconds: any working clock is past it.
    assert!(recorded.timestamp > 1_577_836_800_000);
    assert!(room.submit_move("ben", GameChoice::Rock));
}

#[test]
fn resolve_without_moves_is_an_invalid_state() {
    let mut room = pair_room(3);
    assert_eq!(room.calculate_round_result(), Err(GameError::InvalidState));
    assert_eq!(room.resolve_round(), Err(GameError::InvalidState));
    room.record_move("ann", stamped(GameChoice::Rock));
    assert_eq!(room.resolve_round(), Err(GameError::InvalidState));
    assert_eq!(room.process_round(), Err(GameError::InvalidState));
    assert_eq!(room.moves.len(), 1);
    assert_eq!(room.current_round, 1);
    assert_eq!(room.status, GameStatus::Playing);
}

#[test]
fn resolve_with_one_participant_is_an_invalid_state() {
    let limits = GameConfig { max_rounds: 3, min_players: 1, max_players: 2 };
    let mut room = GameRoom::new("r".to_string(), limits);
    room.add_player(player("solo"));
    assert!(room.record_move("solo", stamped(GameChoice::Rock)));
    assert_eq!(room.resolve_round(), Err(GameError::InvalidState));
}

#[test]
fn resolve_with_three_participants_is_an_invalid_state() {
    let limits = GameConfig { max_rounds: 3, min_players: 2, max_players: 3 };
    let mut room = GameRoom::new("r".to_string(), limits);
    room.add_player(player("a"));
    room.add_player(player("b"));
    room.add_player(player("c"));
    room.record_move("a", stamped(GameChoice::Rock));
    room.record_move("b", stamped(GameChoice::Rock));
    assert!(room.record_move("c", stamped(GameChoice::Rock)));
    assert_eq!(room.resolve_round(), Err(GameError::InvalidState));
}

#[test]
fn calculate_reports_without_changing_the_room() {
    let mut room = pair_room(3);
    room.record_move("ann", stamped(GameChoice::Rock));
    room.record_move("ben", stamped(GameChoice::Scissors));
    let outcome = room.calculate_round_result().unwrap();
    assert_eq!(outcome.round, 1);
    assert_eq!(outcome.winner, Some("ann".to_string()));
    assert_eq!(
        outcome.moves,
        vec![("ann".to_string(), GameChoice::Rock), ("ben".to_string(), GameChoice::Scissors)]
    );
    assert_eq!(outcome.scores, vec![("ann".to_string(), 1), ("ben".to_string(), 0)]);
    assert_eq!(score(&room, "ann"), Some(0));
    assert_eq!(room.moves.len(), 2);
}

#[test]
fn resolve_counts_the_round_clears_the_moves_and_keeps_the_round_number() {
    let mut room = pair_room(3);
    room.record_move("ann", stamped(GameChoice::Rock));
    room.record_move("ben", stamped(GameChoice::Paper));
    let outcome = room.resolve_round().unwrap();
    assert_eq!(outcome.round, 1);
    assert_eq!(outcome.winner, Some("ben".to_string()));
    assert_eq!(outcome.scores, vec![("ann".to_string(), 0), ("ben".to_string(), 1)]);
    assert_eq!(score(&room, "ann"), Some(0));
    assert_eq!(score(&room, "ben"), Some(1));
    assert_eq!(room.moves.len(), 0);
    assert_eq!(room.current_round, 1);
    assert_eq!(room.status, GameStatus::Playing);
}

#[test]
fn a_draw_gives_nobody_a_point() {
    let mut room = pair_room(3);
    room.record_move("ann", stamped(GameChoice::Paper));
    room.record_move("ben", stamped(GameChoice::Paper));
    let outcome = room.resolve_round().unwrap();
    assert_eq!(outcome.winner, None);
    assert_eq!(outcome.scores, vec![("ann".to_string(), 0), ("ben".to_string(), 0)]);
    assert_eq!(score(&room, "ann"), Some(0));
    assert_eq!(score(&room, "ben"), Some(0));
}

#[test]
fn next_round_adds_one_and_leaves_no_moves() {
    let mut room = pair_room(5);
    room.record_move("ann", stamped(GameChoice::Paper));
    let message = room.next_round();
    assert_eq!(message, ServerMessage::NextRound { round: 2 });
    assert_eq!(room.current_round, 2);
    assert_eq!(room.moves.len(), 0);
    assert_eq!(room.status, GameStatus::Playing);
}

#[test]
fn match_should_end_at_the_winning_score() {
    let mut room = pair_room(10);
    assert!(!room.should_end_game());
    room.scores.insert("ben".to_string(), 1);
    assert!(!room.should_end_game());
    room.scores.insert("ben".to_string(), 2);
    assert!(room.should_end_game());
}

#[test]
fn match_should_end_at_the_last_round() {
    let mut room = pair_room(3);
    assert!(!room.should_end_game());
    room.next_round();
    assert!(!room.should_end_game());
    room.next_round();
    assert_eq!(room.current_round, 3);
    assert!(room.should_end_game());
}

#[test]
fn finish_names_the_sole_leader() {
    let mut room = pair_room(3);
    room.scores.insert("ann".to_string(), 2);
    room.scores.insert("ben".to_string(), 1);
    assert_eq!(room.determine_final_winner(), Some("ann".to_string()));
    assert_eq!(room.finish(), Some("ann".to_string()));
    assert_eq!(room.status, GameStatus::Finished);
}

#[test]
fn finish_names_nobody_when_the_lead_is_shared() {
    let mut room = pair_room(3);
    room.scores.insert("ann".to_string(), 1);
    room.scores.insert("ben".to_string(), 1);
    room.next_round();
    room.next_round();
    assert!(room.should_end_game());
    assert_eq!(room.finish(), None);
    assert_eq!(room.status, GameStatus::Finished);
}

#[test]
fn finish_of_an_empty_room_names_nobody() {
    let mut room = GameRoom::new("r".to_string(), config(3));
    assert_eq!(room.finish(), None);
    assert_eq!(room.status, GameStatus::Finished);
}

#[test]
fn finish_names_the_second_when_it_leads() {
    let mut room = pair_room(3);
    room.scores.insert("ben".to_string(), 2);
    assert_eq!(room.finish(), Some("ben".to_string()));
}

#[test]
fn end_game_reports_winner_and_final_scores() {
    let mut room = pair_room(3);
    room.scores.insert("ann".to_string(), 2);
    room.scores.insert("ben".to_string(), 1);
    let message = room.end_game();
    assert_eq!(
        message,
        ServerMessage::GameEnd {
            winner: Some("ann".to_string()),
            final_scores: vec![("ann".to_string(), 2), ("ben".to_string(), 1)],
        }
    );
    assert_eq!(room.status, GameStatus::Finished);
}

#[test]
fn start_game_lists_the_participants_in_joining_order() {
    let room = pair_room(3);
    assert_eq!(
        room.start_game(),
        ServerMessage::GameStart {
            room_id: "room".to_string(),
            players: vec![player("ann"), player("ben")],
            max_rounds: 3,
        }
    );
    assert_eq!(room.broadcast_to_all(), vec!["ann".to_string(), "ben".to_string()]);
    assert_eq!(room.score_entries(), vec![("ann".to_string(), 0), ("ben".to_string(), 0)]);
}

#[test]
fn player_left_names_the_one_who_left() {
    let room = pair_room(3);
    assert_eq!(
        room.notify_player_left("ann"),
        ServerMessage::PlayerLeft { player_id: "ann".to_string() }
    );
}

#[test]
fn process_round_moves_on_while_the_match_is_open() {
    let mut room = pair_room(3);
    room.record_move("ann", stamped(GameChoice::Rock));
    room.record_move("ben", stamped(GameChoice::Scissors));
    let messages = room.process_round().unwrap();
    assert_eq!(
        messages,
        vec![
            ServerMessage::RoundResult {
                round: 1,
                winner: Some("ann".to_string()),
                moves: vec![
                    ("ann".to_string(), GameChoice::Rock),
                    ("ben".to_string(), GameChoice::Scissors)
                ],
                scores: vec![("ann".to_string(), 1), ("ben".to_string(), 0)],
            },
            ServerMessage::NextRound { round: 2 },
        ]
    );
    assert_eq!(room.status, GameStatus::Playing);
    assert_eq!(room.current_round, 2);
    assert_eq!(room.moves.len(), 0);
}

#[test]
fn process_round_ends_the_match_at_the_winning_score() {
    let mut room = pair_room(5);
    room.record_move("ann", stamped(GameChoice::Rock));
    room.record_move("ben", stamped(GameChoice::Scissors));
    room.process_round().unwrap();
    room.record_move("ann", stamped(GameChoice::Paper));
    room.record_move("ben", stamped(GameChoice::Rock));
    let messages = room.process_round().unwrap();
    assert_eq!(
        messages,
        vec![
            ServerMessage::RoundResult {
                round: 2,
                winner: Some("ann".to_string()),
                moves: vec![
                    ("ann".to_string(), GameChoice::Paper),
                    ("ben".to_string(), GameChoice::Rock)
                ],
                scores: vec![("ann".to_string(), 2), ("ben".to_string(), 0)],
            },
            ServerMessage::GameEnd {
                winner: Some("ann".to_string()),
                final_scores: vec![("ann".to_string(), 2), ("ben".to_string(), 0)],
            },
        ]
    );
    assert_eq!(room.status, GameStatus::Finished);
    assert_eq!(room.current_round, 2);
}

#[test]
fn process_round_ends_the_match_at_the_last_round() {
    let mut room = pair_room(1);
    room.record_move("ann", stamped(GameChoice::Rock));
    room.record_move("ben", stamped(GameChoice::Rock));
    let messages = room.process_round().unwrap();
    assert_eq!(messages.len(), 2);
    assert_eq!(
        messages[1],
        ServerMessage::GameEnd {
            winner: None,
            final_scores: vec![("ann".to_string(), 0), ("ben".to_string(), 0)],
        }
    );
    assert_eq!(room.status, GameStatus::Finished);
}

#[test]
fn three_rounds_with_a_point_each_and_a_draw_end_in_a_draw() {
    let mut room = pair_room(3);
    // Round 1: rock against scissors, the first wins.
    room.record_move("ann", stamped(GameChoice::Rock));
    assert!(room.record_move("ben", stamped(GameChoice::Scissors)));
    room.process_round().unwrap();
    assert_eq!((score(&room, "ann"), score(&room, "ben")), (Some(1), Some(0)));
    assert_eq!(room.current_round, 2);
    // Round 2: rock against paper, the second wins.
    room.record_move("ann", stamped(GameChoice::Rock));
    assert!(room.record_move("ben", stamped(GameChoice::Paper)));
    room.process_round().unwrap();
    assert_eq!((score(&room, "ann"), score(&room, "ben")), (Some(1), Some(1)));
    assert_eq!(room.current_round, 3);
    assert_eq!(room.status, GameStatus::Playing);
    // Round 3: scissors against scissors, a draw; it is the last round.
    room.record_move("ann", stamped(GameChoice::Scissors));
    assert!(room.record_move("ben", stamped(GameChoice::Scissors)));
    let messages = room.process_round().unwrap();
    assert_eq!((score(&room, "ann"), score(&room, "ben")), (Some(1), Some(1)));
    assert_eq!(room.status, GameStatus::Finished);
    assert_eq!(
        messages[1],
        ServerMessage::GameEnd {
            winner: None,
            final_scores: vec![("ann".to_string(), 1), ("ben".to_string(), 1)],
        }
    );
}

#[test]
fn a_draw_in_round_three_goes_on_where_more_rounds_are_allowed() {
    let mut room = pair_room(5);
    room.record_move("ann", stamped(GameChoice::Rock));
    room.record_move("ben", stamped(GameChoice::Scissors));
    room.process_round().unwrap();
    room.record_move("ann", stamped(GameChoice::Rock));
    room.record_move("ben", stamped(GameChoice::Paper));
    room.process_round().unwrap();
    room.record_move("ann", stamped(GameChoice::Scissors));
    room.record_move("ben", stamped(GameChoice::Scissors));
    let messages = room.process_round().unwrap();
    assert_eq!(messages[1], ServerMessage::NextRound { round: 4 });
    assert_eq!((score(&room, "ann"), score(&room, "ben")), (Some(1), Some(1)));
    assert_eq!(room.status, GameStatus::Playing);
    assert_eq!(room.current_round, 4);
}

#[test]
fn paper_against_rock_in_round_two_gives_the_first_its_second_point() {
    let mut room = pair_room(3);
    room.record_move("ann", stamped(GameChoice::Rock));
    room.record_move("ben", stamped(GameChoice::Scissors));
    room.process_round().unwrap();
    room.record_move("ann", stamped(GameChoice::Paper));
    room.record_move("ben", stamped(GameChoice::Rock));
    room.process_round().unwrap();
    assert_eq!((score(&room, "ann"), score(&room, "ben")), (Some(2), Some(0)));
    assert_eq!(room.status, GameStatus::Finished);
}

#[test]
fn a_participant_that_joined_twice_has_one_score() {
    let limits = GameConfig { max_rounds: 3, min_players: 2, max_players: 2 };
    let mut room = GameRoom::new("r".to_string(), limits);
    assert!(room.add_player(player("same")));
    assert!(room.add_player(player("same")));
    assert_eq!(room.players.len(), 2);
    assert_eq!(room.scores.len(), 1);
    assert!(room.record_move("same", stamped(GameChoice::Rock)));
    let outcome = room.resolve_round().unwrap();
    assert_eq!(outcome.winner, None);
    assert_eq!(room.finish(), Some("same".to_string()));
}
