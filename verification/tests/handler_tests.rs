use rps_server::application::GameManager;
use rps_server::domain::{Broadcast, ClientMessage, GameChoice, GameConfig, ServerMessage};
use rps_server::infrastructure::{
    health_handler, stats_handler, HandlerReport, StatsResponse, WebSocketHandler,
};

fn handler() -> WebSocketHandler {
    WebSocketHandler::new(GameManager::new(GameConfig::default()))
}

fn nothing() -> Broadcast {
    Broadcast { recipients: vec![], messages: vec![] }
}

fn error(text: &str) -> HandlerReport {
    HandlerReport {
        reply: Some(ServerMessage::Error { message: text.to_string() }),
        broadcast: nothing(),
    }
}

fn connected(handler: &WebSocketHandler, id: &str) -> Option<String> {
    let mut slot = None;
    handler.handle_connect(Some(id.to_string()), &mut slot);
    slot
}

#[test]
fn connect_takes_the_requested_identifier() {
    let handler = handler();
    let mut slot = None;
    let report = handler.handle_connect(Some("alice".to_string()), &mut slot);
    assert_eq!(slot, Some("alice".to_string()));
    assert_eq!(
        report,
        HandlerReport {
            reply: Some(ServerMessage::Connected { player_id: "alice".to_string() }),
            broadcast: nothing(),
        }
    );
}

#[test]
fn connect_without_a_request_draws_an_identifier() {
    let handler = handler();
    let mut one = None;
    let mut two = None;
    let report = handler.handle_connect(None, &mut one);
    handler.handle_connect(None, &mut two);
    let id = one.clone().unwrap();
    assert_eq!(id.len(), 36);
    assert_ne!(one, two);
    assert_eq!(report.reply, Some(ServerMessage::Connected { player_id: id }));
}

#[test]
fn connect_as_puts_the_given_participant_on_the_connection() {
    let handler = handler();
    let mut slot = Some("old".to_string());
    let report = handler.connect_as("new".to_string(), &mut slot);
    assert_eq!(slot, Some("new".to_string()));
    assert_eq!(report.reply, Some(ServerMessage::Connected { player_id: "new".to_string() }));
}

#[test]
fn find_match_needs_a_connection() {
    let mut handler = handler();
    assert_eq!(handler.handle_find_match(&None), error("Not connected"));
    assert_eq!(handler.game_manager().get_stats(), (0, 0, 0));
}

#[test]
fn player_move_needs_a_connection() {
    let mut handler = handler();
    assert_eq!(handler.handle_player_move(&None, GameChoice::Rock), error("Not connected"));
}

#[test]
fn player_move_outside_a_match_is_invalid() {
    let mut handler = handler();
    let alice = connected(&handler, "alice");
    assert_eq!(handler.handle_player_move(&alice, GameChoice::Rock), error("Invalid move"));
}

#[test]
fn undecodable_text_is_an_internal_error() {
    let mut handler = handler();
    let mut slot = Some("alice".to_string());
    assert_eq!(handler.handle_text_message(None, &mut slot), error("Internal server error"));
    assert_eq!(slot, Some("alice".to_string()));
}

#[test]
fn messages_are_handled_by_kind() {
    let mut handler = handler();
    let mut alice = None;
    let mut bob = None;
    handler.handle_text_message(
        Some(ClientMessage::Connect { player_id: Some("alice".to_string()) }),
        &mut alice,
    );
    handler.handle_text_message(
        Some(ClientMessage::Connect { player_id: Some("bob".to_string()) }),
        &mut bob,
    );
    assert_eq!(alice, Some("alice".to_string()));
    let waiting = handler.handle_text_message(Some(ClientMessage::FindMatch), &mut alice);
    assert_eq!(
        waiting.reply,
        Some(ServerMessage::Matchmaking { matched: false, waiting: Some(true), room_id: None })
    );
    let matched = handler.handle_text_message(Some(ClientMessage::FindMatch), &mut bob);
    assert!(matches!(
        matched.reply,
        Some(ServerMessage::Matchmaking { matched: true, waiting: None, room_id: Some(_) })
    ));
    assert_eq!(matched.broadcast.recipients, vec!["alice".to_string(), "bob".to_string()]);
    assert_eq!(handler.game_manager().get_stats(), (1, 1, 0));

    let first = handler.handle_text_message(
        Some(ClientMessage::PlayerMove { choice: GameChoice::Paper }),
        &mut alice,
    );
    assert_eq!(first, HandlerReport { reply: None, broadcast: nothing() });
    let second = handler.handle_text_message(
        Some(ClientMessage::PlayerMove { choice: GameChoice::Rock }),
        &mut bob,
    );
    assert_eq!(second.reply, None);
    assert_eq!(second.broadcast.recipients, vec!["alice".to_string(), "bob".to_string()]);
    assert_eq!(second.broadcast.messages[1], ServerMessage::NextRound { round: 2 });
}

#[test]
fn disconnect_removes_the_participant() {
    let mut handler = handler();
    let alice = connected(&handler, "alice");
    let bob = connected(&handler, "bob");
    handler.handle_find_match(&alice);
    handler.handle_find_match(&bob);
    let broadcast = handler.handle_disconnect(&alice);
    assert_eq!(
        broadcast,
        Broadcast {
            recipients: vec!["bob".to_string()],
            messages: vec![ServerMessage::PlayerLeft { player_id: "alice".to_string() }],
        }
    );
    assert_eq!(handler.game_manager().get_stats(), (0, 0, 0));
    assert_eq!(handler.handle_player_move(&bob, GameChoice::Rock), error("Invalid move"));
    assert_eq!(handler.handle_disconnect(&None), nothing());
}

#[test]
fn endpoints_report_the_figures() {
    let mut manager = GameManager::new(GameConfig::default());
    manager.find_match(rps_server::domain::PlayerInfo::new("a".to_string()));
    manager.find_match(rps_server::domain::PlayerInfo::new("b".to_string()));
    manager.find_match(rps_server::domain::PlayerInfo::new("c".to_string()));
    assert_eq!(
        stats_handler(&manager),
        StatsResponse { total_rooms: 1, active_games: 1, waiting_players: 1 }
    );
    let health = health_handler(&manager);
    assert_eq!(health.status, "healthy");
    assert_eq!(health.active_rooms, 1);
    assert_eq!(health.waiting_players, 1);
    assert!(health.timestamp > 1_577_836_800_000);
}
