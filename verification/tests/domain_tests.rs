use rps_server::application::GameRoom;
use rps_server::config::ServerConfig;
use rps_server::domain::{
    resolve, GameChoice, GameConfig, GameStatus, PlayerInfo, PlayerStats, RoundVerdict,
    WIN_THRESHOLD,
};

#[test]
fn test_game_choice_beats() {
    assert!(GameChoice::Rock.beats(&GameChoice::Scissors));
    assert!(GameChoice::Paper.beats(&GameChoice::Rock));
    assert!(GameChoice::Scissors.beats(&GameChoice::Paper));

    assert!(!GameChoice::Rock.beats(&GameChoice::Paper));
    assert!(!GameChoice::Paper.beats(&GameChoice::Scissors));
    assert!(!GameChoice::Scissors.beats(&GameChoice::Rock));

    assert!(!GameChoice::Rock.beats(&GameChoice::Rock));
}

#[test]
fn test_game_room_creation() {
    let config = GameConfig::default();
    let room = GameRoom::new("test-room".to_string(), config);
    assert_eq!(room.id, "test-room");
    assert_eq!(room.status, GameStatus::Waiting);
    assert_eq!(room.current_round, 1);
    assert_eq!(room.config.max_rounds, 3);
}

#[test]
fn test_player_creation() {
    let player = PlayerInfo::new("test_player".to_string());
    assert_eq!(player.id, "test_player");
}

#[test]
fn beats_is_antisymmetric_and_irreflexive() {
    let all = [GameChoice::Rock, GameChoice::Paper, GameChoice::Scissors];
    for a in all {
        assert!(!a.beats(&a));
        assert_eq!(resolve(a, a), RoundVerdict::Draw);
        for b in all {
            if a.beats(&b) {
                assert!(!b.beats(&a));
            }
            if a != b {
                assert!(a.beats(&b) != b.beats(&a));
            }
        }
    }
}

#[test]
fn every_symbol_beats_exactly_one_other() {
    let all = [GameChoice::Rock, GameChoice::Paper, GameChoice::Scissors];
    for a in all {
        let beaten = all.iter().filter(|b| a.beats(b)).count();
        let beating = all.iter().filter(|b| b.beats(&a)).count();
        assert_eq!(beaten, 1);
        assert_eq!(beating, 1);
    }
}

#[test]
fn resolve_names_the_side_that_wins() {
    assert_eq!(resolve(GameChoice::Rock, GameChoice::Scissors), RoundVerdict::FirstWins);
    assert_eq!(resolve(GameChoice::Scissors, GameChoice::Rock), RoundVerdict::SecondWins);
    assert_eq!(resolve(GameChoice::Paper, GameChoice::Rock), RoundVerdict::FirstWins);
    assert_eq!(resolve(GameChoice::Rock, GameChoice::Paper), RoundVerdict::SecondWins);
    assert_eq!(resolve(GameChoice::Scissors, GameChoice::Paper), RoundVerdict::FirstWins);
    assert_eq!(resolve(GameChoice::Paper, GameChoice::Scissors), RoundVerdict::SecondWins);
    assert_eq!(resolve(GameChoice::Paper, GameChoice::Paper), RoundVerdict::Draw);
}

#[test]
fn default_game_config_is_best_of_three_for_two() {
    let config = GameConfig::default();
    assert_eq!(config, GameConfig { max_rounds: 3, min_players: 2, max_players: 2 });
    assert!(config.can_seat_a_pair());
    assert_eq!(WIN_THRESHOLD, 2);
}

#[test]
fn configs_that_cannot_seat_a_pair_are_told_apart() {
    assert!(!GameConfig { max_rounds: 3, min_players: 3, max_players: 4 }.can_seat_a_pair());
    assert!(!GameConfig { max_rounds: 3, min_players: 1, max_players: 1 }.can_seat_a_pair());
    assert!(GameConfig { max_rounds: 3, min_players: 0, max_players: 5 }.can_seat_a_pair());
}

#[test]
fn default_player_stats_are_all_zero() {
    let stats = PlayerStats::default();
    assert_eq!(stats, PlayerStats { wins: 0, losses: 0, draws: 0, total_games: 0 });
}

#[test]
fn default_server_config_has_the_documented_values() {
    let config = ServerConfig::default();
    assert_eq!(config.websocket.host, "0.0.0.0");
    assert_eq!(config.websocket.port, 8080);
    assert_eq!(config.websocket.max_connections, 25000);
    assert_eq!(config.websocket.connection_timeout_ms, 2000);
    assert_eq!(config.websocket.message_timeout_ms, 500);
    assert_eq!(config.websocket.keepalive_interval_ms, 10000);
    assert_eq!(config.websocket.max_frame_size, 16384);
    assert_eq!(config.websocket.max_message_size, 262144);
    assert_eq!(config.rest_api.host, "0.0.0.0");
    assert_eq!(config.rest_api.port, 8081);
    assert_eq!(config.game.max_rounds, 3);
    assert_eq!(config.game.min_players, 2);
    assert_eq!(config.game.max_players, 2);
    assert_eq!(config.game.move_timeout_ms, 15000);
    assert_eq!(config.game.cleanup_interval_ms, 30000);
    assert_eq!(config.performance.worker_threads, Some(16));
    assert_eq!(config.performance.max_blocking_threads, 2048);
    assert_eq!(config.performance.thread_stack_size, 1048576);
    assert_eq!(config.performance.channel_buffer_size, 4096);
    assert_eq!(config.performance.gc_interval_ms, 10000);
}

#[test]
fn server_game_config_converts_to_the_engine_limits() {
    let config = ServerConfig::default();
    let limits: GameConfig = config.game.into();
    assert_eq!(limits, GameConfig { max_rounds: 3, min_players: 2, max_players: 2 });
    let other = rps_server::config::GameConfig {
        max_rounds: 7,
        min_players: 1,
        max_players: 4,
        move_timeout_ms: 1,
        cleanup_interval_ms: 2,
    };
    assert_eq!(GameConfig::from(other), GameConfig { max_rounds: 7, min_players: 1, max_players: 4 });
}
