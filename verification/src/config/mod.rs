//! Settings of the server. The engine itself reads only the game limits;
//! the rest is carried for the transport and the runtime.

use vstd::prelude::*;

verus! {

#[derive(Debug, Clone, PartialEq, Eq)]
pub struct ServerConfig {
    pub websocket: WebSocketConfig,
    pub rest_api: RestApiConfig,
    pub game: GameConfig,
    pub performance: PerformanceConfig,
}

#[derive(Debug, Clone, PartialEq, Eq)]
pub struct WebSocketConfig {
    pub host: String,
    pub port: u16,
    pub max_connections: usize,
    pub connection_timeout_ms: u64,
    pub message_timeout_ms: u64,
    pub keepalive_interval_ms: u64,
    pub max_frame_size: usize,
    pub max_message_size: usize,
}

#[derive(Debug, Clone, PartialEq, Eq)]
pub struct RestApiConfig {
    pub host: String,
    pub port: u16,
}

#[derive(Debug, Clone, Copy, PartialEq, Eq, Structural)]
pub struct GameConfig {
    pub max_rounds: u32,
    pub min_players: usize,
    pub max_players: usize,
    pub move_timeout_ms: u64,
    pub cleanup_interval_ms: u64,
}

#[derive(Debug, Clone, Copy, PartialEq, Eq, Structural)]
pub struct PerformanceConfig {
    pub worker_threads: Option<usize>,
    pub max_blocking_threads: usize,
    pub thread_stack_size: usize,
    pub channel_buffer_size: usize,
    pub gc_interval_ms: u64,
}

impl Default for ServerConfig {
    /// The settings of a server that nobody has configured.
    fn default() -> (config: Self)
        ensures
            config.websocket.host@ == "0.0.0.0"@,
            config.websocket.port == 8080,
            config.websocket.max_connections == 25000,
            config.websocket.connection_timeout_ms == 2000,
            config.websocket.message_timeout_ms == 500,
            config.websocket.keepalive_interval_ms == 10000,
            config.websocket.max_frame_size == 16 * 1024,
            config.websocket.max_message_size == 256 * 1024,
            config.rest_api.host@ == "0.0.0.0"@,
            config.rest_api.port == 8081,
            config.game == (GameConfig {
                max_rounds: 3,
                min_players: 2,
                max_players: 2,
                move_timeout_ms: 15000,
                cleanup_interval_ms: 30000,
            }),
            config.performance == (PerformanceConfig {
                worker_threads: Some(16usize),
                max_blocking_threads: 2048,
                thread_stack_size: 1_048_576,
                channel_buffer_size: 4096,
                gc_interval_ms: 10000,
            }),
    {
        ServerConfig {
            websocket: WebSocketConfig {
                host: "0.0.0.0".to_owned(),
                port: 8080,
                max_connections: 25000,
                connection_timeout_ms: 2000,
                message_timeout_ms: 500,
                keepalive_interval_ms: 10000,
                max_frame_size: 16 * 1024,
                max_message_size: 256 * 1024,
            },
            rest_api: RestApiConfig { host: "0.0.0.0".to_owned(), port: 8081 },
            game: GameConfig {
                max_rounds: 3,
                min_players: 2,
                max_players: 2,
                move_timeout_ms: 15000,
                cleanup_interval_ms: 30000,
            },
            performance: PerformanceConfig {
                worker_threads: Some(16),
                max_blocking_threads: 2048,
                thread_stack_size: 1024 * 1024,
                channel_buffer_size: 4096,
                gc_interval_ms: 10000,
            },
        }
    }
}

impl From<GameConfig> for crate::domain::game::GameConfig {
    /// The limits of a match, as the engine reads them.
    fn from(config: GameConfig) -> (limits: Self) {
        crate::domain::game::GameConfig {
            max_rounds: config.max_rounds,
            min_players: config.min_players,
            max_players: config.max_players,
        }
    }
}

impl vstd::std_specs::convert::FromSpecImpl<GameConfig> for crate::domain::game::GameConfig {
    open spec fn obeys_from_spec() -> bool {
        true
    }

    open spec fn from_spec(config: GameConfig) -> Self {
        crate::domain::game::GameConfig {
            max_rounds: config.max_rounds,
            min_players: config.min_players,
            max_players: config.max_players,
        }
    }
}

} // verus!
