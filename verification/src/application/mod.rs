//! The session and the matchmaker.

pub mod game_service;
pub mod manager_laws;
pub mod manager_state;
pub mod matchmaking_service;
pub mod room_state;

pub use game_service::GameRoom;
pub use manager_state::ManagerState;
pub use matchmaking_service::{GameManager, MatchReport, MoveReport};
pub use room_state::RoomState;
