//! Shared vocabulary of the game: moves, statuses, configuration, the
//! participants and the protocol events.

pub mod game;
pub mod messages;
pub mod player;

pub use game::{
    resolve, GameChoice, GameConfig, GameError, GameResult, GameStatus, PlayerMove, RoundVerdict,
    WIN_THRESHOLD,
};
pub use messages::{Broadcast, ClientMessage, ServerMessage};
pub use player::{PlayerInfo, PlayerStats};
