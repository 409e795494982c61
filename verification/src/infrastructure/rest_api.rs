//! The figures that the monitoring endpoints report.

use vstd::prelude::*;

use crate::ambient::now_millis;
use crate::application::matchmaking_service::GameManager;

verus! {

/// Body of the health endpoint's answer.
#[derive(Debug, Clone, PartialEq, Eq)]
pub struct HealthResponse {
    pub status: String,
    /// When the answer was made, in milliseconds since the Unix epoch.
    pub timestamp: i64,
    pub active_rooms: usize,
    pub waiting_players: usize,
}

/// Body of the statistics endpoint's answer.
#[derive(Debug, Clone, Copy, PartialEq, Eq, Structural)]
pub struct StatsResponse {
    pub total_rooms: usize,
    pub active_games: usize,
    pub waiting_players: usize,
}

/// The answer of the health endpoint: the server is healthy, with so many
/// sessions on the register and so many participants waiting, at the
/// current time.
pub fn health_handler(game_manager: &GameManager) -> (response: HealthResponse)
    ensures
        response.status@ == "healthy"@,
        response.active_rooms == game_manager@.stats().0,
        response.waiting_players == game_manager@.stats().2,
{
    let (total_rooms, _, waiting_players) = game_manager.get_stats();
    HealthResponse {
        status: "healthy".to_owned(),
        timestamp: now_millis(),
        active_rooms: total_rooms,
        waiting_players,
    }
}

/// The answer of the statistics endpoint: sessions on the register,
/// sessions that are playing, participants waiting.
pub fn stats_handler(game_manager: &GameManager) -> (response: StatsResponse)
    ensures
        response.total_rooms == game_manager@.stats().0,
        response.active_games == game_manager@.stats().1,
        response.waiting_players == game_manager@.stats().2,
{
    let (total_rooms, active_games, waiting_players) = game_manager.get_stats();
    StatsResponse { total_rooms, active_games, waiting_players }
}

} // verus!
