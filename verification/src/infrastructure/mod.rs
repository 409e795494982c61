//! What the engine offers to the transport and to monitoring: the handling
//! of decoded client messages, connection by connection, and the figures for
//! the health and statistics endpoints.

pub mod rest_api;
pub mod websocket;

pub use rest_api::{health_handler, stats_handler, HealthResponse, StatsResponse};
pub use websocket::{HandlerReport, WebSocketHandler};
