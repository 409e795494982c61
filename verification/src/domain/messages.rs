use vstd::prelude::*;

use super::game::GameChoice;
use super::player::PlayerInfo;

verus! {

/// An event that a client sends, once the transport has decoded it.
#[derive(Debug, Clone, PartialEq, Eq)]
pub enum ClientMessage {
    Connect { player_id: Option<String> },
    FindMatch,
    PlayerMove { choice: GameChoice },
}

/// Mathematical value of a [`ClientMessage`].
pub enum ClientEvent {
    Connect { player_id: Option<Seq<char>> },
    FindMatch,
    PlayerMove { choice: GameChoice },
}

impl View for ClientMessage {
    type V = ClientEvent;

    open spec fn view(&self) -> ClientEvent {
        match self {
            ClientMessage::Connect { player_id } => ClientEvent::Connect {
                player_id: player_id.deep_view(),
            },
            ClientMessage::FindMatch => ClientEvent::FindMatch,
            ClientMessage::PlayerMove { choice } => ClientEvent::PlayerMove { choice: *choice },
        }
    }
}

/// An event that the engine produces for a client; the transport encodes and
/// delivers it.
#[allow(inconsistent_fields)]
#[derive(Debug, Clone, PartialEq, Eq)]
pub enum ServerMessage {
    Connected { player_id: String },
    Matchmaking { matched: bool, waiting: Option<bool>, room_id: Option<String> },
    GameStart { room_id: String, players: Vec<PlayerInfo>, max_rounds: u32 },
    RoundResult {
        round: u32,
        winner: Option<String>,
        moves: Vec<(String, GameChoice)>,
        scores: Vec<(String, u32)>,
    },
    NextRound { round: u32 },
    GameEnd { winner: Option<String>, final_scores: Vec<(String, u32)> },
    PlayerLeft { player_id: String },
    Error { message: String },
}

/// Mathematical value of a [`ServerMessage`].
#[allow(inconsistent_fields)]
pub enum ServerEvent {
    Connected { player_id: Seq<char> },
    Matchmaking { matched: bool, waiting: Option<bool>, room_id: Option<Seq<char>> },
    GameStart { room_id: Seq<char>, players: Seq<Seq<char>>, max_rounds: u32 },
    RoundResult {
        round: u32,
        winner: Option<Seq<char>>,
        moves: Seq<(Seq<char>, GameChoice)>,
        scores: Seq<(Seq<char>, u32)>,
    },
    NextRound { round: u32 },
    GameEnd { winner: Option<Seq<char>>, final_scores: Seq<(Seq<char>, u32)> },
    PlayerLeft { player_id: Seq<char> },
    Error { message: Seq<char> },
}

impl View for ServerMessage {
    type V = ServerEvent;

    open spec fn view(&self) -> ServerEvent {
        match self {
            ServerMessage::Connected { player_id } => ServerEvent::Connected {
                player_id: player_id@,
            },
            ServerMessage::Matchmaking { matched, waiting, room_id } => ServerEvent::Matchmaking {
                matched: *matched,
                waiting: *waiting,
                room_id: room_id.deep_view(),
            },
            ServerMessage::GameStart { room_id, players, max_rounds } => ServerEvent::GameStart {
                room_id: room_id@,
                players: players.deep_view(),
                max_rounds: *max_rounds,
            },
            ServerMessage::RoundResult { round, winner, moves, scores } => ServerEvent::RoundResult {
                round: *round,
                winner: winner.deep_view(),
                moves: moves.deep_view(),
                scores: scores.deep_view(),
            },
            ServerMessage::NextRound { round } => ServerEvent::NextRound { round: *round },
            ServerMessage::GameEnd { winner, final_scores } => ServerEvent::GameEnd {
                winner: winner.deep_view(),
                final_scores: final_scores.deep_view(),
            },
            ServerMessage::PlayerLeft { player_id } => ServerEvent::PlayerLeft {
                player_id: player_id@,
            },
            ServerMessage::Error { message } => ServerEvent::Error { message: message@ },
        }
    }
}

/// The mathematical values of a list of events, in order.
pub open spec fn events_of(messages: Seq<ServerMessage>) -> Seq<ServerEvent> {
    Seq::new(messages.len(), |i: int| messages[i]@)
}

/// Events for the transport to deliver: each message, in order, to each
/// recipient. A failed delivery concerns the transport alone; the engine's
/// state does not depend on it.
#[derive(Debug, Clone, PartialEq, Eq)]
pub struct Broadcast {
    pub recipients: Vec<String>,
    pub messages: Vec<ServerMessage>,
}

/// Mathematical value of a [`Broadcast`].
pub struct BroadcastView {
    pub recipients: Seq<Seq<char>>,
    pub events: Seq<ServerEvent>,
}

impl BroadcastView {
    /// Nothing, to nobody.
    pub open spec fn nothing() -> BroadcastView {
        BroadcastView { recipients: Seq::empty(), events: Seq::empty() }
    }
}

impl View for Broadcast {
    type V = BroadcastView;

    open spec fn view(&self) -> BroadcastView {
        BroadcastView { recipients: self.recipients.deep_view(), events: events_of(self.messages@) }
    }
}

impl Broadcast {
    /// Nothing, to nobody.
    pub fn nothing() -> (broadcast: Self)
        ensures
            broadcast@ == BroadcastView::nothing(),
    {
        let broadcast = Broadcast { recipients: Vec::new(), messages: Vec::new() };
        assert(broadcast@.recipients =~= Seq::empty());
        assert(broadcast@.events =~= Seq::empty());
        broadcast
    }
}

} // verus!
