//! The handling of a connection's messages, once the transport has decoded
//! them: what each does to the matchmaker, what is answered on the
//! connection, and what is to be sent to others.

use vstd::prelude::*;

use crate::ambient::fresh_identifier;
use crate::application::manager_state::ManagerState;
use crate::application::matchmaking_service::GameManager;
use crate::domain::game::{GameChoice, PlayerMove};
use crate::domain::messages::{
    Broadcast, BroadcastView, ClientMessage, ServerEvent, ServerMessage,
};
use crate::domain::player::PlayerInfo;

verus! {

/// What handling a message comes to: the answer for the connection that
/// the message came on, if there is one, and what is to be sent to the
/// participants of a session.
#[derive(Debug, Clone, PartialEq, Eq)]
pub struct HandlerReport {
    pub reply: Option<ServerMessage>,
    pub broadcast: Broadcast,
}

/// Mathematical value of a [`HandlerReport`].
pub struct HandlerReportView {
    pub reply: Option<ServerEvent>,
    pub broadcast: BroadcastView,
}

impl View for HandlerReport {
    type V = HandlerReportView;

    open spec fn view(&self) -> HandlerReportView {
        HandlerReportView {
            reply: match self.reply {
                Some(message) => Some(message@),
                None => None,
            },
            broadcast: self.broadcast@,
        }
    }
}

/// An answer on the connection alone.
pub open spec fn answer(event: ServerEvent) -> HandlerReportView {
    HandlerReportView { reply: Some(event), broadcast: BroadcastView::nothing() }
}

/// The error event with the given text.
pub open spec fn error_event(text: Seq<char>) -> ServerEvent {
    ServerEvent::Error { message: text }
}

/// What is answered to a request for a match by the one on the connection,
/// where `room_id` was drawn for a session.
pub open spec fn find_match_report(
    manager: ManagerState,
    player: Seq<char>,
    room_id: Seq<char>,
) -> HandlerReportView {
    HandlerReportView {
        reply: Some(manager.find_match_reply(player, room_id)),
        broadcast: manager.find_match_broadcast(player, room_id),
    }
}

/// What is answered to the move `mv` by the one on the connection: nothing
/// where the move was taken, an error where the sender is in no session.
pub open spec fn player_move_report(
    manager: ManagerState,
    player: Seq<char>,
    mv: PlayerMove,
) -> HandlerReportView {
    HandlerReportView {
        reply: if manager.is_registered(player) {
            None
        } else {
            Some(error_event("Invalid move"@))
        },
        broadcast: manager.move_broadcast(player, mv),
    }
}

/// Handles the messages of all connections against one matchmaker.
pub struct WebSocketHandler {
    game_manager: GameManager,
}

impl WebSocketHandler {
    /// The matchmaker that the handler works on, as a mathematical value.
    pub closed spec fn manager(&self) -> ManagerState {
        self.game_manager@
    }

    pub fn new(game_manager: GameManager) -> (handler: Self)
        ensures
            handler.manager() == game_manager@,
    {
        WebSocketHandler { game_manager }
    }

    /// The matchmaker, for reading its figures.
    pub fn game_manager(&self) -> (game_manager: &GameManager)
        ensures
            game_manager@ == self.manager(),
    {
        &self.game_manager
    }

    fn reply_only(message: ServerMessage) -> (report: HandlerReport)
        ensures
            report@ == answer(message@),
    {
        HandlerReport { reply: Some(message), broadcast: Broadcast::nothing() }
    }

    fn error(text: &str) -> (report: HandlerReport)
        ensures
            report@ == answer(error_event(text@)),
    {
        Self::reply_only(ServerMessage::Error { message: text.to_owned() })
    }

    /// Puts the participant `id` on the connection and confirms it.
    pub fn connect_as(&self, id: String, player_id: &mut Option<String>) -> (report: HandlerReport)
        ensures
            *final(player_id) == Some(id),
            report@ == answer(ServerEvent::Connected { player_id: id@ }),
    {
        *player_id = Some(id.clone());
        Self::reply_only(ServerMessage::Connected { player_id: id })
    }

    /// Puts a participant on the connection: the one that the client asked
    /// to be, or else one under a freshly drawn identifier. The answer
    /// confirms the identifier.
    pub fn handle_connect(&self, requested_id: Option<String>, player_id: &mut Option<String>) -> (report:
        HandlerReport)
        ensures
            final(player_id).is_some(),
            requested_id.is_some() ==> *final(player_id) == requested_id,
            report@ == answer(ServerEvent::Connected { player_id: final(player_id).unwrap()@ }),
    {
        let id = match requested_id {
            Some(id) => id,
            None => fresh_identifier(),
        };
        self.connect_as(id, player_id)
    }

    /// Handles a request for a match from a connection. Without a
    /// participant on the connection the answer is an error and nothing
    /// changes; otherwise the matchmaker takes the request and its answer
    /// is passed on.
    pub fn handle_find_match(&mut self, player_id: &Option<String>) -> (report: HandlerReport)
        requires
            old(self).manager().inv(),
        ensures
            final(self).manager().inv(),
            match *player_id {
                Some(id) => exists|room_id: Seq<char>|
                    {
                        &&& final(self).manager() == #[trigger] old(self).manager().after_find_match(
                            id@,
                            room_id,
                        )
                        &&& report@ == find_match_report(old(self).manager(), id@, room_id)
                    },
                None => final(self).manager() == old(self).manager() && report@ == answer(
                    error_event("Not connected"@),
                ),
            },
    {
        match player_id {
            Some(id) => {
                let player = PlayerInfo::new(id.clone());
                let outcome = self.game_manager.find_match(player);
                HandlerReport { reply: Some(outcome.reply), broadcast: outcome.broadcast }
            },
            None => Self::error("Not connected"),
        }
    }

    /// Handles a move from a connection. Without a participant on the
    /// connection the answer is an error and nothing changes. Otherwise the
    /// matchmaker takes the move; a move from one who is in no session is
    /// answered with an error, any other move is not answered.
    pub fn handle_player_move(&mut self, player_id: &Option<String>, choice: GameChoice) -> (report:
        HandlerReport)
        requires
            old(self).manager().inv(),
        ensures
            final(self).manager().inv(),
            match *player_id {
                Some(id) => exists|timestamp: i64|
                    {
                        &&& final(self).manager() == #[trigger] old(self).manager().after_move(
                            id@,
                            PlayerMove { choice, timestamp },
                        )
                        &&& report@ == player_move_report(
                            old(self).manager(),
                            id@,
                            PlayerMove { choice, timestamp },
                        )
                    },
                None => final(self).manager() == old(self).manager() && report@ == answer(
                    error_event("Not connected"@),
                ),
            },
    {
        match player_id {
            Some(id) => {
                let outcome = self.game_manager.submit_move(id.as_str(), choice);
                let reply = if outcome.submitted {
                    None
                } else {
                    Some(ServerMessage::Error { message: "Invalid move".to_owned() })
                };
                HandlerReport { reply, broadcast: outcome.broadcast }
            },
            None => Self::error("Not connected"),
        }
    }

    /// Handles what came in on a connection: `decoded` is the client's
    /// message, or `None` where the text was no message at all, which is
    /// answered with an error. A message is handled by its kind.
    pub fn handle_text_message(
        &mut self,
        decoded: Option<ClientMessage>,
        player_id: &mut Option<String>,
    ) -> (report: HandlerReport)
        requires
            old(self).manager().inv(),
        ensures
            final(self).manager().inv(),
            decoded.is_none() ==> {
                &&& final(self).manager() == old(self).manager()
                &&& *final(player_id) == *old(player_id)
                &&& report@ == answer(error_event("Internal server error"@))
            },
            decoded matches Some(ClientMessage::Connect { player_id: requested_id }) ==> {
                &&& final(self).manager() == old(self).manager()
                &&& final(player_id).is_some()
                &&& requested_id.is_some() ==> *final(player_id) == requested_id
                &&& report@ == answer(
                    ServerEvent::Connected { player_id: final(player_id).unwrap()@ },
                )
            },
            decoded matches Some(ClientMessage::FindMatch) ==> {
                &&& *final(player_id) == *old(player_id)
                &&& match *old(player_id) {
                    Some(id) => exists|room_id: Seq<char>|
                        {
                            &&& final(self).manager() == #[trigger] old(
                                self,
                            ).manager().after_find_match(id@, room_id)
                            &&& report@ == find_match_report(old(self).manager(), id@, room_id)
                        },
                    None => final(self).manager() == old(self).manager() && report@ == answer(
                        error_event("Not connected"@),
                    ),
                }
            },
            decoded matches Some(ClientMessage::PlayerMove { choice }) ==> {
                &&& *final(player_id) == *old(player_id)
                &&& match *old(player_id) {
                    Some(id) => exists|timestamp: i64|
                        {
                            &&& final(self).manager() == #[trigger] old(self).manager().after_move(
                                id@,
                                PlayerMove { choice, timestamp },
                            )
                            &&& report@ == player_move_report(
                                old(self).manager(),
                                id@,
                                PlayerMove { choice, timestamp },
                            )
                        },
                    None => final(self).manager() == old(self).manager() && report@ == answer(
                        error_event("Not connected"@),
                    ),
                }
            },
    {
        match decoded {
            None => Self::error("Internal server error"),
            Some(ClientMessage::Connect { player_id: requested_id }) => self.handle_connect(
                requested_id,
                player_id,
            ),
            Some(ClientMessage::FindMatch) => self.handle_find_match(player_id),
            Some(ClientMessage::PlayerMove { choice }) => self.handle_player_move(player_id, choice),
        }
    }

    /// Clears up when a connection closes: the participant on it, if there
    /// is one, leaves the matchmaker.
    pub fn handle_disconnect(&mut self, player_id: &Option<String>) -> (broadcast: Broadcast)
        requires
            old(self).manager().inv(),
        ensures
            final(self).manager().inv(),
            match *player_id {
                Some(id) => final(self).manager() == old(self).manager().after_departure(id@)
                    && broadcast@ == old(self).manager().departure_broadcast(id@),
                None => final(self).manager() == old(self).manager() && broadcast@
                    == BroadcastView::nothing(),
            },
    {
        match player_id {
            Some(id) => self.game_manager.remove_player(id.as_str()),
            None => Broadcast::nothing(),
        }
    }
}

} // verus!
