//! The matchmaker as a mathematical state machine: the waiting queue, the
//! registry of sessions, the transitions and what holds of every reachable
//! state.

use vstd::prelude::*;

use super::room_state::RoomState;
use crate::domain::game::{GameConfig, GameStatus, PlayerMove, WIN_THRESHOLD};
use crate::domain::messages::{BroadcastView, ServerEvent};

verus! {

/// `ids` with every occurrence of `id` taken out, the rest in order.
pub open spec fn without(ids: Seq<Seq<char>>, id: Seq<char>) -> Seq<Seq<char>>
    decreases ids.len(),
{
    if ids.len() == 0 {
        ids
    } else if ids.last() == id {
        without(ids.drop_last(), id)
    } else {
        without(ids.drop_last(), id).push(ids.last())
    }
}

/// The number of sessions among `rooms` that are playing.
pub open spec fn count_playing(rooms: Seq<RoomState>) -> nat
    decreases rooms.len(),
{
    if rooms.len() == 0 {
        0
    } else if rooms.last().status == GameStatus::Playing {
        count_playing(rooms.drop_last()) + 1
    } else {
        count_playing(rooms.drop_last())
    }
}

/// Mathematical value of the matchmaker.
pub struct ManagerState {
    /// The sessions on the register, oldest first.
    pub rooms: Seq<RoomState>,
    /// Who waits for an opponent, longest wait first.
    pub waiting: Seq<Seq<char>>,
    /// For each participant of a registered session, that session's
    /// identifier.
    pub player_rooms: Map<Seq<char>, Seq<char>>,
    pub config: GameConfig,
}

impl ManagerState {
    /// The matchmaker as it starts: nobody waits, nothing is registered.
    pub open spec fn created(config: GameConfig) -> ManagerState {
        ManagerState {
            rooms: Seq::empty(),
            waiting: Seq::empty(),
            player_rooms: Map::empty(),
            config,
        }
    }

    pub open spec fn is_registered(self, player: Seq<char>) -> bool {
        self.player_rooms.contains_key(player)
    }

    pub open spec fn is_waiting(self, player: Seq<char>) -> bool {
        self.waiting.contains(player)
    }

    /// A registered session goes by `room_id`.
    pub open spec fn room_id_taken(self, room_id: Seq<char>) -> bool {
        exists|i: int| 0 <= i < self.rooms.len() && (#[trigger] self.rooms[i]).id == room_id
    }

    /// The place on the register of the session that goes by `room_id`.
    pub open spec fn room_index(self, room_id: Seq<char>) -> int {
        choose|i: int| 0 <= i < self.rooms.len() && (#[trigger] self.rooms[i]).id == room_id
    }

    /// The place on the register of the session that `player` is in.
    pub open spec fn seat(self, player: Seq<char>) -> int {
        self.room_index(self.player_rooms[player])
    }

    /// The session at place `i` is a running match between two different
    /// participants under the matchmaker's configuration, nobody in it has
    /// won yet, and both are registered for it.
    pub open spec fn room_ok(self, i: int) -> bool {
        let room = self.rooms[i];
        &&& room.inv()
        &&& room.config == self.config
        &&& room.status == GameStatus::Playing
        &&& room.players.len() == 2
        &&& room.players[0] != room.players[1]
        &&& forall|p: Seq<char>| #[trigger] room.scores.contains_key(p) ==> room.scores[p] < WIN_THRESHOLD
        &&& self.player_rooms.contains_key(room.players[0])
        &&& self.player_rooms[room.players[0]] == room.id
        &&& self.player_rooms.contains_key(room.players[1])
        &&& self.player_rooms[room.players[1]] == room.id
    }

    /// What holds of the matchmaker at all times: nobody waits twice, nobody
    /// waits while in a session, sessions have identifiers of their own, and
    /// a participant is registered if and only if it is in exactly one
    /// registered session, the one it is registered for.
    pub open spec fn inv(self) -> bool {
        &&& self.config.seats_a_pair()
        &&& self.waiting.no_duplicates()
        &&& forall|k: int| 0 <= k < self.waiting.len() ==> !self.player_rooms.contains_key(#[trigger] self.waiting[k])
        &&& forall|i: int, j: int|
            0 <= i < j < self.rooms.len() ==> (#[trigger] self.rooms[i]).id != (#[trigger] self.rooms[j]).id
        &&& forall|i: int| 0 <= i < self.rooms.len() ==> #[trigger] self.room_ok(i)
        &&& forall|p: Seq<char>| #[trigger]
            self.player_rooms.contains_key(p) ==> self.room_id_taken(self.player_rooms[p])
                && self.rooms[self.seat(p)].players.contains(p)
    }

    // ---------------------------------------------------------------
    // Asking for a match
    // ---------------------------------------------------------------
    /// A request by `player` creates a session under `room_id`: the player
    /// is new to the matchmaker, somebody waits, and the identifier is free.
    pub open spec fn pairs_up(self, player: Seq<char>, room_id: Seq<char>) -> bool {
        &&& !self.is_registered(player)
        &&& !self.is_waiting(player)
        &&& self.waiting.len() > 0
        &&& !self.room_id_taken(room_id)
    }

    /// A request by `player` puts the player at the end of the queue: the
    /// player is new to the matchmaker and no session is created.
    pub open spec fn enqueues(self, player: Seq<char>, room_id: Seq<char>) -> bool {
        &&& !self.is_registered(player)
        &&& !self.is_waiting(player)
        &&& !self.pairs_up(player, room_id)
    }

    /// The session that a request by `player` creates: the one who waited
    /// longest joins first, then `player`.
    pub open spec fn new_room(self, player: Seq<char>, room_id: Seq<char>) -> RoomState {
        RoomState::created(room_id, self.config).joined(self.waiting[0]).joined(player)
    }

    /// The matchmaker after `player` asked for a match and `room_id` was
    /// drawn for a session. One who is in a session or waits already changes
    /// nothing.
    pub open spec fn after_find_match(self, player: Seq<char>, room_id: Seq<char>) -> ManagerState {
        if self.pairs_up(player, room_id) {
            ManagerState {
                rooms: self.rooms.push(self.new_room(player, room_id)),
                waiting: self.waiting.drop_first(),
                player_rooms: self.player_rooms.insert(self.waiting[0], room_id).insert(
                    player,
                    room_id,
                ),
                ..self
            }
        } else if self.enqueues(player, room_id) {
            ManagerState { waiting: self.waiting.push(player), ..self }
        } else {
            self
        }
    }

    /// The answer to `player`: matched, with the session's identifier, for
    /// one who is or has just been put in a session; waiting for everybody
    /// else.
    pub open spec fn find_match_reply(self, player: Seq<char>, room_id: Seq<char>) -> ServerEvent {
        if self.is_registered(player) {
            ServerEvent::Matchmaking {
                matched: true,
                waiting: None,
                room_id: Some(self.player_rooms[player]),
            }
        } else if self.pairs_up(player, room_id) {
            ServerEvent::Matchmaking { matched: true, waiting: None, room_id: Some(room_id) }
        } else {
            ServerEvent::Matchmaking { matched: false, waiting: Some(true), room_id: None }
        }
    }

    /// What a request by `player` sends to the participants of the session
    /// it creates: the start of their match.
    pub open spec fn find_match_broadcast(self, player: Seq<char>, room_id: Seq<char>) -> BroadcastView {
        if self.pairs_up(player, room_id) {
            BroadcastView {
                recipients: self.new_room(player, room_id).players,
                events: seq![self.new_room(player, room_id).game_start_event()],
            }
        } else {
            BroadcastView::nothing()
        }
    }

    // ---------------------------------------------------------------
    // Submitting a move
    // ---------------------------------------------------------------
    /// The session of `player` once `mv` is on record.
    pub open spec fn room_with_move(self, player: Seq<char>, mv: PlayerMove) -> RoomState {
        self.rooms[self.seat(player)].recorded(player, mv)
    }

    /// The move `mv` of `player` completes a round.
    pub open spec fn completes_round(self, player: Seq<char>, mv: PlayerMove) -> bool {
        &&& self.is_registered(player)
        &&& self.rooms[self.seat(player)].accepts_move(player)
        &&& self.room_with_move(player, mv).all_moved()
    }

    /// The move `mv` of `player` completes the last round of a match.
    pub open spec fn completes_match(self, player: Seq<char>, mv: PlayerMove) -> bool {
        &&& self.completes_round(player, mv)
        &&& self.room_with_move(player, mv).resolved().should_end()
    }

    /// The register without the session at place `i` and without the
    /// registration of its two participants.
    pub open spec fn without_room(self, i: int) -> ManagerState {
        ManagerState {
            rooms: self.rooms.remove(i),
            player_rooms: self.player_rooms.remove(self.rooms[i].players[0]).remove(
                self.rooms[i].players[1],
            ),
            ..self
        }
    }

    /// The matchmaker after `player` submitted `mv`. For one who is in no
    /// session nothing changes. Otherwise the session takes the move; a
    /// round that it completes is worked off, and a match that the round
    /// ends leaves the register together with its participants.
    pub open spec fn after_move(self, player: Seq<char>, mv: PlayerMove) -> ManagerState {
        if !self.is_registered(player) {
            self
        } else if self.completes_match(player, mv) {
            self.without_room(self.seat(player))
        } else if self.completes_round(player, mv) {
            ManagerState {
                rooms: self.rooms.update(
                    self.seat(player),
                    self.room_with_move(player, mv).processed(),
                ),
                ..self
            }
        } else {
            ManagerState {
                rooms: self.rooms.update(self.seat(player), self.room_with_move(player, mv)),
                ..self
            }
        }
    }

    /// What a move sends out: for a move that completes a round, the
    /// round's events to the participants of the session; nothing otherwise.
    pub open spec fn move_broadcast(self, player: Seq<char>, mv: PlayerMove) -> BroadcastView {
        if self.completes_round(player, mv) {
            BroadcastView {
                recipients: self.room_with_move(player, mv).players,
                events: self.room_with_move(player, mv).round_events(),
            }
        } else {
            BroadcastView::nothing()
        }
    }

    // ---------------------------------------------------------------
    // Leaving
    // ---------------------------------------------------------------
    /// The matchmaker after `player` left: out of the queue, and the
    /// player's session, if there is one, off the register together with
    /// both registrations.
    pub open spec fn after_departure(self, player: Seq<char>) -> ManagerState {
        let left = ManagerState { waiting: without(self.waiting, player), ..self };
        if self.is_registered(player) {
            left.without_room(self.seat(player))
        } else {
            left
        }
    }

    /// What a departure sends out: word that `player` left, to the others in
    /// the player's session, unless that session is finished.
    pub open spec fn departure_broadcast(self, player: Seq<char>) -> BroadcastView {
        if self.is_registered(player) && self.rooms[self.seat(player)].status
            != GameStatus::Finished {
            BroadcastView {
                recipients: without(self.rooms[self.seat(player)].players, player),
                events: seq![ServerEvent::PlayerLeft { player_id: player }],
            }
        } else {
            BroadcastView::nothing()
        }
    }

    // ---------------------------------------------------------------
    // Figures
    // ---------------------------------------------------------------
    /// Sessions on the register, sessions that are playing, participants in
    /// the queue.
    pub open spec fn stats(self) -> (nat, nat, nat) {
        (self.rooms.len(), count_playing(self.rooms), self.waiting.len())
    }
}

} // verus!
