//! The matchmaker: pairs waiting participants into sessions, routes moves
//! to them and clears up after those who leave.

use vstd::hash_map::StringHashMap;
use vstd::prelude::*;

use super::game_service::GameRoom;
use super::manager_laws::{
    lemma_departure_keeps_manager_valid, lemma_find_match_keeps_manager_valid,
    lemma_move_keeps_manager_valid, lemma_room_index, lemma_seat,
};
use super::manager_state::{count_playing, without, ManagerState};
use super::room_state::RoomState;
use crate::ambient::{fresh_identifier, now_millis};
use crate::domain::game::{GameChoice, GameConfig, GameStatus, PlayerMove};
use crate::domain::messages::{Broadcast, BroadcastView, ServerEvent, ServerMessage};
use crate::domain::player::{ids_of, PlayerInfo};

verus! {

/// What a request for a match comes to: the answer for the one who asked,
/// and what is to be sent to the participants of a session that it created.
#[derive(Debug, Clone, PartialEq, Eq)]
pub struct MatchReport {
    pub reply: ServerMessage,
    pub broadcast: Broadcast,
}

/// What a submitted move comes to: whether the sender is in a session at
/// all, and what is to be sent to the participants of that session.
#[derive(Debug, Clone, PartialEq, Eq)]
pub struct MoveReport {
    pub submitted: bool,
    pub broadcast: Broadcast,
}

/// The matchmaker. It owns the waiting queue and the register of sessions,
/// and it alone creates, changes and removes sessions.
pub struct GameManager {
    rooms: Vec<GameRoom>,
    waiting_queue: Vec<PlayerInfo>,
    player_rooms: StringHashMap<String>,
    config: GameConfig,
}

impl View for GameManager {
    type V = ManagerState;

    closed spec fn view(&self) -> ManagerState {
        ManagerState {
            rooms: Seq::new(self.rooms@.len(), |i: int| self.rooms@[i]@),
            waiting: ids_of(self.waiting_queue@),
            player_rooms: Map::new(
                |k: Seq<char>| self.player_rooms@.contains_key(k),
                |k: Seq<char>| self.player_rooms@[k]@,
            ),
            config: self.config,
        }
    }
}

/// The identifiers of `players` other than `player_id`, in order.
fn others(players: &Vec<PlayerInfo>, player_id: &str) -> (ids: Vec<String>)
    ensures
        ids.deep_view() == without(ids_of(players@), player_id@),
{
    let unwanted: String = player_id.to_owned();
    let mut ids: Vec<String> = Vec::new();
    let mut i: usize = 0;
    while i < players.len()
        invariant
            i <= players.len(),
            unwanted@ == player_id@,
            ids.deep_view() == without(ids_of(players@).take(i as int), player_id@),
        decreases players.len() - i,
    {
        let ghost before = ids.deep_view();
        assert(ids_of(players@).take(i + 1).drop_last() =~= ids_of(players@).take(i as int));
        if players[i].id != unwanted {
            ids.push(players[i].id.clone());
        }
        i = i + 1;
    }
    assert(ids_of(players@).take(i as int) =~= ids_of(players@));
    ids
}

/// The `players` other than `player_id`, in order.
fn without_player(players: &Vec<PlayerInfo>, player_id: &str) -> (kept: Vec<PlayerInfo>)
    ensures
        ids_of(kept@) == without(ids_of(players@), player_id@),
{
    let unwanted: String = player_id.to_owned();
    let mut kept: Vec<PlayerInfo> = Vec::new();
    let mut i: usize = 0;
    while i < players.len()
        invariant
            i <= players.len(),
            unwanted@ == player_id@,
            ids_of(kept@) == without(ids_of(players@).take(i as int), player_id@),
        decreases players.len() - i,
    {
        let ghost before = ids_of(kept@);
        assert(ids_of(players@).take(i + 1).drop_last() =~= ids_of(players@).take(i as int));
        if players[i].id != unwanted {
            kept.push(players[i].duplicate());
        }
        i = i + 1;
    }
    assert(ids_of(players@).take(i as int) =~= ids_of(players@));
    kept
}

impl GameManager {
    /// A matchmaker with nobody waiting and nothing registered. Its
    /// sessions are matches between two, so the configuration has to seat a
    /// pair.
    pub fn new(config: GameConfig) -> (manager: Self)
        requires
            config.seats_a_pair(),
        ensures
            manager@ == ManagerState::created(config),
            manager@.inv(),
    {
        let manager = GameManager {
            rooms: Vec::new(),
            waiting_queue: Vec::new(),
            player_rooms: StringHashMap::new(),
            config,
        };
        assert(manager@.rooms =~= Seq::empty());
        assert(manager@.waiting =~= Seq::empty());
        assert(manager@.player_rooms =~= Map::empty());
        manager
    }

    /// The place on the register of the session that goes by `room_id`.
    fn find_room(&self, room_id: &String) -> (found: Option<usize>)
        ensures
            match found {
                Some(i) => i < self@.rooms.len() && self@.rooms[i as int].id == room_id@,
                None => !self@.room_id_taken(room_id@),
            },
    {
        let mut i: usize = 0;
        while i < self.rooms.len()
            invariant
                i <= self.rooms.len(),
                forall|j: int| 0 <= j < i ==> (#[trigger] self@.rooms[j]).id != room_id@,
            decreases self.rooms.len() - i,
        {
            if self.rooms[i].id == *room_id {
                return Some(i);
            }
            i = i + 1;
        }
        None
    }

    /// The place on the register of the session that `player_id` is in.
    fn get_player_room(&self, player_id: &str) -> (found: Option<usize>)
        requires
            self@.inv(),
        ensures
            match found {
                Some(i) => self@.is_registered(player_id@) && i == self@.seat(player_id@) && i
                    < self.rooms@.len(),
                None => !self@.is_registered(player_id@),
            },
    {
        let room_id = match self.player_rooms.get(player_id) {
            Some(room_id) => room_id,
            None => {
                return None;
            },
        };
        proof {
            lemma_seat(self@, player_id@);
        }
        let found = self.find_room(room_id);
        proof {
            if let Some(i) = found {
                lemma_room_index(self@, i as int);
            }
        }
        found
    }

    /// Tells whether `player_id` is in the waiting queue.
    fn is_waiting(&self, player_id: &str) -> (waiting: bool)
        ensures
            waiting == self@.is_waiting(player_id@),
    {
        let wanted: String = player_id.to_owned();
        let mut i: usize = 0;
        while i < self.waiting_queue.len()
            invariant
                i <= self.waiting_queue.len(),
                wanted@ == player_id@,
                forall|j: int| 0 <= j < i ==> self@.waiting[j] != player_id@,
            decreases self.waiting_queue.len() - i,
        {
            if self.waiting_queue[i].id == wanted {
                assert(self@.waiting[i as int] == player_id@);
                return true;
            }
            i = i + 1;
        }
        false
    }

    /// Handles a request for a match by `player`, with a freshly drawn
    /// identifier for the session that the request may create; see
    /// [`GameManager::find_match_with_room_id`]. The matchmaker ends up as it
    /// would with one of the possible identifiers.
    pub fn find_match(&mut self, player: PlayerInfo) -> (report: MatchReport)
        requires
            old(self)@.inv(),
        ensures
            exists|room_id: Seq<char>|
                {
                    &&& final(self)@ == #[trigger] old(self)@.after_find_match(player.id@, room_id)
                    &&& report.reply@ == old(self)@.find_match_reply(player.id@, room_id)
                    &&& report.broadcast@ == old(self)@.find_match_broadcast(player.id@, room_id)
                },
            final(self)@.inv(),
    {
        let room_id = fresh_identifier();
        self.find_match_with_room_id(player, room_id)
    }

    /// Handles a request for a match by `player`, where `room_id` is the
    /// identifier for a session that the request may create.
    ///
    /// One who is in a session already is told so again, and one who waits
    /// already keeps waiting; neither changes anything. Otherwise, if
    /// somebody waits and `room_id` is free, the one who waited longest and
    /// `player` are put in a new session, in this order, both are registered
    /// for it, the answer is "matched" and the start of the match is to be
    /// sent to both. In every other case `player` goes to the end of the
    /// queue and the answer is "waiting".
    pub fn find_match_with_room_id(&mut self, player: PlayerInfo, room_id: String) -> (report:
        MatchReport)
        requires
            old(self)@.inv(),
        ensures
            final(self)@ == old(self)@.after_find_match(player.id@, room_id@),
            report.reply@ == old(self)@.find_match_reply(player.id@, room_id@),
            report.broadcast@ == old(self)@.find_match_broadcast(player.id@, room_id@),
            final(self)@.inv(),
    {
        proof {
            lemma_find_match_keeps_manager_valid(self@, player.id@, room_id@);
        }
        match self.player_rooms.get(player.id.as_str()) {
            Some(existing) => {
                let reply = ServerMessage::Matchmaking {
                    matched: true,
                    waiting: None,
                    room_id: Some(existing.clone()),
                };
                return MatchReport { reply, broadcast: Broadcast::nothing() };
            },
            None => {},
        }
        if self.is_waiting(player.id.as_str()) {
            let reply = ServerMessage::Matchmaking {
                matched: false,
                waiting: Some(true),
                room_id: None,
            };
            return MatchReport { reply, broadcast: Broadcast::nothing() };
        }
        if self.waiting_queue.len() > 0 && self.find_room(&room_id).is_none() {
            let first = self.waiting_queue.remove(0);
            proof {
                assert(self@.waiting =~= old(self)@.waiting.drop_first());
            }
            self.create_match(first, player, room_id)
        } else {
            self.add_to_queue(player)
        }
    }

    /// Puts `player1` and `player2` in a new session under `room_id`,
    /// registers both for it and reports the match to the second.
    fn create_match(&mut self, player1: PlayerInfo, player2: PlayerInfo, room_id: String) -> (report:
        MatchReport)
        ensures
            final(self)@ == (ManagerState {
                rooms: old(self)@.rooms.push(
                    RoomState::created(room_id@, old(self)@.config).joined(player1.id@).joined(
                        player2.id@,
                    ),
                ),
                player_rooms: old(self)@.player_rooms.insert(player1.id@, room_id@).insert(
                    player2.id@,
                    room_id@,
                ),
                ..old(self)@
            }),
            report.reply@ == (ServerEvent::Matchmaking {
                matched: true,
                waiting: None,
                room_id: Some(room_id@),
            }),
            report.broadcast@ == (BroadcastView {
                recipients: final(self)@.rooms.last().players,
                events: seq![final(self)@.rooms.last().game_start_event()],
            }),
    {
        let mut room = GameRoom::new(room_id.clone(), self.config);
        let id1 = player1.id.clone();
        let id2 = player2.id.clone();
        room.add_player(player1);
        room.add_player(player2);
        let mut messages: Vec<ServerMessage> = Vec::new();
        messages.push(room.start_game());
        let recipients = room.broadcast_to_all();
        let broadcast = Broadcast { recipients, messages };
        assert(broadcast@.events =~= seq![room@.game_start_event()]);
        self.rooms.push(room);
        self.player_rooms.insert(id1, room_id.clone());
        self.player_rooms.insert(id2, room_id.clone());
        proof {
            assert(self@.rooms =~= old(self)@.rooms.push(room@));
            assert(self@.player_rooms =~= old(self)@.player_rooms.insert(
                player1.id@,
                room_id@,
            ).insert(player2.id@, room_id@));
        }
        let reply = ServerMessage::Matchmaking {
            matched: true,
            waiting: None,
            room_id: Some(room_id),
        };
        MatchReport { reply, broadcast }
    }

    /// Puts `player` at the end of the waiting queue.
    fn add_to_queue(&mut self, player: PlayerInfo) -> (report: MatchReport)
        ensures
            final(self)@ == (ManagerState {
                waiting: old(self)@.waiting.push(player.id@),
                ..old(self)@
            }),
            report.reply@ == (ServerEvent::Matchmaking {
                matched: false,
                waiting: Some(true),
                room_id: None,
            }),
            report.broadcast@ == BroadcastView::nothing(),
    {
        self.waiting_queue.push(player);
        assert(self@.waiting =~= old(self)@.waiting.push(player.id@));
        let reply = ServerMessage::Matchmaking { matched: false, waiting: Some(true), room_id: None };
        MatchReport { reply, broadcast: Broadcast::nothing() }
    }

    /// Takes the session at place `index` off the register, together with
    /// the registration of its two participants, and hands it out.
    fn take_room(&mut self, index: usize) -> (room: GameRoom)
        requires
            index < old(self)@.rooms.len(),
            old(self)@.rooms[index as int].players.len() == 2,
        ensures
            final(self)@ == old(self)@.without_room(index as int),
            room@ == old(self)@.rooms[index as int],
    {
        let room = self.rooms.remove(index);
        self.player_rooms.remove(room.players[0].id.as_str());
        self.player_rooms.remove(room.players[1].id.as_str());
        proof {
            assert(self@.rooms =~= old(self)@.rooms.remove(index as int));
            assert(self@.player_rooms =~= old(self)@.player_rooms.remove(
                room@.players[0],
            ).remove(room@.players[1]));
        }
        room
    }

    /// Handles a move by `player_id`, stamped with the current time, as
    /// [`GameManager::apply_move`] does. The matchmaker ends up as it would
    /// with one of the possible timestamps.
    pub fn submit_move(&mut self, player_id: &str, choice: GameChoice) -> (report: MoveReport)
        requires
            old(self)@.inv(),
        ensures
            exists|timestamp: i64|
                {
                    &&& final(self)@ == #[trigger] old(self)@.after_move(
                        player_id@,
                        PlayerMove { choice, timestamp },
                    )
                    &&& report.broadcast@ == old(self)@.move_broadcast(
                        player_id@,
                        PlayerMove { choice, timestamp },
                    )
                },
            report.submitted == old(self)@.is_registered(player_id@),
            final(self)@.inv(),
    {
        let player_move = PlayerMove { choice, timestamp: now_millis() };
        let report = self.apply_move(player_id, player_move);
        assert(self@ == old(self)@.after_move(
            player_id@,
            PlayerMove { choice, timestamp: player_move.timestamp },
        ));
        report
    }

    /// Handles the move `player_move` by `player_id`.
    ///
    /// From one who is in no session the move is not taken and nothing
    /// changes. Otherwise the move goes to the sender's session. If it
    /// completes the round, the round is resolved, and its outcome is to be
    /// sent to the participants, followed by the end of the match, in which
    /// case the session and both registrations are removed, or by the start
    /// of the next round.
    pub fn apply_move(&mut self, player_id: &str, player_move: PlayerMove) -> (report: MoveReport)
        requires
            old(self)@.inv(),
        ensures
            final(self)@ == old(self)@.after_move(player_id@, player_move),
            report.submitted == old(self)@.is_registered(player_id@),
            report.broadcast@ == old(self)@.move_broadcast(player_id@, player_move),
            final(self)@.inv(),
    {
        proof {
            lemma_move_keeps_manager_valid(self@, player_id@, player_move);
        }
        let index = match self.get_player_room(player_id) {
            Some(index) => index,
            None => {
                return MoveReport { submitted: false, broadcast: Broadcast::nothing() };
            },
        };
        proof {
            lemma_seat(self@, player_id@);
        }
        let ready = self.rooms[index].record_move(player_id, player_move);
        let ghost moved = self.rooms@[index as int]@;
        if !ready {
            assert(self@.rooms =~= old(self)@.rooms.update(index as int, moved));
            return MoveReport { submitted: true, broadcast: Broadcast::nothing() };
        }
        let recipients = self.rooms[index].broadcast_to_all();
        let messages = match self.rooms[index].process_round() {
            Ok(messages) => messages,
            Err(_) => {
                // Both participants have a move on record, so the round
                // can be resolved: there is no way here.
                assert(false);
                Vec::new()
            },
        };
        let ghost played = self.rooms@[index as int]@;
        let broadcast = Broadcast { recipients, messages };
        let over = match self.rooms[index].status {
            GameStatus::Finished => true,
            _ => false,
        };
        let ghost mid = self@;
        assert(mid.rooms =~= old(self)@.rooms.update(index as int, played));
        if over {
            let _ = self.take_room(index);
            proof {
                assert(mid.rooms.remove(index as int) =~= old(self)@.rooms.remove(index as int));
            }
        }
        MoveReport { submitted: true, broadcast }
    }

    /// Clears up after `player_id`, who left. Safe to call again.
    ///
    /// The player leaves the waiting queue. If the player was in a session,
    /// that session and the registration of both its participants are
    /// removed, and word of the departure is to be sent to the one who
    /// remains; the match is abandoned, nobody wins it.
    pub fn remove_player(&mut self, player_id: &str) -> (broadcast: Broadcast)
        requires
            old(self)@.inv(),
        ensures
            final(self)@ == old(self)@.after_departure(player_id@),
            broadcast@ == old(self)@.departure_broadcast(player_id@),
            final(self)@.inv(),
    {
        proof {
            lemma_departure_keeps_manager_valid(self@, player_id@);
        }
        let found = self.get_player_room(player_id);
        self.waiting_queue = without_player(&self.waiting_queue, player_id);
        let ghost left = self@;
        proof {
            assert(left == (ManagerState {
                waiting: without(old(self)@.waiting, player_id@),
                ..old(self)@
            }));
        }
        let index = match found {
            Some(index) => index,
            None => {
                return Broadcast::nothing();
            },
        };
        proof {
            lemma_seat(old(self)@, player_id@);
        }
        let room = self.take_room(index);
        match room.status {
            GameStatus::Finished => Broadcast::nothing(),
            _ => {
                let recipients = others(&room.players, player_id);
                let mut messages: Vec<ServerMessage> = Vec::new();
                messages.push(room.notify_player_left(player_id));
                let broadcast = Broadcast { recipients, messages };
                assert(broadcast@.events =~= seq![ServerEvent::PlayerLeft { player_id: player_id@ }]);
                broadcast
            },
        }
    }

    /// The figures for monitoring: sessions on the register, sessions that
    /// are playing, participants in the waiting queue.
    pub fn get_stats(&self) -> (stats: (usize, usize, usize))
        ensures
            (stats.0 as nat, stats.1 as nat, stats.2 as nat) == self@.stats(),
    {
        let mut active: usize = 0;
        let mut i: usize = 0;
        while i < self.rooms.len()
            invariant
                i <= self.rooms.len(),
                active <= i,
                active == count_playing(self@.rooms.take(i as int)),
            decreases self.rooms.len() - i,
        {
            assert(self@.rooms.take(i + 1).drop_last() =~= self@.rooms.take(i as int));
            match self.rooms[i].status {
                GameStatus::Playing => {
                    active = active + 1;
                },
                _ => {},
            }
            i = i + 1;
        }
        assert(self@.rooms.take(i as int) =~= self@.rooms);
        (self.rooms.len(), active, self.waiting_queue.len())
    }
}

} // verus!
