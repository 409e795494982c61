//! The session: one match between the participants of a room.

use vstd::hash_map::StringHashMap;
use vstd::prelude::*;

use super::room_state::RoomState;
use crate::ambient::now_millis;
use crate::domain::game::{
    GameChoice, GameConfig, GameError, GameResult, GameStatus, PlayerMove, WIN_THRESHOLD,
};
use crate::domain::messages::{events_of, ServerEvent, ServerMessage};
use crate::domain::player::{ids_of, PlayerInfo};

verus! {

/// One match: who takes part, the round being played, the moves made in it
/// and the scores so far.
pub struct GameRoom {
    pub id: String,
    pub players: Vec<PlayerInfo>,
    pub current_round: u32,
    pub config: GameConfig,
    pub scores: StringHashMap<u32>,
    pub moves: StringHashMap<PlayerMove>,
    pub status: GameStatus,
}

impl View for GameRoom {
    type V = RoomState;

    open spec fn view(&self) -> RoomState {
        RoomState {
            id: self.id@,
            players: ids_of(self.players@),
            current_round: self.current_round,
            config: self.config,
            scores: self.scores@,
            moves: self.moves@,
            status: self.status,
        }
    }
}

impl GameRoom {
    /// An empty session in its first round, waiting for participants.
    pub fn new(id: String, config: GameConfig) -> (room: Self)
        ensures
            room@ == RoomState::created(id@, config),
            room@.inv(),
    {
        let room = GameRoom {
            id,
            players: Vec::new(),
            current_round: 1,
            config,
            scores: StringHashMap::new(),
            moves: StringHashMap::new(),
            status: GameStatus::Waiting,
        };
        assert(ids_of(room.players@) =~= Seq::<Seq<char>>::empty());
        room
    }

    /// Takes `player` into the session unless it is full, and starts the
    /// match once the configured minimum is reached. Returns whether the
    /// player was taken in.
    pub fn add_player(&mut self, player: PlayerInfo) -> (accepted: bool)
        ensures
            accepted == !old(self)@.is_full(),
            final(self)@ == old(self)@.joined(player.id@),
            old(self)@.inv() ==> final(self)@.inv(),
    {
        proof {
            if self@.inv() {
                super::room_state::lemma_join_keeps_session_valid(self@, player.id@);
            }
        }
        if self.players.len() >= self.config.max_players {
            return false;
        }
        self.scores.insert(player.id.clone(), 0);
        self.players.push(player);
        match self.status {
            GameStatus::Waiting => {
                if self.players.len() >= self.config.min_players {
                    self.status = GameStatus::Playing;
                }
            },
            _ => {},
        }
        assert(ids_of(self.players@) =~= ids_of(old(self).players@).push(player.id@));
        true
    }

    /// Tells whether `player_id` names a participant of the session.
    pub fn has_player(&self, player_id: &str) -> (found: bool)
        ensures
            found == self@.players.contains(player_id@),
    {
        let wanted: String = player_id.to_owned();
        let mut i: usize = 0;
        while i < self.players.len()
            invariant
                i <= self.players.len(),
                wanted@ == player_id@,
                forall|j: int| 0 <= j < i ==> ids_of(self.players@)[j] != player_id@,
            decreases self.players.len() - i,
        {
            if self.players[i].id == wanted {
                assert(ids_of(self.players@)[i as int] == player_id@);
                return true;
            }
            i = i + 1;
        }
        false
    }

    /// Tells whether every participant has a move on record for the current
    /// round.
    pub fn all_moved(&self) -> (ready: bool)
        ensures
            ready == self@.all_moved(),
    {
        let mut i: usize = 0;
        while i < self.players.len()
            invariant
                i <= self.players.len(),
                forall|j: int| 0 <= j < i ==> self.moves@.contains_key(#[trigger] self@.players[j]),
            decreases self.players.len() - i,
        {
            if !self.moves.contains_key(self.players[i].id.as_str()) {
                assert(!self.moves@.contains_key(self@.players[i as int]));
                return false;
            }
            i = i + 1;
        }
        true
    }

    /// Records `player_move` as the move of `player_id` for the current
    /// round, in place of an earlier one if there is one. Nothing is recorded
    /// unless the session is playing and `player_id` takes part in it.
    /// Returns whether the round is now ready to be resolved: the move was
    /// taken and every participant has one on record.
    pub fn record_move(&mut self, player_id: &str, player_move: PlayerMove) -> (ready: bool)
        ensures
            final(self)@ == old(self)@.recorded(player_id@, player_move),
            ready == (old(self)@.accepts_move(player_id@) && final(self)@.all_moved()),
            old(self)@.inv() ==> final(self)@.inv(),
    {
        proof {
            if self@.inv() {
                super::room_state::lemma_round_steps_keep_session_valid(
                    self@,
                    player_id@,
                    player_move,
                );
            }
        }
        match self.status {
            GameStatus::Playing => {},
            _ => {
                return false;
            },
        }
        if !self.has_player(player_id) {
            return false;
        }
        self.moves.insert(player_id.to_owned(), player_move);
        self.all_moved()
    }

    /// Records `choice` as the move of `player_id`, stamped with the current
    /// time, as [`GameRoom::record_move`] does. The session ends up as it
    /// would with one of the possible timestamps.
    pub fn submit_move(&mut self, player_id: &str, choice: GameChoice) -> (ready: bool)
        ensures
            exists|timestamp: i64|
                final(self)@ == #[trigger] old(self)@.recorded(
                    player_id@,
                    PlayerMove { choice, timestamp },
                ),
            ready == (old(self)@.accepts_move(player_id@) && final(self)@.all_moved()),
            old(self)@.inv() ==> final(self)@.inv(),
    {
        let player_move = PlayerMove { choice, timestamp: now_millis() };
        let ready = self.record_move(player_id, player_move);
        assert(self@ == old(self)@.recorded(
            player_id@,
            PlayerMove { choice, timestamp: player_move.timestamp },
        ));
        ready
    }

    /// Works out the current round without changing the session: the
    /// winner, the moves made, and the scores as they stand once the round is
    /// counted. Fails unless exactly two participants have a move each.
    pub fn calculate_round_result(&self) -> (result: Result<GameResult, GameError>)
        requires
            self@.inv(),
            self@.scores_can_grow(),
        ensures
            match result {
                Ok(outcome) => self@.can_resolve() && outcome@ == self@.round_outcome(),
                Err(e) => !self@.can_resolve() && e == GameError::InvalidState,
            },
    {
        if self.players.len() != 2 {
            return Err(GameError::InvalidState);
        }
        let first = &self.players[0];
        let second = &self.players[1];
        assert(self@.players[0] == first.id@ && self@.players[1] == second.id@);
        assert(self@.players.contains(self@.players[0]));
        assert(self@.players.contains(self@.players[1]));
        let first_move = match self.moves.get(first.id.as_str()) {
            Some(m) => *m,
            None => {
                return Err(GameError::InvalidState);
            },
        };
        let second_move = match self.moves.get(second.id.as_str()) {
            Some(m) => *m,
            None => {
                return Err(GameError::InvalidState);
            },
        };
        let first_score = match self.scores.get(first.id.as_str()) {
            Some(s) => *s,
            None => 0,
        };
        let second_score = match self.scores.get(second.id.as_str()) {
            Some(s) => *s,
            None => 0,
        };
        let mut winner: Option<String> = None;
        let mut first_total = first_score;
        let mut second_total = second_score;
        if first_move.choice != second_move.choice {
            if first_move.choice.beats(&second_move.choice) {
                winner = Some(first.id.clone());
                first_total = first_score + 1;
            } else {
                winner = Some(second.id.clone());
                second_total = second_score + 1;
            }
        }
        let mut moves: Vec<(String, GameChoice)> = Vec::new();
        moves.push((first.id.clone(), first_move.choice));
        moves.push((second.id.clone(), second_move.choice));
        let mut scores: Vec<(String, u32)> = Vec::new();
        scores.push((first.id.clone(), first_total));
        scores.push((second.id.clone(), second_total));
        let outcome = GameResult { round: self.current_round, winner, moves, scores };
        proof {
            assert(outcome@.winner == self@.round_winner());
            assert(outcome@.moves =~= self@.move_entries());
            assert(outcome@.scores =~= self@.resolved().score_entries());
        }
        Ok(outcome)
    }

    /// Resolves the current round: counts it for the winner, forgets its
    /// moves and reports the outcome. The round number and the status stay as
    /// they are. Fails, and changes nothing, unless exactly two participants
    /// have a move each.
    pub fn resolve_round(&mut self) -> (result: Result<GameResult, GameError>)
        requires
            old(self)@.inv(),
            old(self)@.scores_can_grow(),
        ensures
            match result {
                Ok(outcome) => {
                    &&& old(self)@.can_resolve()
                    &&& outcome@ == old(self)@.round_outcome()
                    &&& final(self)@ == old(self)@.resolved()
                    &&& final(self)@.inv()
                },
                Err(e) => {
                    &&& !old(self)@.can_resolve()
                    &&& e == GameError::InvalidState
                    &&& *final(self) == *old(self)
                },
            },
    {
        let outcome = match self.calculate_round_result() {
            Ok(outcome) => outcome,
            Err(e) => {
                return Err(e);
            },
        };
        proof {
            super::room_state::lemma_round_steps_keep_session_valid(
                self@,
                self@.players[0],
                PlayerMove { choice: GameChoice::Rock, timestamp: 0 },
            );
            assert(self@.players.contains(self@.players[0]));
            assert(self@.players.contains(self@.players[1]));
        }
        match &outcome.winner {
            Some(winner) => {
                let score = match self.scores.get(winner.as_str()) {
                    Some(s) => *s,
                    None => 0,
                };
                self.scores.insert(winner.clone(), score + 1);
            },
            None => {},
        }
        self.moves.clear();
        Ok(outcome)
    }

    /// Tells whether the match is over: a participant has reached the
    /// winning score, or the round counter has reached the configured
    /// maximum.
    pub fn should_end_game(&self) -> (over: bool)
        requires
            self@.inv(),
        ensures
            over == self@.should_end(),
    {
        if self.current_round >= self.config.max_rounds {
            return true;
        }
        let mut i: usize = 0;
        while i < self.players.len()
            invariant
                i <= self.players.len(),
                self@.inv(),
                forall|j: int| 0 <= j < i ==> self.scores@[#[trigger] self@.players[j]] < WIN_THRESHOLD,
            decreases self.players.len() - i,
        {
            assert(self@.players.contains(self@.players[i as int]));
            let score = match self.scores.get(self.players[i].id.as_str()) {
                Some(s) => *s,
                None => 0,
            };
            if score >= WIN_THRESHOLD {
                assert(self@.scores[self@.players[i as int]] >= WIN_THRESHOLD);
                return true;
            }
            i = i + 1;
        }
        proof {
            assert forall|p: Seq<char>| self@.scores.contains_key(p) implies self@.scores[p]
                < WIN_THRESHOLD by {
                assert(self@.players.contains(p));
                let j = choose|j: int| 0 <= j < self@.players.len() && self@.players[j] == p;
                assert(self.scores@[self@.players[j]] < WIN_THRESHOLD);
            }
        }
        false
    }

    /// Moves on to the next round with no move on record, and gives the
    /// event that announces it.
    pub fn next_round(&mut self) -> (message: ServerMessage)
        requires
            old(self).current_round < u32::MAX,
        ensures
            final(self)@ == old(self)@.advanced(),
            message@ == final(self)@.next_round_event(),
            old(self)@.inv() ==> final(self)@.inv(),
    {
        self.current_round = self.current_round + 1;
        self.moves.clear();
        ServerMessage::NextRound { round: self.current_round }
    }

    /// The score of each participant, in joining order.
    pub fn score_entries(&self) -> (entries: Vec<(String, u32)>)
        requires
            self@.inv(),
        ensures
            entries.deep_view() == self@.score_entries(),
    {
        let mut entries: Vec<(String, u32)> = Vec::new();
        let mut i: usize = 0;
        while i < self.players.len()
            invariant
                i <= self.players.len(),
                self@.inv(),
                entries@.len() == i,
                forall|j: int| 0 <= j < i ==> (#[trigger] entries@[j]).deep_view() == self@.score_entries()[j],
            decreases self.players.len() - i,
        {
            assert(self@.players.contains(self@.players[i as int]));
            let score = match self.scores.get(self.players[i].id.as_str()) {
                Some(s) => *s,
                None => 0,
            };
            entries.push((self.players[i].id.clone(), score));
            i = i + 1;
        }
        assert(entries.deep_view() =~= self@.score_entries());
        entries
    }

    /// The winner of the match as the scores stand: the one participant
    /// with the highest score, or nobody where the highest score is shared.
    pub fn determine_final_winner(&self) -> (winner: Option<String>)
        requires
            self@.inv(),
        ensures
            winner.deep_view() == self@.final_winner(),
    {
        if self.players.len() == 0 {
            proof {
                assert forall|q: Seq<char>| !self@.is_sole_leader(q) by {
                    if self@.scores.contains_key(q) {
                        assert(self@.players.contains(q));
                    }
                }
                super::room_state::lemma_final_winner(self@, Seq::empty());
            }
            return None;
        }
        let mut leader: usize = 0;
        let mut best: u32 = 0;
        let mut shared: bool = false;
        let mut i: usize = 0;
        while i < self.players.len()
            invariant
                i <= self.players.len(),
                self@.inv(),
                i > 0 ==> leader < i,
                i > 0 ==> best == self.scores@[self@.players[leader as int]],
                forall|j: int| 0 <= j < i ==> self.scores@[#[trigger] self@.players[j]] <= best,
                i > 0 ==> (shared <==> exists|j: int|
                    0 <= j < i && #[trigger] self@.players[j] != self@.players[leader as int]
                        && self.scores@[self@.players[j]] == best),
                i == 0 ==> !shared,
            decreases self.players.len() - i,
        {
            assert(self@.players.contains(self@.players[i as int]));
            let score = match self.scores.get(self.players[i].id.as_str()) {
                Some(s) => *s,
                None => 0,
            };
            if i == 0 || score > best {
                leader = i;
                best = score;
                shared = false;
            } else if score == best && self.players[i].id != self.players[leader].id {
                shared = true;
            }
            i = i + 1;
        }
        let ghost champion = self@.players[leader as int];
        if shared {
            proof {
                let j = choose|j: int|
                    0 <= j < self@.players.len() && #[trigger] self@.players[j] != champion
                        && self.scores@[self@.players[j]] == best;
                let rival = self@.players[j];
                assert(self@.players.contains(rival));
                assert(self@.players.contains(champion));
                assert forall|q: Seq<char>| !self@.is_sole_leader(q) by {
                    if self@.is_sole_leader(q) {
                        assert(self@.players.contains(q));
                        let k = choose|k: int| 0 <= k < self@.players.len() && self@.players[k] == q;
                        assert(self.scores@[self@.players[k]] <= best);
                        if q == champion {
                            assert(self@.scores[rival] < self@.scores[q]);
                        } else {
                            assert(self@.scores[champion] < self@.scores[q]);
                        }
                    }
                }
                super::room_state::lemma_final_winner(self@, champion);
            }
            None
        } else {
            proof {
                assert(self@.players.contains(champion));
                assert forall|p: Seq<char>|
                    self@.scores.contains_key(p) && p != champion implies self@.scores[p]
                    < self@.scores[champion] by {
                    assert(self@.players.contains(p));
                    let k = choose|k: int| 0 <= k < self@.players.len() && self@.players[k] == p;
                    assert(self.scores@[self@.players[k]] <= best);
                }
                assert(self@.is_sole_leader(champion));
                super::room_state::lemma_final_winner(self@, champion);
            }
            Some(self.players[leader].id.clone())
        }
    }

    /// Ends the match and names its winner, if it has one: the one
    /// participant with the highest score.
    pub fn finish(&mut self) -> (winner: Option<String>)
        requires
            old(self)@.inv(),
        ensures
            final(self)@ == old(self)@.finished(),
            final(self)@.status == GameStatus::Finished,
            winner.deep_view() == old(self)@.final_winner(),
            final(self)@.inv(),
    {
        self.status = GameStatus::Finished;
        assert(self@.final_winner() == old(self)@.final_winner()) by {
            assert(self@.scores == old(self)@.scores);
            assert forall|p: Seq<char>| self@.is_sole_leader(p) == old(self)@.is_sole_leader(p) by {}
        }
        self.determine_final_winner()
    }

    /// Ends the match and gives the event that closes it: the winner, if
    /// there is one, and the final scores.
    pub fn end_game(&mut self) -> (message: ServerMessage)
        requires
            old(self)@.inv(),
        ensures
            final(self)@ == old(self)@.finished(),
            message@ == old(self)@.game_end_event(),
            final(self)@.inv(),
    {
        let winner = self.finish();
        let final_scores = self.score_entries();
        assert(self@.score_entries() =~= old(self)@.score_entries());
        ServerMessage::GameEnd { winner, final_scores }
    }

    /// The event that opens the match: the session, its participants and
    /// the number of rounds it may take.
    pub fn start_game(&self) -> (message: ServerMessage)
        ensures
            message@ == self@.game_start_event(),
    {
        let mut players: Vec<PlayerInfo> = Vec::new();
        let mut i: usize = 0;
        while i < self.players.len()
            invariant
                i <= self.players.len(),
                players@.len() == i,
                forall|j: int| 0 <= j < i ==> #[trigger] players@[j] == self.players@[j],
            decreases self.players.len() - i,
        {
            players.push(self.players[i].duplicate());
            i = i + 1;
        }
        assert(players.deep_view() =~= ids_of(self.players@));
        ServerMessage::GameStart {
            room_id: self.id.clone(),
            players,
            max_rounds: self.config.max_rounds,
        }
    }

    /// The event that tells the participants that `player_id` has left.
    pub fn notify_player_left(&self, player_id: &str) -> (message: ServerMessage)
        ensures
            message@ == (ServerEvent::PlayerLeft { player_id: player_id@ }),
    {
        ServerMessage::PlayerLeft { player_id: player_id.to_owned() }
    }

    /// The identifiers of those who receive what the session broadcasts:
    /// every participant, in joining order.
    pub fn broadcast_to_all(&self) -> (recipients: Vec<String>)
        ensures
            recipients.deep_view() == self@.players,
    {
        let mut recipients: Vec<String> = Vec::new();
        let mut i: usize = 0;
        while i < self.players.len()
            invariant
                i <= self.players.len(),
                recipients@.len() == i,
                forall|j: int| 0 <= j < i ==> (#[trigger] recipients@[j])@ == self.players@[j].id@,
            decreases self.players.len() - i,
        {
            recipients.push(self.players[i].id.clone());
            i = i + 1;
        }
        assert(recipients.deep_view() =~= ids_of(self.players@));
        recipients
    }

    /// Works off a complete round: resolves it and then either ends the
    /// match or moves on to the next round. Gives the events for the
    /// participants in the order in which they are to be sent. Fails, and
    /// changes nothing, unless exactly two participants have a move each.
    pub fn process_round(&mut self) -> (result: Result<Vec<ServerMessage>, GameError>)
        requires
            old(self)@.inv(),
            old(self)@.scores_can_grow(),
        ensures
            match result {
                Ok(messages) => {
                    &&& old(self)@.can_resolve()
                    &&& final(self)@ == old(self)@.processed()
                    &&& events_of(messages@) == old(self)@.round_events()
                    &&& final(self)@.inv()
                },
                Err(e) => {
                    &&& !old(self)@.can_resolve()
                    &&& e == GameError::InvalidState
                    &&& *final(self) == *old(self)
                },
            },
    {
        let outcome = match self.resolve_round() {
            Ok(outcome) => outcome,
            Err(e) => {
                return Err(e);
            },
        };
        let mut messages: Vec<ServerMessage> = Vec::new();
        messages.push(
            ServerMessage::RoundResult {
                round: outcome.round,
                winner: outcome.winner,
                moves: outcome.moves,
                scores: outcome.scores,
            },
        );
        if self.should_end_game() {
            let closing = self.end_game();
            messages.push(closing);
        } else {
            let opening = self.next_round();
            messages.push(opening);
        }
        assert(events_of(messages@) =~= old(self)@.round_events());
        Ok(messages)
    }
}

} // verus!
