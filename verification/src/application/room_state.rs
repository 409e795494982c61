//! The session as a mathematical state machine: its state, its transitions
//! and what holds of every reachable state.

use vstd::prelude::*;

use crate::domain::game::{
    GameChoice, GameConfig, GameStatus, PlayerMove, RoundOutcome, WIN_THRESHOLD,
};
use crate::domain::messages::ServerEvent;

verus! {

/// Mathematical value of a session.
pub struct RoomState {
    pub id: Seq<char>,
    /// The participants, in the order in which they joined.
    pub players: Seq<Seq<char>>,
    pub current_round: u32,
    pub config: GameConfig,
    /// Cumulative score of each participant.
    pub scores: Map<Seq<char>, u32>,
    /// The moves of the current round only.
    pub moves: Map<Seq<char>, PlayerMove>,
    pub status: GameStatus,
}

impl RoomState {
    /// A session as it is created: nobody in it, first round, waiting.
    pub open spec fn created(id: Seq<char>, config: GameConfig) -> RoomState {
        RoomState {
            id,
            players: Seq::empty(),
            current_round: 1,
            config,
            scores: Map::empty(),
            moves: Map::empty(),
            status: GameStatus::Waiting,
        }
    }

    /// What holds of every session that was created and then changed through
    /// its own operations only.
    pub open spec fn inv(self) -> bool {
        &&& self.players.len() <= self.config.max_players
        &&& self.status == GameStatus::Playing ==> self.players.len() >= self.config.min_players
        &&& forall|p: Seq<char>|
            #![trigger self.scores.contains_key(p)]
            #![trigger self.players.contains(p)]
            self.scores.contains_key(p) <==> self.players.contains(p)
        &&& forall|p: Seq<char>| #[trigger] self.moves.contains_key(p) ==> self.players.contains(p)
    }

    /// No participant's score is at the largest number the counter can hold.
    pub open spec fn scores_can_grow(self) -> bool {
        forall|p: Seq<char>| self.scores.contains_key(p) ==> self.scores[p] < u32::MAX
    }

    pub open spec fn is_full(self) -> bool {
        self.players.len() >= self.config.max_players
    }

    /// The session after `player` asked to join it. A full session stays as
    /// it is. A waiting session starts playing when the joiner brings it to
    /// the configured minimum; a finished one stays finished.
    pub open spec fn joined(self, player: Seq<char>) -> RoomState {
        if self.is_full() {
            self
        } else {
            RoomState {
                players: self.players.push(player),
                scores: self.scores.insert(player, 0),
                status: if self.status == GameStatus::Waiting && self.players.len() + 1
                    >= self.config.min_players {
                    GameStatus::Playing
                } else {
                    self.status
                },
                ..self
            }
        }
    }

    /// A move by `player` is taken only while playing, and only from a
    /// participant.
    pub open spec fn accepts_move(self, player: Seq<char>) -> bool {
        self.status == GameStatus::Playing && self.players.contains(player)
    }

    /// The session after `player` submitted `mv`: the last move of a
    /// participant replaces an earlier one; a move that is not accepted
    /// changes nothing.
    pub open spec fn recorded(self, player: Seq<char>, mv: PlayerMove) -> RoomState {
        if self.accepts_move(player) {
            RoomState { moves: self.moves.insert(player, mv), ..self }
        } else {
            self
        }
    }

    /// Every participant has a move on record for the current round.
    pub open spec fn all_moved(self) -> bool {
        forall|i: int| 0 <= i < self.players.len() ==> self.moves.contains_key(#[trigger] self.players[i])
    }

    /// A round can be resolved between exactly two participants with a move
    /// each.
    pub open spec fn can_resolve(self) -> bool {
        &&& self.players.len() == 2
        &&& self.moves.contains_key(self.players[0])
        &&& self.moves.contains_key(self.players[1])
    }

    /// Who wins the current round: the first participant, the second, or
    /// nobody.
    pub open spec fn round_winner(self) -> Option<Seq<char>> {
        let first = self.moves[self.players[0]].choice;
        let second = self.moves[self.players[1]].choice;
        if first == second {
            None
        } else if first.beats_spec(&second) {
            Some(self.players[0])
        } else {
            Some(self.players[1])
        }
    }

    /// The scores once the current round is counted: one point more for the
    /// winner, nothing for anybody in a draw.
    pub open spec fn scores_after_round(self) -> Map<Seq<char>, u32> {
        match self.round_winner() {
            Some(winner) => self.scores.insert(winner, (self.scores[winner] + 1) as u32),
            None => self.scores,
        }
    }

    /// The recorded symbol of each participant, in joining order.
    pub open spec fn move_entries(self) -> Seq<(Seq<char>, GameChoice)> {
        Seq::new(self.players.len(), |i: int| (self.players[i], self.moves[self.players[i]].choice))
    }

    /// The score of each participant, in joining order.
    pub open spec fn score_entries(self) -> Seq<(Seq<char>, u32)> {
        Seq::new(self.players.len(), |i: int| (self.players[i], self.scores[self.players[i]]))
    }

    /// What is reported of the current round: its number, its winner, the
    /// moves made, and the scores with the round counted.
    pub open spec fn round_outcome(self) -> RoundOutcome {
        RoundOutcome {
            round: self.current_round,
            winner: self.round_winner(),
            moves: self.move_entries(),
            scores: self.resolved().score_entries(),
        }
    }

    /// The session after the current round was resolved: the round is
    /// counted and its moves are gone. Round number and status stay.
    pub open spec fn resolved(self) -> RoomState {
        RoomState { scores: self.scores_after_round(), moves: Map::empty(), ..self }
    }

    /// The match is over: somebody has reached the winning score, or the
    /// last configured round has been reached.
    pub open spec fn should_end(self) -> bool {
        ||| exists|p: Seq<char>| self.scores.contains_key(p) && #[trigger] self.scores[p] >= WIN_THRESHOLD
        ||| self.current_round >= self.config.max_rounds
    }

    /// The session at the start of the next round.
    pub open spec fn advanced(self) -> RoomState {
        RoomState { current_round: (self.current_round + 1) as u32, moves: Map::empty(), ..self }
    }

    pub open spec fn finished(self) -> RoomState {
        RoomState { status: GameStatus::Finished, ..self }
    }

    /// `player` has a score, and everybody else has a strictly smaller one.
    pub open spec fn is_sole_leader(self, player: Seq<char>) -> bool {
        &&& self.scores.contains_key(player)
        &&& forall|p: Seq<char>| self.scores.contains_key(p) && p != player ==> self.scores[p] < self.scores[player]
    }

    /// The winner of the match: the one participant with the highest score.
    /// Where the highest score is shared, or nobody has a score, there is
    /// none.
    pub open spec fn final_winner(self) -> Option<Seq<char>> {
        if exists|p: Seq<char>| self.is_sole_leader(p) {
            Some(choose|p: Seq<char>| self.is_sole_leader(p))
        } else {
            None
        }
    }

    /// The session after a complete round was worked off: resolved, and
    /// then either finished or advanced to the next round.
    pub open spec fn processed(self) -> RoomState {
        if self.resolved().should_end() {
            self.resolved().finished()
        } else {
            self.resolved().advanced()
        }
    }

    /// The event that reports the current round's outcome.
    pub open spec fn round_result_event(self) -> ServerEvent {
        ServerEvent::RoundResult {
            round: self.round_outcome().round,
            winner: self.round_outcome().winner,
            moves: self.round_outcome().moves,
            scores: self.round_outcome().scores,
        }
    }

    /// The event that closes the match.
    pub open spec fn game_end_event(self) -> ServerEvent {
        ServerEvent::GameEnd { winner: self.final_winner(), final_scores: self.score_entries() }
    }

    pub open spec fn next_round_event(self) -> ServerEvent {
        ServerEvent::NextRound { round: self.current_round }
    }

    pub open spec fn game_start_event(self) -> ServerEvent {
        ServerEvent::GameStart {
            room_id: self.id,
            players: self.players,
            max_rounds: self.config.max_rounds,
        }
    }

    /// The events that a complete round sends to every participant, in
    /// order: the outcome, then either the end of the match or the next
    /// round.
    pub open spec fn round_events(self) -> Seq<ServerEvent> {
        if self.resolved().should_end() {
            seq![self.round_result_event(), self.resolved().game_end_event()]
        } else {
            seq![self.round_result_event(), self.processed().next_round_event()]
        }
    }
}

/// At most one participant is the sole leader.
pub proof fn lemma_sole_leader_is_unique(s: RoomState, a: Seq<char>, b: Seq<char>)
    requires
        s.is_sole_leader(a),
        s.is_sole_leader(b),
    ensures
        a == b,
{
}

/// The final winner is the sole leader where there is one.
pub proof fn lemma_final_winner(s: RoomState, p: Seq<char>)
    ensures
        s.is_sole_leader(p) ==> s.final_winner() == Some(p),
        s.final_winner() == Some(p) ==> s.is_sole_leader(p),
        s.final_winner().is_none() <==> forall|q: Seq<char>| !s.is_sole_leader(q),
{
    if s.is_sole_leader(p) {
        let q = choose|q: Seq<char>| s.is_sole_leader(q);
        lemma_sole_leader_is_unique(s, p, q);
    }
}

/// A new session is valid, waits, and is in its first round.
pub proof fn lemma_created_is_valid(id: Seq<char>, config: GameConfig)
    ensures
        RoomState::created(id, config).inv(),
        RoomState::created(id, config).status == GameStatus::Waiting,
        RoomState::created(id, config).current_round == 1,
{
}

/// Joining keeps a session valid, so a session is never playing with fewer
/// participants than the configured minimum and never holds more than the
/// configured maximum; and a full session turns every joiner away.
pub proof fn lemma_join_keeps_session_valid(s: RoomState, player: Seq<char>)
    requires
        s.inv(),
    ensures
        s.joined(player).inv(),
        s.joined(player).status == GameStatus::Playing ==> s.joined(player).players.len()
            >= s.config.min_players,
        s.joined(player).players.len() <= s.config.max_players,
        s.is_full() ==> s.joined(player) == s,
{
    let t = s.joined(player);
    if !s.is_full() {
        assert forall|p: Seq<char>| t.scores.contains_key(p) <==> t.players.contains(p) by {
            if t.players.contains(p) {
                let i = choose|i: int| 0 <= i < t.players.len() && t.players[i] == p;
                if i < s.players.len() {
                    assert(s.players[i] == p);
                }
            }
            if s.players.contains(p) {
                let i = choose|i: int| 0 <= i < s.players.len() && s.players[i] == p;
                assert(t.players[i] == p);
            }
            assert(t.players[s.players.len() as int] == player);
        }
        assert forall|p: Seq<char>| t.moves.contains_key(p) implies t.players.contains(p) by {
            assert(s.moves.contains_key(p));
            let i = choose|i: int| 0 <= i < s.players.len() && s.players[i] == p;
            assert(t.players[i] == p);
        }
    }
}

/// Recording a move, resolving a round, advancing and finishing each keep a
/// session valid.
pub proof fn lemma_round_steps_keep_session_valid(s: RoomState, player: Seq<char>, mv: PlayerMove)
    requires
        s.inv(),
    ensures
        s.recorded(player, mv).inv(),
        s.can_resolve() ==> s.resolved().inv(),
        s.can_resolve() ==> s.processed().inv(),
        s.advanced().inv(),
        s.finished().inv(),
{
    if s.can_resolve() {
        assert(s.players.contains(s.players[0]));
        assert(s.players.contains(s.players[1]));
    }
}

/// A valid session has a score for exactly its participants, and never more
/// moves on record than it has participants.
pub proof fn lemma_scores_and_moves_belong_to_participants(s: RoomState)
    requires
        s.inv(),
    ensures
        s.scores.dom() == s.players.to_set(),
        s.moves.dom().subset_of(s.players.to_set()),
        s.moves.dom().finite(),
        s.moves.dom().len() <= s.players.len(),
        s.scores.dom().len() <= s.players.len(),
{
    let participants = s.players.to_set();
    assert(s.scores.dom() =~= participants);
    assert forall|p: Seq<char>| s.moves.dom().contains(p) implies participants.contains(p) by {
        assert(s.moves.contains_key(p));
    }
    vstd::seq_lib::seq_to_set_is_finite(s.players);
    s.players.lemma_cardinality_of_set();
    vstd::set_lib::lemma_len_subset(s.moves.dom(), participants);
}

/// Resolving a round leaves no move behind and does not touch the round
/// counter; advancing adds exactly one to the counter and leaves no move
/// behind either.
pub proof fn lemma_moves_and_round_counter(s: RoomState)
    ensures
        s.resolved().moves == Map::<Seq<char>, PlayerMove>::empty(),
        s.resolved().current_round == s.current_round,
        s.current_round < u32::MAX ==> s.advanced().current_round == s.current_round + 1,
        s.advanced().moves == Map::<Seq<char>, PlayerMove>::empty(),
        s.resolved().advanced().moves == Map::<Seq<char>, PlayerMove>::empty(),
{
}

/// A round that is worked off finishes the match exactly when, with the
/// round counted, a participant has reached the winning score or the round
/// counter has reached the configured maximum; otherwise the match goes on
/// in the next round.
pub proof fn lemma_match_ends_exactly_when_due(s: RoomState)
    requires
        s.status == GameStatus::Playing,
    ensures
        s.processed().status == GameStatus::Finished <==> s.resolved().should_end(),
        s.processed().status == GameStatus::Finished <==> {
            ||| exists|p: Seq<char>| s.resolved().scores.contains_key(p) && #[trigger] s.resolved().scores[p] >= WIN_THRESHOLD
            ||| s.current_round >= s.config.max_rounds
        },
        !s.resolved().should_end() ==> s.processed().status == GameStatus::Playing
            && s.processed().current_round == s.current_round + 1,
{
}

/// The status only moves forward: a finished session stays finished
/// whatever is done to it and takes no more moves, and a session that plays
/// never goes back to waiting.
pub proof fn lemma_status_moves_forward(s: RoomState, player: Seq<char>, mv: PlayerMove)
    ensures
        s.status == GameStatus::Finished ==> {
            &&& s.joined(player).status == GameStatus::Finished
            &&& s.recorded(player, mv) == s
            &&& s.resolved().status == GameStatus::Finished
            &&& s.advanced().status == GameStatus::Finished
            &&& s.processed().status == GameStatus::Finished
            &&& s.finished().status == GameStatus::Finished
        },
        s.status != GameStatus::Waiting ==> {
            &&& s.joined(player).status != GameStatus::Waiting
            &&& s.recorded(player, mv).status != GameStatus::Waiting
            &&& s.resolved().status != GameStatus::Waiting
            &&& s.advanced().status != GameStatus::Waiting
            &&& s.processed().status != GameStatus::Waiting
        },
        s.status == GameStatus::Waiting ==> s.recorded(player, mv) == s,
{
}

/// In a drawn round nobody's score moves; otherwise the winner's score, and
/// only the winner's, goes up by one.
pub proof fn lemma_round_scoring(s: RoomState, p: Seq<char>)
    requires
        s.can_resolve(),
        s.inv(),
        s.scores_can_grow(),
        s.scores.contains_key(p),
    ensures
        s.round_winner() == Some(p) ==> s.resolved().scores[p] == s.scores[p] + 1,
        s.round_winner() != Some(p) ==> s.resolved().scores[p] == s.scores[p],
        s.round_winner().is_none() <==> s.moves[s.players[0]].choice == s.moves[s.players[1]].choice,
{
    assert(s.players.contains(s.players[0]));
    assert(s.players.contains(s.players[1]));
}

} // verus!
