use vstd::prelude::*;

verus! {

/// One of the three symbols a participant can play.
#[derive(Debug, Clone, Copy, PartialEq, Eq, Structural)]
pub enum GameChoice {
    Rock,
    Paper,
    Scissors,
}

/// What two simultaneous moves amount to.
#[derive(Debug, Clone, Copy, PartialEq, Eq, Structural)]
pub enum RoundVerdict {
    FirstWins,
    SecondWins,
    Draw,
}

impl GameChoice {
    /// The cyclic beats-relation: rock blunts scissors, paper wraps rock,
    /// scissors cut paper.
    pub open spec fn beats_spec(&self, other: &GameChoice) -> bool {
        ||| (*self == GameChoice::Rock && *other == GameChoice::Scissors)
        ||| (*self == GameChoice::Paper && *other == GameChoice::Rock)
        ||| (*self == GameChoice::Scissors && *other == GameChoice::Paper)
    }

    #[verifier::when_used_as_spec(beats_spec)]
    pub fn beats(&self, other: &GameChoice) -> (b: bool)
        ensures
            b == self.beats_spec(other),
    {
        match (self, other) {
            (GameChoice::Rock, GameChoice::Scissors) => true,
            (GameChoice::Paper, GameChoice::Rock) => true,
            (GameChoice::Scissors, GameChoice::Paper) => true,
            _ => false,
        }
    }
}

/// The verdict on two simultaneous moves, as a mathematical function.
pub open spec fn verdict(a: GameChoice, b: GameChoice) -> RoundVerdict {
    if a == b {
        RoundVerdict::Draw
    } else if a.beats_spec(&b) {
        RoundVerdict::FirstWins
    } else {
        RoundVerdict::SecondWins
    }
}

/// Decides a round between two simultaneous moves. Total and pure.
pub fn resolve(a: GameChoice, b: GameChoice) -> (v: RoundVerdict)
    ensures
        v == verdict(a, b),
{
    if a == b {
        RoundVerdict::Draw
    } else if a.beats(&b) {
        RoundVerdict::FirstWins
    } else {
        RoundVerdict::SecondWins
    }
}

/// The beats-relation is antisymmetric and irreflexive: of two moves at most
/// one beats the other, and equal moves never produce a winner.
pub proof fn lemma_beats_antisymmetric(a: GameChoice, b: GameChoice)
    ensures
        a.beats_spec(&b) ==> !b.beats_spec(&a),
        a == b ==> !a.beats_spec(&b) && verdict(a, b) == RoundVerdict::Draw,
        verdict(a, b) == RoundVerdict::FirstWins <==> verdict(b, a) == RoundVerdict::SecondWins,
        verdict(a, b) == RoundVerdict::Draw <==> a == b,
{
}

/// Different moves always have a winner: one of them beats the other.
pub proof fn lemma_beats_total_on_distinct(a: GameChoice, b: GameChoice)
    requires
        a != b,
    ensures
        a.beats_spec(&b) != b.beats_spec(&a),
{
}

/// Every symbol beats exactly one symbol and loses to exactly one other.
pub proof fn lemma_beats_is_a_cycle(a: GameChoice)
    ensures
        exists|b: GameChoice| #![auto] a.beats_spec(&b) && forall|c: GameChoice| a.beats_spec(&c) ==> c == b,
        exists|b: GameChoice| #![auto] b.beats_spec(&a) && forall|c: GameChoice| c.beats_spec(&a) ==> c == b,
{
    match a {
        GameChoice::Rock => {
            assert(a.beats_spec(&GameChoice::Scissors));
            assert(GameChoice::Paper.beats_spec(&a));
        },
        GameChoice::Paper => {
            assert(a.beats_spec(&GameChoice::Rock));
            assert(GameChoice::Scissors.beats_spec(&a));
        },
        GameChoice::Scissors => {
            assert(a.beats_spec(&GameChoice::Paper));
            assert(GameChoice::Rock.beats_spec(&a));
        },
    }
}

impl DeepView for GameChoice {
    type V = GameChoice;

    open spec fn deep_view(&self) -> GameChoice {
        *self
    }
}

/// Where a session stands in its lifecycle.
#[derive(Debug, Clone, Copy, PartialEq, Eq, Structural)]
pub enum GameStatus {
    Waiting,
    Playing,
    Finished,
}

/// A move as it was recorded: the symbol and the moment of capture, in
/// milliseconds since the Unix epoch. The moment is informational only; no
/// rule reads it.
#[derive(Debug, Clone, Copy, PartialEq, Eq, Structural)]
pub struct PlayerMove {
    pub choice: GameChoice,
    pub timestamp: i64,
}

/// The cumulative score at which a participant has won the match.
pub const WIN_THRESHOLD: u32 = 2;

/// Limits of a match, supplied from outside.
#[derive(Debug, Clone, Copy, PartialEq, Eq, Structural)]
pub struct GameConfig {
    pub max_rounds: u32,
    pub min_players: usize,
    pub max_players: usize,
}

impl GameConfig {
    /// A session under this configuration can hold a pair of participants
    /// and starts playing as soon as it does.
    pub open spec fn seats_a_pair(&self) -> bool {
        self.min_players <= 2 && 2 <= self.max_players
    }

    /// Tells whether two participants are enough to start a match and fit
    /// into one session.
    pub fn can_seat_a_pair(&self) -> (b: bool)
        ensures
            b == self.seats_a_pair(),
    {
        self.min_players <= 2 && 2 <= self.max_players
    }
}

impl Default for GameConfig {
    fn default() -> (config: Self)
        ensures
            config == (GameConfig { max_rounds: 3, min_players: 2, max_players: 2 }),
    {
        GameConfig { max_rounds: 3, min_players: 2, max_players: 2 }
    }
}

/// Why a session refused an operation.
#[derive(Debug, Clone, Copy, PartialEq, Eq, Structural)]
pub enum GameError {
    /// A round was to be resolved while the session did not hold exactly two
    /// participants with a recorded move each.
    InvalidState,
}

/// The outcome of one round, as reported to the participants.
#[derive(Debug, Clone, PartialEq, Eq)]
pub struct GameResult {
    pub round: u32,
    /// The winning participant, or `None` for a draw.
    pub winner: Option<String>,
    /// The move of each participant, in the order in which they joined.
    pub moves: Vec<(String, GameChoice)>,
    /// The score of each participant once the round is counted, in the order
    /// in which they joined.
    pub scores: Vec<(String, u32)>,
}

/// Mathematical value of a [`GameResult`].
pub struct RoundOutcome {
    pub round: u32,
    pub winner: Option<Seq<char>>,
    pub moves: Seq<(Seq<char>, GameChoice)>,
    pub scores: Seq<(Seq<char>, u32)>,
}

impl View for GameResult {
    type V = RoundOutcome;

    open spec fn view(&self) -> RoundOutcome {
        RoundOutcome {
            round: self.round,
            winner: self.winner.deep_view(),
            moves: self.moves.deep_view(),
            scores: self.scores.deep_view(),
        }
    }
}

} // verus!
