use vstd::prelude::*;

verus! {

/// What the engine knows of a participant: its identifier. The connection
/// that events are delivered on is held by the transport layer.
#[derive(Debug, Clone, PartialEq, Eq)]
pub struct PlayerInfo {
    pub id: String,
}

impl View for PlayerInfo {
    type V = Seq<char>;

    open spec fn view(&self) -> Seq<char> {
        self.id@
    }
}

impl DeepView for PlayerInfo {
    type V = Seq<char>;

    open spec fn deep_view(&self) -> Seq<char> {
        self.id@
    }
}

impl PlayerInfo {
    pub fn new(id: String) -> (player: Self)
        ensures
            player.id == id,
    {
        PlayerInfo { id }
    }

    /// A second handle on the same participant.
    pub fn duplicate(&self) -> (copy: Self)
        ensures
            copy == *self,
    {
        PlayerInfo { id: self.id.clone() }
    }
}

/// The identifiers of a list of participants, in order.
pub open spec fn ids_of(players: Seq<PlayerInfo>) -> Seq<Seq<char>> {
    Seq::new(players.len(), |i: int| players[i].id@)
}

/// Lifetime record of one participant.
#[derive(Debug, Clone, Copy, PartialEq, Eq, Structural)]
pub struct PlayerStats {
    pub wins: u32,
    pub losses: u32,
    pub draws: u32,
    pub total_games: u32,
}

impl Default for PlayerStats {
    fn default() -> (stats: Self)
        ensures
            stats == (PlayerStats { wins: 0, losses: 0, draws: 0, total_games: 0 }),
    {
        PlayerStats { wins: 0, losses: 0, draws: 0, total_games: 0 }
    }
}

} // verus!
