//! The two sides of a game.

use vstd::prelude::*;

verus! {

/// A side of a game.
#[derive(PartialEq, Eq, Hash, Copy, Clone, Debug, Structural)]
pub enum Player {
    White,
    Black,
}

/// A name that is neither `white` nor `black`, in any letter case.
#[derive(PartialEq, Eq, Debug, Copy, Clone)]
pub struct PlayerNameError;

/// The text `s` in lower case, as `str::to_lowercase` of std gives it.
pub uninterp spec fn lowercase_text(s: Seq<char>) -> Seq<char>;

/// `str::to_lowercase` of std. The result is a function of the text alone;
/// the contract gives it a name and says no more of it.
#[verifier::external_body]
fn to_lowercase(s: &str) -> (lower: String)
    ensures
        lower@ == lowercase_text(s@),
{
    s.to_lowercase()
}

impl Player {
    /// The opponent of a side.
    pub open spec fn spec_other_player(self) -> Player {
        match self {
            Player::Black => Player::White,
            Player::White => Player::Black,
        }
    }

    /// The side that a name in lower case names.
    pub open spec fn spec_from_lowercase(name: Seq<char>) -> Option<Player> {
        if name == "black"@ {
            Some(Player::Black)
        } else if name == "white"@ {
            Some(Player::White)
        } else {
            None
        }
    }

    /// The name of a side.
    pub open spec fn spec_name(self) -> Seq<char> {
        match self {
            Player::White => "White"@,
            Player::Black => "Black"@,
        }
    }

    /// The opponent of this side.
    pub fn other_player(&self) -> (other: Self)
        ensures
            other == self.spec_other_player(),
    {
        match self {
            Player::Black => Player::White,
            Player::White => Player::Black,
        }
    }

    /// The name of this side: `White` or `Black`.
    pub fn name(&self) -> (name: &'static str)
        ensures
            name@ == self.spec_name(),
    {
        match self {
            Player::White => "White",
            Player::Black => "Black",
        }
    }

    /// The side that a name in lower case names: `black` or `white`.
    pub fn from_lowercase(name: &str) -> (r: Result<Player, PlayerNameError>)
        ensures
            match Player::spec_from_lowercase(name@) {
                Some(player) => r == Ok::<Player, PlayerNameError>(player),
                None => r is Err,
            },
    {
        let given = name.to_owned();
        if given == "black".to_owned() {
            Ok(Player::Black)
        } else if given == "white".to_owned() {
            Ok(Player::White)
        } else {
            Err(PlayerNameError)
        }
    }

    /// The side that a name names, whatever its letter case.
    pub fn from_name(name: &str) -> (r: Result<Player, PlayerNameError>)
        ensures
            match Player::spec_from_lowercase(lowercase_text(name@)) {
                Some(player) => r == Ok::<Player, PlayerNameError>(player),
                None => r is Err,
            },
    {
        let lower = to_lowercase(name);
        Player::from_lowercase(lower.as_str())
    }
}

/// The opponent of the opponent of a side is the side itself, and no side
/// is its own opponent.
pub proof fn lemma_other_player_is_involution(player: Player)
    ensures
        player.spec_other_player().spec_other_player() == player,
        player.spec_other_player() != player,
{
}

} // verus!
