//! The two players, the empty marker, and the ways a move can be refused.

use vstd::prelude::*;

verus! {

/// Who owns a cell, whose turn it is, or who has won.
///
/// `Nobody` marks an empty cell and the absence of a winner. The variants
/// stand in the order of their numeric codes: `Nobody` is 0, `One` is 1 and
/// `Two` is 2.
#[derive(Clone, Copy, Debug, PartialEq, Eq, Structural)]
pub enum Player {
    Nobody,
    One,
    Two,
}

impl Player {
    /// The player that a numeric code stands for: 1 is `One`, 2 is `Two`,
    /// and every other number is `Nobody`.
    pub open spec fn of_code(code: int) -> Player {
        if code == 1 {
            Player::One
        } else if code == 2 {
            Player::Two
        } else {
            Player::Nobody
        }
    }

    /// The numeric code of a player: 0 for `Nobody`, 1 for `One`, 2 for `Two`.
    pub open spec fn code(self) -> int {
        match self {
            Player::Nobody => 0,
            Player::One => 1,
            Player::Two => 2,
        }
    }

    /// The player whose turn follows this one's. `Nobody` is followed by `One`.
    pub open spec fn opponent(self) -> Player {
        match self {
            Player::One => Player::Two,
            _ => Player::One,
        }
    }

    /// Decodes a numeric code into a player.
    pub fn from_int(code: u8) -> (player: Player)
        ensures
            player == Player::of_code(code as int),
    {
        match code {
            1 => Player::One,
            2 => Player::Two,
            _ => Player::Nobody,
        }
    }

    /// Encodes a player as its numeric code, the number that a cast of the
    /// player to `u8` gives and that `from_int` decodes again.
    pub fn to_int(self) -> (code: u8)
        ensures
            code == self.code(),
            code == self as u8,
            Player::of_code(code as int) == self,
    {
        match self {
            Player::Nobody => 0,
            Player::One => 1,
            Player::Two => 2,
        }
    }

    /// Decoding the code of a player gives the player back, the code is what
    /// a cast of the player to `u8` gives, and the code of what a number
    /// decodes to is that number whenever it is 0, 1 or 2.
    pub proof fn lemma_code_round_trip(self, number: int)
        ensures
            Player::of_code(self.code()) == self,
            Player::of_code(self as u8 as int) == self,
            self as u8 == self.code(),
            0 <= self.code() <= 2,
            0 <= number <= 2 ==> Player::of_code(number).code() == number,
    {
    }
}

/// Why a move was refused. A refused move never changes the game.
#[derive(Clone, Copy, Debug, PartialEq, Eq, Structural)]
pub enum MoveError {
    /// The game has already ended.
    GameFinished,
    /// The column index is not on the board.
    InvalidColumn,
    /// The column has no empty cell left.
    ColumnFull,
}

impl MoveError {
    /// The fixed text shown to a player for each refusal.
    pub open spec fn message_text(self) -> Seq<char> {
        match self {
            MoveError::ColumnFull => "Column is full"@,
            MoveError::InvalidColumn => "Column must be between 1 and 7"@,
            MoveError::GameFinished => "Game is already finished "@,
        }
    }

    /// The human-readable message for this refusal.
    pub fn message(&self) -> (text: &'static str)
        ensures
            text@ == self.message_text(),
    {
        match self {
            MoveError::ColumnFull => "Column is full",
            MoveError::InvalidColumn => "Column must be between 1 and 7",
            MoveError::GameFinished => "Game is already finished ",
        }
    }
}

} // verus!
