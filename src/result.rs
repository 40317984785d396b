use vstd::prelude::*;

verus! {

/// Every way an instruction can fail. Any error aborts the whole instruction.
#[derive(Clone, Copy, Debug, PartialEq, Eq, Structural)]
pub enum TicTacToeError {
    /// A buffer is too small, or holds a malformed tag or field.
    DecodingFailed,
    /// Wrong number of accounts, a wrong owning authority, a non-empty account
    /// that must be empty, or an account state of the wrong kind.
    InvalidAccountSetup,
    /// The first account did not sign the instruction.
    MissingAuthorization,
    /// The game was already joined.
    GameInProgress,
    /// The target cell is off the board or already marked.
    InvalidMove,
    /// A liveness counter did not move forward.
    InvalidTimestamp,
    /// The game does not accept moves in its current state.
    NotYourTurn,
    /// The caller is not the player whose action this is.
    PlayerNotFound,
    /// The dashboard cannot fund an account.
    InsufficientBalance,
}

/// The numeric code of an error, its position in the declaration.
pub open spec fn error_code(e: TicTacToeError) -> u32 {
    match e {
        TicTacToeError::DecodingFailed => 0,
        TicTacToeError::InvalidAccountSetup => 1,
        TicTacToeError::MissingAuthorization => 2,
        TicTacToeError::GameInProgress => 3,
        TicTacToeError::InvalidMove => 4,
        TicTacToeError::InvalidTimestamp => 5,
        TicTacToeError::NotYourTurn => 6,
        TicTacToeError::PlayerNotFound => 7,
        TicTacToeError::InsufficientBalance => 8,
    }
}

/// The log line that goes with an error.
pub open spec fn error_message(e: TicTacToeError) -> &'static str {
    match e {
        TicTacToeError::DecodingFailed => "Error: decoding failed",
        TicTacToeError::InvalidAccountSetup => "Error: invalid account setup",
        TicTacToeError::MissingAuthorization => "Error: missing authorization",
        TicTacToeError::GameInProgress => "Error: game in progress",
        TicTacToeError::InvalidMove => "Error: invalid move",
        TicTacToeError::InvalidTimestamp => "Error: invalid timestamp",
        TicTacToeError::NotYourTurn => "Error: not your turn",
        TicTacToeError::PlayerNotFound => "Error: player not found",
        TicTacToeError::InsufficientBalance => "Error: insufficient balance",
    }
}

impl TicTacToeError {
    /// The code reported to the host for this error.
    pub fn code(&self) -> (r: u32)
        ensures
            r == error_code(*self),
    {
        match self {
            TicTacToeError::DecodingFailed => 0,
            TicTacToeError::InvalidAccountSetup => 1,
            TicTacToeError::MissingAuthorization => 2,
            TicTacToeError::GameInProgress => 3,
            TicTacToeError::InvalidMove => 4,
            TicTacToeError::InvalidTimestamp => 5,
            TicTacToeError::NotYourTurn => 6,
            TicTacToeError::PlayerNotFound => 7,
            TicTacToeError::InsufficientBalance => 8,
        }
    }

    /// A human-readable line describing this error.
    pub fn message(&self) -> (r: &'static str)
        ensures
            r == error_message(*self),
    {
        match self {
            TicTacToeError::DecodingFailed => "Error: decoding failed",
            TicTacToeError::InvalidAccountSetup => "Error: invalid account setup",
            TicTacToeError::MissingAuthorization => "Error: missing authorization",
            TicTacToeError::GameInProgress => "Error: game in progress",
            TicTacToeError::InvalidMove => "Error: invalid move",
            TicTacToeError::InvalidTimestamp => "Error: invalid timestamp",
            TicTacToeError::NotYourTurn => "Error: not your turn",
            TicTacToeError::PlayerNotFound => "Error: player not found",
            TicTacToeError::InsufficientBalance => "Error: insufficient balance",
        }
    }
}

} // verus!
