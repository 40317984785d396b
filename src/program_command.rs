use crate::bytes::{lemma_u32_round_trip, push_u32, read_u32, u32_at, u32_le_bytes, write_prefix};
use crate::result::TicTacToeError;
use vstd::prelude::*;

verus! {

/// Bytes taken by every encoded command: a 4-byte tag and 2 payload bytes.
pub const COMMAND_LEN: usize = 6;

/// What an instruction asks for.
#[derive(Clone, Copy, Debug, PartialEq, Eq, Structural)]
pub enum Command {
    /// Initialize a dashboard account.
    InitDashboard,
    /// Initialize a player account.
    InitPlayer,
    /// Initialize a game account.
    InitGame,
    /// Used by player X to advertise their game.
    Advertise,
    /// Player O wants to join.
    Join,
    /// Player X or O is still there.
    KeepAlive,
    /// Player X or O marks board position (x, y).
    Move(u8, u8),
}

/// The tag of a command: its position in the declaration.
pub open spec fn command_tag(c: Command) -> u32 {
    match c {
        Command::InitDashboard => 0,
        Command::InitPlayer => 1,
        Command::InitGame => 2,
        Command::Advertise => 3,
        Command::Join => 4,
        Command::KeepAlive => 5,
        Command::Move(_, _) => 6,
    }
}

/// The encoding of a command: its tag, little-endian, then `x` and `y` for a
/// move and two zero bytes otherwise.
pub open spec fn command_encoding(c: Command) -> Seq<u8> {
    u32_le_bytes(command_tag(c)) + match c {
        Command::Move(x, y) => seq![x, y],
        _ => seq![0u8, 0u8],
    }
}

/// The command held by the first `COMMAND_LEN` bytes of `b`.
pub open spec fn command_decoding(b: Seq<u8>) -> Result<Command, TicTacToeError> {
    if b.len() < COMMAND_LEN {
        Err(TicTacToeError::DecodingFailed)
    } else {
        let tag = u32_at(b, 0);
        if tag == 0 {
            Ok(Command::InitDashboard)
        } else if tag == 1 {
            Ok(Command::InitPlayer)
        } else if tag == 2 {
            Ok(Command::InitGame)
        } else if tag == 3 {
            Ok(Command::Advertise)
        } else if tag == 4 {
            Ok(Command::Join)
        } else if tag == 5 {
            Ok(Command::KeepAlive)
        } else if tag == 6 {
            Ok(Command::Move(b[4], b[5]))
        } else {
            Err(TicTacToeError::DecodingFailed)
        }
    }
}

/// Decoding what was encoded, whatever follows it, gives the command back.
pub proof fn lemma_command_round_trip(c: Command, rest: Seq<u8>)
    ensures
        command_decoding(command_encoding(c) + rest) == Ok::<Command, TicTacToeError>(c),
{
    let b = command_encoding(c) + rest;
    lemma_u32_round_trip(command_tag(c));
    assert(u32_at(b, 0) == u32_at(u32_le_bytes(command_tag(c)), 0));
}

impl Command {
    /// Writes the command over the first `COMMAND_LEN` bytes of `output`.
    pub fn serialize(&self, output: &mut [u8]) -> (r: Result<(), TicTacToeError>)
        ensures
            old(output)@.len() < COMMAND_LEN ==> r == Err::<(), _>(TicTacToeError::DecodingFailed)
                && final(output)@ == old(output)@,
            old(output)@.len() >= COMMAND_LEN ==> r is Ok && final(output)@ == command_encoding(
                *self,
            ) + old(output)@.subrange(COMMAND_LEN as int, old(output)@.len() as int),
    {
        if output.len() < COMMAND_LEN {
            return Err(TicTacToeError::DecodingFailed);
        }
        let mut enc: Vec<u8> = Vec::new();
        let (tag, x, y): (u32, u8, u8) = match self {
            Command::InitDashboard => (0, 0, 0),
            Command::InitPlayer => (1, 0, 0),
            Command::InitGame => (2, 0, 0),
            Command::Advertise => (3, 0, 0),
            Command::Join => (4, 0, 0),
            Command::KeepAlive => (5, 0, 0),
            Command::Move(x, y) => (6, *x, *y),
        };
        push_u32(&mut enc, tag);
        enc.push(x);
        enc.push(y);
        assert(enc@ =~= command_encoding(*self));
        write_prefix(output, &enc);
        Ok(())
    }

    /// Reads the command held by the first `COMMAND_LEN` bytes of `input`.
    pub fn deserialize(input: &[u8]) -> (r: Result<Command, TicTacToeError>)
        ensures
            r == command_decoding(input@),
    {
        if input.len() < COMMAND_LEN {
            return Err(TicTacToeError::DecodingFailed);
        }
        let tag = read_u32(input, 0);
        if tag == 0 {
            Ok(Command::InitDashboard)
        } else if tag == 1 {
            Ok(Command::InitPlayer)
        } else if tag == 2 {
            Ok(Command::InitGame)
        } else if tag == 3 {
            Ok(Command::Advertise)
        } else if tag == 4 {
            Ok(Command::Join)
        } else if tag == 5 {
            Ok(Command::KeepAlive)
        } else if tag == 6 {
            Ok(Command::Move(input[4], input[5]))
        } else {
            Err(TicTacToeError::DecodingFailed)
        }
    }
}

} // verus!
