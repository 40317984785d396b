//! A two-player tic-tac-toe state machine with a registry of recently
//! completed games, driven by fixed-width encoded commands against a set of
//! caller-supplied accounts.

pub mod bytes;
pub mod dashboard;
pub mod game;
pub mod processor;
pub mod program_command;
pub mod program_state;
pub mod pubkey;
pub mod result;

pub use dashboard::Dashboard;
pub use game::{BoardItem, Game, GameState};
pub use processor::{fund_to_cover_rent, process_instruction, AccountInfo};
pub use program_command::{Command, COMMAND_LEN};
pub use program_state::{State, STATE_LEN};
pub use pubkey::Pubkey;
pub use result::TicTacToeError;
