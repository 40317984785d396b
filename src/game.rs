use crate::bytes::{array_from_seq, lemma_array_from_seq};
use crate::pubkey::Pubkey;
use crate::result::TicTacToeError;
use vstd::prelude::*;

verus! {

/// Number of cells on the board.
pub const BOARD_LEN: usize = 9;

/// One cell of the board.
#[derive(Clone, Copy, Debug, PartialEq, Eq, Structural)]
pub enum BoardItem {
    Free,
    X,
    O,
}

/// Where a game stands.
#[derive(Clone, Copy, Debug, PartialEq, Eq, Structural)]
pub enum GameState {
    Waiting,
    XMove,
    OMove,
    XWon,
    OWon,
    Draw,
}

impl Default for GameState {
    fn default() -> (r: GameState)
        ensures
            r == GameState::Waiting,
    {
        GameState::Waiting
    }
}

impl GameState {
    /// No further move is accepted once a game is won or drawn.
    pub open spec fn is_terminal(self) -> bool {
        self == GameState::XWon || self == GameState::OWon || self == GameState::Draw
    }

    /// How far a game has come: waiting, in play, or over.
    pub open spec fn rank(self) -> nat {
        match self {
            GameState::Waiting => 0,
            GameState::XMove | GameState::OMove => 1,
            _ => 2,
        }
    }

    /// The edges of the game's transition graph, plus staying put.
    pub open spec fn may_become(self, next: GameState) -> bool {
        self == next || match self {
            GameState::Waiting => next == GameState::XMove,
            GameState::XMove => next == GameState::OMove || next == GameState::XWon || next
                == GameState::Draw,
            GameState::OMove => next == GameState::XMove || next == GameState::OWon || next
                == GameState::Draw,
            _ => false,
        }
    }
}

/// Along any run of calls on one game, where each call took the state from
/// `states[k]` to `states[k + 1]` as `join`, `next_move` and `keep_alive`
/// promise, the state never moves back: its rank never drops, so it never
/// returns to waiting or to a move once the game is over, and a won or drawn
/// game keeps its state for good.
pub proof fn lemma_state_only_advances(states: Seq<GameState>, i: int, j: int)
    requires
        forall|k: int| 0 <= k < states.len() - 1 ==> #[trigger] states[k].may_become(states[k + 1]),
        0 <= i <= j < states.len(),
    ensures
        states[i].rank() <= states[j].rank(),
        states[i].is_terminal() ==> states[j] == states[i],
    decreases j - i,
{
    if i < j {
        lemma_state_only_advances(states, i, j - 1);
        let k = j - 1;
        assert(states[k].may_become(states[k + 1]));
    }
}

/// A move that completes a line for the mover wins the game, even where it
/// also fills the board: the win is decided before the draw.
pub proof fn lemma_win_precedes_draw(g: Game, player: Pubkey, x: int, y: int)
    requires
        next_move_spec(g, player, x, y).0 is Ok,
        has_winning_line(next_move_spec(g, player, x, y).1.board@, mark_for(g.game_state)),
    ensures
        next_move_spec(g, player, x, y).1.game_state == (if g.game_state == GameState::XMove {
            GameState::XWon
        } else {
            GameState::OWon
        }),
        next_move_spec(g, player, x, y).1.game_state != GameState::Draw,
{
}

/// One game of tic-tac-toe between two identified players.
#[derive(Clone, Copy, Debug)]
pub struct Game {
    /// Last liveness counter seen from each player (X first, then O).
    pub keep_alive: [u64; 2],
    /// Current state of the game.
    pub game_state: GameState,
    /// Player who created the game.
    pub player_x: Pubkey,
    /// Player who joined the game; unset while waiting.
    pub player_o: Option<Pubkey>,
    /// The cells, row-major: the cell at column x and row y is at y * 3 + x.
    pub board: [BoardItem; 9],
}

/// The board cell that `(x, y)` names, or a number of 9 and more when there is none.
pub open spec fn move_index(x: int, y: int) -> int {
    y * 3 + x
}

/// All three cells `a`, `b`, `c` hold `mark`.
pub open spec fn line_held(board: Seq<BoardItem>, mark: BoardItem, a: int, b: int, c: int) -> bool {
    board[a] == mark && board[b] == mark && board[c] == mark
}

/// `mark` holds a row, a column or a diagonal.
pub open spec fn has_winning_line(board: Seq<BoardItem>, mark: BoardItem) -> bool {
    line_held(board, mark, 0, 1, 2) || line_held(board, mark, 3, 4, 5) || line_held(
        board,
        mark,
        6,
        7,
        8,
    ) || line_held(board, mark, 0, 3, 6) || line_held(board, mark, 1, 4, 7) || line_held(
        board,
        mark,
        2,
        5,
        8,
    ) || line_held(board, mark, 0, 4, 8) || line_held(board, mark, 2, 4, 6)
}

/// No cell is free.
pub open spec fn board_full(board: Seq<BoardItem>) -> bool {
    forall|i: int| 0 <= i < board.len() ==> board[i] != BoardItem::Free
}

/// The mark placed by the side whose turn `s` is.
pub open spec fn mark_for(s: GameState) -> BoardItem {
    if s == GameState::XMove {
        BoardItem::X
    } else {
        BoardItem::O
    }
}

/// The state after the side whose turn `s` was has marked a cell, leaving `board`:
/// a win if its mark holds a line, else a draw if the board is full, else the
/// other side's turn.
pub open spec fn state_after_move(s: GameState, board: Seq<BoardItem>) -> GameState {
    if has_winning_line(board, mark_for(s)) {
        if s == GameState::XMove {
            GameState::XWon
        } else {
            GameState::OWon
        }
    } else if board_full(board) {
        GameState::Draw
    } else if s == GameState::XMove {
        GameState::OMove
    } else {
        GameState::XMove
    }
}

/// `player` is the side whose turn it is in `g`.
pub open spec fn is_mover(g: Game, player: Pubkey) -> bool {
    (g.game_state == GameState::XMove && player == g.player_x) || (g.game_state
        == GameState::OMove && g.player_o == Some(player))
}

/// A freshly created game of `player_x`: waiting, with no opponent, an empty
/// board and both liveness counters at zero.
pub open spec fn new_game(player_x: Pubkey) -> Game {
    Game {
        keep_alive: array_from_seq(seq![0u64, 0u64]),
        game_state: GameState::Waiting,
        player_x,
        player_o: None,
        board: array_from_seq(Seq::new(9, |i: int| BoardItem::Free)),
    }
}

/// What `join` returns and leaves.
pub open spec fn join_spec(g: Game, player_o: Pubkey, timestamp: u64) -> (Result<(), TicTacToeError>, Game) {
    if g.game_state != GameState::Waiting {
        (Err(TicTacToeError::GameInProgress), g)
    } else {
        let joined = Game { player_o: Some(player_o), game_state: GameState::XMove, ..g };
        if timestamp <= g.keep_alive[1] {
            (Err(TicTacToeError::InvalidTimestamp), joined)
        } else {
            (
                Ok(()),
                Game {
                    keep_alive: vstd::array::spec_array_update(g.keep_alive, 1, timestamp),
                    ..joined
                },
            )
        }
    }
}

/// What `next_move` returns and leaves.
pub open spec fn next_move_spec(g: Game, player: Pubkey, x: int, y: int) -> (Result<(), TicTacToeError>, Game) {
    let i = move_index(x, y);
    if i >= 9 || g.board@[i] != BoardItem::Free {
        (Err(TicTacToeError::InvalidMove), g)
    } else if g.game_state != GameState::XMove && g.game_state != GameState::OMove {
        (Err(TicTacToeError::NotYourTurn), g)
    } else if !is_mover(g, player) {
        (Err(TicTacToeError::PlayerNotFound), g)
    } else {
        let board = vstd::array::spec_array_update(g.board, i, mark_for(g.game_state));
        (Ok(()), Game { board, game_state: state_after_move(g.game_state, board@), ..g })
    }
}

/// What `keep_alive` returns and leaves.
pub open spec fn keep_alive_spec(g: Game, player: Pubkey, timestamp: u64) -> (Result<(), TicTacToeError>, Game) {
    if g.game_state.is_terminal() {
        (Ok(()), g)
    } else {
        let side: int = if player == g.player_x {
            0
        } else if g.player_o == Some(player) {
            1
        } else {
            2
        };
        if side == 2 {
            (Err(TicTacToeError::PlayerNotFound), g)
        } else if timestamp <= g.keep_alive[side] {
            (Err(TicTacToeError::InvalidTimestamp), g)
        } else {
            (
                Ok(()),
                Game { keep_alive: vstd::array::spec_array_update(g.keep_alive, side, timestamp), ..g },
            )
        }
    }
}

impl Game {
    /// A game created by `player_x`, waiting for an opponent.
    pub fn create(player_x: &Pubkey) -> (r: Game)
        ensures
            r == new_game(*player_x),
            r.keep_alive@ == seq![0u64, 0u64],
            forall|i: int| 0 <= i < 9 ==> r.board@[i] == BoardItem::Free,
    {
        let r = Game {
            keep_alive: [0u64; 2],
            game_state: GameState::Waiting,
            player_x: *player_x,
            player_o: None,
            board: [BoardItem::Free; 9],
        };
        assert(r.keep_alive@ =~= seq![0u64, 0u64]);
        assert(r.board@ =~= Seq::new(9, |i: int| BoardItem::Free));
        proof {
            lemma_array_from_seq(r.keep_alive);
            lemma_array_from_seq(r.board);
        }
        r
    }

    /// A game of `player_x` that `player_o` has joined at time 1.
    pub fn new(player_x: Pubkey, player_o: Pubkey) -> (r: Game)
        ensures
            r.game_state == GameState::XMove,
            r.player_x == player_x,
            r.player_o == Some(player_o),
            r.keep_alive@ == seq![0u64, 1u64],
            forall|i: int| 0 <= i < 9 ==> r.board@[i] == BoardItem::Free,
    {
        let mut game = Game::create(&player_x);
        let _ = game.join(player_o, 1);
        assert(game.keep_alive@ =~= seq![0u64, 1u64]);
        game
    }

    /// Lets `player_o` join a waiting game, and records `timestamp` as their
    /// liveness counter. The join stands even where the counter is refused.
    pub fn join(&mut self, player_o: Pubkey, timestamp: u64) -> (r: Result<(), TicTacToeError>)
        ensures
            (r, *final(self)) == join_spec(*old(self), player_o, timestamp),
            old(self).game_state.may_become(final(self).game_state),
    {
        if self.game_state == GameState::Waiting {
            self.player_o = Some(player_o);
            self.game_state = GameState::XMove;
            if timestamp <= self.keep_alive[1] {
                Err(TicTacToeError::InvalidTimestamp)
            } else {
                self.keep_alive[1] = timestamp;
                Ok(())
            }
        } else {
            Err(TicTacToeError::GameInProgress)
        }
    }

    /// Whether all three cells hold `mark`.
    fn same(mark: BoardItem, a: BoardItem, b: BoardItem, c: BoardItem) -> (r: bool)
        ensures
            r == (a == mark && b == mark && c == mark),
    {
        a == mark && b == mark && c == mark
    }

    /// Whether `mark` holds a row, a column or a diagonal of the board.
    fn wins(&self, mark: BoardItem) -> (r: bool)
        ensures
            r == has_winning_line(self.board@, mark),
    {
        let b = &self.board;
        // rows
        Game::same(mark, b[0], b[1], b[2]) || Game::same(mark, b[3], b[4], b[5]) || Game::same(
            mark,
            b[6],
            b[7],
            b[8],
        )
        // columns
         || Game::same(mark, b[0], b[3], b[6]) || Game::same(mark, b[1], b[4], b[7])
            || Game::same(mark, b[2], b[5], b[8])
        // diagonals
         || Game::same(mark, b[0], b[4], b[8]) || Game::same(mark, b[2], b[4], b[6])
    }

    /// Whether no cell is free.
    fn is_full(&self) -> (r: bool)
        ensures
            r == board_full(self.board@),
    {
        let mut i: usize = 0;
        while i < BOARD_LEN
            invariant
                0 <= i <= BOARD_LEN,
                forall|j: int| 0 <= j < i ==> self.board@[j] != BoardItem::Free,
            decreases BOARD_LEN - i,
        {
            if self.board[i] == BoardItem::Free {
                return false;
            }
            i = i + 1;
        }
        true
    }

    /// `player` marks the cell at column `x`, row `y` for their side.
    pub fn next_move(&mut self, player: Pubkey, x: usize, y: usize) -> (r: Result<(), TicTacToeError>)
        ensures
            (r, *final(self)) == next_move_spec(*old(self), player, x as int, y as int),
            old(self).game_state.may_become(final(self).game_state),
    {
        if y >= 3 || x >= BOARD_LEN {
            return Err(TicTacToeError::InvalidMove);
        }
        let i = y * 3 + x;
        if i >= BOARD_LEN || self.board[i] != BoardItem::Free {
            return Err(TicTacToeError::InvalidMove);
        }
        proof { Pubkey::lemma_eq_iff_bytes(player, self.player_x); }
        let (mark, won_state) = match self.game_state {
            GameState::XMove => {
                if player != self.player_x {
                    return Err(TicTacToeError::PlayerNotFound);
                }
                (BoardItem::X, GameState::XWon)
            },
            GameState::OMove => {
                match self.player_o {
                    Some(o) => {
                        proof { Pubkey::lemma_eq_iff_bytes(player, o); }
                        if player != o {
                            return Err(TicTacToeError::PlayerNotFound);
                        }
                    },
                    None => {
                        return Err(TicTacToeError::PlayerNotFound);
                    },
                }
                (BoardItem::O, GameState::OWon)
            },
            _ => {
                return Err(TicTacToeError::NotYourTurn);
            },
        };
        let mover = self.game_state;
        self.board[i] = mark;
        if self.wins(mark) {
            self.game_state = won_state;
        } else if self.is_full() {
            self.game_state = GameState::Draw;
        } else if mover == GameState::XMove {
            self.game_state = GameState::OMove;
        } else {
            self.game_state = GameState::XMove;
        }
        Ok(())
    }

    /// Records `timestamp` as the liveness counter of `player`, which must move
    /// forward. A finished game accepts and ignores it.
    pub fn keep_alive(&mut self, player: Pubkey, timestamp: u64) -> (r: Result<(), TicTacToeError>)
        ensures
            (r, *final(self)) == keep_alive_spec(*old(self), player, timestamp),
            old(self).game_state.may_become(final(self).game_state),
    {
        match self.game_state {
            GameState::XWon | GameState::OWon | GameState::Draw => {
                return Ok(());
            },
            _ => {},
        }
        proof { Pubkey::lemma_eq_iff_bytes(player, self.player_x); }
        let side: usize = if player == self.player_x {
            0
        } else {
            match self.player_o {
                Some(o) => {
                    proof { Pubkey::lemma_eq_iff_bytes(player, o); }
                    if player == o {
                        1
                    } else {
                        return Err(TicTacToeError::PlayerNotFound);
                    }
                },
                None => {
                    return Err(TicTacToeError::PlayerNotFound);
                },
            }
        };
        if timestamp <= self.keep_alive[side] {
            return Err(TicTacToeError::InvalidTimestamp);
        }
        self.keep_alive[side] = timestamp;
        Ok(())
    }
}

} // verus!
