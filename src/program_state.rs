use crate::bytes::{
    array_from_seq, lemma_array_from_seq, lemma_u32_round_trip, lemma_u32_zero,
    lemma_u64_round_trip, push_u32, push_u64, push_zeros, read_u32, read_u64, u32_at,
    u32_le_bytes, u64_at, u64_le_bytes, write_prefix, zeros,
};
use crate::dashboard::{Dashboard, DashboardView, MAX_COMPLETED_GAMES, completed_wf};
use crate::game::{BoardItem, Game, GameState};
use crate::pubkey::{PUBKEY_LEN, Pubkey};
use crate::result::TicTacToeError;
use vstd::arithmetic::div_mod::lemma_fundamental_div_mod_converse;
use vstd::prelude::*;

verus! {

/// Bytes taken by an encoded game.
pub const GAME_LEN: usize = 91;

/// Bytes taken by an encoded dashboard.
pub const DASHBOARD_LEN: usize = 201;

/// Bytes taken by every encoded account state: a 4-byte tag, then the
/// largest variant.
pub const STATE_LEN: usize = 205;

/// What an account holds.
#[derive(Debug)]
pub enum State {
    /// The account was never written.
    Uninitialized,
    /// The account holds a dashboard.
    Dashboard(Dashboard),
    /// The account holds a game.
    Game(Game),
}

/// What an account state holds.
pub enum StateView {
    Uninitialized,
    Dashboard(DashboardView),
    Game(Game),
}

impl View for State {
    type V = StateView;

    open spec fn view(&self) -> StateView {
        match self {
            State::Uninitialized => StateView::Uninitialized,
            State::Dashboard(d) => StateView::Dashboard(d@),
            State::Game(g) => StateView::Game(*g),
        }
    }
}

/// The dashboard in a state, if any, keeps its invariant.
pub open spec fn state_view_wf(v: StateView) -> bool {
    match v {
        StateView::Dashboard(d) => completed_wf(d.completed),
        _ => true,
    }
}

impl State {
    pub open spec fn wf(&self) -> bool {
        state_view_wf(self@)
    }
}

/// The byte of a game state: its position in the declaration.
pub open spec fn game_state_byte(s: GameState) -> u8 {
    match s {
        GameState::Waiting => 0,
        GameState::XMove => 1,
        GameState::OMove => 2,
        GameState::XWon => 3,
        GameState::OWon => 4,
        GameState::Draw => 5,
    }
}

/// The game state of a byte, if it names one.
pub open spec fn game_state_of_byte(b: u8) -> Option<GameState> {
    if b == 0 {
        Some(GameState::Waiting)
    } else if b == 1 {
        Some(GameState::XMove)
    } else if b == 2 {
        Some(GameState::OMove)
    } else if b == 3 {
        Some(GameState::XWon)
    } else if b == 4 {
        Some(GameState::OWon)
    } else if b == 5 {
        Some(GameState::Draw)
    } else {
        None
    }
}

/// The byte of a cell: 0 free, 1 for X, 2 for O.
pub open spec fn board_item_byte(c: BoardItem) -> u8 {
    match c {
        BoardItem::Free => 0,
        BoardItem::X => 1,
        BoardItem::O => 2,
    }
}

/// The cell of a byte, if it names one.
pub open spec fn board_item_of_byte(b: u8) -> Option<BoardItem> {
    if b == 0 {
        Some(BoardItem::Free)
    } else if b == 1 {
        Some(BoardItem::X)
    } else if b == 2 {
        Some(BoardItem::O)
    } else {
        None
    }
}

/// A flag byte, then the key or 32 zero bytes.
pub open spec fn player_o_bytes(o: Option<Pubkey>) -> Seq<u8> {
    match o {
        None => seq![0u8] + zeros(32),
        Some(k) => seq![1u8] + k@,
    }
}

/// One byte per cell.
pub open spec fn board_bytes(board: Seq<BoardItem>) -> Seq<u8> {
    Seq::new(board.len(), |i: int| board_item_byte(board[i]))
}

/// `player_x`, `player_o`, the state, the board, then both liveness counters.
pub open spec fn game_encoding(g: Game) -> Seq<u8> {
    g.player_x@ + player_o_bytes(g.player_o) + seq![game_state_byte(g.game_state)] + board_bytes(
        g.board@,
    ) + u64_le_bytes(g.keep_alive[0]) + u64_le_bytes(g.keep_alive[1])
}

/// Room for `MAX_COMPLETED_GAMES` keys: the listed ones in order, then zero bytes.
pub open spec fn completed_bytes(c: Seq<Pubkey>) -> Seq<u8> {
    Seq::new(
        (MAX_COMPLETED_GAMES * PUBKEY_LEN) as nat,
        |j: int|
            if j / 32 < c.len() {
                c[j / 32]@[j % 32]
            } else {
                0u8
            },
    )
}

/// The count, the pending game, the number of completed games, then their keys.
pub open spec fn dashboard_encoding(d: DashboardView) -> Seq<u8> {
    u64_le_bytes(d.total) + d.pending@ + seq![d.completed.len() as u8] + completed_bytes(
        d.completed,
    )
}

/// A 4-byte tag (0, 1 or 2) and the variant's bytes, padded with zeros to `STATE_LEN`.
pub open spec fn state_encoding(v: StateView) -> Seq<u8> {
    match v {
        StateView::Uninitialized => u32_le_bytes(0) + zeros(DASHBOARD_LEN as nat),
        StateView::Dashboard(d) => u32_le_bytes(1) + dashboard_encoding(d),
        StateView::Game(g) => u32_le_bytes(2) + game_encoding(g) + zeros(
            (DASHBOARD_LEN - GAME_LEN) as nat,
        ),
    }
}

/// The key held by the 32 bytes of `b` from `at`.
pub open spec fn key_at(b: Seq<u8>, at: int) -> Pubkey {
    Pubkey::from_bytes_spec(b.subrange(at, at + 32))
}

/// The game held at the start of `b`, if the bytes are well formed.
pub open spec fn game_decoding(b: Seq<u8>) -> Option<Game> {
    let flag = b[32];
    let state = game_state_of_byte(b[65]);
    if flag > 1 || state is None || exists|i: int|
        0 <= i < 9 && #[trigger] board_item_of_byte(b[66 + i]) is None {
        None
    } else {
        Some(
            Game {
                keep_alive: array_from_seq(seq![u64_at(b, 75), u64_at(b, 83)]),
                game_state: state.unwrap(),
                player_x: key_at(b, 0),
                player_o: if flag == 0 {
                    None
                } else {
                    Some(key_at(b, 33))
                },
                board: array_from_seq(Seq::new(9, |i: int| board_item_of_byte(b[66 + i]).unwrap())),
            },
        )
    }
}

/// The dashboard held at the start of `b`, if the bytes are well formed.
pub open spec fn dashboard_decoding(b: Seq<u8>) -> Option<DashboardView> {
    let count = b[40];
    if count > MAX_COMPLETED_GAMES {
        None
    } else {
        let completed = Seq::new(count as nat, |i: int| key_at(b, 41 + 32 * i));
        if completed.no_duplicates() {
            Some(DashboardView { total: u64_at(b, 0), pending: key_at(b, 8), completed })
        } else {
            None
        }
    }
}

/// The account state held by the first `STATE_LEN` bytes of `b`.
pub open spec fn state_decoding(b: Seq<u8>) -> Result<StateView, TicTacToeError> {
    if b.len() < STATE_LEN {
        Err(TicTacToeError::DecodingFailed)
    } else {
        let tag = u32_at(b, 0);
        let body = b.subrange(4, STATE_LEN as int);
        if tag == 0 {
            Ok(StateView::Uninitialized)
        } else if tag == 1 {
            match dashboard_decoding(body) {
                Some(d) => Ok(StateView::Dashboard(d)),
                None => Err(TicTacToeError::DecodingFailed),
            }
        } else if tag == 2 {
            match game_decoding(body) {
                Some(g) => Ok(StateView::Game(g)),
                None => Err(TicTacToeError::DecodingFailed),
            }
        } else {
            Err(TicTacToeError::DecodingFailed)
        }
    }
}

proof fn lemma_key_round_trip(b: Seq<u8>, at: int, k: Pubkey)
    requires
        0 <= at,
        at + 32 <= b.len(),
        forall|j: int| 0 <= j < 32 ==> b[at + j] == k@[j],
    ensures
        key_at(b, at) == k,
{
    Pubkey::lemma_from_bytes_view(k);
    assert(b.subrange(at, at + 32) =~= k@);
}

proof fn lemma_u64_at(b: Seq<u8>, at: int, v: u64)
    requires
        0 <= at,
        at + 8 <= b.len(),
        b.subrange(at, at + 8) == u64_le_bytes(v),
    ensures
        u64_at(b, at) == v,
{
    lemma_u64_round_trip(v);
    let s = b.subrange(at, at + 8);
    assert(s[0] == b[at] && s[1] == b[at + 1] && s[2] == b[at + 2] && s[3] == b[at + 3]);
    assert(s[4] == b[at + 4] && s[5] == b[at + 5] && s[6] == b[at + 6] && s[7] == b[at + 7]);
}

/// Decoding an encoded game, whatever follows it, gives the game back.
pub proof fn lemma_game_round_trip(g: Game, rest: Seq<u8>)
    ensures
        game_encoding(g).len() == GAME_LEN,
        game_decoding(game_encoding(g) + rest) == Some(g),
{
    Pubkey::lemma_from_bytes_view(g.player_x);
    let po = player_o_bytes(g.player_o);
    match g.player_o {
        Some(k) => {
            Pubkey::lemma_from_bytes_view(k);
        },
        None => {},
    }
    let e = game_encoding(g);
    let b = e + rest;
    assert(po.len() == 33);
    assert(e.len() == GAME_LEN);
    assert(forall|j: int| 0 <= j < 32 ==> b[j] == g.player_x@[j]);
    lemma_key_round_trip(b, 0, g.player_x);
    assert(b[32] == po[0]);
    match g.player_o {
        Some(k) => {
            assert(forall|j: int| 0 <= j < 32 ==> b[33 + j] == #[trigger] k@[j]);
            lemma_key_round_trip(b, 33, k);
        },
        None => {},
    }
    assert(b[65] == game_state_byte(g.game_state));
    let board = Seq::new(9, |i: int| board_item_of_byte(b[66 + i]).unwrap());
    assert forall|i: int| 0 <= i < 9 implies #[trigger] board_item_of_byte(b[66 + i]) == Some(
        g.board@[i],
    ) by {
        assert(b[66 + i] == board_item_byte(g.board@[i]));
    }
    assert(board =~= g.board@);
    lemma_array_from_seq(g.board);
    assert(b.subrange(75, 83) =~= u64_le_bytes(g.keep_alive[0]));
    assert(b.subrange(83, 91) =~= u64_le_bytes(g.keep_alive[1]));
    lemma_u64_at(b, 75, g.keep_alive[0]);
    lemma_u64_at(b, 83, g.keep_alive[1]);
    assert(seq![u64_at(b, 75), u64_at(b, 83)] =~= g.keep_alive@);
    lemma_array_from_seq(g.keep_alive);
}

/// Decoding an encoded well-formed dashboard, whatever follows it, gives it back.
pub proof fn lemma_dashboard_round_trip(d: DashboardView, rest: Seq<u8>)
    requires
        completed_wf(d.completed),
    ensures
        dashboard_encoding(d).len() == DASHBOARD_LEN,
        dashboard_decoding(dashboard_encoding(d) + rest) == Some(d),
{
    Pubkey::lemma_from_bytes_view(d.pending);
    let e = dashboard_encoding(d);
    let b = e + rest;
    let c = d.completed;
    assert(e.len() == DASHBOARD_LEN);
    assert(b.subrange(0, 8) =~= u64_le_bytes(d.total));
    lemma_u64_at(b, 0, d.total);
    assert(forall|j: int| 0 <= j < 32 ==> b[8 + j] == d.pending@[j]);
    lemma_key_round_trip(b, 8, d.pending);
    assert(b[40] == c.len());
    let completed = Seq::new(c.len(), |i: int| key_at(b, 41 + 32 * i));
    assert forall|i: int| 0 <= i < c.len() implies completed[i] == c[i] by {
        Pubkey::lemma_from_bytes_view(c[i]);
        assert forall|j: int| 0 <= j < 32 implies b[41 + 32 * i + j] == c[i]@[j] by {
            lemma_fundamental_div_mod_converse(32 * i + j, 32, i, j);
            assert(b[41 + 32 * i + j] == completed_bytes(c)[32 * i + j]);
        }
        lemma_key_round_trip(b, 41 + 32 * i, c[i]);
    }
    assert(completed =~= c);
}

/// Decoding an encoded well-formed account state, whatever follows it, gives
/// it back.
pub proof fn lemma_state_round_trip(v: StateView, rest: Seq<u8>)
    requires
        state_view_wf(v),
    ensures
        state_encoding(v).len() == STATE_LEN,
        state_decoding(state_encoding(v) + rest) == Ok::<StateView, TicTacToeError>(v),
{
    let e = state_encoding(v);
    let b = e + rest;
    match v {
        StateView::Uninitialized => {
            lemma_u32_round_trip(0);
        },
        StateView::Dashboard(d) => {
            lemma_u32_round_trip(1);
            lemma_dashboard_round_trip(d, Seq::empty());
            assert(b.subrange(4, STATE_LEN as int) =~= dashboard_encoding(d) + Seq::empty());
        },
        StateView::Game(g) => {
            lemma_u32_round_trip(2);
            lemma_game_round_trip(g, zeros((DASHBOARD_LEN - GAME_LEN) as nat));
            assert(b.subrange(4, STATE_LEN as int) =~= game_encoding(g) + zeros(
                (DASHBOARD_LEN - GAME_LEN) as nat,
            ));
        },
    }
    assert(b.subrange(0, 4) =~= u32_le_bytes(match v {
        StateView::Uninitialized => 0u32,
        StateView::Dashboard(_) => 1u32,
        StateView::Game(_) => 2u32,
    }));
}

/// A region whose first four bytes are zero, such as one never written,
/// holds an uninitialized state.
pub proof fn lemma_zeroed_is_uninitialized(b: Seq<u8>)
    requires
        b.len() >= STATE_LEN,
        b[0] == 0 && b[1] == 0 && b[2] == 0 && b[3] == 0,
    ensures
        state_decoding(b) == Ok::<StateView, TicTacToeError>(StateView::Uninitialized),
{
    lemma_u32_zero();
}

/// Appends the encoding of `g`.
fn push_game(out: &mut Vec<u8>, g: &Game)
    ensures
        final(out)@ == old(out)@ + game_encoding(*g),
{
    g.player_x.push_to(out);
    match g.player_o {
        None => {
            out.push(0u8);
            push_zeros(out, PUBKEY_LEN);
        },
        Some(k) => {
            out.push(1u8);
            k.push_to(out);
        },
    }
    let state_byte: u8 = match g.game_state {
        GameState::Waiting => 0,
        GameState::XMove => 1,
        GameState::OMove => 2,
        GameState::XWon => 3,
        GameState::OWon => 4,
        GameState::Draw => 5,
    };
    out.push(state_byte);
    let ghost mid = out@;
    let mut i: usize = 0;
    while i < 9
        invariant
            0 <= i <= 9,
            out@ == mid + board_bytes(g.board@.subrange(0, i as int)),
        decreases 9 - i,
    {
        let cell: u8 = match g.board[i] {
            BoardItem::Free => 0,
            BoardItem::X => 1,
            BoardItem::O => 2,
        };
        out.push(cell);
        i = i + 1;
        assert(out@ =~= mid + board_bytes(g.board@.subrange(0, i as int)));
    }
    assert(g.board@.subrange(0, 9) =~= g.board@);
    push_u64(out, g.keep_alive[0]);
    push_u64(out, g.keep_alive[1]);
    assert(out@ =~= old(out)@ + game_encoding(*g));
}

/// Appends the encoding of `d`.
fn push_dashboard(out: &mut Vec<u8>, d: &Dashboard)
    requires
        d.wf(),
    ensures
        final(out)@ == old(out)@ + dashboard_encoding(d@),
{
    let completed = d.completed();
    let ghost c = d@.completed;
    let mut keys: Vec<u8> = Vec::new();
    let mut i: usize = 0;
    while i < completed.len()
        invariant
            completed@ == c,
            c.len() <= MAX_COMPLETED_GAMES,
            0 <= i <= c.len(),
            keys@.len() == 32 * i,
            forall|q: int| 0 <= q < 32 * i ==> #[trigger] keys@[q] == c[q / 32]@[q % 32],
        decreases c.len() - i,
    {
        let ghost before = keys@;
        let k = completed[i];
        proof { Pubkey::lemma_from_bytes_view(k); }
        k.push_to(&mut keys);
        assert forall|q: int| 0 <= q < 32 * (i + 1) implies #[trigger] keys@[q] == c[q / 32]@[q
            % 32] by {
            if q >= 32 * i {
                lemma_fundamental_div_mod_converse(q, 32, i as int, q - 32 * i);
            } else {
                assert(keys@[q] == before[q]);
            }
        }
        i = i + 1;
    }
    let ghost filled = keys@;
    push_zeros(&mut keys, PUBKEY_LEN * (MAX_COMPLETED_GAMES - completed.len()));
    assert forall|q: int| 0 <= q < 160 implies #[trigger] keys@[q] == completed_bytes(c)[q] by {
        if q < 32 * c.len() {
            assert(keys@[q] == filled[q]);
        } else {
            assert(q / 32 >= c.len());
        }
    }
    assert(keys@ =~= completed_bytes(c));
    push_u64(out, d.total());
    d.pending().push_to(out);
    out.push(completed.len() as u8);
    crate::bytes::push_all(out, keys.as_slice());
    assert(out@ =~= old(out)@ + dashboard_encoding(d@));
}

/// The game held at the start of `b`, if the bytes are well formed.
fn read_game(b: &[u8]) -> (r: Option<Game>)
    requires
        b@.len() >= GAME_LEN,
    ensures
        r == game_decoding(b@),
{
    let flag = b[32];
    if flag > 1 {
        return None;
    }
    let game_state = match b[65] {
        0 => GameState::Waiting,
        1 => GameState::XMove,
        2 => GameState::OMove,
        3 => GameState::XWon,
        4 => GameState::OWon,
        5 => GameState::Draw,
        _ => {
            return None;
        },
    };
    let mut board = [BoardItem::Free; 9];
    let mut i: usize = 0;
    while i < 9
        invariant
            b@.len() >= GAME_LEN,
            0 <= i <= 9,
            forall|j: int| 0 <= j < i ==> #[trigger] board_item_of_byte(b@[66 + j]) == Some(board@[j]),
        decreases 9 - i,
    {
        let cell = match b[66 + i] {
            0 => BoardItem::Free,
            1 => BoardItem::X,
            2 => BoardItem::O,
            _ => {
                assert(board_item_of_byte(b@[66 + i as int]) is None);
                return None;
            },
        };
        board[i] = cell;
        i = i + 1;
    }
    assert(Seq::new(9, |i: int| board_item_of_byte(b@[66 + i]).unwrap()) =~= board@);
    proof { lemma_array_from_seq(board); }
    let keep_alive = [read_u64(b, 75), read_u64(b, 83)];
    assert(seq![u64_at(b@, 75), u64_at(b@, 83)] =~= keep_alive@);
    proof { lemma_array_from_seq(keep_alive); }
    let player_o = if flag == 0 {
        None
    } else {
        Some(Pubkey::read_at(b, 33))
    };
    Some(Game { keep_alive, game_state, player_x: Pubkey::read_at(b, 0), player_o, board })
}

/// The dashboard held at the start of `b`, if the bytes are well formed.
fn read_dashboard(b: &[u8]) -> (r: Option<Dashboard>)
    requires
        b@.len() >= DASHBOARD_LEN,
    ensures
        r is Some <==> dashboard_decoding(b@) is Some,
        r matches Some(d) ==> d.wf() && dashboard_decoding(b@) == Some(d@),
{
    let count = b[40];
    if count as usize > MAX_COMPLETED_GAMES {
        return None;
    }
    let mut completed: Vec<Pubkey> = Vec::new();
    let mut i: usize = 0;
    while i < count as usize
        invariant
            b@.len() >= DASHBOARD_LEN,
            count <= MAX_COMPLETED_GAMES,
            0 <= i <= count,
            completed@ == Seq::new(i as nat, |k: int| key_at(b@, 41 + 32 * k)),
        decreases count - i,
    {
        completed.push(Pubkey::read_at(b, 41 + 32 * i));
        i = i + 1;
        assert(completed@ =~= Seq::new(i as nat, |k: int| key_at(b@, 41 + 32 * k)));
    }
    Dashboard::from_parts(read_u64(b, 0), Pubkey::read_at(b, 8), completed)
}

impl State {
    /// Writes the state over the first `STATE_LEN` bytes of `output`.
    pub fn serialize(&self, output: &mut [u8]) -> (r: Result<(), TicTacToeError>)
        requires
            self.wf(),
        ensures
            old(output)@.len() < STATE_LEN ==> r == Err::<(), _>(TicTacToeError::DecodingFailed)
                && final(output)@ == old(output)@,
            old(output)@.len() >= STATE_LEN ==> r is Ok && final(output)@ == state_encoding(self@)
                + old(output)@.subrange(STATE_LEN as int, old(output)@.len() as int),
    {
        if output.len() < STATE_LEN {
            return Err(TicTacToeError::DecodingFailed);
        }
        let mut enc: Vec<u8> = Vec::new();
        match self {
            State::Uninitialized => {
                push_u32(&mut enc, 0);
                push_zeros(&mut enc, DASHBOARD_LEN);
            },
            State::Dashboard(d) => {
                push_u32(&mut enc, 1);
                push_dashboard(&mut enc, d);
            },
            State::Game(g) => {
                push_u32(&mut enc, 2);
                push_game(&mut enc, g);
                push_zeros(&mut enc, DASHBOARD_LEN - GAME_LEN);
            },
        }
        assert(enc@ =~= state_encoding(self@));
        proof { lemma_state_round_trip(self@, Seq::empty()); }
        write_prefix(output, &enc);
        Ok(())
    }

    /// Reads the state held by the first `STATE_LEN` bytes of `input`.
    pub fn deserialize(input: &[u8]) -> (r: Result<State, TicTacToeError>)
        ensures
            r is Ok <==> state_decoding(input@) is Ok,
            r matches Ok(s) ==> s.wf() && state_decoding(input@) == Ok::<StateView, TicTacToeError>(s@),
            r matches Err(e) ==> state_decoding(input@) == Err::<StateView, TicTacToeError>(e),
    {
        if input.len() < STATE_LEN {
            return Err(TicTacToeError::DecodingFailed);
        }
        let tag = read_u32(input, 0);
        let body = vstd::slice::slice_subrange(input, 4, STATE_LEN);
        if tag == 0 {
            Ok(State::Uninitialized)
        } else if tag == 1 {
            match read_dashboard(body) {
                Some(d) => Ok(State::Dashboard(d)),
                None => Err(TicTacToeError::DecodingFailed),
            }
        } else if tag == 2 {
            match read_game(body) {
                Some(g) => Ok(State::Game(g)),
                None => Err(TicTacToeError::DecodingFailed),
            }
        } else {
            Err(TicTacToeError::DecodingFailed)
        }
    }
}

} // verus!
