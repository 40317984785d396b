use tic_tac_toe::{
    fund_to_cover_rent, process_instruction, AccountInfo, Command, GameState, Pubkey, State,
    TicTacToeError, COMMAND_LEN, STATE_LEN,
};

fn key(b: u8) -> Pubkey {
    Pubkey::new(&[b; 32])
}

fn account(k: u8, owner: u8, signer: bool, lamports: u64, data_len: usize) -> AccountInfo {
    AccountInfo {
        key: key(k),
        owner: key(owner),
        is_signer: signer,
        lamports,
        data: vec![0; data_len],
    }
}

fn cmd(c: Command) -> Vec<u8> {
    let mut b = vec![0; 16];
    c.serialize(&mut b).unwrap();
    b
}

fn game_state_of(a: &AccountInfo) -> GameState {
    match State::deserialize(&a.data) {
        Ok(State::Game(g)) => g.game_state,
        other => panic!("not a game: {:?}", other),
    }
}

const DASH: u8 = 10;
const GAME: u8 = 20;
const X: u8 = 1;
const O: u8 = 2;
const PROGRAM: u8 = 99;

/// Dashboard set up, game created by X, plus X and O as player accounts.
fn set_up() -> (AccountInfo, AccountInfo, AccountInfo, AccountInfo) {
    let mut accts = vec![account(DASH, PROGRAM, true, 10_000, STATE_LEN)];
    process_instruction(&mut accts, &cmd(Command::InitDashboard), 0).unwrap();
    let dash = accts.remove(0);
    let mut accts = vec![
        account(GAME, PROGRAM, true, 0, STATE_LEN),
        dash,
        account(X, PROGRAM, false, 0, 0),
    ];
    process_instruction(&mut accts, &cmd(Command::InitGame), 0).unwrap();
    let player_x = accts.pop().unwrap();
    let dash = accts.pop().unwrap();
    let game = accts.pop().unwrap();
    (dash, game, player_x, account(O, PROGRAM, true, 0, 0))
}

fn play(
    player: AccountInfo,
    dash: AccountInfo,
    game: AccountInfo,
    c: Command,
    clock: u64,
) -> (Result<(), TicTacToeError>, AccountInfo, AccountInfo, AccountInfo) {
    let mut accts = vec![player, dash, game, account(0, 0, false, 0, 0)];
    let r = process_instruction(&mut accts, &cmd(c), clock);
    accts.pop();
    let game = accts.pop().unwrap();
    let dash = accts.pop().unwrap();
    let player = accts.pop().unwrap();
    (r, player, dash, game)
}

#[test]
fn init_dashboard_writes_empty_dashboard() {
    let mut accts = vec![account(DASH, PROGRAM, true, 10_000, STATE_LEN + 4)];
    process_instruction(&mut accts, &cmd(Command::InitDashboard), 0).unwrap();
    match State::deserialize(&accts[0].data) {
        Ok(State::Dashboard(d)) => {
            assert_eq!(d.total(), 0);
            assert!(d.completed().is_empty());
        }
        other => panic!("unexpected {:?}", other),
    }
    assert_eq!(accts[0].lamports, 10_000);
    // A second initialization is refused and changes nothing.
    let before = accts[0].data.clone();
    assert_eq!(
        process_instruction(&mut accts, &cmd(Command::InitDashboard), 0),
        Err(TicTacToeError::InvalidAccountSetup)
    );
    assert_eq!(accts[0].data, before);
}

#[test]
fn first_account_must_sign() {
    let mut accts = vec![account(DASH, PROGRAM, false, 10_000, STATE_LEN)];
    assert_eq!(
        process_instruction(&mut accts, &cmd(Command::InitDashboard), 0),
        Err(TicTacToeError::MissingAuthorization)
    );
    // The signature is checked before the payload is decoded.
    assert_eq!(
        process_instruction(&mut accts, &[0xFF], 0),
        Err(TicTacToeError::MissingAuthorization)
    );
    let mut none: Vec<AccountInfo> = Vec::new();
    assert_eq!(
        process_instruction(&mut none, &cmd(Command::InitDashboard), 0),
        Err(TicTacToeError::InvalidAccountSetup)
    );
}

#[test]
fn bad_payload_is_decoding_failed() {
    let mut accts = vec![account(DASH, PROGRAM, true, 10_000, STATE_LEN)];
    assert_eq!(
        process_instruction(&mut accts, &[0, 0, 0], 0),
        Err(TicTacToeError::DecodingFailed)
    );
    assert_eq!(COMMAND_LEN, 6);
}

#[test]
fn init_player_funds_to_watermark() {
    let (dash, _game, _x, _o) = set_up();
    let dash_lamports = dash.lamports;
    let mut accts = vec![dash, account(O, PROGRAM, false, 100, 0)];
    process_instruction(&mut accts, &cmd(Command::InitPlayer), 0).unwrap();
    assert_eq!(accts[1].lamports, 300);
    assert_eq!(accts[0].lamports, dash_lamports - 200);
    // Wrong owner.
    let dash = accts.remove(0);
    let mut accts = vec![dash, account(O, 42, false, 100, 0)];
    assert_eq!(
        process_instruction(&mut accts, &cmd(Command::InitPlayer), 0),
        Err(TicTacToeError::InvalidAccountSetup)
    );
    // Too few accounts.
    accts.pop();
    assert_eq!(
        process_instruction(&mut accts, &cmd(Command::InitPlayer), 0),
        Err(TicTacToeError::InvalidAccountSetup)
    );
}

#[test]
fn init_game_creates_game_and_funds() {
    let (dash, game, x, _o) = set_up();
    assert_eq!(game_state_of(&game), GameState::Waiting);
    assert_eq!(game.lamports, 300);
    assert_eq!(x.lamports, 300);
    assert_eq!(dash.lamports, 10_000 - 600);
    match State::deserialize(&dash.data) {
        Ok(State::Dashboard(d)) => assert_eq!(d.pending(), key(GAME)),
        other => panic!("unexpected {:?}", other),
    }
}

#[test]
fn full_game_through_instructions() {
    let (dash, game, mut x, o) = set_up();
    x.is_signer = true;
    let (r, o, dash, game) = play(o, dash, game, Command::Join, 1);
    r.unwrap();
    assert_eq!(game_state_of(&game), GameState::XMove);
    let moves = [(X, 0, 0), (O, 1, 0), (X, 0, 1), (O, 1, 1), (X, 0, 2)];
    let mut players = vec![x, o];
    let (mut dash, mut game) = (dash, game);
    for (who, mx, my) in moves {
        let at = if who == X { 0 } else { 1 };
        let player = players.remove(at);
        let (r, p, d, g) = play(player, dash, game, Command::Move(mx, my), 2);
        r.unwrap();
        players.insert(at, p);
        dash = d;
        game = g;
    }
    let x = players.remove(0);
    assert_eq!(game_state_of(&game), GameState::XWon);
    match State::deserialize(&dash.data) {
        Ok(State::Dashboard(d)) => {
            assert_eq!(d.total(), 1);
            assert_eq!(d.completed(), &vec![key(GAME)]);
        }
        other => panic!("unexpected {:?}", other),
    }
    // A redundant keep-alive on the finished game does not count it twice.
    let (r, _x, dash, _game) = play(x, dash, game, Command::KeepAlive, 3);
    r.unwrap();
    match State::deserialize(&dash.data) {
        Ok(State::Dashboard(d)) => assert_eq!(d.total(), 1),
        other => panic!("unexpected {:?}", other),
    }
}

#[test]
fn failed_move_changes_no_account() {
    let (dash, game, _x, o) = set_up();
    let (r, o, dash, game) = play(o, dash, game, Command::Join, 1);
    r.unwrap();
    let before = (dash.data.clone(), dash.lamports, game.data.clone(), o.lamports);
    // It is X's turn.
    let (r, o, dash, game) = play(o, dash, game, Command::Move(0, 0), 2);
    assert_eq!(r, Err(TicTacToeError::PlayerNotFound));
    assert_eq!(before, (dash.data, dash.lamports, game.data, o.lamports));
}

#[test]
fn stale_join_aborts_instruction() {
    let (dash, game, _x, o) = set_up();
    let (r, _o, _dash, game) = play(o, dash, game, Command::Join, 0);
    assert_eq!(r, Err(TicTacToeError::InvalidTimestamp));
    assert_eq!(game_state_of(&game), GameState::Waiting);
}

#[test]
fn player_account_must_be_empty() {
    let (dash, game, _x, _o) = set_up();
    let o = account(O, PROGRAM, true, 0, 8);
    let (r, _, _, _) = play(o, dash, game, Command::Join, 1);
    assert_eq!(r, Err(TicTacToeError::InvalidAccountSetup));
}

#[test]
fn funding_rules() {
    assert_eq!(fund_to_cover_rent(1000, 100), Ok((800, 300)));
    assert_eq!(fund_to_cover_rent(1000, 300), Ok((1000, 300)));
    assert_eq!(fund_to_cover_rent(1000, 5000), Ok((1000, 5000)));
    assert_eq!(fund_to_cover_rent(1, 5000), Err(TicTacToeError::InsufficientBalance));
    assert_eq!(fund_to_cover_rent(100, 0), Err(TicTacToeError::InsufficientBalance));
    assert_eq!(fund_to_cover_rent(300, 0), Ok((0, 300)));
}

#[test]
fn dashboard_out_of_funds_aborts() {
    let mut accts = vec![account(DASH, PROGRAM, true, 2, STATE_LEN)];
    process_instruction(&mut accts, &cmd(Command::InitDashboard), 0).unwrap();
    let dash = accts.remove(0);
    let mut accts = vec![
        account(GAME, PROGRAM, true, 0, STATE_LEN),
        dash,
        account(X, PROGRAM, false, 0, 0),
    ];
    assert_eq!(
        process_instruction(&mut accts, &cmd(Command::InitGame), 0),
        Err(TicTacToeError::InsufficientBalance)
    );
    assert!(matches!(State::deserialize(&accts[0].data), Ok(State::Uninitialized)));
}
