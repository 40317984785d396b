use tic_tac_toe::{Dashboard, Game, Pubkey, State, TicTacToeError, STATE_LEN};

fn key(b: u8) -> Pubkey {
    Pubkey::new(&[b; 32])
}

#[test]
fn zeroed_region_is_uninitialized() {
    let b = vec![0u8; STATE_LEN];
    assert!(matches!(State::deserialize(&b), Ok(State::Uninitialized)));
}

#[test]
fn state_too_small() {
    let b = vec![0u8; STATE_LEN - 1];
    assert!(matches!(State::deserialize(&b), Err(TicTacToeError::DecodingFailed)));
    let mut out = vec![5u8; STATE_LEN - 1];
    assert_eq!(State::Uninitialized.serialize(&mut out), Err(TicTacToeError::DecodingFailed));
    assert_eq!(out, vec![5u8; STATE_LEN - 1]);
}

#[test]
fn state_bad_tag() {
    let mut b = vec![0u8; STATE_LEN];
    b[0] = 3;
    assert!(matches!(State::deserialize(&b), Err(TicTacToeError::DecodingFailed)));
}

#[test]
fn game_round_trip() {
    let mut g = Game::new(key(1), key(2));
    g.next_move(key(1), 1, 1).unwrap();
    g.keep_alive(key(1), 77).unwrap();
    let mut b = vec![0xEE; STATE_LEN + 3];
    State::Game(g).serialize(&mut b).unwrap();
    assert_eq!(&b[..4], &[2, 0, 0, 0]);
    assert_eq!(&b[STATE_LEN..], &[0xEE; 3]);
    match State::deserialize(&b) {
        Ok(State::Game(h)) => {
            assert_eq!(h.game_state, g.game_state);
            assert_eq!(h.player_x, g.player_x);
            assert_eq!(h.player_o, g.player_o);
            assert_eq!(h.board, g.board);
            assert_eq!(h.keep_alive, [77, 1]);
        }
        other => panic!("unexpected {:?}", other),
    }
}

#[test]
fn waiting_game_round_trip() {
    let g = Game::create(&key(4));
    let mut b = vec![0u8; STATE_LEN];
    State::Game(g).serialize(&mut b).unwrap();
    match State::deserialize(&b) {
        Ok(State::Game(h)) => {
            assert_eq!(h.player_o, None);
            assert_eq!(h.player_x, key(4));
        }
        other => panic!("unexpected {:?}", other),
    }
}

#[test]
fn dashboard_round_trip() {
    let d = Dashboard::from_parts(9, key(3), vec![key(5), key(6), key(7)]).unwrap();
    let mut b = vec![0u8; STATE_LEN];
    State::Dashboard(d).serialize(&mut b).unwrap();
    assert_eq!(&b[..4], &[1, 0, 0, 0]);
    assert_eq!(&b[4..12], &[9, 0, 0, 0, 0, 0, 0, 0]);
    match State::deserialize(&b) {
        Ok(State::Dashboard(e)) => {
            assert_eq!(e.total(), 9);
            assert_eq!(e.pending(), key(3));
            assert_eq!(e.completed(), &vec![key(5), key(6), key(7)]);
        }
        other => panic!("unexpected {:?}", other),
    }
}

#[test]
fn malformed_game_fields_rejected() {
    let mut b = vec![0u8; STATE_LEN];
    State::Game(Game::new(key(1), key(2))).serialize(&mut b).unwrap();
    // game state byte: tag (4) + player_x (32) + flag (1) + player_o (32)
    let mut bad_state = b.clone();
    bad_state[4 + 65] = 6;
    assert!(matches!(State::deserialize(&bad_state), Err(TicTacToeError::DecodingFailed)));
    let mut bad_cell = b.clone();
    bad_cell[4 + 66 + 4] = 3;
    assert!(matches!(State::deserialize(&bad_cell), Err(TicTacToeError::DecodingFailed)));
    let mut bad_flag = b;
    bad_flag[4 + 32] = 2;
    assert!(matches!(State::deserialize(&bad_flag), Err(TicTacToeError::DecodingFailed)));
}

#[test]
fn malformed_dashboard_rejected() {
    let d = Dashboard::from_parts(1, key(3), vec![key(5), key(6)]).unwrap();
    let mut b = vec![0u8; STATE_LEN];
    State::Dashboard(d).serialize(&mut b).unwrap();
    let mut too_many = b.clone();
    too_many[4 + 40] = 6;
    assert!(matches!(State::deserialize(&too_many), Err(TicTacToeError::DecodingFailed)));
    let mut repeated = b;
    for i in 0..32 {
        repeated[4 + 41 + 32 + i] = 5;
    }
    assert!(matches!(State::deserialize(&repeated), Err(TicTacToeError::DecodingFailed)));
}

#[test]
fn game_byte_layout() {
    let mut g = Game::new(key(1), key(2));
    g.next_move(key(1), 2, 0).unwrap();
    g.keep_alive(key(1), 0x0102).unwrap();
    let mut b = vec![0xFF; STATE_LEN];
    State::Game(g).serialize(&mut b).unwrap();
    let mut expected = vec![2, 0, 0, 0];
    expected.extend_from_slice(&[1; 32]);
    expected.push(1);
    expected.extend_from_slice(&[2; 32]);
    expected.push(2); // O to move
    expected.extend_from_slice(&[0, 0, 1, 0, 0, 0, 0, 0, 0]);
    expected.extend_from_slice(&[0x02, 0x01, 0, 0, 0, 0, 0, 0]);
    expected.extend_from_slice(&[1, 0, 0, 0, 0, 0, 0, 0]);
    expected.resize(STATE_LEN, 0);
    assert_eq!(b, expected);
}
