use tic_tac_toe::{Dashboard, Game, GameState, Pubkey};

fn key(b: u8) -> Pubkey {
    Pubkey::new(&[b; 32])
}

fn finished_game(x: Pubkey, o: Pubkey) -> Game {
    let mut g = Game::new(x, o);
    for (p, mx, my) in [(x, 0, 0), (o, 1, 0), (x, 0, 1), (o, 1, 1), (x, 0, 2)] {
        g.next_move(p, mx, my).unwrap();
    }
    assert_eq!(g.game_state, GameState::XWon);
    g
}

#[test]
fn new_dashboard_is_empty() {
    let d = Dashboard::new();
    assert_eq!(d.total(), 0);
    assert_eq!(d.pending(), Pubkey::new(&[0; 32]));
    assert!(d.completed().is_empty());
    assert_eq!(Dashboard::default().total(), 0);
}

#[test]
fn waiting_game_becomes_pending() {
    let mut d = Dashboard::new();
    let g = Game::create(&key(1));
    d.update(&key(10), &g).unwrap();
    assert_eq!(d.pending(), key(10));
    d.update(&key(11), &g).unwrap();
    assert_eq!(d.pending(), key(11));
    assert_eq!(d.total(), 0);
    assert!(d.completed().is_empty());
}

#[test]
fn game_in_play_changes_nothing() {
    let mut d = Dashboard::new();
    let g = Game::new(key(1), key(2));
    d.update(&key(10), &g).unwrap();
    assert_eq!(d.pending(), Pubkey::new(&[0; 32]));
    assert_eq!(d.total(), 0);
    assert!(d.completed().is_empty());
}

#[test]
fn finished_game_counted_once() {
    let mut d = Dashboard::new();
    let g = finished_game(key(1), key(2));
    d.update(&key(10), &g).unwrap();
    assert_eq!(d.total(), 1);
    assert_eq!(d.completed(), &vec![key(10)]);
    d.update(&key(10), &g).unwrap();
    assert_eq!(d.total(), 1);
    assert_eq!(d.completed(), &vec![key(10)]);
}

#[test]
fn capacity_keeps_five_latest() {
    let mut d = Dashboard::new();
    let g = finished_game(key(1), key(2));
    for id in 10..16u8 {
        d.update(&key(id), &g).unwrap();
    }
    assert_eq!(d.total(), 6);
    assert_eq!(d.completed(), &vec![key(15), key(14), key(13), key(12), key(11)]);
}

#[test]
fn from_parts_checks_completed() {
    assert!(Dashboard::from_parts(3, key(1), vec![key(2), key(3)]).is_some());
    assert!(Dashboard::from_parts(3, key(1), vec![key(2), key(2)]).is_none());
    assert!(Dashboard::from_parts(3, key(1), vec![key(2), key(3), key(4), key(5), key(6), key(7)])
        .is_none());
    let d = Dashboard::from_parts(3, key(1), vec![key(2)]).unwrap();
    assert_eq!(d.total(), 3);
    assert_eq!(d.pending(), key(1));
    assert!(d.is_completed(&key(2)));
    assert!(!d.is_completed(&key(1)));
}
