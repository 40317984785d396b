use crate::dashboard::{counts_as_new, empty_dashboard, update_spec, Dashboard, DashboardView};
use crate::game::{join_spec, keep_alive_spec, new_game, next_move_spec, Game, GameState};
use crate::program_command::{command_decoding, Command};
use crate::program_state::{state_decoding, state_encoding, State, StateView, STATE_LEN};
use crate::pubkey::Pubkey;
use crate::result::TicTacToeError;
use vstd::prelude::*;

verus! {

/// Balance the dashboard tops a player or game account up to.
pub const LOW_LAMPORT_WATERMARK: u64 = 300;

/// One account handed to an instruction.
#[derive(Debug)]
pub struct AccountInfo {
    /// The account's own key.
    pub key: Pubkey,
    /// The authority that owns the account.
    pub owner: Pubkey,
    /// Whether the account signed the instruction.
    pub is_signer: bool,
    /// The account's balance.
    pub lamports: u64,
    /// The account's byte region.
    pub data: Vec<u8>,
}

/// What an account holds.
pub struct AccountView {
    pub key: Pubkey,
    pub owner: Pubkey,
    pub is_signer: bool,
    pub lamports: u64,
    pub data: Seq<u8>,
}

impl View for AccountInfo {
    type V = AccountView;

    open spec fn view(&self) -> AccountView {
        AccountView {
            key: self.key,
            owner: self.owner,
            is_signer: self.is_signer,
            lamports: self.lamports,
            data: self.data@,
        }
    }
}

/// What a list of accounts holds.
pub open spec fn accounts_view(a: Seq<AccountInfo>) -> Seq<AccountView> {
    a.map_values(|x: AccountInfo| x@)
}

/// What the dashboard pays to bring an account with `lamports` up to the watermark.
pub open spec fn funding_needed(lamports: u64) -> u64 {
    if lamports < LOW_LAMPORT_WATERMARK {
        (LOW_LAMPORT_WATERMARK - lamports) as u64
    } else {
        0
    }
}

/// The balances of the dashboard and of the account after funding it: it
/// fails where the dashboard holds at most 1, or less than is needed.
pub open spec fn fund_spec(dashboard_lamports: u64, account_lamports: u64) -> Result<(u64, u64), TicTacToeError> {
    let need = funding_needed(account_lamports);
    if dashboard_lamports <= 1 || need > dashboard_lamports {
        Err(TicTacToeError::InsufficientBalance)
    } else {
        Ok(((dashboard_lamports - need) as u64, (account_lamports + need) as u64))
    }
}

/// `a` with `s` written over the start of its region and balance `lamports`.
pub open spec fn stored(a: AccountView, s: StateView, lamports: u64) -> AccountView {
    AccountView {
        lamports,
        data: state_encoding(s) + a.data.subrange(STATE_LEN as int, a.data.len() as int),
        ..a
    }
}

/// `a` with balance `lamports`.
pub open spec fn with_lamports(a: AccountView, lamports: u64) -> AccountView {
    AccountView { lamports, ..a }
}

/// The dashboard held by an account, or why it cannot be used as one.
pub open spec fn dashboard_of(a: AccountView) -> Result<DashboardView, TicTacToeError> {
    match state_decoding(a.data) {
        Err(e) => Err(e),
        Ok(StateView::Dashboard(d)) => Ok(d),
        Ok(_) => Err(TicTacToeError::InvalidAccountSetup),
    }
}

/// InitDashboard on `[dashboard]`.
pub open spec fn init_dashboard_spec(a: Seq<AccountView>) -> Result<Seq<AccountView>, TicTacToeError> {
    match state_decoding(a[0].data) {
        Err(e) => Err(e),
        Ok(StateView::Uninitialized) => Ok(
            a.update(0, stored(a[0], StateView::Dashboard(empty_dashboard()), a[0].lamports)),
        ),
        Ok(_) => Err(TicTacToeError::InvalidAccountSetup),
    }
}

/// InitPlayer on `[dashboard, player]`.
pub open spec fn init_player_spec(a: Seq<AccountView>) -> Result<Seq<AccountView>, TicTacToeError> {
    match dashboard_of(a[0]) {
        Err(e) => Err(e),
        Ok(_) => if a[0].owner != a[1].owner || a[1].data.len() != 0 {
            Err(TicTacToeError::InvalidAccountSetup)
        } else {
            match fund_spec(a[0].lamports, a[1].lamports) {
                Err(e) => Err(e),
                Ok((d, p)) => Ok(
                    a.update(0, with_lamports(a[0], d)).update(1, with_lamports(a[1], p)),
                ),
            }
        },
    }
}

/// InitGame on `[game, dashboard, player_x]`.
pub open spec fn init_game_spec(a: Seq<AccountView>) -> Result<Seq<AccountView>, TicTacToeError> {
    match dashboard_of(a[1]) {
        Err(e) => Err(e),
        Ok(d) => if a[0].owner != a[1].owner || a[0].owner != a[2].owner || a[2].data.len() != 0 {
            Err(TicTacToeError::InvalidAccountSetup)
        } else {
            match state_decoding(a[0].data) {
                Err(e) => Err(e),
                Ok(StateView::Uninitialized) => {
                    let g = new_game(a[2].key);
                    let d2 = update_spec(d, a[0].key, g.game_state);
                    match fund_spec(a[1].lamports, a[0].lamports) {
                        Err(e) => Err(e),
                        Ok((dl1, gl)) => match fund_spec(dl1, a[2].lamports) {
                            Err(e) => Err(e),
                            Ok((dl2, pl)) => Ok(
                                a.update(0, stored(a[0], StateView::Game(g), gl)).update(
                                    1,
                                    stored(a[1], StateView::Dashboard(d2), dl2),
                                ).update(2, with_lamports(a[2], pl)),
                            ),
                        },
                    }
                },
                Ok(_) => Err(TicTacToeError::InvalidAccountSetup),
            }
        },
    }
}

/// What a game command does to game `g` on behalf of `player`, with the time
/// source at `clock`.
pub open spec fn game_command_spec(cmd: Command, g: Game, player: Pubkey, clock: u64) -> (Result<(), TicTacToeError>, Game) {
    match cmd {
        Command::Join => join_spec(g, player, clock),
        Command::Move(x, y) => next_move_spec(g, player, x as int, y as int),
        Command::KeepAlive => keep_alive_spec(g, player, clock),
        _ => (Ok(()), g),
    }
}

/// Advertise, Join, KeepAlive or Move on `[player, dashboard, game, time source]`.
pub open spec fn play_spec(a: Seq<AccountView>, cmd: Command, clock: u64) -> Result<Seq<AccountView>, TicTacToeError> {
    match dashboard_of(a[1]) {
        Err(e) => Err(e),
        Ok(d) => if a[0].owner != a[1].owner || a[0].data.len() != 0 || a[1].owner != a[2].owner {
            Err(TicTacToeError::InvalidAccountSetup)
        } else {
            match state_decoding(a[2].data) {
                Err(e) => Err(e),
                Ok(StateView::Game(g)) => {
                    let (res, g2) = game_command_spec(cmd, g, a[0].key, clock);
                    if res is Err {
                        Err(res->Err_0)
                    } else if counts_as_new(d, a[2].key, g2.game_state) && d.total == u64::MAX {
                        Err(TicTacToeError::InvalidAccountSetup)
                    } else {
                        let d2 = update_spec(d, a[2].key, g2.game_state);
                        match fund_spec(a[1].lamports, a[2].lamports) {
                            Err(e) => Err(e),
                            Ok((dl1, gl)) => match fund_spec(dl1, a[0].lamports) {
                                Err(e) => Err(e),
                                Ok((dl2, pl)) => Ok(
                                    a.update(0, with_lamports(a[0], pl)).update(
                                        1,
                                        stored(a[1], StateView::Dashboard(d2), dl2),
                                    ).update(2, stored(a[2], StateView::Game(g2), gl)),
                                ),
                            },
                        }
                    }
                },
                Ok(_) => Err(TicTacToeError::InvalidAccountSetup),
            }
        },
    }
}

/// Accounts each command needs.
pub open spec fn accounts_needed(cmd: Command) -> nat {
    match cmd {
        Command::InitDashboard => 1,
        Command::InitPlayer => 2,
        Command::InitGame => 3,
        _ => 4,
    }
}

/// The accounts after an instruction with payload `input` on accounts `a`, the
/// time source reading `clock`; or the error that aborts it.
pub open spec fn process_spec(a: Seq<AccountView>, input: Seq<u8>, clock: u64) -> Result<Seq<AccountView>, TicTacToeError> {
    if a.len() == 0 {
        Err(TicTacToeError::InvalidAccountSetup)
    } else if !a[0].is_signer {
        Err(TicTacToeError::MissingAuthorization)
    } else {
        match command_decoding(input) {
            Err(e) => Err(e),
            Ok(cmd) => if a.len() < accounts_needed(cmd) {
                Err(TicTacToeError::InvalidAccountSetup)
            } else {
                match cmd {
                    Command::InitDashboard => init_dashboard_spec(a),
                    Command::InitPlayer => init_player_spec(a),
                    Command::InitGame => init_game_spec(a),
                    _ => play_spec(a, cmd, clock),
                }
            },
        }
    }
}

/// Moves from the dashboard's balance what brings an account up to
/// `LOW_LAMPORT_WATERMARK`; returns the dashboard's and the account's new balances.
pub fn fund_to_cover_rent(dashboard_lamports: u64, account_lamports: u64) -> (r: Result<(u64, u64), TicTacToeError>)
    ensures
        r == fund_spec(dashboard_lamports, account_lamports),
{
    if dashboard_lamports <= 1 {
        return Err(TicTacToeError::InsufficientBalance);
    }
    let need = if account_lamports < LOW_LAMPORT_WATERMARK {
        LOW_LAMPORT_WATERMARK - account_lamports
    } else {
        0
    };
    if need > dashboard_lamports {
        return Err(TicTacToeError::InsufficientBalance);
    }
    Ok((dashboard_lamports - need, account_lamports + need))
}

/// Writes `state` over the start of account `i`'s region and sets its balance.
fn store(accounts: &mut Vec<AccountInfo>, i: usize, state: &State, lamports: u64)
    requires
        i < old(accounts)@.len(),
        old(accounts)@[i as int].data@.len() >= STATE_LEN,
        state.wf(),
    ensures
        accounts_view(final(accounts)@) == accounts_view(old(accounts)@).update(
            i as int,
            stored(old(accounts)@[i as int]@, state@, lamports),
        ),
        final(accounts)@.len() == old(accounts)@.len(),
        forall|j: int| 0 <= j < old(accounts)@.len() && j != i ==> #[trigger] final(accounts)@[j]
            @ == old(accounts)@[j]@,
{
    let mut acc = accounts.remove(i);
    let _ = state.serialize(acc.data.as_mut_slice());
    acc.lamports = lamports;
    accounts.insert(i, acc);
    assert(accounts_view(accounts@) =~= accounts_view(old(accounts)@).update(
        i as int,
        stored(old(accounts)@[i as int]@, state@, lamports),
    ));
}

/// Sets the balance of account `i`.
fn set_lamports(accounts: &mut Vec<AccountInfo>, i: usize, lamports: u64)
    requires
        i < old(accounts)@.len(),
    ensures
        accounts_view(final(accounts)@) == accounts_view(old(accounts)@).update(
            i as int,
            with_lamports(old(accounts)@[i as int]@, lamports),
        ),
        final(accounts)@.len() == old(accounts)@.len(),
        forall|j: int| 0 <= j < old(accounts)@.len() && j != i ==> #[trigger] final(accounts)@[j]
            @ == old(accounts)@[j]@,
{
    let mut acc = accounts.remove(i);
    acc.lamports = lamports;
    accounts.insert(i, acc);
    assert(accounts_view(accounts@) =~= accounts_view(old(accounts)@).update(
        i as int,
        with_lamports(old(accounts)@[i as int]@, lamports),
    ));
}

/// Reads the dashboard held by account `i`.
fn load_dashboard(accounts: &Vec<AccountInfo>, i: usize) -> (r: Result<Dashboard, TicTacToeError>)
    requires
        i < accounts@.len(),
    ensures
        match r {
            Ok(d) => d.wf() && dashboard_of(accounts@[i as int]@) == Ok::<DashboardView, TicTacToeError>(d@),
            Err(e) => dashboard_of(accounts@[i as int]@) == Err::<DashboardView, TicTacToeError>(e),
        },
        r is Ok ==> accounts@[i as int].data@.len() >= STATE_LEN,
{
    match State::deserialize(accounts[i].data.as_slice()) {
        Ok(State::Dashboard(d)) => Ok(d),
        Ok(_) => Err(TicTacToeError::InvalidAccountSetup),
        Err(e) => Err(e),
    }
}

/// Whether two accounts have the same owning authority.
fn same_owner(a: &AccountInfo, b: &AccountInfo) -> (r: bool)
    ensures
        r == (a.owner == b.owner),
{
    proof { Pubkey::lemma_eq_iff_bytes(a.owner, b.owner); }
    a.owner == b.owner
}

/// InitDashboard: accounts `[dashboard]`.
fn init_dashboard(accounts: &mut Vec<AccountInfo>) -> (r: Result<(), TicTacToeError>)
    requires
        old(accounts)@.len() >= 1,
    ensures
        match r {
            Ok(_) => init_dashboard_spec(accounts_view(old(accounts)@)) == Ok::<Seq<AccountView>, TicTacToeError>(accounts_view(final(accounts)@)),
            Err(e) => init_dashboard_spec(accounts_view(old(accounts)@)) == Err::<Seq<AccountView>, TicTacToeError>(e) && final(accounts)@ == old(accounts)@,
        },
{
    match State::deserialize(accounts[0].data.as_slice()) {
        Ok(State::Uninitialized) => {},
        Ok(_) => {
            return Err(TicTacToeError::InvalidAccountSetup);
        },
        Err(e) => {
            return Err(e);
        },
    }
    let dashboard = Dashboard::new();
    let lamports = accounts[0].lamports;
    store(accounts, 0, &State::Dashboard(dashboard), lamports);
    Ok(())
}

/// InitPlayer: accounts `[dashboard, player]`.
fn init_player(accounts: &mut Vec<AccountInfo>) -> (r: Result<(), TicTacToeError>)
    requires
        old(accounts)@.len() >= 2,
    ensures
        match r {
            Ok(_) => init_player_spec(accounts_view(old(accounts)@)) == Ok::<Seq<AccountView>, TicTacToeError>(accounts_view(final(accounts)@)),
            Err(e) => init_player_spec(accounts_view(old(accounts)@)) == Err::<Seq<AccountView>, TicTacToeError>(e) && final(accounts)@ == old(accounts)@,
        },
{
    if let Err(e) = load_dashboard(accounts, 0) {
        return Err(e);
    }
    if !same_owner(&accounts[0], &accounts[1]) || accounts[1].data.len() != 0 {
        return Err(TicTacToeError::InvalidAccountSetup);
    }
    let (dashboard_lamports, player_lamports) = match fund_to_cover_rent(
        accounts[0].lamports,
        accounts[1].lamports,
    ) {
        Ok(balances) => balances,
        Err(e) => {
            return Err(e);
        },
    };
    set_lamports(accounts, 0, dashboard_lamports);
    set_lamports(accounts, 1, player_lamports);
    Ok(())
}

/// InitGame: accounts `[game, dashboard, player_x]`.
fn init_game(accounts: &mut Vec<AccountInfo>) -> (r: Result<(), TicTacToeError>)
    requires
        old(accounts)@.len() >= 3,
    ensures
        match r {
            Ok(_) => init_game_spec(accounts_view(old(accounts)@)) == Ok::<Seq<AccountView>, TicTacToeError>(accounts_view(final(accounts)@)),
            Err(e) => init_game_spec(accounts_view(old(accounts)@)) == Err::<Seq<AccountView>, TicTacToeError>(e) && final(accounts)@ == old(accounts)@,
        },
{
    let mut dashboard = match load_dashboard(accounts, 1) {
        Ok(d) => d,
        Err(e) => {
            return Err(e);
        },
    };
    if !same_owner(&accounts[0], &accounts[1]) || !same_owner(&accounts[0], &accounts[2])
        || accounts[2].data.len() != 0 {
        return Err(TicTacToeError::InvalidAccountSetup);
    }
    match State::deserialize(accounts[0].data.as_slice()) {
        Ok(State::Uninitialized) => {},
        Ok(_) => {
            return Err(TicTacToeError::InvalidAccountSetup);
        },
        Err(e) => {
            return Err(e);
        },
    }
    let game = Game::create(&accounts[2].key);
    let game_key = accounts[0].key;
    let _ = dashboard.update(&game_key, &game);
    let (dashboard_lamports, game_lamports) = match fund_to_cover_rent(
        accounts[1].lamports,
        accounts[0].lamports,
    ) {
        Ok(balances) => balances,
        Err(e) => {
            return Err(e);
        },
    };
    let (dashboard_lamports, player_lamports) = match fund_to_cover_rent(
        dashboard_lamports,
        accounts[2].lamports,
    ) {
        Ok(balances) => balances,
        Err(e) => {
            return Err(e);
        },
    };
    store(accounts, 0, &State::Game(game), game_lamports);
    assert(accounts@[1]@ == old(accounts)@[1]@);
    store(accounts, 1, &State::Dashboard(dashboard), dashboard_lamports);
    set_lamports(accounts, 2, player_lamports);
    Ok(())
}

/// Advertise, Join, KeepAlive or Move: accounts `[player, dashboard, game, time source]`.
fn play(accounts: &mut Vec<AccountInfo>, cmd: Command, clock: u64) -> (r: Result<(), TicTacToeError>)
    requires
        old(accounts)@.len() >= 4,
    ensures
        match r {
            Ok(_) => play_spec(accounts_view(old(accounts)@), cmd, clock) == Ok::<Seq<AccountView>, TicTacToeError>(accounts_view(final(accounts)@)),
            Err(e) => play_spec(accounts_view(old(accounts)@), cmd, clock) == Err::<Seq<AccountView>, TicTacToeError>(e) && final(accounts)@ == old(accounts)@,
        },
{
    let mut dashboard = match load_dashboard(accounts, 1) {
        Ok(d) => d,
        Err(e) => {
            return Err(e);
        },
    };
    if !same_owner(&accounts[0], &accounts[1]) || accounts[0].data.len() != 0 || !same_owner(
        &accounts[1],
        &accounts[2],
    ) {
        return Err(TicTacToeError::InvalidAccountSetup);
    }
    let mut game = match State::deserialize(accounts[2].data.as_slice()) {
        Ok(State::Game(g)) => g,
        Ok(_) => {
            return Err(TicTacToeError::InvalidAccountSetup);
        },
        Err(e) => {
            return Err(e);
        },
    };
    let player = accounts[0].key;
    let res = match cmd {
        Command::Join => game.join(player, clock),
        Command::Move(x, y) => game.next_move(player, x as usize, y as usize),
        Command::KeepAlive => game.keep_alive(player, clock),
        _ => Ok(()),
    };
    if let Err(e) = res {
        return Err(e);
    }
    let game_key = accounts[2].key;
    let finished = match game.game_state {
        GameState::XWon | GameState::OWon | GameState::Draw => true,
        _ => false,
    };
    if finished && dashboard.total() == u64::MAX && !dashboard.is_completed(&game_key) {
        return Err(TicTacToeError::InvalidAccountSetup);
    }
    let _ = dashboard.update(&game_key, &game);
    let (dashboard_lamports, game_lamports) = match fund_to_cover_rent(
        accounts[1].lamports,
        accounts[2].lamports,
    ) {
        Ok(balances) => balances,
        Err(e) => {
            return Err(e);
        },
    };
    let (dashboard_lamports, player_lamports) = match fund_to_cover_rent(
        dashboard_lamports,
        accounts[0].lamports,
    ) {
        Ok(balances) => balances,
        Err(e) => {
            return Err(e);
        },
    };
    assert(accounts@[2].data@.len() >= STATE_LEN);
    set_lamports(accounts, 0, player_lamports);
    assert(accounts@[1]@ == old(accounts)@[1]@);
    assert(accounts@[2]@ == old(accounts)@[2]@);
    store(accounts, 1, &State::Dashboard(dashboard), dashboard_lamports);
    assert(accounts@[2]@ == old(accounts)@[2]@);
    store(accounts, 2, &State::Game(game), game_lamports);
    Ok(())
}

/// Runs one instruction with payload `instruction_data` against `accounts`,
/// the time source reading `clock`. On error no account is changed.
pub fn process_instruction(accounts: &mut Vec<AccountInfo>, instruction_data: &[u8], clock: u64) -> (r: Result<(), TicTacToeError>)
    ensures
        match r {
            Ok(_) => process_spec(accounts_view(old(accounts)@), instruction_data@, clock) == Ok::<Seq<AccountView>, TicTacToeError>(accounts_view(final(accounts)@)),
            Err(e) => process_spec(accounts_view(old(accounts)@), instruction_data@, clock) == Err::<Seq<AccountView>, TicTacToeError>(e) && final(accounts)@ == old(accounts)@,
        },
{
    if accounts.len() == 0 {
        return Err(TicTacToeError::InvalidAccountSetup);
    }
    if !accounts[0].is_signer {
        return Err(TicTacToeError::MissingAuthorization);
    }
    let cmd = match Command::deserialize(instruction_data) {
        Ok(c) => c,
        Err(e) => {
            return Err(e);
        },
    };
    let needed: usize = match cmd {
        Command::InitDashboard => 1,
        Command::InitPlayer => 2,
        Command::InitGame => 3,
        _ => 4,
    };
    if accounts.len() < needed {
        return Err(TicTacToeError::InvalidAccountSetup);
    }
    match cmd {
        Command::InitDashboard => init_dashboard(accounts),
        Command::InitPlayer => init_player(accounts),
        Command::InitGame => init_game(accounts),
        _ => play(accounts, cmd, clock),
    }
}

} // verus!
