use crate::game::{Game, GameState};
use crate::bytes::zeros;
use crate::pubkey::{PUBKEY_LEN, Pubkey};
use crate::result::TicTacToeError;
use vstd::prelude::*;

verus! {

/// How many completed games a dashboard remembers.
pub const MAX_COMPLETED_GAMES: usize = 5;

/// Registry of the latest advertised game and of the most recently completed ones.
#[derive(Debug)]
pub struct Dashboard {
    /// Number of games ever seen completed.
    total: u64,
    /// Latest advertised game.
    pending: Pubkey,
    /// Last completed games, the latest first.
    completed: Vec<Pubkey>,
}

/// What a dashboard holds.
pub struct DashboardView {
    pub total: u64,
    pub pending: Pubkey,
    pub completed: Seq<Pubkey>,
}

impl View for Dashboard {
    type V = DashboardView;

    closed spec fn view(&self) -> DashboardView {
        DashboardView { total: self.total, pending: self.pending, completed: self.completed@ }
    }
}

/// A dashboard that has seen no game; its pending game is the all-zero key.
pub open spec fn empty_dashboard() -> DashboardView {
    DashboardView {
        total: 0,
        pending: Pubkey::from_bytes_spec(zeros(PUBKEY_LEN as nat)),
        completed: Seq::empty(),
    }
}

/// At most `MAX_COMPLETED_GAMES` completed games, none listed twice.
pub open spec fn completed_wf(completed: Seq<Pubkey>) -> bool {
    completed.len() <= MAX_COMPLETED_GAMES && completed.no_duplicates()
}

/// `completed` after `game` is put in front, dropping the oldest entry
/// when there are more than `MAX_COMPLETED_GAMES`.
pub open spec fn push_completed(completed: Seq<Pubkey>, game: Pubkey) -> Seq<Pubkey> {
    let c = seq![game] + completed;
    if c.len() > MAX_COMPLETED_GAMES {
        c.drop_last()
    } else {
        c
    }
}

/// What `update` makes of dashboard `d` for the game `game_pubkey` in state `s`:
/// a waiting game becomes the pending one; a game in play changes nothing; a
/// finished game not yet listed is counted and listed first.
pub open spec fn update_spec(d: DashboardView, game_pubkey: Pubkey, s: GameState) -> DashboardView {
    match s {
        GameState::Waiting => DashboardView { pending: game_pubkey, ..d },
        GameState::XMove | GameState::OMove => d,
        _ => if d.completed.contains(game_pubkey) {
            d
        } else {
            DashboardView {
                total: (d.total + 1) as u64,
                completed: push_completed(d.completed, game_pubkey),
                ..d
            }
        },
    }
}

/// Whether `update` counts the game `game_pubkey` in state `s` as newly completed.
pub open spec fn counts_as_new(d: DashboardView, game_pubkey: Pubkey, s: GameState) -> bool {
    s.is_terminal() && !d.completed.contains(game_pubkey)
}

/// Putting a game not yet listed in front keeps the list well formed, and the
/// game is then listed.
pub proof fn lemma_push_completed(completed: Seq<Pubkey>, game: Pubkey)
    requires
        completed_wf(completed),
        !completed.contains(game),
    ensures
        completed_wf(push_completed(completed, game)),
        push_completed(completed, game).contains(game),
        push_completed(completed, game)[0] == game,
{
    let c = seq![game] + completed;
    assert(c[0] == game);
    assert forall|i: int, j: int| 0 <= i < c.len() && 0 <= j < c.len() && i != j implies c[i]
        != c[j] by {
        if i == 0 && j > 0 {
            assert(completed[j - 1] == c[j]);
        } else if j == 0 && i > 0 {
            assert(completed[i - 1] == c[i]);
        } else if i > 0 && j > 0 {
            assert(completed[i - 1] == c[i] && completed[j - 1] == c[j]);
        }
    }
    let r = push_completed(completed, game);
    assert(r[0] == game);
}

/// Updating twice with the same finished game changes the dashboard only the
/// first time.
pub proof fn lemma_update_idempotent(d: DashboardView, game_pubkey: Pubkey, s: GameState)
    requires
        completed_wf(d.completed),
        s.is_terminal(),
    ensures
        update_spec(update_spec(d, game_pubkey, s), game_pubkey, s) == update_spec(
            d,
            game_pubkey,
            s,
        ),
{
    if !d.completed.contains(game_pubkey) {
        lemma_push_completed(d.completed, game_pubkey);
    }
}

/// The dashboard after `update` with each game of `games`, in order, all in
/// finished state `s`.
pub open spec fn record_finished(d: DashboardView, games: Seq<Pubkey>, s: GameState) -> DashboardView
    decreases games.len(),
{
    if games.len() == 0 {
        d
    } else {
        update_spec(record_finished(d, games.drop_last(), s), games.last(), s)
    }
}

/// After distinct games finish one after another and each is recorded once
/// on an empty dashboard, the dashboard has counted them all and lists the
/// latest `MAX_COMPLETED_GAMES` of them, the most recent first.
pub proof fn lemma_completed_keeps_latest(d: DashboardView, games: Seq<Pubkey>, s: GameState)
    requires
        d.total == 0,
        d.completed.len() == 0,
        s.is_terminal(),
        games.no_duplicates(),
        games.len() < u64::MAX,
    ensures
        record_finished(d, games, s).total == games.len(),
        record_finished(d, games, s).completed.len() == if games.len() < MAX_COMPLETED_GAMES {
            games.len()
        } else {
            MAX_COMPLETED_GAMES as nat
        },
        forall|i: int|
            0 <= i < record_finished(d, games, s).completed.len() ==> #[trigger] record_finished(
                d,
                games,
                s,
            ).completed[i] == games[games.len() - 1 - i],
    decreases games.len(),
{
    if games.len() > 0 {
        let n = games.len() as int;
        let rest = games.drop_last();
        assert(rest.no_duplicates());
        lemma_completed_keeps_latest(d, rest, s);
        let prev = record_finished(d, rest, s);
        let last = games.last();
        if prev.completed.contains(last) {
            let k = choose|k: int| 0 <= k < prev.completed.len() && prev.completed[k] == last;
            assert(prev.completed[k] == games[n - 2 - k]);
            assert(false);
        }
        let c = seq![last] + prev.completed;
        assert forall|i: int| 0 <= i < c.len() implies c[i] == games[n - 1 - i] by {
            if i > 0 {
                assert(c[i] == prev.completed[i - 1]);
            }
        }
    }
}

impl Dashboard {
    /// An empty dashboard.
    pub fn new() -> (r: Dashboard)
        ensures
            r.wf(),
            r@ == empty_dashboard(),
    {
        let r = Dashboard {
            total: 0,
            pending: Pubkey::new_from_array([0u8; 32]),
            completed: Vec::new(),
        };
        proof {
            Pubkey::lemma_from_bytes_view(r.pending);
            assert(r.pending@ =~= zeros(PUBKEY_LEN as nat));
            assert(r@.completed =~= Seq::<Pubkey>::empty());
        }
        r
    }

    /// The invariant every dashboard keeps.
    pub open spec fn wf(&self) -> bool {
        completed_wf(self@.completed)
    }

    /// Builds a dashboard from its parts, or `None` where `completed` lists a
    /// game twice or more than `MAX_COMPLETED_GAMES` of them.
    pub fn from_parts(total: u64, pending: Pubkey, completed: Vec<Pubkey>) -> (r: Option<Dashboard>)
        ensures
            r is Some <==> completed_wf(completed@),
            r matches Some(d) ==> d.wf() && d@ == (DashboardView {
                total,
                pending,
                completed: completed@,
            }),
    {
        if completed.len() > MAX_COMPLETED_GAMES {
            return None;
        }
        let mut i: usize = 0;
        while i < completed.len()
            invariant
                0 <= i <= completed.len(),
                forall|a: int, b: int| 0 <= a < i && 0 <= b < completed.len() && a != b
                    ==> completed@[a] != completed@[b],
            decreases completed.len() - i,
        {
            let mut j: usize = 0;
            while j < completed.len()
                invariant
                    0 <= i < completed.len(),
                    0 <= j <= completed.len(),
                    forall|a: int, b: int| 0 <= a < i && 0 <= b < completed.len() && a != b
                        ==> completed@[a] != completed@[b],
                    forall|b: int| 0 <= b < j && i != b ==> completed@[i as int] != completed@[b],
                decreases completed.len() - j,
            {
                proof { Pubkey::lemma_eq_iff_bytes(completed[i as int], completed[j as int]); }
                if i != j && completed[i] == completed[j] {
                    return None;
                }
                j = j + 1;
            }
            i = i + 1;
        }
        Some(Dashboard { total, pending, completed })
    }

    /// Number of games ever seen completed.
    pub fn total(&self) -> (r: u64)
        ensures
            r == self@.total,
    {
        self.total
    }

    /// The latest advertised game.
    pub fn pending(&self) -> (r: Pubkey)
        ensures
            r == self@.pending,
    {
        self.pending
    }

    /// The last completed games, the latest first.
    pub fn completed(&self) -> (r: &Vec<Pubkey>)
        ensures
            r@ == self@.completed,
    {
        &self.completed
    }

    /// Whether `game_pubkey` is among the completed games.
    pub fn is_completed(&self, game_pubkey: &Pubkey) -> (r: bool)
        ensures
            r == self@.completed.contains(*game_pubkey),
    {
        let mut i: usize = 0;
        while i < self.completed.len()
            invariant
                0 <= i <= self.completed.len(),
                forall|j: int| 0 <= j < i ==> self.completed@[j] != *game_pubkey,
            decreases self.completed.len() - i,
        {
            proof { Pubkey::lemma_eq_iff_bytes(self.completed[i as int], *game_pubkey); }
            if self.completed[i] == *game_pubkey {
                assert(self@.completed[i as int] == *game_pubkey);
                return true;
            }
            i = i + 1;
        }
        false
    }

    /// Records what `game` shows of the game `game_pubkey`.
    pub fn update(&mut self, game_pubkey: &Pubkey, game: &Game) -> (r: Result<(), TicTacToeError>)
        requires
            old(self).wf(),
            counts_as_new(old(self)@, *game_pubkey, game.game_state) ==> old(self)@.total
                < u64::MAX,
        ensures
            r is Ok,
            final(self).wf(),
            final(self)@ == update_spec(old(self)@, *game_pubkey, game.game_state),
    {
        match game.game_state {
            GameState::Waiting => {
                self.pending = *game_pubkey;
            },
            GameState::XMove | GameState::OMove => {},
            GameState::XWon | GameState::OWon | GameState::Draw => {
                if !self.is_completed(game_pubkey) {
                    proof { lemma_push_completed(self@.completed, *game_pubkey); }
                    self.total = self.total + 1;
                    self.completed.insert(0, *game_pubkey);
                    if self.completed.len() > MAX_COMPLETED_GAMES {
                        self.completed.pop();
                    }
                    assert(self@.completed =~= push_completed(old(self)@.completed, *game_pubkey));
                }
            },
        }
        Ok(())
    }
}

impl Default for Dashboard {
    fn default() -> (r: Dashboard)
        ensures
            r.wf(),
            r@ == empty_dashboard(),
    {
        Dashboard::new()
    }
}

} // verus!
