use vstd::prelude::*;

use crate::figure::{board_cell, cell_of, Figure};
use crate::player::GamePlayer;
use crate::{GameResponse, Outgoing};

verus! {

/// rand's SmallRng, the die source of a game made by `Game::new`; carried, never looked into.
#[verifier::external_type_specification]
#[verifier::external_body]
pub struct ExSmallRng(rand::rngs::SmallRng);

/// Relies on rand's SeedableRng::from_entropy for SmallRng: a generator seeded by the
/// operating system. Nothing is promised of it (rand panics only where the operating
/// system has no randomness to give).
#[verifier::external_body]
fn entropy_rng() -> (r: rand::rngs::SmallRng) {
    <rand::rngs::SmallRng as rand::SeedableRng>::from_entropy()
}

/// Relies on rand::thread_rng and Rng::gen_range over `0..n`: a random index below `n`.
#[verifier::external_body]
fn random_below(n: usize) -> (r: usize)
    requires
        n > 0,
    ensures
        r < n,
{
    rand::Rng::gen_range(&mut rand::thread_rng(), 0..n)
}

/// A running game: its players in turn order, whose turn it is, the source of die rolls, and
/// the order in which players finished.
pub struct Game<R, Tx, Rx> {
    pub id: u128,
    pub players: Vec<GamePlayer<Tx, Rx>>,
    pub next_player: usize,
    pub rng: R,
    pub ranking: Vec<usize>,
}

/// The figure sequence `figs` of player `mover` has a figure on the track at shared cell `cell`.
pub open spec fn occupies(figs: Seq<Figure>, mover: int, cell: int) -> bool {
    exists|j: int|
        0 <= j < figs.len() && (#[trigger] figs[j] matches Figure::OnField { moved }
            && board_cell(mover, moved as int) == cell)
}

/// A figure of player `owner` after player `mover`, with figures `mover_figs`, has moved:
/// a figure on the track on a cell that the mover occupies goes back to the start.
pub open spec fn after_capture(f: Figure, owner: int, mover_figs: Seq<Figure>, mover: int) -> Figure {
    match f {
        Figure::OnField { moved } => if occupies(mover_figs, mover, board_cell(owner, moved as int)) {
            Figure::InStart
        } else {
            f
        },
        _ => f,
    }
}

/// A finishing order: no index twice, each one of a player that has finished.
pub open spec fn ranking_wf<Tx, Rx>(ranking: Seq<usize>, players: Seq<GamePlayer<Tx, Rx>>) -> bool {
    &&& forall|k: int| 0 <= k < ranking.len() ==> (#[trigger] ranking[k]) < players.len()
    &&& forall|k: int| 0 <= k < ranking.len() ==> players[#[trigger] ranking[k] as int].done
    &&& forall|k: int, l: int| 0 <= k < l < ranking.len() ==> ranking[k] != ranking[l]
}

/// `r` is the `State` response for players `players`.
pub open spec fn is_state_of<Tx, Rx>(r: GameResponse, players: Seq<GamePlayer<Tx, Rx>>) -> bool {
    &&& r is State
    &&& r->State_players@.len() == players.len()
    &&& forall|i: int| 0 <= i < players.len() ==> {
        &&& (#[trigger] r->State_players@[i]).0 == players[i].name
        &&& r->State_players@[i].1 == players[i].figures
    }
}

/// `r` is the first index of a player whose rejoin code is `code`, or `None` where there is none.
pub open spec fn is_first_with_code<Tx, Rx>(players: Seq<GamePlayer<Tx, Rx>>, code: u128, r: Option<usize>) -> bool {
    match r {
        Some(p) => {
            &&& p < players.len()
            &&& players[p as int].rejoin_code == code
            &&& forall|q: int| 0 <= q < p ==> (#[trigger] players[q]).rejoin_code != code
        },
        None => forall|q: int| 0 <= q < players.len() ==> (#[trigger] players[q]).rejoin_code != code,
    }
}

/// `next` is the first player after `start`, going forward and wrapping round to `start`
/// itself, that has not finished.
pub open spec fn is_next_unfinished<Tx, Rx>(players: Seq<GamePlayer<Tx, Rx>>, start: int, next: int) -> bool {
    let n = players.len() as int;
    exists|d: int|
        1 <= d <= n && next == #[trigger] wrapped(start, d, n) && !players[next].done && forall|e: int|
            1 <= e < d ==> (#[trigger] players[wrapped(start, e, n)]).done
}

/// The index `d` places after `start` among `n`, wrapping round.
pub open spec fn wrapped(start: int, d: int, n: int) -> int {
    (start + d) % n
}

impl<R, Tx, Rx> Game<R, Tx, Rx> {
    /// A game has players, the turn is at one of them, all figures are on the board, and the
    /// finishing order is well formed.
    pub open spec fn wf(&self) -> bool {
        &&& self.players@.len() > 0
        &&& self.next_player < self.players@.len()
        &&& forall|p: int| 0 <= p < self.players@.len() ==> (#[trigger] self.players@[p]).wf()
        &&& ranking_wf(self.ranking@, self.players@)
    }

    /// A game for the given players, in the given order, all figures in the start, with the
    /// turn at a random player.
    pub fn new_with_rng(id: u128, players: Vec<(String, (Tx, Rx))>, rng: R) -> (r: Self)
        requires
            players@.len() > 0,
        ensures
            r.wf(),
            r.id == id,
            r.rng == rng,
            r.ranking@.len() == 0,
            r.players@.len() == players@.len(),
            forall|p: int| 0 <= p < players@.len() ==> {
                &&& (#[trigger] r.players@[p]).name == players@[p].0
                &&& r.players@[p].send == players@[p].1.0
                &&& r.players@[p].recv == players@[p].1.1
                &&& r.players@[p].figures@ == seq![Figure::InStart, Figure::InStart, Figure::InStart, Figure::InStart]
                &&& !r.players@[p].done
            },
    {
        let n = players.len();
        let mut rest = players;
        let mut made: Vec<GamePlayer<Tx, Rx>> = Vec::new();
        while rest.len() > 0
            invariant
                made@.len() + rest@.len() == players@.len(),
                rest@ == players@.subrange(made@.len() as int, players@.len() as int),
                forall|p: int| 0 <= p < made@.len() ==> {
                    &&& (#[trigger] made@[p]).name == players@[p].0
                    &&& made@[p].send == players@[p].1.0
                    &&& made@[p].recv == players@[p].1.1
                    &&& made@[p].figures@ == seq![Figure::InStart, Figure::InStart, Figure::InStart, Figure::InStart]
                    &&& !made@[p].done
                    &&& made@[p].wf()
                },
            decreases rest@.len(),
        {
            let (name, channel) = rest.remove(0);
            made.push(GamePlayer::new(name, channel));
        }
        Game { id, players: made, next_player: random_below(n), rng, ranking: Vec::new() }
    }

    /// Whether figure sequence `figs` of player `mover` has a figure on the track at `cell`.
    fn occupied_by(figs: &[Figure; 4], mover: usize, cell: usize) -> (r: bool)
        requires
            forall|j: int| 0 <= j < 4 ==> (#[trigger] figs@[j]).wf(),
        ensures
            r == occupies(figs@, mover as int, cell as int),
    {
        let mut j: usize = 0;
        while j < 4
            invariant
                j <= 4,
                forall|k: int| 0 <= k < 4 ==> (#[trigger] figs@[k]).wf(),
                forall|k: int|
                    0 <= k < j ==> !(#[trigger] figs@[k] matches Figure::OnField { moved }
                        && board_cell(mover as int, moved as int) == cell),
            decreases 4 - j,
        {
            if let Figure::OnField { moved } = figs[j] {
                if cell_of(mover, moved) == cell {
                    return true;
                }
            }
            j += 1;
        }
        false
    }

    /// Sends back to the start every figure of another player that stands on the track on a
    /// cell where a figure of player `player` stands on the track. The mover's figures stay.
    pub fn check_move(&mut self, player: usize)
        requires
            old(self).wf(),
            player < old(self).players@.len(),
        ensures
            final(self).wf(),
            final(self).id == old(self).id,
            final(self).next_player == old(self).next_player,
            final(self).rng == old(self).rng,
            final(self).ranking == old(self).ranking,
            final(self).players@.len() == old(self).players@.len(),
            forall|p: int|
                0 <= p < old(self).players@.len() ==> (#[trigger] final(self).players@[p]).same_but_figures(
                    &old(self).players@[p],
                ),
            final(self).players@[player as int].figures == old(self).players@[player as int].figures,
            forall|p: int, i: int|
                0 <= p < old(self).players@.len() && p != player && 0 <= i < 4
                    ==> #[trigger] final(self).players@[p].figures@[i] == after_capture(
                    old(self).players@[p].figures@[i],
                    p,
                    old(self).players@[player as int].figures@,
                    player as int,
                ),
    {
        let mover_figs = self.players[player].figures;
        let n = self.players.len();
        let mut p: usize = 0;
        while p < n
            invariant
                n == old(self).players@.len(),
                self.players@.len() == n,
                p <= n,
                player < n,
                self.wf(),
                self.id == old(self).id,
                self.next_player == old(self).next_player,
                self.rng == old(self).rng,
                self.ranking == old(self).ranking,
                mover_figs == old(self).players@[player as int].figures,
                forall|k: int| 0 <= k < 4 ==> (#[trigger] mover_figs@[k]).wf(),
                forall|q: int| 0 <= q < n ==> (#[trigger] self.players@[q]).same_but_figures(&old(self).players@[q]),
                forall|q: int| p <= q < n || q == player ==> (#[trigger] self.players@[q]).figures == old(self).players@[q].figures,
                forall|q: int, i: int|
                    0 <= q < p && q != player && 0 <= i < 4 ==> #[trigger] self.players@[q].figures@[i]
                        == after_capture(old(self).players@[q].figures@[i], q, mover_figs@, player as int),
            decreases n - p,
        {
            if p != player {
                let mut figs = self.players[p].figures;
                let mut i: usize = 0;
                while i < 4
                    invariant
                        i <= 4,
                        p < n,
                        n == old(self).players@.len(),
                        old(self).players@[p as int].wf(),
                        forall|k: int| 0 <= k < 4 ==> (#[trigger] mover_figs@[k]).wf(),
                        forall|k: int|
                            0 <= k < i ==> #[trigger] figs@[k] == after_capture(
                                old(self).players@[p as int].figures@[k],
                                p as int,
                                mover_figs@,
                                player as int,
                            ),
                        forall|k: int| i <= k < 4 ==> #[trigger] figs@[k] == old(self).players@[p as int].figures@[k],
                    decreases 4 - i,
                {
                    if let Figure::OnField { moved } = figs[i] {
                        let cell = cell_of(p, moved);
                        if Self::occupied_by(&mover_figs, player, cell) {
                            figs[i] = Figure::InStart;
                        }
                    }
                    i += 1;
                }
                self.players[p].figures = figs;
            }
            p += 1;
        }
    }

    /// Whether every player has finished.
    pub fn is_done(&self) -> (r: bool)
        ensures
            r == forall|p: int| 0 <= p < self.players@.len() ==> (#[trigger] self.players@[p]).done,
    {
        let mut p: usize = 0;
        while p < self.players.len()
            invariant
                p <= self.players@.len(),
                forall|q: int| 0 <= q < p ==> (#[trigger] self.players@[q]).done,
            decreases self.players@.len() - p,
        {
            if !self.players[p].done {
                return false;
            }
            p += 1;
        }
        true
    }

    /// Every player's name and figures, in turn order.
    pub fn state_response(&self) -> (r: GameResponse)
        ensures
            is_state_of(r, self.players@),
    {
        let mut list: Vec<(String, [Figure; 4])> = Vec::new();
        let mut p: usize = 0;
        while p < self.players.len()
            invariant
                p <= self.players@.len(),
                list@.len() == p,
                forall|q: int| 0 <= q < p ==> {
                    &&& (#[trigger] list@[q]).0 == self.players@[q].name
                    &&& list@[q].1 == self.players@[q].figures
                },
            decreases self.players@.len() - p,
        {
            list.push((self.players[p].name.clone(), self.players[p].figures));
            p += 1;
        }
        GameResponse::State { players: list }
    }

    /// For the player at index `you`: the name of every player in turn order, marking its own.
    pub fn indications(&self, you: usize) -> (r: Vec<GameResponse>)
        ensures
            r@.len() == self.players@.len(),
            forall|q: int| 0 <= q < self.players@.len() ==> #[trigger] r@[q] == (GameResponse::IndicatePlayer {
                player: q as usize,
                name: self.players@[q].name,
                you: q == you,
            }),
    {
        let mut r: Vec<GameResponse> = Vec::new();
        let mut q: usize = 0;
        while q < self.players.len()
            invariant
                q <= self.players@.len(),
                r@.len() == q,
                forall|k: int| 0 <= k < q ==> #[trigger] r@[k] == (GameResponse::IndicatePlayer {
                    player: k as usize,
                    name: self.players@[k].name,
                    you: k == you,
                }),
            decreases self.players@.len() - q,
        {
            r.push(GameResponse::IndicatePlayer { player: q, name: self.players[q].name.clone(), you: q == you });
            q += 1;
        }
        r
    }

    /// What a game sends when it starts: the state to all, every player's list of players,
    /// each player's rejoin code to that player, and the turn to the player who begins.
    pub fn opening(&self) -> (r: Vec<Outgoing>)
        requires
            self.wf(),
        ensures
            r@.len() == self.players@.len() + 3,
            r@[0] matches Outgoing::ToAll { response } && is_state_of(response, self.players@),
            r@[1] == Outgoing::Identify,
            forall|p: int| 0 <= p < self.players@.len() ==> #[trigger] r@[p + 2] == (Outgoing::ToPlayer {
                player: p as usize,
                response: GameResponse::RejoinCode { game: self.id, code: self.players@[p].rejoin_code },
            }),
            r@[self.players@.len() + 2int] == (Outgoing::ToPlayer { player: self.next_player, response: GameResponse::Turn }),
    {
        let mut r: Vec<Outgoing> = Vec::new();
        r.push(Outgoing::ToAll { response: self.state_response() });
        r.push(Outgoing::Identify);
        let mut p: usize = 0;
        while p < self.players.len()
            invariant
                p <= self.players@.len(),
                r@.len() == p + 2,
                r@[0] matches Outgoing::ToAll { response } && is_state_of(response, self.players@),
                r@[1] == Outgoing::Identify,
                forall|q: int| 0 <= q < p ==> #[trigger] r@[q + 2] == (Outgoing::ToPlayer {
                    player: q as usize,
                    response: GameResponse::RejoinCode { game: self.id, code: self.players@[q].rejoin_code },
                }),
            decreases self.players@.len() - p,
        {
            r.push(Outgoing::ToPlayer {
                player: p,
                response: GameResponse::RejoinCode { game: self.id, code: self.players[p].rejoin_code },
            });
            p += 1;
        }
        r.push(Outgoing::ToPlayer { player: self.next_player, response: GameResponse::Turn });
        r
    }

    /// The first player whose rejoin code is `code`.
    pub fn find_rejoin(&self, code: u128) -> (r: Option<usize>)
        ensures
            is_first_with_code(self.players@, code, r),
    {
        let mut p: usize = 0;
        while p < self.players.len()
            invariant
                p <= self.players@.len(),
                forall|q: int| 0 <= q < p ==> (#[trigger] self.players@[q]).rejoin_code != code,
            decreases self.players@.len() - p,
        {
            if self.players[p].rejoin_code == code {
                return Some(p);
            }
            p += 1;
        }
        None
    }

    /// Moves the turn forward, wrapping, to the next player that has not finished.
    pub fn advance_turn(&mut self)
        requires
            old(self).wf(),
            exists|p: int| 0 <= p < old(self).players@.len() && !(#[trigger] old(self).players@[p]).done,
        ensures
            final(self).players == old(self).players,
            final(self).id == old(self).id,
            final(self).rng == old(self).rng,
            final(self).ranking == old(self).ranking,
            final(self).wf(),
            is_next_unfinished(old(self).players@, old(self).next_player as int, final(self).next_player as int),
    {
        let n = self.players.len();
        let start = self.next_player;
        let mut k: usize = 1;
        while k < n
            invariant
                n == self.players@.len(),
                self.players == old(self).players,
                self.id == old(self).id,
                self.rng == old(self).rng,
                self.ranking == old(self).ranking,
                self.next_player == start,
                start == old(self).next_player,
                old(self).wf(),
                start < n,
                1 <= k <= n,
                forall|d: int| 1 <= d < k ==> (#[trigger] self.players@[wrapped(start as int, d, n as int)]).done,
            decreases n - k,
        {
            let idx = if k < n - start {
                start + k
            } else {
                k - (n - start)
            };
            proof {
                if k < n - start {
                    vstd::arithmetic::div_mod::lemma_small_mod((start + k) as nat, n as nat);
                } else {
                    vstd::arithmetic::div_mod::lemma_small_mod(idx as nat, n as nat);
                    vstd::arithmetic::div_mod::lemma_mod_add_multiples_vanish(idx as int, n as int);
                }
            }
            assert(idx == wrapped(start as int, k as int, n as int));
            if !self.players[idx].done {
                self.next_player = idx;
                assert(is_next_unfinished(old(self).players@, start as int, idx as int));
                return;
            }
            k += 1;
        }
        proof {
            let p = choose|p: int| 0 <= p < n && !(#[trigger] self.players@[p]).done;
            if p != start {
                let d = if p > start { p - start } else { p + n - start };
                if p > start {
                    vstd::arithmetic::div_mod::lemma_small_mod(p as nat, n as nat);
                } else {
                    vstd::arithmetic::div_mod::lemma_small_mod(p as nat, n as nat);
                    vstd::arithmetic::div_mod::lemma_mod_add_multiples_vanish(p, n as int);
                }
                assert(self.players@[wrapped(start as int, d, n as int)].done);
            }
            vstd::arithmetic::div_mod::lemma_mod_self_0(n as int);
            vstd::arithmetic::div_mod::lemma_mod_add_multiples_vanish(start as int, n as int);
            vstd::arithmetic::div_mod::lemma_small_mod(start as nat, n as nat);
            assert(wrapped(start as int, n as int, n as int) == start);
        }
    }
}

impl<Tx, Rx> Game<rand::rngs::SmallRng, Tx, Rx> {
    /// A game for the given players whose die rolls come from a generator seeded by the
    /// operating system.
    pub fn new(id: u128, players: Vec<(String, (Tx, Rx))>) -> (r: Self)
        requires
            players@.len() > 0,
        ensures
            r.wf(),
            r.id == id,
            r.ranking@.len() == 0,
            r.players@.len() == players@.len(),
            forall|p: int| 0 <= p < players@.len() ==> {
                &&& (#[trigger] r.players@[p]).name == players@[p].0
                &&& r.players@[p].send == players@[p].1.0
                &&& r.players@[p].recv == players@[p].1.1
                &&& r.players@[p].figures@ == seq![Figure::InStart, Figure::InStart, Figure::InStart, Figure::InStart]
                &&& !r.players@[p].done
            },
    {
        Self::new_with_rng(id, players, entropy_rng())
    }
}

} // verus!
