use vstd::prelude::*;

use crate::figure::{apply_move, figure_after, Figure, HOME_LEN, MAX_ROLL};

verus! {

/// Relies on uuid::Uuid::new_v4 and Uuid::as_u128: a fresh random token, as a 128-bit number.
/// Nothing is promised of its value.
#[verifier::external_body]
fn new_rejoin_code() -> (r: u128) {
    uuid::Uuid::new_v4().as_u128()
}

/// A player of a running game, with the two halves of its message channel.
pub struct GamePlayer<Tx, Rx> {
    pub name: String,
    pub send: Tx,
    pub recv: Rx,
    pub figures: [Figure; 4],
    pub done: bool,
    pub rejoin_code: u128,
}

/// What a move of figure `index` by `amount` gives: the figure's new position, or `None`
/// where the index is out of range or the result is a position that one of the player's
/// figures already holds (an overshoot leaves the figure where it is, so it counts too).
pub open spec fn move_outcome(figs: Seq<Figure>, index: int, amount: int) -> Option<Figure> {
    if 0 <= index < figs.len() {
        let n = figure_after(figs[index], amount);
        if figs.contains(n) {
            None
        } else {
            Some(n)
        }
    } else {
        None
    }
}

/// The figures after a move of figure `index` by `amount`.
pub open spec fn figures_after_move(figs: Seq<Figure>, index: int, amount: int) -> Seq<Figure> {
    match move_outcome(figs, index, amount) {
        Some(n) => figs.update(index, n),
        None => figs,
    }
}

/// Home-row slot `s` holds none of the figures `figs`.
pub open spec fn home_slot_free(figs: Seq<Figure>, s: int) -> bool {
    !figs.contains(Figure::InHouse { pos: s as usize })
}

/// Figure `f` of a player whose figures are `figs` can still be moved by some roll: it is on
/// the track, or it is in the home row and a slot above it holds none of the player's figures.
pub open spec fn can_advance(figs: Seq<Figure>, f: Figure) -> bool {
    match f {
        Figure::InStart => false,
        Figure::OnField { .. } => true,
        Figure::InHouse { pos } => exists|s: int| pos < s < HOME_LEN && #[trigger] home_slot_free(figs, s),
    }
}

/// Some figure of `figs` can still be moved by some roll.
pub open spec fn has_movable(figs: Seq<Figure>) -> bool {
    exists|i: int| 0 <= i < figs.len() && can_advance(figs, #[trigger] figs[i])
}

/// No two figures of `figs` share a position on the track or in the home row.
pub open spec fn apart(figs: Seq<Figure>) -> bool {
    forall|j: int, k: int|
        0 <= j < figs.len() && 0 <= k < figs.len() && j != k && (#[trigger] figs[j]) == (#[trigger] figs[k])
            ==> figs[j] is InStart
}

/// Every figure of the sequence is in its home row.
pub open spec fn all_home(figs: Seq<Figure>) -> bool {
    forall|i: int| 0 <= i < figs.len() ==> (#[trigger] figs[i]) is InHouse
}

impl<Tx, Rx> GamePlayer<Tx, Rx> {
    /// All four figures stand on the board.
    pub open spec fn wf(&self) -> bool {
        forall|i: int| 0 <= i < 4 ==> (#[trigger] self.figures@[i]).wf()
    }

    /// `other` is this player with possibly other figures.
    pub open spec fn same_but_figures(&self, other: &Self) -> bool {
        &&& self.name == other.name
        &&& self.send == other.send
        &&& self.recv == other.recv
        &&& self.done == other.done
        &&& self.rejoin_code == other.rejoin_code
    }

    /// A new player with all four figures in the start and a fresh rejoin code.
    pub fn new(name: String, channel: (Tx, Rx)) -> (r: Self)
        ensures
            r.name == name,
            r.send == channel.0,
            r.recv == channel.1,
            r.figures@ == seq![Figure::InStart, Figure::InStart, Figure::InStart, Figure::InStart],
            !r.done,
            r.wf(),
    {
        let (send, recv) = channel;
        let r = GamePlayer {
            name,
            send,
            recv,
            figures: [Figure::InStart, Figure::InStart, Figure::InStart, Figure::InStart],
            done: false,
            rejoin_code: new_rejoin_code(),
        };
        assert(r.figures@ =~= seq![Figure::InStart, Figure::InStart, Figure::InStart, Figure::InStart]);
        r
    }

    /// Whether home-row slot `s` holds none of the player's figures.
    fn home_slot_is_free(&self, s: usize) -> (r: bool)
        ensures
            r == home_slot_free(self.figures@, s as int),
    {
        let mut j: usize = 0;
        while j < 4
            invariant
                j <= 4,
                forall|k: int| 0 <= k < j ==> self.figures@[k] != (Figure::InHouse { pos: s }),
            decreases 4 - j,
        {
            if self.figures[j] == (Figure::InHouse { pos: s }) {
                assert(self.figures@[j as int] == (Figure::InHouse { pos: s }));
                return false;
            }
            j += 1;
        }
        true
    }

    /// Whether a home-row slot above `pos` holds none of the player's figures.
    fn free_slot_above(&self, pos: usize) -> (r: bool)
        ensures
            r == exists|s: int| pos < s < HOME_LEN && #[trigger] home_slot_free(self.figures@, s),
    {
        if pos >= HOME_LEN {
            return false;
        }
        let mut s: usize = pos + 1;
        while s < HOME_LEN
            invariant
                pos < s <= HOME_LEN,
                forall|t: int| pos < t < s ==> !#[trigger] home_slot_free(self.figures@, t),
            decreases HOME_LEN - s,
        {
            if self.home_slot_is_free(s) {
                return true;
            }
            s += 1;
        }
        false
    }

    /// Whether some figure can still be moved by a roll: one on the track, or one in the
    /// home row with a slot above it that none of the player's figures holds.
    pub fn has_moveable_figure(&self) -> (r: bool)
        ensures
            r == has_movable(self.figures@),
    {
        let mut i: usize = 0;
        while i < 4
            invariant
                i <= 4,
                forall|j: int| 0 <= j < i ==> !can_advance(self.figures@, #[trigger] self.figures@[j]),
            decreases 4 - i,
        {
            match self.figures[i] {
                Figure::OnField { .. } => {
                    assert(can_advance(self.figures@, self.figures@[i as int]));
                    return true;
                },
                Figure::InHouse { pos } => {
                    if self.free_slot_above(pos) {
                        assert(can_advance(self.figures@, self.figures@[i as int]));
                        return true;
                    }
                },
                Figure::InStart => {},
            }
            i += 1;
        }
        false
    }

    /// Whether a figure still waits in the start.
    pub fn has_figures_in_start(&self) -> (r: bool)
        ensures
            r == exists|i: int| 0 <= i < 4 && (#[trigger] self.figures@[i]) is InStart,
    {
        let mut i: usize = 0;
        while i < 4
            invariant
                i <= 4,
                forall|j: int| 0 <= j < i ==> !((#[trigger] self.figures@[j]) is InStart),
            decreases 4 - i,
        {
            if let Figure::InStart = self.figures[i] {
                return true;
            }
            i += 1;
        }
        false
    }

    /// Whether a figure has not yet reached the home row.
    pub fn has_figures_left(&self) -> (r: bool)
        ensures
            r == exists|i: int| 0 <= i < 4 && !((#[trigger] self.figures@[i]) is InHouse),
    {
        let mut i: usize = 0;
        while i < 4
            invariant
                i <= 4,
                forall|j: int| 0 <= j < i ==> (#[trigger] self.figures@[j]) is InHouse,
            decreases 4 - i,
        {
            if !(matches!(self.figures[i], Figure::InHouse { .. })) {
                return true;
            }
            i += 1;
        }
        false
    }

    /// Whether a figure is on the track or in the home row.
    pub fn has_figures_on_field(&self) -> (r: bool)
        ensures
            r == exists|i: int| 0 <= i < 4 && (#[trigger] self.figures@[i]).in_play(),
    {
        let mut i: usize = 0;
        while i < 4
            invariant
                i <= 4,
                forall|j: int| 0 <= j < i ==> !(#[trigger] self.figures@[j]).in_play(),
            decreases 4 - i,
        {
            if !(matches!(self.figures[i], Figure::InStart)) {
                return true;
            }
            i += 1;
        }
        false
    }

    /// Whether the player has finished.
    pub fn is_done(&self) -> (r: bool)
        ensures
            r == self.done,
    {
        self.done
    }
    /// Moves figure `index` by `amount`. Fails, leaving the figures as they were, where the
    /// index is out of range, the move overshoots, or another figure of the player already
    /// holds the new position.
    #[must_use]
    pub fn move_figure(&mut self, index: usize, amount: usize) -> (r: Option<Figure>)
        requires
            old(self).wf(),
            1 <= amount <= MAX_ROLL,
        ensures
            r == move_outcome(old(self).figures@, index as int, amount as int),
            final(self).figures@ == figures_after_move(old(self).figures@, index as int, amount as int),
            final(self).same_but_figures(old(self)),
            final(self).wf(),
            forall|s: Figure| index < 4 && #[trigger] old(self).figures@.contains(s) && figure_after(
                old(self).figures@[index as int],
                amount as int,
            ) == s ==> r is None && final(self).figures == old(self).figures,
            apart(old(self).figures@) ==> apart(final(self).figures@),
    {
        proof {
            if apart(self.figures@) {
                lemma_move_keeps_figures_apart(self.figures@, index as int, amount as int);
            }
        }
        if index >= 4 {
            return None;
        }
        let n = apply_move(self.figures[index], amount);
        let mut i: usize = 0;
        while i < 4
            invariant
                i <= 4,
                index < 4,
                self.wf(),
                n == figure_after(self.figures@[index as int], amount as int),
                forall|j: int| 0 <= j < i ==> self.figures@[j] != n,
            decreases 4 - i,
        {
            if self.figures[i] == n {
                assert(self.figures@[i as int] == n);
                return None;
            }
            i += 1;
        }
        assert(!self.figures@.contains(n));
        self.figures[index] = n;
        Some(n)
    }

    /// Marks the player as finished when all four figures are in the home row. Returns true
    /// only on the call that sets the mark.
    pub fn check_done(&mut self) -> (r: bool)
        ensures
            r == completion_signal(old(self).done, old(self).figures@),
            final(self).done == completion_flag_after(old(self).done, old(self).figures@),
            final(self).figures == old(self).figures,
            final(self).name == old(self).name,
            final(self).send == old(self).send,
            final(self).recv == old(self).recv,
            final(self).rejoin_code == old(self).rejoin_code,
    {
        if self.done {
            return false;
        }
        let mut i: usize = 0;
        while i < 4
            invariant
                i <= 4,
                forall|j: int| 0 <= j < i ==> (#[trigger] self.figures@[j]) is InHouse,
            decreases 4 - i,
        {
            if !(matches!(self.figures[i], Figure::InHouse { .. })) {
                return false;
            }
            i += 1;
        }
        self.done = true;
        true
    }
}

/// A move never puts two figures of one player on one position: where no two figures on the
/// track or in the home row share a position before a move, none do after it, whatever the
/// figure and the amount.
pub proof fn lemma_move_keeps_figures_apart(figs: Seq<Figure>, index: int, amount: int)
    requires
        apart(figs),
    ensures
        apart(figures_after_move(figs, index, amount)),
{
    if let Some(n) = move_outcome(figs, index, amount) {
        let after = figs.update(index, n);
        assert forall|j: int, k: int|
            0 <= j < after.len() && 0 <= k < after.len() && j != k && (#[trigger] after[j]) == (#[trigger] after[k])
                implies after[j] is InStart by {
            if j == index {
                assert(figs.contains(after[k]));
            } else if k == index {
                assert(figs.contains(after[j]));
            } else {
                assert(figs[j] == figs[k]);
            }
        }
    }
}

/// Whether a completion check on a player with flag `done` and figures `figs` reports the
/// player as newly finished.
pub open spec fn completion_signal(done: bool, figs: Seq<Figure>) -> bool {
    !done && all_home(figs)
}

/// The completion flag after a completion check.
pub open spec fn completion_flag_after(done: bool, figs: Seq<Figure>) -> bool {
    done || all_home(figs)
}

/// Completion is reported once: a check that reports it sets the flag, and from then on no
/// check reports it again and the flag stays set, whatever the figures are.
pub proof fn lemma_completion_reported_once(done: bool, figs: Seq<Figure>, later: Seq<Figure>)
    requires
        completion_signal(done, figs),
    ensures
        completion_flag_after(done, figs),
        !completion_signal(completion_flag_after(done, figs), later),
        completion_flag_after(completion_flag_after(done, figs), later),
{
}

} // verus!
