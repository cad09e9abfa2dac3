use vstd::prelude::*;

verus! {

/// Cells on the shared track that a figure travels before its home row.
pub const TRACK_LEN: usize = 40;

/// Slots in a player's private home row.
pub const HOME_LEN: usize = 4;

/// Offset on the shared track between the entry squares of two neighbouring players.
pub const PLAYER_OFFSET: usize = 10;

/// The highest face of the die; rolling it brings a figure out of the start.
pub const MAX_ROLL: usize = 6;

/// A figure (pawn) of a player.
#[derive(Debug, Clone, Copy, PartialEq, Eq, Structural)]
pub enum Figure {
    /// The figure still waits in the start area.
    InStart,
    /// The figure is on the shared track, `moved` cells past its owner's entry square.
    OnField { moved: usize },
    /// The figure sits in slot `pos` of its owner's home row.
    InHouse { pos: usize },
}

impl Figure {
    /// A figure whose position lies on the board: track steps below 40, home slot below 4.
    pub open spec fn wf(self) -> bool {
        match self {
            Figure::InStart => true,
            Figure::OnField { moved } => moved < TRACK_LEN,
            Figure::InHouse { pos } => pos < HOME_LEN,
        }
    }

    /// The figure is on the track or in the home row.
    pub open spec fn in_play(self) -> bool {
        !(self is InStart)
    }
}

/// Where a figure ends after moving `amount` cells; an overshoot leaves it where it was.
pub open spec fn figure_after(f: Figure, amount: int) -> Figure {
    match f {
        Figure::InStart => f,
        Figure::OnField { moved } => {
            let target = moved + amount;
            if target < TRACK_LEN {
                Figure::OnField { moved: target as usize }
            } else if target - TRACK_LEN < HOME_LEN {
                Figure::InHouse { pos: (target - TRACK_LEN) as usize }
            } else {
                f
            }
        },
        Figure::InHouse { pos } => {
            if pos + amount < HOME_LEN {
                Figure::InHouse { pos: (pos + amount) as usize }
            } else {
                f
            }
        },
    }
}

/// The shared-track cell of a track position `moved` of player `player`.
pub open spec fn board_cell(player: int, moved: int) -> int {
    (moved + player * PLAYER_OFFSET) % (TRACK_LEN as int)
}

/// Moves a figure by a die value. A figure in the start does not move here, and a move
/// past the last home slot leaves the figure unchanged.
pub fn apply_move(figure: Figure, amount: usize) -> (r: Figure)
    requires
        figure.wf(),
        1 <= amount <= MAX_ROLL,
    ensures
        r == figure_after(figure, amount as int),
        r.wf(),
{
    match figure {
        Figure::InStart => Figure::InStart,
        Figure::OnField { moved } => {
            let target = moved + amount;
            if target < TRACK_LEN {
                Figure::OnField { moved: target }
            } else if target - TRACK_LEN < HOME_LEN {
                Figure::InHouse { pos: target - TRACK_LEN }
            } else {
                figure
            }
        },
        Figure::InHouse { pos } => {
            if pos + amount < HOME_LEN {
                Figure::InHouse { pos: pos + amount }
            } else {
                figure
            }
        },
    }
}

/// The shared-track cell of track position `moved` of the player at index `player`.
pub fn cell_of(player: usize, moved: usize) -> (r: usize)
    requires
        moved < TRACK_LEN,
    ensures
        r as int == board_cell(player as int, moved as int),
{
    let lap = player % 4;
    proof {
        let p = player as int;
        assert(p == 4 * (p / 4) + lap) by (nonlinear_arith)
            requires lap == p % 4;
        assert(moved + p * 10 == (moved + lap * 10) + 40 * (p / 4)) by (nonlinear_arith)
            requires p == 4 * (p / 4) + lap;
        vstd::arithmetic::div_mod::lemma_mod_multiples_vanish(p / 4, moved + lap * 10, 40);
    }
    (moved + lap * PLAYER_OFFSET) % TRACK_LEN
}

} // verus!
