//! One session of a four-figure race-and-capture board game: figure movement, players,
//! captures, completion and ranking, and the turn protocol as a step function.

use vstd::prelude::*;

mod figure;
mod game;
mod player;
mod rng;
pub mod statemachine;

pub use figure::{apply_move, cell_of, Figure, HOME_LEN, MAX_ROLL, PLAYER_OFFSET, TRACK_LEN};
pub use game::Game;
pub use player::GamePlayer;
pub use rng::{DumbDistr, MockRand};

verus! {

/// The errors that can come up while a game runs.
#[derive(Debug, PartialEq, Eq)]
pub enum GameError {
    /// A player disconnected.
    Disconnect,
    /// Something else went wrong.
    Other(&'static str),
}

/// What the active player asks for.
#[derive(Debug, Clone, Copy, PartialEq, Eq, Structural)]
pub enum GameRequest {
    /// Roll the die.
    Roll,
    /// Move the figure with this index by the value rolled.
    Move { figure: usize },
}

/// What the game tells its players.
#[derive(Debug, Clone, PartialEq, Eq)]
pub enum GameResponse {
    /// The code with which a player can take its place again after losing its connection.
    RejoinCode { game: u128, code: u128 },
    /// The name of a player, and whether it is the recipient.
    IndicatePlayer { player: usize, name: String, you: bool },
    /// Every player's name and figures, in turn order.
    State { players: Vec<(String, [Figure; 4])> },
    /// The recipient is to roll.
    Turn,
    /// The value the recipient rolled, and whether it is now to choose a figure to move.
    Rolled { value: usize, can_move: bool },
    /// The player with this index has brought all its figures home.
    PlayerDone { player: usize },
    /// Every player has finished; the indices in finishing order.
    GameDone { ranking: Vec<usize> },
}

/// A message that the game hands out to be delivered.
#[derive(Debug, Clone, PartialEq, Eq)]
pub enum Outgoing {
    /// One response for one player.
    ToPlayer { player: usize, response: GameResponse },
    /// The same response for every player, in turn order.
    ToAll { response: GameResponse },
    /// For every player, one `IndicatePlayer` per player of the game, as
    /// `Game::indications` lists them.
    Identify,
}

} // verus!
