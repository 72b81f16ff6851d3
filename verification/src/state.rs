//! Top-level screens of the game, as a plain state enum.

use vstd::prelude::*;

verus! {

/// Which screen the game is on. The timing core runs while the game is
/// `InGame`; the other states belong to menu and result screens.
#[derive(Debug, Clone, Copy, PartialEq, Eq, Structural, Hash)]
pub enum GameState {
    StartMenu,
    SelectMenu,
    InGame,
    Result,
}

} // verus!
