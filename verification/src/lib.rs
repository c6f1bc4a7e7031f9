//! A small grid game: a player token moves on a bounded rectangular board,
//! eating randomly placed apples until none remain.
//!
//! The board carries a one-cell wall ring; the player and all apples live
//! strictly inside it. Every rule of the game — geometry validation, apple
//! placement, player spawning, move resolution, apple consumption and the
//! win check — is stated in contracts and verified.
use vstd::prelude::*;

pub mod board;
pub mod gen;
pub mod moves;

verus! {

/// A coordinate on the board: `row` counts from the top, `col` from the left.
#[derive(Clone, Copy, Debug, PartialEq, Eq, Structural)]
pub struct Loc {
    pub row: usize,
    pub col: usize,
}

/// Board dimensions, wall ring included.
#[derive(Clone, Copy, Debug, PartialEq, Eq, Structural)]
pub struct Size {
    pub rows: usize,
    pub cols: usize,
}

/// True when `l` lies strictly inside the wall ring of a board of size `sz`.
pub open spec fn is_interior(sz: Size, l: Loc) -> bool {
    1 <= l.row < sz.rows - 1 && 1 <= l.col < sz.cols - 1
}

/// True for dimensions that leave a non-empty interior behind the wall ring.
pub open spec fn wf_size(sz: Size) -> bool {
    sz.rows >= 3 && sz.cols >= 3
}

} // verus!
