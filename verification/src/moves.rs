//! Move resolution: mapping raw input to a directional intent, and applying
//! an intent to the player position under the boundary rules.
//!
//! The interior of a board of `rows x cols` cells (wall ring included) is
//! `[1, rows-2] x [1, cols-2]`. A move is allowed exactly when it keeps the
//! player inside that rectangle; a rejected move leaves the position alone.
use vstd::prelude::*;

use crate::Loc;

verus! {

/// A directional intent, as entered by the player.
#[derive(Clone, Copy, Debug, PartialEq, Eq, Structural)]
pub enum Move {
    Up,
    Down,
    Left,
    Right,
}

/// What a move does to a position: `Some(new)` when the move stays inside
/// the interior rectangle `[1, rows-2] x [1, cols-2]`, `None` when the wall
/// ring blocks it.
pub open spec fn resolve_move(mv: Move, l: Loc, rows: usize, cols: usize) -> Option<Loc> {
    match mv {
        Move::Up => if l.row > 1 {
            Some(Loc { row: (l.row - 1) as usize, col: l.col })
        } else {
            None
        },
        Move::Down => if l.row < rows - 2 {
            Some(Loc { row: (l.row + 1) as usize, col: l.col })
        } else {
            None
        },
        Move::Left => if l.col > 1 {
            Some(Loc { row: l.row, col: (l.col - 1) as usize })
        } else {
            None
        },
        Move::Right => if l.col < cols - 2 {
            Some(Loc { row: l.row, col: (l.col + 1) as usize })
        } else {
            None
        },
    }
}

/// Apply `mv` to the player position. Returns true and updates the position
/// exactly when the move is allowed; a blocked move returns false and leaves
/// the position unchanged.
pub fn handle_move(mv: Move, player_position: &mut Loc, rows: usize, cols: usize) -> (moved: bool)
    requires
        rows >= 2,
        cols >= 2,
    ensures
        ({
            match resolve_move(mv, *old(player_position), rows, cols) {
                Some(np) => moved && *final(player_position) == np,
                None => !moved && *final(player_position) == *old(player_position),
            }
        }),
{
    match mv {
        Move::Up => {
            if player_position.row > 1 {
                player_position.row = player_position.row - 1;
                return true;
            }
        },
        Move::Down => {
            if player_position.row < rows - 2 {
                player_position.row = player_position.row + 1;
                return true;
            }
        },
        Move::Left => {
            if player_position.col > 1 {
                player_position.col = player_position.col - 1;
                return true;
            }
        },
        Move::Right => {
            if player_position.col < cols - 2 {
                player_position.col = player_position.col + 1;
                return true;
            }
        },
    }
    false
}

/// At the topmost interior row an Up intent is rejected and the position is
/// kept: the wall ring is never crossed.
pub proof fn lemma_up_at_top_rejected(l: Loc, rows: usize, cols: usize)
    requires
        l.row == 1,
    ensures
        resolve_move(Move::Up, l, rows, cols) is None,
{
}

/// True when `b` differs from `a` in exactly one coordinate, and that one by
/// exactly one cell.
pub open spec fn one_step_apart(a: Loc, b: Loc) -> bool {
    ||| (a.row == b.row && (a.col + 1 == b.col || b.col + 1 == a.col))
    ||| (a.col == b.col && (a.row + 1 == b.row || b.row + 1 == a.row))
}

/// From a strictly interior position that touches no edge of the interior
/// rectangle, every intent is accepted and moves the player by exactly one
/// cell in exactly one coordinate.
pub proof fn lemma_interior_moves_accepted(mv: Move, l: Loc, rows: usize, cols: usize)
    requires
        1 < l.row < rows - 2,
        1 < l.col < cols - 2,
    ensures
        resolve_move(mv, l, rows, cols) is Some,
        one_step_apart(l, resolve_move(mv, l, rows, cols).unwrap()),
{
}

/// The characters of a string after leading and trailing whitespace are
/// removed. Left abstract: only the trusted wrapper below says anything
/// about it.
pub uninterp spec fn trim_of(s: Seq<char>) -> Seq<char>;

/// Relies on str::trim: returns the input with leading and trailing
/// whitespace removed, a function of the characters alone.
#[verifier::external_body]
fn trim_to_owned(s: &String) -> (r: String)
    ensures
        r@ == trim_of(s@),
{
    s.trim().to_owned()
}

/// The intent a token denotes: `w`, `s`, `a`, `d` name the four directions;
/// anything else is unrecognized.
pub open spec fn intent_of(t: Seq<char>) -> Option<Move> {
    if t == "w"@ {
        Some(Move::Up)
    } else if t == "s"@ {
        Some(Move::Down)
    } else if t == "a"@ {
        Some(Move::Left)
    } else if t == "d"@ {
        Some(Move::Right)
    } else {
        None
    }
}

/// Map an already-trimmed token to a directional intent.
pub fn intent_of_token(t: &String) -> (r: Option<Move>)
    ensures
        r == intent_of(t@),
{
    if *t == "w".to_owned() {
        Some(Move::Up)
    } else if *t == "s".to_owned() {
        Some(Move::Down)
    } else if *t == "a".to_owned() {
        Some(Move::Left)
    } else if *t == "d".to_owned() {
        Some(Move::Right)
    } else {
        None
    }
}

/// Map one raw line of input to a directional intent: the line is trimmed,
/// then matched against the four movement keys.
pub fn convert_input_to_move_enum(input: String) -> (r: Option<Move>)
    ensures
        r == intent_of(trim_of(input@)),
{
    let t = trim_to_owned(&input);
    intent_of_token(&t)
}

} // verus!
