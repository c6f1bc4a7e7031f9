//! The board: geometry validation, the authoritative state (player position
//! and apple positions), the derived display grid, and the turn transition.
//!
//! The display grid is recomputed from scratch from the authoritative state;
//! it is never ground truth. The wall cells are exactly the border ring, and
//! the player and every apple stay strictly inside it.
use vstd::prelude::*;

use crate::Loc;
use crate::Size;
use crate::wf_size;
use crate::moves::Move;
use crate::moves::handle_move;
use crate::moves::resolve_move;

verus! {

/// What one cell shows: a derived, display-only classification.
#[derive(Clone, Copy, Debug, PartialEq, Eq, Structural)]
pub enum Field {
    Empty,
    Apple,
    Wall,
    Player,
}

/// The two characters that draw a cell of each kind.
pub open spec fn field_chars(f: Field) -> Seq<char> {
    match f {
        Field::Empty => ". "@,
        Field::Apple => "* "@,
        Field::Wall => "# "@,
        Field::Player => "@ "@,
    }
}

impl Field {
    /// The two-character drawing of this cell kind.
    pub fn to_string(&self) -> (r: String)
        ensures
            r@ == field_chars(*self),
    {
        match self {
            Field::Empty => ". ",
            Field::Apple => "* ",
            Field::Wall => "# ",
            Field::Player => "@ ",
        }.to_owned()
    }
}

/// Why a pair of requested dimensions was rejected.
#[derive(Clone, Copy, Debug, PartialEq, Eq, Structural)]
pub enum ConfigError {
    /// A requested dimension was zero.
    NonPositive,
    /// The board would have a 1 x 1 interior: nothing to play on.
    Degenerate,
    /// A dimension too large to add the wall ring to.
    TooLarge,
}

/// Validate the dimensions a user asked for and add the one-cell wall ring
/// on each side. The inputs count interior cells only; each must be at
/// least 1, and a 1 x 1 interior is rejected as degenerate.
pub fn make_size(rows: usize, cols: usize) -> (r: Result<Size, ConfigError>)
    ensures
        (r == Result::<Size, ConfigError>::Err(ConfigError::NonPositive)) <==> (rows == 0 || cols
            == 0),
        (r == Result::<Size, ConfigError>::Err(ConfigError::TooLarge)) <==> (rows >= 1 && cols >= 1
            && (rows > usize::MAX - 2 || cols > usize::MAX - 2)),
        (r == Result::<Size, ConfigError>::Err(ConfigError::Degenerate)) <==> (rows == 1 && cols
            == 1),
        r is Ok ==> r == Result::<Size, ConfigError>::Ok(
            Size { rows: (rows + 2) as usize, cols: (cols + 2) as usize },
        ),
        r is Ok <==> (rows >= 1 && cols >= 1 && !(rows == 1 && cols == 1) && rows <= usize::MAX - 2
            && cols <= usize::MAX - 2),
        r is Ok ==> wf_size(r.unwrap()) && (r.unwrap().rows > 3 || r.unwrap().cols > 3),
{
    if rows == 0 || cols == 0 {
        Err(ConfigError::NonPositive)
    } else if rows > usize::MAX - 2 || cols > usize::MAX - 2 {
        Err(ConfigError::TooLarge)
    } else if rows == 1 && cols == 1 {
        Err(ConfigError::Degenerate)
    } else {
        Ok(Size { rows: rows + 2, cols: cols + 2 })
    }
}

/// The whole game state: fixed geometry, the authoritative player and apple
/// positions, and the derived display grid.
pub struct Board {
    pub size: Size,
    pub field: Vec<Vec<Field>>,
    pub player_position: Loc,
    pub apples_positions: Vec<Loc>,
}

/// What one cell of the display grid must show: the player first, then the
/// wall ring, then an apple, else empty.
pub open spec fn cell_at(sz: Size, player: Loc, apples: Seq<Loc>, i: int, j: int) -> Field {
    let here = Loc { row: i as usize, col: j as usize };
    if player == here {
        Field::Player
    } else if i == 0 || i == sz.rows - 1 || j == 0 || j == sz.cols - 1 {
        Field::Wall
    } else if apples.contains(here) {
        Field::Apple
    } else {
        Field::Empty
    }
}

/// True when `field` is the `sz.rows x sz.cols` display grid derived from
/// the given player and apple positions.
pub open spec fn grid_matches(field: Seq<Vec<Field>>, sz: Size, player: Loc, apples: Seq<Loc>) -> bool {
    &&& field.len() == sz.rows
    &&& forall|i: int| 0 <= i < sz.rows ==> (#[trigger] field[i])@.len() == sz.cols
    &&& forall|i: int, j: int|
        0 <= i < sz.rows && 0 <= j < sz.cols ==> (#[trigger] field[i]@[j]) == cell_at(
            sz,
            player,
            apples,
            i,
            j,
        )
}

/// A fresh board: an all-empty grid of the given size, no apples yet, and
/// the player parked at the origin until spawned.
pub fn initialize_board(size: Size) -> (board: Board)
    ensures
        board.size == size,
        board.player_position == (Loc { row: 0, col: 0 }),
        board.apples_positions@ =~= Seq::<Loc>::empty(),
        board.field@.len() == size.rows,
        forall|i: int| 0 <= i < size.rows ==> (#[trigger] board.field@[i])@.len() == size.cols,
        forall|i: int, j: int|
            0 <= i < size.rows && 0 <= j < size.cols ==> (#[trigger] board.field@[i]@[j])
                == Field::Empty,
{
    let mut field: Vec<Vec<Field>> = Vec::new();
    let mut i: usize = 0;
    while i < size.rows
        invariant
            i <= size.rows,
            field@.len() == i,
            forall|k: int| 0 <= k < i ==> (#[trigger] field@[k])@.len() == size.cols,
            forall|k: int, j: int|
                0 <= k < i && 0 <= j < size.cols ==> (#[trigger] field@[k]@[j]) == Field::Empty,
        decreases size.rows - i,
    {
        let mut row: Vec<Field> = Vec::new();
        let mut j: usize = 0;
        while j < size.cols
            invariant
                j <= size.cols,
                row@.len() == j,
                forall|m: int| 0 <= m < j ==> (#[trigger] row@[m]) == Field::Empty,
            decreases size.cols - j,
        {
            row.push(Field::Empty);
            j = j + 1;
        }
        field.push(row);
        i = i + 1;
    }
    Board {
        size,
        field,
        player_position: Loc { row: 0, col: 0 },
        apples_positions: Vec::new(),
    }
}

/// Recompute the display grid from the authoritative state. Every cell is
/// rewritten; the player, apples and geometry are untouched.
pub fn update_board_state(board: &mut Board)
    ensures
        final(board).size == old(board).size,
        final(board).player_position == old(board).player_position,
        final(board).apples_positions@ == old(board).apples_positions@,
        grid_matches(
            final(board).field@,
            old(board).size,
            old(board).player_position,
            old(board).apples_positions@,
        ),
{
    let rows = board.size.rows;
    let cols = board.size.cols;
    let mut field: Vec<Vec<Field>> = Vec::new();
    let mut i: usize = 0;
    while i < rows
        invariant
            i <= rows,
            rows == board.size.rows,
            cols == board.size.cols,
            field@.len() == i,
            forall|k: int| 0 <= k < i ==> (#[trigger] field@[k])@.len() == cols,
            forall|k: int, j: int|
                0 <= k < i && 0 <= j < cols ==> (#[trigger] field@[k]@[j]) == cell_at(
                    board.size,
                    board.player_position,
                    board.apples_positions@,
                    k,
                    j,
                ),
        decreases rows - i,
    {
        let mut row: Vec<Field> = Vec::new();
        let mut j: usize = 0;
        while j < cols
            invariant
                j <= cols,
                i < rows,
                rows == board.size.rows,
                cols == board.size.cols,
                row@.len() == j,
                forall|m: int|
                    0 <= m < j ==> (#[trigger] row@[m]) == cell_at(
                        board.size,
                        board.player_position,
                        board.apples_positions@,
                        i as int,
                        m,
                    ),
            decreases cols - j,
        {
            let here = Loc { row: i, col: j };
            let should_be_wall = i == 0 || i == rows - 1 || j == 0 || j == cols - 1;
            let cell = if board.player_position == here {
                Field::Player
            } else if should_be_wall {
                Field::Wall
            } else if loc_in(&board.apples_positions, here) {
                Field::Apple
            } else {
                Field::Empty
            };
            row.push(cell);
            j = j + 1;
        }
        field.push(row);
        i = i + 1;
    }
    board.field = field;
}

/// Whether `l` occurs among the positions in `v`.
pub fn loc_in(v: &Vec<Loc>, l: Loc) -> (r: bool)
    ensures
        r == v@.contains(l),
{
    let mut i: usize = 0;
    while i < v.len()
        invariant
            i <= v@.len(),
            forall|k: int| 0 <= k < i ==> v@[k] != l,
        decreases v@.len() - i,
    {
        if v[i] == l {
            return true;
        }
        i = i + 1;
    }
    false
}

/// Remove the apple under the player, if there is one. Exact-match
/// consumption: only the first occurrence of the player's own position
/// leaves the set, and the return value says whether one did.
pub fn remove_eaten_apple(board: &mut Board) -> (ate: bool)
    ensures
        final(board).size == old(board).size,
        final(board).player_position == old(board).player_position,
        final(board).field@ == old(board).field@,
        ate == old(board).apples_positions@.contains(old(board).player_position),
        final(board).apples_positions@ == old(board).apples_positions@.remove_value(
            old(board).player_position,
        ),
{
    let ghost s = board.apples_positions@;
    let ghost target = board.player_position;
    let mut i: usize = 0;
    while i < board.apples_positions.len()
        invariant
            i <= s.len(),
            s == board.apples_positions@,
            target == board.player_position,
            board.size == old(board).size,
            board.player_position == old(board).player_position,
            board.field@ == old(board).field@,
            board.apples_positions@ == old(board).apples_positions@,
            forall|k: int| 0 <= k < i ==> s[k] != target,
        decreases s.len() - i,
    {
        if board.apples_positions[i] == board.player_position {
            proof {
                assert(s.contains(target)) by {
                    assert(s[i as int] == target);
                }
                s.index_of_first_ensures(target);
                let i0 = s.index_of_first(target).unwrap();
                assert(i0 == i as int) by {
                    if i0 < i as int {
                        assert(s[i0] != target);
                    }
                    if (i as int) < i0 {
                        assert(s[i as int] != target);
                    }
                }
            }
            board.apples_positions.remove(i);
            return true;
        }
        i = i + 1;
    }
    proof {
        assert(!s.contains(target)) by {
            if s.contains(target) {
                let w = choose|k: int| 0 <= k < s.len() && s[k] == target;
                assert(s[w] != target);
            }
        }
        s.index_of_first_ensures(target);
    }
    false
}

/// The win check: the session is won exactly when no apple is left.
pub fn player_won(board: &Board) -> (r: bool)
    ensures
        r == (board.apples_positions@.len() == 0),
{
    board.apples_positions.is_empty()
}

/// What one turn reported: whether the move was accepted, whether an apple
/// was eaten, and whether the session is now won.
#[derive(Clone, Copy, Debug, PartialEq, Eq, Structural)]
pub struct TurnOutcome {
    pub moved: bool,
    pub collected: bool,
    pub won: bool,
}

/// One turn of the game, atomic from the caller's side: resolve the move
/// against the boundary rules, consume the apple under the new position if
/// one is there, and check the win condition. The display grid is left to
/// `update_board_state`, which the caller runs before rendering.
pub fn apply_turn(board: &mut Board, mv: Move) -> (outcome: TurnOutcome)
    requires
        old(board).size.rows >= 2,
        old(board).size.cols >= 2,
    ensures
        final(board).size == old(board).size,
        final(board).field@ == old(board).field@,
        ({
            match resolve_move(mv, old(board).player_position, old(board).size.rows, old(board).size.cols) {
                Some(np) => outcome.moved && final(board).player_position == np,
                None => !outcome.moved && final(board).player_position == old(
                    board,
                ).player_position,
            }
        }),
        outcome.collected == old(board).apples_positions@.contains(final(board).player_position),
        final(board).apples_positions@ == old(board).apples_positions@.remove_value(
            final(board).player_position,
        ),
        outcome.won == (final(board).apples_positions@.len() == 0),
{
    let rows = board.size.rows;
    let cols = board.size.cols;
    let moved = handle_move(mv, &mut board.player_position, rows, cols);
    let collected = remove_eaten_apple(board);
    let won = player_won(board);
    TurnOutcome { moved, collected, won }
}

/// Consuming an apple removes that exact position and nothing else: with
/// pairwise-distinct apples, the set shrinks by exactly one, the eaten
/// position is gone, and every other position is kept.
pub proof fn lemma_consume_exact(s: Seq<Loc>, l: Loc)
    requires
        s.no_duplicates(),
        s.contains(l),
    ensures
        s.remove_value(l).len() == s.len() - 1,
        !s.remove_value(l).contains(l),
        forall|m: Loc| m != l ==> (s.remove_value(l).contains(m) <==> s.contains(m)),
{
    s.index_of_first_ensures(l);
    let i = s.index_of_first(l).unwrap();
    let t = s.remove(i);
    s.remove_ensures(i);
    assert(!t.contains(l)) by {
        if t.contains(l) {
            let w = choose|k: int| 0 <= k < t.len() && t[k] == l;
            if w < i {
                assert(s[w] == l);
            } else {
                assert(s[w + 1] == l);
            }
        }
    }
    assert forall|m: Loc| m != l implies (t.contains(m) <==> s.contains(m)) by {
        if t.contains(m) {
            let w = choose|k: int| 0 <= k < t.len() && t[k] == m;
            if w < i {
                assert(s[w] == m);
            } else {
                assert(s[w + 1] == m);
            }
        }
        if s.contains(m) {
            let w = choose|k: int| 0 <= k < s.len() && s[k] == m;
            if w < i {
                assert(t[w] == m);
            } else {
                assert(t[w - 1] == m);
            }
        }
    }
}

/// The "won" signal fires exactly once per session: a turn can only empty
/// the apple set by consuming its last member, and once the set is empty no
/// later turn changes it, so the fresh session that the controller starts on
/// a win is the only way the signal can fire again.
pub proof fn lemma_won_exactly_at_transition(s: Seq<Loc>, l: Loc)
    ensures
        s.len() > 0 && s.remove_value(l).len() == 0 ==> s.len() == 1 && s.contains(l),
        s.len() == 0 ==> s.remove_value(l) == s,
{
    s.index_of_first_ensures(l);
    if s.len() > 0 && s.remove_value(l).len() == 0 {
        let i = s.index_of_first(l).unwrap();
        s.remove_ensures(i);
    }
}

/// The display grid is purely derived: recomputing it from the same
/// authoritative state always yields the same grid, whatever grid stood
/// there before.
pub proof fn lemma_grid_deterministic(
    f1: Seq<Vec<Field>>,
    f2: Seq<Vec<Field>>,
    sz: Size,
    player: Loc,
    apples: Seq<Loc>,
)
    requires
        grid_matches(f1, sz, player, apples),
        grid_matches(f2, sz, player, apples),
    ensures
        f1.len() == f2.len(),
        forall|i: int| 0 <= i < f1.len() ==> (#[trigger] f1[i])@ == f2[i]@,
{
    assert forall|i: int| 0 <= i < f1.len() implies (#[trigger] f1[i])@ == f2[i]@ by {
        assert(f1[i]@ =~= f2[i]@);
    }
}

} // verus!
