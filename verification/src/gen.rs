//! Random placement: apples first, then the player, by rejection sampling
//! over the strictly interior cells.
//!
//! The target apple count is one tenth of the interior area, rounded up; it
//! never exceeds the interior area, so a free cell can always be found.
//! Sampling alone gives no termination bound, so each placement caps the
//! number of samples and falls back to a deterministic sweep of the interior
//! for whatever is still missing; with any reasonable source of randomness
//! the cap is never reached.
use vstd::prelude::*;

use vstd::arithmetic::div_mod::lemma_fundamental_div_mod;
use vstd::arithmetic::div_mod::lemma_fundamental_div_mod_converse_div;
use vstd::arithmetic::div_mod::lemma_fundamental_div_mod_converse_mod;
use vstd::set_lib::lemma_int_range;
use vstd::set_lib::lemma_len_subset;
use vstd::set_lib::set_int_range;

use crate::Loc;
use crate::Size;
use crate::is_interior;
use crate::wf_size;
use crate::board::Board;
use crate::board::loc_in;

verus! {

/// How many random samples a placement may spend before the deterministic
/// sweep takes over.
pub const SAMPLE_BUDGET: usize = 1000000;

#[verifier::external_type_specification]
#[verifier::external_body]
pub struct ExThreadRng(rand::rngs::ThreadRng);

/// Relies on rand::Rng::gen_range over `lo..hi`: a sample uniform in the
/// half-open range, which panics only when the range is empty.
#[verifier::external_body]
fn sample_in_range(rng: &mut rand::rngs::ThreadRng, lo: usize, hi: usize) -> (r: usize)
    requires
        lo < hi,
    ensures
        lo <= r < hi,
{
    rand::Rng::gen_range(rng, lo..hi)
}

/// How many apples a board of size `sz` gets: a tenth of the interior area,
/// rounded up.
pub open spec fn target_apples(sz: Size) -> int {
    ((sz.rows - 2) * (sz.cols - 2) + 9) / 10
}

/// The number of strictly interior cells.
pub open spec fn interior_area(sz: Size) -> int {
    (sz.rows - 2) * (sz.cols - 2)
}

/// The apple target always fits the board: at least one apple, never more
/// than the interior holds, and on any board with two or more interior
/// cells the interior strictly outnumbers the apples, so a free cell is
/// always left for the player to spawn on.
pub proof fn lemma_target_within_interior(sz: Size)
    requires
        wf_size(sz),
    ensures
        1 <= target_apples(sz) <= interior_area(sz),
        interior_area(sz) >= 2 ==> target_apples(sz) < interior_area(sz),
{
    let a = interior_area(sz);
    assert(a >= 1) by (nonlinear_arith)
        requires
            sz.rows >= 3 && sz.cols >= 3,
            a == (sz.rows - 2) * (sz.cols - 2),
    ;
    assert(1 <= (a + 9) / 10 <= a) by (nonlinear_arith)
        requires
            a >= 1,
    ;
    assert(a >= 2 ==> (a + 9) / 10 < a) by (nonlinear_arith)
        requires
            a >= 1,
    ;
}

/// The row-major rank of an interior cell, with the wall ring stripped.
pub open spec fn cell_code(sz: Size, l: Loc) -> int {
    (l.row - 1) * (sz.cols - 2) + (l.col - 1)
}

/// Pigeonhole over the interior: fewer pairwise-distinct interior positions
/// than interior cells always leave some interior cell unoccupied.
pub proof fn lemma_free_interior_cell(sz: Size, s: Seq<Loc>)
    requires
        wf_size(sz),
        s.no_duplicates(),
        forall|k: int| 0 <= k < s.len() ==> is_interior(sz, #[trigger] s[k]),
        s.len() < interior_area(sz),
    ensures
        exists|l: Loc| is_interior(sz, l) && !s.contains(l),
{
    let w = sz.cols - 2;
    let area = interior_area(sz);
    let f = |l: Loc| cell_code(sz, l);
    let codes = s.map_values(f);
    assert forall|k: int| 0 <= k < codes.len() implies 0 <= #[trigger] codes[k] < area by {
        let l = s[k];
        assert(0 <= (l.row - 1) * w + (l.col - 1) < area) by (nonlinear_arith)
            requires
                0 <= l.row - 1 < sz.rows - 2,
                0 <= l.col - 1 < w,
                area == (sz.rows - 2) * w,
        ;
    }
    assert forall|k: int| 0 <= k < s.len() implies s[k].row - 1 == #[trigger] codes[k] / w && s[k].col
        - 1 == codes[k] % w by {
        let l = s[k];
        lemma_fundamental_div_mod_converse_div(codes[k], w, l.row - 1, l.col - 1);
        lemma_fundamental_div_mod_converse_mod(codes[k], w, l.row - 1, l.col - 1);
    }
    assert(codes.no_duplicates()) by {
        assert forall|x: int, y: int| 0 <= x < y < codes.len() implies codes[x] != codes[y] by {
            if codes[x] == codes[y] {
                assert(s[x].row == s[y].row && s[x].col == s[y].col);
                assert(s[x] == s[y]);
            }
        }
    }
    codes.unique_seq_to_set();
    let cs = codes.to_set();
    lemma_int_range(0, area);
    assert(exists|m: int| 0 <= m < area && !cs.contains(m)) by {
        if forall|m: int| 0 <= m < area ==> #[trigger] cs.contains(m) {
            assert(set_int_range(0, area).subset_of(cs));
            lemma_len_subset(set_int_range(0, area), cs);
        }
    }
    let m = choose|m: int| 0 <= m < area && !cs.contains(m);
    lemma_fundamental_div_mod(m, w);
    assert(0 <= m / w < sz.rows - 2 && 0 <= m % w < w) by (nonlinear_arith)
        requires
            w >= 1,
            0 <= m < area,
            area == (sz.rows - 2) * w,
            m == w * (m / w) + (m % w),
    ;
    let l = Loc { row: (1 + m / w) as usize, col: (1 + m % w) as usize };
    assert(is_interior(sz, l));
    assert(!s.contains(l)) by {
        if s.contains(l) {
            let k = choose|k: int| 0 <= k < s.len() && s[k] == l;
            assert(codes[k] == (l.row - 1) * w + (l.col - 1));
            assert(l.row - 1 == m / w && l.col - 1 == m % w);
            assert((m / w) * w == w * (m / w)) by (nonlinear_arith);
            assert(codes[k] == m);
            assert(cs.contains(codes[k]));
        }
    }
}

/// Appending never loses a position already present.
proof fn lemma_push_keeps_contains(s: Seq<Loc>, x: Loc)
    ensures
        forall|l: Loc| s.contains(l) ==> #[trigger] s.push(x).contains(l),
        forall|l: Loc| #[trigger] s.push(x).contains(l) ==> l == x || s.contains(l),
        s.push(x).contains(x),
{
    assert forall|l: Loc| s.contains(l) implies #[trigger] s.push(x).contains(l) by {
        let k = choose|k: int| 0 <= k < s.len() && s[k] == l;
        assert(s.push(x)[k] == l);
    }
    assert forall|l: Loc| #[trigger] s.push(x).contains(l) implies l == x || s.contains(l) by {
        let k = choose|k: int| 0 <= k < s.push(x).len() && s.push(x)[k] == l;
        if k < s.len() {
            assert(s[k] == l);
        }
    }
    assert(s.push(x)[s.len() as int] == x);
}

/// A fresh, still unoccupied position stays pairwise distinct when appended.
proof fn lemma_push_keeps_distinct(s: Seq<Loc>, x: Loc)
    requires
        s.no_duplicates(),
        !s.contains(x),
    ensures
        s.push(x).no_duplicates(),
{
    let t = s.push(x);
    assert forall|i: int, j: int| 0 <= i < j < t.len() implies t[i] != t[j] by {
        if j == s.len() as int {
            assert(s[i] == t[i]);
            assert(s.contains(s[i]));
        }
    }
}

/// Place the apples on a fresh board: repeatedly sample an interior cell
/// and keep it only when it is new, until the target count stands. Should
/// the sample budget ever run out, a sweep over the interior fills the
/// remainder deterministically. All resulting positions are strictly
/// interior and pairwise distinct.
pub fn generate_apples_positions(board: &mut Board, rng: &mut rand::rngs::ThreadRng)
    requires
        wf_size(old(board).size),
        old(board).apples_positions@.len() == 0,
        interior_area(old(board).size) + 9 <= usize::MAX,
    ensures
        final(board).size == old(board).size,
        final(board).player_position == old(board).player_position,
        final(board).field@ == old(board).field@,
        final(board).apples_positions@.len() == target_apples(old(board).size),
        final(board).apples_positions@.no_duplicates(),
        forall|k: int|
            0 <= k < final(board).apples_positions@.len() ==> is_interior(
                old(board).size,
                #[trigger] final(board).apples_positions@[k],
            ),
{
    let rows = board.size.rows;
    let cols = board.size.cols;
    let board_size = (rows - 2) * (cols - 2);
    let percent_of_apples = (board_size + 9) / 10;
    proof {
        lemma_target_within_interior(board.size);
    }
    let mut fuel: usize = SAMPLE_BUDGET;
    while board.apples_positions.len() < percent_of_apples && fuel > 0
        invariant
            rows == board.size.rows,
            cols == board.size.cols,
            wf_size(board.size),
            board_size == interior_area(board.size),
            board_size + 9 <= usize::MAX,
            percent_of_apples == target_apples(board.size),
            board.size == old(board).size,
            board.player_position == old(board).player_position,
            board.field@ == old(board).field@,
            board.apples_positions@.len() <= percent_of_apples,
            board.apples_positions@.no_duplicates(),
            forall|k: int|
                0 <= k < board.apples_positions@.len() ==> is_interior(
                    board.size,
                    #[trigger] board.apples_positions@[k],
                ),
        decreases fuel,
    {
        fuel = fuel - 1;
        let row = sample_in_range(rng, 1, rows);
        let col = sample_in_range(rng, 1, cols);
        let apple_loc = Loc { row, col };
        let valid_place_for_apple = !loc_in(&board.apples_positions, apple_loc) && apple_loc.row
            != 0 && apple_loc.row != rows - 1 && apple_loc.col != 0 && apple_loc.col != cols - 1;
        if valid_place_for_apple {
            proof {
                lemma_push_keeps_distinct(board.apples_positions@, apple_loc);
            }
            board.apples_positions.push(apple_loc);
        }
    }
    let mut i: usize = 1;
    while i < rows - 1
        invariant
            1 <= i <= rows - 1,
            rows == board.size.rows,
            cols == board.size.cols,
            wf_size(board.size),
            board_size == interior_area(board.size),
            percent_of_apples == target_apples(board.size),
            board.size == old(board).size,
            board.player_position == old(board).player_position,
            board.field@ == old(board).field@,
            board.apples_positions@.len() <= percent_of_apples,
            board.apples_positions@.no_duplicates(),
            forall|k: int|
                0 <= k < board.apples_positions@.len() ==> is_interior(
                    board.size,
                    #[trigger] board.apples_positions@[k],
                ),
            board.apples_positions@.len() < percent_of_apples ==> forall|r: int, c: int|
                1 <= r < i && 1 <= c < cols - 1 ==> #[trigger] board.apples_positions@.contains(
                    (Loc { row: r as usize, col: c as usize }),
                ),
        decreases rows - 1 - i,
    {
        let mut j: usize = 1;
        while j < cols - 1
            invariant
                1 <= i < rows - 1,
                1 <= j <= cols - 1,
                rows == board.size.rows,
                cols == board.size.cols,
                wf_size(board.size),
                board_size == interior_area(board.size),
                percent_of_apples == target_apples(board.size),
                board.size == old(board).size,
                board.player_position == old(board).player_position,
                board.field@ == old(board).field@,
                board.apples_positions@.len() <= percent_of_apples,
                board.apples_positions@.no_duplicates(),
                forall|k: int|
                    0 <= k < board.apples_positions@.len() ==> is_interior(
                        board.size,
                        #[trigger] board.apples_positions@[k],
                    ),
                board.apples_positions@.len() < percent_of_apples ==> forall|r: int, c: int|
                    (1 <= r < i && 1 <= c < cols - 1) || (r == i && 1 <= c < j)
                        ==> #[trigger] board.apples_positions@.contains(
                        (Loc { row: r as usize, col: c as usize }),
                    ),
            decreases cols - 1 - j,
        {
            if board.apples_positions.len() < percent_of_apples {
                let cand = Loc { row: i, col: j };
                if !loc_in(&board.apples_positions, cand) {
                    proof {
                        lemma_push_keeps_distinct(board.apples_positions@, cand);
                        lemma_push_keeps_contains(board.apples_positions@, cand);
                    }
                    board.apples_positions.push(cand);
                }
            }
            j = j + 1;
        }
        i = i + 1;
    }
    proof {
        if board.apples_positions@.len() < percent_of_apples {
            lemma_free_interior_cell(board.size, board.apples_positions@);
            let l = choose|l: Loc|
                is_interior(board.size, l) && !board.apples_positions@.contains(l);
            assert(board.apples_positions@.contains(
                (Loc { row: l.row as int as usize, col: l.col as int as usize }),
            ));
        }
    }
}

/// Spawn the player: the first sampled interior cell that carries no apple,
/// or, should the sample budget run out, the first free cell of a sweep
/// over the interior. The apples must leave at least one interior cell
/// free.
pub fn generate_player_position(board: &mut Board, rng: &mut rand::rngs::ThreadRng)
    requires
        wf_size(old(board).size),
        old(board).apples_positions@.no_duplicates(),
        forall|k: int|
            0 <= k < old(board).apples_positions@.len() ==> is_interior(
                old(board).size,
                #[trigger] old(board).apples_positions@[k],
            ),
        old(board).apples_positions@.len() < interior_area(old(board).size),
    ensures
        final(board).size == old(board).size,
        final(board).field@ == old(board).field@,
        final(board).apples_positions@ == old(board).apples_positions@,
        is_interior(final(board).size, final(board).player_position),
        !final(board).apples_positions@.contains(final(board).player_position),
{
    let rows = board.size.rows;
    let cols = board.size.cols;
    let mut fuel: usize = SAMPLE_BUDGET;
    while fuel > 0
        invariant
            rows == board.size.rows,
            cols == board.size.cols,
            wf_size(board.size),
            board.size == old(board).size,
            board.field@ == old(board).field@,
            board.apples_positions@ == old(board).apples_positions@,
        decreases fuel,
    {
        fuel = fuel - 1;
        let candidate = Loc {
            row: sample_in_range(rng, 1, rows - 1),
            col: sample_in_range(rng, 1, cols - 1),
        };
        if !loc_in(&board.apples_positions, candidate) {
            board.player_position = candidate;
            return ;
        }
    }
    let mut i: usize = 1;
    while i < rows - 1
        invariant
            1 <= i <= rows - 1,
            rows == board.size.rows,
            cols == board.size.cols,
            wf_size(board.size),
            board.size == old(board).size,
            board.field@ == old(board).field@,
            board.apples_positions@ == old(board).apples_positions@,
            forall|r: int, c: int|
                1 <= r < i && 1 <= c < cols - 1 ==> #[trigger] board.apples_positions@.contains(
                    (Loc { row: r as usize, col: c as usize }),
                ),
        decreases rows - 1 - i,
    {
        let mut j: usize = 1;
        while j < cols - 1
            invariant
                1 <= i < rows - 1,
                1 <= j <= cols - 1,
                rows == board.size.rows,
                cols == board.size.cols,
                wf_size(board.size),
                board.size == old(board).size,
                board.field@ == old(board).field@,
                board.apples_positions@ == old(board).apples_positions@,
                forall|r: int, c: int|
                    (1 <= r < i && 1 <= c < cols - 1) || (r == i && 1 <= c < j)
                        ==> #[trigger] board.apples_positions@.contains(
                        (Loc { row: r as usize, col: c as usize }),
                    ),
            decreases cols - 1 - j,
        {
            let candidate = Loc { row: i, col: j };
            if !loc_in(&board.apples_positions, candidate) {
                board.player_position = candidate;
                return ;
            }
            j = j + 1;
        }
        i = i + 1;
    }
    proof {
        lemma_free_interior_cell(board.size, board.apples_positions@);
        let l = choose|l: Loc| is_interior(board.size, l) && !board.apples_positions@.contains(l);
        assert(board.apples_positions@.contains(
            (Loc { row: l.row as int as usize, col: l.col as int as usize }),
        ));
    }
    assert(false);
}

} // verus!
