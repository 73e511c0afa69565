//! Free cells of the grid and the random draws that food placement uses.

use vstd::prelude::*;
use vstd::set_lib::*;

use crate::grid::{Position, GRID_HEIGHT, GRID_WIDTH};

verus! {

/// Some cell of the grid is not covered by `body`.
pub open spec fn has_free_cell(body: Seq<Position>) -> bool {
    exists|p: Position| p.in_grid() && !body.contains(p)
}

/// Row-major number of a cell.
pub open spec fn cell_index(p: Position) -> int {
    p.y * GRID_WIDTH + p.x
}

/// The cell with row-major number `i`.
pub open spec fn cell_at(i: int) -> Position {
    Position { x: (i % GRID_WIDTH as int) as i32, y: (i / GRID_WIDTH as int) as i32 }
}

proof fn lemma_cell_at(i: int)
    requires
        0 <= i < GRID_WIDTH * GRID_HEIGHT,
    ensures
        cell_at(i).in_grid(),
        cell_index(cell_at(i)) == i,
{
}

proof fn lemma_cell_index(p: Position)
    requires
        p.in_grid(),
    ensures
        0 <= cell_index(p) < GRID_WIDTH * GRID_HEIGHT,
        cell_at(cell_index(p)) == p,
{
    assert(0 <= cell_index(p) < GRID_WIDTH * GRID_HEIGHT) by (nonlinear_arith)
        requires
            0 <= p.x < GRID_WIDTH,
            0 <= p.y < GRID_HEIGHT,
    ;
}

/// A body shorter than the number of cells leaves at least one cell free.
pub proof fn lemma_short_body_leaves_free_cell(body: Seq<Position>)
    requires
        body.len() < GRID_WIDTH * GRID_HEIGHT,
    ensures
        has_free_cell(body),
{
    broadcast use vstd::seq_lib::seq_to_set_is_finite;

    let n = GRID_WIDTH * GRID_HEIGHT;
    let indices = body.map_values(|p: Position| cell_index(p));
    let taken = indices.to_set();
    indices.lemma_cardinality_of_set();
    lemma_int_range(0, n as int);
    if set_int_range(0, n as int).subset_of(taken) {
        lemma_len_subset(set_int_range(0, n as int), taken);
        assert(false);
    }
    let i = choose|i: int| set_int_range(0, n as int).contains(i) && !taken.contains(i);
    lemma_cell_at(i);
    let p = cell_at(i);
    if body.contains(p) {
        let k = choose|k: int| 0 <= k < body.len() && body[k] == p;
        assert(indices[k] == i);
        assert(taken.contains(i));
    }
    assert(p.in_grid() && !body.contains(p));
}

/// Relies on `rand::Rng::gen_range` on `rand::thread_rng()`: a value drawn from
/// `0..bound`; the call panics on an empty range.
#[verifier::external_body]
pub(crate) fn random_below(bound: usize) -> (r: usize)
    requires
        0 < bound,
    ensures
        r < bound,
{
    rand::Rng::gen_range(&mut rand::thread_rng(), 0..bound)
}

/// Whether one of the first `count` segments of `body` lies on `p`.
pub fn covers(body: &[Position], count: usize, p: Position) -> (r: bool)
    requires
        count <= body@.len(),
    ensures
        r == body@.subrange(0, count as int).contains(p),
{
    let mut i: usize = 0;
    while i < count
        invariant
            0 <= i <= count <= body@.len(),
            forall|k: int| 0 <= k < i ==> body@[k] != p,
        decreases count - i,
    {
        if body[i] == p {
            assert(body@.subrange(0, count as int)[i as int] == p);
            return true;
        }
        i = i + 1;
    }
    assert forall|k: int| 0 <= k < count implies body@.subrange(0, count as int)[k] != p by {
        assert(body@.subrange(0, count as int)[k] == body@[k]);
    }
    false
}

/// Every cell of the grid that `body` leaves free, each once, in row-major order.
pub fn free_cells(body: &[Position]) -> (r: Vec<Position>)
    ensures
        r@.no_duplicates(),
        forall|p: Position| r@.contains(p) <==> (p.in_grid() && !body@.contains(p)),
{
    let mut cells: Vec<Position> = Vec::new();
    let mut i: i32 = 0;
    while i < GRID_WIDTH * GRID_HEIGHT
        invariant
            0 <= i <= GRID_WIDTH * GRID_HEIGHT,
            cells@.no_duplicates(),
            forall|p: Position|
                cells@.contains(p) <==> (p.in_grid() && !body@.contains(p) && cell_index(p) < i),
        decreases GRID_WIDTH * GRID_HEIGHT - i,
    {
        let p = Position::new(i % GRID_WIDTH, i / GRID_WIDTH);
        proof {
            lemma_cell_at(i as int);
        }
        assert(p == cell_at(i as int));
        let ghost before = cells@;
        let free = !covers(body, body.len(), p);
        assert(body@.subrange(0, body@.len() as int) == body@);
        if free {
            assert(!cells@.contains(p));
            cells.push(p);
        }
        assert forall|q: Position|
            cells@.contains(q) <==> (q.in_grid() && !body@.contains(q) && cell_index(q) < i + 1) by {
            if free {
                assert(cells@ == before.push(p));
                if cells@.contains(q) {
                    let k = choose|k: int| 0 <= k < cells@.len() && cells@[k] == q;
                    if k < before.len() {
                        assert(before[k] == q);
                    }
                }
                if before.contains(q) {
                    let k = choose|k: int| 0 <= k < before.len() && before[k] == q;
                    assert(cells@[k] == q);
                }
                assert(cells@[before.len() as int] == p);
            }
            if q.in_grid() {
                lemma_cell_index(q);
                if cell_index(q) == i {
                    assert(q == p);
                }
            }
        }
        i = i + 1;
    }
    cells
}

} // verus!
