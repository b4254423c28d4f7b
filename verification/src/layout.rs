//! Where the board's spaces are drawn: round the edge of a 7 by 7 grid,
//! clockwise from the top-left corner.
use vstd::prelude::*;

verus! {

/// Grid cell (column, row) of a board position, if it is on the board.
pub open spec fn cell_of(index: int) -> Option<(u16, u16)> {
    if 0 <= index <= 6 {
        Some((index as u16, 0u16))
    } else if 7 <= index <= 11 {
        Some((6u16, (index - 6) as u16))
    } else if 12 <= index <= 18 {
        Some(((18 - index) as u16, 6u16))
    } else if 19 <= index <= 23 {
        Some((0u16, (24 - index) as u16))
    } else {
        None
    }
}

/// Whether a cell of the 7 by 7 grid lies on its edge.
pub open spec fn on_edge(c: u16, r: u16) -> bool {
    c <= 6 && r <= 6 && (c == 0 || c == 6 || r == 0 || r == 6)
}

/// Grid cell (column, row) where a board position is drawn.
pub fn board_coordinates(index: usize) -> (cell: Option<(u16, u16)>)
    ensures
        cell == cell_of(index as int),
{
    if index <= 6 {
        Some((index as u16, 0))
    } else if index <= 11 {
        Some((6, index as u16 - 6))
    } else if index <= 18 {
        Some((18 - index as u16, 6))
    } else if index <= 23 {
        Some((0, 24 - index as u16))
    } else {
        None
    }
}

/// The 24 positions fill the edge of the 7 by 7 grid, each cell once, and
/// nothing else has a cell.
pub proof fn lemma_cells_cover_the_edge()
    ensures
        forall|i: int| 0 <= i < 24 ==> ((#[trigger] cell_of(i)) matches Some(c) && on_edge(c.0, c.1)),
        forall|i: int, j: int| 0 <= i < 24 && 0 <= j < 24 && i != j ==> #[trigger] cell_of(i) != #[trigger] cell_of(j),
        forall|i: int| !(0 <= i < 24) ==> #[trigger] cell_of(i) is None,
        forall|c: u16, r: u16| #[trigger] on_edge(c, r) ==> exists|i: int| 0 <= i < 24 && cell_of(i) == Some((c, r)),
{
    assert forall|c: u16, r: u16| #[trigger] on_edge(c, r) implies exists|i: int| 0 <= i < 24 && cell_of(i) == Some((c, r)) by {
        if r == 0 {
            assert(cell_of(c as int) == Some((c, r)));
        } else if c == 6 {
            assert(cell_of(6 + r as int) == Some((c, r)));
        } else if r == 6 {
            assert(cell_of(18 - c as int) == Some((c, r)));
        } else {
            assert(cell_of(24 - r as int) == Some((c, r)));
        }
    }
}

} // verus!
