//! The board: a 20 by 10 occupancy grid with placement validity, gravity,
//! stamping and line clearing, plus the session's piece pointers.
use vstd::prelude::*;
use crate::piece::{
    PieceKind, shape_of, piece_id, is_mask, mask_view, lemma_shape_is_mask, get_piece_shape,
    get_piece_id,
};

verus! {

/// Number of columns.
pub const BOARD_WIDTH: usize = 10;

/// Number of rows.
pub const BOARD_HEIGHT: usize = 20;

/// An empty row.
pub open spec fn empty_row() -> Seq<i32> {
    Seq::new(10, |i: int| 0i32)
}

/// The all-empty grid.
pub open spec fn empty_grid() -> Seq<Seq<i32>> {
    Seq::new(20, |i: int| empty_row())
}

/// A grid of 20 rows of 10 cells each.
pub open spec fn is_grid(g: Seq<Seq<i32>>) -> bool {
    &&& g.len() == 20
    &&& forall|y: int| 0 <= y < 20 ==> (#[trigger] g[y]).len() == 10
}

/// Whether the piece covers board cell (row, col) when its mask's top-left
/// corner stands at (x, y).
pub open spec fn covers(k: PieceKind, rot: nat, x: int, y: int, row: int, col: int) -> bool {
    let m = shape_of(k, rot);
    0 <= row - y < m.len() && 0 <= col - x < m[0].len() && m[row - y][col - x] != 0
}

/// Whether every occupied mask cell, moved to (x, y), lies inside the grid on
/// an empty cell.
pub open spec fn fits(g: Seq<Seq<i32>>, k: PieceKind, rot: nat, x: int, y: int) -> bool {
    let m = shape_of(k, rot);
    forall|dy: int, dx: int|
        0 <= dy < m.len() && 0 <= dx < m[0].len() && #[trigger] m[dy][dx] != 0 ==> free_cell(
            g,
            y + dy,
            x + dx,
        )
}

/// Whether (row, col) lies inside the grid on an empty cell.
pub open spec fn free_cell(g: Seq<Seq<i32>>, row: int, col: int) -> bool {
    &&& 0 <= col < 10
    &&& 0 <= row < 20
    &&& g[row][col] == 0
}

/// The grid with `tag` written into every cell the piece covers.
pub open spec fn stamped(g: Seq<Seq<i32>>, k: PieceKind, rot: nat, x: int, y: int, tag: i32) -> Seq<
    Seq<i32>,
> {
    Seq::new(
        20,
        |row: int|
            Seq::new(
                10,
                |col: int|
                    if covers(k, rot, x, y, row, col) {
                        tag
                    } else {
                        g[row][col]
                    },
            ),
    )
}

/// A row every cell of which is occupied.
pub open spec fn row_full(row: Seq<i32>) -> bool {
    forall|i: int| 0 <= i < row.len() ==> #[trigger] row[i] != 0
}

/// The rows that are not full, in their order.
pub open spec fn kept_rows(g: Seq<Seq<i32>>) -> Seq<Seq<i32>>
    decreases g.len(),
{
    if g.len() == 0 {
        g
    } else if row_full(g.last()) {
        kept_rows(g.drop_last())
    } else {
        kept_rows(g.drop_last()).push(g.last())
    }
}

/// How many rows are full.
pub open spec fn full_rows(g: Seq<Seq<i32>>) -> nat
    decreases g.len(),
{
    if g.len() == 0 {
        0
    } else if row_full(g.last()) {
        full_rows(g.drop_last()) + 1
    } else {
        full_rows(g.drop_last())
    }
}

/// The grid after its full rows are removed and as many empty rows are put
/// on top.
pub open spec fn cleared(g: Seq<Seq<i32>>) -> Seq<Seq<i32>> {
    Seq::new(full_rows(g), |i: int| empty_row()) + kept_rows(g)
}

/// The grid after a piece is stamped at (x, y) and lines are cleared.
pub open spec fn placed(g: Seq<Seq<i32>>, k: PieceKind, rot: nat, x: int, y: int) -> Seq<Seq<i32>> {
    cleared(stamped(g, k, rot, x, y, piece_id(k)))
}

/// From a row where the piece fits, the row where it comes to rest.
pub open spec fn settle(g: Seq<Seq<i32>>, k: PieceKind, rot: nat, x: int, y: int) -> int
    decreases 19 - y,
{
    if y < 19 && fits(g, k, rot, x, y + 1) {
        settle(g, k, rot, x, y + 1)
    } else {
        y
    }
}

/// The hard-drop row of a piece in column x: the last row of the run of
/// fitting rows that starts at row 0, or 0 where it does not fit at row 0.
pub open spec fn drop_row(g: Seq<Seq<i32>>, k: PieceKind, rot: nat, x: int) -> int {
    if fits(g, k, rot, x, 0) {
        settle(g, k, rot, x, 0)
    } else {
        0
    }
}

/// Rows as plain sequences.
pub open spec fn rows_view(g: Seq<Vec<i32>>) -> Seq<Seq<i32>> {
    g.map_values(|row: Vec<i32>| row@)
}

/// The kept rows and the full-row count together account for every row.
pub proof fn lemma_kept_rows(g: Seq<Seq<i32>>)
    ensures
        kept_rows(g).len() + full_rows(g) == g.len(),
        forall|i: int| 0 <= i < kept_rows(g).len() ==> g.contains(#[trigger] kept_rows(g)[i]),
        forall|i: int| 0 <= i < kept_rows(g).len() ==> !row_full(#[trigger] kept_rows(g)[i]),
    decreases g.len(),
{
    if g.len() > 0 {
        let p = g.drop_last();
        lemma_kept_rows(p);
        assert forall|i: int| 0 <= i < kept_rows(g).len() implies g.contains(
            #[trigger] kept_rows(g)[i],
        ) by {
            if i < kept_rows(p).len() {
                let j = choose|j: int| 0 <= j < p.len() && p[j] == kept_rows(p)[i];
                assert(g[j] == p[j]);
            } else {
                assert(g[g.len() - 1] == g.last());
            }
        }
    }
}

/// A piece that fits at row y still fits where it settles, below or at y.
pub proof fn lemma_settle_fits(g: Seq<Seq<i32>>, k: PieceKind, rot: nat, x: int, y: int)
    requires
        fits(g, k, rot, x, y),
        0 <= y <= 19,
    ensures
        y <= settle(g, k, rot, x, y) <= 19,
        fits(g, k, rot, x, settle(g, k, rot, x, y)),
    decreases 19 - y,
{
    if y < 19 && fits(g, k, rot, x, y + 1) {
        lemma_settle_fits(g, k, rot, x, y + 1);
    }
}

/// Clearing keeps the grid's shape.
pub proof fn lemma_cleared_is_grid(g: Seq<Seq<i32>>)
    requires
        is_grid(g),
    ensures
        is_grid(cleared(g)),
{
    lemma_kept_rows(g);
    let c = cleared(g);
    let n = full_rows(g) as int;
    assert forall|y: int| 0 <= y < 20 implies (#[trigger] c[y]).len() == 10 by {
        if y >= n {
            assert(c[y] == kept_rows(g)[y - n]);
            let j = choose|j: int| 0 <= j < g.len() && g[j] == kept_rows(g)[y - n];
        }
    }
}

/// A placement is rejected as soon as one occupied cell of its mask falls
/// left of column 0, right of column 9, above row 0 or below row 19, or on
/// an occupied board cell.
pub proof fn lemma_fits_rejects(
    g: Seq<Seq<i32>>,
    k: PieceKind,
    rot: nat,
    x: int,
    y: int,
    dy: int,
    dx: int,
)
    requires
        0 <= dy < shape_of(k, rot).len(),
        0 <= dx < shape_of(k, rot)[0].len(),
        shape_of(k, rot)[dy][dx] != 0,
        x + dx < 0 || x + dx > 9 || y + dy < 0 || y + dy > 19 || g[y + dy][x + dx] != 0,
    ensures
        !fits(g, k, rot, x, y),
{
}

/// Clearing distributes over splitting the rows in two.
proof fn lemma_kept_concat(a: Seq<Seq<i32>>, b: Seq<Seq<i32>>)
    ensures
        kept_rows(a + b) == kept_rows(a) + kept_rows(b),
        full_rows(a + b) == full_rows(a) + full_rows(b),
    decreases b.len(),
{
    if b.len() == 0 {
        assert(a + b =~= a);
        assert(kept_rows(a) + kept_rows(b) =~= kept_rows(a));
    } else {
        lemma_kept_concat(a, b.drop_last());
        assert((a + b).drop_last() =~= a + b.drop_last());
        assert((a + b).last() == b.last());
        if !row_full(b.last()) {
            assert(kept_rows(a) + kept_rows(b) =~= (kept_rows(a) + kept_rows(b.drop_last())).push(
                b.last(),
            ));
        }
    }
}

/// Rows none of which is full are all kept.
proof fn lemma_no_full_rows(g: Seq<Seq<i32>>)
    requires
        forall|i: int| 0 <= i < g.len() ==> !row_full(#[trigger] g[i]),
    ensures
        kept_rows(g) == g,
        full_rows(g) == 0,
    decreases g.len(),
{
    if g.len() > 0 {
        let p = g.drop_last();
        assert forall|i: int| 0 <= i < p.len() implies !row_full(#[trigger] p[i]) by {
            assert(p[i] == g[i]);
        }
        lemma_no_full_rows(p);
        assert(!row_full(g[g.len() - 1]));
        assert(p.push(g.last()) =~= g);
    }
}

/// After clearing no row is full, so clearing again changes nothing and
/// clears no row; the number of rows stays 20.
pub proof fn lemma_clear_lines_idempotent(g: Seq<Seq<i32>>)
    requires
        is_grid(g),
    ensures
        is_grid(cleared(g)),
        full_rows(cleared(g)) == 0,
        cleared(cleared(g)) == cleared(g),
{
    lemma_cleared_is_grid(g);
    lemma_kept_rows(g);
    let c = cleared(g);
    let n = full_rows(g) as int;
    assert forall|i: int| 0 <= i < c.len() implies !row_full(#[trigger] c[i]) by {
        if i < n {
            assert(c[i] == empty_row());
            assert(c[i][0] == 0);
        } else {
            assert(c[i] == kept_rows(g)[i - n]);
        }
    }
    lemma_no_full_rows(c);
    assert(cleared(c) =~= c);
}

/// With exactly one full row, clearing removes that row and puts one empty
/// row on top.
pub proof fn lemma_clear_single_line(g: Seq<Seq<i32>>, j: int)
    requires
        is_grid(g),
        0 <= j < 20,
        row_full(g[j]),
        forall|i: int| 0 <= i < 20 && i != j ==> !row_full(#[trigger] g[i]),
    ensures
        full_rows(g) == 1,
        cleared(g) == seq![empty_row()] + g.remove(j),
{
    let a = g.subrange(0, j);
    let b = g.subrange(j + 1, 20);
    assert forall|i: int| 0 <= i < a.len() implies !row_full(#[trigger] a[i]) by {
        assert(a[i] == g[i]);
    }
    assert forall|i: int| 0 <= i < b.len() implies !row_full(#[trigger] b[i]) by {
        assert(b[i] == g[i + j + 1]);
    }
    lemma_no_full_rows(a);
    lemma_no_full_rows(b);
    let one = seq![g[j]];
    assert(one.drop_last() =~= Seq::<Seq<i32>>::empty());
    assert(kept_rows(one.drop_last()) =~= Seq::<Seq<i32>>::empty());
    assert(kept_rows(one) == kept_rows(one.drop_last()));
    lemma_kept_concat(a, one);
    lemma_kept_concat(a + one, b);
    assert(a + one + b =~= g);
    assert(g.remove(j) =~= a + b);
    assert(kept_rows(a + one) =~= a);
    assert(one.last() == g[j]);
    assert(full_rows(one.drop_last()) == 0);
    assert(full_rows(one) == 1);
    assert(kept_rows(g) == a + b);
    assert(full_rows(g) == 1);
    assert(Seq::new(1, |i: int| empty_row()) =~= seq![empty_row()]);
    assert(cleared(g) =~= seq![empty_row()] + g.remove(j));
}

/// The board, with the pieces the session knows about.
#[derive(Clone, Debug)]
pub struct TetrisBoard {
    /// Rows top to bottom; 0 is empty, 1 to 7 the tag of the piece there.
    pub grid: Vec<Vec<i32>>,
    pub current_piece: Option<PieceKind>,
    pub held_piece: Option<PieceKind>,
    pub next_pieces: Vec<PieceKind>,
    /// Whether a hold is allowed; kept for the caller, not used by the search.
    pub can_hold: bool,
}

/// A fresh row of empty cells.
fn zero_row() -> (r: Vec<i32>)
    ensures
        r@ == empty_row(),
{
    let mut row: Vec<i32> = Vec::new();
    let mut i: usize = 0;
    while i < BOARD_WIDTH
        invariant
            i <= 10,
            row@ == Seq::new(i as nat, |j: int| 0i32),
        decreases 10 - i,
    {
        row.push(0);
        i += 1;
    }
    assert(row@ =~= empty_row());
    row
}

/// A fresh grid of empty cells.
pub fn empty_grid_rows() -> (r: Vec<Vec<i32>>)
    ensures
        rows_view(r@) == empty_grid(),
{
    let mut grid: Vec<Vec<i32>> = Vec::new();
    let mut i: usize = 0;
    while i < BOARD_HEIGHT
        invariant
            i <= 20,
            rows_view(grid@) =~= Seq::new(i as nat, |j: int| empty_row()),
        decreases 20 - i,
    {
        let ghost prev = grid@;
        grid.push(zero_row());
        assert(rows_view(grid@) =~= rows_view(prev).push(empty_row()));
        i += 1;
    }
    assert(rows_view(grid@) =~= empty_grid());
    grid
}

/// A copy of a row.
fn copy_row(row: &Vec<i32>) -> (r: Vec<i32>)
    ensures
        r@ == row@,
{
    let mut out: Vec<i32> = Vec::new();
    let mut i: usize = 0;
    while i < row.len()
        invariant
            i <= row.len(),
            out@ == row@.subrange(0, i as int),
        decreases row.len() - i,
    {
        out.push(row[i]);
        i += 1;
    }
    assert(out@ =~= row@);
    out
}

impl TetrisBoard {
    /// The grid as plain sequences.
    pub open spec fn cells(&self) -> Seq<Seq<i32>> {
        rows_view(self.grid@)
    }

    /// The grid has 20 rows of 10 cells.
    pub open spec fn wf(&self) -> bool {
        is_grid(self.cells())
    }

    /// An empty board with no pieces known and hold allowed.
    pub fn new() -> (r: TetrisBoard)
        ensures
            r.wf(),
            r.cells() == empty_grid(),
            r.current_piece.is_none(),
            r.held_piece.is_none(),
            r.next_pieces@.len() == 0,
            r.can_hold,
    {
        TetrisBoard {
            grid: empty_grid_rows(),
            current_piece: None,
            held_piece: None,
            next_pieces: Vec::new(),
            can_hold: true,
        }
    }

    /// A board with the given grid and no pieces known.
    pub fn from_grid(grid: Vec<Vec<i32>>) -> (r: TetrisBoard)
        ensures
            r.grid@ == grid@,
            r.current_piece.is_none(),
            r.held_piece.is_none(),
            r.next_pieces@.len() == 0,
            r.can_hold,
    {
        TetrisBoard { grid, current_piece: None, held_piece: None, next_pieces: Vec::new(), can_hold: true }
    }

    /// Replaces the current, held and upcoming pieces, leaving the grid alone.
    pub fn update_pieces(
        &mut self,
        current: Option<PieceKind>,
        held: Option<PieceKind>,
        next: Vec<PieceKind>,
    )
        ensures
            final(self).grid@ == old(self).grid@,
            final(self).current_piece == current,
            final(self).held_piece == held,
            final(self).next_pieces@ == next@,
            final(self).can_hold == old(self).can_hold,
    {
        self.current_piece = current;
        self.held_piece = held;
        self.next_pieces = next;
    }

    /// A copy of the board.
    pub fn copy(&self) -> (r: TetrisBoard)
        ensures
            r.cells() == self.cells(),
            r.current_piece == self.current_piece,
            r.held_piece == self.held_piece,
            r.next_pieces@ == self.next_pieces@,
            r.can_hold == self.can_hold,
    {
        let mut grid: Vec<Vec<i32>> = Vec::new();
        let mut i: usize = 0;
        while i < self.grid.len()
            invariant
                i <= self.grid@.len(),
                rows_view(grid@) =~= self.cells().subrange(0, i as int),
            decreases self.grid@.len() - i,
        {
            let ghost prev = grid@;
            grid.push(copy_row(&self.grid[i]));
            assert(rows_view(grid@) =~= rows_view(prev).push(self.grid@[i as int]@));
            i += 1;
        }
        assert(rows_view(grid@) =~= self.cells());
        let mut next: Vec<PieceKind> = Vec::new();
        let mut j: usize = 0;
        while j < self.next_pieces.len()
            invariant
                j <= self.next_pieces@.len(),
                next@ =~= self.next_pieces@.subrange(0, j as int),
            decreases self.next_pieces@.len() - j,
        {
            next.push(self.next_pieces[j]);
            j += 1;
        }
        assert(next@ =~= self.next_pieces@);
        TetrisBoard {
            grid,
            current_piece: self.current_piece,
            held_piece: self.held_piece,
            next_pieces: next,
            can_hold: self.can_hold,
        }
    }

    /// The cell at (row, col).
    pub fn cell(&self, row: usize, col: usize) -> (r: i32)
        requires
            self.wf(),
            row < 20,
            col < 10,
        ensures
            r == self.cells()[row as int][col as int],
    {
        assert(self.grid@[row as int]@ == self.cells()[row as int]);
        self.grid[row][col]
    }

    /// Whether the piece fits with its mask's top-left corner at (x, y).
    pub fn is_valid_position(&self, piece: PieceKind, x: i32, y: i32, rotation: u8) -> (r: bool)
        requires
            self.wf(),
        ensures
            r == fits(self.cells(), piece, rotation as nat, x as int, y as int),
    {
        let shape = get_piece_shape(piece, rotation);
        let ghost m = shape_of(piece, rotation as nat);
        let ghost g = self.cells();
        proof {
            lemma_shape_is_mask(piece, rotation as nat);
            assert(shape@[0]@ == m[0]);
        }
        let h = shape.len();
        let w = shape[0].len();
        let mut dy: usize = 0;
        while dy < h
            invariant
                self.wf(),
                g == self.cells(),
                mask_view(shape@) == m,
                m == shape_of(piece, rotation as nat),
                is_mask(m),
                h == m.len(),
                w == m[0].len(),
                dy <= h,
                forall|ddy: int, dx: int|
                    0 <= ddy < dy && 0 <= dx < w && #[trigger] m[ddy][dx] != 0 ==> free_cell(
                        g,
                        y + ddy,
                        x + dx,
                    ),
            decreases h - dy,
        {
            assert(shape@[dy as int]@ == m[dy as int]);
            let mut dx: usize = 0;
            while dx < w
                invariant
                    self.wf(),
                    g == self.cells(),
                    mask_view(shape@) == m,
                    m == shape_of(piece, rotation as nat),
                m == shape_of(piece, rotation as nat),
                    is_mask(m),
                    h == m.len(),
                    w == m[0].len(),
                    dy < h,
                    dx <= w,
                    shape@[dy as int]@ == m[dy as int],
                    forall|ddy: int, ddx: int|
                        0 <= ddy < dy && 0 <= ddx < w && #[trigger] m[ddy][ddx] != 0 ==> free_cell(
                            g,
                            y + ddy,
                            x + ddx,
                        ),
                    forall|ddx: int|
                        0 <= ddx < dx && #[trigger] m[dy as int][ddx] != 0 ==> free_cell(
                            g,
                            y + dy,
                            x + ddx,
                        ),
                decreases w - dx,
            {
                if shape[dy][dx] != 0 {
                    let bx: i64 = x as i64 + dx as i64;
                    let by: i64 = y as i64 + dy as i64;
                    if bx < 0 || bx >= 10 || by < 0 || by >= 20 {
                        assert(m[dy as int][dx as int] != 0);
                        assert(!free_cell(g, y + dy, x + dx));
                        return false;
                    }
                    if self.cell(by as usize, bx as usize) != 0 {
                        assert(m[dy as int][dx as int] != 0);
                        assert(!free_cell(g, y + dy, x + dx));
                        return false;
                    }
                }
                dx += 1;
            }
            dy += 1;
        }
        true
    }

    /// The grid with `tag` written into every cell the piece covers at (x, y).
    pub fn stamp_grid(&self, piece: PieceKind, x: i32, y: i32, rotation: u8, tag: i32) -> (r: Vec<
        Vec<i32>,
    >)
        requires
            self.wf(),
        ensures
            rows_view(r@) == stamped(self.cells(), piece, rotation as nat, x as int, y as int, tag),
    {
        let shape = get_piece_shape(piece, rotation);
        let ghost m = shape_of(piece, rotation as nat);
        let ghost st = stamped(self.cells(), piece, rotation as nat, x as int, y as int, tag);
        proof {
            lemma_shape_is_mask(piece, rotation as nat);
            assert(shape@[0]@ == m[0]);
        }
        let h = shape.len() as i64;
        let w = shape[0].len() as i64;
        let mut grid: Vec<Vec<i32>> = Vec::new();
        let mut row: usize = 0;
        while row < BOARD_HEIGHT
            invariant
                self.wf(),
                mask_view(shape@) == m,
                m == shape_of(piece, rotation as nat),
                is_mask(m),
                h == m.len(),
                w == m[0].len(),
                row <= 20,
                st == stamped(self.cells(), piece, rotation as nat, x as int, y as int, tag),
                rows_view(grid@) =~= st.subrange(0, row as int),
            decreases 20 - row,
        {
            let mut line: Vec<i32> = Vec::new();
            let mut col: usize = 0;
            while col < BOARD_WIDTH
                invariant
                    self.wf(),
                    mask_view(shape@) == m,
                    m == shape_of(piece, rotation as nat),
                m == shape_of(piece, rotation as nat),
                    is_mask(m),
                    h == m.len(),
                    w == m[0].len(),
                    row < 20,
                    col <= 10,
                    st == stamped(self.cells(), piece, rotation as nat, x as int, y as int, tag),
                    line@ =~= st[row as int].subrange(0, col as int),
                decreases 10 - col,
            {
                let dy: i64 = row as i64 - y as i64;
                let dx: i64 = col as i64 - x as i64;
                let mut v = self.cell(row, col);
                if 0 <= dy && dy < h && 0 <= dx && dx < w {
                    assert(shape@[dy as int]@ == m[dy as int]);
                    if shape[dy as usize][dx as usize] != 0 {
                        v = tag;
                    }
                }
                line.push(v);
                col += 1;
            }
            assert(line@ =~= st[row as int]);
            let ghost prev = grid@;
            grid.push(line);
            assert(rows_view(grid@) =~= rows_view(prev).push(line@));
            assert(st.subrange(0, row + 1) =~= st.subrange(0, row as int).push(st[row as int]));
            row += 1;
        }
        grid
    }

    /// Whether row y is full.
    pub fn is_line_full(&self, y: usize) -> (r: bool)
        requires
            self.wf(),
            y < 20,
        ensures
            r == row_full(self.cells()[y as int]),
    {
        let mut x: usize = 0;
        while x < BOARD_WIDTH
            invariant
                self.wf(),
                y < 20,
                x <= 10,
                forall|i: int| 0 <= i < x ==> #[trigger] self.cells()[y as int][i] != 0,
            decreases 10 - x,
        {
            if self.cell(y, x) == 0 {
                return false;
            }
            x += 1;
        }
        true
    }

    /// Removes every full row, puts as many empty rows on top and returns how
    /// many rows were removed.
    pub fn clear_lines(&mut self) -> (r: u32)
        requires
            old(self).wf(),
        ensures
            final(self).wf(),
            final(self).cells() == cleared(old(self).cells()),
            r == full_rows(old(self).cells()),
            final(self).current_piece == old(self).current_piece,
            final(self).held_piece == old(self).held_piece,
            final(self).next_pieces == old(self).next_pieces,
            final(self).can_hold == old(self).can_hold,
    {
        let ghost g = self.cells();
        let mut kept: Vec<Vec<i32>> = Vec::new();
        let mut full: u32 = 0;
        let mut i: usize = 0;
        while i < BOARD_HEIGHT
            invariant
                self.wf(),
                g == self.cells(),
                i <= 20,
                rows_view(kept@) == kept_rows(g.subrange(0, i as int)),
                full as nat == full_rows(g.subrange(0, i as int)),
                full <= i,
            decreases 20 - i,
        {
            assert(g.subrange(0, i + 1).drop_last() =~= g.subrange(0, i as int));
            assert(g.subrange(0, i + 1).last() == g[i as int]);
            if self.is_line_full(i) {
                full += 1;
            } else {
                let ghost prev = kept@;
                assert(self.grid@[i as int]@ == g[i as int]);
                kept.push(copy_row(&self.grid[i]));
                assert(rows_view(kept@) =~= rows_view(prev).push(g[i as int]));
            }
            i += 1;
        }
        assert(g.subrange(0, 20) =~= g);
        let mut grid: Vec<Vec<i32>> = Vec::new();
        let mut j: u32 = 0;
        while j < full
            invariant
                j <= full,
                rows_view(grid@) =~= Seq::new(j as nat, |n: int| empty_row()),
            decreases full - j,
        {
            let ghost prev = grid@;
            grid.push(zero_row());
            assert(rows_view(grid@) =~= rows_view(prev).push(empty_row()));
            j += 1;
        }
        let ghost top = grid@;
        let ghost rest = kept@;
        grid.append(&mut kept);
        assert(rows_view(grid@) =~= rows_view(top) + rows_view(rest));
        self.grid = grid;
        proof {
            lemma_cleared_is_grid(g);
        }
        assert(self.cells() =~= cleared(g));
        full
    }

    /// Places the piece at (x, y) and clears lines; where it does not fit
    /// there, returns false and leaves the board as it was.
    pub fn place_piece(&mut self, piece: PieceKind, x: i32, y: i32, rotation: u8) -> (r: bool)
        requires
            old(self).wf(),
        ensures
            final(self).wf(),
            r == fits(old(self).cells(), piece, rotation as nat, x as int, y as int),
            r ==> final(self).cells() == placed(
                old(self).cells(),
                piece,
                rotation as nat,
                x as int,
                y as int,
            ),
            !r ==> final(self).cells() == old(self).cells(),
            final(self).current_piece == old(self).current_piece,
            final(self).held_piece == old(self).held_piece,
            final(self).next_pieces == old(self).next_pieces,
            final(self).can_hold == old(self).can_hold,
    {
        if !self.is_valid_position(piece, x, y, rotation) {
            return false;
        }
        let id = get_piece_id(piece);
        let grid = self.stamp_grid(piece, x, y, rotation, id);
        self.grid = grid;
        assert(is_grid(self.cells()));
        self.clear_lines();
        true
    }

    /// The row a hard drop in column x brings the piece to.
    pub fn get_drop_position(&self, piece: PieceKind, x: i32, rotation: u8) -> (r: i32)
        requires
            self.wf(),
        ensures
            r == drop_row(self.cells(), piece, rotation as nat, x as int),
            0 <= r <= 19,
    {
        if !self.is_valid_position(piece, x, 0, rotation) {
            return 0;
        }
        let ghost g = self.cells();
        let mut y: i32 = 0;
        while y < 19 && self.is_valid_position(piece, x, y + 1, rotation)
            invariant
                self.wf(),
                g == self.cells(),
                0 <= y <= 19,
                settle(g, piece, rotation as nat, x as int, 0) == settle(
                    g,
                    piece,
                    rotation as nat,
                    x as int,
                    y as int,
                ),
            decreases 19 - y,
        {
            y += 1;
        }
        y
    }

    /// The grid with the piece drawn at (x, y) with its tag plus 10, so that
    /// a display can tell the falling piece from the stack.
    pub fn board_with_piece(&self, piece: PieceKind, x: i32, y: i32, rotation: u8) -> (r: Vec<
        Vec<i32>,
    >)
        requires
            self.wf(),
        ensures
            rows_view(r@) == stamped(
                self.cells(),
                piece,
                rotation as nat,
                x as int,
                y as int,
                (piece_id(piece) + 10) as i32,
            ),
    {
        let id = get_piece_id(piece);
        self.stamp_grid(piece, x, y, rotation, id + 10)
    }
}

} // verus!
