//! The board evaluator: column heights, holes, bumpiness, complete lines and
//! their weighted sum.
use vstd::prelude::*;
use crate::board::{TetrisBoard, full_rows, BOARD_WIDTH, BOARD_HEIGHT};

verus! {

/// The first occupied row of column x at row y or below; 20 where there is
/// none.
pub open spec fn top_from(g: Seq<Seq<i32>>, x: int, y: int) -> int
    decreases 20 - y,
{
    if y >= 20 {
        20
    } else if g[y][x] != 0 {
        y
    } else {
        top_from(g, x, y + 1)
    }
}

/// The distance from the topmost occupied cell of column x to the floor; 0
/// for an empty column.
pub open spec fn column_height(g: Seq<Seq<i32>>, x: int) -> int {
    20 - top_from(g, x, 0)
}

/// The heights of the ten columns.
pub open spec fn heights(g: Seq<Seq<i32>>) -> Seq<int> {
    Seq::new(10, |x: int| column_height(g, x))
}

/// The sum of a sequence of integers.
pub open spec fn sum(s: Seq<int>) -> int
    decreases s.len(),
{
    if s.len() == 0 {
        0
    } else {
        sum(s.drop_last()) + s.last()
    }
}

/// The sum of the column heights.
pub open spec fn aggregate_height(g: Seq<Seq<i32>>) -> int {
    sum(heights(g))
}

/// The number of empty cells of column x in rows lo up to hi, hi excluded.
pub open spec fn empties(g: Seq<Seq<i32>>, x: int, lo: int, hi: int) -> int
    decreases hi - lo,
{
    if hi <= lo {
        0
    } else {
        empties(g, x, lo, hi - 1) + if g[hi - 1][x] == 0 {
            1int
        } else {
            0int
        }
    }
}

/// The empty cells of column x below its topmost occupied cell.
pub open spec fn column_holes(g: Seq<Seq<i32>>, x: int) -> int {
    empties(g, x, top_from(g, x, 0), 20)
}

/// The holes of all columns.
pub open spec fn holes(g: Seq<Seq<i32>>) -> int {
    sum(Seq::new(10, |x: int| column_holes(g, x)))
}

/// The absolute value of an integer.
pub open spec fn abs(v: int) -> int {
    if v < 0 {
        -v
    } else {
        v
    }
}

/// The sum of the height differences of neighbouring columns.
pub open spec fn bumpiness(g: Seq<Seq<i32>>) -> int {
    sum(Seq::new(9, |i: int| abs(column_height(g, i) - column_height(g, i + 1))))
}

/// The weights of the evaluator, in thousandths of a point per unit.
#[derive(Clone, Copy, Debug, PartialEq, Eq, Structural)]
pub struct Weights {
    /// Per complete line; positive.
    pub line_clear: i32,
    /// Per hole; a penalty.
    pub hole: i32,
    /// Per unit of bumpiness; a penalty.
    pub bumpiness: i32,
    /// Per unit of aggregate height; a penalty.
    pub height: i32,
}

/// The score of a grid, in thousandths of a point.
pub open spec fn score(g: Seq<Seq<i32>>, w: Weights) -> int {
    full_rows(g) * w.line_clear + holes(g) * w.hole + bumpiness(g) * w.bumpiness
        + aggregate_height(g) * w.height
}

impl Weights {
    /// The tuned weights.
    pub open spec fn reference_spec() -> Weights {
        Weights { line_clear: 760666, hole: -35000i32, bumpiness: -18000i32, height: -51000i32 }
    }

    /// The tuned weights: 760.666 per line, -35 per hole, -18 per unit of
    /// bumpiness and -51 per unit of height.
    pub fn reference() -> (r: Weights)
        ensures
            r == Weights::reference_spec(),
    {
        Weights { line_clear: 760666, hole: -35000, bumpiness: -18000, height: -51000 }
    }
}

/// The parts of a score.
#[derive(Clone, Copy, Debug, PartialEq, Eq, Structural)]
pub struct ScoreBreakdown {
    pub lines: u32,
    pub holes: u32,
    pub bumpiness: u32,
    pub aggregate_height: u32,
    pub total: i64,
}

proof fn lemma_top_from_range(g: Seq<Seq<i32>>, x: int, y: int)
    requires
        0 <= y,
    ensures
        y <= 20 ==> y <= top_from(g, x, y) <= 20,
        top_from(g, x, y) <= 20,
    decreases 20 - y,
{
    if y < 20 && g[y][x] == 0 {
        lemma_top_from_range(g, x, y + 1);
    }
}

proof fn lemma_empties_range(g: Seq<Seq<i32>>, x: int, lo: int, hi: int)
    ensures
        0 <= empties(g, x, lo, hi),
        lo <= hi ==> empties(g, x, lo, hi) <= hi - lo,
    decreases hi - lo,
{
    if hi > lo {
        lemma_empties_range(g, x, lo, hi - 1);
    }
}

proof fn lemma_sum_bounds(s: Seq<int>, b: int)
    requires
        forall|i: int| 0 <= i < s.len() ==> 0 <= #[trigger] s[i] <= b,
    ensures
        0 <= sum(s) <= b * s.len(),
    decreases s.len(),
{
    if s.len() > 0 {
        lemma_sum_bounds(s.drop_last(), b);
        assert(b * (s.len() - 1) + b == b * s.len()) by (nonlinear_arith);
    }
}

proof fn lemma_full_rows_bound(g: Seq<Seq<i32>>)
    ensures
        full_rows(g) <= g.len(),
    decreases g.len(),
{
    if g.len() > 0 {
        lemma_full_rows_bound(g.drop_last());
    }
}

/// Column heights lie between 0 and 20.
pub proof fn lemma_height_range(g: Seq<Seq<i32>>, x: int)
    ensures
        0 <= column_height(g, x) <= 20,
{
    lemma_top_from_range(g, x, 0);
}

/// The metrics stay within what a 20 by 10 grid allows.
pub proof fn lemma_metric_bounds(g: Seq<Seq<i32>>)
    ensures
        0 <= full_rows(g) <= g.len(),
        0 <= holes(g) <= 200,
        0 <= bumpiness(g) <= 180,
        0 <= aggregate_height(g) <= 200,
{
    lemma_full_rows_bound(g);
    let hs = heights(g);
    assert forall|i: int| 0 <= i < hs.len() implies 0 <= #[trigger] hs[i] <= 20 by {
        lemma_height_range(g, i);
    }
    lemma_sum_bounds(hs, 20);
    let ho = Seq::new(10, |x: int| column_holes(g, x));
    assert forall|i: int| 0 <= i < ho.len() implies 0 <= #[trigger] ho[i] <= 20 by {
        lemma_top_from_range(g, i, 0);
        lemma_empties_range(g, i, top_from(g, i, 0), 20);
    }
    lemma_sum_bounds(ho, 20);
    let bu = Seq::new(9, |i: int| abs(column_height(g, i) - column_height(g, i + 1)));
    assert forall|i: int| 0 <= i < bu.len() implies 0 <= #[trigger] bu[i] <= 20 by {
        lemma_height_range(g, i);
        lemma_height_range(g, i + 1);
    }
    lemma_sum_bounds(bu, 20);
}

/// The height of each column.
pub fn get_column_heights(board: &TetrisBoard) -> (r: Vec<u32>)
    requires
        board.wf(),
    ensures
        r@.len() == 10,
        forall|x: int| 0 <= x < 10 ==> #[trigger] r@[x] as int == column_height(board.cells(), x),
{
    let ghost g = board.cells();
    let mut hs: Vec<u32> = Vec::new();
    let mut x: usize = 0;
    while x < BOARD_WIDTH
        invariant
            board.wf(),
            g == board.cells(),
            x <= 10,
            hs@.len() == x,
            forall|i: int| 0 <= i < x ==> #[trigger] hs@[i] as int == column_height(g, i),
        decreases 10 - x,
    {
        let mut y: usize = 0;
        while y < BOARD_HEIGHT && board.cell(y, x) == 0
            invariant
                board.wf(),
                g == board.cells(),
                x < 10,
                y <= 20,
                top_from(g, x as int, 0) == top_from(g, x as int, y as int),
            decreases 20 - y,
        {
            y += 1;
        }
        let h: u32 = (20 - y) as u32;
        hs.push(h);
        x += 1;
    }
    hs
}

/// The sum of the column heights.
pub fn get_aggregate_height(board: &TetrisBoard) -> (r: u32)
    requires
        board.wf(),
    ensures
        r as int == aggregate_height(board.cells()),
{
    let ghost g = board.cells();
    let hs = get_column_heights(board);
    let mut total: u32 = 0;
    let mut i: usize = 0;
    while i < BOARD_WIDTH
        invariant
            hs@.len() == 10,
            forall|x: int| 0 <= x < 10 ==> #[trigger] hs@[x] as int == column_height(g, x),
            i <= 10,
            total as int == sum(heights(g).subrange(0, i as int)),
            total <= 20 * i,
        decreases 10 - i,
    {
        proof {
            lemma_height_range(g, i as int);
            assert(heights(g).subrange(0, i + 1).drop_last() =~= heights(g).subrange(0, i as int));
        }
        total = total + hs[i];
        i += 1;
    }
    assert(heights(g).subrange(0, 10) =~= heights(g));
    total
}

/// The number of empty cells lying below the topmost occupied cell of their
/// column.
pub fn count_holes(board: &TetrisBoard) -> (r: u32)
    requires
        board.wf(),
    ensures
        r as int == holes(board.cells()),
{
    let ghost g = board.cells();
    let ghost ho = Seq::new(10, |x: int| column_holes(g, x));
    let mut total: u32 = 0;
    let mut x: usize = 0;
    while x < BOARD_WIDTH
        invariant
            board.wf(),
            g == board.cells(),
            ho == Seq::new(10, |x: int| column_holes(g, x)),
            x <= 10,
            total as int == sum(ho.subrange(0, x as int)),
            total <= 20 * x,
        decreases 10 - x,
    {
        let mut found = false;
        let mut col: u32 = 0;
        let mut y: usize = 0;
        while y < BOARD_HEIGHT
            invariant
                board.wf(),
                g == board.cells(),
                x < 10,
                y <= 20,
                !found ==> top_from(g, x as int, 0) == top_from(g, x as int, y as int),
                !found ==> col == 0,
                found ==> top_from(g, x as int, 0) < y,
                found ==> col as int == empties(g, x as int, top_from(g, x as int, 0), y as int),
                col <= y,
            decreases 20 - y,
        {
            let ghost t = top_from(g, x as int, 0);
            proof {
                assert(empties(g, x as int, y as int, y as int) == 0);
            }
            if board.cell(y, x) != 0 {
                found = true;
            } else if found {
                col += 1;
            }
            assert(found ==> col as int == empties(g, x as int, t, y + 1));
            y += 1;
        }
        proof {
            lemma_top_from_range(g, x as int, 0);
            lemma_empties_range(g, x as int, top_from(g, x as int, 0), 20);
            if !found {
                assert(top_from(g, x as int, 0) == 20);
            }
            assert(ho.subrange(0, x + 1).drop_last() =~= ho.subrange(0, x as int));
        }
        total = total + col;
        x += 1;
    }
    assert(ho.subrange(0, 10) =~= ho);
    total
}

/// The sum of the height differences of neighbouring columns.
pub fn get_bumpiness(board: &TetrisBoard) -> (r: u32)
    requires
        board.wf(),
    ensures
        r as int == bumpiness(board.cells()),
{
    let ghost g = board.cells();
    let ghost bu = Seq::new(9, |i: int| abs(column_height(g, i) - column_height(g, i + 1)));
    let hs = get_column_heights(board);
    let mut total: u32 = 0;
    let mut i: usize = 0;
    while i < BOARD_WIDTH - 1
        invariant
            hs@.len() == 10,
            forall|x: int| 0 <= x < 10 ==> #[trigger] hs@[x] as int == column_height(g, x),
            bu == Seq::new(9, |i: int| abs(column_height(g, i) - column_height(g, i + 1))),
            i <= 9,
            total as int == sum(bu.subrange(0, i as int)),
            total <= 20 * i,
        decreases 9 - i,
    {
        proof {
            lemma_height_range(g, i as int);
            lemma_height_range(g, i + 1);
            assert(bu.subrange(0, i + 1).drop_last() =~= bu.subrange(0, i as int));
        }
        let a = hs[i];
        let b = hs[i + 1];
        let d = if a >= b {
            a - b
        } else {
            b - a
        };
        total = total + d;
        i += 1;
    }
    assert(bu.subrange(0, 9) =~= bu);
    total
}

/// The number of full rows.
pub fn count_complete_lines(board: &TetrisBoard) -> (r: u32)
    requires
        board.wf(),
    ensures
        r as int == full_rows(board.cells()),
{
    let ghost g = board.cells();
    let mut n: u32 = 0;
    let mut y: usize = 0;
    while y < BOARD_HEIGHT
        invariant
            board.wf(),
            g == board.cells(),
            y <= 20,
            n as nat == full_rows(g.subrange(0, y as int)),
            n <= y,
        decreases 20 - y,
    {
        assert(g.subrange(0, y + 1).drop_last() =~= g.subrange(0, y as int));
        assert(g.subrange(0, y + 1).last() == g[y as int]);
        if board.is_line_full(y) {
            n += 1;
        }
        y += 1;
    }
    assert(g.subrange(0, 20) =~= g);
    n
}

/// The metrics of a board and its weighted score.
pub fn evaluate_board_detailed(board: &TetrisBoard, weights: &Weights) -> (r: ScoreBreakdown)
    requires
        board.wf(),
    ensures
        r.lines as int == full_rows(board.cells()),
        r.holes as int == holes(board.cells()),
        r.bumpiness as int == bumpiness(board.cells()),
        r.aggregate_height as int == aggregate_height(board.cells()),
        r.total as int == score(board.cells(), *weights),
{
    let lines = count_complete_lines(board);
    let hole_count = count_holes(board);
    let bump = get_bumpiness(board);
    let height = get_aggregate_height(board);
    proof {
        lemma_metric_bounds(board.cells());
    }
    let a = weighted(lines, weights.line_clear);
    let b = weighted(hole_count, weights.hole);
    let c = weighted(bump, weights.bumpiness);
    let d = weighted(height, weights.height);
    ScoreBreakdown {
        lines,
        holes: hole_count,
        bumpiness: bump,
        aggregate_height: height,
        total: a + b + c + d,
    }
}

/// A metric times its weight.
fn weighted(metric: u32, weight: i32) -> (r: i64)
    requires
        metric <= 200,
    ensures
        r == metric * weight,
        -200 * 0x8000_0000 <= r <= 200 * 0x8000_0000,
{
    proof {
        assert(-200 * 0x8000_0000 <= metric * weight <= 200 * 0x8000_0000) by (nonlinear_arith)
            requires
                metric <= 200,
                -0x8000_0000 <= weight < 0x8000_0000,
        ;
    }
    metric as i64 * weight as i64
}

/// The weighted score of a board, in thousandths of a point; higher is
/// better.
pub fn evaluate_board(board: &TetrisBoard, weights: &Weights) -> (r: i64)
    requires
        board.wf(),
    ensures
        r as int == score(board.cells(), *weights),
{
    evaluate_board_detailed(board, weights).total
}

} // verus!
