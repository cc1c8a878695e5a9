//! The placement search: every rotation and column of a piece is tried on
//! the board, each resulting board is scored, and the first placement with
//! the greatest score wins; optionally the score is that of the best answer
//! of the next piece.
use vstd::prelude::*;
use vstd::arithmetic::div_mod::{
    lemma_fundamental_div_mod_converse_div, lemma_fundamental_div_mod_converse_mod,
};
use crate::piece::{PieceKind, rotation_count, shape_of, lemma_shape_is_mask, get_rotation_count,
    get_piece_id};
use crate::board::{TetrisBoard, fits, empty_grid, free_cell, drop_row, placed, is_grid,
    lemma_settle_fits};
use crate::eval::{Weights, score, evaluate_board};

verus! {

/// A placement of a piece: its kind, the column and row of its mask's
/// top-left corner, its rotation index and its score in thousandths.
#[derive(Clone, Copy, Debug, PartialEq, Eq, Structural)]
pub struct Move {
    pub piece: PieceKind,
    pub x: i32,
    pub y: i32,
    pub rotation: u8,
    pub score: i64,
}

impl Move {
    pub fn new(piece: PieceKind, x: i32, y: i32, rotation: u8, score: i64) -> (r: Move)
        ensures
            r == (Move { piece, x, y, rotation, score }),
    {
        Move { piece, x, y, rotation, score }
    }
}

/// Whether the try with index i (rotation i / 10, column i % 10) fits at the
/// top row.
pub open spec fn candidate_ok(g: Seq<Seq<i32>>, k: PieceKind, i: int) -> bool {
    fits(g, k, (i / 10) as nat, i % 10, 0)
}

/// The placement that the try with index i gives: dropped, placed and
/// scored.
pub open spec fn candidate(g: Seq<Seq<i32>>, k: PieceKind, w: Weights, i: int) -> Move {
    let rot = i / 10;
    let x = i % 10;
    let y = drop_row(g, k, rot as nat, x);
    Move {
        piece: k,
        x: x as i32,
        y: y as i32,
        rotation: rot as u8,
        score: score(placed(g, k, rot as nat, x, y), w) as i64,
    }
}

/// The placements of the tries with index below n that fit, in order.
pub open spec fn candidates_upto(g: Seq<Seq<i32>>, k: PieceKind, w: Weights, n: int) -> Seq<Move>
    decreases n,
{
    if n <= 0 {
        Seq::empty()
    } else if candidate_ok(g, k, n - 1) {
        candidates_upto(g, k, w, n - 1).push(candidate(g, k, w, n - 1))
    } else {
        candidates_upto(g, k, w, n - 1)
    }
}

/// All placements of a piece, rotation by rotation, column by column.
pub open spec fn candidates(g: Seq<Seq<i32>>, k: PieceKind, w: Weights) -> Seq<Move> {
    candidates_upto(g, k, w, (rotation_count(k) * 10) as int)
}

/// The first placement of greatest score.
pub open spec fn first_best(s: Seq<Move>) -> Option<Move>
    decreases s.len(),
{
    if s.len() == 0 {
        None
    } else {
        let prev = first_best(s.drop_last());
        match prev {
            None => Some(s.last()),
            Some(b) => if s.last().score > b.score {
                Some(s.last())
            } else {
                prev
            },
        }
    }
}

/// The placement the search picks.
pub open spec fn best_placement(g: Seq<Seq<i32>>, k: PieceKind, w: Weights) -> Option<Move> {
    first_best(candidates(g, k, w))
}

/// The score of a placement of k once the next piece n answers it at best;
/// its own score where n has no placement.
pub open spec fn lookahead_score(g: Seq<Seq<i32>>, k: PieceKind, n: PieceKind, w: Weights, m: Move) -> i64 {
    match best_placement(placed(g, k, m.rotation as nat, m.x as int, m.y as int), n, w) {
        Some(b) => b.score,
        None => m.score,
    }
}

/// The placements of k, each scored by the best answer of n.
pub open spec fn lookahead_candidates(g: Seq<Seq<i32>>, k: PieceKind, n: PieceKind, w: Weights) -> Seq<
    Move,
> {
    candidates(g, k, w).map_values(|m: Move| Move { score: lookahead_score(g, k, n, w, m), ..m })
}

/// The index of a try splits back into its rotation and column.
proof fn lemma_index(rot: int, x: int)
    requires
        0 <= x < 10,
    ensures
        (rot * 10 + x) / 10 == rot,
        (rot * 10 + x) % 10 == x,
{
    lemma_fundamental_div_mod_converse_div(rot * 10 + x, 10, rot, x);
    lemma_fundamental_div_mod_converse_mod(rot * 10 + x, 10, rot, x);
}

/// The first best placement is an element of the sequence, no element
/// scores more, and every element before it scores less.
pub proof fn lemma_first_best(s: Seq<Move>)
    ensures
        first_best(s).is_none() <==> s.len() == 0,
        first_best(s) matches Some(m) ==> exists|i: int|
            0 <= i < s.len() && s[i] == m && (forall|j: int| 0 <= j < s.len() ==> #[trigger] s[j].score <= m.score)
                && (forall|j: int| 0 <= j < i ==> #[trigger] s[j].score < m.score),
    decreases s.len(),
{
    if s.len() > 0 {
        let p = s.drop_last();
        lemma_first_best(p);
        let n = s.len() - 1;
        match first_best(p) {
            None => {
                assert(s[n] == s.last());
            },
            Some(b) => {
                let i = choose|i: int|
                    0 <= i < p.len() && p[i] == b && (forall|j: int| 0 <= j < p.len() ==> #[trigger] p[j].score <= b.score)
                        && (forall|j: int| 0 <= j < i ==> #[trigger] p[j].score < b.score);
                if s.last().score > b.score {
                    assert(s[n] == s.last());
                    assert forall|j: int| 0 <= j < s.len() implies #[trigger] s[j].score <= s.last().score by {
                        if j < n {
                            assert(s[j] == p[j]);
                        }
                    }
                    assert forall|j: int| 0 <= j < n implies #[trigger] s[j].score < s.last().score by {
                        assert(s[j] == p[j]);
                    }
                } else {
                    assert(s[i] == p[i]);
                    assert forall|j: int| 0 <= j < s.len() implies #[trigger] s[j].score <= b.score by {
                        if j < n {
                            assert(s[j] == p[j]);
                        }
                    }
                    assert forall|j: int| 0 <= j < i implies #[trigger] s[j].score < b.score by {
                        assert(s[j] == p[j]);
                    }
                }
            },
        }
    }
}

/// The board after a placement, and its score.
pub fn evaluate_placement(
    board: &TetrisBoard,
    piece: PieceKind,
    x: i32,
    y: i32,
    rotation: u8,
    weights: &Weights,
) -> (r: (TetrisBoard, i64))
    requires
        board.wf(),
    ensures
        r.0.wf(),
        r.0.cells() == placed(board.cells(), piece, rotation as nat, x as int, y as int),
        r.1 as int == score(r.0.cells(), *weights),
{
    let id = get_piece_id(piece);
    let grid = board.stamp_grid(piece, x, y, rotation, id);
    let mut test = TetrisBoard::from_grid(grid);
    assert(is_grid(test.cells()));
    test.clear_lines();
    let s = evaluate_board(&test, weights);
    (test, s)
}

/// Every placement the search can pick, in order of rotation, then column.
pub fn enumerate_candidates(board: &TetrisBoard, piece: PieceKind, weights: &Weights) -> (r: Vec<
    Move,
>)
    requires
        board.wf(),
    ensures
        r@ == candidates(board.cells(), piece, *weights),
{
    let ghost g = board.cells();
    let ghost w = *weights;
    let n = get_rotation_count(piece);
    let mut out: Vec<Move> = Vec::new();
    let mut rotation: u8 = 0;
    while rotation < n
        invariant
            board.wf(),
            g == board.cells(),
            w == *weights,
            n as nat == rotation_count(piece),
            rotation <= n,
            n <= 4,
            out@ == candidates_upto(g, piece, w, rotation * 10),
        decreases n - rotation,
    {
        let mut x: i32 = 0;
        while x < 10
            invariant
                board.wf(),
                g == board.cells(),
                w == *weights,
                rotation < n,
                n <= 4,
                0 <= x <= 10,
                out@ == candidates_upto(g, piece, w, rotation * 10 + x),
            decreases 10 - x,
        {
            let ghost i = rotation * 10 + x;
            proof {
                lemma_index(rotation as int, x as int);
            }
            if board.is_valid_position(piece, x, 0, rotation) {
                let y = board.get_drop_position(piece, x, rotation);
                let (_, s) = evaluate_placement(board, piece, x, y, rotation, weights);
                out.push(Move::new(piece, x, y, rotation, s));
                assert(out@ =~= candidates_upto(g, piece, w, i).push(candidate(g, piece, w, i)));
            }
            x += 1;
        }
        rotation += 1;
    }
    out
}

/// The first placement of greatest score, or `None` for no placements.
pub fn select_best(cands: &Vec<Move>) -> (r: Option<Move>)
    ensures
        r == first_best(cands@),
{
    let mut best: Option<Move> = None;
    let mut i: usize = 0;
    while i < cands.len()
        invariant
            i <= cands@.len(),
            best == first_best(cands@.subrange(0, i as int)),
        decreases cands@.len() - i,
    {
        assert(cands@.subrange(0, i + 1).drop_last() =~= cands@.subrange(0, i as int));
        assert(cands@.subrange(0, i + 1).last() == cands@[i as int]);
        let c = cands[i];
        match best {
            None => {
                best = Some(c);
            },
            Some(b) => {
                if c.score > b.score {
                    best = Some(c);
                }
            },
        }
        i += 1;
    }
    assert(cands@.subrange(0, cands@.len() as int) =~= cands@);
    best
}

/// The best placement of `piece` on the board; `None` where no piece is
/// given or no placement fits.
pub fn calculate_best_move(board: &TetrisBoard, piece: Option<PieceKind>, weights: &Weights) -> (r:
    Option<Move>)
    requires
        board.wf(),
    ensures
        piece.is_none() ==> r.is_none(),
        piece matches Some(k) ==> r == best_placement(board.cells(), k, *weights),
        r matches Some(m) ==> fits(board.cells(), m.piece, m.rotation as nat, m.x as int, m.y as int)
            && 0 <= m.x < 10,
{
    match piece {
        None => None,
        Some(k) => {
            let cands = enumerate_candidates(board, k, weights);
            proof {
                lemma_best_placement_fits(board.cells(), k, *weights);
            }
            select_best(&cands)
        },
    }
}

/// The search together with every placement it weighed, in the order it
/// weighed them.
pub fn calculate_best_move_debug(board: &TetrisBoard, piece: PieceKind, weights: &Weights) -> (r: (
    Option<Move>,
    Vec<Move>,
))
    requires
        board.wf(),
    ensures
        r.1@ == candidates(board.cells(), piece, *weights),
        r.0 == best_placement(board.cells(), piece, *weights),
{
    let cands = enumerate_candidates(board, piece, weights);
    let best = select_best(&cands);
    (best, cands)
}

/// The best placement of `piece` when each is scored by the best placement
/// of `next` on the board it leaves; with no next piece, the plain search.
pub fn calculate_best_move_lookahead(
    board: &TetrisBoard,
    piece: PieceKind,
    next: Option<PieceKind>,
    weights: &Weights,
) -> (r: Option<Move>)
    requires
        board.wf(),
    ensures
        next.is_none() ==> r == best_placement(board.cells(), piece, *weights),
        next matches Some(n) ==> r == first_best(
            lookahead_candidates(board.cells(), piece, n, *weights),
        ),
{
    let ghost g = board.cells();
    let ghost w = *weights;
    let cands = enumerate_candidates(board, piece, weights);
    match next {
        None => select_best(&cands),
        Some(n) => {
            let ghost target = lookahead_candidates(g, piece, n, w);
            let mut rescored: Vec<Move> = Vec::new();
            let mut i: usize = 0;
            while i < cands.len()
                invariant
                    board.wf(),
                    g == board.cells(),
                    w == *weights,
                    cands@ == candidates(g, piece, w),
                    target == lookahead_candidates(g, piece, n, w),
                    i <= cands@.len(),
                    rescored@ == target.subrange(0, i as int),
                decreases cands@.len() - i,
            {
                let c = cands[i];
                let (after, _) = evaluate_placement(board, piece, c.x, c.y, c.rotation, weights);
                let answer = calculate_best_move(&after, Some(n), weights);
                let s = match answer {
                    Some(b) => b.score,
                    None => c.score,
                };
                proof {
                    lemma_candidate_piece(g, piece, w, (rotation_count(piece) * 10) as int);
                }
                rescored.push(Move { score: s, ..c });
                assert(rescored@ =~= target.subrange(0, i + 1));
                i += 1;
            }
            assert(rescored@ =~= target);
            select_best(&rescored)
        },
    }
}

/// Every placement in the list is of the searched piece.
proof fn lemma_candidate_piece(g: Seq<Seq<i32>>, k: PieceKind, w: Weights, n: int)
    ensures
        forall|i: int|
            0 <= i < candidates_upto(g, k, w, n).len() ==> (#[trigger] candidates_upto(
                g,
                k,
                w,
                n,
            )[i]).piece == k,
    decreases n,
{
    if n > 0 {
        lemma_candidate_piece(g, k, w, n - 1);
    }
}

/// Every placement the search weighs fits the board where it stands.
proof fn lemma_candidates_fit(g: Seq<Seq<i32>>, k: PieceKind, w: Weights, n: int)
    requires
        0 <= n <= 40,
    ensures
        forall|i: int|
            0 <= i < candidates_upto(g, k, w, n).len() ==> {
                let m = #[trigger] candidates_upto(g, k, w, n)[i];
                m.piece == k && fits(g, k, m.rotation as nat, m.x as int, m.y as int) && 0 <= m.x < 10
                    && m.rotation as int <= (n - 1) / 10
            },
    decreases n,
{
    if n > 0 {
        lemma_candidates_fit(g, k, w, n - 1);
        let j = n - 1;
        if candidate_ok(g, k, j) {
            let rot = j / 10;
            let x = j % 10;
            lemma_settle_fits(g, k, rot as nat, x, 0);
            let m = candidate(g, k, w, j);
            assert(m.rotation as nat == rot as nat);
            assert(m.x as int == x);
            assert(m.y as int == drop_row(g, k, rot as nat, x));
            let s = candidates_upto(g, k, w, n);
            assert forall|i: int| 0 <= i < s.len() implies {
                let c = #[trigger] s[i];
                c.piece == k && fits(g, k, c.rotation as nat, c.x as int, c.y as int) && 0 <= c.x < 10
                    && c.rotation as int <= (n - 1) / 10
            } by {
                if i < s.len() - 1 {
                    assert(s[i] == candidates_upto(g, k, w, n - 1)[i]);
                }
            }
        }
    }
}

/// The placement the search picks fits the board it was computed from, at
/// its exact rotation, column and row.
pub proof fn lemma_best_placement_fits(g: Seq<Seq<i32>>, k: PieceKind, w: Weights)
    ensures
        best_placement(g, k, w) matches Some(m) ==> m.piece == k && fits(
            g,
            k,
            m.rotation as nat,
            m.x as int,
            m.y as int,
        ) && 0 <= m.x < 10 && m.rotation < rotation_count(k),
{
    let s = candidates(g, k, w);
    lemma_candidates_fit(g, k, w, (rotation_count(k) * 10) as int);
    lemma_first_best(s);
}

/// A list of placements that holds the first try holds something.
proof fn lemma_candidates_nonempty(g: Seq<Seq<i32>>, k: PieceKind, w: Weights, n: int)
    requires
        1 <= n,
        candidate_ok(g, k, 0),
    ensures
        candidates_upto(g, k, w, n).len() > 0,
    decreases n,
{
    if n > 1 {
        lemma_candidates_nonempty(g, k, w, n - 1);
    }
}

/// On an empty board the search finds a placement for every piece kind.
pub proof fn lemma_empty_board_has_placement(k: PieceKind, w: Weights)
    ensures
        best_placement(empty_grid(), k, w).is_some(),
{
    lemma_shape_is_mask(k, 0);
    lemma_index(0, 0);
    let m = shape_of(k, 0);
    assert forall|dy: int, dx: int|
        0 <= dy < m.len() && 0 <= dx < m[0].len() && #[trigger] m[dy][dx] != 0 implies free_cell(
        empty_grid(),
        0 + dy,
        0 + dx,
    ) by {
        assert(empty_grid()[dy][dx] == 0);
    }
    assert(candidate_ok(empty_grid(), k, 0));
    lemma_candidates_nonempty(empty_grid(), k, w, (rotation_count(k) * 10) as int);
    lemma_first_best(candidates(empty_grid(), k, w));
}

} // verus!
