//! The piece catalog: the seven kinds, their identity tags and their masks.
use vstd::prelude::*;

verus! {

/// One of the seven piece kinds.
#[derive(Clone, Copy, Debug, PartialEq, Eq, Structural)]
pub enum PieceKind {
    I,
    O,
    T,
    S,
    Z,
    J,
    L,
}

/// The one-letter name of a kind.
pub open spec fn letter(k: PieceKind) -> char {
    match k {
        PieceKind::I => 'I',
        PieceKind::O => 'O',
        PieceKind::T => 'T',
        PieceKind::S => 'S',
        PieceKind::Z => 'Z',
        PieceKind::J => 'J',
        PieceKind::L => 'L',
    }
}

/// The kind a name stands for: a single letter among I, O, T, S, Z, J, L.
pub open spec fn kind_named(s: Seq<char>) -> Option<PieceKind> {
    if s.len() != 1 {
        None
    } else if s[0] == 'I' {
        Some(PieceKind::I)
    } else if s[0] == 'O' {
        Some(PieceKind::O)
    } else if s[0] == 'T' {
        Some(PieceKind::T)
    } else if s[0] == 'S' {
        Some(PieceKind::S)
    } else if s[0] == 'Z' {
        Some(PieceKind::Z)
    } else if s[0] == 'J' {
        Some(PieceKind::J)
    } else if s[0] == 'L' {
        Some(PieceKind::L)
    } else {
        None
    }
}

/// The identity tag written into the board cells a piece of this kind covers.
pub open spec fn piece_id(k: PieceKind) -> i32 {
    match k {
        PieceKind::I => 1,
        PieceKind::O => 2,
        PieceKind::T => 3,
        PieceKind::S => 4,
        PieceKind::Z => 5,
        PieceKind::J => 6,
        PieceKind::L => 7,
    }
}

/// How many distinct shapes a kind has.
pub open spec fn rotation_count(k: PieceKind) -> nat {
    match k {
        PieceKind::I | PieceKind::S | PieceKind::Z => 2,
        PieceKind::O => 1,
        _ => 4,
    }
}

/// The column a piece spawns at, used as the reference point of the
/// horizontal commands.
pub open spec fn spawn_column(k: PieceKind) -> i32 {
    match k {
        PieceKind::O => 4,
        _ => 3,
    }
}

/// The mask of a kind at a rotation index, rows top to bottom; the index is
/// reduced by the kind's number of distinct shapes.
pub open spec fn shape_of(k: PieceKind, rotation: nat) -> Seq<Seq<i32>> {
    let r = rotation % rotation_count(k);
    match k {
        PieceKind::I => if r == 0 {
            seq![seq![1i32, 1, 1, 1]]
        } else {
            seq![seq![1i32], seq![1i32], seq![1i32], seq![1i32]]
        },
        PieceKind::O => seq![seq![1i32, 1], seq![1i32, 1]],
        PieceKind::T => if r == 0 {
            seq![seq![0i32, 1, 0], seq![1i32, 1, 1]]
        } else if r == 1 {
            seq![seq![1i32, 0], seq![1i32, 1], seq![1i32, 0]]
        } else if r == 2 {
            seq![seq![1i32, 1, 1], seq![0i32, 1, 0]]
        } else {
            seq![seq![0i32, 1], seq![1i32, 1], seq![0i32, 1]]
        },
        PieceKind::S => if r == 0 {
            seq![seq![0i32, 1, 1], seq![1i32, 1, 0]]
        } else {
            seq![seq![1i32, 0], seq![1i32, 1], seq![0i32, 1]]
        },
        PieceKind::Z => if r == 0 {
            seq![seq![1i32, 1, 0], seq![0i32, 1, 1]]
        } else {
            seq![seq![0i32, 1], seq![1i32, 1], seq![1i32, 0]]
        },
        PieceKind::J => if r == 0 {
            seq![seq![1i32, 0, 0], seq![1i32, 1, 1]]
        } else if r == 1 {
            seq![seq![1i32, 1], seq![1i32, 0], seq![1i32, 0]]
        } else if r == 2 {
            seq![seq![1i32, 1, 1], seq![0i32, 0, 1]]
        } else {
            seq![seq![0i32, 1], seq![0i32, 1], seq![1i32, 1]]
        },
        PieceKind::L => if r == 0 {
            seq![seq![0i32, 0, 1], seq![1i32, 1, 1]]
        } else if r == 1 {
            seq![seq![1i32, 0], seq![1i32, 0], seq![1i32, 1]]
        } else if r == 2 {
            seq![seq![1i32, 1, 1], seq![1i32, 0, 0]]
        } else {
            seq![seq![1i32, 1], seq![0i32, 1], seq![0i32, 1]]
        },
    }
}

/// A mask's rows as plain sequences.
pub open spec fn mask_view(m: Seq<Vec<i32>>) -> Seq<Seq<i32>> {
    m.map_values(|row: Vec<i32>| row@)
}

/// A mask is a non-empty rectangle of 0/1 cells no larger than 4 by 4.
pub open spec fn is_mask(m: Seq<Seq<i32>>) -> bool {
    &&& 1 <= m.len() <= 4
    &&& 1 <= m[0].len() <= 4
    &&& forall|dy: int| 0 <= dy < m.len() ==> (#[trigger] m[dy]).len() == m[0].len()
    &&& forall|dy: int, dx: int|
        0 <= dy < m.len() && 0 <= dx < m[0].len() ==> #[trigger] m[dy][dx] == 0 || m[dy][dx] == 1
}

/// Every catalog shape is a well-formed mask.
pub proof fn lemma_shape_is_mask(k: PieceKind, rotation: nat)
    ensures
        is_mask(shape_of(k, rotation)),
{
    let r = rotation % rotation_count(k);
    assert(r < rotation_count(k));
}

impl PieceKind {
    /// The kind a name stands for, or `None` for a name outside the catalog.
    pub fn from_name(name: &str) -> (r: Option<PieceKind>)
        ensures
            r == kind_named(name@),
    {
        if name.unicode_len() != 1 {
            return None;
        }
        let c = name.get_char(0);
        if c == 'I' {
            Some(PieceKind::I)
        } else if c == 'O' {
            Some(PieceKind::O)
        } else if c == 'T' {
            Some(PieceKind::T)
        } else if c == 'S' {
            Some(PieceKind::S)
        } else if c == 'Z' {
            Some(PieceKind::Z)
        } else if c == 'J' {
            Some(PieceKind::J)
        } else if c == 'L' {
            Some(PieceKind::L)
        } else {
            None
        }
    }

    /// The kind's one-letter name.
    pub fn name(&self) -> (r: &'static str)
        ensures
            r@ == seq![letter(*self)],
    {
        match self {
            PieceKind::I => {
                proof { reveal_strlit("I"); }
                "I"
            },
            PieceKind::O => {
                proof { reveal_strlit("O"); }
                "O"
            },
            PieceKind::T => {
                proof { reveal_strlit("T"); }
                "T"
            },
            PieceKind::S => {
                proof { reveal_strlit("S"); }
                "S"
            },
            PieceKind::Z => {
                proof { reveal_strlit("Z"); }
                "Z"
            },
            PieceKind::J => {
                proof { reveal_strlit("J"); }
                "J"
            },
            PieceKind::L => {
                proof { reveal_strlit("L"); }
                "L"
            },
        }
    }
}

/// Number of occupied cells in one mask row.
pub open spec fn row_cells(row: Seq<i32>) -> nat
    decreases row.len(),
{
    if row.len() == 0 {
        0
    } else {
        row_cells(row.drop_last()) + if row.last() != 0 {
            1nat
        } else {
            0nat
        }
    }
}

/// Number of occupied cells in a mask.
pub open spec fn mask_cells(m: Seq<Seq<i32>>) -> nat
    decreases m.len(),
{
    if m.len() == 0 {
        0
    } else {
        mask_cells(m.drop_last()) + row_cells(m.last())
    }
}

/// Every shape of every kind, at every rotation index, occupies exactly four
/// cells.
pub proof fn lemma_four_cells(k: PieceKind, rotation: nat)
    ensures
        mask_cells(shape_of(k, rotation)) == 4,
{
    let r = rotation % rotation_count(k);
    assert(r < rotation_count(k));
    reveal_with_fuel(row_cells, 5);
    reveal_with_fuel(mask_cells, 5);
    let m = shape_of(k, rotation);
    assert(m.len() <= 4);
    // Name the shorter prefixes and each row's count, so that the unfolding
    // of the counts reaches them.
    let m1 = m.drop_last();
    let m2 = m1.drop_last();
    let m3 = m2.drop_last();
    assert(forall|i: int| 0 <= i < m.len() ==> row_cells(#[trigger] m[i]) + 0 == row_cells(m[i]));
}

/// The exec mask of a kind at a rotation index.
pub fn get_piece_shape(kind: PieceKind, rotation: u8) -> (r: Vec<Vec<i32>>)
    ensures
        mask_view(r@) == shape_of(kind, rotation as nat),
{
    let m: Vec<Vec<i32>> = match kind {
        PieceKind::I => if rotation % 2 == 0 {
            vec![vec![1, 1, 1, 1]]
        } else {
            vec![vec![1], vec![1], vec![1], vec![1]]
        },
        PieceKind::O => vec![vec![1, 1], vec![1, 1]],
        PieceKind::T => if rotation % 4 == 0 {
            vec![vec![0, 1, 0], vec![1, 1, 1]]
        } else if rotation % 4 == 1 {
            vec![vec![1, 0], vec![1, 1], vec![1, 0]]
        } else if rotation % 4 == 2 {
            vec![vec![1, 1, 1], vec![0, 1, 0]]
        } else {
            vec![vec![0, 1], vec![1, 1], vec![0, 1]]
        },
        PieceKind::S => if rotation % 2 == 0 {
            vec![vec![0, 1, 1], vec![1, 1, 0]]
        } else {
            vec![vec![1, 0], vec![1, 1], vec![0, 1]]
        },
        PieceKind::Z => if rotation % 2 == 0 {
            vec![vec![1, 1, 0], vec![0, 1, 1]]
        } else {
            vec![vec![0, 1], vec![1, 1], vec![1, 0]]
        },
        PieceKind::J => if rotation % 4 == 0 {
            vec![vec![1, 0, 0], vec![1, 1, 1]]
        } else if rotation % 4 == 1 {
            vec![vec![1, 1], vec![1, 0], vec![1, 0]]
        } else if rotation % 4 == 2 {
            vec![vec![1, 1, 1], vec![0, 0, 1]]
        } else {
            vec![vec![0, 1], vec![0, 1], vec![1, 1]]
        },
        PieceKind::L => if rotation % 4 == 0 {
            vec![vec![0, 0, 1], vec![1, 1, 1]]
        } else if rotation % 4 == 1 {
            vec![vec![1, 0], vec![1, 0], vec![1, 1]]
        } else if rotation % 4 == 2 {
            vec![vec![1, 1, 1], vec![1, 0, 0]]
        } else {
            vec![vec![1, 1], vec![0, 1], vec![0, 1]]
        },
    };
    assert(mask_view(m@) =~~= shape_of(kind, rotation as nat));
    m
}

/// The identity tag of a kind.
pub fn get_piece_id(kind: PieceKind) -> (r: i32)
    ensures
        r == piece_id(kind),
{
    match kind {
        PieceKind::I => 1,
        PieceKind::O => 2,
        PieceKind::T => 3,
        PieceKind::S => 4,
        PieceKind::Z => 5,
        PieceKind::J => 6,
        PieceKind::L => 7,
    }
}

/// The number of distinct shapes of a kind.
pub fn get_rotation_count(kind: PieceKind) -> (r: u8)
    ensures
        r as nat == rotation_count(kind),
{
    match kind {
        PieceKind::I | PieceKind::S | PieceKind::Z => 2,
        PieceKind::O => 1,
        _ => 4,
    }
}

/// The spawn position of a kind, as (column, row).
pub fn get_spawn_position(kind: PieceKind) -> (r: (i32, i32))
    ensures
        r == (spawn_column(kind), 0i32),
{
    match kind {
        PieceKind::O => (4, 0),
        _ => (3, 0),
    }
}

/// The width of a kind's mask at a rotation index.
pub fn get_piece_width(kind: PieceKind, rotation: u8) -> (r: i32)
    ensures
        r == shape_of(kind, rotation as nat)[0].len(),
        1 <= r <= 4,
{
    let shape = get_piece_shape(kind, rotation);
    proof { lemma_shape_is_mask(kind, rotation as nat); }
    assert(shape@[0]@ == mask_view(shape@)[0]);
    shape[0].len() as i32
}

/// The height of a kind's mask at a rotation index.
pub fn get_piece_height(kind: PieceKind, rotation: u8) -> (r: i32)
    ensures
        r == shape_of(kind, rotation as nat).len(),
        1 <= r <= 4,
{
    let shape = get_piece_shape(kind, rotation);
    proof { lemma_shape_is_mask(kind, rotation as nat); }
    assert(shape@.len() == mask_view(shape@).len());
    shape.len() as i32
}

} // verus!
