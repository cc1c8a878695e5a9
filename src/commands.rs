//! The command translator: from a placement to the controller actions that
//! bring a freshly spawned piece there.
use vstd::prelude::*;
use crate::piece::{PieceKind, shape_of, rotation_count, spawn_column, get_piece_width,
    get_rotation_count, get_spawn_position, lemma_shape_is_mask};
use crate::search::Move;

verus! {

/// A controller action.
#[derive(Clone, Copy, Debug, PartialEq, Eq, Structural)]
pub enum Action {
    RotateCw,
    RotateCcw,
    Rotate180,
    Left,
    Right,
    Drop,
    Hold,
}

/// An action and how many times in a row to perform it.
#[derive(Clone, Copy, Debug, PartialEq, Eq, Structural)]
pub struct InputCommand {
    pub action: Action,
    pub count: i32,
}

impl InputCommand {
    pub fn new(action: Action, count: i32) -> (r: InputCommand)
        ensures
            r == (InputCommand { action, count }),
    {
        InputCommand { action, count }
    }
}

/// The controller's name of an action.
pub open spec fn action_name(a: Action) -> Seq<char> {
    match a {
        Action::RotateCw => seq!['r', 'o', 't', 'a', 't', 'e', '_', 'c', 'w'],
        Action::RotateCcw => seq!['r', 'o', 't', 'a', 't', 'e', '_', 'c', 'c', 'w'],
        Action::Rotate180 => seq!['r', 'o', 't', 'a', 't', 'e', '_', '1', '8', '0'],
        Action::Left => seq!['l', 'e', 'f', 't'],
        Action::Right => seq!['r', 'i', 'g', 'h', 't'],
        Action::Drop => seq!['d', 'r', 'o', 'p'],
        Action::Hold => seq!['h', 'o', 'l', 'd'],
    }
}

impl Action {
    /// The controller's name of the action.
    pub fn name(&self) -> (r: &'static str)
        ensures
            r@ == action_name(*self),
    {
        match self {
            Action::RotateCw => {
                proof { reveal_strlit("rotate_cw"); }
                "rotate_cw"
            },
            Action::RotateCcw => {
                proof { reveal_strlit("rotate_ccw"); }
                "rotate_ccw"
            },
            Action::Rotate180 => {
                proof { reveal_strlit("rotate_180"); }
                "rotate_180"
            },
            Action::Left => {
                proof { reveal_strlit("left"); }
                "left"
            },
            Action::Right => {
                proof { reveal_strlit("right"); }
                "right"
            },
            Action::Drop => {
                proof { reveal_strlit("drop"); }
                "drop"
            },
            Action::Hold => {
                proof { reveal_strlit("hold"); }
                "hold"
            },
        }
    }
}

/// How far right the left edge of a piece's box moves when it turns from
/// its spawn rotation to `rot` about the middle of its spawn box: half the
/// width it loses, rounded down.
pub open spec fn rotation_shift(k: PieceKind, rot: nat) -> int {
    (shape_of(k, 0)[0].len() - shape_of(k, rot)[0].len()) / 2
}

/// No rotation is wider than the spawn rotation, and none moves the box by
/// more than one column.
pub proof fn lemma_rotation_shift(k: PieceKind, rot: nat)
    ensures
        shape_of(k, rot)[0].len() <= shape_of(k, 0)[0].len(),
        0 <= rotation_shift(k, rot) <= 1,
{
    let r = rot % rotation_count(k);
    assert(r < rotation_count(k));
    lemma_shape_is_mask(k, rot);
    lemma_shape_is_mask(k, 0);
}

/// The column of the piece's box once it has turned at its spawn column.
pub open spec fn turned_column(k: PieceKind, rot: nat) -> int {
    spawn_column(k) + rotation_shift(k, rot)
}

/// The commands for a placement: the turn (none, a half turn, or one or
/// three clockwise quarter turns), the sideways moves from where the turned
/// piece stands, and one drop.
pub open spec fn commands_for(k: PieceKind, m: Move) -> Seq<InputCommand> {
    let rot = m.rotation as nat % rotation_count(k);
    let turn = if rot == 0 {
        Seq::empty()
    } else if rot == 2 {
        seq![InputCommand { action: Action::Rotate180, count: 1 }]
    } else {
        seq![InputCommand { action: Action::RotateCw, count: rot as i32 }]
    };
    let d = m.x - turned_column(k, rot);
    let slide = if d > 0 {
        seq![InputCommand { action: Action::Right, count: d as i32 }]
    } else if d < 0 {
        seq![InputCommand { action: Action::Left, count: -d as i32 }]
    } else {
        Seq::empty()
    };
    turn + slide + seq![InputCommand { action: Action::Drop, count: 1 }]
}

/// Where the controller has the piece, as (rotation, column), after a
/// command; a turn keeps the middle of the spawn box where it was.
pub open spec fn step(k: PieceKind, state: (int, int), c: InputCommand) -> (int, int) {
    let (rot, col) = state;
    let turned = match c.action {
        Action::RotateCw => (rot + c.count) % 4,
        Action::RotateCcw => (rot + 3 * c.count) % 4,
        Action::Rotate180 => (rot + 2 * c.count) % 4,
        _ => rot,
    };
    match c.action {
        Action::Left => (rot, col - c.count),
        Action::Right => (rot, col + c.count),
        Action::RotateCw | Action::RotateCcw | Action::Rotate180 => (
            turned,
            col - rotation_shift(k, rot as nat) + rotation_shift(k, turned as nat),
        ),
        _ => (rot, col),
    }
}

/// Where the controller has the piece after a run of commands from spawn.
pub open spec fn replay(k: PieceKind, cmds: Seq<InputCommand>) -> (int, int)
    decreases cmds.len(),
{
    if cmds.len() == 0 {
        (0, spawn_column(k) as int)
    } else {
        step(k, replay(k, cmds.drop_last()), cmds.last())
    }
}

/// The column of the piece's box after it turns at its spawn column.
pub fn get_actual_position_after_rotation(piece: PieceKind, spawn_x: i32, rotation: u8) -> (r: i32)
    requires
        spawn_x < i32::MAX,
    ensures
        r == spawn_x + rotation_shift(piece, rotation as nat),
{
    proof {
        lemma_rotation_shift(piece, rotation as nat);
    }
    let w0 = get_piece_width(piece, 0);
    let w = get_piece_width(piece, rotation);
    spawn_x + (w0 - w) / 2
}

/// The commands that bring a freshly spawned piece to the placement's
/// rotation and column, ending with a single drop.
pub fn calculate_input_commands(piece: PieceKind, target: &Move) -> (r: Vec<InputCommand>)
    requires
        target.x >= i32::MIN + 6,
    ensures
        r@ == commands_for(piece, *target),
        r@.len() >= 1,
        r@.last() == (InputCommand { action: Action::Drop, count: 1 }),
        forall|i: int| 0 <= i < r@.len() - 1 ==> (#[trigger] r@[i]).action != Action::Drop,
{
    let mut commands: Vec<InputCommand> = Vec::new();
    let (spawn_x, _) = get_spawn_position(piece);
    let n = get_rotation_count(piece);
    let rotation = target.rotation % n;
    if rotation == 2 {
        commands.push(InputCommand::new(Action::Rotate180, 1));
    } else if rotation > 0 {
        commands.push(InputCommand::new(Action::RotateCw, rotation as i32));
    }
    let actual = get_actual_position_after_rotation(piece, spawn_x, rotation);
    proof {
        lemma_rotation_shift(piece, rotation as nat);
        assert(shape_of(piece, rotation as nat) == shape_of(piece, target.rotation as nat % rotation_count(piece)));
    }
    if target.x > actual {
        commands.push(InputCommand::new(Action::Right, target.x - actual));
    } else if target.x < actual {
        commands.push(InputCommand::new(Action::Left, actual - target.x));
    }
    commands.push(InputCommand::new(Action::Drop, 1));
    assert(commands@ =~= commands_for(piece, *target));
    commands
}

/// Replaying the commands of a placement from spawn leaves the piece at the
/// placement's column and rotation, before the drop and after it.
pub proof fn lemma_commands_reach_target(k: PieceKind, m: Move)
    requires
        m.x >= i32::MIN + 6,
    ensures
        replay(k, commands_for(k, m)).1 == m.x,
        replay(k, commands_for(k, m)).0 == m.rotation as nat % rotation_count(k),
{
    let rot = m.rotation as nat % rotation_count(k);
    assert(rot < rotation_count(k));
    lemma_rotation_shift(k, rot);
    lemma_rotation_shift(k, 0);
    let cmds = commands_for(k, m);
    let d = m.x - turned_column(k, rot);
    let turn = if rot == 0 {
        Seq::<InputCommand>::empty()
    } else if rot == 2 {
        seq![InputCommand { action: Action::Rotate180, count: 1 }]
    } else {
        seq![InputCommand { action: Action::RotateCw, count: rot as i32 }]
    };
    let slide = if d > 0 {
        seq![InputCommand { action: Action::Right, count: d as i32 }]
    } else if d < 0 {
        seq![InputCommand { action: Action::Left, count: -d as i32 }]
    } else {
        Seq::<InputCommand>::empty()
    };
    assert(cmds == turn + slide + seq![InputCommand { action: Action::Drop, count: 1 }]);
    assert(cmds.drop_last() =~= turn + slide);
    assert(rotation_shift(k, 0) == 0);
    if turn.len() == 1 {
        assert(turn.drop_last() =~= Seq::<InputCommand>::empty());
        assert(replay(k, turn.drop_last()) == (0int, spawn_column(k) as int));
        if rot == 2 {
            assert((0 + 2 * 1) % 4 == 2);
        } else {
            assert((rot as i32) as int == rot);
            assert((0 + rot as int) % 4 == rot);
        }
    }
    assert(replay(k, turn) == (rot as int, turned_column(k, rot)));
    let ts = turn + slide;
    assert(cmds.last() == InputCommand { action: Action::Drop, count: 1 });
    assert(replay(k, cmds) == replay(k, ts));
    if slide.len() == 1 {
        assert(ts.drop_last() =~= turn);
        assert(ts.last() == slide[0]);
        if d > 0 {
            assert((d as i32) as int == d);
        } else {
            assert((-d as i32) as int == -d);
        }
        assert(replay(k, ts) == step(k, replay(k, turn), slide[0]));
    } else {
        assert(ts =~= turn);
    }
}

} // verus!
