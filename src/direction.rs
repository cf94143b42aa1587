use vstd::prelude::*;

verus! {

/// Jump length of a move along a row or a column.
pub const HV_OFFSET: i64 = 3;

/// Jump length of a diagonal move, along each axis.
pub const DIAG_OFFSET: i64 = 2;

/// The eight jumps that lead from one numbered cell to the next.
/// `y` grows downwards and `x` grows to the right.
#[derive(Debug, Clone, Copy, PartialEq, Eq, Structural)]
pub enum Direction {
    Down,
    DownRight,
    Right,
    UpRight,
    Up,
    UpLeft,
    Left,
    DownLeft,
}

/// All directions, in the order in which moves are listed.
pub open spec fn all_directions() -> Seq<Direction> {
    seq![
        Direction::Down,
        Direction::DownRight,
        Direction::Right,
        Direction::UpRight,
        Direction::Up,
        Direction::UpLeft,
        Direction::Left,
        Direction::DownLeft,
    ]
}

impl Direction {
    /// Change of the column index under this jump.
    pub open spec fn dx(self) -> int {
        match self {
            Direction::Down => 0,
            Direction::DownRight => DIAG_OFFSET as int,
            Direction::Right => HV_OFFSET as int,
            Direction::UpRight => DIAG_OFFSET as int,
            Direction::Up => 0,
            Direction::UpLeft => -DIAG_OFFSET,
            Direction::Left => -HV_OFFSET,
            Direction::DownLeft => -DIAG_OFFSET,
        }
    }

    /// Change of the row index under this jump.
    pub open spec fn dy(self) -> int {
        match self {
            Direction::Down => HV_OFFSET as int,
            Direction::DownRight => DIAG_OFFSET as int,
            Direction::Right => 0,
            Direction::UpRight => -DIAG_OFFSET,
            Direction::Up => -HV_OFFSET,
            Direction::UpLeft => -DIAG_OFFSET,
            Direction::Left => 0,
            Direction::DownLeft => DIAG_OFFSET as int,
        }
    }

    /// The column and row changes of this jump.
    pub fn offset(self) -> (r: (i64, i64))
        ensures
            r.0 == self.dx(),
            r.1 == self.dy(),
    {
        match self {
            Direction::Down => (0, HV_OFFSET),
            Direction::DownRight => (DIAG_OFFSET, DIAG_OFFSET),
            Direction::Right => (HV_OFFSET, 0),
            Direction::UpRight => (DIAG_OFFSET, -DIAG_OFFSET),
            Direction::Up => (0, -HV_OFFSET),
            Direction::UpLeft => (-DIAG_OFFSET, -DIAG_OFFSET),
            Direction::Left => (-HV_OFFSET, 0),
            Direction::DownLeft => (-DIAG_OFFSET, DIAG_OFFSET),
        }
    }

    /// Every direction once, in the fixed order Down, DownRight, Right,
    /// UpRight, Up, UpLeft, Left, DownLeft.
    pub fn iterator() -> (r: Vec<Direction>)
        ensures
            r@ == all_directions(),
    {
        let r = vec![
            Direction::Down,
            Direction::DownRight,
            Direction::Right,
            Direction::UpRight,
            Direction::Up,
            Direction::UpLeft,
            Direction::Left,
            Direction::DownLeft,
        ];
        assert(r@ =~= all_directions());
        r
    }
}

} // verus!
