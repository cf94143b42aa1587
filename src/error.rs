use vstd::prelude::*;

use crate::direction::Direction;

verus! {

/// What went wrong, with the values needed to describe it.
#[derive(Debug, Clone, Copy, PartialEq, Eq, Structural)]
pub enum ErrorKind {
    /// The operation needs a started board, or the board was already started.
    InvalidState,
    /// No legal destination lies in this direction from the last cell.
    InvalidMove(Direction),
    /// The cell `(x, y)` lies outside a grid of side `size`.
    OutOfRange { x: usize, y: usize, size: usize },
    /// The cell `(x, y)` already holds a number.
    AlreadyOccupied { x: usize, y: usize },
    /// The number `value` cannot be written to `(x, y)`: it is 0 or above `max`.
    InvalidValue { x: usize, y: usize, value: u16, max: usize },
}

/// The error returned by the operations of a board.
#[derive(Debug, Clone, Copy, PartialEq, Eq, Structural)]
pub struct MyError {
    pub kind: ErrorKind,
}

impl MyError {
    pub fn new(kind: ErrorKind) -> (r: MyError)
        ensures
            r.kind == kind,
    {
        MyError { kind }
    }

    pub fn kind(&self) -> (r: ErrorKind)
        ensures
            r == self.kind,
    {
        self.kind
    }
}

} // verus!
