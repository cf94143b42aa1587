use vstd::prelude::*;

use crate::direction::{all_directions, Direction};
use crate::error::{ErrorKind, MyError};
use crate::model::{
    lemma_count_filled_zeros, seq_max, lemma_index_in_grid, BoardModel, MAX_SIZE, MIN_SIZE,
};

verus! {

/// A square grid of numbered cells and the cursor, the cell filled last.
#[derive(Debug, Clone)]
pub struct Board {
    size: usize,
    cells: usize,
    values: Vec<u16>,
    x: usize,
    y: usize,
}

impl View for Board {
    type V = BoardModel;

    closed spec fn view(&self) -> BoardModel {
        BoardModel { size: self.size as nat, values: self.values@, x: self.x as nat, y: self.y as nat }
    }
}

impl Board {
    /// The cached cell count agrees with the side.
    pub closed spec fn cells_agree(&self) -> bool {
        self.cells == self.size * self.size
    }

    pub open spec fn wf(&self) -> bool {
        self.cells_agree() && self@.wf()
    }

    /// A board of side `size` clamped into `MIN_SIZE..=MAX_SIZE`, with every
    /// cell empty and the cursor on `(0, 0)`.
    pub fn new(size: usize) -> (r: Board)
        ensures
            r.wf(),
            r@ == BoardModel::fresh(size as int),
            MIN_SIZE <= r@.size <= MAX_SIZE,
            MIN_SIZE <= size <= MAX_SIZE ==> r@.size == size,
            size < MIN_SIZE ==> r@.size == MIN_SIZE,
            size > MAX_SIZE ==> r@.size == MAX_SIZE,
    {
        let mut size = size;
        if size < MIN_SIZE {
            size = MIN_SIZE;
        }
        if size > MAX_SIZE {
            size = MAX_SIZE;
        }
        assert(25 <= size * size <= 256) by (nonlinear_arith)
            requires
                5 <= size <= 16,
        ;
        let cells = size * size;
        let mut values: Vec<u16> = Vec::new();
        let mut i: usize = 0;
        while i < cells
            invariant
                i <= cells,
                values@.len() == i,
                forall|k: int| 0 <= k < i ==> values@[k] == 0,
            decreases cells - i,
        {
            values.push(0);
            i += 1;
        }
        let r = Board { size, cells, values, x: 0, y: 0 };
        proof {
            assert(r@.values =~= BoardModel::fresh(size as int).values);
            lemma_count_filled_zeros(r@.values);
            assert(r@.index(0, 0) == 0);
            assert(r@.values[0] == 0);
        }
        r
    }

    /// The cursor holds a number, which happens once a 1 has been placed.
    pub fn is_started(&self) -> (r: bool)
        requires
            self.wf(),
        ensures
            r == self@.is_started(),
    {
        proof {
            lemma_index_in_grid(self.x as int, self.y as int, self.size as int);
        }
        self.values[self.y * self.size + self.x] > 0
    }

    /// The cell that a jump in direction `dir` from the cursor lands on, if
    /// the board is started, that cell lies on the grid and it is empty.
    fn valid_move(&self, dir: Direction) -> (r: Option<(usize, usize)>)
        requires
            self.wf(),
        ensures
            match r {
                Some(p) => self@.can_move(dir) && p.0 == self@.target(dir).0 && p.1 == self@.target(
                    dir,
                ).1,
                None => !self@.can_move(dir),
            },
    {
        if self.is_started() {
            let (dx, dy) = dir.offset();
            let x = self.x as i64 + dx;
            let y = self.y as i64 + dy;
            let size = self.size as i64;
            if x >= 0 && y >= 0 && x < size && y < size {
                let (x, y) = (x as usize, y as usize);
                proof {
                    lemma_index_in_grid(x as int, y as int, self.size as int);
                }
                if self.values[y * self.size + x] == 0 {
                    return Some((x, y));
                }
            }
        }
        None
    }

    /// Writes `value` at `(x, y)` and moves the cursor there, provided the
    /// cell lies on the grid and is empty, so filled cells never change. The
    /// board stays well-formed when the value written is the next number.
    fn set_cell(&mut self, x: usize, y: usize, value: u16) -> (r: Result<(), MyError>)
        requires
            old(self).wf(),
        ensures
            r is Err || value == old(self)@.cursor_value() + 1 ==> final(self).wf(),
            old(self)@.keeps_filled(final(self)@),
            !old(self)@.in_grid(x as int, y as int) ==> r == Err::<(), MyError>(
                MyError { kind: ErrorKind::OutOfRange { x, y, size: old(self)@.size as usize } },
            ) && final(self)@ == old(self)@,
            old(self)@.in_grid(x as int, y as int) && old(self)@.at(x as int, y as int) != 0 ==> r
                == Err::<(), MyError>(MyError { kind: ErrorKind::AlreadyOccupied { x, y } })
                && final(self)@ == old(self)@,
            old(self)@.in_grid(x as int, y as int) && old(self)@.at(x as int, y as int) == 0 ==> r
                == Ok::<(), MyError>(()) && final(self)@ == old(self)@.placed(
                x as int,
                y as int,
                value,
            ),
    {
        if x >= self.size || y >= self.size {
            return Err(MyError::new(ErrorKind::OutOfRange { x, y, size: self.size }));
        }
        proof {
            lemma_index_in_grid(x as int, y as int, self.size as int);
        }
        if self.values[y * self.size + x] != 0 {
            return Err(MyError::new(ErrorKind::AlreadyOccupied { x, y }));
        }
        proof {
            if value == self@.cursor_value() + 1 {
                self@.lemma_place_next(x as int, y as int);
            }
        }
        self.x = x;
        self.y = y;
        self.values.set(y * self.size + x, value);
        proof {
            assert(self@ =~= old(self)@.placed(x as int, y as int, value));
        }
        Ok(())
    }

    /// Writes the number `value` at `(x, y)`: as `set_cell`, once `value`
    /// has been checked to lie in `1..=cells`.
    fn set_value(&mut self, x: usize, y: usize, value: u16) -> (r: Result<(), MyError>)
        requires
            old(self).wf(),
        ensures
            r is Err || value == old(self)@.cursor_value() + 1 ==> final(self).wf(),
            old(self)@.keeps_filled(final(self)@),
            value < 1 || value > old(self)@.cells() ==> r == Err::<(), MyError>(
                MyError {
                    kind: ErrorKind::InvalidValue {
                        x,
                        y,
                        value,
                        max: old(self)@.cells() as usize,
                    },
                },
            ) && final(self)@ == old(self)@,
            1 <= value <= old(self)@.cells() && !old(self)@.in_grid(x as int, y as int) ==> r
                == Err::<(), MyError>(
                MyError { kind: ErrorKind::OutOfRange { x, y, size: old(self)@.size as usize } },
            ) && final(self)@ == old(self)@,
            1 <= value <= old(self)@.cells() && old(self)@.in_grid(x as int, y as int) && old(
                self,
            )@.at(x as int, y as int) != 0 ==> r == Err::<(), MyError>(
                MyError { kind: ErrorKind::AlreadyOccupied { x, y } },
            ) && final(self)@ == old(self)@,
            1 <= value <= old(self)@.cells() && old(self)@.in_grid(x as int, y as int) && old(
                self,
            )@.at(x as int, y as int) == 0 ==> r == Ok::<(), MyError>(()) && final(self)@ == old(
                self,
            )@.placed(x as int, y as int, value),
    {
        if value < 1 {
            return Err(
                MyError::new(ErrorKind::InvalidValue { x, y, value, max: self.cells }),
            );
        }
        if value as usize > self.cells {
            return Err(
                MyError::new(ErrorKind::InvalidValue { x, y, value, max: self.cells }),
            );
        }
        self.set_cell(x, y, value)
    }

    /// Places the 1 at `(x, y)` and puts the cursor there. Fails with
    /// `OutOfRange` off the grid, with `AlreadyOccupied` on a filled cell, and
    /// with `InvalidState` on an empty cell of a board that is already started.
    pub fn start_at(&mut self, x: usize, y: usize) -> (r: Result<(), MyError>)
        requires
            old(self).wf(),
        ensures
            final(self).wf(),
            old(self)@.keeps_filled(final(self)@),
            !old(self)@.in_grid(x as int, y as int) ==> r == Err::<(), MyError>(
                MyError { kind: ErrorKind::OutOfRange { x, y, size: old(self)@.size as usize } },
            ),
            old(self)@.in_grid(x as int, y as int) && old(self)@.at(x as int, y as int) != 0 ==> r
                == Err::<(), MyError>(MyError { kind: ErrorKind::AlreadyOccupied { x, y } }),
            old(self)@.in_grid(x as int, y as int) && old(self)@.at(x as int, y as int) == 0
                && old(self)@.is_started() ==> r == Err::<(), MyError>(
                MyError { kind: ErrorKind::InvalidState },
            ),
            r is Err ==> final(self)@ == old(self)@,
            r is Ok <==> old(self)@.in_grid(x as int, y as int) && old(self)@.at(x as int, y as int)
                == 0 && !old(self)@.is_started(),
            r is Ok ==> final(self)@ == old(self)@.placed(x as int, y as int, 1),
            r is Ok ==> final(self)@.is_started() && final(self)@.score() == 1 && final(self)@.at(
                x as int,
                y as int,
            ) == 1 && final(self)@.x == x && final(self)@.y == y,
    {
        if x < self.size && y < self.size {
            proof {
                lemma_index_in_grid(x as int, y as int, self.size as int);
            }
            if self.values[y * self.size + x] == 0 && self.is_started() {
                return Err(MyError::new(ErrorKind::InvalidState));
            }
        }
        proof {
            self@.lemma_score_is_cursor();
            assert(self@.cells() >= 25) by (nonlinear_arith)
                requires
                    self@.size >= 5,
            ;
        }
        let r = self.set_value(x, y, 1);
        proof {
            if r is Ok {
                old(self)@.lemma_place_next(x as int, y as int);
            }
        }
        r
    }

    /// Jumps from the cursor in direction `dir` and writes the next number
    /// there. Fails with `InvalidState` on a board that is not started and
    /// with `InvalidMove` where the jump leaves the grid or lands on a filled
    /// cell; a failed move leaves the board as it was.
    pub fn next_move(&mut self, dir: Direction) -> (r: Result<(), MyError>)
        requires
            old(self).wf(),
        ensures
            final(self).wf(),
            old(self)@.keeps_filled(final(self)@),
            !old(self)@.is_started() ==> r == Err::<(), MyError>(
                MyError { kind: ErrorKind::InvalidState },
            ),
            old(self)@.is_started() && !old(self)@.can_move(dir) ==> r == Err::<(), MyError>(
                MyError { kind: ErrorKind::InvalidMove(dir) },
            ),
            r is Err ==> final(self)@ == old(self)@,
            r is Ok <==> old(self)@.can_move(dir),
            r is Ok ==> final(self)@ == old(self)@.after_move(dir),
            r is Ok ==> final(self)@.score() == old(self)@.score() + 1 && final(self)@.x
                == old(self)@.target(dir).0 && final(self)@.y == old(self)@.target(dir).1
                && final(self)@.at(old(self)@.x as int, old(self)@.y as int) == old(self)@.at(
                old(self)@.x as int,
                old(self)@.y as int,
            ),
    {
        if !self.is_started() {
            return Err(MyError::new(ErrorKind::InvalidState));
        }
        proof {
            lemma_index_in_grid(self.x as int, self.y as int, self.size as int);
        }
        let val = self.values[self.y * self.size + self.x];
        match self.valid_move(dir) {
            Some((x, y)) => {
                proof {
                    self@.lemma_place_next(x as int, y as int);
                    self@.lemma_move_keeps_cursor_cell(dir);
                }
                self.set_cell(x, y, val + 1)
            },
            None => Err(MyError::new(ErrorKind::InvalidMove(dir))),
        }
    }
    /// The directions of the legal jumps from the cursor, in the order of
    /// `Direction::iterator`; empty on a board that is not started.
    pub fn possible_moves(&self) -> (r: Vec<Direction>)
        requires
            self.wf(),
        ensures
            r@ == self@.possible_moves(),
    {
        let dirs = Direction::iterator();
        let mut r: Vec<Direction> = Vec::new();
        let mut i: usize = 0;
        while i < dirs.len()
            invariant
                self.wf(),
                dirs@ == all_directions(),
                i <= dirs@.len(),
                r@ == self@.moves_among(dirs@.take(i as int)),
            decreases dirs.len() - i,
        {
            let d = dirs[i];
            let ok = self.valid_move(d).is_some();
            if ok {
                r.push(d);
            }
            proof {
                let next = dirs@.take(i + 1);
                assert(next.drop_last() =~= dirs@.take(i as int));
                reveal(Seq::filter);
            }
            i += 1;
        }
        proof {
            assert(dirs@.take(dirs@.len() as int) =~= dirs@);
        }
        r
    }

    /// The cursor holds the number of cells and no cell is empty.
    pub fn is_won(&self) -> (r: bool)
        requires
            self.wf(),
        ensures
            r == self@.is_won(),
    {
        proof {
            lemma_index_in_grid(self.x as int, self.y as int, self.size as int);
        }
        if self.values[self.y * self.size + self.x] as usize != self.cells {
            return false;
        }
        let mut i: usize = 0;
        while i < self.values.len()
            invariant
                i <= self.values@.len(),
                forall|k: int| 0 <= k < i ==> self.values@[k] != 0,
            decreases self.values.len() - i,
        {
            if self.values[i] == 0 {
                return false;
            }
            i += 1;
        }
        true
    }

    /// The board is started and no jump from the cursor is legal.
    pub fn is_blocked(&self) -> (r: bool)
        requires
            self.wf(),
        ensures
            r == self@.is_blocked(),
            !self@.is_started() ==> !r,
    {
        self.is_started() && self.possible_moves().len() == 0
    }

    /// The largest number on the board: 0 before the start, then the number
    /// at the cursor.
    pub fn score(&self) -> (r: usize)
        requires
            self.wf(),
        ensures
            r == self@.score(),
            r == self@.cursor_value(),
    {
        let mut best: u16 = 0;
        let mut i: usize = 0;
        while i < self.values.len()
            invariant
                i <= self.values@.len(),
                best == seq_max(self.values@.take(i as int)),
            decreases self.values.len() - i,
        {
            proof {
                assert(self.values@.take(i + 1).drop_last() =~= self.values@.take(i as int));
            }
            if self.values[i] > best {
                best = self.values[i];
            }
            i += 1;
        }
        proof {
            assert(self.values@.take(self.values@.len() as int) =~= self.values@);
            self@.lemma_score_is_cursor();
        }
        best as usize
    }

    /// Side length of the grid.
    pub fn size(&self) -> (r: usize)
        ensures
            r == self@.size,
    {
        self.size
    }

    /// The cells in row-major order: the cell `(x, y)` is at `y * size + x`.
    pub fn values(&self) -> (r: &[u16])
        ensures
            r@ == self@.values,
    {
        self.values.as_slice()
    }

    /// The cell filled last, as `(x, y)`.
    pub fn cursor(&self) -> (r: (usize, usize))
        ensures
            r.0 == self@.x,
            r.1 == self@.y,
    {
        (self.x, self.y)
    }
}

} // verus!
