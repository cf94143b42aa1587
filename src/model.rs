use vstd::prelude::*;

use crate::direction::{all_directions, Direction};

verus! {

/// Smallest side length of a board.
pub const MIN_SIZE: usize = 5;

/// Largest side length of a board.
pub const MAX_SIZE: usize = 16;

/// The side length that a board asked for with side `size` gets.
pub open spec fn clamp_size(size: int) -> nat {
    if size < MIN_SIZE {
        MIN_SIZE as nat
    } else if size > MAX_SIZE {
        MAX_SIZE as nat
    } else {
        size as nat
    }
}

/// Number of non-empty cells in `s`.
pub open spec fn count_filled(s: Seq<u16>) -> nat
    decreases s.len(),
{
    if s.len() == 0 {
        0
    } else {
        count_filled(s.drop_last()) + if s.last() != 0 {
            1nat
        } else {
            0nat
        }
    }
}

/// Largest entry of `s`, or 0 when `s` is empty.
pub open spec fn seq_max(s: Seq<u16>) -> nat
    decreases s.len(),
{
    if s.len() == 0 {
        0
    } else if s.last() as nat > seq_max(s.drop_last()) {
        s.last() as nat
    } else {
        seq_max(s.drop_last())
    }
}

/// The abstract state of a board: its side, its cells in row-major order
/// (0 for an empty cell, otherwise the number placed there) and the cursor,
/// the cell that was filled last.
pub struct BoardModel {
    pub size: nat,
    pub values: Seq<u16>,
    pub x: nat,
    pub y: nat,
}

impl BoardModel {
    /// The board of side `clamp_size(size)` with every cell empty and the
    /// cursor on `(0, 0)`.
    pub open spec fn fresh(size: int) -> BoardModel {
        let side = clamp_size(size);
        BoardModel { size: side, values: Seq::new(side * side, |i: int| 0u16), x: 0, y: 0 }
    }

    /// Number of cells, which is also the number that wins.
    pub open spec fn cells(self) -> nat {
        self.size * self.size
    }

    pub open spec fn in_grid(self, x: int, y: int) -> bool {
        0 <= x < self.size && 0 <= y < self.size
    }

    /// Position of cell `(x, y)` in `values`.
    pub open spec fn index(self, x: int, y: int) -> int {
        y * self.size + x
    }

    pub open spec fn at(self, x: int, y: int) -> u16 {
        self.values[self.index(x, y)]
    }

    /// The number at the cursor.
    pub open spec fn cursor_value(self) -> nat {
        self.at(self.x as int, self.y as int) as nat
    }

    pub open spec fn is_started(self) -> bool {
        self.cursor_value() > 0
    }

    /// The cell that a jump in direction `d` from the cursor lands on.
    pub open spec fn target(self, d: Direction) -> (int, int) {
        (self.x + d.dx(), self.y + d.dy())
    }

    /// A jump in direction `d` is legal: the board is started and the jump
    /// lands on an empty cell of the grid.
    pub open spec fn can_move(self, d: Direction) -> bool {
        let (tx, ty) = self.target(d);
        self.is_started() && self.in_grid(tx, ty) && self.at(tx, ty) == 0
    }

    /// The directions of `ds` that are legal jumps, in the order of `ds`.
    pub open spec fn moves_among(self, ds: Seq<Direction>) -> Seq<Direction> {
        ds.filter(|d: Direction| self.can_move(d))
    }

    /// The legal jumps, in the order of `all_directions()`.
    pub open spec fn possible_moves(self) -> Seq<Direction> {
        self.moves_among(all_directions())
    }

    /// The largest number on the board.
    pub open spec fn score(self) -> nat {
        seq_max(self.values)
    }

    /// The cursor holds the last number and no cell is empty.
    pub open spec fn is_won(self) -> bool {
        &&& self.cursor_value() == self.cells()
        &&& forall|i: int| 0 <= i < self.values.len() ==> self.values[i] != 0
    }

    pub open spec fn is_blocked(self) -> bool {
        self.is_started() && self.possible_moves().len() == 0
    }

    /// This board with `v` written at `(x, y)` and the cursor moved there.
    pub open spec fn placed(self, x: int, y: int, v: u16) -> BoardModel {
        BoardModel {
            values: self.values.update(self.index(x, y), v),
            x: x as nat,
            y: y as nat,
            ..self
        }
    }

    /// This board after the jump `d`: the next number is written on the
    /// target, which becomes the cursor.
    pub open spec fn after_move(self, d: Direction) -> BoardModel {
        let (tx, ty) = self.target(d);
        self.placed(tx, ty, (self.cursor_value() + 1) as u16)
    }

    /// `later` has the same shape as this board and every non-empty cell of
    /// this board holds the same number in `later`.
    pub open spec fn keeps_filled(self, later: BoardModel) -> bool {
        &&& later.size == self.size
        &&& later.values.len() == self.values.len()
        &&& forall|i: int|
            0 <= i < self.values.len() && self.values[i] != 0 ==> #[trigger] later.values[i]
                == self.values[i]
    }

    /// Well-formed: the side is in range, there is one entry per cell, the
    /// cursor lies on the grid and holds the largest number, the non-empty
    /// cells hold distinct numbers, and as many cells are filled as the
    /// cursor's number says (so the numbers are exactly `1..=cursor_value()`).
    pub open spec fn wf(self) -> bool {
        &&& MIN_SIZE <= self.size <= MAX_SIZE
        &&& self.values.len() == self.cells()
        &&& self.x < self.size
        &&& self.y < self.size
        &&& forall|i: int| 0 <= i < self.values.len() ==> self.values[i] <= self.cursor_value()
        &&& forall|i: int, j: int|
            0 <= i < self.values.len() && 0 <= j < self.values.len() && i != j
                && #[trigger] self.values[i] != 0 ==> self.values[i] != #[trigger] self.values[j]
        &&& count_filled(self.values) == self.cursor_value()
    }
}

pub proof fn lemma_index_in_grid(x: int, y: int, size: int)
    requires
        0 <= x < size,
        0 <= y < size,
    ensures
        0 <= y * size + x < size * size,
{
    assert(0 <= y * size) by (nonlinear_arith)
        requires
            0 <= y,
            0 <= size,
    ;
    assert((y + 1) * size <= size * size) by (nonlinear_arith)
        requires
            y + 1 <= size,
            0 <= size,
    ;
    assert((y + 1) * size == y * size + size) by (nonlinear_arith);
}

pub proof fn lemma_count_filled_bound(s: Seq<u16>)
    ensures
        count_filled(s) <= s.len(),
        (exists|i: int| 0 <= i < s.len() && s[i] == 0) ==> count_filled(s) < s.len(),
    decreases s.len(),
{
    if s.len() > 0 {
        lemma_count_filled_bound(s.drop_last());
        if exists|i: int| 0 <= i < s.len() && s[i] == 0 {
            let i = choose|i: int| 0 <= i < s.len() && s[i] == 0;
            if i < s.len() - 1 {
                assert(s.drop_last()[i] == 0);
            }
        }
    }
}

pub proof fn lemma_count_filled_zeros(s: Seq<u16>)
    requires
        forall|i: int| 0 <= i < s.len() ==> s[i] == 0,
    ensures
        count_filled(s) == 0,
    decreases s.len(),
{
    if s.len() > 0 {
        lemma_count_filled_zeros(s.drop_last());
    }
}

pub proof fn lemma_count_filled_update(s: Seq<u16>, i: int, v: u16)
    requires
        0 <= i < s.len(),
        s[i] == 0,
        v != 0,
    ensures
        count_filled(s.update(i, v)) == count_filled(s) + 1,
    decreases s.len(),
{
    let t = s.update(i, v);
    if i == s.len() - 1 {
        assert(t.drop_last() =~= s.drop_last());
    } else {
        assert(t.drop_last() =~= s.drop_last().update(i, v));
        lemma_count_filled_update(s.drop_last(), i, v);
    }
}

pub proof fn lemma_seq_max_bounds(s: Seq<u16>)
    ensures
        forall|i: int| 0 <= i < s.len() ==> s[i] <= seq_max(s),
        s.len() > 0 ==> exists|i: int| 0 <= i < s.len() && s[i] == seq_max(s),
    decreases s.len(),
{
    if s.len() > 0 {
        let p = s.drop_last();
        lemma_seq_max_bounds(p);
        assert forall|i: int| 0 <= i < s.len() implies s[i] <= seq_max(s) by {
            if i < s.len() - 1 {
                assert(p[i] == s[i]);
            }
        }
        if s.last() as nat <= seq_max(p) && p.len() > 0 {
            let j = choose|j: int| 0 <= j < p.len() && p[j] == seq_max(p);
            assert(s[j] == seq_max(s));
        } else {
            assert(s[s.len() - 1] == seq_max(s));
        }
    }
}

/// The largest entry is the one that bounds all others and occurs.
pub proof fn lemma_seq_max_is(s: Seq<u16>, m: nat)
    requires
        forall|i: int| 0 <= i < s.len() ==> s[i] <= m,
        exists|i: int| 0 <= i < s.len() && s[i] == m,
    ensures
        seq_max(s) == m,
{
    lemma_seq_max_bounds(s);
    let j = choose|j: int| 0 <= j < s.len() && s[j] == seq_max(s);
    let k = choose|k: int| 0 <= k < s.len() && s[k] == m;
    assert(s[k] <= seq_max(s));
    assert(s[j] <= m);
}

impl BoardModel {
    /// On a well-formed board the score is the number at the cursor, and no
    /// number exceeds the number of cells.
    pub proof fn lemma_score_is_cursor(self)
        requires
            self.wf(),
        ensures
            self.score() == self.cursor_value(),
            self.cursor_value() <= self.cells(),
            self.score() <= self.cells(),
    {
        lemma_index_in_grid(self.x as int, self.y as int, self.size as int);
        lemma_seq_max_is(self.values, self.cursor_value());
        lemma_count_filled_bound(self.values);
    }
    /// Writing the next number on an empty cell of the grid keeps the board
    /// well-formed, keeps every filled cell, and raises the score by one.
    pub proof fn lemma_place_next(self, x: int, y: int)
        requires
            self.wf(),
            self.in_grid(x, y),
            self.at(x, y) == 0,
        ensures
            self.cursor_value() + 1 <= self.cells(),
            self.placed(x, y, (self.cursor_value() + 1) as u16).wf(),
            self.keeps_filled(self.placed(x, y, (self.cursor_value() + 1) as u16)),
            self.placed(x, y, (self.cursor_value() + 1) as u16).cursor_value() == self.cursor_value()
                + 1,
            self.placed(x, y, (self.cursor_value() + 1) as u16).score() == self.score() + 1,
    {
        let k = self.index(x, y);
        lemma_index_in_grid(x, y, self.size as int);
        assert(self.values[k] == 0);
        lemma_count_filled_bound(self.values);
        self.lemma_score_is_cursor();
        assert(self.cells() <= 256) by (nonlinear_arith)
            requires
                self.size <= 16,
        ;
        let v = (self.cursor_value() + 1) as u16;
        let n = self.placed(x, y, v);
        lemma_count_filled_update(self.values, k, v);
        assert(n.cursor_value() == self.cursor_value() + 1);
        assert forall|i: int, j: int|
            0 <= i < n.values.len() && 0 <= j < n.values.len() && i != j
                && #[trigger] n.values[i] != 0 implies n.values[i] != #[trigger] n.values[j] by {
            if i != k && j != k {
                assert(self.values[i] != self.values[j]);
            }
        }
        n.lemma_score_is_cursor();
    }

    /// A legal jump lands on a cell other than the cursor, so the cursor's
    /// number stays where it was.
    pub proof fn lemma_move_keeps_cursor_cell(self, d: Direction)
        requires
            self.wf(),
            self.can_move(d),
        ensures
            self.after_move(d).at(self.x as int, self.y as int) == self.at(
                self.x as int,
                self.y as int,
            ),
    {
        let (tx, ty) = self.target(d);
        lemma_index_in_grid(tx, ty, self.size as int);
        lemma_index_in_grid(self.x as int, self.y as int, self.size as int);
    }
    /// A fresh board is well-formed and not started; its score is 0, it is
    /// neither won nor blocked, and it offers no move.
    pub proof fn lemma_fresh_board(size: int)
        ensures
            BoardModel::fresh(size).wf(),
            !BoardModel::fresh(size).is_started(),
            BoardModel::fresh(size).score() == 0,
            !BoardModel::fresh(size).is_won(),
            BoardModel::fresh(size).possible_moves() == Seq::<Direction>::empty(),
            !BoardModel::fresh(size).is_blocked(),
    {
        let b = BoardModel::fresh(size);
        assert(25 <= b.cells()) by (nonlinear_arith)
            requires
                5 <= b.size,
        ;
        assert(b.index(0, 0) == 0);
        lemma_count_filled_zeros(b.values);
        b.lemma_score_is_cursor();
        b.lemma_possible_moves_legal();
        let ms = b.possible_moves();
        if ms.len() > 0 {
            assert(ms.contains(ms[0]));
        }
        assert(ms =~= Seq::<Direction>::empty());
    }

    /// The listed moves are exactly the legal jumps, and a legal jump lands
    /// on an empty cell of the grid.
    pub proof fn lemma_possible_moves_legal(self)
        ensures
            forall|d: Direction| #[trigger]
                self.possible_moves().contains(d) <==> self.can_move(d),
            forall|d: Direction| #[trigger]
                self.can_move(d) ==> self.in_grid(self.target(d).0, self.target(d).1) && self.at(
                    self.target(d).0,
                    self.target(d).1,
                ) == 0,
    {
        let pred = |d: Direction| self.can_move(d);
        let all = all_directions();
        assert forall|d: Direction| #[trigger]
            self.possible_moves().contains(d) <==> self.can_move(d) by {
            if self.possible_moves().contains(d) {
                let k = choose|k: int|
                    0 <= k < all.filter(pred).len() && all.filter(pred)[k] == d;
                all.lemma_filter_pred(pred, k);
            }
            if self.can_move(d) {
                let k: int = match d {
                    Direction::Down => 0,
                    Direction::DownRight => 1,
                    Direction::Right => 2,
                    Direction::UpRight => 3,
                    Direction::Up => 4,
                    Direction::UpLeft => 5,
                    Direction::Left => 6,
                    Direction::DownLeft => 7,
                };
                assert(all[k] == d);
                all.lemma_filter_contains(pred, k);
            }
        }
    }

    /// Every board keeps its own filled cells.
    pub proof fn lemma_keeps_filled_reflexive(self)
        ensures
            self.keeps_filled(self),
    {
    }

    /// Keeping filled cells carries over a chain of boards: once a cell holds
    /// a number, no sequence of operations changes it.
    pub proof fn lemma_keeps_filled_transitive(a: BoardModel, b: BoardModel, c: BoardModel)
        requires
            a.keeps_filled(b),
            b.keeps_filled(c),
        ensures
            a.keeps_filled(c),
    {
        assert forall|i: int| 0 <= i < a.values.len() && a.values[i] != 0 implies #[trigger] c.values[i]
            == a.values[i] by {
            assert(b.values[i] == a.values[i]);
        }
    }
}

} // verus!
