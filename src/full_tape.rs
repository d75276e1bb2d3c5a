use vstd::prelude::*;
use crate::half_tape::{HalfTape, lemma_grown_cells};

verus! {

/// What a tape stands for: the logical position of its pointer and the byte
/// held by every logical address.
pub ghost struct TapeState {
    pub pos: int,
    pub cells: Map<int, u8>,
}

/// Logical addresses that a tape can reach: each half indexes its buffer by a
/// `usize` and must be able to hold one byte past its pointer.
pub open spec fn addressable(pos: int) -> bool {
    -(usize::MAX as int) <= pos < usize::MAX as int
}

impl TapeState {
    /// A fresh tape: pointer at address zero, every cell zero.
    pub open spec fn blank() -> TapeState {
        TapeState { pos: 0, cells: Map::new(|a: int| true, |a: int| 0u8) }
    }

    /// The pointer moved by `by`, every cell unchanged.
    pub open spec fn moved_by(self, by: int) -> TapeState {
        TapeState { pos: self.pos + by, cells: self.cells }
    }

    /// The byte under the pointer.
    pub open spec fn value(self) -> u8 {
        self.cells[self.pos]
    }

    /// The cell under the pointer set to `v`.
    pub open spec fn with_value(self, v: u8) -> TapeState {
        TapeState { pos: self.pos, cells: self.cells.insert(self.pos, v) }
    }

    /// The cell under the pointer increased by `by`, modulo 256.
    pub open spec fn incremented(self, by: u8) -> TapeState {
        self.with_value(((self.value() + by) % 256) as u8)
    }

    /// The cell under the pointer decreased by `by`, modulo 256.
    pub open spec fn decremented(self, by: u8) -> TapeState {
        self.with_value(((self.value() - by) % 256) as u8)
    }
}

#[derive(Debug, Clone, Copy, PartialEq, Eq, Structural)]
enum Direction {
    Left,
    Right,
}

/// An unbounded tape of byte cells in both directions. Addresses `0, 1, 2, ...`
/// live in the right half at the same offsets; addresses `-1, -2, -3, ...` live
/// in the left half at offsets `0, 1, 2, ...`. The pointer stands in one half
/// at a time; the other half keeps its pointer parked at its origin.
#[derive(Debug, Clone)]
pub struct Tape {
    which: Direction,
    left: HalfTape,
    right: HalfTape,
}

impl View for Tape {
    type V = TapeState;

    closed spec fn view(&self) -> TapeState {
        TapeState {
            pos: if self.which == Direction::Right {
                self.right.offset() as int
            } else {
                -(self.left.offset() + 1)
            },
            cells: Map::new(
                |a: int| true,
                |a: int|
                    if a >= 0 {
                        self.right.value_at(a)
                    } else {
                        self.left.value_at(-a - 1)
                    },
            ),
        }
    }
}

impl Tape {
    /// Both halves are well formed and the inactive one is parked at offset zero.
    pub closed spec fn wf(&self) -> bool {
        &&& self.left.wf()
        &&& self.right.wf()
        &&& self.which == Direction::Right ==> self.left.offset() == 0
        &&& self.which == Direction::Left ==> self.right.offset() == 0
    }

    /// The half that holds the pointer.
    spec fn active(&self) -> HalfTape {
        if self.which == Direction::Left {
            self.left
        } else {
            self.right
        }
    }

    pub fn new() -> (r: Tape)
        ensures
            r.wf(),
            r@ == TapeState::blank(),
    {
        let r = Tape { which: Direction::Right, left: HalfTape::new(), right: HalfTape::new() };
        assert(r@.cells =~= TapeState::blank().cells);
        r
    }

    /// Whether a move by `by` keeps the pointer addressable.
    pub fn can_move_by(&self, by: i128) -> (r: bool)
        requires
            self.wf(),
        ensures
            r == addressable(self@.pos + by),
    {
        let p = self.current_pointer();
        let max: i128 = usize::MAX as i128;
        if self.which == Direction::Right {
            -max - p as i128 <= by && by < max - p as i128
        } else {
            -max + p as i128 + 1 <= by && by < max + p as i128 + 1
        }
    }

    /// Moves the pointer by `by` cells (negative is leftwards). When the move
    /// leaves the active half, that half is parked at its origin and the
    /// pointer continues in the other half.
    pub fn move_pointer_by(&mut self, by: i128)
        requires
            old(self).wf(),
            addressable(old(self)@.pos + by),
        ensures
            final(self).wf(),
            final(self)@ == old(self)@.moved_by(by as int),
    {
        let ghost before = self@;
        // The move in the active half's own direction of growth.
        let move_by: i128 = if self.which == Direction::Left {
            -by
        } else {
            by
        };
        let p = self.current_pointer();
        if p as i128 + move_by >= 0 {
            let half = self.current_half();
            half.move_pointer_by(move_by);
            proof {
                let h = self.active();
                lemma_grown_cells(old(self).active().memory_view(), h.offset());
            }
            assert(self@.cells =~= before.cells);
            return;
        }
        // The move overshoots this half's origin: it lands in the other half.
        let new_position: i128 = -(p as i128 + move_by) - 1;
        proof {
            lemma_grown_cells(self.left.memory_view(), 1);
            lemma_grown_cells(self.right.memory_view(), 1);
        }
        self.current_half().move_pointer_to(0);
        self.which = match self.which {
            Direction::Left => Direction::Right,
            Direction::Right => Direction::Left,
        };
        let ghost mid = *self;
        proof {
            lemma_grown_cells(mid.active().memory_view(), new_position as nat + 1);
        }
        self.current_half().move_pointer_to(new_position as usize);
        assert(self@.cells =~= before.cells);
    }

    pub fn get_value(&mut self) -> (r: u8)
        requires
            old(self).wf(),
        ensures
            r == old(self)@.value(),
            *final(self) == *old(self),
    {
        self.current_half().get_value()
    }

    pub fn set_value(&mut self, value: u8)
        requires
            old(self).wf(),
        ensures
            final(self).wf(),
            final(self)@ == old(self)@.with_value(value),
    {
        let ghost before = self@;
        self.current_half().set_value(value);
        assert(self@.cells =~= before.cells.insert(before.pos, value));
    }

    /// Adds `by` to the cell under the pointer, modulo 256.
    pub fn increment_value(&mut self, by: u8)
        requires
            old(self).wf(),
        ensures
            final(self).wf(),
            final(self)@ == old(self)@.incremented(by),
    {
        let ghost before = self@;
        self.current_half().increment_value(by);
        assert(self@.cells =~= before.incremented(by).cells);
    }

    /// Subtracts `by` from the cell under the pointer, modulo 256.
    pub fn decrement_value(&mut self, by: u8)
        requires
            old(self).wf(),
        ensures
            final(self).wf(),
            final(self)@ == old(self)@.decremented(by),
    {
        let ghost before = self@;
        self.current_half().decrement_value(by);
        assert(self@.cells =~= before.decremented(by).cells);
    }

    fn current_pointer(&self) -> (r: usize)
        ensures
            r as nat == self.active().offset(),
    {
        match self.which {
            Direction::Left => self.left.get_pointer(),
            Direction::Right => self.right.get_pointer(),
        }
    }

    /// The half that holds the pointer.
    fn current_half(&mut self) -> (r: &mut HalfTape)
        ensures
            *r == old(self).active(),
            final(self).which == old(self).which,
            old(self).which == Direction::Left ==> final(self).left == *final(r)
                && final(self).right == old(self).right,
            old(self).which == Direction::Right ==> final(self).right == *final(r)
                && final(self).left == old(self).left,
    {
        match self.which {
            Direction::Left => &mut self.left,
            Direction::Right => &mut self.right,
        }
    }
}

} // verus!
