use vstd::prelude::*;
use crate::full_tape::TapeState;

verus! {

/// The sum of a sequence of pointer moves.
pub open spec fn total(moves: Seq<int>) -> int
    decreases moves.len(),
{
    if moves.len() == 0 {
        0
    } else {
        total(moves.drop_last()) + moves.last()
    }
}

/// The state after making each move of `moves` in turn, as
/// `Tape::move_pointer_by` does.
pub open spec fn after_moves(s: TapeState, moves: Seq<int>) -> TapeState
    decreases moves.len(),
{
    if moves.len() == 0 {
        s
    } else {
        after_moves(s, moves.drop_last()).moved_by(moves.last())
    }
}

/// One operation of the tape, as its mutating methods perform it.
pub ghost enum TapeOp {
    Move(int),
    Write(u8),
    Increment(u8),
    Decrement(u8),
}

pub open spec fn apply(s: TapeState, op: TapeOp) -> TapeState {
    match op {
        TapeOp::Move(by) => s.moved_by(by),
        TapeOp::Write(v) => s.with_value(v),
        TapeOp::Increment(by) => s.incremented(by),
        TapeOp::Decrement(by) => s.decremented(by),
    }
}

/// The state after performing each operation of `ops` in turn.
pub open spec fn apply_all(s: TapeState, ops: Seq<TapeOp>) -> TapeState
    decreases ops.len(),
{
    if ops.len() == 0 {
        s
    } else {
        apply(apply_all(s, ops.drop_last()), ops.last())
    }
}

/// Whether the pointer stands on address `a` at some point of the run of `ops`
/// from `s`, its start and end included.
pub open spec fn visits(s: TapeState, ops: Seq<TapeOp>, a: int) -> bool {
    exists|i: int| 0 <= i <= ops.len() && #[trigger] apply_all(s, ops.take(i)).pos == a
}

/// `n` increments by one of the cell under the pointer.
pub open spec fn incremented_times(s: TapeState, n: nat) -> TapeState
    decreases n,
{
    if n == 0 {
        s
    } else {
        incremented_times(s, (n - 1) as nat).incremented(1)
    }
}

/// `n` decrements by one of the cell under the pointer.
pub open spec fn decremented_times(s: TapeState, n: nat) -> TapeState
    decreases n,
{
    if n == 0 {
        s
    } else {
        decremented_times(s, (n - 1) as nat).decremented(1)
    }
}

proof fn lemma_after_moves(s: TapeState, moves: Seq<int>)
    ensures
        after_moves(s, moves) == s.moved_by(total(moves)),
    decreases moves.len(),
{
    if moves.len() > 0 {
        lemma_after_moves(s, moves.drop_last());
    }
}

/// Path independence: any two sequences of moves with the same sum lead from
/// one tape to the same tape, so a cell is reached by its address alone,
/// whatever the path, and no move changes a cell.
pub proof fn lemma_path_independence(s: TapeState, moves_a: Seq<int>, moves_b: Seq<int>)
    requires
        total(moves_a) == total(moves_b),
    ensures
        after_moves(s, moves_a) == after_moves(s, moves_b),
        after_moves(s, moves_a).pos == s.pos + total(moves_a),
        after_moves(s, moves_a).cells == s.cells,
{
    lemma_after_moves(s, moves_a);
    lemma_after_moves(s, moves_b);
}

/// Setting the cell under the pointer to `v` and reading it back gives `v`.
pub proof fn lemma_set_then_get(s: TapeState, v: u8)
    ensures
        s.with_value(v).value() == v,
        s.with_value(v).pos == s.pos,
{
}

proof fn lemma_incremented_times(s: TapeState, n: nat)
    requires
        s.cells.contains_key(s.pos),
    ensures
        incremented_times(s, n) == s.with_value(((s.value() + n) % 256) as u8),
    decreases n,
{
    if n == 0 {
        assert(s.with_value(s.value()).cells =~= s.cells);
    } else {
        lemma_incremented_times(s, (n - 1) as nat);
        let t = incremented_times(s, (n - 1) as nat);
        assert(((((s.value() + n - 1) % 256) as u8) + 1) % 256 == (s.value() + n) % 256);
        assert(t.incremented(1).cells =~= s.with_value(((s.value() + n) % 256) as u8).cells);
    }
}

proof fn lemma_decremented_times(s: TapeState, n: nat)
    requires
        s.cells.contains_key(s.pos),
    ensures
        decremented_times(s, n) == s.with_value(((s.value() - n) % 256) as u8),
    decreases n,
{
    if n == 0 {
        assert(s.with_value(s.value()).cells =~= s.cells);
    } else {
        lemma_decremented_times(s, (n - 1) as nat);
        let t = decremented_times(s, (n - 1) as nat);
        assert(((((s.value() - (n - 1)) % 256) as u8) - 1) % 256 == (s.value() - n) % 256);
        assert(t.decremented(1).cells =~= s.with_value(((s.value() - n) % 256) as u8).cells);
    }
}

/// Wraparound: 256 increments by one, or 256 decrements by one, of a cell
/// bring the tape back to where it was.
pub proof fn lemma_wraparound(s: TapeState)
    requires
        s.cells.contains_key(s.pos),
    ensures
        incremented_times(s, 256) == s,
        decremented_times(s, 256) == s,
{
    lemma_incremented_times(s, 256);
    lemma_decremented_times(s, 256);
    assert(s.with_value(s.value()).cells =~= s.cells);
}

/// Crossing the origin and back: from address zero, a move by -1 and then a
/// move by 1 return to address zero with its cell, and every other, intact.
pub proof fn lemma_cross_origin_and_back(s: TapeState)
    requires
        s.pos == 0,
    ensures
        s.moved_by(-1).moved_by(1) == s,
        s.moved_by(-1).pos == -1,
        s.moved_by(-1).moved_by(1).value() == s.value(),
{
}

proof fn lemma_unvisited_cell_kept(s: TapeState, ops: Seq<TapeOp>, a: int)
    requires
        !visits(s, ops, a),
    ensures
        apply_all(s, ops).cells[a] == s.cells[a],
    decreases ops.len(),
{
    if ops.len() > 0 {
        let prefix = ops.drop_last();
        assert forall|i: int| 0 <= i <= prefix.len() implies apply_all(s, prefix.take(i)).pos != a by {
            assert(prefix.take(i) =~= ops.take(i));
            assert(apply_all(s, ops.take(i)).pos != a);
        }
        lemma_unvisited_cell_kept(s, prefix, a);
        assert(ops.take(prefix.len() as int) =~= prefix);
        assert(apply_all(s, ops.take(prefix.len() as int)).pos != a);
    }
}

/// Lazy zero fill: on a tape created fresh, a cell that the pointer has never
/// stood on reads zero, whatever operations were performed elsewhere.
pub proof fn lemma_unvisited_cell_is_zero(ops: Seq<TapeOp>, a: int)
    requires
        !visits(TapeState::blank(), ops, a),
    ensures
        apply_all(TapeState::blank(), ops).cells[a] == 0,
{
    lemma_unvisited_cell_kept(TapeState::blank(), ops, a);
}

} // verus!
