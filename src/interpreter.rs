use vstd::prelude::*;
use crate::full_tape::{Tape, TapeState, addressable};

verus! {

/// `>`: move the pointer one cell right.
pub const CMD_RIGHT: u8 = 62;
/// `<`: move the pointer one cell left.
pub const CMD_LEFT: u8 = 60;
/// `+`: increment the cell under the pointer.
pub const CMD_INCREMENT: u8 = 43;
/// `-`: decrement the cell under the pointer.
pub const CMD_DECREMENT: u8 = 45;
/// `.`: output the cell under the pointer.
pub const CMD_OUTPUT: u8 = 46;
/// `,`: input a byte into the cell under the pointer.
pub const CMD_INPUT: u8 = 44;
/// `[`: jump past the matching `]` if the cell is zero.
pub const CMD_OPEN: u8 = 91;
/// `]`: jump back after the matching `[` if the cell is not zero.
pub const CMD_CLOSE: u8 = 93;

/// How a bracket byte changes the nesting depth: `[` opens, `]` closes.
pub open spec fn bracket_delta(b: u8) -> int {
    if b == CMD_OPEN {
        1
    } else if b == CMD_CLOSE {
        -1
    } else {
        0
    }
}

/// Opening brackets minus closing brackets among `p[lo..hi]`.
pub open spec fn balance(p: Seq<u8>, lo: int, hi: int) -> int
    decreases hi - lo,
{
    if hi <= lo {
        0
    } else {
        balance(p, lo, hi - 1) + bracket_delta(p[hi - 1])
    }
}

/// `p[j]` is a `]` that balances the brackets between it and the `[` at `open`.
pub open spec fn closes(p: Seq<u8>, open: int, j: int) -> bool {
    open < j < p.len() && p[j] == CMD_CLOSE && balance(p, open + 1, j) == 0
}

/// `p[j]` is the `]` that matches the `[` at `open`: the first that balances.
pub open spec fn matching_close(p: Seq<u8>, open: int, j: int) -> bool {
    closes(p, open, j) && forall|k: int| open < k < j ==> !#[trigger] closes(p, open, k)
}

/// `p[k]` is a `[` that balances the brackets between it and the `]` at `close`.
pub open spec fn opens(p: Seq<u8>, close: int, k: int) -> bool {
    0 <= k < close && p[k] == CMD_OPEN && balance(p, k + 1, close) == 0
}

/// `p[k]` is the `[` that matches the `]` at `close`: the nearest that balances.
pub open spec fn matching_open(p: Seq<u8>, close: int, k: int) -> bool {
    opens(p, close, k) && forall|m: int| k < m < close ==> !#[trigger] opens(p, close, m)
}

/// What the runner of a program is to do after one step.
#[derive(Debug, Clone, Copy, PartialEq, Eq, Structural)]
pub enum Action {
    /// Go on at the next instruction.
    Continue,
    /// Write this byte to the output, then go on.
    Output(u8),
    /// Read one byte of input, store it with `store_input`, then go on.
    Input,
    /// The program has ended.
    Halt,
    /// The `[` at this offset has no matching `]`: a syntax error.
    UnmatchedOpen(usize),
    /// The `]` at this offset has no matching `[`: a syntax error.
    UnmatchedClose(usize),
    /// The pointer would leave the addressable range.
    OutOfMemory,
}

/// One step of program `p` at instruction `pc` on tape state `s`: the action,
/// the next instruction and the next tape state.
pub open spec fn step_spec(p: Seq<u8>, pc: int, s: TapeState) -> (Action, int, TapeState) {
    if pc >= p.len() {
        (Action::Halt, pc, s)
    } else {
        let b = p[pc];
        if b == CMD_RIGHT {
            if addressable(s.pos + 1) {
                (Action::Continue, pc + 1, s.moved_by(1))
            } else {
                (Action::OutOfMemory, pc, s)
            }
        } else if b == CMD_LEFT {
            if addressable(s.pos - 1) {
                (Action::Continue, pc + 1, s.moved_by(-1))
            } else {
                (Action::OutOfMemory, pc, s)
            }
        } else if b == CMD_INCREMENT {
            (Action::Continue, pc + 1, s.incremented(1))
        } else if b == CMD_DECREMENT {
            (Action::Continue, pc + 1, s.decremented(1))
        } else if b == CMD_OUTPUT {
            (Action::Output(s.value()), pc + 1, s)
        } else if b == CMD_INPUT {
            (Action::Input, pc + 1, s)
        } else if b == CMD_OPEN && s.value() == 0 {
            if exists|j: int| matching_close(p, pc, j) {
                (Action::Continue, (choose|j: int| matching_close(p, pc, j)) + 1, s)
            } else {
                (Action::UnmatchedOpen(pc as usize), pc, s)
            }
        } else if b == CMD_CLOSE && s.value() != 0 {
            if exists|k: int| matching_open(p, pc, k) {
                (Action::Continue, (choose|k: int| matching_open(p, pc, k)) + 1, s)
            } else {
                (Action::UnmatchedClose(pc as usize), pc, s)
            }
        } else {
            (Action::Continue, pc + 1, s)
        }
    }
}

proof fn lemma_balance_front(p: Seq<u8>, lo: int, hi: int)
    requires
        0 <= lo < hi <= p.len(),
    ensures
        balance(p, lo, hi) == bracket_delta(p[lo]) + balance(p, lo + 1, hi),
    decreases hi - lo,
{
    if lo + 1 < hi {
        lemma_balance_front(p, lo, hi - 1);
    } else {
        assert(balance(p, lo, lo) == 0);
        assert(balance(p, lo + 1, hi) == 0);
    }
}

/// Finds the `]` that matches the `[` at `open`, scanning forward and
/// skipping balanced pairs.
pub fn find_matching_close(program: &Vec<u8>, open: usize) -> (r: Option<usize>)
    requires
        open < program.len(),
    ensures
        match r {
            Some(j) => matching_close(program@, open as int, j as int),
            None => forall|j: int| !#[trigger] closes(program@, open as int, j),
        },
{
    let mut i: usize = open + 1;
    let mut level: usize = 0;
    while i < program.len()
        invariant
            open < i <= program.len(),
            level as int == balance(program@, open + 1, i as int),
            level <= i - open - 1,
            forall|k: int| open < k < i ==> !#[trigger] closes(program@, open as int, k),
        decreases program.len() - i,
    {
        let b = program[i];
        if b == CMD_CLOSE {
            if level == 0 {
                return Some(i);
            }
            level -= 1;
        } else if b == CMD_OPEN {
            level += 1;
        }
        i += 1;
    }
    None
}

/// Finds the `[` that matches the `]` at `close`, scanning backward and
/// skipping balanced pairs.
pub fn find_matching_open(program: &Vec<u8>, close: usize) -> (r: Option<usize>)
    requires
        close < program.len(),
    ensures
        match r {
            Some(k) => matching_open(program@, close as int, k as int),
            None => forall|k: int| !#[trigger] opens(program@, close as int, k),
        },
{
    let mut i: usize = close;
    let mut level: usize = 0;
    while i > 0
        invariant
            i <= close < program.len(),
            level as int == -balance(program@, i as int, close as int),
            level <= close - i,
            forall|m: int| i <= m < close ==> !#[trigger] opens(program@, close as int, m),
        decreases i,
    {
        i -= 1;
        proof {
            lemma_balance_front(program@, i as int, close as int);
        }
        let b = program[i];
        if b == CMD_OPEN {
            if level == 0 {
                return Some(i);
            }
            level -= 1;
        } else if b == CMD_CLOSE {
            level += 1;
        }
    }
    None
}

/// Performs the instruction at `pc` of `program` on `tape`, and says what the
/// runner is to do next and where the program goes on. Bytes other than the
/// eight commands are skipped; a bracket's match is sought only when the jump
/// is taken.
pub fn step(program: &Vec<u8>, pc: usize, tape: &mut Tape) -> (r: (Action, usize))
    requires
        old(tape).wf(),
    ensures
        final(tape).wf(),
        (r.0, r.1 as int, final(tape)@) == step_spec(program@, pc as int, old(tape)@),
{
    if pc >= program.len() {
        return (Action::Halt, pc);
    }
    let b = program[pc];
    if b == CMD_RIGHT {
        if tape.can_move_by(1) {
            tape.move_pointer_by(1);
            (Action::Continue, pc + 1)
        } else {
            (Action::OutOfMemory, pc)
        }
    } else if b == CMD_LEFT {
        if tape.can_move_by(-1) {
            tape.move_pointer_by(-1);
            (Action::Continue, pc + 1)
        } else {
            (Action::OutOfMemory, pc)
        }
    } else if b == CMD_INCREMENT {
        tape.increment_value(1);
        (Action::Continue, pc + 1)
    } else if b == CMD_DECREMENT {
        tape.decrement_value(1);
        (Action::Continue, pc + 1)
    } else if b == CMD_OUTPUT {
        (Action::Output(tape.get_value()), pc + 1)
    } else if b == CMD_INPUT {
        (Action::Input, pc + 1)
    } else if b == CMD_OPEN && tape.get_value() == 0 {
        match find_matching_close(program, pc) {
            Some(j) => {
                proof {
                    let c = choose|j: int| matching_close(program@, pc as int, j);
                    assert(c == j as int);
                }
                (Action::Continue, j + 1)
            },
            None => (Action::UnmatchedOpen(pc), pc),
        }
    } else if b == CMD_CLOSE && tape.get_value() != 0 {
        match find_matching_open(program, pc) {
            Some(k) => {
                proof {
                    let c = choose|k: int| matching_open(program@, pc as int, k);
                    assert(c == k as int);
                }
                (Action::Continue, k + 1)
            },
            None => (Action::UnmatchedClose(pc), pc),
        }
    } else {
        (Action::Continue, pc + 1)
    }
}

/// Stores a byte read for an input instruction in the cell under the pointer;
/// the end of input stores zero.
pub fn store_input(tape: &mut Tape, byte: Option<u8>)
    requires
        old(tape).wf(),
    ensures
        final(tape).wf(),
        final(tape)@ == old(tape)@.with_value(
            match byte {
                Some(b) => b,
                None => 0,
            },
        ),
{
    tape.set_value(
        match byte {
            Some(b) => b,
            None => 0,
        },
    );
}

} // verus!
