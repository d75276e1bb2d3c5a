use vstd::prelude::*;

verus! {

/// `mem` extended with zero bytes until it holds at least `n` of them.
pub open spec fn grown(mem: Seq<u8>, n: nat) -> Seq<u8> {
    if n <= mem.len() {
        mem
    } else {
        mem + Seq::new((n - mem.len()) as nat, |_i: int| 0u8)
    }
}

/// The byte that a lazily zero-filled buffer `mem` holds at offset `o`.
pub open spec fn cell_of(mem: Seq<u8>, o: int) -> u8 {
    if 0 <= o < mem.len() {
        mem[o]
    } else {
        0
    }
}

/// Growing a buffer with zeros changes none of the cells it stands for.
pub proof fn lemma_grown_cells(mem: Seq<u8>, n: nat)
    ensures
        grown(mem, n).len() == if n <= mem.len() { mem.len() } else { n },
        forall|o: int| #[trigger] cell_of(grown(mem, n), o) == cell_of(mem, o),
{
}

/// One side of a tape: a byte buffer that only grows, with zero bytes, and a
/// pointer into it.
#[derive(Debug, Clone)]
pub struct HalfTape {
    memory: Vec<u8>,
    pointer: usize,
}

impl HalfTape {
    /// The bytes the buffer holds.
    pub closed spec fn memory_view(&self) -> Seq<u8> {
        self.memory@
    }

    /// The pointer, as an offset from this half's origin.
    pub closed spec fn offset(&self) -> nat {
        self.pointer as nat
    }

    /// The pointer always stands on a byte of the buffer.
    pub open spec fn wf(&self) -> bool {
        self.offset() < self.memory_view().len()
    }

    /// The byte at offset `o`; offsets past the buffer read as zero.
    pub open spec fn value_at(&self, o: int) -> u8 {
        cell_of(self.memory_view(), o)
    }

    /// The byte under the pointer.
    pub open spec fn current(&self) -> u8 {
        self.memory_view()[self.offset() as int]
    }

    /// A half holding one zero byte, with the pointer on it.
    pub fn new() -> (r: HalfTape)
        ensures
            r.wf(),
            r.offset() == 0,
            r.memory_view() == seq![0u8],
    {
        HalfTape { memory: vec![0u8], pointer: 0 }
    }

    pub fn get_pointer(&self) -> (r: usize)
        ensures
            r as nat == self.offset(),
    {
        self.pointer
    }

    /// Puts the pointer at offset `to`, growing the buffer with zeros to reach it.
    pub fn move_pointer_to(&mut self, to: usize)
        requires
            old(self).wf(),
            to < usize::MAX,
        ensures
            final(self).wf(),
            final(self).offset() == to,
            final(self).memory_view() == grown(old(self).memory_view(), to as nat + 1),
    {
        self.pointer = to;
        self.expand_memory_if_required();
    }

    /// Moves the pointer by `by`, growing the buffer with zeros to reach it.
    /// A move below offset zero, or to the largest `usize`, is the caller's
    /// error and is ruled out.
    pub fn move_pointer_by(&mut self, by: i128)
        requires
            old(self).wf(),
            0 <= old(self).offset() + by < usize::MAX,
        ensures
            final(self).wf(),
            final(self).offset() == old(self).offset() + by,
            final(self).memory_view() == grown(
                old(self).memory_view(),
                (old(self).offset() + by + 1) as nat,
            ),
    {
        self.pointer = (self.pointer as i128 + by) as usize;
        self.expand_memory_if_required();
    }

    pub fn get_value(&mut self) -> (r: u8)
        requires
            old(self).wf(),
        ensures
            r == old(self).current(),
            *final(self) == *old(self),
    {
        *self.get_ref()
    }

    pub fn set_value(&mut self, value: u8)
        requires
            old(self).wf(),
        ensures
            final(self).wf(),
            final(self).offset() == old(self).offset(),
            final(self).memory_view() == old(self).memory_view().update(
                old(self).offset() as int,
                value,
            ),
    {
        *self.get_mut_ref() = value;
    }

    /// Adds `by` to the byte under the pointer, modulo 256.
    pub fn increment_value(&mut self, by: u8)
        requires
            old(self).wf(),
        ensures
            final(self).wf(),
            final(self).offset() == old(self).offset(),
            final(self).memory_view() == old(self).memory_view().update(
                old(self).offset() as int,
                ((old(self).current() + by) % 256) as u8,
            ),
    {
        let v = self.get_value().wrapping_add(by);
        *self.get_mut_ref() = v;
    }

    /// Subtracts `by` from the byte under the pointer, modulo 256.
    pub fn decrement_value(&mut self, by: u8)
        requires
            old(self).wf(),
        ensures
            final(self).wf(),
            final(self).offset() == old(self).offset(),
            final(self).memory_view() == old(self).memory_view().update(
                old(self).offset() as int,
                ((old(self).current() - by) % 256) as u8,
            ),
    {
        let v = self.get_value().wrapping_sub(by);
        *self.get_mut_ref() = v;
    }

    fn get_ref(&self) -> (r: &u8)
        requires
            self.wf(),
        ensures
            *r == self.current(),
    {
        &self.memory[self.pointer]
    }

    fn get_mut_ref(&mut self) -> (r: &mut u8)
        requires
            old(self).wf(),
        ensures
            *r == old(self).current(),
            final(self).pointer == old(self).pointer,
            final(self).memory@ == old(self).memory@.update(old(self).pointer as int, *final(r)),
    {
        &mut self.memory[self.pointer]
    }

    /// Appends zero bytes until the buffer reaches the pointer.
    fn expand_memory_if_required(&mut self)
        requires
            old(self).pointer < usize::MAX,
        ensures
            final(self).pointer == old(self).pointer,
            final(self).memory@ == grown(old(self).memory@, old(self).pointer as nat + 1),
    {
        let bytes_required: usize = self.pointer + 1;
        let ghost start = self.memory@;
        while self.memory.len() < bytes_required
            invariant
                self.pointer == old(self).pointer,
                bytes_required == self.pointer + 1,
                start == old(self).memory@,
                start.len() <= self.memory@.len(),
                self.memory@.len() <= bytes_required || self.memory@ == start,
                self.memory@.subrange(0, start.len() as int) == start,
                forall|i: int|
                    start.len() <= i < self.memory@.len() ==> #[trigger] self.memory@[i] == 0u8,
            decreases bytes_required - self.memory@.len(),
        {
            self.memory.push(0u8);
        }
        assert(self.memory@ =~= grown(start, bytes_required as nat));
    }
}

} // verus!
