use vstd::prelude::*;

verus! {

/// The error of a memory access outside the buffer.
#[derive(Debug, Clone, Copy, PartialEq, Eq, Structural)]
pub enum MemoryError {
    OutOfBounds,
}

/// A fixed-length, zero-initialised buffer of bytes.
#[derive(Debug)]
pub struct Memory {
    cells: Vec<u8>,
}

impl View for Memory {
    type V = Seq<u8>;

    closed spec fn view(&self) -> Seq<u8> {
        self.cells@
    }
}

impl Memory {
    /// A buffer of `size` cells, each zero.
    pub fn new(size: usize) -> (m: Self)
        ensures
            m@ == Seq::new(size as nat, |_i: int| 0u8),
    {
        let mut cells: Vec<u8> = Vec::with_capacity(size);
        let mut i: usize = 0;
        while i < size
            invariant
                i <= size,
                cells@ == Seq::new(i as nat, |_j: int| 0u8),
            decreases size - i,
        {
            cells.push(0);
            i = i + 1;
            assert(cells@ =~= Seq::new(i as nat, |_j: int| 0u8));
        }
        Memory { cells }
    }

    /// The number of cells, fixed at construction.
    pub fn len(&self) -> (n: usize)
        ensures
            n == self@.len(),
    {
        self.cells.len()
    }

    /// The byte at `index`.
    pub fn read(&self, index: usize) -> (r: Result<u8, MemoryError>)
        ensures
            index < self@.len() ==> r == Ok::<u8, MemoryError>(self@[index as int]),
            index >= self@.len() ==> r == Err::<u8, MemoryError>(MemoryError::OutOfBounds),
    {
        if index < self.cells.len() {
            Ok(self.cells[index])
        } else {
            Err(MemoryError::OutOfBounds)
        }
    }

    /// Stores `value` at `index`; the buffer keeps its length.
    pub fn write(&mut self, index: usize, value: u8) -> (r: Result<(), MemoryError>)
        ensures
            index < old(self)@.len() ==> r == Ok::<(), MemoryError>(()) && final(self)@ == old(
                self,
            )@.update(index as int, value),
            index >= old(self)@.len() ==> r == Err::<(), MemoryError>(MemoryError::OutOfBounds)
                && final(self)@ == old(self)@,
    {
        if index < self.cells.len() {
            self.cells.set(index, value);
            Ok(())
        } else {
            Err(MemoryError::OutOfBounds)
        }
    }
}

} // verus!
