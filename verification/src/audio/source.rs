//! The memory-backed container source: a pull-based byte stream over a buffer
//! that is already in memory.

use vstd::prelude::*;

verus! {

/// What one read produced.
#[derive(Debug, Clone, Copy, PartialEq, Eq, Structural)]
pub enum ReadOutcome {
    /// This many bytes were copied to the front of the caller's buffer.
    Bytes(usize),
    /// The input is exhausted; nothing was copied.
    EndOfInput,
}

/// The source as a mathematical value: the input and how much of it was handed out.
pub struct SourceModel {
    pub data: Seq<u8>,
    pub position: nat,
}

impl SourceModel {
    /// The bytes not handed out yet.
    pub open spec fn remaining(self) -> Seq<u8> {
        self.data.skip(self.position as int)
    }

    /// How many bytes a read into a buffer of `capacity` bytes copies.
    pub open spec fn chunk(self, capacity: nat) -> nat {
        if capacity <= self.data.len() - self.position {
            capacity
        } else {
            (self.data.len() - self.position) as nat
        }
    }
}

/// Reads a byte buffer front to back. The buffer is never changed; a read
/// never blocks, allocates nothing, and cannot seek.
pub struct MemorySource {
    data: Vec<u8>,
    position: usize,
}

impl View for MemorySource {
    type V = SourceModel;

    closed spec fn view(&self) -> SourceModel {
        SourceModel { data: self.data@, position: self.position as nat }
    }
}

impl MemorySource {
    #[verifier::type_invariant]
    spec fn inv(self) -> bool {
        self.position <= self.data@.len()
    }

    /// A source at the start of `data`.
    pub fn new(data: Vec<u8>) -> (source: MemorySource)
        ensures
            source@.data == data@,
            source@.position == 0,
    {
        MemorySource { data, position: 0 }
    }

    /// The number of bytes not handed out yet.
    pub fn remaining(&self) -> (n: usize)
        ensures
            n == self@.remaining().len(),
            self@.position <= self@.data.len(),
    {
        proof {
            use_type_invariant(self);
        }
        self.data.len() - self.position
    }

    /// Fills the front of `buffer` with the next bytes of the input.
    ///
    /// With input left, as many bytes as fit are copied, the rest of the buffer
    /// keeps its content, and the count is returned. With none left the result
    /// is `EndOfInput`, now and on every later call, and nothing changes.
    pub fn read(&mut self, buffer: &mut [u8]) -> (outcome: ReadOutcome)
        ensures
            final(self)@.data == old(self)@.data,
            final(buffer)@.len() == old(buffer)@.len(),
            old(self)@.remaining().len() == 0 ==> outcome == ReadOutcome::EndOfInput
                && final(self)@ == old(self)@ && final(buffer)@ == old(buffer)@,
            old(self)@.remaining().len() > 0 ==> ({
                let n = old(self)@.chunk(old(buffer)@.len());
                &&& outcome == ReadOutcome::Bytes(n as usize)
                &&& final(self)@.position == old(self)@.position + n
                &&& final(buffer)@ == old(self)@.remaining().take(n as int) + old(buffer)@.skip(
                    n as int,
                )
            }),
    {
        proof {
            use_type_invariant(&*self);
        }
        let available = self.data.len() - self.position;
        if available == 0 {
            return ReadOutcome::EndOfInput;
        }
        let n = if buffer.len() <= available {
            buffer.len()
        } else {
            available
        };
        let start = self.position;
        let mut i: usize = 0;
        while i < n
            invariant
                i <= n,
                n <= buffer@.len(),
                start + n <= self.data@.len() <= usize::MAX,
                self.position == start,
                self.data@ == old(self).data@,
                buffer@.len() == old(buffer)@.len(),
                forall|j: int| 0 <= j < i ==> buffer@[j] == self.data@[start + j],
                forall|j: int| i <= j < buffer@.len() ==> buffer@[j] == old(buffer)@[j],
            decreases n - i,
        {
            buffer[i] = self.data[start + i];
            i += 1;
        }
        self.position = start + n;
        proof {
            assert(buffer@ =~= old(self)@.remaining().take(n as int) + old(buffer)@.skip(n as int));
        }
        ReadOutcome::Bytes(n)
    }
}

} // verus!
