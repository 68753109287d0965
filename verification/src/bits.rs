//! The byte buffer viewed as an ordered sequence of bits.
//!
//! Bits are ordered least-significant first within each byte, bytes in
//! buffer order, so bit `i` of the stream is bit `i % 8` of byte `i / 8`.
//! The buffer itself is borrowed and never mutated; restarting the stream
//! means constructing a fresh view over the same buffer.

use vstd::prelude::*;

verus! {

/// Number of bits carried by a byte buffer.
pub open spec fn num_bits(data: Seq<u8>) -> int {
    8 * data.len() as int
}

/// The value of bit `i` of the stream: bit `i % 8` of byte `i / 8`.
pub open spec fn bit_of(data: Seq<u8>, i: int) -> bool
    recommends
        0 <= i < num_bits(data),
{
    (data[i / 8] >> ((i % 8) as u8)) & 1 == 1
}

/// Reads one bit of the buffer by index.
pub fn bit_at(data: &[u8], index: usize) -> (b: bool)
    requires
        index < num_bits(data@),
    ensures
        b == bit_of(data@, index as int),
{
    let byte = data[index / 8];
    (byte >> ((index % 8) as u8)) & 1 == 1
}

/// A finite, non-restartable cursor over the bits of a borrowed buffer.
pub struct BitSequence<'a> {
    data: &'a [u8],
    index: usize,
}

impl<'a> BitSequence<'a> {
    /// The underlying bytes.
    pub closed spec fn spec_data(self) -> Seq<u8> {
        self.data@
    }

    /// How many bits have been consumed.
    pub closed spec fn spec_index(self) -> int {
        self.index as int
    }

    /// The cursor never runs past the final bit, and the bit count fits the
    /// machine.
    pub open spec fn wf(self) -> bool {
        &&& self.spec_index() <= num_bits(self.spec_data())
        &&& self.spec_data().len() * 8 <= usize::MAX
    }

    /// A fresh stream positioned at the first bit.
    pub fn new(data: &'a [u8]) -> (s: Self)
        requires
            data@.len() * 8 <= usize::MAX,
        ensures
            s.wf(),
            s.spec_data() == data@,
            s.spec_index() == 0,
    {
        BitSequence { data, index: 0 }
    }

    /// Bits left to consume.
    pub fn remaining(&self) -> (n: usize)
        requires
            self.wf(),
        ensures
            n == num_bits(self.spec_data()) - self.spec_index(),
    {
        self.data.len() * 8 - self.index
    }

    /// The next bit, or `None` once every bit has been consumed.
    pub fn next(&mut self) -> (b: Option<bool>)
        requires
            old(self).wf(),
        ensures
            final(self).wf(),
            final(self).spec_data() == old(self).spec_data(),
            b is None <==> old(self).spec_index() == num_bits(old(self).spec_data()),
            b is None ==> final(self).spec_index() == old(self).spec_index(),
            b is Some ==> {
                &&& final(self).spec_index() == old(self).spec_index() + 1
                &&& b->0 == bit_of(old(self).spec_data(), old(self).spec_index())
            },
    {
        if self.index == self.data.len() * 8 {
            None
        } else {
            let b = bit_at(self.data, self.index);
            self.index = self.index + 1;
            Some(b)
        }
    }
}

} // verus!
