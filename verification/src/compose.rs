//! Buffer composition: draining finished sample segments into fixed-size
//! destination buffers.
//!
//! An audio callback hands over a destination buffer of whatever size the
//! device chose; the engine's output arrives as finite sample segments. A
//! [`WaveReader`] is a read cursor over one segment, a [`WaveWriter`] a fill
//! cursor over one destination. [`WaveWriter::batch_write`] concatenates the
//! pending segments into the destination in order, truncating the batch the
//! moment the destination fills and skipping empty segments, so neither
//! phase continuity nor bit alignment is lost between callbacks.

use vstd::prelude::*;
use vstd::slice::slice_subrange;

verus! {

/// Flow-control outcome of a write: these are signals for the caller, not
/// errors, and must be acted on, never discarded.
#[must_use]
#[derive(Clone, Copy, Debug, PartialEq, Eq, Structural)]
pub enum WriteStatus {
    /// The destination buffer is at capacity.
    Full,
    /// The destination buffer has this many slots still free.
    Remaining(usize),
}

/// A single-use read cursor over a finite, borrowed sample segment.
#[derive(Clone, Copy)]
pub struct WaveReader<'m> {
    buffer: &'m [i16],
    pos: usize,
}

impl<'m> WaveReader<'m> {
    /// The whole underlying segment.
    pub closed spec fn spec_buffer(self) -> Seq<i16> {
        self.buffer@
    }

    /// How many samples have been consumed.
    pub closed spec fn spec_pos(self) -> int {
        self.pos as int
    }

    /// The cursor never runs past the segment end.
    pub open spec fn wf(self) -> bool {
        self.spec_pos() <= self.spec_buffer().len()
    }

    /// The samples not yet consumed.
    pub open spec fn rest(self) -> Seq<i16> {
        self.spec_buffer().skip(self.spec_pos())
    }

    /// A fresh cursor at the start of `buffer`.
    pub fn new(buffer: &'m [i16]) -> (r: WaveReader<'m>)
        ensures
            r.wf(),
            r.spec_buffer() == buffer@,
            r.spec_pos() == 0,
    {
        WaveReader { buffer, pos: 0 }
    }

    /// Samples left to read.
    pub fn remaining(&self) -> (n: usize)
        requires
            self.wf(),
        ensures
            n == self.rest().len(),
    {
        self.buffer.len() - self.pos
    }

    /// Up to `size` samples starting at the cursor — fewer exactly when
    /// fewer remain — advancing the cursor by what was returned. Never
    /// fails: at the segment end it returns an empty slice.
    pub fn read(&mut self, size: usize) -> (out: &'m [i16])
        requires
            old(self).wf(),
        ensures
            final(self).wf(),
            final(self).spec_buffer() == old(self).spec_buffer(),
            out@ == old(self).rest().take(vstd::math::min(size as int, old(self).rest().len() as int)),
            final(self).spec_pos() == old(self).spec_pos() + out@.len(),
    {
        if size > self.buffer.len() - self.pos {
            let out = slice_subrange(self.buffer, self.pos, self.buffer.len());
            self.pos = self.buffer.len();
            proof {
                assert(out@ =~= old(self).rest().take(old(self).rest().len() as int));
            }
            out
        } else {
            let stop = self.pos + size;
            let out = slice_subrange(self.buffer, self.pos, stop);
            self.pos = stop;
            proof {
                assert(out@ =~= old(self).rest().take(size as int));
            }
            out
        }
    }
}

/// What each pending segment contributes to a batch with `space` free
/// slots: segments are visited in order, and each yields as much of its
/// rest as still fits.
pub open spec fn batch_amounts(rests: Seq<Seq<i16>>, space: int) -> Seq<int>
    recommends
        0 <= space,
    decreases rests.len(),
{
    if rests.len() == 0 {
        Seq::empty()
    } else {
        let first = vstd::math::min(rests[0].len() as int, space);
        seq![first] + batch_amounts(rests.skip(1), space - first)
    }
}

/// The samples a batch writes: the in-order concatenation of every
/// segment's rest, truncated to `space`.
pub open spec fn batch_data(rests: Seq<Seq<i16>>, space: int) -> Seq<i16>
    recommends
        0 <= space,
    decreases rests.len(),
{
    if rests.len() == 0 {
        Seq::empty()
    } else {
        let first = vstd::math::min(rests[0].len() as int, space);
        rests[0].take(first) + batch_data(rests.skip(1), space - first)
    }
}

/// One amount per segment.
proof fn lemma_batch_amounts_len(rests: Seq<Seq<i16>>, space: int)
    ensures
        batch_amounts(rests, space).len() == rests.len(),
    decreases rests.len(),
{
    if rests.len() > 0 {
        let first = vstd::math::min(rests[0].len() as int, space);
        lemma_batch_amounts_len(rests.skip(1), space - first);
    }
}

/// With no free space a batch writes nothing and consumes nothing.
proof fn lemma_batch_zero_space(rests: Seq<Seq<i16>>)
    ensures
        batch_data(rests, 0) == Seq::<i16>::empty(),
        batch_amounts(rests, 0).len() == rests.len(),
        forall|t: int| 0 <= t < rests.len() ==> batch_amounts(rests, 0)[t] == 0,
    decreases rests.len(),
{
    if rests.len() == 0 {
        assert(batch_data(rests, 0) =~= Seq::<i16>::empty());
    } else {
        lemma_batch_zero_space(rests.skip(1));
        assert(rests[0].take(0) =~= Seq::<i16>::empty());
        assert(batch_data(rests, 0) =~= Seq::<i16>::empty());
        assert forall|t: int| 0 <= t < rests.len() implies batch_amounts(rests, 0)[t] == 0 by {
            if t > 0 {
                assert(batch_amounts(rests, 0)[t] == batch_amounts(rests.skip(1), 0)[t - 1]);
            }
        }
    }
}

/// A single-use fill cursor over a fixed-capacity destination buffer.
pub struct WaveWriter {
    buffer: Vec<i16>,
    pos: usize,
}

impl WaveWriter {
    /// The destination buffer contents.
    pub closed spec fn spec_buffer(self) -> Seq<i16> {
        self.buffer@
    }

    /// How many slots have been filled.
    pub closed spec fn spec_pos(self) -> int {
        self.pos as int
    }

    /// The cursor never runs past the destination capacity.
    pub open spec fn wf(self) -> bool {
        self.spec_pos() <= self.spec_buffer().len()
    }

    /// Slots still free.
    pub open spec fn spec_remaining(self) -> int {
        self.spec_buffer().len() - self.spec_pos()
    }

    /// A writer over a zeroed destination of `capacity` slots.
    pub fn with_capacity(capacity: usize) -> (w: WaveWriter)
        ensures
            w.wf(),
            w.spec_pos() == 0,
            w.spec_buffer().len() == capacity,
            forall|i: int| 0 <= i < capacity ==> w.spec_buffer()[i] == 0,
    {
        let buffer: Vec<i16> = vec![0i16; capacity];
        WaveWriter { buffer, pos: 0 }
    }

    /// Slots still free.
    pub fn remaining(&self) -> (n: usize)
        requires
            self.wf(),
        ensures
            n == self.spec_remaining(),
    {
        self.buffer.len() - self.pos
    }

    /// Hands the destination buffer back once filling is done.
    pub fn into_buffer(self) -> (v: Vec<i16>)
        ensures
            v@ == self.spec_buffer(),
    {
        self.buffer
    }

    /// The status a writer reports after an operation.
    fn status(&self) -> (s: WriteStatus)
        requires
            self.wf(),
        ensures
            s == (if self.spec_remaining() == 0 {
                WriteStatus::Full
            } else {
                WriteStatus::Remaining(self.spec_remaining() as usize)
            }),
    {
        let n = self.buffer.len() - self.pos;
        if n == 0 {
            WriteStatus::Full
        } else {
            WriteStatus::Remaining(n)
        }
    }

    /// Copies `min(free slots, reader's rest)` samples from the reader into
    /// the destination, advancing both cursors by that amount, and reports
    /// whether the destination is now full.
    pub fn write(&mut self, reader: &mut WaveReader<'_>) -> (status: WriteStatus)
        requires
            old(self).wf(),
            old(reader).wf(),
        ensures
            final(self).wf(),
            final(reader).wf(),
            final(reader).spec_buffer() == old(reader).spec_buffer(),
            final(self).spec_buffer().len() == old(self).spec_buffer().len(),
            ({
                let m = vstd::math::min(old(self).spec_remaining(), old(reader).rest().len() as int);
                &&& final(self).spec_pos() == old(self).spec_pos() + m
                &&& final(reader).spec_pos() == old(reader).spec_pos() + m
                &&& forall|t: int|
                    0 <= t < m ==> final(self).spec_buffer()[old(self).spec_pos() + t] == old(
                        reader,
                    ).rest()[t]
                &&& forall|t: int|
                    (0 <= t < old(self).spec_pos() || old(self).spec_pos() + m <= t < old(
                        self,
                    ).spec_buffer().len()) ==> final(self).spec_buffer()[t] == old(
                        self,
                    ).spec_buffer()[t]
            }),
            status == (if final(self).spec_remaining() == 0 {
                WriteStatus::Full
            } else {
                WriteStatus::Remaining(final(self).spec_remaining() as usize)
            }),
    {
        let free = self.buffer.len() - self.pos;
        let data = reader.read(free);
        let mut i: usize = 0;
        while i < data.len()
            invariant
                i <= data@.len(),
                data@.len() <= old(self).spec_remaining(),
                self.pos == old(self).spec_pos(),
                self.buffer@.len() <= usize::MAX,
                self.buffer@.len() == old(self).spec_buffer().len(),
                self.pos + data@.len() <= self.buffer@.len(),
                forall|t: int| 0 <= t < i ==> self.buffer@[self.pos + t] == data@[t],
                forall|t: int|
                    (0 <= t < self.pos || self.pos + i <= t < self.buffer@.len())
                        ==> self.buffer@[t] == old(self).spec_buffer()[t],
            decreases data@.len() - i,
        {
            let v = data[i];
            self.buffer.set(self.pos + i, v);
            i = i + 1;
        }
        proof {
            let m = vstd::math::min(old(self).spec_remaining(), old(reader).rest().len() as int);
            assert(data@.len() == m);
            assert forall|t: int| 0 <= t < m implies self.buffer@[old(self).spec_pos() + t] == old(
                reader,
            ).rest()[t] by {
                assert(data@[t] == old(reader).rest().take(m)[t]);
            }
        }
        self.pos = self.pos + data.len();
        self.status()
    }

    /// Concatenates the pending segments into the destination in order:
    /// an empty segment is skipped, every other segment yields as much of
    /// its rest as still fits, and the whole batch stops the moment the
    /// destination fills. Reports whether it did.
    pub fn batch_write<'m>(&mut self, readers: &mut Vec<WaveReader<'m>>) -> (status: WriteStatus)
        requires
            old(self).wf(),
            forall|t: int| 0 <= t < old(readers)@.len() ==> (#[trigger] old(readers)@[t]).wf(),
        ensures
            final(self).wf(),
            final(self).spec_buffer().len() == old(self).spec_buffer().len(),
            final(readers)@.len() == old(readers)@.len(),
            ({
                let rests = Seq::new(old(readers)@.len(), |t: int| old(readers)@[t].rest());
                let data = batch_data(rests, old(self).spec_remaining());
                let amounts = batch_amounts(rests, old(self).spec_remaining());
                &&& final(self).spec_pos() == old(self).spec_pos() + data.len()
                &&& forall|t: int|
                    0 <= t < data.len() ==> final(self).spec_buffer()[old(self).spec_pos() + t]
                        == data[t]
                &&& forall|t: int|
                    (0 <= t < old(self).spec_pos() || old(self).spec_pos() + data.len() <= t < old(
                        self,
                    ).spec_buffer().len()) ==> final(self).spec_buffer()[t] == old(
                        self,
                    ).spec_buffer()[t]
                &&& forall|t: int|
                    0 <= t < old(readers)@.len() ==> {
                        &&& (#[trigger] final(readers)@[t]).wf()
                        &&& final(readers)@[t].spec_buffer() == old(readers)@[t].spec_buffer()
                        &&& final(readers)@[t].spec_pos() == old(readers)@[t].spec_pos()
                            + amounts[t]
                    }
            }),
            status == (if final(self).spec_remaining() == 0 {
                WriteStatus::Full
            } else {
                WriteStatus::Remaining(final(self).spec_remaining() as usize)
            }),
    {
        let ghost rests = Seq::new(old(readers)@.len(), |t: int| old(readers)@[t].rest());
        let ghost space0 = old(self).spec_remaining();
        let ghost amounts = batch_amounts(rests, space0);
        let ghost pos0 = old(self).spec_pos();
        proof {
            lemma_batch_amounts_len(rests, space0);
            assert(rests.skip(0) =~= rests);
            assert(amounts.skip(0) =~= amounts);
            assert(self.buffer@.subrange(pos0, pos0) =~= Seq::<i16>::empty());
            assert(batch_data(rests, space0) =~= self.buffer@.subrange(pos0, pos0) + batch_data(
                rests.skip(0),
                space0,
            ));
        }
        let mut j: usize = 0;
        while j < readers.len() && self.pos < self.buffer.len()
            invariant
                j <= readers@.len(),
                readers@.len() == old(readers)@.len(),
                forall|t: int| 0 <= t < old(readers)@.len() ==> (#[trigger] old(readers)@[t]).wf(),
                rests == Seq::new(old(readers)@.len(), |t: int| old(readers)@[t].rest()),
                space0 == old(self).spec_remaining(),
                pos0 == old(self).spec_pos(),
                amounts == batch_amounts(rests, space0),
                amounts.len() == rests.len(),
                self.wf(),
                self.buffer@.len() == old(self).spec_buffer().len(),
                pos0 <= self.pos,
                forall|t: int|
                    (0 <= t < pos0 || self.pos <= t < self.buffer@.len()) ==> self.buffer@[t]
                        == old(self).spec_buffer()[t],
                amounts.skip(j as int) == batch_amounts(rests.skip(j as int), self.spec_remaining()),
                batch_data(rests, space0) == self.buffer@.subrange(pos0, self.pos as int)
                    + batch_data(rests.skip(j as int), self.spec_remaining()),
                forall|t: int| j <= t < readers@.len() ==> readers@[t] == old(readers)@[t],
                forall|t: int|
                    0 <= t < j ==> {
                        &&& (#[trigger] readers@[t]).wf()
                        &&& readers@[t].spec_buffer() == old(readers)@[t].spec_buffer()
                        &&& readers@[t].spec_pos() == old(readers)@[t].spec_pos() + amounts[t]
                    },
            decreases readers@.len() - j,
        {
            let ghost readers_before = readers@;
            let ghost self_before = *self;
            let ghost space_j = self.spec_remaining();
            let ghost tail = rests.skip(j as int);
            let ghost first = vstd::math::min(tail[0].len() as int, space_j);
            let mut r = readers[j];
            proof {
                assert(readers@[j as int] == old(readers)@[j as int]);
                assert(tail[0] == rests[j as int]);
                assert(rests[j as int] == old(readers)@[j as int].rest());
                assert(r.rest() == tail[0]);
                // one unfolding of the batch at this segment
                assert(batch_amounts(tail, space_j) == seq![first] + batch_amounts(
                    tail.skip(1),
                    space_j - first,
                ));
                assert(batch_data(tail, space_j) == tail[0].take(first) + batch_data(
                    tail.skip(1),
                    space_j - first,
                ));
                assert(tail.skip(1) =~= rests.skip(j as int + 1));
                assert(amounts[j as int] == amounts.skip(j as int)[0]);
                assert(amounts[j as int] == first);
            }
            if r.remaining() > 0 {
                let _ = self.write(&mut r);
                proof {
                    assert(first == vstd::math::min(space_j, tail[0].len() as int));
                }
            } else {
                proof {
                    assert(first == 0);
                    assert(tail[0].take(0) =~= Seq::<i16>::empty());
                }
            }
            readers.set(j, r);
            proof {
                // segment written equals the first contribution
                assert(r.spec_pos() == readers_before[j as int].spec_pos() + first);
                assert(self.buffer@.subrange(pos0, self.pos as int) =~= self_before
                    .buffer@.subrange(pos0, self_before.pos as int) + tail[0].take(first));
                // the two recursion equations advance to j + 1
                assert(amounts.skip(j as int + 1) =~= amounts.skip(j as int).skip(1));
                assert((seq![first] + batch_amounts(tail.skip(1), space_j - first)).skip(1)
                    =~= batch_amounts(tail.skip(1), space_j - first));
                assert(batch_data(rests, space0) == self.buffer@.subrange(pos0, self.pos as int)
                    + batch_data(rests.skip(j as int + 1), self.spec_remaining()));
            }
            j = j + 1;
        }
        proof {
            let tail = rests.skip(j as int);
            if j < readers.len() {
                // the destination filled up: the tail contributes nothing
                lemma_batch_zero_space(tail);
                assert forall|t: int| j <= t < readers@.len() implies readers@[t].spec_pos()
                    == old(readers)@[t].spec_pos() + amounts[t] by {
                    assert(amounts[t] == amounts.skip(j as int)[t - j]);
                    assert(amounts.skip(j as int)[t - j] == 0);
                }
            } else {
                assert(tail =~= Seq::<Seq<i16>>::empty());
                assert(batch_data(tail, self.spec_remaining()) =~= Seq::<i16>::empty());
                assert(batch_amounts(tail, self.spec_remaining()) =~= Seq::<int>::empty());
            }
            let data = batch_data(rests, space0);
            assert(data =~= self.buffer@.subrange(pos0, self.pos as int));
            assert forall|t: int| 0 <= t < data.len() implies self.buffer@[pos0 + t] == data[t] by {
                assert(data[t] == self.buffer@.subrange(pos0, self.pos as int)[t]);
            }
        }
        self.status()
    }
}

} // verus!
