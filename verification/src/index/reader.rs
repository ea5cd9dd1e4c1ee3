//! A pull-based reader over the serialised index.

use crate::index::line::{line_of, lines_of, push_line};
use crate::index::record::{ownerships, FileOwnershipRecord, Ownership};
use vstd::prelude::*;

verus! {

/// The state of a reader: the bytes already serialised and not yet handed
/// out, and the records still to be serialised.
pub ghost struct Pending {
    pub buffered: Seq<u8>,
    pub records: Seq<Ownership>,
}

impl Pending {
    /// Everything the reader will still hand out.
    pub open spec fn stream(self) -> Seq<u8> {
        self.buffered + lines_of(self.records)
    }

    /// The state after lines have been serialised into an empty buffer until
    /// it holds at least `want` bytes or no record is left.
    pub open spec fn filled(self, want: nat) -> Pending
        decreases self.records.len(),
    {
        if self.buffered.len() >= want || self.records.len() == 0 {
            self
        } else {
            Pending {
                buffered: self.buffered + line_of(self.records[0]),
                records: self.records.drop_first(),
            }.filled(want)
        }
    }

    /// The state from which a read of `want` bytes is served: a buffer that
    /// still holds bytes is served as it is, an empty one is filled first.
    pub open spec fn ready(self, want: nat) -> Pending {
        if self.buffered.len() > 0 {
            self
        } else {
            self.filled(want)
        }
    }

    /// The number of bytes that a read of `want` bytes hands out.
    pub open spec fn chunk_len(self, want: nat) -> nat {
        let ready = self.ready(want);
        if ready.buffered.len() <= want {
            ready.buffered.len()
        } else {
            want
        }
    }

    /// The bytes that a read of `want` bytes hands out.
    pub open spec fn chunk(self, want: nat) -> Seq<u8> {
        self.ready(want).buffered.take(self.chunk_len(want) as int)
    }

    /// The state after a read of `want` bytes.
    pub open spec fn after_read(self, want: nat) -> Pending {
        let ready = self.ready(want);
        Pending { buffered: ready.buffered.skip(self.chunk_len(want) as int), records: ready.records }
    }

    /// What comes out when the reader is read with chunks of `want` bytes
    /// until a read hands out nothing.
    pub open spec fn drained(self, want: nat) -> Seq<u8>
        decreases self.stream().len(),
        when want > 0
        via Self::drained_decreases
    {
        if self.chunk_len(want) == 0 {
            Seq::empty()
        } else {
            self.chunk(want) + self.after_read(want).drained(want)
        }
    }

    #[via_fn]
    proof fn drained_decreases(self, want: nat) {
        if self.chunk_len(want) != 0 {
            self.lemma_read_splits_stream(want);
        }
    }

    /// Filling the buffer changes nothing in what the reader will hand out.
    pub proof fn lemma_filled_keeps_stream(self, want: nat)
        ensures
            self.filled(want).stream() == self.stream(),
            self.filled(want).buffered.len() >= want || self.filled(want).records.len() == 0,
            self.buffered.len() <= self.filled(want).buffered.len(),
        decreases self.records.len(),
    {
        if self.buffered.len() >= want || self.records.len() == 0 {
        } else {
            let next = Pending {
                buffered: self.buffered + line_of(self.records[0]),
                records: self.records.drop_first(),
            };
            next.lemma_filled_keeps_stream(want);
            assert(next.stream() =~= self.stream());
        }
    }

    /// A read hands out a prefix of the stream and leaves the rest of it.
    pub proof fn lemma_read_splits_stream(self, want: nat)
        ensures
            self.chunk(want) + self.after_read(want).stream() == self.stream(),
            self.chunk(want).len() == self.chunk_len(want),
            self.chunk_len(want) <= want,
            self.chunk_len(want) == 0 <==> (want == 0 || self.stream().len() == 0),
    {
        let ready = self.ready(want);
        self.lemma_filled_keeps_stream(want);
        assert(ready.stream() == self.stream());
        let n = self.chunk_len(want) as int;
        assert(ready.buffered =~= ready.buffered.take(n) + ready.buffered.skip(n));
        assert(self.chunk(want) + self.after_read(want).stream() =~= ready.stream());
        if ready.buffered.len() == 0 && ready.records.len() == 0 {
            assert(lines_of(ready.records) =~= Seq::<u8>::empty());
        }
    }

    /// Reading to the end hands out exactly the stream, whatever the chunk
    /// size: the output does not depend on how it is asked for.
    pub proof fn lemma_drained_is_stream(self, want: nat)
        requires
            want > 0,
        ensures
            self.drained(want) == self.stream(),
        decreases self.stream().len(),
    {
        self.lemma_read_splits_stream(want);
        if self.chunk_len(want) == 0 {
            assert(self.stream() =~= Seq::<u8>::empty());
        } else {
            self.after_read(want).lemma_drained_is_stream(want);
        }
    }
}

/// Serialises index records lazily: lines are produced only as reads ask
/// for them, and each byte is handed out once.
pub struct ContentReader {
    buffer: Vec<u8>,
    records: Vec<FileOwnershipRecord>,
    next: usize,
}

impl View for ContentReader {
    type V = Pending;

    closed spec fn view(&self) -> Pending {
        Pending {
            buffered: self.buffer@,
            records: if self.next <= self.records@.len() {
                ownerships(self.records@).skip(self.next as int)
            } else {
                Seq::empty()
            },
        }
    }
}

impl ContentReader {
    /// A reader over the lines of `records`, in the order given.
    pub fn new(records: Vec<FileOwnershipRecord>) -> (reader: ContentReader)
        ensures
            reader@.buffered == Seq::<u8>::empty(),
            reader@.records == ownerships(records@),
            reader@.stream() == lines_of(ownerships(records@)),
    {
        let reader = ContentReader { buffer: Vec::new(), records, next: 0 };
        proof {
            assert(ownerships(records@).skip(0) =~= ownerships(records@));
            assert(reader@.stream() =~= lines_of(ownerships(records@)));
        }
        reader
    }

    /// Serialises lines into the buffer until it holds `want` bytes or the
    /// records are used up.
    fn fill(&mut self, want: usize)
        ensures
            final(self)@ == old(self)@.filled(want as nat),
    {
        while self.buffer.len() < want && self.next < self.records.len()
            invariant
                self@.filled(want as nat) == old(self)@.filled(want as nat),
            decreases self.records.len() - self.next,
        {
            let ghost before = self@;
            push_line(&mut self.buffer, &self.records[self.next]);
            self.next += 1;
            proof {
                assert(before.records[0] == self.records@[self.next - 1]@);
                assert(before.records.drop_first() =~= self@.records);
            }
        }
    }

    /// Copies the next bytes of the stream to the front of `buf` and returns
    /// how many they are; `0` for a non-empty `buf` means the end.
    ///
    /// A call that finds bytes left over from the call before hands out
    /// those, up to the size of `buf`; otherwise lines are serialised until
    /// `buf` can be filled or the records are used up.
    pub fn read(&mut self, buf: &mut [u8]) -> (n: usize)
        ensures
            n == old(self)@.chunk_len(old(buf)@.len()),
            final(self)@ == old(self)@.after_read(old(buf)@.len()),
            final(buf)@ == old(self)@.chunk(old(buf)@.len()) + old(buf)@.skip(n as int),
    {
        if self.buffer.len() == 0 {
            self.fill(buf.len());
        }
        let ghost ready = self@;
        let n = if self.buffer.len() <= buf.len() {
            self.buffer.len()
        } else {
            buf.len()
        };
        let mut i: usize = 0;
        while i < n
            invariant
                i <= n,
                n <= self.buffer.len(),
                n <= buf.len(),
                buf@.len() == old(buf)@.len(),
                self@ == ready,
                buf@ == ready.buffered.take(i as int) + old(buf)@.skip(i as int),
            decreases n - i,
        {
            buf[i] = self.buffer[i];
            proof {
                assert(buf@ =~= ready.buffered.take(i + 1) + old(buf)@.skip(i + 1));
            }
            i += 1;
        }
        let rest = self.buffer.len() - n;
        let mut k: usize = 0;
        while k < rest
            invariant
                k <= rest,
                rest + n == self.buffer.len(),
                self.buffer@.len() == ready.buffered.len(),
                self@.records == ready.records,
                forall|j: int| 0 <= j < k ==> self.buffer@[j] == ready.buffered[j + n],
                forall|j: int| k + n <= j < self.buffer@.len() ==> self.buffer@[j] == ready.buffered[j],
            decreases rest - k,
        {
            let b = self.buffer[k + n];
            self.buffer.set(k, b);
            k += 1;
        }
        self.buffer.truncate(rest);
        proof {
            assert(self@.buffered =~= ready.buffered.skip(n as int));
        }
        n
    }
}

} // verus!
