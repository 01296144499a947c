//! In-memory byte streams: a source that is read front to back and a sink
//! that is appended to.

use crate::error::{BitwaveError, IoFailure};
use vstd::prelude::*;

verus! {

/// A sequential byte source over a buffer held in memory.
pub struct ByteSource {
    data: Vec<u8>,
    pos: usize,
}

impl ByteSource {
    #[verifier::type_invariant]
    spec fn in_bounds(self) -> bool {
        self.pos <= self.data@.len()
    }

    /// The number of bytes read so far.
    pub closed spec fn consumed(&self) -> nat {
        self.pos as nat
    }

    /// The bytes not yet read, in order.
    pub closed spec fn remaining(&self) -> Seq<u8> {
        self.data@.skip(self.pos as int)
    }

    /// Whether `self` is `before` with its next `taken` bytes read.
    pub open spec fn advanced_by(&self, before: &ByteSource, taken: nat) -> bool {
        &&& self.remaining() == before.remaining().skip(taken as int)
        &&& self.consumed() == before.consumed() + taken
    }

    /// A source that will yield `data` from its first byte.
    pub fn new(data: Vec<u8>) -> (source: Self)
        ensures
            source.consumed() == 0,
            source.remaining() == data@,
    {
        ByteSource { data, pos: 0 }
    }

    /// The number of bytes read so far.
    pub fn position(&self) -> (n: usize)
        ensures
            n == self.consumed(),
    {
        self.pos
    }

    /// The number of bytes not yet read.
    pub fn remaining_len(&self) -> (n: usize)
        ensures
            n == self.remaining().len(),
    {
        proof {
            use_type_invariant(self);
        }
        self.data.len() - self.pos
    }

    /// Reads exactly `count` bytes. Where fewer remain, the read fails with
    /// `UnexpectedEof` and the source is left drained.
    pub fn read_exact(&mut self, count: usize) -> (r: Result<Vec<u8>, BitwaveError>)
        ensures
            count <= old(self).remaining().len() ==> {
                &&& r is Ok
                &&& r->Ok_0@ == old(self).remaining().take(count as int)
                &&& final(self).advanced_by(old(self), count as nat)
            },
            count > old(self).remaining().len() ==> {
                &&& r == Err::<Vec<u8>, BitwaveError>(BitwaveError::Io(IoFailure::UnexpectedEof))
                &&& final(self).advanced_by(old(self), old(self).remaining().len())
            },
    {
        proof {
            use_type_invariant(&*self);
        }
        let total = self.data.len();
        if count > total - self.pos {
            self.pos = total;
            assert(self.remaining() =~= old(self).remaining().skip(old(self).remaining().len() as int));
            return Err(BitwaveError::Io(IoFailure::UnexpectedEof));
        }
        let start = self.pos;
        let mut out: Vec<u8> = Vec::new();
        let mut i: usize = 0;
        while i < count
            invariant
                i <= count,
                start + count <= total == self.data@.len(),
                out@ == self.data@.subrange(start as int, start + i),
            decreases count - i,
        {
            out.push(self.data[start + i]);
            i += 1;
        }
        self.pos = start + count;
        assert(self.remaining() =~= old(self).remaining().skip(count as int));
        assert(out@ =~= old(self).remaining().take(count as int));
        Ok(out)
    }

    /// Reads every byte that remains. Never fails: at the end of the source
    /// the result is empty.
    pub fn read_to_end(&mut self) -> (out: Vec<u8>)
        ensures
            out@ == old(self).remaining(),
            final(self).advanced_by(old(self), old(self).remaining().len()),
    {
        proof {
            use_type_invariant(&*self);
        }
        let start = self.pos;
        let end = self.data.len();
        let mut out: Vec<u8> = Vec::new();
        let mut i: usize = start;
        while i < end
            invariant
                start <= i <= end,
                end == self.data@.len(),
                out@ == self.data@.subrange(start as int, i as int),
            decreases end - i,
        {
            out.push(self.data[i]);
            i += 1;
        }
        self.pos = end;
        assert(self.remaining() =~= old(self).remaining().skip(old(self).remaining().len() as int));
        assert(out@ =~= old(self).remaining());
        out
    }
}

/// A sequential byte sink that holds what was written in memory, up to a
/// limit that it was made with.
pub struct ByteSink {
    held: Vec<u8>,
    limit: usize,
}

impl View for ByteSink {
    type V = Seq<u8>;

    /// The bytes written so far, in order.
    closed spec fn view(&self) -> Seq<u8> {
        self.held@
    }
}

impl ByteSink {
    #[verifier::type_invariant]
    spec fn within_limit(self) -> bool {
        self.held@.len() <= self.limit
    }

    /// The most bytes that the sink will ever hold.
    pub closed spec fn limit(&self) -> nat {
        self.limit as nat
    }

    /// The number of bytes that the sink can still take.
    pub open spec fn room(&self) -> nat {
        if self@.len() <= self.limit() {
            (self.limit() - self@.len()) as nat
        } else {
            0
        }
    }

    /// The part of `bytes` that an append takes: all of it where it fits,
    /// else the longest prefix that does.
    pub open spec fn accepted(&self, bytes: Seq<u8>) -> Seq<u8> {
        if bytes.len() <= self.room() {
            bytes
        } else {
            bytes.take(self.room() as int)
        }
    }

    /// What an append of `bytes` reports.
    pub open spec fn verdict(&self, bytes: Seq<u8>) -> Result<(), BitwaveError> {
        if bytes.len() <= self.room() {
            Ok(())
        } else {
            Err(BitwaveError::Io(IoFailure::WriteZero))
        }
    }

    /// Whether `self` and `r` are what an append of `bytes` to `before`
    /// leaves behind: the limit as it was, the accepted part of `bytes`
    /// after what was there, and the verdict.
    pub open spec fn follows(
        &self,
        before: &ByteSink,
        bytes: Seq<u8>,
        r: Result<(), BitwaveError>,
    ) -> bool {
        &&& self.limit() == before.limit()
        &&& self@ == before@ + before.accepted(bytes)
        &&& r == before.verdict(bytes)
    }

    /// An empty sink that takes as many bytes as memory can address.
    pub fn new() -> (sink: Self)
        ensures
            sink@ == Seq::<u8>::empty(),
            sink.limit() == usize::MAX,
    {
        ByteSink { held: Vec::new(), limit: usize::MAX }
    }

    /// An empty sink that takes at most `limit` bytes.
    pub fn with_limit(limit: usize) -> (sink: Self)
        ensures
            sink@ == Seq::<u8>::empty(),
            sink.limit() == limit,
    {
        ByteSink { held: Vec::new(), limit }
    }

    /// The number of bytes written so far.
    pub fn len(&self) -> (n: usize)
        ensures
            n == self@.len(),
            n <= self.limit(),
    {
        proof {
            use_type_invariant(self);
        }
        self.held.len()
    }

    /// The bytes written so far.
    pub fn as_slice(&self) -> (bytes: &[u8])
        ensures
            bytes@ == self@,
    {
        self.held.as_slice()
    }

    /// Gives up the sink for the bytes written to it.
    pub fn into_bytes(self) -> (bytes: Vec<u8>)
        ensures
            bytes@ == self@,
    {
        self.held
    }

    /// Appends `bytes`. Where they do not all fit under the limit, the sink
    /// takes the longest prefix that does and the write fails with
    /// `WriteZero`.
    pub fn write_all(&mut self, bytes: &[u8]) -> (r: Result<(), BitwaveError>)
        ensures
            final(self).follows(old(self), bytes@, r),
    {
        proof {
            use_type_invariant(&*self);
        }
        let room = self.limit - self.held.len();
        let fits = bytes.len() <= room;
        let count = if fits { bytes.len() } else { room };
        let mut held: Vec<u8> = Vec::new();
        core::mem::swap(&mut self.held, &mut held);
        let mut i: usize = 0;
        while i < count
            invariant
                i <= count <= bytes@.len(),
                held@ == old(self).held@ + bytes@.take(i as int),
            decreases count - i,
        {
            held.push(bytes[i]);
            i += 1;
        }
        self.held = held;
        if fits {
            assert(bytes@.take(count as int) == bytes@);
            Ok(())
        } else {
            Err(BitwaveError::Io(IoFailure::WriteZero))
        }
    }
}

/// Two reads in a row are one read of both lengths.
pub proof fn lemma_advance_chain(
    start: ByteSource,
    mid: ByteSource,
    end: ByteSource,
    first: nat,
    second: nat,
)
    requires
        mid.advanced_by(&start, first),
        end.advanced_by(&mid, second),
        first + second <= start.remaining().len(),
    ensures
        end.advanced_by(&start, first + second),
{
    assert(start.remaining().skip(first as int).skip(second as int) =~= start.remaining().skip(
        (first + second) as int,
    ));
}

/// Two appends in a row are one append of both runs of bytes: where the
/// first succeeds, the second decides; where the first fails, nothing of
/// the second would have been taken either.
pub proof fn lemma_append_chain(
    start: ByteSink,
    mid: ByteSink,
    end: ByteSink,
    first: Seq<u8>,
    second: Seq<u8>,
    r1: Result<(), BitwaveError>,
    r2: Result<(), BitwaveError>,
)
    requires
        mid.follows(&start, first, r1),
        r1 is Ok ==> end.follows(&mid, second, r2),
    ensures
        r1 is Ok ==> end.follows(&start, first + second, r2),
        r1 is Err ==> mid.follows(&start, first + second, r1),
{
    let room = start.room() as int;
    if r1 is Ok {
        assert(mid.room() == room - first.len());
        if second.len() <= mid.room() {
            assert(start@ + first + second =~= start@ + (first + second));
        } else {
            assert(start@ + first + second.take(mid.room() as int) =~= start@ + (first
                + second).take(room));
        }
    } else {
        assert(first.take(room) =~= (first + second).take(room));
    }
}

} // verus!
