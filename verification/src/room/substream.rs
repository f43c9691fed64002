//! A seekable reader over a track's header pages plus a tail of the same buffer.

use std::ops::Range;
use std::sync::Arc;
use vstd::prelude::*;

verus! {

/// A position to seek to, as in `std::io::SeekFrom`.
#[derive(Clone, Copy, PartialEq, Eq, Debug)]
pub enum SeekFrom {
    Start(u64),
    End(i64),
    Current(i64),
}

/// A seek that would land before the first byte.
#[derive(Clone, Copy, PartialEq, Eq, Structural, Debug)]
pub struct SeekBeforeStart;

/// The bytes of a buffer that a range covers; none where it ends before it
/// begins.
pub open spec fn run(data: Seq<u8>, range: Range<usize>) -> Seq<u8> {
    if range.start < range.end {
        data.subrange(range.start as int, range.end as int)
    } else {
        Seq::empty()
    }
}

/// Whether the bytes that a range covers lie in a buffer of `len` bytes.
pub open spec fn covers(len: nat, range: Range<usize>) -> bool {
    range.start < range.end ==> range.end <= len
}

/// How many bytes a range covers.
fn run_len(range: &Range<usize>) -> (n: usize)
    ensures
        forall|data: Seq<u8>|
            covers(data.len(), *range) ==> n == #[trigger] run(data, *range).len(),
        n == 0 <==> range.start >= range.end,
{
    if range.start < range.end {
        range.end - range.start
    } else {
        0
    }
}

/// A view over two runs of one shared buffer, read as if they were one file.
pub struct Substream {
    data: Arc<Vec<u8>>,
    header: Range<usize>,
    tail: Range<usize>,
    pos: u64,
}

impl Substream {
    /// Both runs lie in the buffer, and the playhead lies in the two of them.
    #[verifier::type_invariant]
    spec fn wf(self) -> bool {
        &&& covers(self.data@.len(), self.header)
        &&& covers(self.data@.len(), self.tail)
        &&& self.content().len() <= usize::MAX
        &&& self.pos <= self.content().len()
    }

    /// The bytes that the reader yields from first to last.
    pub closed spec fn content(self) -> Seq<u8> {
        run(self.data@, self.header) + run(self.data@, self.tail)
    }

    /// How many of those bytes are headers.
    pub closed spec fn header_len(self) -> int {
        run(self.data@, self.header).len() as int
    }

    /// How many bytes lie before the playhead.
    pub closed spec fn position(self) -> int {
        self.pos as int
    }

    /// The buffer that the reader shares.
    pub closed spec fn buffer(self) -> Seq<u8> {
        self.data@
    }

    /// A reader at the first byte of `header` followed by `tail`.
    pub fn new(data: Arc<Vec<u8>>, header: Range<usize>, tail: Range<usize>) -> (s: Substream)
        requires
            covers(data@.len(), header),
            covers(data@.len(), tail),
            run(data@, header).len() + run(data@, tail).len() <= usize::MAX,
        ensures
            s.content() == run(data@, header) + run(data@, tail),
            s.header_len() == run(data@, header).len(),
            s.position() == 0,
            s.buffer() == data@,
    {
        Substream { data, header, tail, pos: 0 }
    }

    /// How many bytes there are to read, headers and tail together.
    pub fn len(&self) -> (n: u64)
        ensures
            n == self.content().len(),
    {
        proof {
            use_type_invariant(self);
        }
        (run_len(&self.header) + run_len(&self.tail)) as u64
    }

    /// Map a logical offset onto the backing buffer.
    fn source_index(&self, at: usize) -> (index: usize)
        requires
            at < self.content().len(),
        ensures
            index < self.buffer().len(),
            self.buffer()[index as int] == self.content()[at as int],
    {
        proof {
            use_type_invariant(self);
        }
        let header_len = run_len(&self.header);
        if at < header_len {
            self.header.start + at
        } else {
            self.tail.start + (at - header_len)
        }
    }

    /// The most bytes that one read may yield: it never crosses from the
    /// headers into the tail.
    pub open spec fn run_left(self) -> int {
        if self.position() < self.header_len() {
            self.header_len() - self.position()
        } else {
            self.content().len() - self.position()
        }
    }

    /// Read into the front of `buf` and report how many bytes came; zero means
    /// the end, or that there was no room.
    pub fn read(&mut self, buf: &mut [u8]) -> (n: usize)
        ensures
            n == (if old(buf)@.len() <= old(self).run_left() {
                old(buf)@.len() as int
            } else {
                old(self).run_left()
            }),
            n == 0 <==> old(buf)@.len() == 0 || old(self).position() == old(self).content().len(),
            final(buf)@ == old(self).content().subrange(
                old(self).position(),
                old(self).position() + n,
            ) + old(buf)@.skip(n as int),
            final(self).position() == old(self).position() + n,
            final(self).content() == old(self).content(),
            final(self).header_len() == old(self).header_len(),
            final(self).buffer() == old(self).buffer(),
    {
        proof {
            use_type_invariant(&*self);
        }
        let total = self.len() as usize;
        let at = self.pos as usize;
        let header_len = run_len(&self.header);
        let run_end: usize = if at < header_len {
            header_len
        } else {
            total
        };
        let left = run_end - at;
        let room = buf.len();
        let n: usize = if room <= left {
            room
        } else {
            left
        };
        let mut i: usize = 0;
        while i < n
            invariant
                i <= n,
                n <= room,
                n <= run_end - at,
                room == buf@.len() == old(buf)@.len(),
                run_end <= self.content().len(),
                *self == *old(self),
                at == self.position(),
                forall|j: int| 0 <= j < i ==> #[trigger] buf@[j] == self.content()[at + j],
                forall|j: int| i <= j < room ==> #[trigger] buf@[j] == old(buf)@[j],
            decreases n - i,
        {
            let from = self.source_index(at + i);
            let byte = self.data[from];
            buf[i] = byte;
            i += 1;
        }
        self.pos = (at + n) as u64;
        n
    }

    /// Where a seek lands, before clamping to the end.
    pub open spec fn target(self, from: SeekFrom) -> int {
        match from {
            SeekFrom::Start(n) => n as int,
            SeekFrom::End(n) => self.content().len() + n,
            SeekFrom::Current(n) => self.position() + n,
        }
    }

    /// Move the playhead. A target past the end lands on the end; one before
    /// the start is refused and leaves the playhead where it was.
    pub fn seek(&mut self, from: SeekFrom) -> (out: Result<u64, SeekBeforeStart>)
        ensures
            out is Err <==> old(self).target(from) < 0,
            out matches Ok(at) ==> at == final(self).position() && at == (if old(self).target(from)
                <= old(self).content().len() {
                old(self).target(from)
            } else {
                old(self).content().len() as int
            }),
            out is Err ==> final(self).position() == old(self).position(),
            final(self).content() == old(self).content(),
            final(self).header_len() == old(self).header_len(),
            final(self).buffer() == old(self).buffer(),
    {
        proof {
            use_type_invariant(&*self);
        }
        let len = self.len();
        let target: i128 = match from {
            SeekFrom::Start(n) => n as i128,
            SeekFrom::End(n) => len as i128 + n as i128,
            SeekFrom::Current(n) => self.pos as i128 + n as i128,
        };
        if target < 0 {
            return Err(SeekBeforeStart);
        }
        let at: u64 = if target <= len as i128 {
            target as u64
        } else {
            len
        };
        self.pos = at;
        Ok(at)
    }

    /// Append everything from the playhead to the end to `out`.
    pub fn read_to_end(&mut self, out: &mut Vec<u8>) -> (n: usize)
        ensures
            final(out)@ == old(out)@ + old(self).content().skip(old(self).position()),
            n == old(self).content().len() - old(self).position(),
            final(self).position() == old(self).content().len(),
            final(self).content() == old(self).content(),
    {
        proof {
            use_type_invariant(&*self);
        }
        let total = self.len() as usize;
        let start = self.pos as usize;
        let mut at = start;
        while at < total
            invariant
                start <= at <= total,
                total == self.content().len(),
                *self == *old(self),
                start == self.position(),
                out@ == old(out)@ + self.content().subrange(start as int, at as int),
            decreases total - at,
        {
            let from = self.source_index(at);
            out.push(self.data[from]);
            assert(self.content().subrange(start as int, at + 1) =~= self.content().subrange(
                start as int,
                at as int,
            ).push(self.content()[at as int]));
            at += 1;
        }
        self.pos = total as u64;
        total - start
    }
}

// ----------------------------------------------------------------------- laws

/// A range covers the bytes from its start up to its end, all of them inside the
/// buffer; one that ends where it begins, or before, covers none.
pub proof fn law_a_range_covers_its_bytes(data: Seq<u8>, range: Range<usize>, i: int)
    ensures
        range.start <= range.end && range.end <= data.len() ==> {
            &&& covers(data.len(), range)
            &&& run(data, range).len() == range.end - range.start
            &&& 0 <= i < range.end - range.start ==> run(data, range)[i] == data[range.start + i]
        },
        range.start >= range.end ==> run(data, range).len() == 0,
        range.start < range.end && range.end > data.len() ==> !covers(data.len(), range),
{
}

/// A seek counts from the first byte, from the last, or from where the reader
/// stands; and one read ends at the latest where the headers or the whole do.
pub proof fn law_a_seek_counts_from_its_origin(s: Substream, up: u64, by: i64)
    ensures
        s.target(SeekFrom::Start(up)) == up,
        s.target(SeekFrom::End(by)) - by == s.content().len(),
        s.target(SeekFrom::Current(by)) - by == s.position(),
        s.position() < s.header_len() ==> s.position() + s.run_left() == s.header_len(),
        s.position() >= s.header_len() ==> s.position() + s.run_left() == s.content().len(),
{
}

} // verus!
