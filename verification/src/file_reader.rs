//! A reader over a decoded file payload.
use vstd::prelude::*;

verus! {

/// A reader for files: serves the decoded (and, if the payload was stored
/// compressed, decompressed) bytes of one file.
#[derive(Debug)]
pub struct FileReader {
    /// The decoded payload.
    pub data: Vec<u8>,
    /// How many bytes have been read so far.
    pub position: usize,
}

impl FileReader {
    /// Wrap a decoded payload.
    pub fn new(data: Vec<u8>) -> (r: FileReader)
        ensures
            r.data == data,
            r.position == 0,
    {
        FileReader { data, position: 0 }
    }

    /// The total payload length in bytes.
    pub fn len(&self) -> (r: usize)
        ensures
            r == self.data@.len(),
    {
        self.data.len()
    }

    /// How many bytes are left to read.
    pub fn remaining(&self) -> (r: usize)
        requires
            reader_wf(*self),
        ensures
            r == self.data@.len() - self.position,
    {
        self.data.len() - self.position
    }

    /// Read up to `max` of the remaining bytes, advancing the reader.
    #[verifier::loop_isolation(false)]
    pub fn read(&mut self, max: usize) -> (r: Vec<u8>)
        requires
            reader_wf(*old(self)),
        ensures
            reader_wf(*final(self)),
            r@ == old(self).data@.subrange(
                old(self).position as int,
                old(self).position + spec_min(max as int, old(self).data@.len() - old(self).position),
            ),
            final(self).data == old(self).data,
            final(self).position == old(self).position + spec_min(
                max as int,
                old(self).data@.len() - old(self).position,
            ),
    {
        let n: usize = self.data.len() - self.position;
        let take: usize = if max < n {
            max
        } else {
            n
        };
        let start: usize = self.position;
        let mut buf: Vec<u8> = Vec::new();
        let mut i: usize = 0;
        while i < take
            invariant
                0 <= i <= take,
                buf@.len() == i,
                forall|j: int| 0 <= j < i ==> buf@[j] == self.data@[start + j],
            decreases take - i,
        {
            let b: u8 = self.data[start + i];
            buf.push(b);
            i += 1;
        }
        self.position = start + take;
        proof {
            assert(buf@ =~= self.data@.subrange(start as int, start + take));
        }
        buf
    }

    /// Read all remaining bytes, advancing the reader to the end.
    pub fn read_to_end(&mut self) -> (r: Vec<u8>)
        requires
            reader_wf(*old(self)),
        ensures
            reader_wf(*final(self)),
            r@ == old(self).data@.subrange(old(self).position as int, old(self).data@.len() as int),
            final(self).data == old(self).data,
            final(self).position == old(self).data@.len(),
    {
        let n: usize = self.data.len();
        self.read(n - self.position)
    }
}

/// The smaller of two values.
pub open spec fn spec_min(a: int, b: int) -> int {
    if a < b {
        a
    } else {
        b
    }
}

/// Invariant of a reader: the read position never passes the end.
pub open spec fn reader_wf(r: FileReader) -> bool {
    r.position <= r.data@.len()
}

} // verus!
