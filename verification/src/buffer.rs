//! A FIFO byte buffer with a position cursor, filled by the driver of the
//! connection and consumed by the parsers.
use vstd::prelude::*;

verus! {

/// A byte buffer with a read position.
#[derive(Debug)]
pub struct ByteCursor {
    /// The stored bytes.
    pub data: Vec<u8>,
    /// How many of them have been consumed.
    pub pos: usize,
}

impl ByteCursor {
    /// The cursor position never passes the end of the data.
    pub open spec fn wf(&self) -> bool {
        self.pos <= self.data@.len()
    }

    /// The bytes not yet consumed.
    pub open spec fn rest(&self) -> Seq<u8> {
        self.data@.skip(self.pos as int)
    }

    /// Wrap a byte vector with the position at its start.
    pub fn new(data: Vec<u8>) -> (r: ByteCursor)
        ensures
            r.wf(),
            r.data == data,
            r.pos == 0,
    {
        ByteCursor { data, pos: 0 }
    }

    /// The current position.
    pub fn position(&self) -> (r: usize)
        ensures
            r == self.pos,
    {
        self.pos
    }

    /// Move the position.
    pub fn set_position(&mut self, pos: usize)
        requires
            pos <= old(self).data@.len(),
        ensures
            final(self).data == old(self).data,
            final(self).pos == pos,
            final(self).wf(),
    {
        self.pos = pos;
    }

    /// How many bytes are left to consume.
    pub fn remaining(&self) -> (r: usize)
        requires
            self.wf(),
        ensures
            r == self.rest().len(),
    {
        self.data.len() - self.pos
    }

    /// Consume one byte, if one is left.
    pub fn read_byte(&mut self) -> (r: Option<u8>)
        requires
            old(self).wf(),
        ensures
            final(self).wf(),
            final(self).data == old(self).data,
            old(self).rest().len() == 0 ==> r is None && final(self).pos == old(self).pos,
            old(self).rest().len() > 0 ==> r == Some(old(self).rest()[0]) && final(self).pos
                == old(self).pos + 1,
    {
        if self.pos < self.data.len() {
            let b = self.data[self.pos];
            self.pos += 1;
            Some(b)
        } else {
            None
        }
    }

    /// Consume `n` bytes and hand them out.
    pub fn read_bytes(&mut self, n: usize) -> (r: Vec<u8>)
        requires
            old(self).wf(),
            n <= old(self).rest().len(),
        ensures
            final(self).wf(),
            final(self).data == old(self).data,
            final(self).pos == old(self).pos + n,
            r@ == old(self).rest().take(n as int),
    {
        let dlen = self.data.len();
        let mut r: Vec<u8> = Vec::new();
        let mut i: usize = 0;
        while i < n
            invariant
                self.wf(),
                self.data == old(self).data,
                self.pos == old(self).pos,
                i <= n,
                dlen == self.data@.len(),
                self.pos + n <= dlen,
                r@ =~= self.rest().take(i as int),
            decreases n - i,
        {
            r.push(self.data[self.pos + i]);
            i += 1;
        }
        self.pos += n;
        assert(r@ =~= old(self).rest().take(n as int));
        r
    }

    /// Drop the consumed prefix and reset the position.
    pub fn compact(&mut self)
        requires
            old(self).wf(),
        ensures
            final(self).wf(),
            final(self).pos == 0,
            final(self).data@ == old(self).rest(),
    {
        let tail = self.data.split_off(self.pos);
        self.data = tail;
        self.pos = 0;
    }

    /// Append fresh bytes at the end, leaving the position alone.
    pub fn extend(&mut self, data: &Vec<u8>)
        requires
            old(self).wf(),
        ensures
            final(self).wf(),
            final(self).pos == old(self).pos,
            final(self).data@ == old(self).data@ + data@,
            final(self).rest() == old(self).rest() + data@,
    {
        self.data.extend_from_slice(data.as_slice());
        assert(final(self).rest() =~= old(self).rest() + data@);
    }

    /// Give up the buffer, consumed prefix included.
    pub fn into_inner(self) -> (r: Vec<u8>)
        ensures
            r == self.data,
    {
        self.data
    }
}

/// A FIFO buffer for bytes arriving from the network: the driver appends
/// what it read, the parsers consume it through a cursor.
#[derive(Debug)]
pub struct ReadBuffer<const CHUNK_SIZE: usize> {
    /// The accumulated bytes with their read position.
    pub storage: ByteCursor,
}

impl<const CHUNK_SIZE: usize> ReadBuffer<CHUNK_SIZE> {
    /// The buffer is well-formed.
    pub open spec fn wf(&self) -> bool {
        self.storage.wf()
    }

    /// The bytes not yet consumed.
    pub open spec fn rest(&self) -> Seq<u8> {
        self.storage.rest()
    }

    /// Initializes an empty input buffer.
    pub fn new() -> (r: Self)
        ensures
            r.wf(),
            r.rest() == Seq::<u8>::empty(),
    {
        let r = ReadBuffer { storage: ByteCursor::new(Vec::new()) };
        assert(r.rest() =~= Seq::<u8>::empty());
        r
    }

    /// Store the next portion of data handed in by the driver.
    pub fn read_from(&mut self, data: &Vec<u8>) -> (r: usize)
        requires
            old(self).wf(),
        ensures
            final(self).wf(),
            final(self).rest() == old(self).rest() + data@,
            r == data@.len(),
    {
        self.clean();
        self.storage.extend(data);
        data.len()
    }

    /// Drop the already-consumed prefix of the storage.
    fn clean(&mut self)
        requires
            old(self).wf(),
        ensures
            final(self).wf(),
            final(self).rest() == old(self).rest(),
            final(self).storage.pos == 0,
    {
        self.storage.compact();
        assert(final(self).rest() =~= old(self).rest());
    }

    /// Consume the buffer and keep the unread bytes.
    pub fn into_vec(self) -> (r: Vec<u8>)
        requires
            self.wf(),
        ensures
            r@ == self.rest(),
    {
        let mut buf = self;
        let ghost before = buf;
        buf.clean();
        assert(buf.storage.data@ == before.rest());
        buf.storage.into_inner()
    }

    /// Gets a cursor to the data storage.
    pub fn as_cursor(&self) -> (r: &ByteCursor)
        ensures
            r == &self.storage,
    {
        &self.storage
    }

    /// Gets a cursor to the mutable data storage.
    pub fn as_cursor_mut(&mut self) -> (r: &mut ByteCursor)
        ensures
            *r == old(self).storage,
            final(self).storage == *final(r),
    {
        &mut self.storage
    }

    /// The number of unread bytes.
    pub fn remaining(&self) -> (r: usize)
        requires
            self.wf(),
        ensures
            r == self.rest().len(),
    {
        self.storage.remaining()
    }

    /// Skip `cnt` unread bytes.
    pub fn advance(&mut self, cnt: usize)
        requires
            old(self).wf(),
            cnt <= old(self).rest().len(),
        ensures
            final(self).wf(),
            final(self).rest() == old(self).rest().skip(cnt as int),
    {
        let p = self.storage.position();
        let len = self.storage.data.len();
        assert(p + cnt <= len);
        self.storage.set_position(p + cnt);
        assert(final(self).rest() =~= old(self).rest().skip(cnt as int));
    }
}

} // verus!
