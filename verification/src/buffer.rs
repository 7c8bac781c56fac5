//! First-in first-out byte buffers over storage of the caller's choosing.

use vstd::prelude::*;

verus! {

/// The size of [`DefaultBufferStore`] in bytes.
pub const DEFAULT_BUFFER_SIZE: usize = 128;

/// Storage for a [`Buffer`]: a run of bytes whose length never changes.
pub trait BufferStore: Sized {
    /// The bytes held.
    spec fn bytes(&self) -> Seq<u8>;

    /// Borrows the bytes.
    fn as_bytes(&self) -> (s: &[u8])
        ensures
            s@ == self.bytes(),
    ;

    /// Borrows the bytes for writing.
    fn as_bytes_mut(&mut self) -> (s: &mut [u8])
        ensures
            s@ == old(self).bytes(),
            final(self).bytes() == final(s)@,
    ;
}

/// The storage that a port uses by default: 128 bytes held inline.
pub struct DefaultBufferStore {
    bytes: [u8; 128],
}

impl Default for DefaultBufferStore {
    fn default() -> (store: Self)
        ensures
            store.bytes().len() == DEFAULT_BUFFER_SIZE,
    {
        DefaultBufferStore { bytes: [0u8; 128] }
    }
}

impl BufferStore for DefaultBufferStore {
    closed spec fn bytes(&self) -> Seq<u8> {
        self.bytes@
    }

    fn as_bytes(&self) -> (s: &[u8]) {
        self.bytes.as_slice()
    }

    fn as_bytes_mut(&mut self) -> (s: &mut [u8]) {
        &mut self.bytes
    }
}

impl<const N: usize> BufferStore for [u8; N] {
    open spec fn bytes(&self) -> Seq<u8> {
        self@
    }

    fn as_bytes(&self) -> (s: &[u8]) {
        self.as_slice()
    }

    fn as_bytes_mut(&mut self) -> (s: &mut [u8]) {
        self
    }
}

impl BufferStore for Vec<u8> {
    open spec fn bytes(&self) -> Seq<u8> {
        self@
    }

    fn as_bytes(&self) -> (s: &[u8]) {
        self.as_slice()
    }

    fn as_bytes_mut(&mut self) -> (s: &mut [u8]) {
        self.as_mut_slice()
    }
}

impl<'a> BufferStore for &'a mut [u8] {
    open spec fn bytes(&self) -> Seq<u8> {
        (**self)@
    }

    fn as_bytes(&self) -> (s: &[u8]) {
        &**self
    }

    fn as_bytes_mut(&mut self) -> (s: &mut [u8]) {
        &mut **self
    }
}

/// A first-in first-out queue of bytes, at most as many as its storage holds.
///
/// The unread bytes occupy the storage from `rpos` up to `wpos`. They move to the front of the
/// storage when what is to be written does not fit behind them.
pub struct Buffer<S> {
    store: S,
    rpos: usize,
    wpos: usize,
}

impl<S: BufferStore> View for Buffer<S> {
    type V = Seq<u8>;

    closed spec fn view(&self) -> Seq<u8> {
        self.store.bytes().subrange(self.rpos as int, self.wpos as int)
    }
}

impl<S: BufferStore> Buffer<S> {
    /// The read position does not pass the write position, nor that the end of the storage.
    pub closed spec fn wf(&self) -> bool {
        self.rpos <= self.wpos <= self.store.bytes().len()
    }

    /// The number of bytes that fit in the buffer when it is empty.
    pub closed spec fn capacity(&self) -> nat {
        self.store.bytes().len()
    }

    /// Creates an empty buffer over `store`.
    pub fn new(store: S) -> (buf: Self)
        ensures
            buf.wf(),
            buf@ == Seq::<u8>::empty(),
            buf.capacity() == store.bytes().len(),
    {
        Buffer { store, rpos: 0, wpos: 0 }
    }

    /// Drops everything that is unread.
    pub fn clear(&mut self)
        requires
            old(self).wf(),
        ensures
            final(self).wf(),
            final(self)@ == Seq::<u8>::empty(),
            final(self).capacity() == old(self).capacity(),
    {
        self.rpos = 0;
        self.wpos = 0;
    }

    /// The number of unread bytes.
    pub fn available_read(&self) -> (count: usize)
        requires
            self.wf(),
        ensures
            count == self@.len(),
    {
        self.wpos - self.rpos
    }

    /// The number of bytes that can be written before something is read.
    pub fn available_write(&self) -> (count: usize)
        requires
            self.wf(),
        ensures
            count == self.capacity() - self@.len(),
    {
        self.store.as_bytes().len() - (self.wpos - self.rpos)
    }

    /// Moves the unread bytes to the front of the storage.
    fn discard_already_read_data(&mut self)
        requires
            old(self).wf(),
        ensures
            final(self).wf(),
            final(self)@ == old(self)@,
            final(self).capacity() == old(self).capacity(),
            final(self).rpos == 0,
    {
        let count: usize = self.wpos - self.rpos;
        let rpos: usize = self.rpos;
        let ghost before = self.store.bytes();
        let bytes = self.store.as_bytes_mut();
        let mut i: usize = 0;
        while i < count
            invariant
                i <= count,
                rpos + count <= before.len(),
                rpos + count <= usize::MAX,
                bytes@.len() == before.len(),
                forall|j: int| 0 <= j < i ==> bytes@[j] == before[rpos + j],
                forall|j: int| i <= j < before.len() ==> bytes@[j] == before[j],
            decreases count - i,
        {
            bytes[i] = bytes[rpos + i];
            i = i + 1;
        }
        self.rpos = 0;
        self.wpos = count;
        assert(self@ =~= old(self)@);
    }

    /// Appends as much of `data` as fits and returns the number of bytes appended.
    pub fn write(&mut self, data: &[u8]) -> (count: usize)
        requires
            old(self).wf(),
        ensures
            final(self).wf(),
            count == vstd::math::min(
                data@.len() as int,
                old(self).capacity() - old(self)@.len(),
            ),
            final(self)@ == old(self)@ + data@.take(count as int),
            final(self).capacity() == old(self).capacity(),
    {
        let free: usize = self.available_write();
        let count: usize = if data.len() < free {
            data.len()
        } else {
            free
        };
        if count > self.store.as_bytes().len() - self.wpos {
            self.discard_already_read_data();
        }
        let wpos: usize = self.wpos;
        let ghost before = self.store.bytes();
        let bytes = self.store.as_bytes_mut();
        let mut i: usize = 0;
        while i < count
            invariant
                i <= count <= data@.len(),
                wpos + count <= before.len() <= usize::MAX,
                bytes@.len() == before.len(),
                forall|j: int| 0 <= j < wpos ==> bytes@[j] == before[j],
                forall|j: int| 0 <= j < i ==> bytes@[wpos + j] == data@[j],
            decreases count - i,
        {
            bytes[wpos + i] = data[i];
            i = i + 1;
        }
        self.wpos = wpos + count;
        assert(self@ =~= old(self)@ + data@.take(count as int));
        count
    }

    /// The oldest unread bytes, `max_count` of them or all where there are fewer.
    pub fn peek(&self, max_count: usize) -> (bytes: &[u8])
        requires
            self.wf(),
        ensures
            bytes@ == self@.take(vstd::math::min(max_count as int, self@.len() as int)),
    {
        let available: usize = self.wpos - self.rpos;
        let count: usize = if max_count < available {
            max_count
        } else {
            available
        };
        let bytes = vstd::slice::slice_subrange(
            self.store.as_bytes(),
            self.rpos,
            self.rpos + count,
        );
        assert(bytes@ =~= self@.take(count as int));
        bytes
    }

    /// Drops the `count` oldest unread bytes.
    pub fn consume(&mut self, count: usize)
        requires
            old(self).wf(),
            count <= old(self)@.len(),
        ensures
            final(self).wf(),
            final(self)@ == old(self)@.skip(count as int),
            final(self).capacity() == old(self).capacity(),
    {
        self.rpos = self.rpos + count;
        assert(self@ =~= old(self)@.skip(count as int));
    }

    /// Moves the oldest unread bytes to the front of `data`, as many as there are and as fit
    /// there, and returns their number.
    pub fn read(&mut self, data: &mut [u8]) -> (count: usize)
        requires
            old(self).wf(),
        ensures
            final(self).wf(),
            count == vstd::math::min(old(data)@.len() as int, old(self)@.len() as int),
            final(data)@ == old(self)@.take(count as int) + old(data)@.skip(count as int),
            final(self)@ == old(self)@.skip(count as int),
            final(self).capacity() == old(self).capacity(),
    {
        let bytes = self.peek(data.len());
        let count: usize = bytes.len();
        let mut i: usize = 0;
        while i < count
            invariant
                i <= count == bytes@.len(),
                count <= data@.len() == old(data)@.len(),
                forall|j: int| 0 <= j < i ==> data@[j] == bytes@[j],
                forall|j: int| i <= j < data@.len() ==> data@[j] == old(data)@[j],
            decreases count - i,
        {
            data[i] = bytes[i];
            i = i + 1;
        }
        assert(data@ =~= self@.take(count as int) + old(data)@.skip(count as int));
        self.consume(count);
        count
    }
}

} // verus!
