//! A growable byte buffer with a read cursor and a write cursor.
//!
//! Bytes are written at the write cursor and read at the read cursor. The
//! bytes between the two are the buffer's contents. The storage grows when
//! there is too little room behind the write cursor, after the contents
//! were moved to its front.
use vstd::prelude::*;
use vstd::slice::slice_subrange;
use crate::bytes::{lossy_text, utf8_text_lossy};

verus! {

/// The size up to which the storage doubles when it grows: one mebibyte.
pub const SOFT_CAP: usize = 1048576;

/// The size to which a storage of size `capacity` grows so as to hold
/// `wanted` bytes: twice its size while that is enough and the storage is
/// below the soft cap, else just what is wanted.
pub open spec fn grown(capacity: nat, wanted: nat) -> nat {
    if capacity < SOFT_CAP && 2 * capacity >= wanted {
        2 * capacity
    } else {
        wanted
    }
}

/// The size of a storage once it has room for `needed` more bytes behind
/// its contents of `len` bytes, `consumed` bytes being in front of them:
/// as it is where the room is there, or is there once the contents are
/// moved to the front; else grown.
pub open spec fn capacity_with_room(capacity: nat, consumed: nat, len: nat, needed: nat) -> nat {
    if capacity - consumed - len >= needed || capacity - len >= needed {
        capacity
    } else {
        grown(capacity, len + needed)
    }
}

/// The number of bytes in front of the contents once there is room for
/// `needed` more bytes: none, unless the room was there.
pub open spec fn consumed_with_room(capacity: nat, consumed: nat, len: nat, needed: nat) -> nat {
    if capacity - consumed - len >= needed {
        consumed
    } else {
        0
    }
}

/// The bytes of a vector from an index on, for writing. This is std's
/// `IndexMut` of a vector by a range without an end, which is not proved
/// here: it hands out the tail of the storage in place, so what is written
/// to it is written to the vector, whose front and length stay as they
/// are; and it does not panic for an index within the length.
#[verifier::external_body]
fn tail_mut(v: &mut Vec<u8>, from: usize) -> (r: &mut [u8])
    requires
        from <= old(v)@.len(),
    ensures
        r@ == old(v)@.skip(from as int),
        final(r)@.len() == r@.len(),
        final(v)@ == old(v)@.take(from as int) + final(r)@,
    no_unwind
{
    &mut v[from..]
}

/// A growable buffer for I/O operations.
#[derive(Debug)]
pub struct Buffer {
    data: Vec<u8>,
    read_pos: usize,
    write_pos: usize,
}

impl View for Buffer {
    type V = Seq<u8>;

    /// The bytes that were written and not yet consumed.
    closed spec fn view(&self) -> Seq<u8> {
        self.data@.subrange(self.read_pos as int, self.write_pos as int)
    }
}

impl Buffer {
    #[verifier::type_invariant]
    spec fn inv(self) -> bool {
        self.read_pos <= self.write_pos <= self.data@.len()
    }

    /// The storage behind the write cursor.
    pub closed spec fn spare(&self) -> Seq<u8> {
        self.data@.skip(self.write_pos as int)
    }

    /// The size of the storage.
    pub closed spec fn capacity(&self) -> nat {
        self.data@.len()
    }

    /// The number of bytes in front of the read cursor.
    pub closed spec fn consumed(&self) -> nat {
        self.read_pos as nat
    }

    /// The storage is the consumed part, the contents and the spare room.
    pub fn layout(&self)
        ensures
            self.capacity() == self.consumed() + self@.len() + self.spare().len(),
            self.capacity() <= usize::MAX,
    {
        proof {
            use_type_invariant(self);
        }
        let _ = self.data.len();
    }

    /// Create a new buffer with the given capacity.
    pub fn new(capacity: usize) -> (b: Buffer)
        ensures
            b@ == Seq::<u8>::empty(),
            b.capacity() == capacity,
            b.consumed() == 0,
    {
        let data: Vec<u8> = vec![0u8; capacity];
        let b = Buffer { data, read_pos: 0, write_pos: 0 };
        assert(b@ =~= Seq::<u8>::empty());
        b
    }

    /// Get the available data for reading.
    pub fn readable_data(&self) -> (r: &[u8])
        ensures
            r@ == self@,
    {
        proof {
            use_type_invariant(self);
        }
        slice_subrange(self.data.as_slice(), self.read_pos, self.write_pos)
    }

    /// Get the writable space: the storage behind the write cursor. What is
    /// written to it is in the spare room afterwards; the contents stay as
    /// they are until the write cursor is advanced.
    pub fn writable_space(&mut self) -> (r: &mut [u8])
        ensures
            r@ == old(self).spare(),
            final(self).spare() == final(r)@,
            final(self)@ == old(self)@,
            final(self).consumed() == old(self).consumed(),
            final(self).capacity() == old(self).capacity(),
    {
        proof {
            use_type_invariant(&*self);
        }
        let at = self.write_pos;
        tail_mut(&mut self.data, at)
    }

    /// Mark bytes as consumed (advance read position). Once everything is
    /// consumed, both cursors go back to the front.
    pub fn consume(&mut self, bytes: usize)
        ensures
            final(self)@ == old(self)@.skip(
                if bytes <= old(self)@.len() {
                    bytes as int
                } else {
                    old(self)@.len() as int
                },
            ),
            final(self).capacity() == old(self).capacity(),
            final(self).consumed() == if bytes >= old(self)@.len() {
                0
            } else {
                old(self).consumed() + bytes
            },
    {
        proof {
            use_type_invariant(&*self);
        }
        let ghost before = self@;
        let available: usize = self.write_pos - self.read_pos;
        if bytes >= available {
            self.read_pos = 0;
            self.write_pos = 0;
            assert(self@ =~= before.skip(before.len() as int));
        } else {
            self.read_pos = self.read_pos + bytes;
            assert(self@ =~= before.skip(bytes as int));
        }
    }

    /// Mark bytes as written (advance write position): the contents grow by
    /// that many bytes of the spare room, or by all of it.
    pub fn advance_write(&mut self, bytes: usize)
        ensures
            final(self)@ == old(self)@ + old(self).spare().take(
                if bytes <= old(self).spare().len() {
                    bytes as int
                } else {
                    old(self).spare().len() as int
                },
            ),
            final(self).capacity() == old(self).capacity(),
            final(self).consumed() == old(self).consumed(),
    {
        proof {
            use_type_invariant(&*self);
        }
        let ghost before = self@;
        let ghost room = self.spare();
        let free: usize = self.data.len() - self.write_pos;
        if bytes >= free {
            self.write_pos = self.data.len();
            assert(self@ =~= before + room.take(room.len() as int));
        } else {
            self.write_pos = self.write_pos + bytes;
            assert(self@ =~= before + room.take(bytes as int));
        }
    }

    /// Get the number of bytes available for reading.
    pub fn readable_bytes(&self) -> (n: usize)
        ensures
            n == self@.len(),
    {
        proof {
            use_type_invariant(self);
        }
        self.write_pos - self.read_pos
    }

    /// Get the number of bytes available for writing.
    pub fn writable_bytes(&self) -> (n: usize)
        ensures
            n == self.spare().len(),
    {
        proof {
            use_type_invariant(self);
        }
        self.data.len() - self.write_pos
    }

    /// Check if buffer is empty.
    pub fn is_empty(&self) -> (b: bool)
        ensures
            b == (self@.len() == 0),
    {
        self.readable_bytes() == 0
    }

    /// Clear the buffer.
    pub fn clear(&mut self)
        ensures
            final(self)@ == Seq::<u8>::empty(),
            final(self).capacity() == old(self).capacity(),
            final(self).consumed() == 0,
    {
        proof {
            use_type_invariant(&*self);
        }
        self.read_pos = 0;
        self.write_pos = 0;
        assert(self@ =~= Seq::<u8>::empty());
    }

    /// Moves the buffer out, leaving an empty one.
    fn take(&mut self) -> (b: Buffer)
        ensures
            b == *old(self),
            b.read_pos <= b.write_pos <= b.data@.len(),
    {
        proof {
            use_type_invariant(&*self);
        }
        let mut b = Buffer { data: Vec::new(), read_pos: 0, write_pos: 0 };
        core::mem::swap(self, &mut b);
        b
    }

    /// Ensure buffer has enough space for writing: `needed` bytes at least.
    /// The contents stay as they are.
    pub fn ensure_writable_space(&mut self, needed: usize)
        requires
            old(self)@.len() + needed <= usize::MAX,
        ensures
            final(self)@ == old(self)@,
            final(self).spare().len() >= needed,
            final(self).capacity() == capacity_with_room(
                old(self).capacity(),
                old(self).consumed(),
                old(self)@.len(),
                needed as nat,
            ),
            final(self).consumed() == consumed_with_room(
                old(self).capacity(),
                old(self).consumed(),
                old(self)@.len(),
                needed as nat,
            ),
    {
        proof {
            use_type_invariant(&*self);
        }
        if self.writable_bytes() >= needed {
            return ;
        }
        let Buffer { data, read_pos, write_pos } = self.take();
        let mut data = data;
        let ghost contents = data@.subrange(read_pos as int, write_pos as int);
        let len: usize = write_pos - read_pos;
        if read_pos > 0 {
            let mut i: usize = 0;
            while i < len
                invariant
                    i <= len,
                    len == write_pos - read_pos,
                    contents.len() == len,
                    read_pos > 0,
                    write_pos <= data@.len(),
                    data@.len() == old(self).capacity(),
                    data@.subrange(0, i as int) =~= contents.take(i as int),
                    data@.subrange(read_pos + i, write_pos as int) =~= contents.skip(i as int),
                decreases len - i,
            {
                let ghost prev = data@;
                let b = data[read_pos + i];
                assert(b == contents[i as int]) by {
                    assert(prev.subrange(read_pos + i, write_pos as int)[0] == contents.skip(
                        i as int,
                    )[0]);
                }
                data.set(i, b);
                assert forall|k: int| 0 <= k < i + 1 implies #[trigger] data@[k] == contents[k] by {
                    if k < i {
                        assert(prev.subrange(0, i as int)[k] == contents.take(i as int)[k]);
                    }
                }
                assert(data@.subrange(0, i + 1) =~= contents.take(i + 1));
                assert forall|k: int| read_pos + i + 1 <= k < write_pos implies #[trigger] data@[k]
                    == contents[k - read_pos] by {
                    assert(prev.subrange(read_pos + i, write_pos as int)[k - read_pos - i]
                        == contents.skip(i as int)[k - read_pos - i]);
                }
                assert(data@.subrange(read_pos + i + 1, write_pos as int) =~= contents.skip(i + 1));
                i += 1;
            }
        }
        assert(data@.subrange(0, len as int) =~= contents) by {
            if read_pos > 0 {
                assert(contents.take(len as int) =~= contents);
            }
        }
        if data.len() - len < needed {
            let exact: usize = len + needed;
            let new_size: usize = if data.len() < SOFT_CAP && 2 * data.len() >= exact {
                2 * data.len()
            } else {
                exact
            };
            let ghost prev = data@;
            data.resize(new_size, 0);
            assert(data@.subrange(0, len as int) =~= prev.subrange(0, len as int));
        }
        *self = Buffer { data, read_pos: 0, write_pos: len };
    }

    /// Append data to the buffer.
    pub fn append(&mut self, bytes: &[u8])
        requires
            old(self)@.len() + bytes@.len() <= usize::MAX,
        ensures
            final(self)@ == old(self)@ + bytes@,
            final(self).capacity() == capacity_with_room(
                old(self).capacity(),
                old(self).consumed(),
                old(self)@.len(),
                bytes@.len(),
            ),
            final(self).consumed() == consumed_with_room(
                old(self).capacity(),
                old(self).consumed(),
                old(self)@.len(),
                bytes@.len(),
            ),
    {
        self.ensure_writable_space(bytes.len());
        let ghost before = self@;
        let ghost size = self.capacity();
        let Buffer { data, read_pos, write_pos } = self.take();
        let mut data = data;
        let mut i: usize = 0;
        while i < bytes.len()
            invariant
                i <= bytes.len(),
                read_pos <= write_pos,
                write_pos + bytes.len() <= data.len(),
                data@.len() == size,
                data@.subrange(read_pos as int, write_pos + i) =~= before + bytes@.take(i as int),
            decreases bytes.len() - i,
        {
            let ghost prev = data@;
            data.set(write_pos + i, bytes[i]);
            assert(data@.subrange(read_pos as int, write_pos + i + 1) =~= prev.subrange(
                read_pos as int,
                write_pos + i,
            ).push(bytes@[i as int]));
            assert(bytes@.take(i + 1) =~= bytes@.take(i as int).push(bytes@[i as int]));
            i += 1;
        }
        assert(bytes@.take(bytes.len() as int) =~= bytes@);
        *self = Buffer { data, read_pos, write_pos: write_pos + bytes.len() };
    }

    /// Get all data as a string (for debugging).
    pub fn as_string(&self) -> (r: String)
        ensures
            r@ == lossy_text(self@),
    {
        utf8_text_lossy(self.readable_data())
    }
}

} // verus!
