//! The byte buffer and its read-only cursor.
//!
//! A buffer is a handle over a backing region of `capacity` bytes, of which
//! the first `len` are populated. Handles made by `clone` share one region;
//! a handle that is about to write copies the region first where it is
//! shared, so no handle ever sees another handle's writes.

use std::sync::Arc;
use vstd::prelude::*;

verus! {

/// The largest capacity a backing region can have, in bytes.
pub open spec fn max_capacity() -> nat {
    isize::MAX as nat
}

/// The capacity that a buffer of capacity `capacity` grows to when `needed`
/// bytes are asked for: one and a half times the old capacity, or `needed`
/// where that is more.
pub open spec fn grown_capacity(capacity: nat, needed: nat) -> nat {
    let amortized: nat = capacity + capacity / 2;
    if needed >= amortized {
        needed
    } else {
        amortized
    }
}

/// What a buffer is, mathematically: the bytes it holds and the number of
/// bytes its backing region reserves.
pub struct MBufView {
    pub bytes: Seq<u8>,
    pub capacity: nat,
}

impl MBufView {
    /// An empty buffer of the given capacity.
    pub open spec fn fresh(capacity: nat) -> MBufView {
        MBufView { bytes: Seq::empty(), capacity }
    }

    /// The bytes held fit the capacity, and the capacity can be allocated.
    pub open spec fn valid(self) -> bool {
        self.bytes.len() <= self.capacity <= max_capacity()
    }

    /// Whether `extra` more bytes fit without growth.
    pub open spec fn fits(self, extra: nat) -> bool {
        self.bytes.len() + extra <= self.capacity
    }

    /// The buffer moved to a region of the grown capacity.
    pub open spec fn resize(self, new_capacity: nat) -> MBufView {
        MBufView { bytes: self.bytes, capacity: grown_capacity(self.capacity, new_capacity) }
    }

    /// The capacity that the buffer has once `extra` more bytes are appended:
    /// its own where they fit, else the capacity grown for them.
    pub open spec fn capacity_with(self, extra: nat) -> nat {
        if self.fits(extra) {
            self.capacity
        } else {
            self.resize(self.bytes.len() + extra).capacity
        }
    }

    /// The buffer with `data` appended, grown first where `data` does not fit.
    pub open spec fn append(self, data: Seq<u8>) -> MBufView {
        MBufView { bytes: self.bytes + data, capacity: self.capacity_with(data.len()) }
    }

    /// How many bytes a read into a destination of `room` bytes consumes.
    pub open spec fn read_count(self, room: nat) -> nat {
        if room <= self.bytes.len() {
            room
        } else {
            self.bytes.len()
        }
    }

    /// The bytes that a read into a destination of `room` bytes hands out.
    pub open spec fn read_bytes(self, room: nat) -> Seq<u8> {
        self.bytes.take(self.read_count(room) as int)
    }

    /// The buffer after a read into a destination of `room` bytes.
    pub open spec fn read(self, room: nat) -> MBufView {
        MBufView { bytes: self.bytes.skip(self.read_count(room) as int), capacity: self.capacity }
    }

    /// The buffer emptied, its capacity kept.
    pub open spec fn clear(self) -> MBufView {
        MBufView { bytes: Seq::empty(), capacity: self.capacity }
    }

    /// Round trip: an empty buffer to which bytes are appended that fit its
    /// capacity holds exactly those bytes, at the capacity it had.
    pub proof fn lemma_round_trip(capacity: nat, data: Seq<u8>)
        requires
            data.len() <= capacity,
        ensures
            Self::fresh(capacity).append(data).bytes == data,
            Self::fresh(capacity).append(data).bytes.len() == data.len(),
            Self::fresh(capacity).append(data).capacity == capacity,
    {
        assert(Seq::<u8>::empty() + data =~= data);
    }

    /// Growth: bytes appended beyond the capacity come behind the bytes held,
    /// which stay as they were, and the grown capacity takes them all.
    pub proof fn lemma_append_grows(self, data: Seq<u8>)
        requires
            !self.fits(data.len()),
        ensures
            self.append(data).bytes.len() == self.bytes.len() + data.len(),
            self.append(data).capacity >= self.append(data).bytes.len(),
            self.append(data).capacity >= self.capacity + self.capacity / 2,
            self.append(data).bytes.take(self.bytes.len() as int) == self.bytes,
            self.append(data).bytes.skip(self.bytes.len() as int) == data,
    {
        assert((self.bytes + data).take(self.bytes.len() as int) =~= self.bytes);
        assert((self.bytes + data).skip(self.bytes.len() as int) =~= data);
    }

    /// First in, first out: of the bytes appended to an empty buffer, a read
    /// into a destination shorter than they are hands out their front and
    /// leaves the rest, and a further read into a destination that takes the
    /// rest hands out exactly that rest and leaves nothing.
    pub proof fn lemma_fifo(self, data: Seq<u8>, room: nat, rest_room: nat)
        requires
            self.bytes.len() == 0,
            room < data.len(),
            data.len() - room <= rest_room,
        ensures
            self.append(data).read_bytes(room) == data.take(room as int),
            self.append(data).read(room).bytes.len() == data.len() - room,
            self.append(data).read(room).read_bytes(rest_room) == data.skip(room as int),
            self.append(data).read(room).read(rest_room).bytes.len() == 0,
    {
        assert(self.bytes + data =~= data);
        assert(data.skip(room as int).take(data.len() - room) =~= data.skip(room as int));
    }

    /// Clearing twice is clearing once, and clearing never alters the
    /// capacity.
    pub proof fn lemma_clear_idempotent(self)
        ensures
            self.clear().clear() == self.clear(),
            self.clear().bytes.len() == 0,
            self.clear().capacity == self.capacity,
    {
    }
}

/// `Arc::make_mut` on a backing region: hands out the region for writing,
/// after copying it to an allocation of its own where other handles share it.
/// The bytes handed out are those the handle held, and the handle holds
/// whatever is written through the reference.
#[verifier::external_body]
fn region_mut(region: &mut Arc<Vec<u8>>) -> (bytes: &mut Vec<u8>)
    ensures
        bytes@ == old(region)@,
        final(region)@ == final(bytes)@,
{
    Arc::make_mut(region)
}

/// Indexing a `Vec` by `..len` for writing (`IndexMut::index_mut`): hands out
/// the first `len` bytes of the region. A slice keeps its length, so what is
/// written through it replaces those bytes, and the bytes behind them stay.
#[verifier::external_body]
fn region_front_mut(region: &mut Vec<u8>, len: usize) -> (front: &mut [u8])
    requires
        len <= old(region)@.len(),
    ensures
        front@ == old(region)@.take(len as int),
        final(front)@.len() == len,
        final(region)@ == final(front)@ + old(region)@.skip(len as int),
{
    &mut region[..len]
}

/// `Arc::strong_count` on a backing region: the number of handles that share
/// it at the moment of the call, the asking handle among them.
#[verifier::external_body]
fn region_handles(region: &Arc<Vec<u8>>) -> (handles: usize)
    ensures
        handles >= 1,
{
    Arc::strong_count(region)
}

/// A growable byte buffer over a shared backing region.
pub struct MBuf {
    region: Arc<Vec<u8>>,
    len: usize,
}

impl View for MBuf {
    type V = MBufView;

    closed spec fn view(&self) -> MBufView {
        MBufView { bytes: self.region@.take(self.len as int), capacity: self.region@.len() }
    }
}

impl MBuf {
    /// Well-formedness: the populated bytes lie within the backing region,
    /// whose size is one that can be allocated.
    pub closed spec fn wf(&self) -> bool {
        self.len <= self.region@.len() <= max_capacity()
    }

    /// A well-formed buffer has a valid view.
    pub proof fn lemma_wf_valid(&self)
        requires
            self.wf(),
        ensures
            self@.valid(),
    {
    }

    /// Creates an empty buffer that reserves `capacity` bytes.
    pub fn with_capacity(capacity: usize) -> (buf: Self)
        requires
            capacity <= max_capacity(),
        ensures
            buf.wf(),
            buf@ == MBufView::fresh(capacity as nat),
    {
        let region: Vec<u8> = vec![0u8; capacity];
        let buf = MBuf { region: Arc::new(region), len: 0 };
        assert(buf@.bytes =~= Seq::empty());
        buf
    }

    /// The number of bytes held.
    pub fn len(&self) -> (n: usize)
        requires
            self.wf(),
        ensures
            n == self@.bytes.len(),
            n <= self@.capacity,
    {
        self.len
    }

    /// The number of bytes reserved.
    pub fn capacity(&self) -> (n: usize)
        requires
            self.wf(),
        ensures
            n == self@.capacity,
            self@.bytes.len() <= n <= max_capacity(),
    {
        self.region.len()
    }

    /// Appends `data` behind the bytes held, growing the buffer first where
    /// `data` does not fit, and returns the number of bytes copied, which is
    /// always the length of `data`.
    pub fn append(&mut self, data: &[u8]) -> (copied: usize)
        requires
            old(self).wf(),
            old(self)@.capacity_with(data@.len()) <= max_capacity(),
        ensures
            final(self).wf(),
            final(self)@ == old(self)@.append(data@),
            copied == data@.len(),
            final(self)@.bytes.len() == old(self)@.bytes.len() + data@.len(),
            final(self)@.capacity >= final(self)@.bytes.len(),
            final(self)@.bytes.take(old(self)@.bytes.len() as int) == old(self)@.bytes,
    {
        let current_len: usize = self.len;
        let to_copy: usize = data.len();
        let needed: usize = current_len + to_copy;
        if needed > self.region.len() {
            self.resize(needed);
        }
        let ghost reserved: nat = self.region@.len();
        let bytes: &mut Vec<u8> = region_mut(&mut self.region);
        let mut i: usize = 0;
        while i < to_copy
            invariant
                i <= to_copy == data@.len(),
                current_len + to_copy <= bytes@.len() == reserved <= max_capacity(),
                bytes@.take(current_len as int) == old(self)@.bytes,
                forall|k: int| 0 <= k < i ==> bytes@[current_len + k] == data@[k],
            decreases to_copy - i,
        {
            bytes.set(current_len + i, data[i]);
            i += 1;
        }
        self.len = needed;
        assert(self@.bytes =~= old(self)@.bytes + data@);
        assert(self@.bytes.take(current_len as int) =~= old(self)@.bytes);
        to_copy
    }

    /// Whether `extra` more bytes can be appended: whether they fit, or the
    /// capacity grown for them is one that can be allocated.
    pub fn can_append(&self, extra: usize) -> (ok: bool)
        requires
            self.wf(),
        ensures
            ok == (self@.capacity_with(extra as nat) <= max_capacity()),
    {
        let len: usize = self.len;
        let capacity: usize = self.region.len();
        if extra <= capacity - len {
            return true;
        }
        let limit: usize = isize::MAX as usize;
        if extra > limit - len {
            return false;
        }
        capacity + capacity / 2 <= limit
    }

    /// Whether this handle is the only one over its backing region at the
    /// moment of the call.
    pub fn is_unique(&self) -> (unique: bool) {
        sole_handle(region_handles(&self.region))
    }

    /// Moves the buffer to a fresh backing region of the grown capacity,
    /// `grown_capacity(capacity, new_capacity)`, keeping its bytes. The
    /// region left behind stays with the handles that still share it.
    pub fn resize(&mut self, new_capacity: usize)
        requires
            old(self).wf(),
            old(self)@.resize(new_capacity as nat).capacity <= max_capacity(),
        ensures
            final(self).wf(),
            final(self)@ == old(self)@.resize(new_capacity as nat),
            final(self)@.capacity >= old(self)@.capacity,
            final(self)@.capacity >= new_capacity,
    {
        let current_len: usize = self.len;
        let capacity: usize = self.region.len();
        let amortized: usize = capacity + capacity / 2;
        let target: usize = if new_capacity >= amortized {
            new_capacity
        } else {
            amortized
        };
        let mut fresh: Vec<u8> = vec![0u8; target];
        let mut i: usize = 0;
        while i < current_len
            invariant
                i <= current_len <= self.region@.len(),
                current_len <= target == fresh@.len(),
                forall|k: int| 0 <= k < i ==> fresh@[k] == self.region@[k],
            decreases current_len - i,
        {
            fresh.set(i, self.region[i]);
            i += 1;
        }
        self.region = Arc::new(fresh);
        assert(self@.bytes =~= old(self)@.bytes);
    }

    /// Empties the buffer. The capacity stays, and the region is not touched.
    pub fn clear(&mut self)
        requires
            old(self).wf(),
        ensures
            final(self).wf(),
            final(self)@ == old(self)@.clear(),
            final(self)@.bytes.len() == 0,
            final(self)@.capacity == old(self)@.capacity,
    {
        self.len = 0;
        assert(self@.bytes =~= Seq::empty());
    }

    /// Consumes bytes from the front: copies as many bytes as `dest` takes and
    /// the buffer holds into the front of `dest`, moves the bytes left over
    /// down to the front of the buffer, and returns the number of bytes
    /// copied. A buffer that holds fewer bytes than `dest` takes hands out
    /// what it holds; the rest of `dest` stays as it was.
    pub fn read(&mut self, dest: &mut [u8]) -> (count: usize)
        requires
            old(self).wf(),
        ensures
            final(self).wf(),
            count == old(self)@.read_count(old(dest)@.len()),
            final(dest)@ == old(self)@.read_bytes(old(dest)@.len()) + old(dest)@.skip(count as int),
            final(self)@ == old(self)@.read(old(dest)@.len()),
    {
        let len: usize = self.len;
        let to_read: usize = if dest.len() <= len {
            dest.len()
        } else {
            len
        };
        let mut i: usize = 0;
        while i < to_read
            invariant
                i <= to_read <= len <= self.region@.len(),
                to_read <= dest@.len() == old(dest)@.len(),
                forall|k: int| 0 <= k < i ==> dest@[k] == self.region@[k],
                forall|k: int| i <= k < dest@.len() ==> dest@[k] == old(dest)@[k],
            decreases to_read - i,
        {
            dest[i] = self.region[i];
            i += 1;
        }
        let left: usize = len - to_read;
        if to_read > 0 && left > 0 {
            let ghost held: Seq<u8> = self.region@;
            let bytes: &mut Vec<u8> = region_mut(&mut self.region);
            let mut j: usize = 0;
            while j < left
                invariant
                    j <= left,
                    0 < to_read,
                    left + to_read == len <= held.len() == bytes@.len(),
                    forall|k: int| 0 <= k < j ==> bytes@[k] == held[k + to_read],
                    forall|k: int| j <= k < bytes@.len() ==> bytes@[k] == held[k],
                decreases left - j,
            {
                bytes.set(j, bytes[j + to_read]);
                j += 1;
            }
        }
        self.len = left;
        assert(self@.bytes =~= old(self)@.bytes.skip(to_read as int));
        assert(dest@ =~= old(self)@.bytes.take(to_read as int) + old(dest)@.skip(to_read as int));
        to_read
    }

    /// Appends `data`, as `append` does.
    pub fn write(&mut self, data: &[u8]) -> (written: usize)
        requires
            old(self).wf(),
            old(self)@.capacity_with(data@.len()) <= max_capacity(),
        ensures
            final(self).wf(),
            final(self)@ == old(self)@.append(data@),
            written == data@.len(),
    {
        self.append(data)
    }

    /// Does nothing: a buffer holds back no bytes that were written to it.
    pub fn flush(&mut self)
        ensures
            *final(self) == *old(self),
    {
    }
}

impl std::ops::Deref for MBuf {
    type Target = [u8];

    /// The bytes held, as a slice.
    fn deref(&self) -> (bytes: &[u8])
        ensures
            self.wf() ==> bytes@ == self@.bytes,
    {
        // A trait's method takes every value of the type, so the range is
        // bounded by the region here; in a well-formed handle it is `len`.
        let held: usize = if self.len <= self.region.len() {
            self.len
        } else {
            self.region.len()
        };
        vstd::slice::slice_subrange(self.region.as_slice(), 0, held)
    }
}

impl std::ops::DerefMut for MBuf {
    /// The bytes held, as a slice to write through. The handle gets a region
    /// of its own first where it shares one.
    fn deref_mut(&mut self) -> (bytes: &mut [u8])
        ensures
            old(self).wf() ==> bytes@ == old(self)@.bytes && final(self).wf()
                && final(self)@.bytes == final(bytes)@
                && final(self)@.capacity == old(self)@.capacity,
    {
        let held: usize = if self.len <= self.region.len() {
            self.len
        } else {
            self.region.len()
        };
        let ghost behind: Seq<u8> = self.region@.skip(held as int);
        let front: &mut [u8] = region_front_mut(region_mut(&mut self.region), held);
        assert((final(front)@ + behind).take(held as int) =~= final(front)@);
        front
    }
}

/// The bytes of a slice, for contracts of trait methods whose signature
/// leaves the slice's type to inference.
pub open spec fn held_bytes(bytes: &[u8]) -> Seq<u8> {
    bytes@
}

impl AsRef<[u8]> for MBuf {
    /// The bytes held, as a slice.
    fn as_ref(&self) -> (bytes: &[u8])
        ensures
            self.wf() ==> bytes@ == self@.bytes,
    {
        std::ops::Deref::deref(self)
    }
}

impl AsMut<[u8]> for MBuf {
    /// The bytes held, as a slice to write through.
    fn as_mut(&mut self) -> (bytes: &mut [u8])
        ensures
            old(self).wf() ==> bytes@ == old(self)@.bytes && final(self).wf()
                && final(self)@.bytes == final(bytes)@
                && final(self)@.capacity == old(self)@.capacity,
    {
        std::ops::DerefMut::deref_mut(self)
    }
}

impl std::borrow::Borrow<[u8]> for MBuf {
    /// The bytes held, as a slice.
    fn borrow(&self) -> (bytes: &[u8])
        ensures
            self.wf() ==> held_bytes(bytes) == self@.bytes,
    {
        std::ops::Deref::deref(self)
    }
}

impl std::borrow::BorrowMut<[u8]> for MBuf {
    /// The bytes held, as a slice to write through.
    fn borrow_mut(&mut self) -> (bytes: &mut [u8])
        ensures
            old(self).wf() ==> held_bytes(bytes) == old(self)@.bytes && final(self).wf()
                && final(self)@.bytes == held_bytes(final(bytes))
                && final(self)@.capacity == old(self)@.capacity,
    {
        std::ops::DerefMut::deref_mut(self)
    }
}

/// Whether a backing region with `handles` handles has a sole owner.
pub fn sole_handle(handles: usize) -> (unique: bool)
    ensures
        unique == (handles == 1),
{
    handles == 1
}

impl Clone for MBuf {
    /// A second handle over the same backing region. It holds the same bytes
    /// and reserves the same capacity.
    fn clone(&self) -> (dup: Self)
        ensures
            dup.wf() == self.wf(),
            dup@ == self@,
    {
        MBuf { region: self.region.clone(), len: self.len }
    }
}

/// What a cursor is, mathematically: the bytes of the buffer it is bound to
/// and its position among them.
pub struct CursorView {
    pub bytes: Seq<u8>,
    pub position: nat,
}

impl CursorView {
    /// The position lies within the bytes, or just behind the last.
    pub open spec fn valid(self) -> bool {
        self.position <= self.bytes.len()
    }

    /// Whether `size` more bytes lie at and behind the position.
    pub open spec fn has(self, size: nat) -> bool {
        self.position + size <= self.bytes.len()
    }

    /// The next `size` bytes.
    pub open spec fn window(self, size: nat) -> Seq<u8> {
        self.bytes.subrange(self.position as int, (self.position + size) as int)
    }

    /// The cursor moved on by `size` bytes.
    pub open spec fn advance(self, size: nat) -> CursorView {
        CursorView { bytes: self.bytes, position: self.position + size }
    }

    /// The cursor back at the first byte.
    pub open spec fn rewind(self) -> CursorView {
        CursorView { bytes: self.bytes, position: 0 }
    }
}

/// A read-only traversal of one buffer. It borrows the buffer and changes
/// nothing in it.
pub struct Cursor<'a> {
    buf: &'a MBuf,
    pos: usize,
}

impl<'a> View for Cursor<'a> {
    type V = CursorView;

    closed spec fn view(&self) -> CursorView {
        CursorView { bytes: self.buf@.bytes, position: self.pos as nat }
    }
}

impl<'a> Cursor<'a> {
    /// Well-formedness: the buffer is well-formed and the position does not
    /// exceed its length.
    pub closed spec fn wf(&self) -> bool {
        self.buf.wf() && self.pos <= self.buf.len
    }

    /// A well-formed cursor has a valid view.
    pub proof fn lemma_wf_valid(&self)
        requires
            self.wf(),
        ensures
            self@.valid(),
    {
    }

    /// Binds a cursor to `buf`, at its first byte.
    pub fn new(buf: &'a MBuf) -> (cursor: Self)
        requires
            buf.wf(),
        ensures
            cursor.wf(),
            cursor@ == (CursorView { bytes: buf@.bytes, position: 0 }),
    {
        Cursor { buf, pos: 0 }
    }

    /// The current position.
    pub fn position(&self) -> (pos: usize)
        requires
            self.wf(),
        ensures
            pos == self@.position,
            pos <= self@.bytes.len(),
    {
        self.pos
    }

    /// The byte at the position, moving on by one; `None`, and no move, where
    /// the position is the buffer's length.
    pub fn next(&mut self) -> (byte: Option<u8>)
        requires
            old(self).wf(),
        ensures
            final(self).wf(),
            old(self)@.has(1) ==> byte == Some(old(self)@.bytes[old(self)@.position as int])
                && final(self)@ == old(self)@.advance(1),
            !old(self)@.has(1) ==> byte.is_none() && final(self)@ == old(self)@,
    {
        if self.pos >= self.buf.len {
            return None;
        }
        let byte: u8 = self.buf.region[self.pos];
        self.pos += 1;
        Some(byte)
    }

    /// A view of the next `size` bytes without copying them, moving on by
    /// `size`; `None`, and no move, where fewer than `size` bytes are left.
    pub fn next_slice(&mut self, size: usize) -> (slice: Option<&'a [u8]>)
        requires
            old(self).wf(),
        ensures
            final(self).wf(),
            old(self)@.has(size as nat) ==> slice.is_some()
                && slice.unwrap()@ == old(self)@.window(size as nat)
                && final(self)@ == old(self)@.advance(size as nat),
            !old(self)@.has(size as nat) ==> slice.is_none() && final(self)@ == old(self)@,
    {
        if size > self.buf.len - self.pos {
            return None;
        }
        let slice: &'a [u8] = vstd::slice::slice_subrange(
            self.buf.region.as_slice(),
            self.pos,
            self.pos + size,
        );
        self.pos += size;
        Some(slice)
    }

    /// Moves the cursor back to the first byte.
    pub fn reset(&mut self)
        requires
            old(self).wf(),
        ensures
            final(self).wf(),
            final(self)@ == old(self)@.rewind(),
    {
        self.pos = 0;
    }
}

} // verus!
