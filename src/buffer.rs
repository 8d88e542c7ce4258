//! The output buffer: a `bytes::BytesMut` that only grows at its end and
//! hands out what it holds as frozen `bytes::Bytes` chunks.

use bytes::{Bytes, BytesMut};
use vstd::prelude::*;

verus! {

#[verifier::external_type_specification]
#[verifier::external_body]
pub struct ExBytesMut(BytesMut);

#[verifier::external_type_specification]
#[verifier::external_body]
pub struct ExBytes(Bytes);

/// The bytes that a `BytesMut` holds, in order.
pub uninterp spec fn bytes_mut_view(b: BytesMut) -> Seq<u8>;

/// The bytes that a `Bytes` holds, in order.
pub uninterp spec fn bytes_view(b: Bytes) -> Seq<u8>;

/// Relies on `BytesMut::new`: the new buffer holds nothing.
pub assume_specification[ BytesMut::new ]() -> (r: BytesMut)
    ensures
        bytes_mut_view(r) == Seq::<u8>::empty(),
;

/// Relies on `BytesMut::len`: the number of bytes held.
pub assume_specification[ BytesMut::len ](b: &BytesMut) -> (r: usize)
    ensures
        r == bytes_mut_view(*b).len(),
;

/// Relies on `BytesMut::capacity`: how many bytes the buffer can hold without
/// reallocating, which is at least what it holds. Beyond that it depends on
/// past allocations, so nothing more is claimed.
pub assume_specification[ BytesMut::capacity ](b: &BytesMut) -> (r: usize)
    ensures
        bytes_mut_view(*b).len() <= r,
;

/// Relies on `BytesMut::reserve`: the contents are kept. It panics when the
/// capacity it needs overflows `usize` or, through `Vec::reserve`, exceeds
/// `isize::MAX`; `requires` keeps what is held plus what is asked for within
/// `isize::MAX`.
pub assume_specification[ BytesMut::reserve ](b: &mut BytesMut, additional: usize)
    requires
        bytes_mut_view(*old(b)).len() + additional <= isize::MAX,
    ensures
        bytes_mut_view(*final(b)) == bytes_mut_view(*old(b)),
;

/// Relies on `BytesMut::extend_from_slice`: the bytes are appended. It
/// reserves room for them first, so the same bound is kept.
pub assume_specification[ BytesMut::extend_from_slice ](b: &mut BytesMut, extend: &[u8])
    requires
        bytes_mut_view(*old(b)).len() + extend@.len() <= isize::MAX,
    ensures
        bytes_mut_view(*final(b)) == bytes_mut_view(*old(b)) + extend@,
;

/// Relies on `BytesMut::split`: everything held moves to the result and the
/// buffer is left empty.
pub assume_specification[ BytesMut::split ](b: &mut BytesMut) -> (r: BytesMut)
    ensures
        bytes_mut_view(r) == bytes_mut_view(*old(b)),
        bytes_mut_view(*final(b)) == Seq::<u8>::empty(),
;

/// Relies on `BytesMut::freeze`: the same bytes, made immutable.
pub assume_specification[ BytesMut::freeze ](b: BytesMut) -> (r: Bytes)
    ensures
        bytes_view(r) == bytes_mut_view(b),
;

/// An append-only byte buffer that serialized records are written into.
pub struct BytesWriter(pub BytesMut);

impl View for BytesWriter {
    type V = Seq<u8>;

    open spec fn view(&self) -> Seq<u8> {
        bytes_mut_view(self.0)
    }
}

impl BytesWriter {
    /// An empty writer.
    pub fn new() -> (r: BytesWriter)
        ensures
            r@ == Seq::<u8>::empty(),
    {
        BytesWriter(BytesMut::new())
    }

    /// The number of bytes written and not yet taken.
    pub fn len(&self) -> (r: usize)
        ensures
            r == self@.len(),
    {
        self.0.len()
    }

    /// How many bytes the writer can hold before it has to grow.
    pub fn capacity(&self) -> (r: usize)
        ensures
            self@.len() <= r,
    {
        self.0.capacity()
    }

    /// Makes room for `additional` more bytes; the contents stay as they are.
    pub fn reserve(&mut self, additional: usize)
        requires
            old(self)@.len() + additional <= isize::MAX,
        ensures
            final(self)@ == old(self)@,
    {
        self.0.reserve(additional);
    }

    /// Appends `src`, returning how many bytes were written.
    pub fn write(&mut self, src: &[u8]) -> (r: usize)
        requires
            old(self)@.len() + src@.len() <= isize::MAX,
        ensures
            final(self)@ == old(self)@ + src@,
            r == src@.len(),
    {
        self.0.extend_from_slice(src);
        src.len()
    }

    /// Hands out everything written so far and leaves the writer empty.
    pub fn take(&mut self) -> (r: Bytes)
        ensures
            bytes_view(r) == old(self)@,
            final(self)@ == Seq::<u8>::empty(),
    {
        self.0.split().freeze()
    }

    /// The underlying buffer.
    pub fn finish(self) -> (r: BytesMut)
        ensures
            bytes_mut_view(r) == self@,
    {
        self.0
    }

    /// Everything written, as an immutable chunk.
    pub fn freeze(self) -> (r: Bytes)
        ensures
            bytes_view(r) == self@,
    {
        let mut b = self.0;
        b.split().freeze()
    }
}

} // verus!
