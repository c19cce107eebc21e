//! Buffers of the `bytes` crate.
use bytes::{Bytes, BytesMut};
use vstd::prelude::*;

verus! {

/// `bytes::Bytes`, bytes that can be shared.
#[verifier::external_type_specification]
#[verifier::external_body]
pub struct ExBytes(bytes::Bytes);

/// `bytes::BytesMut`, a buffer of bytes.
#[verifier::external_type_specification]
#[verifier::external_body]
pub struct ExBytesMut(bytes::BytesMut);

/// The bytes that shared bytes hold.
pub uninterp spec fn shared_contents(b: Bytes) -> Seq<u8>;

/// The bytes that a buffer holds.
pub uninterp spec fn buffer_contents(b: BytesMut) -> Seq<u8>;

/// The room that a buffer was made with, in bytes. What the allocator gave may be
/// more.
pub uninterp spec fn buffer_room(b: BytesMut) -> nat;

/// `Bytes::len`: the number of bytes.
#[verifier::external_body]
pub(crate) fn shared_len(b: &Bytes) -> (n: usize)
    ensures
        n == shared_contents(*b).len(),
{
    b.len()
}

/// `Bytes::slice`: the bytes from one position to another, which have to lie
/// within the bytes in this order.
#[verifier::external_body]
pub(crate) fn shared_slice(b: &Bytes, from: usize, to: usize) -> (r: Bytes)
    requires
        from <= to <= shared_contents(*b).len(),
    ensures
        shared_contents(r) == shared_contents(*b).subrange(from as int, to as int),
{
    b.slice(from..to)
}

/// `BytesMut::with_capacity`: an empty buffer that can hold at least so many bytes.
/// How much more it can hold is the allocator's choice.
#[verifier::external_body]
pub(crate) fn buffer_with_capacity(capacity: usize) -> (b: BytesMut)
    requires
        capacity <= isize::MAX,
    ensures
        buffer_contents(b).len() == 0,
        buffer_room(b) == capacity,
{
    BytesMut::with_capacity(capacity)
}

/// `BytesMut::capacity`: how much a buffer can hold, which is no less than what it
/// holds and than the room that it was made with.
#[verifier::external_body]
pub(crate) fn buffer_capacity(b: &BytesMut) -> (n: usize)
    ensures
        n >= buffer_contents(*b).len(),
        n >= buffer_room(*b),
{
    b.capacity()
}

/// `BytesMut::len`: the number of bytes.
#[verifier::external_body]
pub(crate) fn buffer_len(b: &BytesMut) -> (n: usize)
    ensures
        n == buffer_contents(*b).len(),
{
    b.len()
}

/// `BytesMut::clear`: the buffer holds nothing, and has the room that it had.
#[verifier::external_body]
pub(crate) fn buffer_clear(b: &mut BytesMut)
    ensures
        buffer_contents(*final(b)).len() == 0,
        buffer_room(*final(b)) == buffer_room(*old(b)),
{
    b.clear()
}

/// Some bytes cut off at a length, or filled up to it.
pub open spec fn resized(s: Seq<u8>, len: nat, value: u8) -> Seq<u8> {
    if len <= s.len() {
        s.subrange(0, len as int)
    } else {
        s + Seq::new((len - s.len()) as nat, |i: int| value)
    }
}

/// `BytesMut::resize`: the bytes are cut off at a length, or filled up to it with
/// a value. The buffer can hold no less than before.
#[verifier::external_body]
pub(crate) fn buffer_resize(b: &mut BytesMut, len: usize, value: u8)
    requires
        len <= isize::MAX,
    ensures
        buffer_contents(*final(b)) == resized(buffer_contents(*old(b)), len as nat, value),
        buffer_room(*final(b)) == buffer_room(*old(b)),
{
    b.resize(len, value)
}

/// `BytesMut` as a slice: what it holds.
#[verifier::external_body]
pub(crate) fn buffer_slice(b: &BytesMut) -> (s: &[u8])
    ensures
        s@ == buffer_contents(*b),
{
    &b[..]
}

/// `BytesMut` as a slice that can be written: what it holds is what the slice
/// ends up with.
#[verifier::external_body]
pub(crate) fn buffer_slice_mut(b: &mut BytesMut) -> (s: &mut [u8])
    ensures
        s@ == buffer_contents(*old(b)),
        buffer_contents(*final(b)) == final(s)@,
        buffer_room(*final(b)) == buffer_room(*old(b)),
{
    &mut b[..]
}

/// `BytesMut::extend_from_slice`: more bytes come behind those in the buffer, which
/// can hold no less than before.
#[verifier::external_body]
pub(crate) fn buffer_extend(b: &mut BytesMut, data: &[u8])
    requires
        buffer_contents(*old(b)).len() + data@.len() <= isize::MAX,
    ensures
        buffer_contents(*final(b)) == buffer_contents(*old(b)) + data@,
        buffer_room(*final(b)) == buffer_room(*old(b)),
{
    b.extend_from_slice(data)
}

/// `BytesMut::freeze`: the same bytes, shared.
#[verifier::external_body]
pub(crate) fn buffer_freeze(b: BytesMut) -> (r: Bytes)
    ensures
        shared_contents(r) == buffer_contents(b),
{
    b.freeze()
}

/// Bytes that are cut off keep their beginning, bytes that are filled up keep all and
/// end in the value; cutting off what was filled up gives the bytes back.
pub proof fn resizing_keeps_the_beginning(s: Seq<u8>, len: nat, value: u8, i: int)
    requires
        0 <= i < len,
    ensures
        resized(s, len, value).len() == len,
        i < s.len() ==> resized(s, len, value)[i] == s[i],
        i >= s.len() ==> resized(s, len, value)[i] == value,
        len >= s.len() ==> resized(resized(s, len, value), s.len(), value) == s,
{
    if len >= s.len() {
        assert(resized(resized(s, len, value), s.len(), value) =~= s);
    }
}

} // verus!
