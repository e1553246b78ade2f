//! The byte buffer of the `bytes` crate, as far as the codec uses it.

use bytes::{Buf, BufMut, BytesMut};
use vstd::prelude::*;

verus! {

/// `bytes::BytesMut`, the growable byte buffer that frames are read from and
/// written to. Verus sees nothing inside it.
#[verifier::external_type_specification]
#[verifier::external_body]
pub struct ExBytesMut(BytesMut);

/// The bytes that a buffer holds, from its front to its back.
pub uninterp spec fn buffered(buf: &BytesMut) -> Seq<u8>;

/// `BytesMut::new`: a buffer that holds no bytes.
#[verifier::external_body]
pub(crate) fn buf_new() -> (buf: BytesMut)
    ensures
        buffered(&buf) == Seq::<u8>::empty(),
{
    BytesMut::new()
}

/// `BytesMut::len`: the number of bytes held.
#[verifier::external_body]
pub(crate) fn buf_len(buf: &BytesMut) -> (n: usize)
    ensures
        n == buffered(buf).len(),
{
    buf.len()
}

/// The `Deref` of `BytesMut` to `[u8]`: the held bytes as a slice.
#[verifier::external_body]
pub(crate) fn buf_slice(buf: &BytesMut) -> (s: &[u8])
    ensures
        s@ == buffered(buf),
{
    &buf[..]
}

/// `BytesMut::split_to`: takes the first `at` bytes out of the buffer and
/// returns them, leaving the rest. The outside function panics when `at` is
/// past the end.
#[verifier::external_body]
pub(crate) fn buf_split_to(buf: &mut BytesMut, at: usize) -> (head: BytesMut)
    requires
        at <= buffered(old(buf)).len(),
    ensures
        buffered(&head) == buffered(old(buf)).take(at as int),
        buffered(final(buf)) == buffered(old(buf)).skip(at as int),
{
    buf.split_to(at)
}

/// `Buf::advance` on `BytesMut`: drops the first `cnt` bytes. The outside
/// function panics when `cnt` is past the end.
#[verifier::external_body]
pub(crate) fn buf_advance(buf: &mut BytesMut, cnt: usize)
    requires
        cnt <= buffered(old(buf)).len(),
    ensures
        buffered(final(buf)) == buffered(old(buf)).skip(cnt as int),
{
    buf.advance(cnt)
}

/// `BytesMut::reserve`: makes room for `additional` more bytes; the held
/// bytes stay as they are. The outside function panics when the new capacity
/// does not fit in `usize`.
#[verifier::external_body]
pub(crate) fn buf_reserve(buf: &mut BytesMut, additional: usize)
    requires
        buffered(old(buf)).len() + additional <= usize::MAX,
    ensures
        buffered(final(buf)) == buffered(old(buf)),
{
    buf.reserve(additional)
}

/// `BufMut::put_slice` on `BytesMut`: appends `src` at the back, growing the
/// buffer as needed.
#[verifier::external_body]
pub(crate) fn buf_put_slice(buf: &mut BytesMut, src: &[u8])
    requires
        buffered(old(buf)).len() + src@.len() <= usize::MAX,
    ensures
        buffered(final(buf)) == buffered(old(buf)) + src@,
{
    buf.put_slice(src)
}

} // verus!
