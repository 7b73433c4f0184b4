//! A byte buffer that grows at the back and is taken from at the front.
use bytes::BytesMut;
use vstd::prelude::*;

verus! {

/// `bytes::BytesMut`: a growable byte buffer.
#[verifier::external_type_specification]
#[verifier::external_body]
pub struct ExBytesMut(bytes::BytesMut);

/// The bytes that a buffer holds, in order.
pub uninterp spec fn buffered(buffer: bytes::BytesMut) -> Seq<u8>;

/// `bytes::BytesMut::new`: a buffer that holds nothing.
#[verifier::external_body]
pub(crate) fn new_buffer() -> (r: BytesMut)
    ensures
        buffered(r) == Seq::<u8>::empty(),
{
    BytesMut::new()
}

/// `bytes::BytesMut::len`: how many bytes the buffer holds.
#[verifier::external_body]
pub(crate) fn buffer_len(buffer: &BytesMut) -> (r: usize)
    ensures
        r == buffered(*buffer).len(),
{
    buffer.len()
}

/// `bytes::BytesMut::extend_from_slice`: the bytes come behind those that are there. All of them
/// together have a length.
#[verifier::external_body]
pub(crate) fn buffer_extend(buffer: &mut BytesMut, data: &[u8])
    requires
        buffered(*old(buffer)).len() + data@.len() <= usize::MAX,
    ensures
        buffered(*final(buffer)) == buffered(*old(buffer)) + data@,
{
    buffer.extend_from_slice(data)
}

/// `bytes::BytesMut::split_to`: the first `n` bytes leave the buffer, which holds at least as many.
#[verifier::external_body]
pub(crate) fn buffer_take(buffer: &mut BytesMut, n: usize) -> (r: Vec<u8>)
    requires
        n <= buffered(*old(buffer)).len(),
    ensures
        r@ == buffered(*old(buffer)).take(n as int),
        buffered(*final(buffer)) == buffered(*old(buffer)).skip(n as int),
{
    Vec::from(buffer.split_to(n))
}

} // verus!
