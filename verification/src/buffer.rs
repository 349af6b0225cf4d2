//! The receive buffer of a console lane: `bytes::BytesMut`, seen as the bytes it holds.

use bytes::BytesMut;
use vstd::prelude::*;

verus! {

/// The growable byte buffer of the `bytes` crate.
#[verifier::external_type_specification]
#[verifier::external_body]
pub struct ExBytesMut(BytesMut);

/// The bytes that a buffer holds, oldest first.
pub uninterp spec fn buffered(buffer: BytesMut) -> Seq<u8>;

/// `BytesMut::new`: a buffer that holds nothing.
#[verifier::external_body]
pub(crate) fn new_buffer() -> (buffer: BytesMut)
    ensures
        buffered(buffer) == Seq::<u8>::empty(),
{
    BytesMut::new()
}

/// `BytesMut::as_ref`: the held bytes as a slice.
#[verifier::external_body]
pub(crate) fn buffer_bytes(buffer: &BytesMut) -> (bytes: &[u8])
    ensures
        bytes@ == buffered(*buffer),
{
    buffer.as_ref()
}

/// `BytesMut::split_to`: removes the first `at` bytes and hands them out. It panics where fewer
/// are held, which `requires` excludes.
#[verifier::external_body]
pub(crate) fn buffer_split(buffer: &mut BytesMut, at: usize) -> (front: Vec<u8>)
    requires
        at <= buffered(*old(buffer)).len(),
    ensures
        front@ == buffered(*old(buffer)).subrange(0, at as int),
        buffered(*final(buffer)) == buffered(*old(buffer)).subrange(
            at as int,
            buffered(*old(buffer)).len() as int,
        ),
{
    buffer.split_to(at).to_vec()
}

/// `BytesMut::extend_from_slice`: appends a copy of `bytes`. It panics where the length cannot be
/// represented, which `requires` excludes.
#[verifier::external_body]
pub(crate) fn buffer_extend(buffer: &mut BytesMut, bytes: &[u8])
    requires
        buffered(*old(buffer)).len() + bytes@.len() <= isize::MAX / 2,
    ensures
        buffered(*final(buffer)) == buffered(*old(buffer)) + bytes@,
{
    buffer.extend_from_slice(bytes)
}

} // verus!
