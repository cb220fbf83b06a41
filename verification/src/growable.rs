//! The growable buffer of the `bytes` crate, as far as the reader uses it.

use vstd::prelude::*;
use bytes::BytesMut;

verus! {

/// `bytes::BytesMut`, of which nothing is known but what the wrappers below
/// say.
#[verifier::external_type_specification]
#[verifier::external_body]
pub struct ExBytesMut(BytesMut);

/// The bytes that a buffer holds, first to last.
pub uninterp spec fn held(buffer: BytesMut) -> Seq<u8>;

/// `BytesMut::as_ref`: the bytes that the buffer holds, as a slice.
#[verifier::external_body]
pub(crate) fn buffer_bytes(buffer: &BytesMut) -> (bytes: &[u8])
    ensures
        bytes@ == held(*buffer),
{
    buffer.as_ref()
}

/// `BytesMut::extend_from_slice`: appends `extend` to the buffer, which may
/// move it. The call is kept from lengths that no allocation can have; running
/// out of memory is not modelled.
#[verifier::external_body]
pub(crate) fn buffer_extend(buffer: &mut BytesMut, extend: &[u8])
    requires
        held(*old(buffer)).len() + extend@.len() <= isize::MAX,
    ensures
        held(*final(buffer)) == held(*old(buffer)) + extend@,
{
    buffer.extend_from_slice(extend)
}

/// `BytesMut::split_to`: takes the first `at` bytes out of the buffer and
/// returns them; the buffer keeps the rest. The crate panics where `at` is
/// more than the buffer holds, so that is not asked of it.
#[verifier::external_body]
pub(crate) fn buffer_split_to(buffer: &mut BytesMut, at: usize) -> (head: BytesMut)
    requires
        at <= held(*old(buffer)).len(),
    ensures
        held(head) == held(*old(buffer)).take(at as int),
        held(*final(buffer)) == held(*old(buffer)).skip(at as int),
{
    buffer.split_to(at)
}

} // verus!
