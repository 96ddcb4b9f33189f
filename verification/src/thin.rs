//! Byte buffers of the `thin-vec` crate, in which the embedder exchanges data.
use thin_vec::ThinVec;
use vstd::prelude::*;

verus! {

#[verifier::external_type_specification]
#[verifier::external_body]
#[verifier::reject_recursive_types(T)]
pub struct ExThinVec<T>(thin_vec::ThinVec<T>);

/// The bytes that a buffer holds.
pub uninterp spec fn thin_bytes(buffer: ThinVec<u8>) -> Seq<u8>;

/// The byte strings that a list of buffers holds.
pub uninterp spec fn thin_lists(list: ThinVec<ThinVec<u8>>) -> Seq<Seq<u8>>;

/// Calls `ThinVec::new`: an empty buffer.
#[verifier::external_body]
pub(crate) fn thin_new() -> (buffer: ThinVec<u8>)
    ensures
        thin_bytes(buffer) == Seq::<u8>::empty(),
{
    ThinVec::new()
}

/// Calls `ThinVec::from` on a slice: a buffer with the bytes of the slice.
#[verifier::external_body]
pub(crate) fn thin_from(bytes: &[u8]) -> (buffer: ThinVec<u8>)
    ensures
        thin_bytes(buffer) == bytes@,
{
    ThinVec::from(bytes)
}

/// Calls `ThinVec::as_slice`: the bytes of the buffer.
#[verifier::external_body]
pub(crate) fn thin_slice(buffer: &ThinVec<u8>) -> (bytes: &[u8])
    ensures
        bytes@ == thin_bytes(*buffer),
{
    buffer.as_slice()
}

/// Calls `ThinVec::new`: an empty list of buffers.
#[verifier::external_body]
pub(crate) fn thin_list_new() -> (list: ThinVec<ThinVec<u8>>)
    ensures
        thin_lists(list) == Seq::<Seq<u8>>::empty(),
{
    ThinVec::new()
}

/// Calls `ThinVec::push`: adds a buffer at the end of the list.
#[verifier::external_body]
pub(crate) fn thin_list_push(list: &mut ThinVec<ThinVec<u8>>, buffer: ThinVec<u8>)
    ensures
        thin_lists(*final(list)) == thin_lists(*old(list)).push(thin_bytes(buffer)),
{
    list.push(buffer);
}

/// Calls `ThinVec::extend_from_slice`: appends the bytes of the slice.
#[verifier::external_body]
pub(crate) fn thin_extend(buffer: &mut ThinVec<u8>, bytes: &[u8])
    ensures
        thin_bytes(*final(buffer)) == thin_bytes(*old(buffer)) + bytes@,
{
    buffer.extend_from_slice(bytes);
}

}
