//! Payload codec for the values the zone protocol carries: a single string
//! (an object uid or a node path), encoded as a flexbuffer.

use vstd::prelude::*;

verus! {

/// The flexbuffer encoding of a string; a function of the characters alone.
pub uninterp spec fn flex_str_encode(s: Seq<char>) -> Seq<u8>;

/// The string a flexbuffer holds, if it holds exactly one.
pub uninterp spec fn flex_str_decode(data: Seq<u8>) -> Option<Seq<char>>;

/// Relies on stardust_xr::schemas::flex::serialize: a string always
/// serializes (its serializer only appends to a builder), and the bytes
/// depend on the characters alone.
#[verifier::external_body]
pub(crate) fn flex_write_str(s: &String) -> (r: Vec<u8>)
    ensures
        r@ == flex_str_encode(s@),
{
    stardust_xr::schemas::flex::serialize(s).unwrap()
}

/// Relies on stardust_xr::schemas::flex::deserialize: reads the single
/// string a flexbuffer holds, and fails on anything else.
#[verifier::external_body]
pub(crate) fn flex_read_str(data: &Vec<u8>) -> (r: Option<String>)
    ensures
        r is Some <==> flex_str_decode(data@) is Some,
        r is Some ==> r->Some_0@ == flex_str_decode(data@)->Some_0,
{
    stardust_xr::schemas::flex::deserialize::<String>(data.as_slice()).ok()
}

} // verus!
