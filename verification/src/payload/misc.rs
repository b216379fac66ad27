use crate::buffer::bytes_to_str;
use crate::frame::utils::opt_bytes;
use bytes::Bytes;
use vstd::prelude::*;
use vstd::utf8::{decode_utf8, valid_utf8};

verus! {

/// Whether optional bytes are present and valid UTF-8.
pub open spec fn utf8_present(o: Option<Seq<u8>>) -> bool {
    o is Some && valid_utf8(o->0)
}

/// The text of optional bytes, when they are present and valid UTF-8.
pub fn bytes_to_utf8(input: &Option<Bytes>) -> (r: Option<&str>)
    ensures
        r is Some <==> utf8_present(opt_bytes(*input)),
        r matches Some(t) ==> t@ == decode_utf8(opt_bytes(*input)->0),
{
    match input {
        Some(b) => bytes_to_str(b),
        None => None,
    }
}

} // verus!
