//! Names as byte strings, and their conversion to `String`.
use vstd::prelude::*;
use vstd::utf8::{encode_utf8, valid_utf8};

verus! {

/// The bytes of `java/lang/Object`.
pub open spec fn object_name() -> Seq<u8> {
    seq![106u8, 97, 118, 97, 47, 108, 97, 110, 103, 47, 79, 98, 106, 101, 99, 116]
}

/// The bytes of `java/lang/String`.
pub open spec fn string_name() -> Seq<u8> {
    seq![106u8, 97, 118, 97, 47, 108, 97, 110, 103, 47, 83, 116, 114, 105, 110, 103]
}

/// The bytes of `java/lang/Object`.
pub fn object_class_name() -> (r: Vec<u8>)
    ensures
        r@ == object_name(),
{
    let r: Vec<u8> = vec![106u8, 97, 118, 97, 47, 108, 97, 110, 103, 47, 79, 98, 106, 101, 99, 116];
    assert(r@ =~= object_name());
    r
}

/// The bytes of `java/lang/String`.
pub fn string_class_name() -> (r: Vec<u8>)
    ensures
        r@ == string_name(),
{
    let r: Vec<u8> = vec![106u8, 97, 118, 97, 47, 108, 97, 110, 103, 47, 83, 116, 114, 105, 110, 103];
    assert(r@ =~= string_name());
    r
}

/// The UTF-8 bytes of `s`.
pub fn string_bytes(s: &String) -> (r: &[u8])
    ensures
        r@ == encode_utf8(s@),
{
    s.as_str().as_bytes()
}

/// Calls `String::from_utf8`. The contract claims what its documentation says: the
/// result is `Some` exactly for well-formed UTF-8, and the string then holds the bytes
/// that were given.
#[verifier::external_body]
pub(crate) fn string_from_utf8(bytes: Vec<u8>) -> (r: Option<String>)
    ensures
        r is Some <==> valid_utf8(bytes@),
        r matches Some(s) ==> encode_utf8(s@) == bytes@,
{
    String::from_utf8(bytes).ok()
}

} // verus!
