//! Executable helpers over strings and bytes.

use vstd::prelude::*;
use vstd::utf8::{
    decode_first_scalar, decode_utf8, is_leading_byte_width_1, length_of_first_scalar,
    pop_first_scalar, valid_first_scalar, valid_utf8,
};

verus! {

/// Relies on str's `PartialEq`: two slices are equal exactly when they hold
/// the same character sequence.
#[verifier::external_body]
pub(crate) fn str_eq(a: &str, b: &str) -> (r: bool)
    ensures
        r == (a@ == b@),
{
    a == b
}

/// A sequence of bytes below 128 is valid UTF-8 and decodes to one
/// character per byte, each the character of that byte's codepoint.
pub proof fn lemma_ascii_decode(bytes: Seq<u8>)
    requires
        forall|i: int| 0 <= i < bytes.len() ==> bytes[i] < 128,
    ensures
        valid_utf8(bytes),
        decode_utf8(bytes).len() == bytes.len(),
        forall|i: int| 0 <= i < bytes.len() ==> decode_utf8(bytes)[i] == bytes[i] as char,
    decreases bytes.len(),
{
    if bytes.len() == 0 {
    } else {
        let b = bytes[0];
        assert(is_leading_byte_width_1(b));
        assert(valid_first_scalar(bytes));
        assert(length_of_first_scalar(bytes) == 1);
        assert(pop_first_scalar(bytes) =~= bytes.drop_first());
        assert(b & 0x7f == b) by (bit_vector)
            requires
                b < 128,
        ;
        assert(decode_first_scalar(bytes) == b as u32);
        lemma_ascii_decode(bytes.drop_first());
        assert forall|i: int| 0 <= i < bytes.len() implies decode_utf8(bytes)[i] == bytes[i]
            as char by {
            if i > 0 {
                assert(decode_utf8(bytes)[i] == decode_utf8(bytes.drop_first())[i - 1]);
                assert(bytes.drop_first()[i - 1] == bytes[i]);
            }
        }
    }
}

/// Relies on `String::from_utf8`: it succeeds exactly on valid UTF-8 input
/// and then returns the string those bytes decode to.
#[verifier::external_body]
pub(crate) fn bytes_to_string(v: Vec<u8>) -> (r: Option<String>)
    ensures
        r is Some <==> valid_utf8(v@),
        r matches Some(s) ==> s@ == decode_utf8(v@),
{
    String::from_utf8(v).ok()
}

} // verus!
