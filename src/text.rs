//! UTF-8 decoding of received chunks, over vstd's model of the encoding.
use vstd::prelude::*;
use vstd::utf8::*;

verus! {

#[verifier::external_type_specification]
#[verifier::external_body]
pub struct ExUtf8Error(core::str::Utf8Error);

/// Relies on `core::str::from_utf8`: it succeeds exactly when the bytes are
/// well-formed UTF-8, and the text it returns is encoded by those bytes.
pub assume_specification<'a>[ core::str::from_utf8 ](v: &'a [u8]) -> (r: Result<
    &'a str,
    core::str::Utf8Error,
>)
    ensures
        r is Ok <==> valid_utf8(v@),
        r is Ok ==> r->Ok_0@ == decode_utf8(v@),
;

/// The character that a session takes as a request to end it.
pub open spec fn terminator() -> char {
    '@'
}

/// The text is non-empty and its first character is `@`.
pub open spec fn starts_with_terminator(t: Seq<char>) -> bool {
    t.len() > 0 && t[0] == terminator()
}

/// In well-formed UTF-8 the decoded text starts with `@` exactly when the
/// first byte is the one-byte encoding of `@`: a leading byte of a longer
/// encoding never stands for an ASCII character.
pub proof fn lemma_starts_with_terminator_byte(b: Seq<u8>)
    requires
        valid_utf8(b),
    ensures
        starts_with_terminator(decode_utf8(b)) <==> (b.len() > 0 && b[0] == 0x40u8),
{
    if b.len() > 0 {
        let cp = decode_first_scalar(b);
        assert(decode_utf8(b)[0] == cp as char);
        let b0 = b[0];
        if is_leading_byte_width_1(b0) {
            assert(b0 & 0x7f == b0) by (bit_vector)
                requires
                    b0 <= 0x7f,
            ;
            assert(cp == b0 as u32);
        } else {
            assert(cp >= 0x80);
        }
        char_u32_cast('@', 0x40u32);
        decode_utf8_first_scalar(b);
        assert(0x40u32 & 0x7f == 0x40) by (bit_vector);
        if cp as char == '@' {
            assert(take_first_scalar(b) == encode_scalar(0x40u32));
            assert(take_first_scalar(b)[0] == b0);
        }
    }
}

} // verus!
