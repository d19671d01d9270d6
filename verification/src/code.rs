//! The shape of a meeting code: three lowercase letters, a dash, four
//! lowercase letters, a dash, three lowercase letters.

use vstd::prelude::*;
use vstd::string::StringSliceAdditionalSpecFns;
use vstd::utf8::{encode_scalar, encode_utf8, is_ascii_chars, is_ascii_chars_encode_utf8, char_is_scalar};

verus! {

/// Number of bytes in a meeting code.
pub const CODE_LEN: usize = 12;

/// The byte that separates the groups of letters.
pub const DASH: u8 = 45;

/// Why a submitted code was turned down.
#[derive(Clone, Copy, Debug, PartialEq, Eq, Structural)]
pub enum CodeError {
    /// The code is not twelve bytes of the form `xxx-xxxx-xxx`.
    InvalidCodeShape,
}

impl CodeError {
    /// The text of the message, as a sequence of characters.
    pub open spec fn message_text(self) -> Seq<char> {
        "invalid code"@
    }

    /// The fixed message shown to whoever submitted the code.
    pub fn message(&self) -> (text: &'static str)
        ensures
            text@ == self.message_text(),
    {
        "invalid code"
    }
}

/// An ASCII lowercase letter, `a` to `z`.
pub open spec fn is_lowercase_byte(b: u8) -> bool {
    97 <= b <= 122
}

/// The positions of a code that hold a letter.
pub open spec fn is_letter_position(i: int) -> bool {
    0 <= i < 12 && i != 3 && i != 8
}

/// The bytes form a code: twelve of them, a dash at positions 3 and 8, and a
/// lowercase letter at each of the other ten.
pub open spec fn has_code_shape(bytes: Seq<u8>) -> bool {
    &&& bytes.len() == 12
    &&& bytes[3] == DASH
    &&& bytes[8] == DASH
    &&& forall|i: int| is_letter_position(i) ==> is_lowercase_byte(#[trigger] bytes[i])
}

/// The same shape read character by character: twelve characters, `-` at
/// positions 3 and 8, and one of `a` to `z` at each of the other ten.
pub open spec fn is_code_text(text: Seq<char>) -> bool {
    &&& text.len() == 12
    &&& text[3] == '-'
    &&& text[8] == '-'
    &&& forall|i: int| is_letter_position(i) ==> 'a' <= #[trigger] text[i] <= 'z'
}

/// The number of a character is the same whether read as `u32` or as `int`.
proof fn lemma_char_fits_u32(c: char)
    ensures
        (c as u32) as int == c as int,
{
}

/// A scalar value whose encoding starts with a byte below 128 is itself
/// below 128.
proof fn lemma_first_byte_ascii(c: u32)
    requires
        vstd::utf8::is_scalar(c),
        encode_scalar(c)[0] < 128,
    ensures
        c < 128,
{
    assert(c > 0x7F ==> (0xC0u8 | ((c >> 6) & 0x1F) as u8) >= 128) by (bit_vector);
    assert(c > 0x7F ==> (0xE0u8 | ((c >> 12) & 0x0F) as u8) >= 128) by (bit_vector);
    assert(c > 0x7F ==> (0xF0u8 | ((c >> 18) & 0x7) as u8) >= 128) by (bit_vector);
}

/// Text whose encoding holds only bytes below 128 holds only ASCII
/// characters.
pub proof fn lemma_ascii_bytes_ascii_text(text: Seq<char>)
    requires
        forall|i: int| 0 <= i < encode_utf8(text).len() ==> encode_utf8(text)[i] < 128,
    ensures
        is_ascii_chars(text),
    decreases text.len(),
{
    if text.len() > 0 {
        let head = encode_scalar(text[0] as u32);
        let rest = encode_utf8(text.drop_first());
        let all = encode_utf8(text);
        char_is_scalar(text[0]);
        assert(all[0] == head[0]);
        lemma_first_byte_ascii(text[0] as u32);
        assert forall|i: int| 0 <= i < rest.len() implies rest[i] < 128 by {
            assert(rest[i] == all[i + 1]);
        }
        lemma_ascii_bytes_ascii_text(text.drop_first());
        assert forall|i: int| 0 <= i < text.len() implies '\0' <= #[trigger] text[i] <= '\u{7f}' by {
            if i > 0 {
                assert(text[i] == text.drop_first()[i - 1]);
            } else {
                lemma_char_fits_u32(text[0]);
            }
        }
    }
}

/// A text is accepted by its bytes exactly when it reads `xxx-xxxx-xxx`
/// with a lowercase letter for every `x`.
pub proof fn lemma_shape_of_text(text: Seq<char>)
    ensures
        has_code_shape(encode_utf8(text)) <==> is_code_text(text),
{
    let bytes = encode_utf8(text);
    if has_code_shape(bytes) {
        assert forall|i: int| 0 <= i < bytes.len() implies bytes[i] < 128 by {
            if i != 3 && i != 8 {
                assert(is_letter_position(i));
            }
        }
        lemma_ascii_bytes_ascii_text(text);
        is_ascii_chars_encode_utf8(text);
        assert forall|i: int| is_letter_position(i) implies 'a' <= #[trigger] text[i] <= 'z' by {
            assert(text[i] as u8 == bytes[i]);
        }
        assert(text[3] as u8 == bytes[3]);
        assert(text[8] as u8 == bytes[8]);
    }
    if is_code_text(text) {
        assert forall|i: int| 0 <= i < text.len() implies '\0' <= #[trigger] text[i] <= '\u{7f}' by {
            if i != 3 && i != 8 {
                assert(is_letter_position(i));
            }
        }
        is_ascii_chars_encode_utf8(text);
        assert forall|i: int| is_letter_position(i) implies is_lowercase_byte(#[trigger] bytes[i]) by {
            assert(text[i] as u8 == bytes[i]);
        }
        assert(text[3] as u8 == bytes[3]);
        assert(text[8] as u8 == bytes[8]);
    }
}

/// Tests one byte for being an ASCII lowercase letter.
pub fn is_lowercase(b: u8) -> (yes: bool)
    ensures
        yes == is_lowercase_byte(b),
{
    97 <= b && b <= 122
}

/// Decides whether `bytes` form a code. Nothing is normalised: neither case
/// nor surrounding blanks.
pub fn is_code(bytes: &[u8]) -> (yes: bool)
    ensures
        yes == has_code_shape(bytes@),
{
    if bytes.len() != CODE_LEN {
        return false;
    }
    let mut i: usize = 0;
    while i < CODE_LEN
        invariant
            bytes@.len() == 12,
            i <= 12,
            forall|j: int| 0 <= j < i && is_letter_position(j) ==> is_lowercase_byte(#[trigger] bytes@[j]),
        decreases 12 - i,
    {
        if i != 3 && i != 8 && !is_lowercase(bytes[i]) {
            return false;
        }
        i += 1;
    }
    bytes[3] == DASH && bytes[8] == DASH
}

/// Accepts `code` if and only if its bytes form a code.
pub fn validate_code(code: &str) -> (outcome: Result<(), CodeError>)
    ensures
        outcome is Ok <==> is_code_text(code@),
        outcome is Ok <==> has_code_shape(code.spec_bytes()),
        outcome is Err ==> outcome == Err::<(), CodeError>(CodeError::InvalidCodeShape),
{
    proof {
        lemma_shape_of_text(code@);
    }
    if is_code(code.as_bytes()) {
        Ok(())
    } else {
        Err(CodeError::InvalidCodeShape)
    }
}

} // verus!
