//! Byte-level text rules shared by gRPC metadata values and by the echo messages.

use vstd::prelude::*;
use vstd::utf8::*;

verus! {

/// A byte that a metadata value may hold (`is_valid` in the `http` crate):
/// every byte from space upwards except DEL, and the horizontal tab.
pub open spec fn header_value_byte(b: u8) -> bool {
    (b >= 32 && b != 127) || b == 9
}

/// A byte that reads back as text (`is_visible_ascii` in the `http` crate):
/// visible ASCII, space and the horizontal tab.
pub open spec fn visible_ascii_byte(b: u8) -> bool {
    (32 <= b && b < 127) || b == 9
}

/// Every byte of `bytes` may stand in a metadata value.
pub open spec fn all_header_value_bytes(bytes: Seq<u8>) -> bool {
    forall|i: int| 0 <= i < bytes.len() ==> header_value_byte(#[trigger] bytes[i])
}

/// Every byte of `bytes` is visible ASCII (or space, or tab).
pub open spec fn all_visible_ascii(bytes: Seq<u8>) -> bool {
    forall|i: int| 0 <= i < bytes.len() ==> visible_ascii_byte(#[trigger] bytes[i])
}

/// The characters that ASCII bytes stand for, one for one.
pub open spec fn ascii_chars_of(bytes: Seq<u8>) -> Seq<char> {
    Seq::new(bytes.len(), |i: int| bytes[i] as char)
}

/// Bytes below 128 are valid UTF-8, and they decode one character per byte.
pub proof fn lemma_ascii_bytes_decode(bytes: Seq<u8>)
    requires
        forall|i: int| 0 <= i < bytes.len() ==> #[trigger] bytes[i] < 128,
    ensures
        valid_utf8(bytes),
        decode_utf8(bytes) == ascii_chars_of(bytes),
        encode_utf8(ascii_chars_of(bytes)) == bytes,
{
    let cs = ascii_chars_of(bytes);
    assert forall|i: int| 0 <= i < cs.len() implies '\0' <= #[trigger] cs[i] <= '\u{7f}' by {
        let b = bytes[i];
        assert(b < 128);
        assert((b as char) as u32 == b as u32);
    }
    assert(is_ascii_chars(cs));
    is_ascii_chars_encode_utf8(cs);
    assert forall|i: int| 0 <= i < bytes.len() implies encode_utf8(cs)[i] == bytes[i] by {
        let b = bytes[i];
        assert(cs[i] == b as char);
        assert((b as char) as u8 == b);
    }
    assert(encode_utf8(cs) =~= bytes);
    encode_utf8_valid_utf8(cs);
    encode_utf8_decode_utf8(cs);
}

/// A value reads back as text exactly when each of its bytes is printable
/// ASCII (32 to 126) or a tab; a comma, a quote or an equals sign is as good
/// as a letter.
pub proof fn lemma_visible_ascii_bounds(bytes: Seq<u8>)
    ensures
        all_visible_ascii(bytes) <==> forall|i: int|
            0 <= i < bytes.len() ==> (32 <= #[trigger] bytes[i] < 127 || bytes[i] == 9),
{
}

/// The text of ASCII bytes has one character per byte, each the byte itself.
pub proof fn lemma_ascii_chars_one_per_byte(bytes: Seq<u8>)
    ensures
        ascii_chars_of(bytes).len() == bytes.len(),
        forall|i: int| 0 <= i < bytes.len() ==> #[trigger] ascii_chars_of(bytes)[i] == bytes[i] as char,
{
}

/// A value may be written exactly when each of its bytes is a tab, or at least
/// 32 and not DEL (127).
pub proof fn lemma_header_value_bounds(bytes: Seq<u8>)
    ensures
        all_header_value_bytes(bytes) <==> forall|i: int|
            0 <= i < bytes.len() ==> ((32 <= #[trigger] bytes[i] && bytes[i] != 127) || bytes[i] == 9),
{
}

/// `std::str::from_utf8`: the text that `bytes` encode, where they are valid UTF-8.
#[verifier::external_body]
fn utf8_text(bytes: &[u8]) -> (r: Option<&str>)
    ensures
        r is Some <==> valid_utf8(bytes@),
        r matches Some(s) ==> s@ == decode_utf8(bytes@),
{
    std::str::from_utf8(bytes).ok()
}

/// Reads a metadata value as text: `Some` exactly when every byte is visible
/// ASCII (the rule of `to_str` in `tonic` and `http`), and then the text has
/// one character per byte.
pub fn visible_ascii_text(bytes: &[u8]) -> (r: Option<&str>)
    ensures
        r is Some <==> all_visible_ascii(bytes@),
        r is Some <==> forall|i: int|
            0 <= i < bytes@.len() ==> (32 <= #[trigger] bytes@[i] < 127 || bytes@[i] == 9),
        r matches Some(s) ==> s@ == ascii_chars_of(bytes@) && s@ == decode_utf8(bytes@),
        r matches Some(s) ==> s@.len() == bytes@.len() && forall|i: int|
            0 <= i < bytes@.len() ==> #[trigger] s@[i] == bytes@[i] as char,
{
    let mut i: usize = 0;
    while i < bytes.len()
        invariant
            i <= bytes@.len(),
            forall|j: int| 0 <= j < i ==> visible_ascii_byte(#[trigger] bytes@[j]),
        decreases bytes@.len() - i,
    {
        let b = bytes[i];
        if !((32 <= b && b < 127) || b == 9) {
            return None;
        }
        i = i + 1;
    }
    proof {
        assert forall|j: int| 0 <= j < bytes@.len() implies #[trigger] bytes@[j] < 128 by {
            assert(visible_ascii_byte(bytes@[j]));
        }
        lemma_ascii_bytes_decode(bytes@);
    }
    utf8_text(bytes)
}

} // verus!
