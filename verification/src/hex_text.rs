//! Signatures as text: two hexadecimal digits per byte.

use vstd::prelude::*;

use hex::FromHex;

use crate::track::Signature;

verus! {

/// The small hexadecimal digit of a number below 16.
pub open spec fn hex_digit(value: int) -> char {
    if value < 10 {
        ('0' as int + value) as char
    } else {
        ('a' as int + value - 10) as char
    }
}

/// The value of a hexadecimal digit, small or capital.
pub open spec fn digit_value(digit: char) -> Option<int> {
    if '0' <= digit <= '9' {
        Some(digit as int - '0' as int)
    } else if 'a' <= digit <= 'f' {
        Some(digit as int - 'a' as int + 10)
    } else if 'A' <= digit <= 'F' {
        Some(digit as int - 'A' as int + 10)
    } else {
        None
    }
}

/// Bytes as small hexadecimal digits, the high half of each byte first.
pub open spec fn hex_of(bytes: Seq<u8>) -> Seq<char> {
    Seq::new(
        2 * bytes.len(),
        |i: int|
            if i % 2 == 0 {
                hex_digit(bytes[i / 2] as int / 16)
            } else {
                hex_digit(bytes[i / 2] as int % 16)
            },
    )
}

/// Whether a text is a signature in hexadecimal.
pub open spec fn is_signature_text(text: Seq<char>) -> bool {
    &&& text.len() == 64
    &&& forall|i: int| 0 <= i < text.len() ==> digit_value(#[trigger] text[i]) is Some
}

/// The bytes that pairs of hexadecimal digits stand for.
pub open spec fn bytes_of(text: Seq<char>) -> Seq<u8> {
    Seq::new(
        text.len() / 2,
        |i: int|
            (16 * digit_value(text[2 * i])->Some_0 + digit_value(text[2 * i + 1])->Some_0) as u8,
    )
}

/// `hex::encode`.
///
/// Claimed: the text is the bytes' small hexadecimal digits, two to a byte.
#[verifier::external_body]
pub(crate) fn encode_signature(signature: &Signature) -> (text: String)
    ensures
        text@ == hex_of(signature@),
{
    hex::encode(signature)
}

/// `from_hex` of the `hex` crate, into 32 bytes.
///
/// Claimed: it succeeds exactly on 64 hexadecimal digits, small or capital, and gives
/// the bytes that they stand for.
#[verifier::external_body]
pub(crate) fn decode_signature(text: &str) -> (signature: Option<Signature>)
    ensures
        match signature {
            Some(signature) => is_signature_text(text@) && signature@ == bytes_of(text@),
            None => !is_signature_text(text@),
        },
{
    Signature::from_hex(text).ok()
}

/// A signature's text is read back as the same signature.
pub proof fn law_hex_reads_back(signature: Seq<u8>)
    requires
        signature.len() == 32,
    ensures
        is_signature_text(hex_of(signature)),
        bytes_of(hex_of(signature)) == signature,
{
    let text = hex_of(signature);
    assert forall|i: int| 0 <= i < text.len() implies digit_value(#[trigger] text[i]) is Some by {
        let byte = signature[i / 2];
        assert(0 <= byte as int / 16 < 16 && 0 <= byte as int % 16 < 16);
    }
    assert forall|i: int| 0 <= i < 32 implies bytes_of(text)[i] == signature[i] by {
        let byte = signature[i];
        assert(2 * i / 2 == i && (2 * i + 1) / 2 == i);
        assert(digit_value(text[2 * i]) == Some(byte as int / 16));
        assert(digit_value(text[2 * i + 1]) == Some(byte as int % 16));
    }
    assert(bytes_of(text) =~= signature);
}

/// A text that is a signature is written back with small digits.
pub proof fn law_hex_writes_small_digits(text: Seq<char>)
    requires
        is_signature_text(text),
    ensures
        hex_of(bytes_of(text)).len() == text.len(),
        forall|i: int|
            0 <= i < text.len() ==> #[trigger] hex_of(bytes_of(text))[i] == hex_digit(
                digit_value(text[i])->Some_0,
            ),
{
    assert forall|i: int| 0 <= i < text.len() implies #[trigger] hex_of(bytes_of(text))[i]
        == hex_digit(digit_value(text[i])->Some_0) by {
        let k = i / 2;
        assert(digit_value(text[2 * k]) is Some);
        assert(digit_value(text[2 * k + 1]) is Some);
        let high = digit_value(text[2 * k])->Some_0;
        let low = digit_value(text[2 * k + 1])->Some_0;
        assert(0 <= high < 16 && 0 <= low < 16);
        assert(bytes_of(text)[k] as int == 16 * high + low);
        assert((16 * high + low) / 16 == high && (16 * high + low) % 16 == low);
        assert(i == 2 * k || i == 2 * k + 1);
    }
}

/// A signature's text is 64 digits long, and each digit is 0 to 9 or a letter from A to F,
/// small or capital; any such text is a signature.
pub proof fn law_signature_texts(text: Seq<char>)
    ensures
        is_signature_text(text) <==> text.len() == 64 && forall|i: int|
            0 <= i < text.len() ==> ('0' <= #[trigger] text[i] <= '9' || 'a' <= text[i] <= 'f' || 'A'
                <= text[i] <= 'F'),
{
    if is_signature_text(text) {
        assert forall|i: int| 0 <= i < text.len() implies ('0' <= #[trigger] text[i] <= '9' || 'a'
            <= text[i] <= 'f' || 'A' <= text[i] <= 'F') by {
            assert(digit_value(text[i]) is Some);
        }
    }
}

/// A byte's text is its high half and then its low half, each by its place among the
/// sixteen digits.
pub proof fn law_bytes_are_written_by_halves(bytes: Seq<u8>, i: int)
    requires
        0 <= i < bytes.len(),
    ensures
        hex_of(bytes).len() == 2 * bytes.len(),
        hex_of(bytes)[2 * i] == "0123456789abcdef"@[bytes[i] as int / 16],
        hex_of(bytes)[2 * i + 1] == "0123456789abcdef"@[bytes[i] as int % 16],
{
    reveal_strlit("0123456789abcdef");
    assert((2 * i) / 2 == i && (2 * i) % 2 == 0 && (2 * i + 1) / 2 == i && (2 * i + 1) % 2 == 1);
    let high = bytes[i] as int / 16;
    let low = bytes[i] as int % 16;
    assert(0 <= high < 16 && 0 <= low < 16);
    assert(hex_digit(high) == "0123456789abcdef"@[high]);
    assert(hex_digit(low) == "0123456789abcdef"@[low]);
}

/// Texts that differ only in the case of their letters stand for the same bytes.
pub proof fn law_digits_have_no_case(a: Seq<char>, b: Seq<char>)
    requires
        a.len() == b.len(),
        forall|i: int|
            0 <= i < a.len() ==> (#[trigger] a[i] == b[i] || 'a' <= a[i] <= 'f' && a[i] as int
                == b[i] as int + 32),
    ensures
        bytes_of(a) == bytes_of(b),
        is_signature_text(b) ==> is_signature_text(a),
{
    assert forall|i: int| 0 <= i < a.len() implies digit_value(#[trigger] a[i]) == digit_value(
        b[i],
    ) by {}
    assert forall|i: int| 0 <= i < bytes_of(a).len() implies bytes_of(a)[i] == bytes_of(b)[i] by {
        assert(0 <= 2 * i < a.len() && 0 <= 2 * i + 1 < a.len());
        assert(digit_value(a[2 * i]) == digit_value(b[2 * i]));
        assert(digit_value(a[2 * i + 1]) == digit_value(b[2 * i + 1]));
    }
    assert(bytes_of(a) =~= bytes_of(b));
}

} // verus!
