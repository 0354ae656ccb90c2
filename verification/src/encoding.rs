//! The two text encodings that bundles travel in: hex for keys, base64 for
//! payloads and signatures.
//!
//! [`hex_text`] and [`base64_text`] say what the texts of a byte sequence are;
//! [`hex_value`] and [`base64_value`] say which bytes a text stands for, if any.
use vstd::prelude::*;

use base64::engine::general_purpose::STANDARD;
use base64::Engine;

verus! {

/// Why `hex::decode` turned a text down.
#[verifier::external_type_specification]
#[verifier::external_body]
pub struct ExFromHexError(hex::FromHexError);

/// Why the base64 engine turned a text down.
#[verifier::external_type_specification]
#[verifier::external_body]
pub struct ExDecodeError(base64::DecodeError);

// ---- hex -------------------------------------------------------------------

/// The lowercase hex digit of a number below sixteen.
pub open spec fn hex_digit(v: int) -> char {
    if v < 10 {
        (48 + v) as char
    } else {
        (87 + v) as char
    }
}

/// The number that a hex digit of either case stands for.
pub open spec fn hex_digit_value(c: char) -> Option<int> {
    if '0' <= c <= '9' {
        Some(c as int - 48)
    } else if 'a' <= c <= 'f' {
        Some(c as int - 87)
    } else if 'A' <= c <= 'F' {
        Some(c as int - 55)
    } else {
        None
    }
}

/// The canonical hex text of `bytes`: two lowercase digits per byte, high
/// digit first.
pub open spec fn hex_text(bytes: Seq<u8>) -> Seq<char> {
    Seq::new(
        2 * bytes.len(),
        |i: int|
            hex_digit(
                if i % 2 == 0 {
                    bytes[i / 2] as int / 16
                } else {
                    bytes[i / 2] as int % 16
                },
            ),
    )
}

/// Whether `text` is an even number of hex digits.
pub open spec fn is_hex(text: Seq<char>) -> bool {
    &&& text.len() % 2 == 0
    &&& forall|i: int| 0 <= i < text.len() ==> #[trigger] hex_digit_value(text[i]) is Some
}

/// The bytes that `text` spells in hex, in either case or both.
pub open spec fn hex_value(text: Seq<char>) -> Option<Seq<u8>> {
    if is_hex(text) {
        Some(
            Seq::new(
                text.len() / 2,
                |i: int|
                    (hex_digit_value(text[2 * i])->0 * 16 + hex_digit_value(
                        text[2 * i + 1],
                    )->0) as u8,
            ),
        )
    } else {
        None
    }
}

/// Calls `hex::encode`, whose documentation says that every byte becomes two
/// lowercase digits; claimed is that the result is exactly [`hex_text`]. Texts
/// too long for a `String` are ruled out: there the call panics.
#[verifier::external_body]
pub(crate) fn hex_encode(bytes: &[u8]) -> (text: String)
    requires
        hex_text(bytes@).len() <= isize::MAX,
    ensures
        text@ == hex_text(bytes@),
{
    hex::encode(bytes)
}

/// Calls `hex::decode`, which takes digits of both cases and refuses an odd
/// length and every other character; claimed is that the result is exactly
/// [`hex_value`]. What the error says of the refusal is left open.
#[verifier::external_body]
pub(crate) fn hex_decode(text: &str) -> (bytes: Result<Vec<u8>, hex::FromHexError>)
    ensures
        match hex_value(text@) {
            Some(value) => bytes matches Ok(b) && b@ == value,
            None => bytes is Err,
        },
{
    hex::decode(text)
}

/// Hex text reads back as the bytes it was made from.
pub proof fn hex_round_trip(bytes: Seq<u8>)
    ensures
        hex_value(hex_text(bytes)) == Some(bytes),
{
    let text = hex_text(bytes);
    assert forall|i: int| 0 <= i < text.len() implies #[trigger] hex_digit_value(text[i]) is Some by {
    }
    assert(text.len() == 2 * bytes.len());
    assert(is_hex(text));
    let value = hex_value(text)->0;
    assert forall|i: int| 0 <= i < bytes.len() implies value[i] == bytes[i] by {
        assert(text[2 * i] == hex_digit(bytes[i] as int / 16));
        assert(text[2 * i + 1] == hex_digit(bytes[i] as int % 16));
        assert(hex_digit_value(text[2 * i]) == Some(bytes[i] as int / 16));
        assert(hex_digit_value(text[2 * i + 1]) == Some(bytes[i] as int % 16));
    }
    assert(value =~= bytes);
}

/// Whether two characters are the same hex digit, whatever the case.
pub open spec fn same_digit(a: char, b: char) -> bool {
    hex_digit_value(a) == hex_digit_value(b)
}

/// Two texts that differ only in the case of their digits spell the same bytes.
pub proof fn hex_ignores_case(a: Seq<char>, b: Seq<char>)
    requires
        a.len() == b.len(),
        forall|i: int| 0 <= i < a.len() ==> #[trigger] same_digit(a[i], b[i]),
    ensures
        hex_value(a) == hex_value(b),
{
    assert(is_hex(a) == is_hex(b)) by {
        if is_hex(a) {
            assert forall|i: int| 0 <= i < b.len() implies #[trigger] hex_digit_value(b[i]) is Some by {
                assert(same_digit(a[i], b[i]));
            }
        }
        if is_hex(b) {
            assert forall|i: int| 0 <= i < a.len() implies #[trigger] hex_digit_value(a[i]) is Some by {
                assert(same_digit(a[i], b[i]));
            }
        }
    }
    if is_hex(a) {
        assert forall|i: int| 0 <= i < a.len() / 2 implies hex_value(a)->0[i] == hex_value(b)->0[i] by {
            assert(same_digit(a[2 * i], b[2 * i]));
            assert(same_digit(a[2 * i + 1], b[2 * i + 1]));
        }
        assert(hex_value(a)->0 =~= hex_value(b)->0);
    }
}

/// Hex text in lowercase is the canonical text of the bytes it spells.
pub proof fn lowercase_hex_is_canonical(text: Seq<char>)
    requires
        is_hex(text),
        forall|i: int| 0 <= i < text.len() ==> !('A' <= #[trigger] text[i] <= 'F'),
    ensures
        hex_text(hex_value(text)->0) == text,
{
    let bytes = hex_value(text)->0;
    let again = hex_text(bytes);
    assert forall|i: int| 0 <= i < text.len() implies #[trigger] again[i] == text[i] by {
        let k = i / 2;
        assert(hex_digit_value(text[2 * k]) is Some);
        assert(hex_digit_value(text[2 * k + 1]) is Some);
        assert(bytes[k] as int == hex_digit_value(text[2 * k])->0 * 16 + hex_digit_value(
            text[2 * k + 1],
        )->0);
        assert(i == 2 * k || i == 2 * k + 1);
        assert(hex_digit(hex_digit_value(text[i])->0) == text[i]);
    }
    assert(again =~= text);
}

// ---- base64 ----------------------------------------------------------------

/// The character of the standard base64 alphabet for a number below 64.
pub open spec fn base64_digit(v: int) -> char {
    if v < 26 {
        (65 + v) as char
    } else if v < 52 {
        (71 + v) as char
    } else if v < 62 {
        (v - 4) as char
    } else if v == 62 {
        '+'
    } else {
        '/'
    }
}

/// The byte at `i`, with zeros past the end.
pub open spec fn byte_or_zero(bytes: Seq<u8>, i: int) -> int {
    if 0 <= i < bytes.len() {
        bytes[i] as int
    } else {
        0
    }
}

/// The `i`-th group of six bits of `bytes`, counted from the front.
pub open spec fn six_bits(bytes: Seq<u8>, i: int) -> int {
    let first = byte_or_zero(bytes, i / 4 * 3);
    let second = byte_or_zero(bytes, i / 4 * 3 + 1);
    let third = byte_or_zero(bytes, i / 4 * 3 + 2);
    if i % 4 == 0 {
        first / 4
    } else if i % 4 == 1 {
        first % 4 * 16 + second / 16
    } else if i % 4 == 2 {
        second % 16 * 4 + third / 64
    } else {
        third % 64
    }
}

/// The number of characters in the base64 text of `len` bytes: four for every
/// three bytes begun.
pub open spec fn base64_len(len: nat) -> nat {
    (len + 2) / 3 * 4
}

/// Whether position `i` of the text holds padding: each group of four
/// characters holds one more digit than it has bytes.
pub open spec fn is_padding(bytes: Seq<u8>, i: int) -> bool {
    i % 4 > bytes.len() - i / 4 * 3
}

/// The base64 text of `bytes` in the standard alphabet, padded with `=`.
pub open spec fn base64_text(bytes: Seq<u8>) -> Seq<char> {
    Seq::new(
        base64_len(bytes.len()),
        |i: int|
            if is_padding(bytes, i) {
                '='
            } else {
                base64_digit(six_bits(bytes, i))
            },
    )
}

/// The bytes whose base64 text is `text`, if there are any. Texts with missing
/// padding or with stray bits behind the last byte are no one's text.
pub open spec fn base64_value(text: Seq<char>) -> Option<Seq<u8>> {
    if exists|bytes: Seq<u8>| text == #[trigger] base64_text(bytes) {
        Some(choose|bytes: Seq<u8>| text == #[trigger] base64_text(bytes))
    } else {
        None
    }
}

/// Whether the base64 text of `len` bytes fits into a string.
pub open spec fn base64_fits(len: nat) -> bool {
    base64_len(len) <= isize::MAX
}

/// Tells whether the base64 text of `len` bytes fits into a string.
pub fn fits_base64(len: usize) -> (fits: bool)
    ensures
        fits == base64_fits(len as nat),
{
    let groups: usize = if len % 3 == 0 {
        len / 3
    } else {
        len / 3 + 1
    };
    groups <= isize::MAX as usize / 4
}

/// Calls `encode` on `base64::engine::general_purpose::STANDARD`: the standard
/// alphabet with padding; claimed is that the result is exactly
/// [`base64_text`]. Texts too long for a `String` are ruled out: there the call
/// panics.
#[verifier::external_body]
pub(crate) fn base64_encode(bytes: &[u8]) -> (text: String)
    requires
        base64_fits(bytes@.len()),
    ensures
        text@ == base64_text(bytes@),
{
    STANDARD.encode(bytes)
}

/// Calls `decode` on `base64::engine::general_purpose::STANDARD`, which insists
/// on canonical padding and on zero bits behind the last byte; claimed is that
/// it takes the texts that [`base64_text`] gives, no others, and returns the
/// bytes of each. What the error says of the refusal is left open.
#[verifier::external_body]
pub(crate) fn base64_decode(text: &str) -> (bytes: Result<Vec<u8>, base64::DecodeError>)
    ensures
        match bytes {
            Ok(b) => text@ == base64_text(b@),
            Err(_) => forall|b: Seq<u8>| text@ != #[trigger] base64_text(b),
        },
{
    STANDARD.decode(text)
}

proof fn lemma_base64_digit_injective(a: int, b: int)
    requires
        0 <= a < 64,
        0 <= b < 64,
        base64_digit(a) == base64_digit(b),
    ensures
        a == b,
{
}

proof fn lemma_base64_digit_is_no_padding(a: int)
    requires
        0 <= a < 64,
    ensures
        base64_digit(a) != '=',
{
}

proof fn lemma_six_bits_range(bytes: Seq<u8>, i: int)
    ensures
        0 <= six_bits(bytes, i) < 64,
{
}

/// Equal texts have equal digits: position for position, both sides are
/// padding or hold the same six bits.
proof fn lemma_base64_digits_agree(a: Seq<u8>, b: Seq<u8>, i: int)
    requires
        base64_text(a) == base64_text(b),
        0 <= i < base64_len(a.len()),
    ensures
        is_padding(a, i) == is_padding(b, i),
        !is_padding(a, i) ==> six_bits(a, i) == six_bits(b, i),
{
    assert(base64_text(a).len() == base64_len(a.len()));
    assert(base64_text(b).len() == base64_len(b.len()));
    assert(base64_text(a)[i] == if is_padding(a, i) { '=' } else { base64_digit(six_bits(a, i)) });
    assert(base64_text(b)[i] == if is_padding(b, i) { '=' } else { base64_digit(six_bits(b, i)) });
    lemma_six_bits_range(a, i);
    lemma_six_bits_range(b, i);
    lemma_base64_digit_is_no_padding(six_bits(a, i));
    lemma_base64_digit_is_no_padding(six_bits(b, i));
    if !is_padding(a, i) && !is_padding(b, i) {
        lemma_base64_digit_injective(six_bits(a, i), six_bits(b, i));
    }
}

/// No two byte sequences share a base64 text.
pub proof fn base64_text_is_injective(a: Seq<u8>, b: Seq<u8>)
    requires
        base64_text(a) == base64_text(b),
    ensures
        a == b,
{
    assert(base64_text(a).len() == base64_len(a.len()));
    assert(base64_text(b).len() == base64_len(b.len()));
    assert(a.len() == b.len()) by {
        let groups = (a.len() + 2) / 3;
        assert(groups == (b.len() + 2) / 3);
        if groups > 0 {
            assert((4 * groups - 1) / 4 == groups - 1 && (4 * groups - 2) / 4 == groups - 1);
            lemma_base64_digits_agree(a, b, 4 * groups - 1);
            lemma_base64_digits_agree(a, b, 4 * groups - 2);
        }
    }
    assert forall|j: int| 0 <= j < a.len() implies a[j] == b[j] by {
        let quad = j / 3 * 4;
        lemma_base64_digits_agree(a, b, quad);
        lemma_base64_digits_agree(a, b, quad + 1);
        if j % 3 >= 1 {
            lemma_base64_digits_agree(a, b, quad + 2);
        }
        if j % 3 == 2 {
            lemma_base64_digits_agree(a, b, quad + 3);
        }
        assert(quad / 4 * 3 == j - j % 3);
    }
    assert(a =~= b);
}

/// Base64 text reads back as the bytes it was made from.
pub proof fn base64_round_trip(bytes: Seq<u8>)
    ensures
        base64_value(base64_text(bytes)) == Some(bytes),
{
    let text = base64_text(bytes);
    assert(exists|b: Seq<u8>| text == #[trigger] base64_text(b));
    base64_text_is_injective(base64_value(text)->0, bytes);
}

} // verus!
