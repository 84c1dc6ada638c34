//! Base64 without padding, in the URL-safe and the standard alphabet.

use crate::validation::is_token_char;
use base64::engine::general_purpose::URL_SAFE_NO_PAD;
use base64::Engine;
use vstd::prelude::*;

verus! {

/// The character that stands for six bits.
pub open spec fn symbol(bits: int) -> char {
    if bits < 26 {
        (65 + bits) as char
    } else if bits < 52 {
        (71 + bits) as char
    } else if bits < 62 {
        (bits - 4) as char
    } else if bits == 62 {
        '-'
    } else {
        '_'
    }
}

/// The byte at `i`, or 0 behind the end.
pub open spec fn byte_at(bytes: Seq<u8>, i: int) -> int {
    if i < bytes.len() {
        bytes[i] as int
    } else {
        0
    }
}

/// The six bits that start at bit `6 * i`.
pub open spec fn sextet(bytes: Seq<u8>, i: int) -> int {
    let start = 3 * (i / 4);
    if i % 4 == 0 {
        byte_at(bytes, start) / 4
    } else if i % 4 == 1 {
        byte_at(bytes, start) % 4 * 16 + byte_at(bytes, start + 1) / 16
    } else if i % 4 == 2 {
        byte_at(bytes, start + 1) % 16 * 4 + byte_at(bytes, start + 2) / 64
    } else {
        byte_at(bytes, start + 2) % 64
    }
}

/// The bytes as text: one symbol for each six bits, the last ones filled up with zeros.
pub open spec fn base64url(bytes: Seq<u8>) -> Seq<char> {
    Seq::new((bytes.len() * 8 + 5) / 6, |i: int| symbol(sextet(bytes, i)))
}

/// `Engine::encode` of `base64`, for the engine `URL_SAFE_NO_PAD`: the URL-safe alphabet of
/// RFC 4648 without padding.
#[verifier::external_body]
pub(crate) fn encode_base64url(bytes: &[u8]) -> (text: String)
    ensures
        text@ == base64url(bytes@),
{
    URL_SAFE_NO_PAD.encode(bytes)
}

/// The bytes whose text is given, where it is one.
pub open spec fn base64url_value(text: Seq<char>) -> Option<Seq<u8>> {
    if exists|bytes: Seq<u8>| #[trigger] base64url(bytes) == text {
        Some(choose|bytes: Seq<u8>| #[trigger] base64url(bytes) == text)
    } else {
        None
    }
}

/// `Engine::decode` of `base64`, for the engine `URL_SAFE_NO_PAD`: it takes exactly the texts
/// that encoding gives. Padding, foreign characters and set trailing bits are refused.
#[verifier::external_body]
pub(crate) fn decode_base64url(text: &str) -> (bytes: Option<Vec<u8>>)
    ensures
        match bytes {
            Some(bytes) => base64url(bytes@) == text@,
            None => forall|any: Seq<u8>| #[trigger] base64url(any) != text@,
        },
{
    URL_SAFE_NO_PAD.decode(text).ok()
}

proof fn lemma_sextet_range(bytes: Seq<u8>, i: int)
    requires
        0 <= i,
    ensures
        0 <= sextet(bytes, i) < 64,
{
    let start = 3 * (i / 4);
    assert(0 <= start);
    assert(0 <= byte_at(bytes, start) < 256);
    assert(0 <= byte_at(bytes, start + 1) < 256);
    assert(0 <= byte_at(bytes, start + 2) < 256);
}

proof fn lemma_symbols_differ(left: int, right: int)
    requires
        0 <= left < 64,
        0 <= right < 64,
        left != right,
    ensures
        symbol(left) != symbol(right),
        standard_symbol(left) != standard_symbol(right),
{
    assert(symbol(left) as int == if left < 26 {
        65 + left
    } else if left < 52 {
        71 + left
    } else if left < 62 {
        left - 4
    } else if left == 62 {
        45
    } else {
        95
    });
    assert(symbol(right) as int == if right < 26 {
        65 + right
    } else if right < 52 {
        71 + right
    } else if right < 62 {
        right - 4
    } else if right == 62 {
        45
    } else {
        95
    });
}

proof fn lemma_sextets_injective(left: Seq<u8>, right: Seq<u8>)
    requires
        left.len() == right.len(),
        forall|i: int|
            0 <= i < (left.len() * 8 + 5) / 6 ==> sextet(left, i) == #[trigger] sextet(right, i),
    ensures
        left == right,
{
    assert forall|j: int| 0 <= j < left.len() implies left[j] == right[j] by {
        let q = j / 3;
        let r = j % 3;
        let first = 4 * q + r;
        assert(first + 1 < (left.len() * 8 + 5) / 6);
        assert(sextet(left, first) == sextet(right, first));
        assert(sextet(left, first + 1) == sextet(right, first + 1));
        assert(first / 4 == q && first % 4 == r);
        assert((first + 1) / 4 == q && (first + 1) % 4 == r + 1);
        assert(byte_at(left, j) == left[j]);
        assert(byte_at(right, j) == right[j]);
        if r == 0 {
            assert(j == 3 * q);
        } else if r == 1 {
            assert(j == 3 * q + 1);
        } else {
            assert(j == 3 * q + 2);
        }
    }
    assert(left =~= right);
}

/// Different bytes have different texts.
pub proof fn base64url_injective(left: Seq<u8>, right: Seq<u8>)
    requires
        base64url(left) == base64url(right),
    ensures
        left == right,
{
    let count = base64url(left).len() as int;
    assert(count == (left.len() * 8 + 5) / 6 == (right.len() * 8 + 5) / 6);
    assert(left.len() == right.len());
    assert forall|i: int| 0 <= i < (left.len() * 8 + 5) / 6 implies sextet(left, i)
        == #[trigger] sextet(right, i) by {
        lemma_sextet_range(left, i);
        lemma_sextet_range(right, i);
        assert(base64url(left)[i] == symbol(sextet(left, i)));
        assert(base64url(right)[i] == symbol(sextet(right, i)));
        if sextet(left, i) != sextet(right, i) {
            lemma_symbols_differ(sextet(left, i), sextet(right, i));
        }
    }
    lemma_sextets_injective(left, right);
}

/// The character of the standard alphabet that stands for six bits.
pub open spec fn standard_symbol(bits: int) -> char {
    if bits == 62 {
        '+'
    } else if bits == 63 {
        '/'
    } else {
        symbol(bits)
    }
}

/// The bytes as text in the standard alphabet of RFC 4648, without padding.
pub open spec fn base64(bytes: Seq<u8>) -> Seq<char> {
    Seq::new((bytes.len() * 8 + 5) / 6, |i: int| standard_symbol(sextet(bytes, i)))
}

/// Different bytes have different texts in the standard alphabet.
pub proof fn base64_injective(left: Seq<u8>, right: Seq<u8>)
    requires
        base64(left) == base64(right),
    ensures
        left == right,
{
    let count = base64(left).len() as int;
    assert(count == (left.len() * 8 + 5) / 6 == (right.len() * 8 + 5) / 6);
    assert(left.len() == right.len());
    assert forall|i: int| 0 <= i < (left.len() * 8 + 5) / 6 implies sextet(left, i)
        == #[trigger] sextet(right, i) by {
        lemma_sextet_range(left, i);
        lemma_sextet_range(right, i);
        assert(base64(left)[i] == standard_symbol(sextet(left, i)));
        assert(base64(right)[i] == standard_symbol(sextet(right, i)));
        if sextet(left, i) != sextet(right, i) {
            lemma_symbols_differ(sextet(left, i), sextet(right, i));
        }
    }
    lemma_sextets_injective(left, right);
}

/// Bytes are read back from their text.
pub proof fn base64url_round_trip(bytes: Seq<u8>)
    ensures
        base64url_value(base64url(bytes)) == Some(bytes),
{
    let text = base64url(bytes);
    let read = choose|any: Seq<u8>| #[trigger] base64url(any) == text;
    base64url_injective(read, bytes);
}

/// Every symbol is one that an invitation token may hold.
pub proof fn base64url_symbols(bytes: Seq<u8>)
    ensures
        forall|i: int|
            0 <= i < base64url(bytes).len() ==> is_token_char(#[trigger] base64url(bytes)[i]),
{
    assert forall|i: int| 0 <= i < base64url(bytes).len() implies is_token_char(
        #[trigger] base64url(bytes)[i],
    ) by {
        lemma_sextet_range(bytes, i);
    }
}

} // verus!
