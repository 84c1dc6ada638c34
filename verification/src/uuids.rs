//! Universally unique identifiers as numbers of 128 bits, and their text.

use crate::digests::random_bytes;
use crate::text::{digit_char, is_digit, lowercase};
use uuid::{Builder, Uuid};
use vstd::prelude::*;

verus! {

pub open spec fn is_hex(c: char) -> bool {
    is_digit(c) || 'a' <= c <= 'f' || 'A' <= c <= 'F'
}

pub open spec fn hex_value(c: char) -> int {
    if is_digit(c) {
        c as int - 48
    } else if 'a' <= c {
        c as int - 87
    } else {
        c as int - 55
    }
}

pub open spec fn all_hex(s: Seq<char>) -> bool {
    forall|i: int| 0 <= i < s.len() ==> is_hex(#[trigger] s[i])
}

/// The number that a row of hexadecimal digits stands for.
pub open spec fn hex_number(s: Seq<char>) -> int
    decreases s.len(),
{
    if s.len() == 0 {
        0
    } else {
        hex_number(s.drop_last()) * 16 + hex_value(s.last())
    }
}

pub open spec fn hex_digit(d: int) -> char {
    if d < 10 {
        digit_char(d)
    } else {
        (87 + d) as char
    }
}

/// The lowest `count` hexadecimal digits of `n`, in small letters.
pub open spec fn hex_digits(n: int, count: nat) -> Seq<char>
    decreases count,
{
    if count == 0 {
        Seq::empty()
    } else {
        hex_digits(n / 16, (count - 1) as nat).push(hex_digit(n % 16))
    }
}

/// The five groups of the hyphenated form.
pub open spec fn hyphenate(h: Seq<char>) -> Seq<char> {
    h.subrange(0, 8) + seq!['-'] + h.subrange(8, 12) + seq!['-'] + h.subrange(12, 16) + seq!['-']
        + h.subrange(16, 20) + seq!['-'] + h.subrange(20, 32)
}

/// The hyphenated text of an identifier: groups of 8, 4, 4, 4 and 12 small hexadecimal digits.
pub open spec fn uuid_text(id: u128) -> Seq<char> {
    hyphenate(hex_digits(id as int, 32))
}

/// The identifier whose 32 hexadecimal digits are `h`.
pub open spec fn plain_value(h: Seq<char>) -> Option<u128> {
    if h.len() == 32 && all_hex(h) {
        Some(hex_number(h) as u128)
    } else {
        None
    }
}

/// The identifier whose hyphenated text, in letters of either case, is `s`.
pub open spec fn hyphenated_value(s: Seq<char>) -> Option<u128> {
    if s.len() == 36 && s[8] == '-' && s[13] == '-' && s[18] == '-' && s[23] == '-' {
        plain_value(
            s.subrange(0, 8) + s.subrange(9, 13) + s.subrange(14, 18) + s.subrange(19, 23)
                + s.subrange(24, 36),
        )
    } else {
        None
    }
}

/// The identifier that a text stands for: 32 hexadecimal digits, or the hyphenated form, bare,
/// in braces, or behind `urn:uuid:`.
pub open spec fn uuid_value(s: Seq<char>) -> Option<u128> {
    if s.len() == 32 {
        plain_value(s)
    } else if s.len() == 36 {
        hyphenated_value(s)
    } else if s.len() == 38 && s.first() == '{' && s.last() == '}' {
        hyphenated_value(s.subrange(1, 37))
    } else if s.len() == 45 && lowercase(s.take(9)) == "urn:uuid:"@ {
        hyphenated_value(s.skip(9))
    } else {
        None
    }
}

/// `uuid::Uuid::parse_str`: reads an identifier in its plain, hyphenated, braced or URN form,
/// in letters of either case, and refuses any other text.
#[verifier::external_body]
pub(crate) fn parse_uuid(text: &str) -> (id: Option<u128>)
    ensures
        id == uuid_value(text@),
{
    Uuid::parse_str(text).ok().map(|id| id.as_u128())
}

/// `Display` of `uuid::Uuid`: the hyphenated form in small letters.
#[verifier::external_body]
pub(crate) fn format_uuid(id: u128) -> (text: String)
    ensures
        text@ == uuid_text(id),
{
    Uuid::from_u128(id).to_string()
}

/// A random identifier: version 4, of the variant of RFC 9562.
pub open spec fn is_random_id(id: u128) -> bool {
    (id >> 76) & 0xf == 4 && (id >> 62) & 0x3 == 2
}

/// The number that a row of bytes stands for, the highest of them first.
pub open spec fn bytes_number(bytes: Seq<u8>) -> int
    decreases bytes.len(),
{
    if bytes.len() == 0 {
        0
    } else {
        bytes_number(bytes.drop_last()) * 256 + bytes.last()
    }
}

/// A number of 128 bits as a random identifier: its version and its variant are set, and its other
/// 122 bits are kept.
pub open spec fn marked_random(n: u128) -> u128 {
    (n & 0xffff_ffff_ffff_0fff_3fff_ffff_ffff_ffff) | 0x4000_8000_0000_0000_0000
}

/// `Builder::from_random_bytes` of `uuid`: the random identifier with the given bytes, the highest
/// of them first, in which the version and the variant are set.
#[verifier::external_body]
fn build_random(bytes: &[u8]) -> (id: u128)
    requires
        bytes@.len() == 16,
    ensures
        id == marked_random(bytes_number(bytes@) as u128),
{
    let mut raw = [0_u8; 16];
    raw.copy_from_slice(bytes);
    Builder::from_random_bytes(raw).into_uuid().as_u128()
}

/// Every number is marked as a random identifier.
pub proof fn marked_numbers_are_random(n: u128)
    ensures
        is_random_id(marked_random(n)),
{
    assert((((n & 0xffff_ffff_ffff_0fff_3fff_ffff_ffff_ffff) | 0x4000_8000_0000_0000_0000u128)
        >> 76) & 0xf == 4) by (bit_vector);
    assert((((n & 0xffff_ffff_ffff_0fff_3fff_ffff_ffff_ffff) | 0x4000_8000_0000_0000_0000u128)
        >> 62) & 0x3 == 2) by (bit_vector);
}

/// The random identifier that is made of 16 bytes.
pub fn id_from_bytes(bytes: &[u8]) -> (id: Option<u128>)
    ensures
        id == (if bytes@.len() == 16 {
            Some(marked_random(bytes_number(bytes@) as u128))
        } else {
            None
        }),
        id matches Some(id) ==> is_random_id(id),
{
    if bytes.len() != 16 {
        return None;
    }
    proof {
        marked_numbers_are_random(bytes_number(bytes@) as u128);
    }
    Some(build_random(bytes))
}

/// A random identifier, or `None` where the operating system has no random bytes to give.
pub(crate) fn random_id() -> (id: Option<u128>)
    ensures
        id matches Some(id) ==> is_random_id(id),
{
    match random_bytes() {
        Some(bytes) => id_from_bytes(bytes.as_slice()),
        None => None,
    }
}

proof fn lemma_hex_digits(n: int, count: nat)
    requires
        0 <= n,
    ensures
        hex_digits(n, count).len() == count,
        all_hex(hex_digits(n, count)),
        hex_number(hex_digits(n, count)) == n % vstd::arithmetic::power::pow(16, count),
    decreases count,
{
    vstd::arithmetic::power::lemma_pow_positive(16, count);
    if count == 0 {
        vstd::arithmetic::power::lemma_pow0(16);
    } else {
        let less = (count - 1) as nat;
        lemma_hex_digits(n / 16, less);
        let s = hex_digits(n, count);
        assert(s.drop_last() =~= hex_digits(n / 16, less));
        assert(hex_value(s.last()) == n % 16);
        assert forall|i: int| 0 <= i < s.len() implies is_hex(#[trigger] s[i]) by {
            if i < less {
                assert(s[i] == hex_digits(n / 16, less)[i]);
            }
        }
        vstd::arithmetic::power::lemma_pow_positive(16, less);
        vstd::arithmetic::power::lemma_pow_adds(16, 1, less);
        vstd::arithmetic::power::lemma_pow1(16);
        vstd::arithmetic::div_mod::lemma_breakdown(
            n,
            16,
            vstd::arithmetic::power::pow(16, less),
        );
        assert(16 * ((n / 16) % vstd::arithmetic::power::pow(16, less)) == ((n / 16)
            % vstd::arithmetic::power::pow(16, less)) * 16) by (nonlinear_arith);
    }
}

/// The text of an identifier is read back as that identifier.
pub proof fn uuid_round_trip(id: u128)
    ensures
        uuid_text(id).len() == 36,
        uuid_value(uuid_text(id)) == Some(id),
{
    let h = hex_digits(id as int, 32);
    lemma_hex_digits(id as int, 32);
    let s = uuid_text(id);
    assert(s.len() == 36);
    assert(s.subrange(0, 8) + s.subrange(9, 13) + s.subrange(14, 18) + s.subrange(19, 23)
        + s.subrange(24, 36) =~= h);
    lemma_sixteen_to_32();
    vstd::arithmetic::div_mod::lemma_small_mod(id as nat, (u128::MAX + 1) as nat);
}

proof fn lemma_sixteen_to_32()
    ensures
        vstd::arithmetic::power::pow(16, 32) == u128::MAX + 1,
{
    let a = vstd::arithmetic::power::pow(16, 1);
    let b = vstd::arithmetic::power::pow(16, 2);
    let c = vstd::arithmetic::power::pow(16, 4);
    let d = vstd::arithmetic::power::pow(16, 8);
    let e = vstd::arithmetic::power::pow(16, 16);
    vstd::arithmetic::power::lemma_pow1(16);
    vstd::arithmetic::power::lemma_pow_adds(16, 1, 1);
    vstd::arithmetic::power::lemma_pow_adds(16, 2, 2);
    vstd::arithmetic::power::lemma_pow_adds(16, 4, 4);
    vstd::arithmetic::power::lemma_pow_adds(16, 8, 8);
    vstd::arithmetic::power::lemma_pow_adds(16, 16, 16);
    assert(a * a == 0x100) by (nonlinear_arith)
        requires
            a == 16,
    ;
    assert(b * b == 0x1_0000) by (nonlinear_arith)
        requires
            b == 0x100,
    ;
    assert(c * c == 0x1_0000_0000) by (nonlinear_arith)
        requires
            c == 0x1_0000,
    ;
    assert(d * d == 0x1_0000_0000_0000_0000) by (nonlinear_arith)
        requires
            d == 0x1_0000_0000,
    ;
    assert(e * e == u128::MAX + 1) by (nonlinear_arith)
        requires
            e == 0x1_0000_0000_0000_0000,
    ;
}

/// The text of an identifier holds hexadecimal digits and hyphens only.
pub proof fn uuid_text_is_plain(id: u128)
    ensures
        forall|i: int|
            0 <= i < uuid_text(id).len() ==> is_hex(#[trigger] uuid_text(id)[i]) || uuid_text(id)[i]
                == '-',
{
    lemma_hex_digits(id as int, 32);
}

/// Two identifiers with the same text are equal.
pub proof fn uuid_text_injective(left: u128, right: u128)
    requires
        uuid_text(left) == uuid_text(right),
    ensures
        left == right,
{
    uuid_round_trip(left);
    uuid_round_trip(right);
}

} // verus!
