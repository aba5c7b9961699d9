//! Digests, hexadecimal text and random identifiers.

use sha2::Digest;
use vstd::prelude::*;

verus! {

/// The SHA-256 digest of a byte sequence.
pub uninterp spec fn sha256(data: Seq<u8>) -> Seq<u8>;

/// Computes a SHA-256 digest.
///
/// Trusted: `sha2::Sha256::digest` is a function of the bytes alone, named
/// [`sha256`] here, and its output is 32 bytes long.
#[verifier::external_body]
pub(crate) fn sha256_digest(data: &Vec<u8>) -> (r: Vec<u8>)
    ensures
        r@ == sha256(data@),
        r@.len() == 32,
{
    sha2::Sha256::digest(data.as_slice()).to_vec()
}

/// The lower-case hexadecimal digit of a number below sixteen.
pub open spec fn hex_digit(n: int) -> char {
    if n < 10 {
        ('0' as u32 + n) as u32 as char
    } else {
        ('a' as u32 + (n - 10)) as u32 as char
    }
}

/// The lower-case hexadecimal text of bytes: two digits for each, the high one
/// first.
pub open spec fn hex_text(bytes: Seq<u8>) -> Seq<char> {
    Seq::new(
        2 * bytes.len(),
        |i: int|
            if i % 2 == 0 {
                hex_digit(bytes[i / 2] as int / 16)
            } else {
                hex_digit(bytes[i / 2] as int % 16)
            },
    )
}

/// Writes bytes in hexadecimal.
///
/// Trusted: `hex::encode` gives two lower-case digits for each byte, in order.
#[verifier::external_body]
pub(crate) fn hex_encode(bytes: &Vec<u8>) -> (r: String)
    ensures
        r@ == hex_text(bytes@),
{
    hex::encode(bytes)
}

/// Whether `c` is a lower-case hexadecimal digit.
pub open spec fn is_lower_hex(c: char) -> bool {
    ('0' <= c <= '9') || ('a' <= c <= 'f')
}

/// Whether `c` can be the variant digit of an identifier: the one whose two
/// highest bits are `10`.
pub open spec fn is_variant_digit(c: char) -> bool {
    c == '8' || c == '9' || c == 'a' || c == 'b'
}

/// Whether `s` is a random identifier without separators: 32 lower-case
/// hexadecimal digits, with the version digit `4` and a variant digit.
pub open spec fn is_simple_uuid(s: Seq<char>) -> bool {
    &&& s.len() == 32
    &&& forall|i: int| 0 <= i < 32 ==> is_lower_hex(#[trigger] s[i])
    &&& s[12] == '4'
    &&& is_variant_digit(s[16])
}

/// A fresh random identifier without separators.
///
/// Trusted: `uuid::Uuid::new_v4` written in the simple form is 32 lower-case
/// hexadecimal digits, of which the thirteenth is the version, `4`, and the
/// seventeenth one of `8`, `9`, `a` and `b`. What the other digits are is left
/// to chance, and nothing is said of it. The call panics when the system has no
/// source of randomness.
#[verifier::external_body]
pub(crate) fn random_simple_uuid() -> (r: String)
    ensures
        is_simple_uuid(r@),
{
    uuid::Uuid::new_v4().simple().to_string()
}

/// Whether `s` is a random identifier in groups of 8, 4, 4, 4 and 12 lower-case
/// hexadecimal digits, with the version digit `4` and a variant digit.
pub open spec fn is_hyphenated_uuid(s: Seq<char>) -> bool {
    &&& s.len() == 36
    &&& forall|i: int|
        0 <= i < 36 ==> if i == 8 || i == 13 || i == 18 || i == 23 {
            #[trigger] s[i] == '-'
        } else {
            is_lower_hex(s[i])
        }
    &&& s[14] == '4'
    &&& is_variant_digit(s[19])
}

/// A fresh random identifier in groups.
///
/// Trusted: `uuid::Uuid::new_v4` written by its `Display` has the hyphenated
/// form; the third group begins with the version, `4`, and the fourth with one
/// of `8`, `9`, `a` and `b`. What the other digits are is left to chance, and
/// nothing is said of it. The call panics when the system has no source of
/// randomness.
#[verifier::external_body]
pub(crate) fn random_hyphenated_uuid() -> (r: String)
    ensures
        is_hyphenated_uuid(r@),
{
    uuid::Uuid::new_v4().to_string()
}

/// The digits of a number below sixteen are the sixteen lower-case ones, in their
/// order.
pub proof fn digits_stand_for_their_numbers(n: int, c: char)
    ensures
        0 <= n < 16 ==> hex_digit(n) == "0123456789abcdef"@[n],
        is_lower_hex(c) <==> "0123456789abcdef"@.contains(c),
        is_variant_digit(c) <==> "0123456789abcdef"@.subrange(8, 12).contains(c),
{
    reveal_strlit("0123456789abcdef");
    let digits = "0123456789abcdef"@;
    let variants = digits.subrange(8, 12);
    if is_lower_hex(c) {
        let at: int = if c <= '9' {
            c as u32 - '0' as u32
        } else {
            c as u32 - 'a' as u32 + 10
        };
        assert(digits[at] == c);
    }
    if is_variant_digit(c) {
        let at: int = if c == '8' {
            0
        } else if c == '9' {
            1
        } else if c == 'a' {
            2
        } else {
            3
        };
        assert(variants[at] == c);
    }
}

/// Bytes are written one after another, each by the digit of its sixteens and
/// then that of what is left.
pub proof fn bytes_are_written_one_after_another(a: Seq<u8>, b: Seq<u8>, byte: u8)
    ensures
        hex_text(a + b) == hex_text(a) + hex_text(b),
        hex_text(seq![byte]) == seq![
            "0123456789abcdef"@[byte as int / 16],
            "0123456789abcdef"@[byte as int % 16],
        ],
{
    assert(hex_text(a + b) =~= hex_text(a) + hex_text(b));
    digits_stand_for_their_numbers(byte as int / 16, '0');
    digits_stand_for_their_numbers(byte as int % 16, '0');
    assert(hex_text(seq![byte]) =~= seq![
        "0123456789abcdef"@[byte as int / 16],
        "0123456789abcdef"@[byte as int % 16],
    ]);
}

/// An identifier in groups is one without separators, written with a hyphen
/// behind its eighth, twelfth, sixteenth and twentieth digit.
pub proof fn groups_hold_a_whole_identifier(s: Seq<char>)
    requires
        is_hyphenated_uuid(s),
    ensures
        is_simple_uuid(
            s.subrange(0, 8) + s.subrange(9, 13) + s.subrange(14, 18) + s.subrange(19, 23)
                + s.subrange(24, 36),
        ),
        s == s.subrange(0, 8) + seq!['-'] + s.subrange(9, 13) + seq!['-'] + s.subrange(14, 18)
            + seq!['-'] + s.subrange(19, 23) + seq!['-'] + s.subrange(24, 36),
{
    let whole = s.subrange(0, 8) + s.subrange(9, 13) + s.subrange(14, 18) + s.subrange(19, 23)
        + s.subrange(24, 36);
    assert forall|i: int| 0 <= i < 32 implies is_lower_hex(#[trigger] whole[i]) by {
        let at: int = if i < 8 {
            i
        } else if i < 12 {
            i + 1
        } else if i < 16 {
            i + 2
        } else if i < 20 {
            i + 3
        } else {
            i + 4
        };
        assert(whole[i] == s[at]);
    }
    assert(whole[12] == s[14]);
    assert(whole[16] == s[19]);
    let again = s.subrange(0, 8) + seq!['-'] + s.subrange(9, 13) + seq!['-'] + s.subrange(14, 18)
        + seq!['-'] + s.subrange(19, 23) + seq!['-'] + s.subrange(24, 36);
    assert(s[8] == '-' && s[13] == '-' && s[18] == '-' && s[23] == '-');
    assert(s =~= again);
}

} // verus!
