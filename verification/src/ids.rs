//! Device and group ids: the 128 bits of a UUID, and their text forms as
//! the `uuid` crate reads and writes them.

use vstd::prelude::*;
use crate::text::digit_char;

verus! {

/// The value of a hexadecimal digit of either case.
pub open spec fn hex_value(c: char) -> Option<nat> {
    if '0' <= c <= '9' {
        Some((c as u32 - '0' as u32) as nat)
    } else if 'a' <= c <= 'f' {
        Some((c as u32 - 'a' as u32 + 10) as nat)
    } else if 'A' <= c <= 'F' {
        Some((c as u32 - 'A' as u32 + 10) as nat)
    } else {
        None
    }
}

/// The number written by the hexadecimal digits `d`, most significant
/// first, if they all are hexadecimal digits.
pub open spec fn hex_number(d: Seq<char>) -> Option<nat>
    decreases d.len(),
{
    if d.len() == 0 {
        Some(0)
    } else {
        match (hex_number(d.drop_last()), hex_value(d.last())) {
            (Some(a), Some(b)) => Some(a * 16 + b),
            _ => None,
        }
    }
}

/// The id written by 32 hexadecimal digits.
pub open spec fn simple_id(d: Seq<char>) -> Option<u128> {
    if d.len() == 32 {
        match hex_number(d) {
            Some(v) => Some(v as u128),
            None => None,
        }
    } else {
        None
    }
}

/// The id written in the hyphenated form: 36 characters, hyphens at
/// positions 8, 13, 18 and 23, hexadecimal digits elsewhere.
pub open spec fn hyphenated_id(t: Seq<char>) -> Option<u128> {
    if t.len() == 36 && t[8] == '-' && t[13] == '-' && t[18] == '-' && t[23] == '-' {
        simple_id(
            t.subrange(0, 8) + t.subrange(9, 13) + t.subrange(14, 18) + t.subrange(19, 23)
                + t.subrange(24, 36),
        )
    } else {
        None
    }
}

/// `c` in lower case, if it is an ASCII capital letter.
pub open spec fn ascii_lower(c: char) -> char {
    if 'A' <= c <= 'Z' {
        ((c as u32) + 32) as char
    } else {
        c
    }
}

/// The id that `uuid::Uuid::parse_str` reads from `text`, if it reads one:
/// 32 hexadecimal digits; the hyphenated form; the hyphenated form in
/// braces; or `urn:uuid:` (in any ASCII case) followed by the hyphenated
/// form. Hexadecimal letters may be of either case.
pub open spec fn uuid_parse(text: Seq<char>) -> Option<u128> {
    if text.len() == 32 {
        simple_id(text)
    } else if text.len() == 36 {
        hyphenated_id(text)
    } else if text.len() == 38 && text[0] == '{' && text[37] == '}' {
        hyphenated_id(text.subrange(1, 37))
    } else if text.len() == 45 && text.take(9).map_values(|c: char| ascii_lower(c)) == "urn:uuid:"@ {
        hyphenated_id(text.skip(9))
    } else {
        None
    }
}

/// The lower-case hexadecimal digit for `v` (`v < 16`).
pub open spec fn hex_digit(v: nat) -> char {
    if v < 10 {
        digit_char(v)
    } else if v == 10 {
        'a'
    } else if v == 11 {
        'b'
    } else if v == 12 {
        'c'
    } else if v == 13 {
        'd'
    } else if v == 14 {
        'e'
    } else {
        'f'
    }
}

/// The `i`-th hexadecimal digit of `id`, counting from the most significant
/// (`0 <= i < 32`).
pub open spec fn nibble(id: u128, i: int) -> nat {
    ((id >> ((124 - 4 * i) as u128)) & 15u128) as nat
}

/// How many hyphens come before position `k` of the hyphenated form.
pub open spec fn hyphens_before(k: int) -> int {
    if k < 8 {
        0
    } else if k < 13 {
        1
    } else if k < 18 {
        2
    } else if k < 23 {
        3
    } else {
        4
    }
}

/// The hyphenated form of an id: its 32 lower-case hexadecimal digits, most
/// significant first, in groups of 8, 4, 4, 4 and 12 joined by `-`.
pub open spec fn hyphenated_text(id: u128) -> Seq<char> {
    Seq::new(
        36,
        |k: int|
            if k == 8 || k == 13 || k == 18 || k == 23 {
                '-'
            } else {
                hex_digit(nibble(id, k - hyphens_before(k)))
            },
    )
}

/// The hexadecimal digits of `id`, most significant first.
pub open spec fn hex_digits(id: u128) -> Seq<char> {
    Seq::new(32, |i: int| hex_digit(nibble(id, i)))
}

proof fn lemma_hex_value_of_digit(v: nat)
    requires
        v < 16,
    ensures
        hex_value(hex_digit(v)) == Some(v),
{
}

proof fn lemma_shift_step(x: u128, s: u128)
    requires
        s <= 120,
    ensures
        (x >> (s + 4)) * 16 + ((x >> s) & 15) == x >> s,
{
    assert((x >> (s + 4)) * 16 + ((x >> s) & 15) == x >> s) by (bit_vector)
        requires
            s <= 120,
    ;
}

proof fn lemma_hex_number_of_digits(id: u128, k: int)
    requires
        1 <= k <= 32,
    ensures
        hex_number(hex_digits(id).take(k)) == Some((id >> ((128 - 4 * k) as u128)) as nat),
    decreases k,
{
    let d = hex_digits(id).take(k);
    assert(d.drop_last() =~= hex_digits(id).take(k - 1));
    let v = nibble(id, k - 1);
    assert(v < 16) by {
        let sh = (124 - 4 * (k - 1)) as u128;
        assert((id >> sh) & 15u128 < 16) by (bit_vector);
    }
    lemma_hex_value_of_digit(v);
    assert(d.last() == hex_digit(v));
    let s = (128 - 4 * k) as u128;
    if k == 1 {
        assert(hex_number(d.drop_last()) == Some(0nat)) by {
            assert(d.drop_last().len() == 0);
        }
        assert((id >> 124u128) & 15u128 == id >> 124u128) by (bit_vector);
    } else {
        lemma_hex_number_of_digits(id, k - 1);
        lemma_shift_step(id, s);
        assert((128 - 4 * (k - 1)) as u128 == s + 4);
        assert(nibble(id, k - 1) == ((id >> s) & 15u128) as nat);
    }
}

/// The hyphenated form of an id is read back as that id.
pub proof fn law_hyphenated_round_trip(id: u128)
    ensures
        uuid_parse(hyphenated_text(id)) == Some(id),
{
    let t = hyphenated_text(id);
    let joined = t.subrange(0, 8) + t.subrange(9, 13) + t.subrange(14, 18) + t.subrange(19, 23)
        + t.subrange(24, 36);
    assert(joined =~= hex_digits(id));
    lemma_hex_number_of_digits(id, 32);
    assert(hex_digits(id).take(32) =~= hex_digits(id));
    assert((id >> 0u128) == id) by (bit_vector);
}

/// Reads a UUID from `text`.
///
/// Calls `uuid::Uuid::parse_str` and takes the id's 128 bits with `as_u128`.
/// Claimed of it, as its `try_parse`, `parse_hyphenated` and `decode_hex32`
/// show: it reads exactly the forms of [`uuid_parse`] (each byte of the text
/// must be ASCII, so the text's length in characters is its length in
/// bytes), taking the digits as the id's big-endian bytes.
#[verifier::external_body]
pub(crate) fn parse_uuid(text: &str) -> (r: Option<u128>)
    ensures
        r == uuid_parse(text@),
{
    match uuid::Uuid::parse_str(text) {
        Ok(u) => Some(u.as_u128()),
        Err(_) => None,
    }
}

/// Writes an id in its hyphenated form.
///
/// Calls `uuid::Uuid::from_u128` and the `Display` of `Uuid`, which (by the
/// crate's `fmt` module) writes the hyphenated lower-case form of the id's
/// big-endian bytes.
#[verifier::external_body]
pub(crate) fn uuid_text(id: u128) -> (s: String)
    ensures
        s@ == hyphenated_text(id),
{
    uuid::Uuid::from_u128(id).to_string()
}

/// A fresh random id.
///
/// Calls `uuid::Uuid::new_v4` and takes its 128 bits. The bits are random;
/// claimed of every outcome, as the crate's source sets them: the version
/// digit is 4 and the two variant bits are `10`.
#[verifier::external_body]
pub(crate) fn random_id() -> (id: u128)
    ensures
        (id >> 76u128) & 15u128 == 4,
        (id >> 62u128) & 3u128 == 2,
{
    uuid::Uuid::new_v4().as_u128()
}

} // verus!
