//! The text form of a credential's 128-bit identifier.
//!
//! An identifier is stored as its canonical text: 32 lowercase hexadecimal
//! digits, most significant first, in groups of 8, 4, 4, 4 and 12 joined by
//! hyphens. Reading is more lenient than writing, so this module states both
//! directions and proves that what is written reads back unchanged.

use uuid::Uuid;
use vstd::prelude::*;

verus! {

/// The lowercase hexadecimal digit that stands for `d`, for `0 <= d < 16`.
pub open spec fn hex_char(d: int) -> char {
    if d < 10 {
        ('0' as int + d) as char
    } else {
        ('a' as int + d - 10) as char
    }
}

/// The last `n` hexadecimal digits of `v`, most significant first.
pub open spec fn hex_digits(v: nat, n: nat) -> Seq<char>
    decreases n,
{
    if n == 0 {
        Seq::empty()
    } else {
        hex_digits(v / 16, (n - 1) as nat).push(hex_char((v % 16) as int))
    }
}

/// The canonical text of `id`: its 32 hexadecimal digits, hyphenated 8-4-4-4-12.
pub open spec fn canonical_text(id: u128) -> Seq<char> {
    let h = hex_digits(id as nat, 32);
    h.subrange(0, 8) + seq!['-'] + h.subrange(8, 12) + seq!['-'] + h.subrange(12, 16) + seq!['-']
        + h.subrange(16, 20) + seq!['-'] + h.subrange(20, 32)
}

/// `c` is a hexadecimal digit, of either case.
pub open spec fn is_hex_digit(c: char) -> bool {
    '0' <= c <= '9' || 'a' <= c <= 'f' || 'A' <= c <= 'F'
}

/// The value of the hexadecimal digit `c`.
pub open spec fn hex_digit_value(c: char) -> int
    recommends
        is_hex_digit(c),
{
    if c <= '9' {
        c as int - '0' as int
    } else if c <= 'F' {
        c as int - 'A' as int + 10
    } else {
        c as int - 'a' as int + 10
    }
}

/// Every character of `s` is a hexadecimal digit.
pub open spec fn is_hex(s: Seq<char>) -> bool {
    forall|i: int| 0 <= i < s.len() ==> is_hex_digit(#[trigger] s[i])
}

/// The number that the hexadecimal digits `s` denote, most significant first.
pub open spec fn hex_value(s: Seq<char>) -> nat
    recommends
        is_hex(s),
    decreases s.len(),
{
    if s.len() == 0 {
        0
    } else {
        (16 * hex_value(s.drop_last()) + hex_digit_value(s.last())) as nat
    }
}

/// What 32 bare hexadecimal digits denote.
pub open spec fn simple_value(s: Seq<char>) -> Option<u128> {
    if s.len() == 32 && is_hex(s) {
        Some(hex_value(s) as u128)
    } else {
        None
    }
}

/// What a hyphenated text denotes: 36 characters with hyphens at positions 8,
/// 13, 18 and 23 and hexadecimal digits everywhere else.
pub open spec fn hyphenated_value(s: Seq<char>) -> Option<u128> {
    if s.len() == 36 && s[8] == '-' && s[13] == '-' && s[18] == '-' && s[23] == '-' {
        simple_value(
            s.subrange(0, 8) + s.subrange(9, 13) + s.subrange(14, 18) + s.subrange(19, 23)
                + s.subrange(24, 36),
        )
    } else {
        None
    }
}

/// `s` is `urn:uuid:` in any mixture of cases.
pub open spec fn is_urn_prefix(s: Seq<char>) -> bool {
    &&& s.len() == 9
    &&& (s[0] == 'u' || s[0] == 'U')
    &&& (s[1] == 'r' || s[1] == 'R')
    &&& (s[2] == 'n' || s[2] == 'N')
    &&& s[3] == ':'
    &&& (s[4] == 'u' || s[4] == 'U')
    &&& (s[5] == 'u' || s[5] == 'U')
    &&& (s[6] == 'i' || s[6] == 'I')
    &&& (s[7] == 'd' || s[7] == 'D')
    &&& s[8] == ':'
}

/// The identifier that a text reads back as, `None` where the text is
/// malformed. Four shapes are read: 32 bare digits, the hyphenated form, the
/// hyphenated form in braces, and the hyphenated form behind `urn:uuid:`.
pub open spec fn text_value(s: Seq<char>) -> Option<u128> {
    if s.len() == 32 {
        simple_value(s)
    } else if s.len() == 36 {
        hyphenated_value(s)
    } else if s.len() == 38 && s[0] == '{' && s[37] == '}' {
        hyphenated_value(s.subrange(1, 37))
    } else if s.len() == 45 && is_urn_prefix(s.subrange(0, 9)) {
        hyphenated_value(s.subrange(9, 45))
    } else {
        None
    }
}

/// 16 to the power of `n`.
spec fn pow16(n: nat) -> nat
    decreases n,
{
    if n == 0 {
        1
    } else {
        16 * pow16((n - 1) as nat)
    }
}

proof fn lemma_hex_digits_len(v: nat, n: nat)
    ensures
        hex_digits(v, n).len() == n,
    decreases n,
{
    if n > 0 {
        lemma_hex_digits_len(v / 16, (n - 1) as nat);
    }
}

proof fn lemma_hex_char_value(d: int)
    requires
        0 <= d < 16,
    ensures
        is_hex_digit(hex_char(d)),
        hex_digit_value(hex_char(d)) == d,
{
}

proof fn lemma_hex_digits_are_hex(v: nat, n: nat)
    ensures
        is_hex(hex_digits(v, n)),
    decreases n,
{
    lemma_hex_digits_len(v, n);
    if n > 0 {
        let front = hex_digits(v / 16, (n - 1) as nat);
        lemma_hex_digits_are_hex(v / 16, (n - 1) as nat);
        lemma_hex_digits_len(v / 16, (n - 1) as nat);
        lemma_hex_char_value((v % 16) as int);
        assert forall|i: int| 0 <= i < hex_digits(v, n).len() implies is_hex_digit(
            #[trigger] hex_digits(v, n)[i],
        ) by {
            if i < n - 1 {
                assert(hex_digits(v, n)[i] == front[i]);
            }
        }
    }
}

proof fn lemma_hex_value_of_digits(v: nat, n: nat)
    requires
        v < pow16(n),
    ensures
        hex_value(hex_digits(v, n)) == v,
    decreases n,
{
    if n > 0 {
        let front = hex_digits(v / 16, (n - 1) as nat);
        let digits = hex_digits(v, n);
        lemma_hex_value_of_digits(v / 16, (n - 1) as nat);
        lemma_hex_char_value((v % 16) as int);
        assert(digits.drop_last() =~= front);
        assert(digits.last() == hex_char((v % 16) as int));
    }
}

proof fn lemma_pow16_of_32()
    ensures
        pow16(32) == 0x1_0000_0000_0000_0000_0000_0000_0000_0000,
{
    reveal_with_fuel(pow16, 33);
}

/// Writing then reading gives the identifier back: the canonical text of `id`
/// reads as `id`.
pub proof fn lemma_canonical_text_reads_back(id: u128)
    ensures
        text_value(canonical_text(id)) == Some(id),
{
    let h = hex_digits(id as nat, 32);
    let t = canonical_text(id);
    lemma_hex_digits_len(id as nat, 32);
    lemma_hex_digits_are_hex(id as nat, 32);
    lemma_pow16_of_32();
    lemma_hex_value_of_digits(id as nat, 32);
    assert(t.subrange(0, 8) + t.subrange(9, 13) + t.subrange(14, 18) + t.subrange(19, 23)
        + t.subrange(24, 36) =~= h);
}

/// Distinct identifiers have distinct canonical texts, so a key on the text is
/// a key on the identifier.
pub proof fn lemma_canonical_text_injective(a: u128, b: u128)
    requires
        canonical_text(a) == canonical_text(b),
    ensures
        a == b,
{
    lemma_canonical_text_reads_back(a);
    lemma_canonical_text_reads_back(b);
}

/// Calls `Uuid::from_u128` and writes the value with `to_string`. Trusted: the
/// text is the canonical one, lowercase and hyphenated.
#[verifier::external_body]
pub(crate) fn uuid_to_string(id: u128) -> (text: String)
    ensures
        text@ == canonical_text(id),
{
    Uuid::from_u128(id).to_string()
}

/// Calls `Uuid::parse_str` and takes the value with `as_u128`. Trusted: the
/// texts accepted, and the value read from each, are those of [`text_value`].
#[verifier::external_body]
pub(crate) fn uuid_parse_str(text: &str) -> (id: Option<u128>)
    ensures
        id == text_value(text@),
{
    match Uuid::parse_str(text) {
        Ok(uuid) => Some(uuid.as_u128()),
        Err(_) => None,
    }
}

} // verus!
