//! Numbers as decimal text, as the attributes of a receipt carry them.

use vstd::prelude::*;

verus! {

/// The character of a digit below ten.
pub open spec fn digit_char(d: nat) -> char {
    if d == 0 {
        '0'
    } else if d == 1 {
        '1'
    } else if d == 2 {
        '2'
    } else if d == 3 {
        '3'
    } else if d == 4 {
        '4'
    } else if d == 5 {
        '5'
    } else if d == 6 {
        '6'
    } else if d == 7 {
        '7'
    } else if d == 8 {
        '8'
    } else {
        '9'
    }
}

/// The digit that a character stands for, if it is one of `0` to `9`.
pub open spec fn digit_of(c: char) -> Option<nat> {
    if c == '0' {
        Some(0)
    } else if c == '1' {
        Some(1)
    } else if c == '2' {
        Some(2)
    } else if c == '3' {
        Some(3)
    } else if c == '4' {
        Some(4)
    } else if c == '5' {
        Some(5)
    } else if c == '6' {
        Some(6)
    } else if c == '7' {
        Some(7)
    } else if c == '8' {
        Some(8)
    } else if c == '9' {
        Some(9)
    } else {
        None
    }
}

/// A number in decimal, without sign and without leading zeros.
pub open spec fn digits(n: nat) -> Seq<char>
    decreases n,
{
    if n < 10 {
        seq![digit_char(n)]
    } else {
        digits(n / 10).push(digit_char(n % 10))
    }
}

/// The number that a non-empty run of digits spells; nothing where the text
/// is empty or holds another character.
pub open spec fn digits_value(text: Seq<char>) -> Option<nat>
    decreases text.len(),
{
    if text.len() == 0 {
        None
    } else if text.len() == 1 {
        digit_of(text[0])
    } else {
        match (digits_value(text.drop_last()), digit_of(text.last())) {
            (Some(v), Some(d)) => Some(v * 10 + d),
            _ => None,
        }
    }
}

/// The number that a text spells as `u64`: digits, after an optional `+`,
/// that spell a number of 64 bits.
pub open spec fn spec_parse_u64(text: Seq<char>) -> Option<u64> {
    let body = if text.len() > 0 && text[0] == '+' {
        text.skip(1)
    } else {
        text
    };
    match digits_value(body) {
        Some(v) => if v <= u64::MAX {
            Some(v as u64)
        } else {
            None
        },
        None => None,
    }
}

/// The number that a text spells as `u32`: what it spells as `u64`, where
/// that is a number of 32 bits.
pub open spec fn spec_parse_u32(text: Seq<char>) -> Option<u32> {
    match spec_parse_u64(text) {
        Some(n) => if n <= u32::MAX {
            Some(n as u32)
        } else {
            None
        },
        None => None,
    }
}

/// The decimal text of a number spells that number and starts with a digit.
pub proof fn lemma_digits_value(n: nat)
    ensures
        digits(n).len() >= 1,
        digit_of(digits(n)[0]).is_some(),
        digits_value(digits(n)) == Some(n),
    decreases n,
{
    if n >= 10 {
        lemma_digits_value(n / 10);
        let text = digits(n);
        assert(text.drop_last() =~= digits(n / 10));
        assert(text.last() == digit_char(n % 10));
        assert(text[0] == digits(n / 10)[0]);
        assert(digit_of(digit_char(n % 10)) == Some(n % 10));
    } else {
        assert(digit_of(digit_char(n)) == Some(n));
    }
}

/// Reading the decimal text of a number gives the number back.
pub proof fn law_parse_reads_digits(n: u64)
    ensures
        spec_parse_u64(digits(n as nat)) == Some(n),
{
    lemma_digits_value(n as nat);
}

/// `u64::to_string`: the number in decimal, without sign and without leading
/// zeros.
#[verifier::external_body]
fn u64_to_string(n: u64) -> (r: String)
    ensures
        r@ == digits(n as nat),
{
    n.to_string()
}

/// `str::parse::<u64>`: accepts digits after an optional `+`, and nothing
/// else, where they spell a number of 64 bits.
#[verifier::external_body]
fn str_parse_u64(text: &str) -> (r: Option<u64>)
    ensures
        r == spec_parse_u64(text@),
{
    match text.parse::<u64>() {
        Ok(n) => Some(n),
        Err(_) => None,
    }
}

/// The decimal text of a number.
pub fn number_text(n: u64) -> (r: String)
    ensures
        r@ == digits(n as nat),
{
    u64_to_string(n)
}

/// The number that a text spells, if it spells one of 64 bits.
pub fn parse_number(text: &str) -> (r: Option<u64>)
    ensures
        r == spec_parse_u64(text@),
{
    str_parse_u64(text)
}

/// The number that a text spells, if it spells one of 32 bits.
pub fn parse_number_u32(text: &str) -> (r: Option<u32>)
    ensures
        r == spec_parse_u32(text@),
{
    match parse_number(text) {
        Some(n) => if n <= 0xffff_ffff {
            Some(n as u32)
        } else {
            None
        },
        None => None,
    }
}

} // verus!
