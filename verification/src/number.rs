//! Decimal and hexadecimal text.

use vstd::prelude::*;
use crate::text::chars_of;

verus! {

/// Whether a character is an ASCII decimal digit.
pub open spec fn digit(c: char) -> bool {
    '0' <= c <= '9'
}

/// The number an ASCII decimal digit stands for.
pub open spec fn digit_value(c: char) -> nat {
    (c as u32 - '0' as u32) as nat
}

/// The number written by decimal digits, most significant first; `None` when the text is empty or
/// holds anything else.
pub open spec fn decimal(s: Seq<char>) -> Option<nat>
    decreases s.len(),
{
    if s.len() == 0 {
        None
    } else if !digit(s.last()) {
        None
    } else if s.len() == 1 {
        Some(digit_value(s.last()))
    } else {
        match decimal(s.drop_last()) {
            Some(high) => Some(10 * high + digit_value(s.last())),
            None => None,
        }
    }
}

/// The unsigned number a text denotes: decimal digits behind an optional `+`, at most `max`.
pub open spec fn unsigned(s: Seq<char>, max: nat) -> Option<nat> {
    let digits = if s.len() > 0 && s[0] == '+' {
        s.skip(1)
    } else {
        s
    };
    match decimal(digits) {
        Some(value) => if value <= max {
            Some(value)
        } else {
            None
        },
        None => None,
    }
}

proof fn decimal_prefix(s: Seq<char>, n: int)
    requires
        1 <= n <= s.len(),
        decimal(s) is Some,
    ensures
        decimal(s.take(n)) is Some,
        decimal(s.take(n))->0 <= decimal(s)->0,
    decreases s.len(),
{
    if n == s.len() {
        assert(s.take(n) =~= s);
    } else {
        decimal_prefix(s.drop_last(), n);
        assert(s.drop_last().take(n) =~= s.take(n));
    }
}

/// Reads an unsigned decimal number no greater than `max`.
pub fn parse_unsigned(chars: &[char], max: u64) -> (r: Option<u64>)
    ensures
        match r {
            Some(value) => unsigned(chars@, max as nat) == Some(value as nat),
            None => unsigned(chars@, max as nat) is None,
        },
{
    let start: usize = if chars.len() > 0 && chars[0] == '+' {
        1
    } else {
        0
    };
    let ghost digits = chars@.skip(start as int);
    assert(chars@.skip(0) =~= chars@);
    if start == chars.len() {
        return None;
    }
    let mut value: u64 = 0;
    let mut i: usize = start;
    while i < chars.len()
        invariant
            start <= i <= chars@.len(),
            start < chars@.len(),
            digits == chars@.skip(start as int),
            i > start ==> decimal(digits.take(i - start)) == Some(value as nat),
            i == start ==> value == 0,
            value <= max,
            unsigned(chars@, max as nat) == (match decimal(digits) {
                Some(v) => if v <= max {
                    Some(v)
                } else {
                    None
                },
                None => None,
            }),
        decreases chars@.len() - i,
    {
        let c = chars[i];
        let ghost n = i - start + 1;
        proof {
            assert(digits.take(n).drop_last() =~= digits.take(n - 1));
            assert(digits.take(n).last() == c);
            if decimal(digits) is Some {
                decimal_prefix(digits, n);
            }
        }
        if !('0' <= c && c <= '9') {
            return None;
        }
        let low: u64 = (c as u64) - ('0' as u64);
        if value > (u64::MAX - low) / 10 {
            proof {
                assert(10 * value + low > u64::MAX);
            }
            return None;
        }
        value = 10 * value + low;
        if value > max {
            return None;
        }
        i += 1;
    }
    assert(digits.take(i - start) =~= digits);
    Some(value)
}

/// Reads an unsigned decimal number no greater than `max` from text.
pub fn parse_unsigned_text(text: &str, max: u64) -> (r: Option<u64>)
    ensures
        match r {
            Some(value) => unsigned(text@, max as nat) == Some(value as nat),
            None => unsigned(text@, max as nat) is None,
        },
{
    let chars = chars_of(text);
    parse_unsigned(chars.as_slice(), max)
}

/// Reads an unsigned decimal number no greater than `max` from the bytes of a text field.
///
/// Only ASCII characters occur in a number, so a byte outside ASCII makes the field malformed.
pub fn parse_unsigned_bytes(bytes: &[u8], max: u64) -> (r: Option<u64>)
    ensures
        match r {
            Some(value) => unsigned(bytes@.map_values(|b: u8| b as char), max as nat) == Some(
                value as nat,
            ),
            None => unsigned(bytes@.map_values(|b: u8| b as char), max as nat) is None,
        },
{
    let mut chars: Vec<char> = Vec::new();
    let mut i: usize = 0;
    while i < bytes.len()
        invariant
            i <= bytes@.len(),
            chars@ == bytes@.take(i as int).map_values(|b: u8| b as char),
        decreases bytes@.len() - i,
    {
        chars.push(bytes[i] as char);
        i += 1;
        assert(bytes@.take(i as int).map_values(|b: u8| b as char) =~= bytes@.take(i - 1).map_values(
            |b: u8| b as char,
        ).push(bytes@[i - 1] as char));
    }
    assert(bytes@.take(i as int) =~= bytes@);
    parse_unsigned(chars.as_slice(), max)
}

/// The character of a decimal digit.
pub open spec fn digit_char(value: nat) -> char
    recommends
        value < 10,
{
    ((48 + value) as u32) as char
}

/// The decimal digits of a number, most significant first, without leading zeros.
pub open spec fn decimal_text(n: nat) -> Seq<char>
    decreases n,
{
    if n < 10 {
        seq![digit_char(n)]
    } else {
        decimal_text(n / 10).push(digit_char(n % 10))
    }
}

/// Writes a number in decimal.
pub fn render_decimal(n: u64) -> (s: String)
    ensures
        s@ == decimal_text(n as nat),
    decreases n,
{
    let low = ((48 + (n % 10)) as u8) as char;
    assert(low == digit_char((n % 10) as nat));
    if n < 10 {
        let mut s = String::new();
        s.push(low);
        assert(s@ =~= seq![digit_char(n as nat)]);
        s
    } else {
        let mut s = render_decimal(n / 10);
        s.push(low);
        s
    }
}

/// Reading back what was written gives the same number.
pub proof fn decimal_round_trip(n: nat)
    ensures
        decimal(decimal_text(n)) == Some(n),
    decreases n,
{
    if n >= 10 {
        decimal_round_trip(n / 10);
        assert(decimal_text(n).drop_last() =~= decimal_text(n / 10));
        assert(decimal_text(n / 10).len() > 0);
    }
}

/// The lower-case hexadecimal digit of a value below sixteen.
pub open spec fn hex_char(value: int) -> char {
    if value < 10 {
        ((48 + value) as u32) as char
    } else {
        ((87 + value) as u32) as char
    }
}

/// Two lower-case hexadecimal digits per byte, high digit first.
pub open spec fn hex(bytes: Seq<u8>) -> Seq<char> {
    Seq::new(
        2 * bytes.len(),
        |i: int|
            if i % 2 == 0 {
                hex_char(bytes[i / 2] as int / 16)
            } else {
                hex_char(bytes[i / 2] as int % 16)
            },
    )
}

fn hex_digit(value: u8) -> (c: char)
    requires
        value < 16,
    ensures
        c == hex_char(value as int),
{
    if value < 10 {
        (48 + value) as char
    } else {
        (87 + value) as char
    }
}

/// Writes bytes as lower-case hexadecimal text.
pub fn hex_digest(bytes: &[u8]) -> (s: String)
    ensures
        s@ == hex(bytes@),
{
    let mut s = String::new();
    let mut i: usize = 0;
    while i < bytes.len()
        invariant
            i <= bytes@.len(),
            s@ == hex(bytes@).take(2 * i),
        decreases bytes@.len() - i,
    {
        let byte = bytes[i];
        s.push(hex_digit(byte / 16));
        s.push(hex_digit(byte % 16));
        i += 1;
        assert(hex(bytes@)[2 * (i - 1)] == hex_char(byte as int / 16));
        assert(hex(bytes@)[2 * (i - 1) + 1] == hex_char(byte as int % 16));
        assert(s@ =~= hex(bytes@).take(2 * i));
    }
    assert(hex(bytes@).take(2 * i) =~= hex(bytes@));
    s
}

proof fn hex_char_is_injective(x: int, y: int)
    requires
        0 <= x < 16,
        0 <= y < 16,
        hex_char(x) == hex_char(y),
    ensures
        x == y,
{
    assert(hex_char(x) as int == if x < 10 { 48 + x } else { 87 + x });
    assert(hex_char(y) as int == if y < 10 { 48 + y } else { 87 + y });
}

/// Different byte strings of one length have different hexadecimal texts.
pub proof fn hex_is_injective(a: Seq<u8>, b: Seq<u8>)
    requires
        hex(a) == hex(b),
    ensures
        a == b,
{
    assert(hex(a).len() == 2 * a.len());
    assert(hex(b).len() == 2 * b.len());
    assert forall|i: int| 0 <= i < a.len() implies a[i] == b[i] by {
        assert(hex(a)[2 * i] == hex_char(a[i] as int / 16));
        assert(hex(b)[2 * i] == hex_char(b[i] as int / 16));
        assert(hex(a)[2 * i + 1] == hex_char(a[i] as int % 16));
        assert(hex(b)[2 * i + 1] == hex_char(b[i] as int % 16));
        hex_char_is_injective(a[i] as int / 16, b[i] as int / 16);
        hex_char_is_injective(a[i] as int % 16, b[i] as int % 16);
    }
    assert(a =~= b);
}

/// A number is its digits: a digit behind others weighs one and all others ten times as much as by
/// themselves, leading zeros do not matter, and nothing but digits is a number.
pub proof fn numbers_are_their_digits(s: Seq<char>, c: char)
    ensures
        decimal(Seq::empty()) is None,
        decimal(seq![c]) == if '0' <= c <= '9' {
            Some((c as u32 - '0' as u32) as nat)
        } else {
            None
        },
        s.len() > 0 ==> decimal(s.push(c)) == if '0' <= c <= '9' && decimal(s) is Some {
            Some((10 * decimal(s)->0 + (c as u32 - '0' as u32)) as nat)
        } else {
            None
        },
        decimal(s) is Some ==> decimal(seq!['0'] + s) == decimal(s),
{
    assert(s.push(c).drop_last() =~= s);
    assert(seq![c].drop_last() =~= Seq::empty());
    if decimal(s) is Some {
        leading_zeros_do_not_matter(s);
    }
}

proof fn leading_zeros_do_not_matter(s: Seq<char>)
    requires
        decimal(s) is Some,
    ensures
        decimal(seq!['0'] + s) == decimal(s),
    decreases s.len(),
{
    let more = seq!['0'] + s;
    assert(more.last() == s.last());
    if s.len() == 1 {
        assert(more.drop_last() =~= seq!['0']);
        assert(decimal(seq!['0']) == Some(0nat));
    } else {
        assert(more.drop_last() =~= seq!['0'] + s.drop_last());
        leading_zeros_do_not_matter(s.drop_last());
    }
}

/// What is read as an unsigned number: decimal digits, one `+` before them or none, and nothing above
/// the largest value; every such number is read as it was written.
pub proof fn unsigned_numbers_are_bounded(s: Seq<char>, n: nat, max: nat)
    ensures
        unsigned(s, max) matches Some(value) ==> value <= max,
        n <= max ==> unsigned(decimal_text(n), max) == Some(n),
        n <= max ==> unsigned(seq!['+'] + decimal_text(n), max) == Some(n),
        n > max ==> unsigned(decimal_text(n), max) is None,
        s.len() == 0 ==> unsigned(s, max) is None,
        unsigned(seq!['+', '+'] + s, max) is None,
        unsigned(seq!['-'] + s, max) is None,
{
    decimal_round_trip(n);
    let text = decimal_text(n);
    starts_with_a_digit(n);
    assert((seq!['+'] + text).skip(1) =~= text);
    let plus = seq!['+', '+'] + s;
    not_a_digit_first(plus.skip(1));
    not_a_digit_first(seq!['-'] + s);
}

proof fn starts_with_a_digit(n: nat)
    ensures
        decimal_text(n).len() > 0,
        digit(decimal_text(n)[0]),
    decreases n,
{
    if n >= 10 {
        starts_with_a_digit(n / 10);
        assert(decimal_text(n)[0] == decimal_text(n / 10)[0]);
    }
}

proof fn not_a_digit_first(s: Seq<char>)
    requires
        s.len() > 0,
        !digit(s[0]),
    ensures
        decimal(s) is None,
    decreases s.len(),
{
    if s.len() > 1 {
        assert(s.drop_last()[0] == s[0]);
        not_a_digit_first(s.drop_last());
    }
}

/// The value of a lower-case hexadecimal digit, if a character is one.
pub open spec fn hex_value(c: char) -> Option<int> {
    if '0' <= c <= '9' {
        Some(c as int - '0' as int)
    } else if 'a' <= c <= 'f' {
        Some(c as int - 'a' as int + 10)
    } else {
        None
    }
}

/// Hexadecimal text gives each byte two lower-case digits in a row, the one that weighs sixteen
/// first.
pub proof fn digests_are_their_digits(bytes: Seq<u8>, i: int)
    requires
        0 <= i < bytes.len(),
    ensures
        hex(bytes).len() == 2 * bytes.len(),
        hex_value(hex(bytes)[2 * i]) is Some,
        hex_value(hex(bytes)[2 * i + 1]) is Some,
        16 * hex_value(hex(bytes)[2 * i])->0 + hex_value(hex(bytes)[2 * i + 1])->0 == bytes[i],
{
    let high = bytes[i] as int / 16;
    let low = bytes[i] as int % 16;
    assert(hex(bytes)[2 * i] == hex_char(high));
    assert(hex(bytes)[2 * i + 1] == hex_char(low));
    assert(hex_char(high) as int == if high < 10 { 48 + high } else { 87 + high });
    assert(hex_char(low) as int == if low < 10 { 48 + low } else { 87 + low });
}

}
