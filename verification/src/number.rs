//! Decimal numbers as text: reading a signed 32-bit integer and writing an
//! unsigned integer.

use vstd::prelude::*;

verus! {

/// `c` is one of the ten ASCII digits.
pub open spec fn is_digit(c: char) -> bool {
    '0' <= c && c <= '9'
}

/// The number that the ASCII digit `c` stands for.
pub open spec fn digit_value(c: char) -> nat
    recommends
        is_digit(c),
{
    (c as int - '0' as int) as nat
}

/// Every character of `text` is an ASCII digit.
pub open spec fn all_digits(text: Seq<char>) -> bool {
    forall|i: int| 0 <= i < text.len() ==> is_digit(#[trigger] text[i])
}

/// The number written by a sequence of ASCII digits, most significant first.
pub open spec fn decimal_value(digits: Seq<char>) -> nat
    decreases digits.len(),
{
    if digits.len() == 0 {
        0
    } else {
        decimal_value(digits.drop_last()) * 10 + digit_value(digits.last())
    }
}

/// `text` without one leading `+` or `-`.
pub open spec fn unsigned_part(text: Seq<char>) -> Seq<char> {
    if text.len() > 0 && (text[0] == '+' || text[0] == '-') {
        text.skip(1)
    } else {
        text
    }
}

/// The signed 32-bit integer that `text` writes in decimal: an optional sign,
/// then at least one ASCII digit and nothing else, the whole within the range
/// of `i32`. `None` for every other text.
pub open spec fn parse_i32(text: Seq<char>) -> Option<int> {
    let digits = unsigned_part(text);
    let magnitude = decimal_value(digits) as int;
    let value = if text.len() > 0 && text[0] == '-' {
        -magnitude
    } else {
        magnitude
    };
    if digits.len() > 0 && all_digits(digits) && i32::MIN <= value <= i32::MAX {
        Some(value)
    } else {
        None
    }
}

/// The integer that `text` writes, or zero where it writes none.
pub open spec fn int_or_zero(text: Seq<char>) -> int {
    match parse_i32(text) {
        Some(value) => value,
        None => 0,
    }
}

/// The value of a digit sequence never shrinks when a digit is appended.
proof fn lemma_decimal_value_push(digits: Seq<char>, c: char)
    requires
        is_digit(c),
    ensures
        decimal_value(digits.push(c)) == decimal_value(digits) * 10 + digit_value(c),
        decimal_value(digits.push(c)) >= decimal_value(digits),
{
    assert(digits.push(c).drop_last() == digits);
    assert(digits.push(c).last() == c);
    assert(decimal_value(digits) * 10 >= decimal_value(digits)) by (nonlinear_arith);
}

/// Reads `text` as a signed 32-bit decimal integer; zero where it is none.
pub fn parse_int_or_zero(text: &Vec<char>) -> (r: i32)
    ensures
        r == int_or_zero(text@),
{
    if text.len() == 0 {
        return 0;
    }
    let negative = text[0] == '-';
    let start: usize = if text[0] == '+' || text[0] == '-' {
        1
    } else {
        0
    };
    if start == text.len() {
        return 0;
    }
    let ghost digits = unsigned_part(text@);
    let limit: u64 = 2147483648;
    let mut value: u64 = 0;
    let mut too_large = false;
    let mut i: usize = start;
    assert(digits.take(0) == Seq::<char>::empty());
    while i < text.len()
        invariant
            start <= i <= text.len(),
            digits == text@.skip(start as int),
            digits == unsigned_part(text@),
            all_digits(digits.take(i - start)),
            limit == 2147483648,
            !too_large ==> value == decimal_value(digits.take(i - start)) && value <= limit,
            too_large ==> decimal_value(digits.take(i - start)) > limit,
        decreases text.len() - i,
    {
        let c = text[i];
        if !(c >= '0' && c <= '9') {
            assert(digits[i - start] == c);
            assert(!all_digits(digits));
            return 0;
        }
        let d: u64 = (c as u32 - '0' as u32) as u64;
        proof {
            let before = digits.take(i - start);
            assert(digits.take(i - start + 1) == before.push(c));
            lemma_decimal_value_push(before, c);
            assert(d == digit_value(c));
        }
        if !too_large {
            value = value * 10 + d;
            if value > limit {
                too_large = true;
            }
        }
        i += 1;
    }
    assert(digits.take(i - start) == digits);
    if too_large {
        return 0;
    }
    if negative {
        if value == limit {
            i32::MIN
        } else {
            let magnitude: i32 = value as i32;
            -magnitude
        }
    } else {
        if value == limit {
            0
        } else {
            value as i32
        }
    }
}

/// The character that writes the digit `d`.
pub open spec fn digit_char(d: nat) -> char
    recommends
        d < 10,
{
    if d == 0 {
        '0'
    } else if d == 1 {
        '1'
    } else if d == 2 {
        '2'
    } else if d == 3 {
        '3'
    } else if d == 4 {
        '4'
    } else if d == 5 {
        '5'
    } else if d == 6 {
        '6'
    } else if d == 7 {
        '7'
    } else if d == 8 {
        '8'
    } else {
        '9'
    }
}

/// The decimal digits of `n`, most significant first, without leading zeros.
pub open spec fn decimal_text(n: nat) -> Seq<char>
    decreases n,
{
    if n < 10 {
        seq![digit_char(n)]
    } else {
        decimal_text(n / 10).push(digit_char(n % 10))
    }
}

/// Reading back the digits written for `n` gives `n`: distinct numbers are
/// written differently.
pub proof fn lemma_decimal_text_value(n: nat)
    ensures
        decimal_value(decimal_text(n)) == n,
        all_digits(decimal_text(n)),
        decimal_text(n).len() > 0,
    decreases n,
{
    if n < 10 {
        let s = seq![digit_char(n)];
        assert(s.drop_last() == Seq::<char>::empty());
        assert(decimal_value(s.drop_last()) == 0);
        assert(s.last() == digit_char(n));
    } else {
        lemma_decimal_text_value(n / 10);
        let c = digit_char(n % 10);
        lemma_decimal_value_push(decimal_text(n / 10), c);
    }
}

fn digit_to_char(d: u128) -> (c: char)
    requires
        d < 10,
    ensures
        c == digit_char(d as nat),
{
    if d == 0 {
        '0'
    } else if d == 1 {
        '1'
    } else if d == 2 {
        '2'
    } else if d == 3 {
        '3'
    } else if d == 4 {
        '4'
    } else if d == 5 {
        '5'
    } else if d == 6 {
        '6'
    } else if d == 7 {
        '7'
    } else if d == 8 {
        '8'
    } else {
        '9'
    }
}

/// Writes `n` in decimal.
pub fn decimal_digits(n: u128) -> (v: Vec<char>)
    ensures
        v@ == decimal_text(n as nat),
    decreases n,
{
    if n < 10 {
        let mut v: Vec<char> = Vec::new();
        v.push(digit_to_char(n));
        assert(v@ == seq![digit_char(n as nat)]);
        v
    } else {
        let mut v = decimal_digits(n / 10);
        v.push(digit_to_char(n % 10));
        v
    }
}

} // verus!
