//! Decimal numbers in text.
use vstd::prelude::*;
use crate::text::characters;

verus! {

/// The decimal digit that stands for `d`.
pub open spec fn digit(d: nat) -> char {
    (48 + d) as char
}

/// Whether `c` is an ASCII decimal digit.
pub open spec fn is_digit(c: char) -> bool {
    '0' <= c <= '9'
}

/// Whether every character of `s` is an ASCII decimal digit.
pub open spec fn all_digits(s: Seq<char>) -> bool {
    forall|i: int| 0 <= i < s.len() ==> is_digit(#[trigger] s[i])
}

/// `n` in decimal, without leading zeros.
pub open spec fn decimal(n: nat) -> Seq<char>
    decreases n,
{
    if n < 10 {
        seq![digit(n)]
    } else {
        decimal(n / 10).push(digit(n % 10))
    }
}

/// `i` in decimal, with a minus sign where it is negative.
pub open spec fn signed_decimal(i: int) -> Seq<char> {
    if i < 0 {
        seq!['-'] + decimal((-i) as nat)
    } else {
        decimal(i as nat)
    }
}

/// The number that the decimal digits `s` stand for.
pub open spec fn digits_value(s: Seq<char>) -> nat
    decreases s.len(),
{
    if s.len() == 0 {
        0
    } else {
        digits_value(s.drop_last()) * 10 + (s.last() as nat - 48) as nat
    }
}

/// The unsigned 64-bit number that `s` spells: decimal digits, behind an optional plus sign.
pub open spec fn parse_u64(s: Seq<char>) -> Option<u64> {
    let digits = if s.len() > 1 && s[0] == '+' {
        s.drop_first()
    } else {
        s
    };
    if digits.len() > 0 && all_digits(digits) && digits_value(digits) <= u64::MAX {
        Some(digits_value(digits) as u64)
    } else {
        None
    }
}

/// The decimal digit that stands for `d`.
fn digit_char(d: u64) -> (r: char)
    requires
        d < 10,
    ensures
        r == digit(d as nat),
{
    (48u8 + d as u8) as char
}

/// `n` in decimal.
pub fn decimal_text(n: u64) -> (r: String)
    ensures
        r@ == decimal(n as nat),
    decreases n,
{
    if n < 10 {
        let mut result = String::new();
        result.push(digit_char(n));
        assert(result@ =~= decimal(n as nat));
        result
    } else {
        let mut result = decimal_text(n / 10);
        result.push(digit_char(n % 10));
        result
    }
}

/// `i` in decimal.
pub fn signed_decimal_text(i: i64) -> (r: String)
    ensures
        r@ == signed_decimal(i as int),
{
    if i < 0 {
        let magnitude: u64 = (-(i + 1)) as u64 + 1;
        let digits = decimal_text(magnitude);
        let mut result = String::new();
        result.push('-');
        assert(result@ =~= seq!['-']);
        result.append(digits.as_str());
        result
    } else {
        decimal_text(i as u64)
    }
}

proof fn lemma_digits_value_grows(s: Seq<char>, n: int)
    requires
        0 <= n <= s.len(),
    ensures
        digits_value(s.take(n)) <= digits_value(s),
    decreases s.len() - n,
{
    if n < s.len() {
        lemma_digits_value_grows(s, n + 1);
        assert(s.take(n + 1).drop_last() =~= s.take(n));
    } else {
        assert(s.take(n) =~= s);
    }
}

/// The number that `text` spells, if it spells one that fits.
pub fn parse_number(text: &str) -> (r: Option<u64>)
    ensures
        r == parse_u64(text@),
{
    let chars = characters(text);
    let start: usize = if chars.len() > 1 && chars[0] == '+' {
        1
    } else {
        0
    };
    let ghost digits = chars@.skip(start as int);
    assert(start == 0 ==> digits =~= text@);
    assert(start == 1 ==> digits =~= text@.drop_first());
    if chars.len() == start {
        return None;
    }
    let mut value: u64 = 0;
    let mut i: usize = start;
    while i < chars.len()
        invariant
            start <= i <= chars@.len(),
            digits == chars@.skip(start as int),
            digits.len() > 0,
            start == 0 || start == 1,
            start == 0 ==> digits == text@ && !(text@.len() > 1 && text@[0] == '+'),
            start == 1 ==> digits == text@.drop_first() && text@.len() > 1 && text@[0] == '+',
            value == digits_value(digits.take(i - start)),
            forall|k: int| 0 <= k < i - start ==> is_digit(#[trigger] digits[k]),
        decreases chars@.len() - i,
    {
        let c = chars[i];
        let ghost n = i - start;
        assert(digits[n] == c);
        if !('0' <= c && c <= '9') {
            assert(!all_digits(digits));
            return None;
        }
        let d: u64 = c as u64 - 48;
        assert(digits.take(n + 1).drop_last() =~= digits.take(n));
        assert(digits_value(digits.take(n + 1)) == value * 10 + d);
        proof {
            lemma_digits_value_grows(digits, n + 1);
        }
        if value > (u64::MAX - d) / 10 {
            return None;
        }
        value = value * 10 + d;
        i = i + 1;
    }
    assert(digits.take(digits.len() as int) =~= digits);
    Some(value)
}

/// A number in decimal consists of digits and spells that number.
pub proof fn decimal_spells_its_number(n: nat)
    ensures
        decimal(n).len() > 0,
        all_digits(decimal(n)),
        digits_value(decimal(n)) == n,
    decreases n,
{
    reveal_with_fuel(digits_value, 2);
    if n >= 10 {
        decimal_spells_its_number(n / 10);
        assert(decimal(n).drop_last() =~= decimal(n / 10));
        assert(forall|i: int|
            0 <= i < decimal(n).len() - 1 ==> #[trigger] decimal(n)[i] == decimal(n / 10)[i]);
    } else {
        assert(decimal(n).drop_last() =~= seq![]);
    }
}

/// Reading a number back from its decimal text gives that number.
pub proof fn decimal_round_trip(n: u64)
    ensures
        parse_u64(decimal(n as nat)) == Some(n),
{
    decimal_spells_its_number(n as nat);
    assert(is_digit(decimal(n as nat)[0]));
}

/// Decimal digits are put one behind the other: a number below ten has one digit, and another digit
/// makes ten times the number and the digit.
pub proof fn decimal_digits_follow_each_other(n: nat, d: nat)
    requires
        d < 10,
    ensures
        decimal(d) == seq![(48 + d) as char],
        n > 0 ==> decimal(10 * n + d) == decimal(n).push((48 + d) as char),
{
    if n > 0 {
        assert((10 * n + d) / 10 == n && (10 * n + d) % 10 == d);
    }
}

/// A negative number is spelled as its opposite behind a minus sign, and another one as it stands.
pub proof fn negative_numbers_have_a_sign(n: nat)
    ensures
        signed_decimal(n as int) == decimal(n),
        n > 0 ==> signed_decimal(-(n as int)) == seq!['-'] + decimal(n),
{
}

/// Numbers are read digit by digit: another digit makes ten times the number and the digit, as long
/// as that fits, and nothing more can follow once it does not.
pub proof fn numbers_are_read_by_digits(s: Seq<char>, c: char)
    requires
        s.len() > 0,
        forall|k: int| 0 <= k < s.len() ==> '0' <= #[trigger] s[k] <= '9',
        '0' <= c <= '9',
    ensures
        parse_u64(seq![c]) == Some((c as u64 - 48) as u64),
        parse_u64(seq!['+'] + s) == parse_u64(s),
        match parse_u64(s) {
            Some(v) => parse_u64(s.push(c)) == (if 10 * v + (c as u64 - 48) <= u64::MAX {
                Some((10 * v + (c as u64 - 48)) as u64)
            } else {
                None
            }),
            None => parse_u64(s.push(c)) is None,
        },
{
    reveal_with_fuel(digits_value, 2);
    let one = seq![c];
    assert(one.drop_last() =~= seq![]);
    assert(all_digits(one));
    let t = s.push(c);
    assert(t.drop_last() =~= s);
    assert(s[0] != '+' && t[0] == s[0]);
    assert forall|i: int| 0 <= i < t.len() implies is_digit(#[trigger] t[i]) by {
        if i < s.len() {
            assert(t[i] == s[i]);
        }
    }
    assert(all_digits(s));
    let signed = seq!['+'] + s;
    assert(signed.drop_first() =~= s);
}

/// Nothing else is a number: no empty text, no sign alone, and no text with another character.
pub proof fn other_texts_are_no_numbers(s: Seq<char>, i: int)
    requires
        s.len() == 0 || (0 <= i < s.len() && !('0' <= s[i] <= '9') && (i > 0 || s[0] != '+' || s.len()
            == 1)),
    ensures
        parse_u64(s) is None,
{
    if s.len() > 0 {
        if s.len() > 1 && s[0] == '+' {
            assert(s.drop_first()[i - 1] == s[i]);
            assert(!is_digit(s.drop_first()[i - 1]));
        } else {
            assert(!is_digit(s[i]));
        }
    }
}

} // verus!
