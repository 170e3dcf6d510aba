//! Numbers written in decimal, and read back.

use vstd::prelude::*;

use crate::text::chars_of;

verus! {

/// Why a text is not a number in range.
#[derive(Clone, Copy, Debug, PartialEq, Eq, Structural)]
pub enum NumberError {
    /// There is nothing to read.
    Empty,
    /// A character is not a digit, or there is only a sign.
    InvalidDigit,
    /// The number is greater than the greatest that is asked for.
    PosOverflow,
}

impl NumberError {
    /// What to tell a reader.
    pub open spec fn text(self) -> Seq<char> {
        match self {
            NumberError::Empty => "cannot parse integer from empty string"@,
            NumberError::InvalidDigit => "invalid digit found in string"@,
            NumberError::PosOverflow => "number too large to fit in target type"@,
        }
    }

    /// What to tell a reader.
    pub fn message(self) -> (r: &'static str)
        ensures
            r@ == self.text(),
    {
        match self {
            NumberError::Empty => "cannot parse integer from empty string",
            NumberError::InvalidDigit => "invalid digit found in string",
            NumberError::PosOverflow => "number too large to fit in target type",
        }
    }
}

/// The character of a digit below ten.
pub open spec fn digit(d: int) -> char {
    if d == 0 {
        '0'
    } else if d == 1 {
        '1'
    } else if d == 2 {
        '2'
    } else if d == 3 {
        '3'
    } else if d == 4 {
        '4'
    } else if d == 5 {
        '5'
    } else if d == 6 {
        '6'
    } else if d == 7 {
        '7'
    } else if d == 8 {
        '8'
    } else {
        '9'
    }
}

/// `n` in decimal, without leading zeros.
pub open spec fn decimal(n: nat) -> Seq<char>
    decreases n,
{
    if n < 10 {
        seq![digit(n as int)]
    } else {
        decimal(n / 10).push(digit((n % 10) as int))
    }
}

/// `n` in decimal, behind a minus sign if it is below zero.
pub open spec fn decimal_signed(n: int) -> Seq<char> {
    if n < 0 {
        seq!['-'] + decimal((-n) as nat)
    } else {
        decimal(n as nat)
    }
}

/// Whether `c` is a decimal digit.
pub open spec fn is_digit(c: char) -> bool {
    '0' <= c <= '9'
}

/// The value of the digit `c`.
pub open spec fn digit_value(c: char) -> nat {
    (c as int - '0' as int) as nat
}

/// The number written by the digits `s`, read from the left. The first character that is not
/// a digit, or that takes the number past `max`, decides the error.
pub open spec fn read_digits(s: Seq<char>, max: nat) -> Result<nat, NumberError>
    decreases s.len(),
{
    if s.len() == 0 {
        Ok(0)
    } else {
        match read_digits(s.drop_last(), max) {
            Err(e) => Err(e),
            Ok(v) => if !is_digit(s.last()) {
                Err(NumberError::InvalidDigit)
            } else if v * 10 + digit_value(s.last()) > max {
                Err(NumberError::PosOverflow)
            } else {
                Ok(v * 10 + digit_value(s.last()))
            },
        }
    }
}

/// The number from zero to `max` that `s` writes in decimal, with an optional plus sign.
pub open spec fn parse(s: Seq<char>, max: nat) -> Result<nat, NumberError> {
    if s.len() == 0 {
        Err(NumberError::Empty)
    } else if s.first() == '+' {
        if s.len() == 1 {
            Err(NumberError::InvalidDigit)
        } else {
            read_digits(s.skip(1), max)
        }
    } else {
        read_digits(s, max)
    }
}

/// Decimal text holds digits only, and at least one.
pub proof fn lemma_decimal_digits(n: nat)
    ensures
        decimal(n).len() > 0,
        forall|k: int| 0 <= k < decimal(n).len() ==> is_digit(#[trigger] decimal(n)[k]),
    decreases n,
{
    if n >= 10 {
        lemma_decimal_digits(n / 10);
    }
}

/// Reading the digits of a number gives the number.
proof fn lemma_read_decimal(n: nat, max: nat)
    requires
        n <= max,
    ensures
        read_digits(decimal(n), max) == Ok::<nat, NumberError>(n),
    decreases n,
{
    let s = decimal(n);
    let d = (n % 10) as int;
    assert(digit_value(digit(d)) == d);
    if n < 10 {
        assert(s.drop_last() =~= Seq::<char>::empty());
        assert(read_digits(s.drop_last(), max) == Ok::<nat, NumberError>(0));
    } else {
        lemma_read_decimal(n / 10, max);
        assert(s.drop_last() =~= decimal(n / 10));
        assert(n / 10 * 10 + d == n);
    }
}

/// What is written in decimal is read back, whatever the bound that it respects.
pub proof fn law_decimal_read_back(n: nat, max: nat)
    requires
        n <= max,
    ensures
        parse(decimal(n), max) == Ok::<nat, NumberError>(n),
{
    lemma_decimal_digits(n);
    lemma_read_decimal(n, max);
    assert(is_digit(decimal(n)[0]));
}

/// Two numbers with the same decimal text are the same number.
pub proof fn law_decimal_injective(a: nat, b: nat)
    requires
        decimal(a) == decimal(b),
    ensures
        a == b,
{
    let max = a + b;
    lemma_read_decimal(a, max);
    lemma_read_decimal(b, max);
}

/// A number that is read lies within the bound.
pub proof fn law_parse_in_range(s: Seq<char>, max: nat)
    requires
        parse(s, max) is Ok,
    ensures
        parse(s, max)->Ok_0 <= max,
{
}

/// The character of a digit below ten.
pub fn digit_of(d: u64) -> (r: char)
    requires
        d < 10,
    ensures
        r == digit(d as int),
{
    if d == 0 {
        '0'
    } else if d == 1 {
        '1'
    } else if d == 2 {
        '2'
    } else if d == 3 {
        '3'
    } else if d == 4 {
        '4'
    } else if d == 5 {
        '5'
    } else if d == 6 {
        '6'
    } else if d == 7 {
        '7'
    } else if d == 8 {
        '8'
    } else {
        '9'
    }
}

/// `n` in decimal.
pub fn decimal_of(n: u64) -> (r: String)
    ensures
        r@ == decimal(n as nat),
    decreases n,
{
    if n < 10 {
        let mut s = String::new();
        s.push(digit_of(n));
        assert(s@ =~= decimal(n as nat));
        s
    } else {
        let mut s = decimal_of(n / 10);
        s.push(digit_of(n % 10));
        s
    }
}

/// `n` in decimal, behind a minus sign if it is below zero.
pub fn decimal_of_signed(n: i32) -> (r: String)
    ensures
        r@ == decimal_signed(n as int),
{
    if n < 0 {
        let mut s = String::new();
        s.push('-');
        let d = decimal_of((-(n as i64)) as u64);
        let r = crate::text::joined(s.as_str(), d.as_str());
        assert(s@ =~= seq!['-']);
        r
    } else {
        decimal_of(n as u64)
    }
}

/// The number from zero to `max` that `s` writes in decimal.
pub fn parse_number(s: &str, max: u64) -> (r: Result<u64, NumberError>)
    ensures
        match (r, parse(s@, max as nat)) {
            (Ok(a), Ok(b)) => a as nat == b,
            (Err(a), Err(b)) => a == b,
            _ => false,
        },
{
    let v = chars_of(s);
    if v.len() == 0 {
        return Err(NumberError::Empty);
    }
    let from: usize = if v[0] == '+' { 1 } else { 0 };
    if from == 1 && v.len() == 1 {
        return Err(NumberError::InvalidDigit);
    }
    let ghost t = s@.skip(from as int);
    assert(s@.skip(0) =~= s@);
    let mut i: usize = from;
    let mut value: u64 = 0;
    assert(t.take(0) =~= Seq::<char>::empty());
    assert(t.take(t.len() as int) =~= t);
    while i < v.len()
        invariant
            v@ == s@,
            from <= i <= v.len(),
            t == s@.skip(from as int),
            read_digits(t.take(i - from), max as nat) == Ok::<nat, NumberError>(value as nat),
            value <= max,
            parse(s@, max as nat) == read_digits(t, max as nat),
            t.take(t.len() as int) == t,
        decreases v.len() - i,
    {
        let c = v[i];
        let ghost upto = t.take(i - from + 1);
        proof {
            assert(upto.drop_last() =~= t.take(i - from));
            assert(upto.last() == c);
        }
        if !('0' <= c && c <= '9') {
            proof {
                lemma_read_prefix(t, max as nat, i - from + 1);
            }
            return Err(NumberError::InvalidDigit);
        }
        let d: u64 = c as u64 - 48;
        if value > max / 10 || d > max - value * 10 {
            proof {
                assert(value * 10 + d > max);
                lemma_read_prefix(t, max as nat, i - from + 1);
            }
            return Err(NumberError::PosOverflow);
        }
        value = value * 10 + d;
        i += 1;
    }
    Ok(value)
}

/// An error on a prefix is the error on the whole.
proof fn lemma_read_prefix(s: Seq<char>, max: nat, n: int)
    requires
        0 <= n <= s.len(),
        read_digits(s.take(n), max) is Err,
    ensures
        read_digits(s, max) == read_digits(s.take(n), max),
    decreases s.len() - n,
{
    if n == s.len() {
        assert(s.take(n) =~= s);
    } else {
        assert(s.drop_last().take(n) =~= s.take(n));
        lemma_read_prefix(s.drop_last(), max, n);
    }
}

/// The `u32` that `s` writes in decimal.
pub fn parse_u32(s: &str) -> (r: Result<u32, NumberError>)
    ensures
        match (r, parse(s@, u32::MAX as nat)) {
            (Ok(a), Ok(b)) => a as nat == b,
            (Err(a), Err(b)) => a == b,
            _ => false,
        },
{
    match parse_number(s, u32::MAX as u64) {
        Ok(v) => {
            proof {
                law_parse_in_range(s@, u32::MAX as nat);
            }
            Ok(v as u32)
        },
        Err(e) => Err(e),
    }
}

/// Only digits, behind at most one plus sign, are read as a number: any other character makes
/// the text no number.
pub proof fn law_parse_digits_only(s: Seq<char>, max: nat, k: int)
    requires
        0 <= k < s.len(),
        !is_digit(s[k]),
        k > 0 || s[k] != '+',
    ensures
        parse(s, max) is Err,
{
    if s.first() == '+' {
        if s.len() > 1 {
            assert(s.skip(1)[k - 1] == s[k]);
            lemma_read_not_digit(s.skip(1), max, k - 1);
        }
    } else {
        lemma_read_not_digit(s, max, k);
    }
}

proof fn lemma_read_not_digit(s: Seq<char>, max: nat, k: int)
    requires
        0 <= k < s.len(),
        !is_digit(s[k]),
    ensures
        read_digits(s, max) is Err,
    decreases s.len(),
{
    if k < s.len() - 1 {
        lemma_read_not_digit(s.drop_last(), max, k);
    }
}

/// A number past the bound is refused as too large, and a plus sign before a number changes
/// nothing. Nothing, or a sign alone, is no number.
pub proof fn law_parse_bound_and_sign(n: nat, max: nat)
    ensures
        n > max ==> parse(decimal(n), max) == Err::<nat, NumberError>(NumberError::PosOverflow),
        parse(seq!['+'] + decimal(n), max) == parse(decimal(n), max),
        parse(Seq::empty(), max) == Err::<nat, NumberError>(NumberError::Empty),
        parse(seq!['+'], max) == Err::<nat, NumberError>(NumberError::InvalidDigit),
        parse(seq!['-'] + decimal(n), max) == Err::<nat, NumberError>(NumberError::InvalidDigit),
{
    lemma_decimal_digits(n);
    assert(is_digit(decimal(n)[0]));
    if n > max {
        lemma_read_too_large(n, max);
    }
    assert((seq!['+'] + decimal(n)).skip(1) =~= decimal(n));
    let m = seq!['-'] + decimal(n);
    assert(m.take(1) =~= seq!['-']);
    assert(seq!['-'].drop_last() =~= Seq::<char>::empty());
    assert(read_digits(seq!['-'], max) == Err::<nat, NumberError>(NumberError::InvalidDigit)) by {
        reveal_with_fuel(read_digits, 2);
    }
    lemma_read_prefix(m, max, 1);
}

proof fn lemma_read_too_large(n: nat, max: nat)
    requires
        n > max,
    ensures
        read_digits(decimal(n), max) == Err::<nat, NumberError>(NumberError::PosOverflow),
    decreases n,
{
    let s = decimal(n);
    let d = (n % 10) as int;
    assert(digit_value(digit(d)) == d);
    assert(is_digit(digit(d)));
    if n < 10 {
        assert(s.drop_last() =~= Seq::<char>::empty());
        assert(read_digits(s.drop_last(), max) == Ok::<nat, NumberError>(0));
    } else {
        assert(s.drop_last() =~= decimal(n / 10));
        assert(n / 10 * 10 + d == n);
        if n / 10 > max {
            lemma_read_too_large(n / 10, max);
        } else {
            lemma_read_decimal(n / 10, max);
        }
    }
}

/// A digit behind a number multiplies it by ten and adds the digit, whichever of the ten it is.
pub proof fn law_decimal_places(n: nat, d: nat)
    requires
        n > 0,
        d < 10,
    ensures
        decimal(n * 10 + d) == decimal(n) + decimal(d),
        decimal(0) == seq!['0'],
        decimal(1) == seq!['1'],
        decimal(2) == seq!['2'],
        decimal(3) == seq!['3'],
        decimal(4) == seq!['4'],
        decimal(5) == seq!['5'],
        decimal(6) == seq!['6'],
        decimal(7) == seq!['7'],
        decimal(8) == seq!['8'],
        decimal(9) == seq!['9'],
{
    assert((n * 10 + d) / 10 == n);
    assert((n * 10 + d) % 10 == d);
    assert(decimal(n * 10 + d) =~= decimal(n) + decimal(d));
}

/// A number below zero is written as a minus sign and what it is above zero.
pub proof fn law_decimal_signed(n: int)
    ensures
        n >= 0 ==> decimal_signed(n) == decimal(n as nat),
        n < 0 ==> decimal_signed(n) == seq!['-'] + decimal((-n) as nat),
{
}

/// A number is read place by place: one more digit multiplies what was read by ten and adds the
/// digit, leading zeros count for nothing, and only the bound can stop it.
pub proof fn law_parse_places(s: Seq<char>, c: char, max: nat)
    requires
        s.len() > 0,
        s.first() != '+',
        parse(s, max) is Ok,
    ensures
        '0' <= c <= '9' ==> parse(s.push(c), max) == if parse(s, max)->Ok_0 * 10 + (c as int - 48)
            <= max {
            Ok::<nat, NumberError>((parse(s, max)->Ok_0 * 10 + (c as int - 48)) as nat)
        } else {
            Err(NumberError::PosOverflow)
        },
        !('0' <= c <= '9') ==> parse(s.push(c), max) == Err::<nat, NumberError>(
            NumberError::InvalidDigit,
        ),
        parse(seq!['0'] + s, max) == parse(s, max),
{
    let t = s.push(c);
    assert(t.drop_last() =~= s);
    assert(t.first() == s.first());
    lemma_read_leading_zero(s, max);
    assert((seq!['0'] + s).first() == '0');
}

proof fn lemma_read_leading_zero(s: Seq<char>, max: nat)
    ensures
        read_digits(seq!['0'] + s, max) == read_digits(s, max),
    decreases s.len(),
{
    let t = seq!['0'] + s;
    if s.len() == 0 {
        assert(t =~= seq!['0']);
        assert(t.drop_last() =~= Seq::<char>::empty());
        reveal_with_fuel(read_digits, 2);
    } else {
        assert(t.drop_last() =~= seq!['0'] + s.drop_last());
        assert(t.last() == s.last());
        lemma_read_leading_zero(s.drop_last(), max);
    }
}

/// What cannot be read says why: nothing stands there, a character is no digit, or the number is
/// greater than the bound.
pub proof fn law_number_reasons(c: char, max: nat, v: nat)
    requires
        !is_digit(c),
        v > max,
    ensures
        parse(Seq::empty(), max)->Err_0.text() == "cannot parse integer from empty string"@,
        parse(seq![c], max)->Err_0.text() == "invalid digit found in string"@,
        parse(decimal(v), max)->Err_0.text() == "number too large to fit in target type"@,
{
    law_parse_bound_and_sign(v, max);
    reveal_with_fuel(read_digits, 2);
    assert(seq![c].drop_last() =~= Seq::<char>::empty());
    assert(seq![c].last() == c);
}

} // verus!
