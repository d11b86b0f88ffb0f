use crate::error::Error;
use crate::result::Result;
use vstd::prelude::*;

verus! {

/// Whether `c` is one of the ten decimal digits.
pub open spec fn is_digit(c: char) -> bool {
    '0' <= c && c <= '9'
}

/// The number that the digit `c` stands for.
pub open spec fn digit_value(c: char) -> nat {
    (c as int - '0' as int) as nat
}

/// Whether `c` is a plus or a minus sign.
pub open spec fn is_sign(c: char) -> bool {
    c == '+' || c == '-'
}

/// The end of the run of digits that begins at `from`.
pub open spec fn digits_end(s: Seq<char>, from: int) -> int
    decreases s.len() - from,
{
    if 0 <= from < s.len() && is_digit(s[from]) {
        digits_end(s, from + 1)
    } else {
        from
    }
}

/// The place behind a sign at `from`, or `from` where no sign stands.
pub open spec fn sign_end(s: Seq<char>, from: int) -> int {
    if 0 <= from < s.len() && is_sign(s[from]) {
        from + 1
    } else {
        from
    }
}

/// The place behind a decimal point at `from`, or `from` where none stands.
pub open spec fn point_end(s: Seq<char>, from: int) -> int {
    if 0 <= from < s.len() && s[from] == '.' {
        from + 1
    } else {
        from
    }
}

/// Whether `s` is a number in decimal notation: an optional sign, digits
/// with an optional decimal point before, between or behind them, and an
/// optional exponent, which is the letter `e`, an optional sign and digits.
/// At least one digit stands before the exponent.
pub open spec fn is_number(s: Seq<char>) -> bool {
    let whole = sign_end(s, 0);
    let point = digits_end(s, whole);
    let fraction = point_end(s, point);
    let mantissa = digits_end(s, fraction);
    let exponent = sign_end(s, mantissa + 1);
    &&& (point - whole) + (mantissa - fraction) > 0
    &&& mantissa == s.len() || {
        &&& s[mantissa] == 'e' || s[mantissa] == 'E'
        &&& exponent < digits_end(s, exponent)
        &&& digits_end(s, exponent) == s.len()
    }
}

/// Whether `c` is a decimal digit.
pub fn digit(c: char) -> (r: bool)
    ensures
        r == is_digit(c),
{
    '0' <= c && c <= '9'
}

/// Walks over the digits that begin at `from` and gives the place behind them.
pub fn skip_digits(token: &[char], from: usize) -> (end: usize)
    ensures
        end == digits_end(token@, from as int),
        from <= end,
        from <= token@.len() ==> end <= token@.len(),
{
    let mut at: usize = from;
    while at < token.len() && digit(token[at])
        invariant
            from <= at,
            from <= token@.len() ==> at <= token@.len(),
            digits_end(token@, at as int) == digits_end(token@, from as int),
        decreases token@.len() - at,
    {
        at += 1;
    }
    at
}

/// Steps over a sign at `from`, if one stands there.
pub fn skip_sign(token: &[char], from: usize) -> (end: usize)
    ensures
        end == sign_end(token@, from as int),
        from <= end <= from + 1,
        from <= token@.len() ==> end <= token@.len(),
{
    if from < token.len() && (token[from] == '+' || token[from] == '-') {
        from + 1
    } else {
        from
    }
}

/// Whether `token` is a number in decimal notation.
pub fn is_decimal(token: &[char]) -> (r: bool)
    ensures
        r == is_number(token@),
{
    let whole = skip_sign(token, 0);
    let point = skip_digits(token, whole);
    let fraction = if point < token.len() && token[point] == '.' {
        point + 1
    } else {
        point
    };
    let mantissa = skip_digits(token, fraction);
    if (point - whole) + (mantissa - fraction) == 0 {
        return false;
    }
    if mantissa == token.len() {
        return true;
    }
    if token[mantissa] != 'e' && token[mantissa] != 'E' {
        return false;
    }
    let exponent = skip_sign(token, mantissa + 1);
    let end = skip_digits(token, exponent);
    exponent < end && end == token.len()
}

/// Whether `s` holds digits only.
pub open spec fn all_digits(s: Seq<char>) -> bool {
    forall|i: int| 0 <= i < s.len() ==> is_digit(#[trigger] s[i])
}

/// The number that the digits of `s` spell in base ten.
pub open spec fn decimal(s: Seq<char>) -> nat
    decreases s.len(),
{
    if s.len() == 0 {
        0
    } else {
        10 * decimal(s.drop_last()) + digit_value(s.last())
    }
}

/// The digits of an index: the text behind an optional plus sign.
pub open spec fn index_digits(s: Seq<char>) -> Seq<char> {
    if s.len() > 0 && s[0] == '+' {
        s.skip(1)
    } else {
        s
    }
}

/// Whether `s` spells an index: an optional plus sign and at least one
/// digit, nothing else, with a value that the machine's word holds.
pub open spec fn is_index(s: Seq<char>) -> bool {
    &&& index_digits(s).len() > 0
    &&& all_digits(index_digits(s))
    &&& decimal(index_digits(s)) <= usize::MAX
}

/// A row of digits spells at least what any of its beginnings spells.
pub proof fn lemma_decimal_grows(s: Seq<char>, n: int)
    requires
        0 <= n <= s.len(),
    ensures
        decimal(s.take(n)) <= decimal(s),
    decreases s.len(),
{
    if n < s.len() {
        lemma_decimal_grows(s.drop_last(), n);
        assert(s.drop_last().take(n) =~= s.take(n));
    } else {
        assert(s.take(n) =~= s);
    }
}

/// Reads `token` as an index, or gives `IntParse` where it spells none.
pub fn parse_index(token: &[char]) -> (r: Result<usize>)
    ensures
        is_index(token@) ==> r == Ok::<usize, Error>(decimal(index_digits(token@)) as usize),
        !is_index(token@) ==> r == Err::<usize, Error>(Error::IntParse),
{
    let start: usize = if token.len() > 0 && token[0] == '+' {
        1
    } else {
        0
    };
    let ghost figures = index_digits(token@);
    if start == token.len() {
        return Err(Error::IntParse);
    }
    let mut value: usize = 0;
    let mut at: usize = start;
    while at < token.len()
        invariant
            start <= at <= token@.len(),
            start <= 1,
            figures == index_digits(token@),
            figures == token@.skip(start as int),
            all_digits(figures.take(at - start)),
            value == decimal(figures.take(at - start)),
        decreases token@.len() - at,
    {
        let c = token[at];
        proof {
            assert(figures[at - start] == c);
            assert(figures.take(at - start + 1).drop_last() =~= figures.take(at - start));
            assert(figures.take(at - start + 1).last() == c);
        }
        if !digit(c) {
            return Err(Error::IntParse);
        }
        let figure: usize = (c as u32 - '0' as u32) as usize;
        if value > (usize::MAX - figure) / 10 {
            proof {
                if all_digits(figures) {
                    lemma_decimal_grows(figures, at - start + 1);
                }
            }
            return Err(Error::IntParse);
        }
        value = value * 10 + figure;
        at += 1;
    }
    proof {
        assert(figures.take(at - start) =~= figures);
    }
    Ok(value)
}

} // verus!
