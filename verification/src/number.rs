//! Decimal integers in text: reading them as std's `FromStr` for unsigned
//! integers does, and writing them as `Display` does.

use vstd::prelude::*;
use crate::text::push_char;

verus! {

/// Why a text is not an unsigned decimal integer, with std's kinds of failure.
#[derive(Debug, Clone, Copy, PartialEq, Eq, Structural)]
pub enum IntErrorKind {
    /// The text is empty.
    Empty,
    /// The text holds something other than an optional `+` and decimal digits.
    InvalidDigit,
    /// The value does not fit in the target type.
    PosOverflow,
}

impl IntErrorKind {
    /// The message with which std's `ParseIntError` displays this kind.
    pub fn message(&self) -> (r: &'static str)
        ensures
            r@ == int_error_message(*self),
    {
        match self {
            IntErrorKind::Empty => "cannot parse integer from empty string",
            IntErrorKind::InvalidDigit => "invalid digit found in string",
            IntErrorKind::PosOverflow => "number too large to fit in target type",
        }
    }
}

/// The message of each kind of failure.
pub open spec fn int_error_message(k: IntErrorKind) -> Seq<char> {
    match k {
        IntErrorKind::Empty => "cannot parse integer from empty string"@,
        IntErrorKind::InvalidDigit => "invalid digit found in string"@,
        IntErrorKind::PosOverflow => "number too large to fit in target type"@,
    }
}

/// An ASCII decimal digit.
pub open spec fn is_digit(c: char) -> bool {
    48 <= (c as u32) <= 57
}

/// The value of an ASCII decimal digit.
pub open spec fn digit_value(c: char) -> nat {
    ((c as u32) - 48) as nat
}

/// The value of a string of decimal digits, most significant first.
pub open spec fn decimal_value(d: Seq<char>) -> nat
    decreases d.len(),
{
    if d.len() == 0 {
        0
    } else {
        decimal_value(d.drop_last()) * 10 + digit_value(d.last())
    }
}

/// How many decimal digits `d` begins with.
pub open spec fn leading_digits(d: Seq<char>) -> nat
    decreases d.len(),
{
    if d.len() > 0 && is_digit(d[0]) {
        1 + leading_digits(d.drop_first())
    } else {
        0
    }
}

/// The part of `s` after one optional leading `+`.
pub open spec fn unsigned_digits(s: Seq<char>) -> Seq<char> {
    if s.len() > 0 && s[0] == '+' {
        s.drop_first()
    } else {
        s
    }
}

/// What std's `str::parse` gives for an unsigned integer type whose largest
/// value is `max`: an optional `+` and then at least one ASCII digit; an
/// overflow among the digits before the first non-digit is reported first.
pub open spec fn parse_unsigned(s: Seq<char>, max: nat) -> Result<nat, IntErrorKind> {
    let d = unsigned_digits(s);
    let j = leading_digits(d);
    if s.len() == 0 {
        Err(IntErrorKind::Empty)
    } else if d.len() == 0 {
        Err(IntErrorKind::InvalidDigit)
    } else if decimal_value(d.take(j as int)) > max {
        Err(IntErrorKind::PosOverflow)
    } else if j < d.len() {
        Err(IntErrorKind::InvalidDigit)
    } else {
        Ok(decimal_value(d))
    }
}

/// `leading_digits` counts the digits before the first non-digit.
proof fn lemma_leading_digits(d: Seq<char>, j: int)
    requires
        0 <= j <= d.len(),
        forall|m: int| 0 <= m < j ==> is_digit(#[trigger] d[m]),
        j < d.len() ==> !is_digit(d[j]),
    ensures
        leading_digits(d) == j,
    decreases j,
{
    if j > 0 {
        assert forall|m: int| 0 <= m < j - 1 implies is_digit(#[trigger] d.drop_first()[m]) by {
            assert(d.drop_first()[m] == d[m + 1]);
        }
        lemma_leading_digits(d.drop_first(), j - 1);
    }
}

/// A text whose first `k` characters are digits begins with at least `k` digits.
proof fn lemma_leading_digits_at_least(d: Seq<char>, k: int)
    requires
        0 <= k <= d.len(),
        forall|m: int| 0 <= m < k ==> is_digit(#[trigger] d[m]),
    ensures
        k <= leading_digits(d) <= d.len(),
    decreases d.len(),
{
    if d.len() > 0 && is_digit(d[0]) {
        assert forall|m: int| 0 <= m < k - 1 implies is_digit(#[trigger] d.drop_first()[m]) by {
            assert(d.drop_first()[m] == d[m + 1]);
        }
        lemma_leading_digits_at_least(d.drop_first(), if k > 0 { k - 1 } else { 0 });
    }
}

/// Longer runs of digits have values at least as large.
proof fn lemma_decimal_value_grows(d: Seq<char>, k: int, j: int)
    requires
        0 <= k <= j <= d.len(),
    ensures
        decimal_value(d.take(k)) <= decimal_value(d.take(j)),
    decreases j - k,
{
    if k < j {
        lemma_decimal_value_grows(d, k, j - 1);
        assert(d.take(j).drop_last() =~= d.take(j - 1));
    }
}

/// Reads `s[lo..hi]` as an unsigned decimal integer no larger than `max`.
pub fn parse_unsigned_range(s: &Vec<char>, lo: usize, hi: usize, max: u64) -> (r: Result<
    u64,
    IntErrorKind,
>)
    requires
        lo <= hi <= s@.len(),
    ensures
        r matches Ok(v) ==> v <= max,
        r matches Ok(v) ==> parse_unsigned(s@.subrange(lo as int, hi as int), max as nat) == Ok::<
            nat,
            IntErrorKind,
        >(v as nat),
        r matches Err(e) ==> parse_unsigned(s@.subrange(lo as int, hi as int), max as nat) == Err::<
            nat,
            IntErrorKind,
        >(e),
{
    let ghost text = s@.subrange(lo as int, hi as int);
    if lo == hi {
        return Err(IntErrorKind::Empty);
    }
    let start = if s[lo] == '+' { lo + 1 } else { lo };
    let ghost d = unsigned_digits(text);
    assert(d =~= s@.subrange(start as int, hi as int));
    if start == hi {
        return Err(IntErrorKind::InvalidDigit);
    }
    let mut acc: u64 = 0;
    let mut i = start;
    while i < hi
        invariant
            lo <= start <= i <= hi <= s@.len(),
            start < hi,
            text == s@.subrange(lo as int, hi as int),
            d == unsigned_digits(text),
            d == s@.subrange(start as int, hi as int),
            forall|m: int| 0 <= m < i - start ==> is_digit(#[trigger] d[m]),
            acc as nat == decimal_value(d.take(i - start)),
            acc <= max,
        decreases hi - i,
    {
        let c = s[i];
        let u = c as u32;
        if !(48 <= u && u <= 57) {
            proof {
                lemma_leading_digits(d, i - start);
            }
            return Err(IntErrorKind::InvalidDigit);
        }
        let dv = (u - 48) as u64;
        assert(d.take(i - start + 1).drop_last() =~= d.take(i - start));
        assert(d.take(i - start + 1).last() == c);
        if dv > max || acc > (max - dv) / 10 {
            proof {
                if dv <= max {
                    assert(acc * 10 + dv > max) by (nonlinear_arith)
                        requires
                            acc > (max - dv) / 10,
                            dv <= max,
                    ;
                }
                lemma_leading_digits_at_least(d, i - start + 1);
                lemma_decimal_value_grows(d, i - start + 1, leading_digits(d) as int);
            }
            return Err(IntErrorKind::PosOverflow);
        }
        assert(acc * 10 + dv <= max) by (nonlinear_arith)
            requires
                acc <= (max - dv) / 10,
                dv <= max,
        ;
        acc = acc * 10 + dv;
        i += 1;
    }
    proof {
        lemma_leading_digits(d, d.len() as int);
        assert(d.take(d.len() as int) =~= d);
    }
    Ok(acc)
}

/// The ASCII digit for a value below ten.
pub open spec fn digit_char(d: nat) -> char {
    if d == 0 {
        '0'
    } else if d == 1 {
        '1'
    } else if d == 2 {
        '2'
    } else if d == 3 {
        '3'
    } else if d == 4 {
        '4'
    } else if d == 5 {
        '5'
    } else if d == 6 {
        '6'
    } else if d == 7 {
        '7'
    } else if d == 8 {
        '8'
    } else {
        '9'
    }
}

/// The decimal text of `n`, without sign or leading zeros, as `Display` writes it.
pub open spec fn decimal_text(n: nat) -> Seq<char>
    decreases n,
{
    if n < 10 {
        seq![digit_char(n)]
    } else {
        decimal_text(n / 10).push(digit_char(n % 10))
    }
}

fn digit(d: u64) -> (c: char)
    requires
        d < 10,
    ensures
        c == digit_char(d as nat),
{
    match d {
        0 => '0',
        1 => '1',
        2 => '2',
        3 => '3',
        4 => '4',
        5 => '5',
        6 => '6',
        7 => '7',
        8 => '8',
        _ => '9',
    }
}

/// Appends the decimal text of `n` to `out`.
pub fn push_decimal(out: &mut String, n: u64)
    ensures
        final(out)@ == old(out)@ + decimal_text(n as nat),
    decreases n,
{
    if n >= 10 {
        push_decimal(out, n / 10);
    }
    push_char(out, digit(n % 10));
}

/// The decimal text of `n`.
pub fn decimal_string(n: u64) -> (r: String)
    ensures
        r@ == decimal_text(n as nat),
{
    let mut r = String::new();
    push_decimal(&mut r, n);
    assert(r@ =~= decimal_text(n as nat));
    r
}

/// Digits and their values correspond.
proof fn lemma_digit_char(d: nat)
    requires
        d < 10,
    ensures
        is_digit(digit_char(d)),
        digit_value(digit_char(d)) == d,
{
}

/// Writing a number in decimal and reading it back gives the number.
pub proof fn lemma_decimal_text(n: nat)
    ensures
        decimal_text(n).len() > 0,
        forall|i: int| 0 <= i < decimal_text(n).len() ==> is_digit(#[trigger] decimal_text(n)[i]),
        decimal_value(decimal_text(n)) == n,
    decreases n,
{
    if n < 10 {
        lemma_digit_char(n);
        let t = seq![digit_char(n)];
        assert(t.drop_last() =~= Seq::<char>::empty());
        assert(decimal_value(t.drop_last()) == 0);
        assert(decimal_value(t) == decimal_value(t.drop_last()) * 10 + digit_value(t.last()));
    } else {
        lemma_decimal_text(n / 10);
        lemma_digit_char(n % 10);
        let t = decimal_text(n);
        assert(t.drop_last() =~= decimal_text(n / 10));
        assert((n / 10) * 10 + n % 10 == n) by (nonlinear_arith);
        assert(t.last() == digit_char(n % 10));
        assert(decimal_value(t) == decimal_value(t.drop_last()) * 10 + digit_value(t.last()));
        assert forall|i: int| 0 <= i < t.len() implies is_digit(#[trigger] t[i]) by {
            if i < t.len() - 1 {
                assert(t[i] == decimal_text(n / 10)[i]);
            }
        }
    }
}

/// Reading back the decimal text of a number no larger than `max` gives the number.
pub proof fn lemma_parse_decimal_text(n: nat, max: nat)
    requires
        n <= max,
    ensures
        parse_unsigned(decimal_text(n), max) == Ok::<nat, IntErrorKind>(n),
{
    let t = decimal_text(n);
    lemma_decimal_text(n);
    assert(is_digit(t[0]));
    assert(unsigned_digits(t) == t);
    lemma_leading_digits(t, t.len() as int);
    assert(t.take(t.len() as int) =~= t);
}

} // verus!
