//! Decimal integers: reading them from text as `str::parse` does, and
//! writing them as `to_string` does.

use vstd::prelude::*;

verus! {

/// Why a decimal integer could not be read (the kinds of std's `ParseIntError`).
#[derive(Debug, Clone, Copy, PartialEq, Eq, Structural)]
pub enum IntErrorKind {
    Empty,
    InvalidDigit,
    PosOverflow,
    NegOverflow,
}

impl IntErrorKind {
    /// The text that std's `ParseIntError` displays for this kind.
    pub fn message(&self) -> (m: String)
        ensures
            m@ == int_error_message(*self),
    {
        match self {
            IntErrorKind::Empty => String::from_str("cannot parse integer from empty string"),
            IntErrorKind::InvalidDigit => String::from_str("invalid digit found in string"),
            IntErrorKind::PosOverflow => String::from_str("number too large to fit in target type"),
            IntErrorKind::NegOverflow => String::from_str("number too small to fit in target type"),
        }
    }
}

pub open spec fn int_error_message(k: IntErrorKind) -> Seq<char> {
    match k {
        IntErrorKind::Empty => "cannot parse integer from empty string"@,
        IntErrorKind::InvalidDigit => "invalid digit found in string"@,
        IntErrorKind::PosOverflow => "number too large to fit in target type"@,
        IntErrorKind::NegOverflow => "number too small to fit in target type"@,
    }
}

pub open spec fn is_digit(c: char) -> bool {
    48 <= (c as u32) <= 57
}

pub open spec fn digit_value(c: char) -> int {
    (c as u32) - 48
}

/// Reads the digits `d` left to right onto `acc`, subtracting them when
/// `neg`; fails at the first character that is no digit, or at the first
/// digit that takes the value out of `[lo, hi]`.
pub open spec fn scan_digits(acc: int, d: Seq<char>, neg: bool, lo: int, hi: int) -> Result<
    int,
    IntErrorKind,
>
    decreases d.len(),
{
    if d.len() == 0 {
        Ok(acc)
    } else if !is_digit(d[0]) {
        Err(IntErrorKind::InvalidDigit)
    } else {
        let next = if neg {
            acc * 10 - digit_value(d[0])
        } else {
            acc * 10 + digit_value(d[0])
        };
        if next < lo {
            Err(IntErrorKind::NegOverflow)
        } else if next > hi {
            Err(IntErrorKind::PosOverflow)
        } else {
            scan_digits(next, d.drop_first(), neg, lo, hi)
        }
    }
}

/// What `str::parse` gives for a signed integer type with range `[lo, hi]`:
/// an optional sign, then decimal digits.
pub open spec fn parse_int_spec(s: Seq<char>, lo: int, hi: int) -> Result<int, IntErrorKind> {
    if s.len() == 0 {
        Err(IntErrorKind::Empty)
    } else if (s[0] == '+' || s[0] == '-') && s.len() == 1 {
        Err(IntErrorKind::InvalidDigit)
    } else if s[0] == '+' {
        scan_digits(0, s.drop_first(), false, lo, hi)
    } else if s[0] == '-' {
        scan_digits(0, s.drop_first(), true, lo, hi)
    } else {
        scan_digits(0, s, false, lo, hi)
    }
}

/// Reads a signed decimal integer in `[lo, hi]` from `s`.
pub fn parse_int_in(s: &Vec<char>, lo: i64, hi: i64) -> (r: Result<i64, IntErrorKind>)
    requires
        lo <= 0 <= hi,
    ensures
        match parse_int_spec(s@, lo as int, hi as int) {
            Ok(v) => r == Ok::<i64, IntErrorKind>(v as i64) && lo <= v <= hi,
            Err(e) => r == Err::<i64, IntErrorKind>(e),
        },
{
    if s.len() == 0 {
        return Err(IntErrorKind::Empty);
    }
    let c0 = s[0];
    if (c0 == '+' || c0 == '-') && s.len() == 1 {
        return Err(IntErrorKind::InvalidDigit);
    }
    let neg = c0 == '-';
    let start: usize = if c0 == '+' || c0 == '-' {
        1
    } else {
        0
    };
    let ghost d = s@.subrange(start as int, s.len() as int);
    assert(start == 1 ==> d == s@.drop_first());
    assert(start == 0 ==> d == s@);
    assert(parse_int_spec(s@, lo as int, hi as int) == scan_digits(0, d, neg, lo as int, hi as int));
    let mut acc: i64 = 0;
    let mut i: usize = start;
    while i < s.len()
        invariant
            start <= i <= s.len(),
            lo <= acc <= hi,
            lo <= 0 <= hi,
            d == s@.subrange(start as int, s.len() as int),
            parse_int_spec(s@, lo as int, hi as int) == scan_digits(0, d, neg, lo as int, hi as int),
            scan_digits(0, d, neg, lo as int, hi as int) == scan_digits(
                acc as int,
                s@.subrange(i as int, s.len() as int),
                neg,
                lo as int,
                hi as int,
            ),
        decreases s.len() - i,
    {
        let c = s[i];
        let ghost rest = s@.subrange(i as int, s.len() as int);
        assert(rest[0] == c);
        assert(rest.len() > 0);
        assert(rest.drop_first() == s@.subrange(i + 1, s.len() as int));
        let u = c as u32;
        assert(is_digit(c) <==> (48 <= u && u <= 57));
        if !(48 <= u && u <= 57) {
            assert(scan_digits(acc as int, rest, neg, lo as int, hi as int) == Err::<int, IntErrorKind>(IntErrorKind::InvalidDigit));
            return Err(IntErrorKind::InvalidDigit);
        }
        let dv = (u - 48) as i128;
        let next: i128 = if neg {
            (acc as i128) * 10 - dv
        } else {
            (acc as i128) * 10 + dv
        };
        assert(dv == digit_value(c));
        if next < lo as i128 {
            assert(scan_digits(acc as int, rest, neg, lo as int, hi as int) == Err::<int, IntErrorKind>(IntErrorKind::NegOverflow));
            return Err(IntErrorKind::NegOverflow);
        }
        if next > hi as i128 {
            return Err(IntErrorKind::PosOverflow);
        }
        acc = next as i64;
        i = i + 1;
    }
    assert(s@.subrange(s.len() as int, s.len() as int) == Seq::<char>::empty());
    Ok(acc)
}

/// `str::parse::<i64>`.
pub fn parse_i64(s: &str) -> (r: Result<i64, IntErrorKind>)
    ensures
        match parse_int_spec(s@, i64::MIN as int, i64::MAX as int) {
            Ok(v) => r == Ok::<i64, IntErrorKind>(v as i64) && i64::MIN <= v <= i64::MAX,
            Err(e) => r == Err::<i64, IntErrorKind>(e),
        },
{
    let v = crate::text::to_chars(s);
    parse_int_in(&v, i64::MIN, i64::MAX)
}

/// `str::parse::<i32>`.
pub fn parse_i32(s: &str) -> (r: Result<i32, IntErrorKind>)
    ensures
        match parse_int_spec(s@, i32::MIN as int, i32::MAX as int) {
            Ok(v) => r == Ok::<i32, IntErrorKind>(v as i32) && i32::MIN <= v <= i32::MAX,
            Err(e) => r == Err::<i32, IntErrorKind>(e),
        },
{
    let v = crate::text::to_chars(s);
    match parse_int_in(&v, i32::MIN as i64, i32::MAX as i64) {
        Ok(x) => Ok(x as i32),
        Err(e) => Err(e),
    }
}

pub open spec fn digit_char(d: int) -> char {
    (d + 48) as char
}

/// The decimal digits of `n`, most significant first, without leading zeros.
pub open spec fn decimal_digits(n: nat) -> Seq<char>
    decreases n,
{
    if n < 10 {
        seq![digit_char(n as int)]
    } else {
        decimal_digits(n / 10).push(digit_char((n % 10) as int))
    }
}

/// The decimal text of `n`, as `to_string` writes it.
pub open spec fn decimal_text(n: int) -> Seq<char> {
    if n < 0 {
        seq!['-'] + decimal_digits((-n) as nat)
    } else {
        decimal_digits(n as nat)
    }
}

fn push_digits(n: u128, out: &mut Vec<char>)
    ensures
        final(out)@ == old(out)@ + decimal_digits(n as nat),
    decreases n,
{
    if n >= 10 {
        push_digits(n / 10, out);
    }
    let d = (n % 10) as u8;
    let c = (d + 48) as char;
    assert(c == digit_char((n % 10) as int));
    out.push(c);
}

/// `u128::to_string`.
pub fn format_u128(n: u128) -> (s: String)
    ensures
        s@ == decimal_text(n as int),
{
    let mut v: Vec<char> = Vec::new();
    push_digits(n, &mut v);
    assert(v@ == decimal_digits(n as nat));
    crate::text::from_chars(&v)
}

/// `i64::to_string`.
pub fn format_i64(n: i64) -> (s: String)
    ensures
        s@ == decimal_text(n as int),
{
    let mut v: Vec<char> = Vec::new();
    if n < 0 {
        v.push('-');
        let m: i128 = -(n as i128);
        push_digits(m as u128, &mut v);
    } else {
        push_digits(n as u128, &mut v);
    }
    crate::text::from_chars(&v)
}

} // verus!

verus! {

proof fn lemma_digit_char(k: int)
    requires
        0 <= k < 10,
    ensures
        is_digit(digit_char(k)),
        digit_value(digit_char(k)) == k,
        digit_char(k) != '+',
        digit_char(k) != '-',
{
}

proof fn lemma_scan_push(acc: int, s: Seq<char>, c: char, neg: bool, lo: int, hi: int)
    ensures
        scan_digits(acc, s.push(c), neg, lo, hi) == match scan_digits(acc, s, neg, lo, hi) {
            Ok(v) => scan_digits(v, seq![c], neg, lo, hi),
            Err(e) => Err(e),
        },
    decreases s.len(),
{
    if s.len() > 0 {
        assert(s.push(c)[0] == s[0]);
        assert(s.push(c).drop_first() == s.drop_first().push(c));
        let next = if neg {
            acc * 10 - digit_value(s[0])
        } else {
            acc * 10 + digit_value(s[0])
        };
        lemma_scan_push(next, s.drop_first(), c, neg, lo, hi);
    } else {
        assert(s.push(c) == seq![c]);
    }
}

proof fn lemma_scan_decimal(m: nat, neg: bool, lo: int, hi: int)
    requires
        lo <= 0 <= hi,
        neg ==> lo <= -m,
        !neg ==> m <= hi,
    ensures
        scan_digits(0, decimal_digits(m), neg, lo, hi) == Ok::<int, IntErrorKind>(
            if neg {
                -m
            } else {
                m as int
            },
        ),
        decimal_digits(m).len() > 0,
        is_digit(decimal_digits(m)[0]),
    decreases m,
{
    reveal_with_fuel(scan_digits, 2);
    if m < 10 {
        lemma_digit_char(m as int);
        let s = decimal_digits(m);
        assert(s.drop_first() == Seq::<char>::empty());
    } else {
        lemma_digit_char((m % 10) as int);
        lemma_scan_decimal(m / 10, neg, lo, hi);
        let c = digit_char((m % 10) as int);
        lemma_scan_push(0, decimal_digits(m / 10), c, neg, lo, hi);
        let v: int = if neg {
            -(m / 10)
        } else {
            (m / 10) as int
        };
        assert(seq![c].drop_first() == Seq::<char>::empty());
        assert(seq![c][0] == c);
        assert((m / 10) * 10 + m % 10 == m) by (nonlinear_arith);
        assert(v * 10 + (if neg { -(m % 10) } else { (m % 10) as int }) == (if neg { -m } else { m as int }));
        assert(scan_digits(v, seq![c], neg, lo, hi) == Ok::<int, IntErrorKind>(if neg { -m } else { m as int }));
        assert(decimal_digits(m)[0] == decimal_digits(m / 10)[0]);
    }
}

/// Reading back what was written gives the number back: for every value in
/// range, `parse(to_string(n)) == Ok(n)`.
pub proof fn lemma_decimal_roundtrip(n: int, lo: int, hi: int)
    requires
        lo <= 0 <= hi,
        lo <= n <= hi,
    ensures
        parse_int_spec(decimal_text(n), lo, hi) == Ok::<int, IntErrorKind>(n),
{
    if n < 0 {
        let m = (-n) as nat;
        lemma_scan_decimal(m, true, lo, hi);
        let t = decimal_text(n);
        assert(t[0] == '-');
        assert(t.drop_first() == decimal_digits(m));
    } else {
        lemma_scan_decimal(n as nat, false, lo, hi);
        let t = decimal_text(n);
        assert(is_digit(t[0]));
        assert(t[0] != '+' && t[0] != '-');
    }
}

} // verus!
