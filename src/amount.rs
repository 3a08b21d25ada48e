use vstd::prelude::*;
use vstd::string::StringExecFns;

use crate::{ProcessorError, ProcessorResult};

verus! {

/// Number of units in one whole currency unit: amounts carry four decimal places.
pub const UNITS_PER_WHOLE: i128 = 10000;

/// A signed fixed-point money amount, counted in ten-thousandths. Amounts read
/// from text with more than four decimal places are rounded to four when read
/// (see `parse_amount`), so balances are sums of rounded amounts.
#[derive(Clone, Copy, Debug, PartialEq, Eq, Structural)]
pub struct Amount {
    pub units: i128,
}

impl View for Amount {
    type V = int;

    open spec fn view(&self) -> int {
        self.units as int
    }
}

/// The largest magnitude of a balance, in units: far beyond any real amount, and
/// small enough that the sum of two balances still fits in an `i128`.
pub const MAX_UNITS: i128 = 10000000000000000000000000000000000000;

/// Whether a mathematical amount is in the range of balances.
pub open spec fn fits(v: int) -> bool {
    -MAX_UNITS <= v && v <= MAX_UNITS
}

/// The character of a decimal digit.
pub open spec fn digit_char(d: int) -> char {
    if d == 0 { '0' }
    else if d == 1 { '1' }
    else if d == 2 { '2' }
    else if d == 3 { '3' }
    else if d == 4 { '4' }
    else if d == 5 { '5' }
    else if d == 6 { '6' }
    else if d == 7 { '7' }
    else if d == 8 { '8' }
    else { '9' }
}

/// The decimal digits of a natural number, most significant first, without leading zeros.
pub open spec fn digits(n: nat) -> Seq<char>
    decreases n,
{
    if n < 10 {
        seq![digit_char(n as int)]
    } else {
        digits(n / 10) + seq![digit_char((n % 10) as int)]
    }
}

/// Exactly four digits of a fraction `f` in `0..10000`.
pub open spec fn four_digits(f: nat) -> Seq<char> {
    seq![
        digit_char((f / 1000) as int),
        digit_char(((f / 100) % 10) as int),
        digit_char(((f / 10) % 10) as int),
        digit_char((f % 10) as int),
    ]
}

pub open spec fn abs(v: int) -> nat {
    if v < 0 { (-v) as nat } else { v as nat }
}

/// The text of an amount of `u` ten-thousandths: an optional minus sign, the whole
/// part, a point and exactly four fractional digits.
pub open spec fn rendered(u: int) -> Seq<char> {
    let sign = if u < 0 { seq!['-'] } else { Seq::<char>::empty() };
    sign + digits(abs(u) / 10000) + seq!['.'] + four_digits(abs(u) % 10000)
}

fn digit_str(d: u128) -> (r: &'static str)
    requires
        d < 10,
    ensures
        r@ == seq![digit_char(d as int)],
{
    proof {
        reveal_strlit("0");
        reveal_strlit("1");
        reveal_strlit("2");
        reveal_strlit("3");
        reveal_strlit("4");
        reveal_strlit("5");
        reveal_strlit("6");
        reveal_strlit("7");
        reveal_strlit("8");
        reveal_strlit("9");
    }
    if d == 0 { "0" }
    else if d == 1 { "1" }
    else if d == 2 { "2" }
    else if d == 3 { "3" }
    else if d == 4 { "4" }
    else if d == 5 { "5" }
    else if d == 6 { "6" }
    else if d == 7 { "7" }
    else if d == 8 { "8" }
    else { "9" }
}

fn append_digits(s: &mut String, n: u128)
    ensures
        final(s)@ == old(s)@ + digits(n as nat),
    decreases n,
{
    if n >= 10 {
        append_digits(s, n / 10);
    }
    s.append(digit_str(n % 10));
    proof {
        assert(final(s)@ =~= old(s)@ + digits(n as nat));
    }
}

impl Amount {
    pub fn zero() -> (r: Amount)
        ensures
            r@ == 0,
    {
        Amount { units: 0 }
    }

    /// The amount of `units` ten-thousandths.
    pub fn from_units(units: i128) -> (r: Amount)
        ensures
            r@ == units as int,
    {
        Amount { units }
    }

    /// The amount of `n` whole currency units.
    pub fn whole(n: i64) -> (r: Amount)
        ensures
            r@ == n as int * UNITS_PER_WHOLE as int,
    {
        Amount { units: n as i128 * UNITS_PER_WHOLE }
    }

    pub fn is_negative(&self) -> (r: bool)
        ensures
            r == (self@ < 0),
    {
        self.units < 0
    }

    /// `self + other`, or `None` where the sum does not fit.
    pub fn checked_add(&self, other: Amount) -> (r: Option<Amount>)
        ensures
            r is Some <==> fits(self@ + other@),
            r is Some ==> r->0@ == self@ + other@,
    {
        match self.units.checked_add(other.units) {
            Some(units) => {
                if -MAX_UNITS <= units && units <= MAX_UNITS {
                    Some(Amount { units })
                } else {
                    None
                }
            },
            None => None,
        }
    }

    /// `self - other`, or `None` where the difference does not fit.
    pub fn checked_sub(&self, other: Amount) -> (r: Option<Amount>)
        ensures
            r is Some <==> fits(self@ - other@),
            r is Some ==> r->0@ == self@ - other@,
    {
        match self.units.checked_sub(other.units) {
            Some(units) => {
                if -MAX_UNITS <= units && units <= MAX_UNITS {
                    Some(Amount { units })
                } else {
                    None
                }
            },
            None => None,
        }
    }

    /// The amount as text with exactly four decimal places, such as `-1.5000`.
    pub fn render(&self) -> (r: String)
        ensures
            r@ == rendered(self@),
    {
        let u = self.units;
        let m: u128 = if u < 0 { ((-(u + 1)) as u128) + 1 } else { u as u128 };
        assert(m as nat == abs(u as int));
        let mut s = String::new();
        if u < 0 {
            proof { reveal_strlit("-"); }
            s.append("-");
        }
        append_digits(&mut s, m / 10000);
        proof { reveal_strlit("."); }
        s.append(".");
        let f: u128 = m % 10000;
        s.append(digit_str(f / 1000));
        s.append(digit_str((f / 100) % 10));
        s.append(digit_str((f / 10) % 10));
        s.append(digit_str(f % 10));
        proof {
            let sign = if u < 0 { seq!['-'] } else { Seq::<char>::empty() };
            assert(s@ =~= sign + digits(abs(u as int) / 10000) + seq!['.'] + four_digits(
                abs(u as int) % 10000,
            ));
        }
        s
    }
}

/// A bound on the magnitude of a decimal's mantissa: 2^96.
pub const MANTISSA_LIMIT: i128 = 79228162514264337593543950336;

/// The largest scale of a decimal.
pub const MAX_SCALE: u32 = 28;

/// The decimal that a text denotes, as its mantissa m and scale e (the value
/// m / 10^e), or `None` where the text is not a decimal.
pub uninterp spec fn decimal_of(text: Seq<char>) -> Option<(int, int)>;

/// Relies on `rust_decimal::Decimal::from_str`, with `Decimal::mantissa` and
/// `Decimal::scale` to take the value apart: a decimal is m / 10^e with
/// -2^96 < m < 2^96 and 0 <= e <= 28.
#[verifier::external_body]
fn parse_decimal(text: &str) -> (r: Option<(i128, u32)>)
    ensures
        r is None <==> decimal_of(text@) is None,
        match r {
            Some((m, e)) => decimal_of(text@) == Some((m as int, e as int)),
            None => true,
        },
        match r {
            Some((m, e)) => -MANTISSA_LIMIT < m < MANTISSA_LIMIT && e <= MAX_SCALE,
            None => true,
        },
{
    match <rust_decimal::Decimal as std::str::FromStr>::from_str(text) {
        Ok(d) => Some((d.mantissa(), d.scale())),
        Err(_) => None,
    }
}

/// The text without its leading and trailing white space.
pub uninterp spec fn trimmed(text: Seq<char>) -> Seq<char>;

/// Relies on `str::trim`: the text without leading and trailing white space,
/// a part of the text.
#[verifier::external_body]
fn trim_field(text: &str) -> (r: &str)
    ensures
        r@ == trimmed(text@),
        r@.len() <= text@.len(),
{
    text.trim()
}

pub open spec fn pow10(n: nat) -> nat
    decreases n,
{
    if n == 0 { 1 } else { 10 * pow10((n - 1) as nat) }
}

proof fn lemma_pow10_mono(a: nat, b: nat)
    requires
        a <= b,
    ensures
        1 <= pow10(a) <= pow10(b),
    decreases b,
{
    if b > 0 {
        if a < b {
            lemma_pow10_mono(a, (b - 1) as nat);
        } else {
            lemma_pow10_mono((a - 1) as nat, (b - 1) as nat);
        }
    }
}

/// `m / p` rounded to the nearest integer, a tie going to the even one.
pub open spec fn round_half_even(m: int, p: int) -> int {
    let a = abs(m) as int;
    let q = a / p;
    let rem = a % p;
    let q2 = if 2 * rem > p || (2 * rem == p && q % 2 == 1) { q + 1 } else { q };
    if m < 0 { -q2 } else { q2 }
}

/// The ten-thousandths of m / 10^e, rounded to four places as rust_decimal's
/// `round_dp` does.
pub open spec fn units_of(m: int, e: int) -> int {
    if e <= 4 {
        m * pow10((4 - e) as nat)
    } else {
        round_half_even(m, pow10((e - 4) as nat) as int)
    }
}

fn pow10_exec(n: u32) -> (r: u128)
    requires
        n <= 24,
    ensures
        r as int == pow10(n as nat),
        r <= 1000000000000000000000000,
{
    proof {
        reveal_with_fuel(pow10, 25);
        assert(pow10(24) == 1000000000000000000000000);
    }
    let mut p: u128 = 1;
    let mut i: u32 = 0;
    while i < n
        invariant
            i <= n <= 24,
            p as int == pow10(i as nat),
            pow10(24) == 1000000000000000000000000,
        decreases n - i,
    {
        proof {
            lemma_pow10_mono((i + 1) as nat, 24);
        }
        p = p * 10;
        i = i + 1;
    }
    proof {
        lemma_pow10_mono(n as nat, 24);
    }
    p
}

/// The amount m / 10^e, rounded to four places.
pub fn units_from_decimal(mantissa: i128, scale: u32) -> (r: Amount)
    requires
        -MANTISSA_LIMIT < mantissa < MANTISSA_LIMIT,
        scale <= MAX_SCALE,
    ensures
        r@ == units_of(mantissa as int, scale as int),
{
    if scale <= 4 {
        let p = pow10_exec(4 - scale);
        proof {
            lemma_pow10_mono((4 - scale) as nat, 4);
            reveal_with_fuel(pow10, 5);
            assert(mantissa * (p as int) <= MANTISSA_LIMIT * 10000) by (nonlinear_arith)
                requires
                    mantissa < MANTISSA_LIMIT,
                    0 <= p <= 10000,
            ;
            assert(mantissa * (p as int) >= -MANTISSA_LIMIT * 10000) by (nonlinear_arith)
                requires
                    mantissa > -MANTISSA_LIMIT,
                    0 <= p <= 10000,
            ;
        }
        Amount { units: mantissa * (p as i128) }
    } else {
        let p = pow10_exec(scale - 4);
        proof {
            lemma_pow10_mono(0, (scale - 4) as nat);
        }
        let a: u128 = if mantissa < 0 { (-mantissa) as u128 } else { mantissa as u128 };
        let q = a / p;
        let rem = a % p;
        let q2 = if 2 * rem > p || (2 * rem == p && q % 2 == 1) { q + 1 } else { q };
        proof {
            assert(q <= a) by (nonlinear_arith)
                requires
                    q == a / p,
                    p >= 1,
            ;
        }
        let units = if mantissa < 0 { -(q2 as i128) } else { q2 as i128 };
        Amount { units }
    }
}

/// What an amount field holds: `Some(None)` when it is empty, `Some(Some(u))`
/// for a decimal of `u` ten-thousandths once rounded, `None` when it is not a
/// decimal.
pub open spec fn amount_field(text: Seq<char>) -> Option<Option<int>> {
    let t = trimmed(text);
    if t.len() == 0 {
        Some(None)
    } else {
        match decimal_of(t) {
            Some((m, e)) => Some(Some(units_of(m, e))),
            None => None,
        }
    }
}

/// The amount of a text field, trimmed first: `None` for a field that is
/// empty or blank; else the decimal it denotes, rounded to four places (half
/// to even); or `CsvError` where it is not a decimal.
pub fn parse_amount(text: &str) -> (r: ProcessorResult<Option<Amount>>)
    ensures
        r is Err <==> amount_field(text@) is None,
        r is Err ==> r->Err_0 is CsvError,
        r is Ok ==> match r->Ok_0 {
            Some(a) => amount_field(text@) == Some(Some(a@)),
            None => amount_field(text@) == Some(None::<int>),
        },
{
    let t = trim_field(text);
    if t.is_empty() {
        return Ok(None);
    }
    match parse_decimal(t) {
        Some((mantissa, scale)) => Ok(Some(units_from_decimal(mantissa, scale))),
        None => Err(ProcessorError::CsvError(text.to_string())),
    }
}

} // verus!
