//! The number-input widget's arithmetic: an edited text is parsed and
//! clamped into the input's range, and the step buttons move the value by
//! one without leaving it.

use vstd::prelude::*;

use crate::field::TextEditable;

verus! {

/// Event raised when the number input's value changed.
pub struct NumberInputChanged(pub i64);

/// What parsing this text as a signed 64-bit decimal returns; the result
/// depends on the characters alone.
pub uninterp spec fn parsed_i64(s: Seq<char>) -> Option<i64>;

/// Relies on `str::parse::<i64>`, std's decimal parser: it accepts an
/// optional sign followed by digits, refuses anything ill-formed or out of
/// range, and depends on the text alone.
#[verifier::external_body]
fn parse_i64(s: &String) -> (r: Option<i64>)
    ensures
        r == parsed_i64(s@),
{
    match s.as_str().parse::<i64>() {
        Ok(v) => Some(v),
        Err(_) => None,
    }
}

/// `num` clamped to at most `max`, then to at least `min`; with an
/// inverted range `min` wins.
pub open spec fn spec_clamped(num: int, min: int, max: int) -> int {
    let upper = if num > max {
        max
    } else {
        num
    };
    if upper < min {
        min
    } else {
        upper
    }
}

pub fn clamp_number(num: i64, min: i64, max: i64) -> (r: i64)
    ensures
        r as int == spec_clamped(num as int, min as int, max as int),
{
    let upper = if num > max {
        max
    } else {
        num
    };
    if upper < min {
        min
    } else {
        upper
    }
}

/// The number committed from an edited text: parsed, then clamped into the
/// input's range. An unparsable text yields nothing and the input keeps
/// its displayed value.
pub fn number_edited(text: &String, min: i64, max: i64) -> (r: Option<i64>)
    ensures
        match parsed_i64(text@) {
            Some(v) => r is Some && r->0 as int == spec_clamped(
                v as int,
                min as int,
                max as int,
            ),
            None => r is None,
        },
{
    match parse_i64(text) {
        Some(v) => Some(clamp_number(v, min, max)),
        None => None,
    }
}

/// One step up: the displayed value plus one, never past `max`.
pub fn increase_number(current: i64, max: i64) -> (r: i64)
    ensures
        r as int == if current as int + 1 <= max as int {
            current as int + 1
        } else {
            max as int
        },
{
    if current < max {
        current + 1
    } else {
        max
    }
}

/// Number of digits in the decimal form of a non-negative value.
pub open spec fn spec_digits(n: int) -> int
    decreases n,
{
    if n < 10 {
        1
    } else {
        1 + spec_digits(n / 10)
    }
}

/// Characters of a value written in decimal, sign included.
pub open spec fn spec_decimal_width(v: int) -> int {
    if v < 0 {
        1 + spec_digits(-v)
    } else {
        spec_digits(v)
    }
}

pub open spec fn pow10(k: int) -> int
    decreases k,
{
    if k <= 0 {
        1
    } else {
        10 * pow10(k - 1)
    }
}

proof fn lemma_pow10_pos(k: int)
    ensures
        pow10(k) >= 1,
    decreases k,
{
    if k > 0 {
        lemma_pow10_pos(k - 1);
    }
}

proof fn lemma_digits_pos(n: int)
    ensures
        spec_digits(n) >= 1,
    decreases n,
{
    if n >= 10 {
        lemma_digits_pos(n / 10);
    }
}

/// A value below `10^k` has at most `k` decimal digits.
proof fn lemma_digits_bound(n: int, k: int)
    requires
        0 <= n < pow10(k),
        k >= 1,
    ensures
        spec_digits(n) <= k,
    decreases k,
{
    if n >= 10 {
        if k == 1 {
            assert(pow10(1) == 10 * pow10(0));
            assert(false);
        } else {
            lemma_pow10_pos(k - 1);
            assert(pow10(k) == 10 * pow10(k - 1));
            assert(n / 10 < pow10(k - 1)) by (nonlinear_arith)
                requires
                    n < 10 * pow10(k - 1),
                    pow10(k - 1) >= 1,
                    n >= 0,
            ;
            lemma_digits_bound(n / 10, k - 1);
        }
    }
}

/// Decimal digit count of an unsigned value.
fn digits_u64(x: u64) -> (n: usize)
    ensures
        n == spec_digits(x as int),
        n <= 20,
{
    proof {
        assert(pow10(20) == 0x56bc75e2d63100000) by {
            reveal_with_fuel(pow10, 21);
        }
        lemma_digits_bound(x as int, 20);
        lemma_digits_pos(x as int);
    }
    let mut v: u64 = x;
    let mut c: usize = 1;
    while v >= 10
        invariant
            1 <= c,
            spec_digits(x as int) == c - 1 + spec_digits(v as int),
            c - 1 + spec_digits(v as int) <= 20,
            spec_digits(v as int) >= 1,
        decreases v,
    {
        proof {
            assert(spec_digits(v as int) == 1 + spec_digits(v as int / 10));
            lemma_digits_pos(v as int / 10);
        }
        v = v / 10;
        c = c + 1;
    }
    c
}

/// Characters needed to write the value in decimal, sign included.
pub fn decimal_width(v: i64) -> (n: usize)
    ensures
        n == spec_decimal_width(v as int),
        n <= 21,
{
    if v >= 0 {
        digits_u64(v as u64)
    } else {
        let m: u64 = ((-(v + 1)) as u64) + 1;
        proof {
            assert(m as int == -(v as int));
        }
        1 + digits_u64(m)
    }
}

/// The admission settings the number-input widget pairs with its field:
/// only digits, sign and dot may be typed, and the text may grow no longer
/// than the wider of the two range bounds written in decimal.
pub fn number_input_editable(min: i64, max: i64) -> (r: TextEditable)
    ensures
        r.filter_in@.len() == 1,
        r.filter_in@[0]@ == "[0-9.-]"@,
        r.filter_out@.len() == 0,
        r.max_length as int == if spec_decimal_width(max as int) >= spec_decimal_width(
            min as int,
        ) {
            spec_decimal_width(max as int)
        } else {
            spec_decimal_width(min as int)
        },
        r.placeholder@.len() == 0,
        !r.is_placeholder_shown,
        r.orig_text_alpha_permille == 1000,
{
    let wmax = decimal_width(max);
    let wmin = decimal_width(min);
    let cap = if wmax >= wmin {
        wmax
    } else {
        wmin
    };
    let mut filter_in: Vec<String> = Vec::new();
    filter_in.push("[0-9.-]".to_owned());
    TextEditable {
        filter_out: Vec::new(),
        filter_in,
        max_length: cap,
        placeholder: Vec::new(),
        is_placeholder_shown: false,
        orig_text_alpha_permille: 1000,
    }
}

/// One step down: the displayed value minus one, never past `min`.
pub fn reduce_number(current: i64, min: i64) -> (r: i64)
    ensures
        r as int == if current as int - 1 >= min as int {
            current as int - 1
        } else {
            min as int
        },
{
    if current > min {
        current - 1
    } else {
        min
    }
}

} // verus!
