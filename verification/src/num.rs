//! Fixed-point scale, numeric limits, and the exact division helpers the
//! view arithmetic is built on.

use vstd::prelude::*;
use vstd::string::StringExecFns;

verus! {

/// Number of fixed-point units in 1.0 data unit.
pub const SCALE: i64 = 100_000_000;

/// Largest magnitude accepted for a raw data sample (in fixed-point units).
pub const DATA_LIMIT: i64 = 1_000_000_000_000_000;

/// Largest magnitude a view-rectangle bound may ever reach; pan and zoom
/// refuse a step that would cross it.
pub const COORD_LIMIT: i64 = 1_000_000_000_000_000_000;

/// Largest magnitude a freshly autoscaled view bound can have: the data
/// window plus its margins.
pub const VIEW_LIMIT: i64 = 2_000_000_000_000_000;

/// Pixel coordinates are clamped into `[-PIXEL_LIMIT, PIXEL_LIMIT]`, and
/// surface sizes and pointer positions must lie within it, so that squared
/// pixel distances stay inside `i64`.
pub const PIXEL_LIMIT: i64 = 1_000_000_000;

/// Clamp an arbitrary integer into the pixel window.
pub open spec fn spec_clamp_pixel(v: int) -> int {
    if v < -PIXEL_LIMIT {
        -PIXEL_LIMIT as int
    } else if v > PIXEL_LIMIT {
        PIXEL_LIMIT as int
    } else {
        v
    }
}

/// Clamp a wide intermediate value into the pixel window.
pub fn clamp_pixel(v: i128) -> (r: i64)
    ensures
        r == spec_clamp_pixel(v as int),
{
    if v < -(PIXEL_LIMIT as i128) {
        -PIXEL_LIMIT
    } else if v > PIXEL_LIMIT as i128 {
        PIXEL_LIMIT
    } else {
        v as i64
    }
}

/// Floor division on wide integers, with a positive divisor: agrees with the
/// mathematical `a / b` of the specification language.
pub fn div_floor(a: i128, b: i128) -> (r: i128)
    requires
        b > 0,
        a > i128::MIN,
    ensures
        r == a as int / b as int,
{
    let q = a / b;
    let rem = a % b;
    if a >= 0 {
        q
    } else {
        // Rust `/` truncates toward zero; for a negative dividend the
        // mathematical (floor) quotient is one less whenever b does not
        // divide a evenly.
        proof {
            let n = -a as int;
            let qn = n / b as int;
            let rn = n % b as int;
            vstd::arithmetic::div_mod::lemma_fundamental_div_mod(n, b as int);
            assert(n == b * qn + rn);
            if rn == 0 {
                assert(a as int == b as int * (-qn) + 0) by (nonlinear_arith)
                    requires
                        a as int == -n,
                        n == b * qn + rn,
                        rn == 0,
                ;
                vstd::arithmetic::div_mod::lemma_fundamental_div_mod_converse(
                    a as int,
                    b as int,
                    -qn,
                    0,
                );
            } else {
                assert(a as int == b as int * (-qn - 1) + (b as int - rn)) by (nonlinear_arith)
                    requires
                        a as int == -n,
                        n == b * qn + rn,
                ;
                vstd::arithmetic::div_mod::lemma_fundamental_div_mod_converse(
                    a as int,
                    b as int,
                    -qn - 1,
                    b as int - rn,
                );
            }
        }
        if rem != 0 {
            q - 1
        } else {
            q
        }
    }
}

/// `10^e`.
pub open spec fn pow10(e: nat) -> nat
    decreases e,
{
    if e == 0 {
        1
    } else {
        10 * pow10((e - 1) as nat)
    }
}

pub proof fn lemma_pow10_pos(e: nat)
    ensures
        pow10(e) >= 1,
    decreases e,
{
    if e > 0 {
        lemma_pow10_pos((e - 1) as nat);
    }
}

pub proof fn lemma_pow10_le(e: nat, f: nat)
    requires
        e <= f,
    ensures
        pow10(e) <= pow10(f),
    decreases f,
{
    if e < f {
        lemma_pow10_le(e, (f - 1) as nat);
        lemma_pow10_pos((f - 1) as nat);
    }
}

/// `10^e` as a machine integer, for small exponents.
pub fn pow10_u64(e: u32) -> (r: u64)
    requires
        e <= 8,
    ensures
        r == pow10(e as nat),
        1 <= r <= 100_000_000,
    decreases e,
{
    if e == 0 {
        1
    } else {
        let p = pow10_u64(e - 1);
        proof {
            lemma_pow10_le((e - 1) as nat, 8);
            lemma_pow10_le(e as nat, 8);
            assert(pow10(8) == 100_000_000) by {
                assert(pow10(0) == 1);
                assert(pow10(1) == 10);
                assert(pow10(2) == 100);
                assert(pow10(3) == 1000);
                assert(pow10(4) == 10000);
                assert(pow10(5) == 100000);
                assert(pow10(6) == 1000000);
                assert(pow10(7) == 10000000);
            }
        }
        10 * p
    }
}

/// The character of one decimal digit.
pub open spec fn spec_digit_char(d: int) -> char {
    if d == 0 {
        '0'
    } else if d == 1 {
        '1'
    } else if d == 2 {
        '2'
    } else if d == 3 {
        '3'
    } else if d == 4 {
        '4'
    } else if d == 5 {
        '5'
    } else if d == 6 {
        '6'
    } else if d == 7 {
        '7'
    } else if d == 8 {
        '8'
    } else {
        '9'
    }
}

/// The decimal digits of `n`, most significant first.
pub open spec fn spec_udec(n: nat) -> Seq<char>
    decreases n,
{
    if n < 10 {
        seq![spec_digit_char(n as int)]
    } else {
        spec_udec(n / 10) + seq![spec_digit_char((n % 10) as int)]
    }
}

/// Exactly `d` decimal digits of a fraction numerator `frac < 10^d`, most
/// significant first, with leading zeros.
pub open spec fn spec_frac_digits(frac: nat, d: nat) -> Seq<char>
    decreases d,
{
    if d == 0 {
        Seq::empty()
    } else {
        seq![spec_digit_char(frac as int / pow10((d - 1) as nat) as int)] + spec_frac_digits(
            frac % pow10((d - 1) as nat),
            (d - 1) as nat,
        )
    }
}

/// The rendering of fixed-point `v` with `d` fractional digits: optional
/// sign, then the magnitude rounded to the nearest multiple of the last
/// kept digit (half of it is added before cutting, so halves round away
/// from zero, carrying into the integer part), written as the integer
/// part, `.`, and exactly `d` digits when `d > 0`.
pub open spec fn spec_format_fixed(v: int, d: nat) -> Seq<char> {
    let a = if v < 0 {
        -v
    } else {
        v
    };
    let sign: Seq<char> = if v < 0 {
        seq!['-']
    } else {
        Seq::empty()
    };
    let p = pow10((8 - d) as nat) as int;
    let r = ((a + p / 2) / p) as nat;
    if d == 0 {
        sign + spec_udec(r)
    } else {
        sign + spec_udec(r / pow10(d)) + seq!['.'] + spec_frac_digits(r % pow10(d), d)
    }
}

/// The fewest fractional digits (at most `d`) that lose nothing of `frac`,
/// a numerator of `10^d`.
pub open spec fn spec_min_dec(frac: nat, d: nat) -> nat
    decreases d,
{
    if d == 0 {
        0
    } else if frac % 10 == 0 {
        spec_min_dec(frac / 10, (d - 1) as nat)
    } else {
        d
    }
}

/// The label precision for an axis of the given span: wider spans get fewer
/// decimals, narrower spans more, down to 8 for the narrowest.
pub open spec fn spec_decimals_for_span(span: int) -> nat {
    if span > 10_000 * SCALE {
        0
    } else if span > 1000 * SCALE {
        1
    } else if span > 100 * SCALE {
        2
    } else if span > 10 * SCALE {
        3
    } else if span > SCALE / 100 {
        4
    } else if span > SCALE / 1000 {
        5
    } else if span > SCALE / 10_000 {
        6
    } else if span > SCALE / 100_000 {
        7
    } else {
        8
    }
}

/// Pick the label precision for an axis span.
pub fn decimals_for_span(span: i64) -> (d: u32)
    ensures
        d == spec_decimals_for_span(span as int),
        d <= 8,
{
    if span > 10_000 * SCALE {
        0
    } else if span > 1000 * SCALE {
        1
    } else if span > 100 * SCALE {
        2
    } else if span > 10 * SCALE {
        3
    } else if span > SCALE / 100 {
        4
    } else if span > SCALE / 1000 {
        5
    } else if span > SCALE / 10_000 {
        6
    } else if span > SCALE / 100_000 {
        7
    } else {
        8
    }
}

/// Append one decimal digit character.
fn push_digit(s: &mut String, d: u8)
    requires
        d < 10,
    ensures
        final(s)@ == old(s)@ + seq![spec_digit_char(d as int)],
{
    proof {
        reveal_strlit("0");
        reveal_strlit("1");
        reveal_strlit("2");
        reveal_strlit("3");
        reveal_strlit("4");
        reveal_strlit("5");
        reveal_strlit("6");
        reveal_strlit("7");
        reveal_strlit("8");
        reveal_strlit("9");
    }
    match d {
        0 => s.append("0"),
        1 => s.append("1"),
        2 => s.append("2"),
        3 => s.append("3"),
        4 => s.append("4"),
        5 => s.append("5"),
        6 => s.append("6"),
        7 => s.append("7"),
        8 => s.append("8"),
        _ => s.append("9"),
    }
}

/// Append the decimal digits of `n`, most significant first.
fn push_udec(s: &mut String, n: u64)
    ensures
        final(s)@ == old(s)@ + spec_udec(n as nat),
    decreases n,
{
    if n < 10 {
        push_digit(s, n as u8);
    } else {
        proof {
            vstd::arithmetic::div_mod::lemma_div_is_strictly_smaller(n as int, 10);
        }
        push_udec(s, n / 10);
        push_digit(s, (n % 10) as u8);
    }
}

/// Append exactly `d` fraction digits of `frac < 10^d`, with leading zeros.
fn push_frac_digits(s: &mut String, frac: u64, d: u32)
    requires
        d <= 8,
        frac < pow10(d as nat),
    ensures
        final(s)@ == old(s)@ + spec_frac_digits(frac as nat, d as nat),
    decreases d,
{
    if d > 0 {
        let p = pow10_u64(d - 1);
        proof {
            vstd::arithmetic::div_mod::lemma_fundamental_div_mod(frac as int, p as int);
            vstd::arithmetic::div_mod::lemma_mod_bound(frac as int, p as int);
            assert((frac as int / p as int) < 10) by (nonlinear_arith)
                requires
                    frac as int == p as int * (frac as int / p as int) + (frac as int
                        % p as int),
                    0 <= (frac as int % p as int),
                    p as int >= 1,
                    frac < 10 * p,
            ;
        }
        push_digit(s, (frac / p) as u8);
        push_frac_digits(s, frac % p, d - 1);
    }
}

/// Render fixed-point `v` with exactly `d` fractional digits, rounded to
/// the nearest last digit (halves away from zero), as `format!` renders a
/// number at a fixed precision.
pub fn format_fixed(v: i64, d: u32) -> (s: String)
    requires
        d <= 8,
        v > i64::MIN,
    ensures
        s@ == spec_format_fixed(v as int, d as nat),
{
    let mut s = String::new();
    if v < 0 {
        proof {
            reveal_strlit("-");
        }
        s.append("-");
    }
    let a = if v < 0 {
        (-v) as u64
    } else {
        v as u64
    };
    let p = pow10_u64(8 - d);
    // round: add half of the last kept unit, then cut
    let r = (a + p / 2) / p;
    if d == 0 {
        push_udec(&mut s, r);
    } else {
        let q = pow10_u64(d);
        push_udec(&mut s, r / q);
        proof {
            reveal_strlit(".");
        }
        s.append(".");
        proof {
            vstd::arithmetic::div_mod::lemma_mod_bound(r as int, q as int);
        }
        push_frac_digits(&mut s, r % q, d);
    }
    s
}

/// The rendering of fixed-point `v` with the fewest fractional digits that
/// lose nothing of it.
pub open spec fn spec_format_trim(v: int) -> Seq<char> {
    let a = if v < 0 {
        -v
    } else {
        v
    };
    spec_format_fixed(v, spec_min_dec((a % (SCALE as int)) as nat, 8))
}

/// Render fixed-point `v` with the fewest fractional digits that lose
/// nothing: trailing zero digits of the fraction are dropped.
pub fn format_trim(v: i64) -> (s: String)
    requires
        v > i64::MIN,
    ensures
        s@ == spec_format_trim(v as int),
{
    let a = if v < 0 {
        (-v) as u64
    } else {
        v as u64
    };
    let mut f = a % (SCALE as u64);
    let mut d: u32 = 8;
    while d > 0 && f % 10 == 0
        invariant
            d <= 8,
            spec_min_dec((a as int % SCALE as int) as nat, 8) == spec_min_dec(
                f as nat,
                d as nat,
            ),
            f <= 100_000_000,
        decreases d,
    {
        f = f / 10;
        d = d - 1;
    }
    format_fixed(v, d)
}

} // verus!
