//! Human-readable sizes and durations.
use vstd::prelude::*;
use vstd::string::*;
use crate::text::{decimal, decimal_string};

verus! {

/// `2^k`.
pub open spec fn p2(k: nat) -> nat
    decreases k,
{
    if k == 0 {
        1
    } else {
        2 * p2((k - 1) as nat)
    }
}

/// How many low bits a value loses when it is rounded to the 53-bit significand of an `f64`.
pub open spec fn shift_of(b: nat) -> nat
    decreases b,
{
    if b < 0x20_0000_0000_0000 {
        0
    } else {
        1 + shift_of(b / 2)
    }
}

/// The `f64` nearest to `b` (ties to the even significand), as `b as f64` gives it.
pub open spec fn as_double(b: nat) -> nat {
    let k = shift_of(b);
    if k == 0 {
        b
    } else {
        let p = p2(k);
        let q = b / p;
        let r = b % p;
        let h = p / 2;
        q * p + if r > h || (r == h && q % 2 == 1) {
            p
        } else {
            0
        }
    }
}

/// `a / d` rounded to the nearest integer, ties to even.
pub open spec fn round_half_even(a: nat, d: nat) -> nat {
    let q = a / d;
    let r = a % d;
    if 2 * r > d || (2 * r == d && q % 2 == 1) {
        q + 1
    } else {
        q
    }
}

/// `n / 10` written with one decimal.
pub open spec fn tenths(n: nat) -> Seq<char> {
    decimal(n / 10) + "."@ + decimal(n % 10)
}

/// A byte count in MiB below 10 MiB with one decimal, in whole MiB below 1 GiB,
/// else in GiB with one decimal.
pub open spec fn size_text(b: nat) -> Seq<char> {
    let f = as_double(b);
    if f >= 0x4000_0000 {
        tenths(round_half_even(10 * f, 0x4000_0000)) + " GiB"@
    } else if f >= 0xA0_0000 {
        decimal(round_half_even(f, 0x10_0000)) + " MiB"@
    } else {
        tenths(round_half_even(10 * f, 0x10_0000)) + " MiB"@
    }
}

/// `n` with at least two digits.
pub open spec fn two_digits(n: nat) -> Seq<char> {
    if n < 10 {
        "0"@ + decimal(n)
    } else {
        decimal(n)
    }
}

/// A duration in seconds as `HH:MM:SS`, hours not wrapping.
pub open spec fn duration_text(s: nat) -> Seq<char> {
    two_digits(s / 3600) + ":"@ + two_digits(s / 60 % 60) + ":"@ + two_digits(s % 60)
}

fn rounded(a: u128, d: u128) -> (r: u128)
    requires
        d > 0,
        d <= 0x1_0000_0000,
        a <= 0x100_0000_0000_0000_0000,
    ensures
        r == round_half_even(a as nat, d as nat),
{
    let q = a / d;
    let rem = a % d;
    if 2 * rem > d || (2 * rem == d && q % 2 == 1) {
        q + 1
    } else {
        q
    }
}

proof fn lemma_p2_positive(k: nat)
    ensures
        p2(k) >= 1,
    decreases k,
{
    if k > 0 {
        lemma_p2_positive((k - 1) as nat);
    }
}

/// `b as f64`, as an integer.
fn to_double(b: u64) -> (f: u128)
    ensures
        f == as_double(b as nat),
        f <= 0x2_0000_0000_0000_0000,
{
    let mut t: u128 = b as u128;
    let mut p: u128 = 1;
    let ghost mut k: nat = 0;
    while t >= 0x20_0000_0000_0000
        invariant
            p == p2(k),
            p >= 1,
            t == (b as nat) / (p as nat),
            shift_of(b as nat) == k + shift_of(t as nat),
            (t as nat) * (p as nat) <= b,
            p <= 0x1000,
        decreases t,
    {
        proof {
            vstd::arithmetic::div_mod::lemma_div_denominator(b as int, p as int, 2);
            assert(p * 0x20_0000_0000_0000 <= t * p) by (nonlinear_arith)
                requires
                    t >= 0x20_0000_0000_0000,
                    p >= 1,
            ;
            assert(p * 0x20_0000_0000_0000 < 0x1_0000_0000_0000_0000);
            assert(p * 2 <= 0x1000);
            assert((t / 2) * (p * 2) <= t * p) by (nonlinear_arith)
                requires
                    t >= 0,
                    p >= 1,
            ;
        }
        t = t / 2;
        p = p * 2;
        proof {
            k = k + 1;
        }
    }
    if p == 1 {
        assert(k == 0) by {
            if k > 0 {
                lemma_p2_positive((k - 1) as nat);
            }
        }
        return b as u128;
    }
    assert(k > 0);
    assert(shift_of(t as nat) == 0);
    let q = (b as u128) / p;
    let r = (b as u128) % p;
    let h = p / 2;
    let up = r > h || (r == h && q % 2 == 1);
    proof {
        vstd::arithmetic::div_mod::lemma_fundamental_div_mod(b as int, p as int);
        assert(q * p <= b) by (nonlinear_arith)
            requires
                b == p * q + r,
                r >= 0,
        ;
    }
    if up {
        proof {
            assert(q == t);
            assert(q * p + p <= 0x2_0000_0000_0000_0000) by (nonlinear_arith)
                requires
                    q < 0x20_0000_0000_0000,
                    p <= 0x1000,
            ;
        }
        q * p + p
    } else {
        q * p
    }
}

fn write_tenths(n: u128, unit: &str) -> (s: String)
    requires
        n <= 0xFFFF_FFFF_FFFF_FFFF,
    ensures
        s@ == tenths(n as nat) + unit@,
{
    let whole = decimal_string((n / 10) as u64);
    let frac = decimal_string((n % 10) as u64);
    whole.concat(".").concat(frac.as_str()).concat(unit)
}

/// A byte count as MiB or GiB, the way progress reports it.
pub fn format_size(bytes: u64) -> (s: String)
    ensures
        s@ == size_text(bytes as nat),
{
    let f = to_double(bytes);
    if f >= 0x4000_0000 {
        let n = rounded(10 * f, 0x4000_0000);
        assert(n <= 0xFFFF_FFFF_FFFF_FFFF) by (nonlinear_arith)
            requires
                n <= (10 * f) / 0x4000_0000 + 1,
                f <= 0x2_0000_0000_0000_0000,
        ;
        write_tenths(n, " GiB")
    } else if f >= 0xA0_0000 {
        let n = rounded(f, 0x10_0000);
        decimal_string(n as u64).concat(" MiB")
    } else {
        let n = rounded(10 * f, 0x10_0000);
        write_tenths(n, " MiB")
    }
}

fn two_digit_string(n: u64) -> (s: String)
    ensures
        s@ == two_digits(n as nat),
{
    if n < 10 {
        String::from_str("0").concat(decimal_string(n).as_str())
    } else {
        decimal_string(n)
    }
}

/// A duration in whole seconds as `HH:MM:SS`; hours keep counting past 99.
pub fn format_duration(seconds: u64) -> (s: String)
    ensures
        s@ == duration_text(seconds as nat),
{
    two_digit_string(seconds / 3600).concat(":").concat(two_digit_string(seconds / 60 % 60).as_str())
        .concat(":").concat(two_digit_string(seconds % 60).as_str())
}

} // verus!
