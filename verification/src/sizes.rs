//! Human-readable sizes and durations.
use vstd::prelude::*;
use crate::hls::zero_pad;
use crate::text::{chars_of, decimal, decimal_chars, digit_char, digit_to_char, push_all, push_chars, string_of};

verus! {

/// `2^k`.
pub open spec fn pow2(k: nat) -> nat
    decreases k,
{
    if k == 0 {
        1
    } else {
        2 * pow2((k - 1) as nat)
    }
}

pub proof fn lemma_pow2_bounds(k: nat)
    ensures
        pow2(k) >= 1,
    decreases k,
{
    if k > 0 {
        lemma_pow2_bounds((k - 1) as nat);
    }
}

/// `2^53`: integers below it are exact in `f64`.
pub open spec fn two53() -> nat {
    0x20_0000_0000_0000
}

/// The spacing of `f64` values around `n`, searched from `2^k` up.
pub open spec fn f64_unit_from(n: nat, k: nat) -> nat
    decreases 64 - k,
{
    if k >= 64 || n / pow2(k) < two53() {
        pow2(k)
    } else {
        f64_unit_from(n, k + 1)
    }
}

/// `n / d` rounded to the nearest integer, ties to even.
pub open spec fn round_half_even(n: nat, d: nat) -> nat {
    let q = n / d;
    let r = n % d;
    if 2 * r > d || (2 * r == d && q % 2 == 1) {
        q + 1
    } else {
        q
    }
}

/// The value of `n as f64` (`u64` to `f64` rounds to the nearest, ties to even).
pub open spec fn f64_value(n: nat) -> nat {
    let u = f64_unit_from(n, 0);
    round_half_even(n, u) * u
}

/// `{:.1}` of `f / d`: rounded to tenths, ties to even.
pub open spec fn one_decimal(f: nat, d: nat) -> Seq<char> {
    let t = round_half_even(f * 10, d);
    decimal(t / 10) + "."@ + seq![digit_char(t % 10)]
}

pub open spec fn kib() -> nat {
    1024
}

pub open spec fn mib() -> nat {
    1048576
}

pub open spec fn gib() -> nat {
    1073741824
}

/// A byte count in GB, MB or KB with one decimal (binary units), or whole bytes below a
/// kilobyte; the count is first taken as an `f64`.
pub open spec fn spec_format_size(size: nat) -> Seq<char> {
    let f = f64_value(size);
    if f >= gib() {
        one_decimal(f, gib()) + " GB"@
    } else if f >= mib() {
        one_decimal(f, mib()) + " MB"@
    } else if f >= kib() {
        one_decimal(f, kib()) + " KB"@
    } else {
        decimal(f) + " B"@
    }
}

fn round_half_even_exec(n: u128, d: u128) -> (r: u128)
    requires
        d > 0,
        d <= 0x1_0000_0000_0000,
        n < 0x1_0000_0000_0000_0000_0000_0000,
    ensures
        r == round_half_even(n as nat, d as nat),
{
    let q = n / d;
    let r = n % d;
    assert(r < d);
    if 2 * r > d || (2 * r == d && q % 2 == 1) {
        assert(q <= n) by (nonlinear_arith)
            requires
                q == n / d,
                d > 0,
        ;
        q + 1
    } else {
        q
    }
}

fn one_decimal_chars(f: u128, d: u128) -> (r: Vec<char>)
    requires
        d >= 1024,
        d <= 0x1_0000_0000_0000,
        f <= 0x2_0000_0000_0000_0000,
    ensures
        r@ == one_decimal(f as nat, d as nat),
{
    let t = round_half_even_exec(f * 10, d);
    assert(t as int <= (f as int * 10) / (d as int) + 1);
    assert((f as int * 10) / (d as int) <= (f as int * 10) / 1024) by (nonlinear_arith)
        requires
            d >= 1024,
            f >= 0,
    ;
    let whole = t / 10;
    assert(whole <= u64::MAX);
    let mut v = decimal_chars(whole as u64);
    v.push('.');
    v.push(digit_to_char((t % 10) as u64));
    proof {
        reveal_strlit(".");
        assert(v@ =~= decimal((t / 10) as nat) + "."@ + seq![digit_char((t % 10) as nat)]);
    }
    v
}

/// The size of a file as the task log and the result show it.
pub fn format_size(size: u64) -> (r: String)
    ensures
        r@ == spec_format_size(size as nat),
{
    let n = size as u128;
    let mut unit: u128 = 1;
    let mut k: usize = 0;
    proof {
        lemma_pow2_bounds(0);
    }
    while k < 64 && n / unit >= 0x20_0000_0000_0000
        invariant
            k <= 64,
            unit as nat == pow2(k as nat),
            1 <= unit < 4096,
            n < 0x1_0000_0000_0000_0000,
            f64_unit_from(n as nat, 0) == f64_unit_from(n as nat, k as nat),
        decreases 64 - k,
    {
        assert(unit < 2048) by (nonlinear_arith)
            requires
                n / unit >= 0x20_0000_0000_0000,
                unit >= 1,
                n < 0x1_0000_0000_0000_0000,
        ;
        proof {
            lemma_pow2_bounds((k + 1) as nat);
        }
        unit = unit * 2;
        k = k + 1;
    }
    assert(f64_unit_from(n as nat, k as nat) == unit as nat);
    let q = round_half_even_exec(n, unit);
    assert(q as int <= (n as int) / (unit as int) + 1);
    assert(q * unit <= n + unit) by (nonlinear_arith)
        requires
            q as int <= (n as int) / (unit as int) + 1,
            unit >= 1,
    ;
    let f = q * unit;
    assert(f as nat == f64_value(size as nat));
    let text = if f >= 1073741824 {
        let mut v = one_decimal_chars(f, 1073741824);
        push_all(&mut v, " GB");
        v
    } else if f >= 1048576 {
        let mut v = one_decimal_chars(f, 1048576);
        push_all(&mut v, " MB");
        v
    } else if f >= 1024 {
        let mut v = one_decimal_chars(f, 1024);
        push_all(&mut v, " KB");
        v
    } else {
        let mut v = decimal_chars(f as u64);
        push_all(&mut v, " B");
        v
    };
    string_of(text.as_slice())
}

/// Two digits, zero-padded.
pub open spec fn two_digits(n: nat) -> Seq<char> {
    zero_pad(decimal(n), 2)
}

fn two_digit_chars(n: u64) -> (r: Vec<char>)
    ensures
        r@ == two_digits(n as nat),
{
    let d = decimal_chars(n);
    if d.len() < 2 {
        let mut v: Vec<char> = Vec::new();
        v.push('0');
        push_chars(&mut v, &d);
        assert(v@ =~= Seq::new((2 - d@.len()) as nat, |i: int| '0') + d@);
        v
    } else {
        d
    }
}

/// `H:MM:SS`, or `M:SS` under an hour, of a whole number of seconds.
pub open spec fn spec_format_duration(total: nat) -> Seq<char> {
    let hours = total / 3600;
    let minutes = (total % 3600) / 60;
    let seconds = total % 60;
    if hours > 0 {
        decimal(hours) + ":"@ + two_digits(minutes) + ":"@ + two_digits(seconds)
    } else {
        decimal(minutes) + ":"@ + two_digits(seconds)
    }
}

/// The length of the output video; `total` is its duration rounded to seconds.
pub fn format_duration(total: u64) -> (r: String)
    ensures
        r@ == spec_format_duration(total as nat),
{
    let hours = total / 3600;
    let minutes = (total % 3600) / 60;
    let seconds = total % 60;
    let mut v: Vec<char>;
    if hours > 0 {
        v = decimal_chars(hours);
        push_all(&mut v, ":");
        push_chars(&mut v, &two_digit_chars(minutes));
        push_all(&mut v, ":");
        push_chars(&mut v, &two_digit_chars(seconds));
    } else {
        v = decimal_chars(minutes);
        push_all(&mut v, ":");
        push_chars(&mut v, &two_digit_chars(seconds));
    }
    string_of(v.as_slice())
}

} // verus!
