//! Byte counts as short texts such as `1.5 MB`.
//!
//! The value shown is that of double arithmetic: the IEEE 754 double
//! nearest to the count, divided by a power of 1024 and rounded to one decimal, with
//! ties going to the even neighbour both times. A double divides by 1024
//! without error, so whole numbers are enough to compute every digit.

use crate::text;
use vstd::prelude::*;

verus! {

/// Two to the power of 53: above it a double no longer holds every whole number.
pub const EXACT_LIMIT: u64 = 9007199254740992;

/// Bytes in a kilobyte.
pub const KB: u64 = 1024;

/// Bytes in a megabyte.
pub const MB: u64 = 1048576;

/// Bytes in a gigabyte.
pub const GB: u64 = 1073741824;

/// `a / b` rounded to the nearest whole number, a tie to the even one.
pub open spec fn rounded_quotient(a: nat, b: nat) -> nat {
    if 2 * (a % b) > b || (2 * (a % b) == b && (a / b) % 2 == 1) {
        a / b + 1
    } else {
        a / b
    }
}

/// The distance between neighbouring doubles around the whole number `n`.
pub open spec fn double_step(n: nat) -> nat
    decreases n,
{
    if n < EXACT_LIMIT {
        1
    } else {
        2 * double_step(n / 2)
    }
}

/// The double nearest to the whole number `n`.
pub open spec fn nearest_double(n: nat) -> nat {
    rounded_quotient(n, double_step(n)) * double_step(n)
}

/// The unit in which a value is shown, and its name: the largest that the value reaches.
pub open spec fn unit_of(value: nat) -> (nat, Seq<char>) {
    if value < KB {
        (1, "B"@)
    } else if value < MB {
        (KB as nat, "KB"@)
    } else if value < GB {
        (MB as nat, "MB"@)
    } else {
        (GB as nat, "GB"@)
    }
}

/// The tenths of its unit in which a count is shown.
pub open spec fn tenths_of(bytes: nat) -> nat {
    let value = nearest_double(bytes);
    rounded_quotient(value * 10, unit_of(value).0)
}

/// The text for a count of bytes.
pub open spec fn size_text(bytes: nat) -> Seq<char> {
    let (unit, name) = unit_of(nearest_double(bytes));
    if unit == 1 {
        text::decimal(bytes) + " "@ + name
    } else {
        text::decimal(tenths_of(bytes) / 10) + "."@ + text::decimal(tenths_of(bytes) % 10) + " "@ + name
    }
}

fn step_of(n: u64) -> (step: u64)
    ensures
        step == double_step(n as nat),
        step == 1 || step * 4503599627370496 <= n,
    decreases n,
{
    if n < EXACT_LIMIT {
        1
    } else {
        2 * step_of(n / 2)
    }
}

fn rounded_div(a: u128, b: u128) -> (q: u128)
    requires
        0 < b < 0x1_0000_0000,
        a < 0x1_0000_0000_0000_0000_0000_0000,
    ensures
        q == rounded_quotient(a as nat, b as nat),
        q <= a + 1,
{
    let rest: u128 = a % b;
    let whole: u128 = a / b;
    proof {
        vstd::arithmetic::div_mod::lemma_div_is_ordered_by_denominator(a as int, 1, b as int);
    }
    if 2 * rest > b || (2 * rest == b && whole % 2 == 1) {
        whole + 1
    } else {
        whole
    }
}

proof fn lemma_double_step_positive(n: nat)
    ensures
        double_step(n) >= 1,
    decreases n,
{
    if n >= EXACT_LIMIT {
        lemma_double_step_positive(n / 2);
    }
}

proof fn lemma_nearest_double_is_near(n: nat)
    ensures
        nearest_double(n) == n - n % double_step(n) || nearest_double(n) == n - n % double_step(n)
            + double_step(n),
        n % double_step(n) < double_step(n),
        2 * (nearest_double(n) - n) <= double_step(n),
        2 * (n - nearest_double(n)) <= double_step(n),
        n <= EXACT_LIMIT ==> nearest_double(n) == n,
{
    lemma_double_step_positive(n);
    reveal_with_fuel(double_step, 2);
    let step = double_step(n);
    vstd::arithmetic::div_mod::lemma_fundamental_div_mod(n as int, step as int);
    let q = n / step;
    assert(q * step == step * q) by (nonlinear_arith);
    assert((q + 1) * step == step * q + step) by (nonlinear_arith);
}

/// The double nearest to `bytes`, as a whole number.
fn nearest(bytes: u64) -> (value: u128)
    ensures
        value == nearest_double(bytes as nat),
        value <= bytes + 4096,
{
    let step: u64 = step_of(bytes);
    proof {
        lemma_double_step_positive(bytes as nat);
        lemma_nearest_double_is_near(bytes as nat);
        vstd::arithmetic::div_mod::lemma_fundamental_div_mod(bytes as int, step as int);
        assert((bytes / step + 1) * step == step * (bytes / step) + step) by (nonlinear_arith)
            requires
                step >= 1,
        ;
        assert((bytes / step) * step == step * (bytes / step)) by (nonlinear_arith)
            requires
                step >= 1,
        ;
    }
    let rest: u64 = bytes % step;
    let whole: u64 = bytes / step;
    if 2 * rest > step || (2 * rest == step && whole % 2 == 1) {
        (bytes - rest) as u128 + step as u128
    } else {
        (bytes - rest) as u128
    }
}

/// A count of bytes as a text for the user: whole bytes below 1024, and
/// otherwise one decimal of a KB, MB or GB.
pub fn format_bytes(bytes: u64) -> (res: String)
    ensures
        res@ == size_text(bytes as nat),
{
    let value: u128 = nearest(bytes);
    if value < KB as u128 {
        let mut out: String = text::decimal_text(bytes);
        out.append(" ");
        out.append("B");
        return out;
    }
    let unit: u64 = if value < MB as u128 {
        KB
    } else if value < GB as u128 {
        MB
    } else {
        GB
    };
    let tenths: u128 = rounded_div(value * 10, unit as u128);
    assert(tenths == tenths_of(bytes as nat));
    assert(tenths <= u64::MAX) by {
        vstd::arithmetic::div_mod::lemma_fundamental_div_mod(value * 10, unit as int);
        assert(tenths <= (value * 10) / unit as int + 1);
        vstd::arithmetic::div_mod::lemma_div_is_ordered_by_denominator(
            value * 10,
            1024,
            unit as int,
        );
    }
    let tenths: u64 = tenths as u64;
    let mut out: String = text::decimal_text(tenths / 10);
    out.append(".");
    out.append(text::decimal_text(tenths % 10).as_str());
    out.append(" ");
    if unit == KB {
        out.append("KB");
    } else if unit == MB {
        out.append("MB");
    } else {
        out.append("GB");
    }
    out
}

/// The size shown is off by at most half of the last digit shown, and by the
/// half of the step between neighbouring doubles that the count itself may be off.
pub proof fn law_shown_size_is_near(bytes: nat)
    ensures
        ({
            let unit = unit_of(nearest_double(bytes)).0;
            let shown = tenths_of(bytes) * unit;
            &&& 2 * (shown - bytes * 10) <= unit + 10 * double_step(bytes)
            &&& 2 * (bytes * 10 - shown) <= unit + 10 * double_step(bytes)
        }),
{
    lemma_nearest_double_is_near(bytes);
    lemma_tenths_are_near(nearest_double(bytes));
}

/// As long as a double holds the count and all below it, the size shown is off
/// by at most half of the last digit shown.
pub proof fn law_shown_size_is_the_nearest(bytes: nat)
    requires
        bytes <= EXACT_LIMIT,
    ensures
        ({
            let unit = unit_of(nearest_double(bytes)).0;
            let shown = tenths_of(bytes) * unit;
            &&& 2 * (shown - bytes * 10) <= unit
            &&& 2 * (bytes * 10 - shown) <= unit
        }),
{
    lemma_nearest_double_is_near(bytes);
    lemma_tenths_are_near(bytes);
}

/// Rounding to a tenth of the unit is off by at most half of it.
proof fn lemma_tenths_are_near(value: nat)
    ensures
        ({
            let unit = unit_of(value).0;
            let shown = rounded_quotient(value * 10, unit) * unit;
            &&& 2 * (shown - value * 10) <= unit
            &&& 2 * (value * 10 - shown) <= unit
        }),
{
    let unit = unit_of(value).0;
    let whole = value * 10;
    vstd::arithmetic::div_mod::lemma_fundamental_div_mod(whole as int, unit as int);
    let q = whole / unit;
    assert((q + 1) * unit == unit * q + unit) by (nonlinear_arith);
    assert(q * unit == unit * q) by (nonlinear_arith);
}

/// Two to the power of `k`.
pub open spec fn two_to(k: nat) -> nat
    decreases k,
{
    if k == 0 {
        1
    } else {
        2 * two_to((k - 1) as nat)
    }
}

/// `m` is the whole number nearest to `a / b`, and the even one of two that are
/// equally near.
pub open spec fn is_nearest(m: nat, a: nat, b: nat) -> bool {
    &&& 2 * (m * b - a) <= b
    &&& 2 * (a - m * b) <= b
    &&& 2 * (m * b - a) == b || 2 * (a - m * b) == b ==> m % 2 == 0
}

proof fn lemma_nearest_is_unique(m: nat, a: nat, b: nat)
    requires
        b > 0,
        is_nearest(m, a, b),
    ensures
        rounded_quotient(a, b) == m,
{
    let q = a / b;
    let r = a % b;
    vstd::arithmetic::div_mod::lemma_fundamental_div_mod(a as int, b as int);
    assert(b * q == q * b) by (nonlinear_arith);
    let d = m - q;
    assert(d * b == m * b - q * b) by (nonlinear_arith)
        requires
            d == m - q,
    ;
    assert(d == 0 || d == 1) by (nonlinear_arith)
        requires
            2 * (d * b - r) <= b,
            2 * (r - d * b) <= b,
            0 <= r < b,
    ;
    assert(d == 1 ==> d * b == b);
    assert(d == 0 ==> d * b == 0);
}

proof fn lemma_double_step_is(n: nat, k: nat)
    requires
        n < 9007199254740992 * two_to(k),
        k > 0 ==> 4503599627370496 * two_to(k) <= n,
    ensures
        double_step(n) == two_to(k),
    decreases k,
{
    if k > 0 {
        lemma_two_to_is_positive((k - 1) as nat);
        lemma_double_step_is(n / 2, (k - 1) as nat);
    }
}

proof fn lemma_two_to_is_positive(k: nat)
    ensures
        two_to(k) >= 1,
    decreases k,
{
    if k > 0 {
        lemma_two_to_is_positive((k - 1) as nat);
    }
}

/// The text for a count of bytes. Below 1024 it is the count. Otherwise let the
/// count be rounded to 53 binary digits, which makes it `m` times a power of two,
/// and that be rounded to tenths of a KB, MB or GB, the largest of them that it
/// reaches: the text is that number of tenths, with one decimal, and the unit.
pub proof fn law_size_is_shown_in_tenths(bytes: nat, k: nat, m: nat, tenths: nat)
    requires
        bytes < 9007199254740992 * two_to(k),
        k > 0 ==> 4503599627370496 * two_to(k) <= bytes,
        is_nearest(m, bytes, two_to(k)),
        ({
            let value = m * two_to(k);
            &&& 1024 <= value < 1048576 ==> is_nearest(tenths, value * 10, 1024)
            &&& 1048576 <= value < 1073741824 ==> is_nearest(tenths, value * 10, 1048576)
            &&& 1073741824 <= value ==> is_nearest(tenths, value * 10, 1073741824)
        }),
    ensures
        ({
            let value = m * two_to(k);
            let number = text::decimal(tenths / 10) + seq!['.'] + text::decimal(tenths % 10);
            &&& value < 1024 ==> size_text(bytes) == text::decimal(bytes) + seq![' ', 'B']
            &&& 1024 <= value < 1048576 ==> size_text(bytes) == number + seq![' ', 'K', 'B']
            &&& 1048576 <= value < 1073741824 ==> size_text(bytes) == number + seq![' ', 'M', 'B']
            &&& 1073741824 <= value ==> size_text(bytes) == number + seq![' ', 'G', 'B']
        }),
        k == 0 ==> m == bytes,
{
    reveal_strlit(" ");
    reveal_strlit(".");
    reveal_strlit("B");
    reveal_strlit("KB");
    reveal_strlit("MB");
    reveal_strlit("GB");
    lemma_two_to_is_positive(k);
    lemma_double_step_is(bytes, k);
    lemma_nearest_is_unique(m, bytes, two_to(k));
    let value = m * two_to(k);
    assert(value == nearest_double(bytes));
    if value >= 1024 {
        lemma_nearest_is_unique(tenths, value * 10, unit_of(value).0);
        assert(tenths == tenths_of(bytes));
    }
    let number = text::decimal(tenths / 10) + seq!['.'] + text::decimal(tenths % 10);
    assert("."@ =~= seq!['.']);
    assert(text::decimal(bytes) + " "@ + "B"@ =~= text::decimal(bytes) + seq![' ', 'B']);
    assert(number + " "@ + "KB"@ =~= number + seq![' ', 'K', 'B']);
    assert(number + " "@ + "MB"@ =~= number + seq![' ', 'M', 'B']);
    assert(number + " "@ + "GB"@ =~= number + seq![' ', 'G', 'B']);
}

} // verus!
