//! Byte counts, as they are shown to the user.

use vstd::prelude::*;
use vstd::string::*;

use crate::text;

verus! {

/// `n / d`, rounded to the nearest whole number, and halves to the even one.
pub open spec fn half_even(n: nat, d: nat) -> nat
    recommends
        d > 0,
{
    let q = n / d;
    let r = n % d;
    if 2 * r > d || (2 * r == d && q % 2 == 1) {
        q + 1
    } else {
        q
    }
}

/// The whole numbers below this bound are all doubles.
pub const EXACT_BOUND: u64 = 0x20_0000_0000_0000;

/// The distance between the doubles around `n`, as far as they are whole numbers.
pub open spec fn spacing(n: nat) -> nat
    decreases n,
{
    if n < EXACT_BOUND {
        1
    } else {
        2 * spacing(n / 2)
    }
}

/// The double nearest to `n`.
pub open spec fn nearest_double(n: nat) -> nat {
    half_even(n, spacing(n)) * spacing(n)
}

pub const KIBI: u64 = 0x400;

pub const MEBI: u64 = 0x10_0000;

pub const GIBI: u64 = 0x4000_0000;

pub const TEBI: u64 = 0x100_0000_0000;

/// `bytes` in units of `scale`, to one decimal.
pub open spec fn scaled(bytes: nat, scale: nat, suffix: Seq<char>) -> Seq<char> {
    let tenths = half_even(nearest_double(bytes) * 10, scale);
    text::decimal(tenths / 10) + "."@ + text::decimal(tenths % 10) + suffix
}

/// How a byte count is shown: in the largest binary unit that it fills.
pub open spec fn bytes_text(bytes: nat) -> Seq<char> {
    if bytes >= TEBI {
        scaled(bytes, TEBI as nat, "T"@)
    } else if bytes >= GIBI {
        scaled(bytes, GIBI as nat, "G"@)
    } else if bytes >= MEBI {
        scaled(bytes, MEBI as nat, "M"@)
    } else if bytes >= KIBI {
        scaled(bytes, KIBI as nat, "K"@)
    } else {
        text::decimal(bytes) + "B"@
    }
}

fn round_half_even(n: u128, d: u128) -> (r: u128)
    requires
        0 < d <= u128::MAX / 2,
    ensures
        r == half_even(n as nat, d as nat),
{
    let q: u128 = n / d;
    let rest: u128 = n % d;
    if 2 * rest > d || (2 * rest == d && q % 2 == 1) {
        proof {
            assert(d >= 2 ==> q + 1 <= u128::MAX) by (nonlinear_arith)
                requires
                    q == n / d,
                    d > 0,
                    n <= u128::MAX,
            ;
        }
        q + 1
    } else {
        q
    }
}

pub(crate) fn space(n: u64) -> (r: u64)
    ensures
        r == spacing(n as nat),
        1 <= r <= 4096,
{
    let mut rest: u64 = n;
    let mut unit: u64 = 1;
    while rest >= EXACT_BOUND
        invariant
            spacing(n as nat) == unit * spacing(rest as nat),
            rest * unit <= n,
            1 <= unit <= 4096,
        decreases rest,
    {
        proof {
            let half = spacing(rest as nat / 2) as int;
            assert(unit * (2 * half) == (unit * 2) * half) by (nonlinear_arith);
            assert(unit <= 2048) by (nonlinear_arith)
                requires
                    rest >= 0x20_0000_0000_0000,
                    rest * unit <= n,
                    n <= 0xffff_ffff_ffff_ffff,
            ;
            assert((rest / 2) * (unit * 2) <= rest * unit) by (nonlinear_arith)
                requires
                    unit >= 1,
            ;
        }
        rest = rest / 2;
        unit = unit * 2;
    }
    assert(unit * spacing(rest as nat) == unit) by (nonlinear_arith)
        requires
            spacing(rest as nat) == 1,
    ;
    unit
}

fn scale_down(bytes: u64, scale: u64, suffix: &str) -> (r: String)
    requires
        scale >= KIBI,
    ensures
        r@ == scaled(bytes as nat, scale as nat, suffix@),
{
    let unit: u64 = space(bytes);
    let whole: u128 = round_half_even(bytes as u128, unit as u128);
    proof {
        assert(whole * unit <= bytes + unit) by (nonlinear_arith)
            requires
                whole <= bytes / unit + 1,
                unit >= 1,
        ;
    }
    let value: u128 = whole * unit as u128;
    let tenths: u128 = round_half_even(value * 10, scale as u128);
    proof {
        assert(tenths <= value * 10 / 1024 + 1) by (nonlinear_arith)
            requires
                tenths <= (value * 10) / (scale as int) + 1,
                scale >= 1024,
                value >= 0,
        ;
    }
    text::cat4(
        text::to_decimal((tenths / 10) as u64).as_str(),
        ".",
        text::to_decimal((tenths % 10) as u64).as_str(),
        suffix,
    )
}

/// Binary units, one decimal place, matching what `df -h` shows.
pub fn format_bytes(bytes: u64) -> (r: String)
    ensures
        r@ == bytes_text(bytes as nat),
{
    if bytes >= TEBI {
        scale_down(bytes, TEBI, "T")
    } else if bytes >= GIBI {
        scale_down(bytes, GIBI, "G")
    } else if bytes >= MEBI {
        scale_down(bytes, MEBI, "M")
    } else if bytes >= KIBI {
        scale_down(bytes, KIBI, "K")
    } else {
        text::cat2(text::to_decimal(bytes).as_str(), "B")
    }
}

/// What is shown of a byte count is off by no more than half a tenth of its unit, as long as the
/// count is one that a double holds.
pub proof fn shown_bytes_are_close(bytes: nat, scale: nat)
    requires
        bytes < EXACT_BOUND,
        scale > 0,
    ensures
        ({
            let tenths = half_even(nearest_double(bytes) * 10, scale);
            -(scale as int) <= 2 * (tenths * scale - bytes * 10) <= scale as int
        }),
{
    let n = bytes * 10;
    assert(half_even(bytes, 1) == bytes);
    assert(nearest_double(bytes) == bytes * 1);
    let q = n / scale;
    let r = n % scale;
    assert(n == q * scale + r) by {
        vstd::arithmetic::div_mod::lemma_fundamental_div_mod(n as int, scale as int);
        assert(scale * q == q * scale) by (nonlinear_arith);
    }
    assert((q + 1) * scale == q * scale + scale) by (nonlinear_arith);
}

/// A byte count is shown in the largest binary unit that it fills, to the nearest tenth; below the
/// smallest unit, as it is.
pub proof fn a_count_is_shown_in_its_largest_unit(bytes: nat)
    requires
        bytes < EXACT_BOUND,
    ensures
        bytes < 1024 ==> bytes_text(bytes) == text::decimal(bytes) + "B"@,
        bytes >= 1024 ==> exists|tenths: nat, scale: nat, unit: Seq<char>|
            {
                &&& #[trigger] shown_as(bytes, tenths, scale, unit)
                &&& bytes_text(bytes) == text::decimal(tenths / 10) + "."@ + text::decimal(
                    tenths % 10,
                ) + unit
            },
{
    if bytes >= 1024 {
        let (scale, unit) = if bytes >= 0x100_0000_0000 {
            (0x100_0000_0000nat, "T"@)
        } else if bytes >= 0x4000_0000 {
            (0x4000_0000nat, "G"@)
        } else if bytes >= 0x10_0000 {
            (0x10_0000nat, "M"@)
        } else {
            (0x400nat, "K"@)
        };
        let tenths = half_even(nearest_double(bytes) * 10, scale);
        shown_bytes_are_close(bytes, scale);
        assert(shown_as(bytes, tenths, scale, unit));
        assert(bytes_text(bytes) == text::decimal(tenths / 10) + "."@ + text::decimal(tenths % 10)
            + unit);
    }
}

/// Whether so many tenths of a unit that holds `scale` bytes are what is nearest to `bytes`, and
/// the unit is the largest that they fill.
pub open spec fn shown_as(bytes: nat, tenths: nat, scale: nat, unit: Seq<char>) -> bool {
    &&& -(scale as int) <= 2 * (tenths * scale - bytes * 10) <= scale as int
    &&& scale <= bytes
    &&& (scale == 1024 && unit == "K"@ && bytes < 1024 * 1024) || (scale == 1024 * 1024 && unit
        == "M"@ && bytes < 1024 * 1024 * 1024) || (scale == 1024 * 1024 * 1024 && unit == "G"@
        && bytes < 1024 * 1024 * 1024 * 1024) || (scale == 1024 * 1024 * 1024 * 1024 && unit
        == "T"@)
}

} // verus!
