//! How long the robot has been up.

use vstd::prelude::*;
use vstd::string::*;

use crate::status::bytes;
use crate::text;

verus! {

pub open spec fn ten_to(n: nat) -> nat
    decreases n,
{
    if n == 0 {
        1
    } else {
        10 * ten_to((n - 1) as nat)
    }
}

/// A number that is written out: its digits, and how many of them stand before the point. There
/// may be more than it has, or fewer than none.
#[verifier::ext_equal]
pub struct Written {
    pub digits: Seq<char>,
    pub point: int,
}

/// What a word says that is read as a double.
#[verifier::ext_equal]
pub enum Reading {
    Number { negative: bool, written: Written },
    Infinity { negative: bool },
    NotANumber,
}

/// `s` without the sign before it, and whether that is a minus.
pub open spec fn unsigned(s: Seq<char>) -> (bool, Seq<char>) {
    if s.len() > 0 && s[0] == '-' {
        (true, s.skip(1))
    } else if s.len() > 0 && s[0] == '+' {
        (false, s.skip(1))
    } else {
        (false, s)
    }
}

/// Whether `c` stands before an exponent.
pub open spec fn is_exponent_mark(c: char) -> bool {
    c == 'e' || c == 'E'
}

/// The exponent that `s` writes: digits, at least one, with or without a sign before them.
pub open spec fn exponent_of(s: Seq<char>) -> Option<int> {
    let (negative, digits) = unsigned(s);
    if digits.len() > 0 && text::all_digits(digits) {
        Some(
            if negative {
                -(text::digits_value(digits) as int)
            } else {
                text::digits_value(digits) as int
            },
        )
    } else {
        None
    }
}

/// The number that `s` writes in front of an exponent: digits with or without a point among them,
/// at least one.
pub open spec fn mantissa_of(s: Seq<char>) -> Option<Written> {
    let (whole, fraction) = match text::split_once_of(s, '.') {
        Some((whole, fraction)) => (whole, fraction),
        None => (s, Seq::empty()),
    };
    if text::all_digits(whole) && text::all_digits(fraction) && whole.len() + fraction.len() > 0 {
        Some(Written { digits: whole + fraction, point: whole.len() as int })
    } else {
        None
    }
}

/// The number that `s` writes, with or without an exponent.
pub open spec fn written_of(s: Seq<char>) -> Option<Written> {
    let at = text::position_where(s, |c: char| is_exponent_mark(c));
    if at < s.len() {
        match (mantissa_of(s.take(at)), exponent_of(s.skip(at + 1))) {
            (Some(written), Some(exponent)) => Some(
                Written { point: written.point + exponent, ..written },
            ),
            _ => None,
        }
    } else {
        mantissa_of(s)
    }
}

/// What `s` says as a double.
pub open spec fn reading_of(s: Seq<char>) -> Option<Reading> {
    let (negative, rest) = unsigned(s);
    let word = text::lowered(rest);
    if word == "inf"@ || word == "infinity"@ {
        Some(Reading::Infinity { negative })
    } else if word == "nan"@ {
        Some(Reading::NotANumber)
    } else {
        match written_of(rest) {
            Some(written) => Some(Reading::Number { negative, written }),
            None => None,
        }
    }
}

/// How many doubles there are from `n`, which is not above `2^53`, up to the next whole number, as
/// densely as they lie just below that.
pub open spec fn doubles_per_unit(n: nat) -> nat
    decreases bytes::EXACT_BOUND - n,
{
    if n == 0 {
        bytes::EXACT_BOUND as nat
    } else if 2 * n >= bytes::EXACT_BOUND {
        1
    } else {
        2 * doubles_per_unit(2 * n)
    }
}

/// The whole part of the double that is nearest to `num / den`.
///
/// Where whole numbers are the doubles' spacing or less, that double is the multiple of their
/// spacing nearest to it. Elsewhere it has the whole part of `num / den` itself, unless that lies
/// so close below the next whole number that no double is nearer: halfway from the last one at
/// least.
pub open spec fn nearest_whole(num: nat, den: nat) -> nat {
    let n = num / den;
    if n >= bytes::EXACT_BOUND {
        bytes::half_even(num, den * bytes::spacing(n)) * bytes::spacing(n)
    } else {
        let parts = 2 * doubles_per_unit(n);
        let halfway = ((n + 1) * parts - 1) * den;
        if num * parts > halfway || (num * parts == halfway && (parts > 2 || n % 2 == 1)) {
            n + 1
        } else {
            n
        }
    }
}

/// The number that is written as a fraction: its numerator and its denominator.
pub open spec fn fraction_of(written: Written) -> (nat, nat) {
    let value = text::digits_value(written.digits);
    let len = written.digits.len() as int;
    if written.point >= len {
        (value * ten_to((written.point - len) as nat), 1)
    } else {
        (value, ten_to((len - written.point) as nat))
    }
}

/// The largest `u64` that is not above `n`.
pub open spec fn capped(n: nat) -> u64 {
    if n > u64::MAX {
        u64::MAX
    } else {
        n as u64
    }
}

/// The whole seconds that a reading comes to: what is negative or no number comes to none, and
/// what is beyond all bounds to the most there are.
pub open spec fn seconds_of(reading: Reading) -> u64 {
    match reading {
        Reading::NotANumber => 0,
        Reading::Infinity { negative } => if negative {
            0
        } else {
            u64::MAX
        },
        Reading::Number { negative, written } => if negative {
            0
        } else {
            let (num, den) = fraction_of(written);
            capped(nearest_whole(num, den))
        },
    }
}

/// The uptime in the text of `/proc/uptime`: the whole seconds that its first word says.
pub open spec fn uptime_of(text: Seq<char>) -> Option<u64> {
    let words = text::words_of(text);
    if words.len() == 0 {
        None
    } else {
        match reading_of(words[0]) {
            Some(reading) => Some(seconds_of(reading)),
            None => None,
        }
    }
}

proof fn lemma_ten_to(n: nat)
    ensures
        ten_to(n) >= 1,
    decreases n,
{
    if n > 0 {
        lemma_ten_to((n - 1) as nat);
    }
}

proof fn lemma_ten_to_grows(a: nat, b: nat)
    requires
        a <= b,
    ensures
        ten_to(a) <= ten_to(b),
    decreases b,
{
    if a < b {
        lemma_ten_to_grows(a, (b - 1) as nat);
    }
}

/// The digits before and after index `i` make up the number together.
proof fn lemma_digits_split(s: Seq<char>, i: int)
    requires
        0 <= i <= s.len(),
    ensures
        text::digits_value(s) == text::digits_value(s.take(i)) * ten_to((s.len() - i) as nat)
            + text::digits_value(s.skip(i)),
    decreases s.len(),
{
    if i == s.len() {
        assert(s.take(i) =~= s);
        assert(s.skip(i) =~= Seq::<char>::empty());
        assert(ten_to(0) == 1);
        assert(text::digits_value(s) * 1 == text::digits_value(s)) by (nonlinear_arith);
    } else {
        let init = s.drop_last();
        lemma_digits_split(init, i);
        assert(init.take(i) =~= s.take(i));
        assert(init.skip(i) =~= s.skip(i).drop_last());
        assert(s.skip(i).last() == s.last());
        let head = text::digits_value(s.take(i)) as int;
        let power = ten_to((init.len() - i) as nat) as int;
        assert(ten_to((s.len() - i) as nat) == 10 * power);
        assert(10 * (head * power) == head * (10 * power)) by (nonlinear_arith);
    }
}

proof fn lemma_digits_bound(s: Seq<char>)
    requires
        text::all_digits(s),
    ensures
        text::digits_value(s) < ten_to(s.len()),
    decreases s.len(),
{
    if s.len() > 0 {
        assert forall|i: int| 0 <= i < s.drop_last().len() implies text::is_digit(
            #[trigger] s.drop_last()[i],
        ) by {
            assert(s.drop_last()[i] == s[i]);
        }
        lemma_digits_bound(s.drop_last());
        assert(text::is_digit(s[s.len() - 1]));
    }
}

/// The number that decimal digits write.
pub open spec fn value_of(digits: Seq<u8>) -> nat
    decreases digits.len(),
{
    if digits.len() == 0 {
        0
    } else {
        digits[0] as nat * ten_to((digits.len() - 1) as nat) + value_of(digits.drop_first())
    }
}

spec fn are_digits(digits: Seq<u8>) -> bool {
    forall|i: int| 0 <= i < digits.len() ==> #[trigger] digits[i] <= 9
}

proof fn lemma_value_bound(digits: Seq<u8>)
    requires
        are_digits(digits),
    ensures
        value_of(digits) < ten_to(digits.len()),
    decreases digits.len(),
{
    if digits.len() > 0 {
        let rest = digits.drop_first();
        assert forall|i: int| 0 <= i < rest.len() implies #[trigger] rest[i] <= 9 by {
            assert(rest[i] == digits[i + 1]);
        }
        lemma_value_bound(rest);
        let power = ten_to(rest.len()) as int;
        let first = digits[0] as int;
        assert(first * power <= 9 * power) by (nonlinear_arith)
            requires
                first <= 9,
                power >= 0,
        ;
    }
}

proof fn lemma_value_of_chars(chars: Seq<char>, digits: Seq<u8>)
    requires
        chars.len() == digits.len(),
        forall|i: int|
            0 <= i < chars.len() ==> text::is_digit(#[trigger] chars[i]) && digits[i] as int
                == chars[i] as int - 48,
    ensures
        value_of(digits) == text::digits_value(chars),
    decreases chars.len(),
{
    if chars.len() > 0 {
        lemma_digits_split(chars, 1);
        let rest = chars.skip(1);
        assert(digits.drop_first() =~= digits.skip(1));
        assert forall|i: int| 0 <= i < rest.len() implies text::is_digit(#[trigger] rest[i])
            && digits.drop_first()[i] as int == rest[i] as int - 48 by {
            assert(rest[i] == chars[i + 1]);
        }
        lemma_value_of_chars(rest, digits.drop_first());
        reveal_with_fuel(text::digits_value, 2);
        assert(text::is_digit(chars[0]));
        assert(chars.take(1).drop_last() =~= Seq::<char>::empty());
        assert(text::digits_value(chars.take(1)) == digits[0]);
    }
}

/// Doubles the fraction that `digits` write behind a point; the result is whether it reached one,
/// which is taken off it.
fn double(digits: &mut Vec<u8>) -> (r: bool)
    requires
        are_digits(old(digits)@),
    ensures
        final(digits)@.len() == old(digits)@.len(),
        are_digits(final(digits)@),
        value_of(final(digits)@) + (if r {
            ten_to(old(digits)@.len())
        } else {
            0
        }) == 2 * value_of(old(digits)@),
{
    let ghost before = digits@;
    let len: usize = digits.len();
    let mut carry: u8 = 0;
    let mut i: usize = len;
    assert(digits@.skip(len as int) =~= Seq::<u8>::empty());
    while i > 0
        invariant
            i <= len,
            digits@.len() == len,
            before.len() == len,
            carry <= 1,
            are_digits(before),
            are_digits(digits@),
            forall|j: int| 0 <= j < i ==> digits@[j] == before[j],
            value_of(digits@.skip(i as int)) + carry * ten_to((len - i) as nat) == 2 * value_of(
                before.skip(i as int),
            ),
        decreases i,
    {
        let ghost after = digits@;
        let at: usize = i - 1;
        let doubled: u8 = 2 * digits[at] + carry;
        proof {
            let old_tail = before.skip(at as int);
            assert(old_tail.drop_first() =~= before.skip(i as int));
            assert(old_tail[0] == before[at as int]);
            let power = ten_to((len - i) as nat) as int;
            let digit = before[at as int] as int;
            let low = (doubled % 10) as int;
            let high = (doubled / 10) as int;
            assert(doubled == 2 * digit + carry);
            assert(low + 10 * high == doubled);
            assert(low * power + high * (10 * power) == 2 * (digit * power) + carry * power)
                by (nonlinear_arith)
                requires
                    low + 10 * high == 2 * digit + carry,
            ;
        }
        digits.set(at, doubled % 10);
        carry = doubled / 10;
        proof {
            let new_tail = digits@.skip(at as int);
            assert(new_tail.drop_first() =~= after.skip(i as int));
            assert(new_tail[0] == doubled % 10);
        }
        i = at;
    }
    assert(digits@.skip(0) =~= digits@);
    assert(before.skip(0) =~= before);
    assert(carry == 0 || carry == 1);
    carry == 1
}

fn is_zero(digits: &Vec<u8>) -> (r: bool)
    ensures
        r <==> value_of(digits@) == 0,
{
    let mut i: usize = 0;
    assert(digits@.skip(0) =~= digits@);
    while i < digits.len()
        invariant
            i <= digits@.len(),
            value_of(digits@) == value_of(digits@.skip(i as int)),
        decreases digits@.len() - i,
    {
        proof {
            let tail = digits@.skip(i as int);
            assert(tail.drop_first() =~= digits@.skip(i + 1));
            let first = tail[0] as int;
            let power = ten_to((tail.len() - 1) as nat) as int;
            lemma_ten_to((tail.len() - 1) as nat);
            if first > 0 {
                assert(first * power > 0) by (nonlinear_arith)
                    requires
                        first > 0,
                        power >= 1,
                ;
            } else {
                assert(first * power == 0) by (nonlinear_arith)
                    requires
                        first == 0,
                ;
            }
        }
        if digits[i] != 0 {
            return false;
        }
        i = i + 1;
    }
    true
}

spec fn two_to(n: nat) -> nat
    decreases n,
{
    if n == 0 {
        1
    } else {
        2 * two_to((n - 1) as nat)
    }
}

/// How often a fraction has to be doubled to show whether it lies past the last half step between
/// doubles below the whole number after `n`.
fn steps(n: u64) -> (r: u64)
    requires
        n < bytes::EXACT_BOUND,
    ensures
        1 <= r,
        two_to(r as nat) == 2 * doubles_per_unit(n as nat),
        r > 1 <==> 2 * doubles_per_unit(n as nat) > 2,
{
    if n == 0 {
        assert(two_to(54) == 2 * bytes::EXACT_BOUND) by {
            reveal_with_fuel(two_to, 55);
        }
        return 54;
    }
    let mut scaled: u64 = n;
    let mut r: u64 = 1;
    proof {
        reveal_with_fuel(two_to, 2);
        assert(two_to(1) == 2);
    }
    while 2 * scaled < bytes::EXACT_BOUND
        invariant
            1 <= scaled < bytes::EXACT_BOUND,
            1 <= r <= scaled,
            2 * doubles_per_unit(n as nat) == two_to(r as nat) * doubles_per_unit(scaled as nat),
            two_to(r as nat) >= 2,
            r > 1 ==> two_to(r as nat) > 2,
            r == 1 ==> scaled == n,
        decreases bytes::EXACT_BOUND - scaled,
    {
        proof {
            let power = two_to(r as nat) as int;
            let rest = doubles_per_unit(2 * scaled as nat) as int;
            assert(doubles_per_unit(scaled as nat) == 2 * rest);
            assert(power * (2 * rest) == (2 * power) * rest) by (nonlinear_arith);
            assert(two_to((r + 1) as nat) == 2 * two_to(r as nat));
        }
        scaled = 2 * scaled;
        r = r + 1;
    }
    proof {
        assert(doubles_per_unit(scaled as nat) == 1);
        assert(two_to(r as nat) * 1 == two_to(r as nat)) by (nonlinear_arith);
    }
    r
}

/// How `num / den` is rounded, where its whole part is `n` and what is left is `rest / den`.
proof fn lemma_division(n: nat, rest: nat, den: nat)
    requires
        rest < den,
    ensures
        (n * den + rest) / den == n,
{
    vstd::arithmetic::div_mod::lemma_fundamental_div_mod_converse(
        (n * den + rest) as int,
        den as int,
        n as int,
        rest as int,
    );
}

/// Whether the nearest double below `2^53` reaches the next whole number, by what is left after
/// doubling: `over` is how far `parts * rest` goes past the last half step.
proof fn lemma_below_bound(n: nat, rest: nat, den: nat)
    requires
        rest < den,
        n < bytes::EXACT_BOUND,
    ensures
        ({
            let parts = 2 * doubles_per_unit(n);
            let over = rest * parts - (parts - 1) * den;
            nearest_whole(n * den + rest, den) == if over > 0 || (over == 0 && (parts > 2 || n % 2
                == 1)) {
                n + 1
            } else {
                n
            }
        }),
{
    lemma_division(n, rest, den);
    let parts = 2 * doubles_per_unit(n);
    let num = n * den + rest;
    let halfway = ((n + 1) * parts - 1) * den;
    assert(num * parts - halfway == rest * parts - (parts - 1) * den) by (nonlinear_arith)
        requires
            num == n * den + rest,
            halfway == ((n + 1) * parts - 1) * den,
    ;
}

fn round_small(n: u64, fraction: Vec<u8>) -> (r: u64)
    requires
        n < bytes::EXACT_BOUND,
        are_digits(fraction@),
    ensures
        r == nearest_whole(
            n as nat * ten_to(fraction@.len()) + value_of(fraction@),
            ten_to(fraction@.len()),
        ),
{
    let ghost den = ten_to(fraction@.len());
    let ghost rest = value_of(fraction@);
    proof {
        lemma_value_bound(fraction@);
        lemma_below_bound(n as nat, rest, den);
    }
    let count: u64 = steps(n);
    let ghost parts = 2 * doubles_per_unit(n as nat);
    let mut left: Vec<u8> = fraction;
    let mut i: u64 = 0;
    assert(rest * 1 - 0 * den == rest) by (nonlinear_arith);
    while i < count
        invariant
            i <= count,
            are_digits(left@),
            den == ten_to(fraction@.len()),
            rest == value_of(fraction@),
            ten_to(left@.len()) == den,
            value_of(left@) == rest * two_to(i as nat) - (two_to(i as nat) - 1) * den,
            parts == two_to(count as nat),
            parts == 2 * doubles_per_unit(n as nat),
            rest < den,
            nearest_whole(n as nat * den + rest, den) == ({
                let over = rest * parts - (parts - 1) * den;
                if over > 0 || (over == 0 && (parts > 2 || n % 2 == 1)) {
                    n as nat + 1
                } else {
                    n as nat
                }
            }),
        decreases count - i,
    {
        let ghost before = value_of(left@) as int;
        let ghost power = two_to(i as nat) as int;
        let reached: bool = double(&mut left);
        proof {
            assert(two_to((i + 1) as nat) == 2 * power);
            lemma_value_bound(left@);
            assert(2 * before - den == rest * (2 * power) - (2 * power - 1) * den)
                by (nonlinear_arith)
                requires
                    before == rest * power - (power - 1) * den,
            ;
        }
        if !reached {
            proof {
                lemma_short_of_one(rest, den, (i + 1) as nat, count as nat);
            }
            return n;
        }
        i = i + 1;
    }
    if count > 1 {
        n + 1
    } else if !is_zero(&left) {
        n + 1
    } else if n % 2 == 1 {
        n + 1
    } else {
        n
    }
}

/// A fraction that falls short of a half step falls short of the smaller ones that follow.
proof fn lemma_short_of_one(rest: nat, den: nat, a: nat, b: nat)
    requires
        a <= b,
        rest * two_to(a) - (two_to(a) - 1) * den < 0,
    ensures
        rest * two_to(b) - (two_to(b) - 1) * den < 0,
    decreases b,
{
    if a < b {
        let c = (b - 1) as nat;
        lemma_short_of_one(rest, den, a, c);
        let power = two_to(c) as int;
        assert(rest * (2 * power) - (2 * power - 1) * den < 0) by (nonlinear_arith)
            requires
                rest * power - (power - 1) * den < 0,
                den >= 0,
        ;
    }
}

/// How `(n * den + rest) / den` is rounded to a multiple of `unit`, which is even.
proof fn lemma_round_to_unit(n: nat, rest: nat, den: nat, unit: nat)
    requires
        rest < den,
        unit >= 2,
        unit % 2 == 0,
    ensures
        ({
            let q = n / unit;
            let r = n % unit;
            bytes::half_even(n * den + rest, den * unit) == if 2 * r > unit || (2 * r == unit && (
            rest > 0 || q % 2 == 1)) {
                q + 1
            } else {
                q
            }
        }),
{
    let q = n / unit;
    let r = n % unit;
    let num = n * den + rest;
    vstd::arithmetic::div_mod::lemma_fundamental_div_mod(n as int, unit as int);
    assert(n == q * unit + r) by (nonlinear_arith)
        requires
            n == unit * q + r,
    ;
    let left = r * den + rest;
    assert(num == q * (den * unit) + left) by (nonlinear_arith)
        requires
            num == n * den + rest,
            n == q * unit + r,
            left == r * den + rest,
    ;
    assert(left < den * unit) by (nonlinear_arith)
        requires
            left == r * den + rest,
            rest < den,
            r < unit,
    ;
    vstd::arithmetic::div_mod::lemma_fundamental_div_mod_converse(
        num as int,
        (den * unit) as int,
        q as int,
        left as int,
    );
    if 2 * r > unit {
        assert(2 * left > den * unit) by (nonlinear_arith)
            requires
                left == r * den + rest,
                2 * r > unit,
                den > 0,
        ;
    } else if 2 * r == unit {
        assert(2 * left == den * unit + 2 * rest) by (nonlinear_arith)
            requires
                left == r * den + rest,
                2 * r == unit,
        ;
    } else {
        assert(2 * left < den * unit) by (nonlinear_arith)
            requires
                left == r * den + rest,
                2 * r <= unit - 2,
                rest < den,
        ;
    }
}

fn round_large(n: u64, fraction: &Vec<u8>) -> (r: u64)
    requires
        n >= bytes::EXACT_BOUND,
        are_digits(fraction@),
    ensures
        r == capped(
            nearest_whole(
                n as nat * ten_to(fraction@.len()) + value_of(fraction@),
                ten_to(fraction@.len()),
            ),
        ),
{
    let unit: u64 = bytes::space(n);
    let whole: u64 = n / unit;
    let rest: u64 = n % unit;
    proof {
        let den = ten_to(fraction@.len());
        lemma_value_bound(fraction@);
        lemma_division(n as nat, value_of(fraction@), den);
        assert(bytes::spacing(n as nat) == 2 * bytes::spacing(n as nat / 2));
        lemma_round_to_unit(n as nat, value_of(fraction@), den, unit as nat);
    }
    let up: bool = 2 * rest > unit || (2 * rest == unit && (!is_zero(fraction) || whole % 2 == 1));
    let steps: u128 = if up {
        whole as u128 + 1
    } else {
        whole as u128
    };
    proof {
        assert(steps * unit <= (u64::MAX + 1) * 4096) by (nonlinear_arith)
            requires
                steps <= u64::MAX + 1,
                unit <= 4096,
                steps >= 0,
                unit >= 0,
        ;
    }
    let value: u128 = steps * unit as u128;
    if value > u64::MAX as u128 {
        u64::MAX
    } else {
        value as u64
    }
}

proof fn lemma_spacing_bound(n: nat)
    requires
        2 * n >= bytes::EXACT_BOUND,
    ensures
        bytes::spacing(n) * bytes::EXACT_BOUND <= 2 * n,
        bytes::spacing(n) >= 1,
    decreases n,
{
    if n >= bytes::EXACT_BOUND {
        lemma_spacing_bound(n / 2);
        assert(bytes::spacing(n) == 2 * bytes::spacing(n / 2));
    }
}

/// What is above every `u64` is rounded to something that is, too.
proof fn lemma_beyond_bounds(num: nat, den: nat)
    requires
        den > 0,
        num / den > u64::MAX,
    ensures
        capped(nearest_whole(num, den)) == u64::MAX,
{
    let n = num / den;
    let unit = bytes::spacing(n);
    lemma_spacing_bound(n);
    assert(unit >= 4096) by {
        reveal_with_fuel(bytes::spacing, 13);
        lemma_spacing_bound(n / 4096);
    }
    let q = num / (den * unit);
    vstd::arithmetic::div_mod::lemma_div_denominator(num as int, den as int, unit as int);
    assert(q == n / unit);
    let half = bytes::EXACT_BOUND as nat / 2;
    assert(q >= half) by {
        vstd::arithmetic::div_mod::lemma_div_is_ordered((unit * half) as int, n as int, unit as int);
        vstd::arithmetic::div_mod::lemma_div_multiples_vanish(half as int, unit as int);
    }
    let rounded = bytes::half_even(num, den * unit);
    assert(rounded * unit >= half * 4096) by (nonlinear_arith)
        requires
            rounded >= half,
            unit >= 4096,
    ;
}

fn round(n: u64, fraction: Vec<u8>) -> (r: u64)
    requires
        are_digits(fraction@),
    ensures
        r == capped(
            nearest_whole(
                n as nat * ten_to(fraction@.len()) + value_of(fraction@),
                ten_to(fraction@.len()),
            ),
        ),
{
    if n < bytes::EXACT_BOUND {
        round_small(n, fraction)
    } else {
        round_large(n, &fraction)
    }
}

/// The digits of `chars` from index `from` on.
fn digits_from(chars: &Vec<char>, from: usize) -> (r: Vec<u8>)
    requires
        from <= chars@.len(),
        text::all_digits(chars@),
    ensures
        are_digits(r@),
        r@.len() == chars@.len() - from,
        value_of(r@) == text::digits_value(chars@.skip(from as int)),
{
    let mut out: Vec<u8> = Vec::new();
    let mut i: usize = from;
    while i < chars.len()
        invariant
            from <= i <= chars@.len(),
            text::all_digits(chars@),
            out@.len() == i - from,
            forall|j: int|
                0 <= j < out@.len() ==> #[trigger] out@[j] <= 9 && out@[j] as int == chars@[from
                    + j] as int - 48,
        decreases chars@.len() - i,
    {
        assert(text::is_digit(chars@[i as int]));
        out.push((chars[i] as u32 - 48) as u8);
        i = i + 1;
    }
    proof {
        let tail = chars@.skip(from as int);
        assert forall|j: int| 0 <= j < tail.len() implies text::is_digit(#[trigger] tail[j])
            && out@[j] as int == tail[j] as int - 48 by {
            assert(tail[j] == chars@[from + j]);
        }
        lemma_value_of_chars(tail, out@);
    }
    out
}

/// The number that the first `to` digits of `chars` write, unless it is above every `u64`.
fn value_before(chars: &Vec<char>, to: usize) -> (r: Option<u64>)
    requires
        to <= chars@.len(),
        text::all_digits(chars@),
    ensures
        r is None <==> text::digits_value(chars@.take(to as int)) > u64::MAX,
        r matches Some(n) ==> n == text::digits_value(chars@.take(to as int)),
{
    let mut value: u64 = 0;
    let mut i: usize = 0;
    assert(chars@.take(0) =~= Seq::<char>::empty());
    while i < to
        invariant
            i <= to <= chars@.len(),
            text::all_digits(chars@),
            value == text::digits_value(chars@.take(i as int)),
        decreases to - i,
    {
        assert(text::is_digit(chars@[i as int]));
        let digit: u64 = (chars[i] as u32 - 48) as u64;
        proof {
            let upto = chars@.take(i + 1);
            assert(upto.drop_last() =~= chars@.take(i as int));
            assert(upto.last() == chars@[i as int]);
            text::lemma_digits_value_monotone(chars@.take(to as int), i + 1);
            assert(chars@.take(to as int).take(i + 1) =~= upto);
        }
        if value > u64::MAX / 10 || (value == u64::MAX / 10 && digit > u64::MAX % 10) {
            return None;
        }
        value = value * 10 + digit;
        i = i + 1;
    }
    Some(value)
}

/// The whole seconds that a number comes to which is written with its point behind its digits, or
/// `shift` zeros further.
fn truncate_shifted(chars: &Vec<char>, shift: u128) -> (r: u64)
    requires
        text::all_digits(chars@),
    ensures
        r == capped(nearest_whole(text::digits_value(chars@) * ten_to(shift as nat), 1)),
{
    let ghost value = text::digits_value(chars@);
    assert(chars@.take(chars@.len() as int) =~= chars@);
    let mut n: u64 = match value_before(chars, chars.len()) {
        Some(n) => n,
        None => {
            proof {
                let power = ten_to(shift as nat);
                lemma_ten_to(shift as nat);
                assert(value * power >= value) by (nonlinear_arith)
                    requires
                        power >= 1,
                ;
                lemma_beyond_bounds(value * power, 1);
            }
            return u64::MAX;
        },
    };
    let mut i: u128 = 0;
    assert(value * ten_to(0) == value) by (nonlinear_arith)
        requires
            ten_to(0) == 1,
    ;
    while i < shift && n > 0
        invariant
            i <= shift,
            value == text::digits_value(chars@),
            n == value * ten_to(i as nat),
        decreases shift - i,
    {
        assert(ten_to((i + 1) as nat) == 10 * ten_to(i as nat));
        assert(value * ten_to((i + 1) as nat) == 10 * n) by (nonlinear_arith)
            requires
                n == value * ten_to(i as nat),
                ten_to((i + 1) as nat) == 10 * ten_to(i as nat),
        ;
        if n > u64::MAX / 10 {
            proof {
                let power = ten_to(shift as nat);
                lemma_ten_to_grows((i + 1) as nat, shift as nat);
                assert(value * power >= value * ten_to((i + 1) as nat)) by (nonlinear_arith)
                    requires
                        power >= ten_to((i + 1) as nat),
                ;
                lemma_beyond_bounds(value * power, 1);
            }
            return u64::MAX;
        }
        n = n * 10;
        i = i + 1;
    }
    proof {
        if n == 0 {
            lemma_ten_to(i as nat);
            assert(value == 0) by (nonlinear_arith)
                requires
                    value * ten_to(i as nat) == 0,
                    ten_to(i as nat) >= 1,
            ;
            assert(value * ten_to(shift as nat) == 0) by (nonlinear_arith)
                requires
                    value == 0,
            ;
        }
        assert(ten_to(0) == 1);
        assert(n as nat * 1 == n) by (nonlinear_arith);
    }
    let none: Vec<u8> = Vec::new();
    assert(value_of(none@) == 0);
    round(n, none)
}

/// The whole seconds that a number comes to which is written with its point before the digit at
/// index `point`.
fn truncate_split(chars: &Vec<char>, point: usize) -> (r: u64)
    requires
        point < chars@.len(),
        text::all_digits(chars@),
    ensures
        r == capped(
            nearest_whole(
                text::digits_value(chars@),
                ten_to((chars@.len() - point) as nat),
            ),
        ),
{
    let fraction: Vec<u8> = digits_from(chars, point);
    let ghost den = ten_to((chars@.len() - point) as nat);
    let ghost whole = text::digits_value(chars@.take(point as int));
    proof {
        lemma_digits_split(chars@, point as int);
        lemma_value_bound(fraction@);
        lemma_division(whole, value_of(fraction@), den);
    }
    match value_before(chars, point) {
        Some(n) => round(n, fraction),
        None => {
            proof {
                lemma_beyond_bounds(text::digits_value(chars@), den);
            }
            u64::MAX
        },
    }
}

/// What is written with zeros between its point and its digits is less than a tenth, and comes to
/// nothing.
proof fn lemma_tiny(digits: Seq<char>, zeros: nat)
    requires
        text::all_digits(digits),
        zeros > 0,
    ensures
        nearest_whole(text::digits_value(digits), ten_to(digits.len() + zeros)) == 0,
{
    let value = text::digits_value(digits);
    let den = ten_to(digits.len() + zeros);
    lemma_digits_bound(digits);
    lemma_ten_to_grows((digits.len() + 1) as nat, digits.len() + zeros);
    assert(ten_to((digits.len() + 1) as nat) == 10 * ten_to(digits.len()));
    vstd::arithmetic::div_mod::lemma_basic_div(value as int, den as int);
    let parts = 2 * doubles_per_unit(0);
    assert(value * parts < ((0 + 1) * parts - 1) * den) by (nonlinear_arith)
        requires
            10 * value < den,
            parts >= 2,
    ;
}

/// Exponents above this are all alike.
pub const EXPONENT_LIMIT: u128 = 0x10_0000_0000_0000_0000_0000_0000;

proof fn lemma_huge(value: nat, shift: nat)
    requires
        value > 0,
        shift >= 20,
    ensures
        capped(nearest_whole(value * ten_to(shift), 1)) == u64::MAX,
{
    lemma_ten_to_grows(20, shift);
    assert(ten_to(20) > u64::MAX) by {
        reveal_with_fuel(ten_to, 21);
    }
    let power = ten_to(shift);
    assert(value * power >= power) by (nonlinear_arith)
        requires
            value >= 1,
    ;
    lemma_beyond_bounds(value * power, 1);
}

/// A number that is written out, as it was read.
struct Read {
    digits: Vec<char>,
    /// How many of the digits stand before the point, as far as it is written.
    whole: usize,
    /// Whether the exponent is negative.
    negative: bool,
    /// The exponent's magnitude: none if it is above `EXPONENT_LIMIT`.
    magnitude: Option<u128>,
}

impl Read {
    /// Whether this is what `written` says.
    spec fn says(self, written: Written) -> bool {
        let exponent = written.point - self.whole;
        &&& self.digits@ == written.digits
        &&& text::all_digits(written.digits)
        &&& self.whole <= self.digits@.len()
        &&& stands_for(self.negative, self.magnitude, exponent)
    }

    /// The whole seconds that the number comes to.
    fn truncate(&self, Ghost(written): Ghost<Written>) -> (r: u64)
        requires
            self.says(written),
        ensures
            r == capped(nearest_whole(fraction_of(written).0, fraction_of(written).1)),
    {
        let len: usize = self.digits.len();
        let magnitude: u128 = match self.magnitude {
            Some(magnitude) => magnitude,
            None => {
                if self.negative {
                    proof {
                        lemma_tiny(written.digits, (-written.point) as nat);
                    }
                    return 0;
                }
                let fraction: Vec<u8> = digits_from(&self.digits, 0);
                assert(self.digits@.skip(0) =~= self.digits@);
                if is_zero(&fraction) {
                    proof {
                        let power = ten_to((written.point - len) as nat);
                        assert(0 * power == 0) by (nonlinear_arith);
                        assert(doubles_per_unit(0) == bytes::EXACT_BOUND);
                    }
                    return 0;
                }
                proof {
                    lemma_huge(
                        text::digits_value(written.digits),
                        (written.point - len) as nat,
                    );
                }
                return u64::MAX;
            },
        };
        if self.negative {
            if magnitude > self.whole as u128 {
                proof {
                    lemma_tiny(written.digits, (-written.point) as nat);
                }
                return 0;
            }
            let point: usize = self.whole - magnitude as usize;
            if point >= len {
                return truncate_shifted(&self.digits, 0);
            }
            return truncate_split(&self.digits, point);
        }
        if magnitude >= (len - self.whole) as u128 {
            return truncate_shifted(&self.digits, magnitude - (len - self.whole) as u128);
        }
        truncate_split(&self.digits, self.whole + magnitude as usize)
    }
}

fn strip_sign(s: &str) -> (r: (bool, String))
    ensures
        r.0 == unsigned(s@).0,
        r.1@ == unsigned(s@).1,
{
    let chars: Vec<char> = text::to_chars(s);
    if chars.len() > 0 && (chars[0] == '-' || chars[0] == '+') {
        assert(s@.subrange(1, s@.len() as int) =~= s@.skip(1));
        (chars[0] == '-', text::slice(s, 1, chars.len()))
    } else {
        (false, s.to_owned())
    }
}

fn only_digits(chars: &Vec<char>) -> (r: bool)
    ensures
        r == text::all_digits(chars@),
{
    let mut i: usize = 0;
    while i < chars.len()
        invariant
            i <= chars@.len(),
            forall|j: int| 0 <= j < i ==> text::is_digit(#[trigger] chars@[j]),
        decreases chars@.len() - i,
    {
        if !text::digit(chars[i]) {
            return false;
        }
        i = i + 1;
    }
    true
}

/// The number that the digits of `chars` write: none if it is above `EXPONENT_LIMIT`.
fn magnitude(chars: &Vec<char>) -> (r: Option<u128>)
    requires
        text::all_digits(chars@),
    ensures
        r is None ==> text::digits_value(chars@) > EXPONENT_LIMIT,
        r matches Some(n) ==> n == text::digits_value(chars@),
{
    let mut value: u128 = 0;
    let mut i: usize = 0;
    assert(chars@.take(0) =~= Seq::<char>::empty());
    while i < chars.len()
        invariant
            i <= chars@.len(),
            text::all_digits(chars@),
            value <= EXPONENT_LIMIT,
            value == text::digits_value(chars@.take(i as int)),
        decreases chars@.len() - i,
    {
        assert(text::is_digit(chars@[i as int]));
        let digit: u128 = (chars[i] as u32 - 48) as u128;
        proof {
            assert(chars@.take(i + 1).drop_last() =~= chars@.take(i as int));
            assert(chars@.take(i + 1).last() == chars@[i as int]);
            text::lemma_digits_value_monotone(chars@, i + 1);
        }
        value = value * 10 + digit;
        if value > EXPONENT_LIMIT {
            return None;
        }
        i = i + 1;
    }
    assert(chars@.take(i as int) =~= chars@);
    Some(value)
}

/// Whether a sign and a magnitude stand for `exponent`.
spec fn stands_for(negative: bool, magnitude: Option<u128>, exponent: int) -> bool {
    match magnitude {
        Some(magnitude) => exponent == if negative {
            -(magnitude as int)
        } else {
            magnitude as int
        },
        None => if negative {
            exponent < -EXPONENT_LIMIT
        } else {
            exponent > EXPONENT_LIMIT
        },
    }
}

fn parse_exponent(s: &str) -> (r: Option<(bool, Option<u128>)>)
    ensures
        r is Some <==> exponent_of(s@) is Some,
        r matches Some(found) ==> stands_for(found.0, found.1, exponent_of(s@)->0),
{
    let (negative, rest): (bool, String) = strip_sign(s);
    let chars: Vec<char> = text::to_chars(rest.as_str());
    if chars.len() == 0 || !only_digits(&chars) {
        return None;
    }
    Some((negative, magnitude(&chars)))
}

fn parse_mantissa(s: &str) -> (r: Option<(Vec<char>, usize)>)
    ensures
        r is Some <==> mantissa_of(s@) is Some,
        r matches Some(found) ==> {
            &&& text::all_digits(found.0@)
            &&& found.1 <= found.0@.len()
            &&& mantissa_of(s@) == Some(Written { digits: found.0@, point: found.1 as int })
        },
{
    proof {
        reveal_strlit("");
        assert(""@ =~= Seq::<char>::empty());
    }
    let (whole, fraction): (String, String) = match text::split_once(s, '.') {
        Some((whole, fraction)) => (whole, fraction),
        None => (s.to_owned(), "".to_owned()),
    };
    let mut digits: Vec<char> = text::to_chars(whole.as_str());
    let mut rest: Vec<char> = text::to_chars(fraction.as_str());
    let point: usize = digits.len();
    if !only_digits(&digits) || !only_digits(&rest) || (digits.len() == 0 && rest.len() == 0) {
        return None;
    }
    let ghost first = digits@;
    let ghost second = rest@;
    digits.append(&mut rest);
    assert(digits@ == first + second);
    assert forall|i: int| 0 <= i < digits@.len() implies text::is_digit(
        #[trigger] digits@[i],
    ) by {
        if i < first.len() {
            assert(digits@[i] == first[i]);
        } else {
            assert(digits@[i] == second[i - first.len()]);
        }
    }
    Some((digits, point))
}

fn parse_written(s: &str) -> (r: Option<Read>)
    ensures
        r is Some <==> written_of(s@) is Some,
        r matches Some(read) ==> read.says(written_of(s@)->0),
{
    let ghost mark = |c: char| is_exponent_mark(c);
    let chars: Vec<char> = text::to_chars(s);
    let mut at: usize = 0;
    while at < chars.len() && chars[at] != 'e' && chars[at] != 'E'
        invariant
            at <= chars@.len(),
            chars@ == s@,
            mark == (|c: char| is_exponent_mark(c)),
            forall|j: int| 0 <= j < at ==> !mark(#[trigger] s@[j]),
        decreases chars@.len() - at,
    {
        at = at + 1;
    }
    proof {
        text::lemma_position_where_is(s@, mark, at as int);
    }
    if at == chars.len() {
        return match parse_mantissa(s) {
            Some((digits, whole)) => Some(
                Read { digits, whole, negative: false, magnitude: Some(0) },
            ),
            None => None,
        };
    }
    assert(s@.subrange(0, at as int) =~= s@.take(at as int));
    assert(s@.subrange(at + 1, s@.len() as int) =~= s@.skip(at + 1));
    let mantissa: String = text::slice(s, 0, at);
    let exponent: String = text::slice(s, at + 1, chars.len());
    match (parse_mantissa(mantissa.as_str()), parse_exponent(exponent.as_str())) {
        (Some((digits, whole)), Some((negative, magnitude))) => Some(
            Read { digits, whole, negative, magnitude },
        ),
        _ => None,
    }
}

/// The whole seconds that `word` says as a double, if it says one.
fn parse_seconds(word: &str) -> (r: Option<u64>)
    ensures
        r == match reading_of(word@) {
            Some(reading) => Some(seconds_of(reading)),
            None => None,
        },
{
    let (negative, rest): (bool, String) = strip_sign(word);
    let lowered: String = text::to_lowercase(rest.as_str());
    if text::same(lowered.as_str(), "inf") || text::same(lowered.as_str(), "infinity") {
        return Some(
            if negative {
                0
            } else {
                u64::MAX
            },
        );
    }
    if text::same(lowered.as_str(), "nan") {
        return Some(0);
    }
    match parse_written(rest.as_str()) {
        None => None,
        Some(read) => if negative {
            Some(0)
        } else {
            Some(read.truncate(Ghost(written_of(rest@)->0)))
        },
    }
}

/// `/proc/uptime` is "<uptime> <idle>", both in seconds with two decimals.
pub fn parse_uptime(text: &str) -> (r: Option<u64>)
    ensures
        r == uptime_of(text@),
{
    let words: Vec<String> = text::split_whitespace(text);
    if words.len() == 0 {
        return None;
    }
    assert(text::views(words@)[0] == words@[0]@);
    parse_seconds(words[0].as_str())
}

proof fn lemma_doubles_per_unit(n: nat)
    requires
        0 < n < bytes::EXACT_BOUND,
    ensures
        2 * (doubles_per_unit(n) * n) >= bytes::EXACT_BOUND,
    decreases bytes::EXACT_BOUND - n,
{
    if 2 * n < bytes::EXACT_BOUND {
        lemma_doubles_per_unit(2 * n);
        let rest = doubles_per_unit(2 * n) as int;
        assert((2 * rest) * n == rest * (2 * n)) by (nonlinear_arith);
    } else {
        assert(1 * n == n) by (nonlinear_arith);
    }
}

/// An uptime with two decimals, as the kernel writes it, is cut off to its whole seconds: the
/// nearest double has the same, for more than a million years.
pub proof fn hundredths_are_cut_off(seconds: nat, hundredths: nat)
    requires
        seconds < 0x4000_0000_0000,
        hundredths < 100,
    ensures
        nearest_whole(seconds * 100 + hundredths, 100) == seconds,
{
    lemma_below_bound(seconds, hundredths, 100);
    let doubles = doubles_per_unit(seconds);
    if seconds > 0 {
        lemma_doubles_per_unit(seconds);
        assert(doubles > 60) by (nonlinear_arith)
            requires
                2 * (doubles * seconds) >= 0x20_0000_0000_0000,
                seconds < 0x4000_0000_0000,
        ;
    }
    let parts = 2 * doubles;
    assert(hundredths * parts - (parts - 1) * 100 < 0) by (nonlinear_arith)
        requires
            parts > 100,
            hundredths <= 99,
    ;
}

proof fn lemma_first_word(word: Seq<char>, rest: Seq<char>)
    requires
        word.len() > 0,
        forall|i: int| 0 <= i < word.len() ==> !text::is_whitespace(#[trigger] word[i]),
    ensures
        text::words_of(word + seq![' '] + rest).len() > 0,
        text::words_of(word + seq![' '] + rest)[0] == word,
{
    let line = word + seq![' '] + rest;
    assert(line[0] == word[0]);
    assert(text::trim_start_of(line) == line);
    lemma_word_len_is(line, word.len() as int);
    assert(line.take(word.len() as int) =~= word);
}

proof fn lemma_word_len_is(s: Seq<char>, n: int)
    requires
        0 <= n < s.len(),
        forall|i: int| 0 <= i < n ==> !text::is_whitespace(#[trigger] s[i]),
        text::is_whitespace(s[n]),
    ensures
        text::word_len(s) == n,
    decreases n,
{
    if n > 0 {
        let rest = s.drop_first();
        assert(!text::is_whitespace(s[0]));
        assert forall|i: int| 0 <= i < n - 1 implies !text::is_whitespace(#[trigger] rest[i]) by {
            assert(rest[i] == s[i + 1]);
        }
        lemma_word_len_is(rest, n - 1);
    }
}

proof fn lemma_kernel_number(seconds: nat, hundredths: nat)
    requires
        hundredths < 100,
    ensures
        ({
            let whole = text::decimal(seconds);
            let fraction = seq![
                text::digit_char(hundredths / 10),
                text::digit_char(hundredths % 10),
            ];
            let word = whole + seq!['.'] + fraction;
            &&& reading_of(word) == Some(
                Reading::Number {
                    negative: false,
                    written: Written { digits: whole + fraction, point: whole.len() as int },
                },
            )
            &&& text::digits_value(whole + fraction) == seconds * 100 + hundredths
            &&& forall|i: int| 0 <= i < word.len() ==> !text::is_whitespace(#[trigger] word[i])
        }),
{
    let whole = text::decimal(seconds);
    let fraction = seq![text::digit_char(hundredths / 10), text::digit_char(hundredths % 10)];
    let word = whole + seq!['.'] + fraction;
    text::lemma_decimal_reads_back(seconds);
    assert(text::is_digit(fraction[0]) && text::is_digit(fraction[1]));
    assert forall|i: int| 0 <= i < word.len() implies text::is_digit(#[trigger] word[i]) || word[i]
        == '.' by {
        if i < whole.len() {
            assert(word[i] == whole[i]);
        } else if i > whole.len() {
            assert(word[i] == fraction[i - whole.len() - 1]);
        }
    }
    assert(text::is_digit(whole[0]));
    assert(word[0] == whole[0]);
    assert(unsigned(word) == (false, word));
    let lower = text::lowered(word);
    assert(lower[0] == word[0]);
    reveal_strlit("inf");
    reveal_strlit("infinity");
    reveal_strlit("nan");
    assert("inf"@[0] == 'i' && "infinity"@[0] == 'i' && "nan"@[0] == 'n');
    let mark = |c: char| is_exponent_mark(c);
    text::lemma_position_where_is(word, mark, word.len() as int);
    assert forall|i: int| 0 <= i < whole.len() implies word[i] != '.' by {
        assert(word[i] == whole[i]);
        assert(text::is_digit(whole[i]));
    }
    assert(word[whole.len() as int] == '.');
    text::lemma_position_is(word, '.', whole.len() as int);
    assert(word.take(whole.len() as int) =~= whole);
    assert(word.skip(whole.len() as int + 1) =~= fraction);
    let digits = whole + fraction;
    let one = whole.push(fraction[0]);
    assert(digits.drop_last() =~= one);
    assert(one.drop_last() =~= whole);
    assert(text::digits_value(digits) == 10 * text::digits_value(one) + hundredths % 10);
    assert(text::digits_value(one) == 10 * seconds + hundredths / 10);
}

/// What the kernel says of its uptime, in seconds with two decimals, is read to the whole second,
/// whatever follows it on the line.
pub proof fn the_kernels_uptime_is_read_to_the_second(
    seconds: nat,
    hundredths: nat,
    rest: Seq<char>,
)
    requires
        seconds < 0x4000_0000_0000,
        hundredths < 100,
    ensures
        uptime_of(
            text::decimal(seconds) + seq!['.'] + seq![
                text::digit_char(hundredths / 10),
                text::digit_char(hundredths % 10),
            ] + seq![' '] + rest,
        ) == Some(seconds as u64),
{
    let whole = text::decimal(seconds);
    let fraction = seq![text::digit_char(hundredths / 10), text::digit_char(hundredths % 10)];
    let word = whole + seq!['.'] + fraction;
    lemma_kernel_number(seconds, hundredths);
    lemma_first_word(word, rest);
    hundredths_are_cut_off(seconds, hundredths);
    reveal_with_fuel(ten_to, 3);
    assert(ten_to(2) == 100);
    let written = Written { digits: whole + fraction, point: whole.len() as int };
    assert(fraction_of(written) == ((seconds * 100 + hundredths) as nat, 100nat));
}

} // verus!
