//! Fixed-point numbers for prices and amounts.

use crate::domain::decimal::{
    digit_char, lemma_pow10_adds, lemma_pow10_monotonic, lemma_pow10_positive,
    lemma_pow10_twenty, low_digits, numeral, pow10, spec_min, trimmable, Decimal,
};
use std::cmp::Ordering;
use crate::text::push_char;
use vstd::arithmetic::div_mod::{
    lemma_basic_div, lemma_div_denominator, lemma_div_multiples_vanish_quotient,
    lemma_div_nonincreasing, lemma_fundamental_div_mod,
};
use vstd::arithmetic::mul::{
    lemma_mul_inequality, lemma_mul_is_associative, lemma_mul_is_commutative,
};
use vstd::prelude::*;
use vstd::std_specs::cmp::{PartialEqSpec, PartialEqSpecImpl, PartialOrdSpec, PartialOrdSpecImpl};
use vstd::std_specs::ops::{AddSpecImpl, DivSpecImpl, MulSpecImpl};

verus! {

/// A fixed-point number `base_amount * 10^(-precision)`.
#[derive(Clone, Copy, Debug, Eq)]
pub struct NumberWithPrecision {
    base_amount: u64,
    precision: u32,
}

impl View for NumberWithPrecision {
    type V = Decimal;

    closed spec fn view(&self) -> Decimal {
        Decimal { base: self.base_amount as nat, precision: self.precision as nat }
    }
}

/// Whether a decimal can be held in a `NumberWithPrecision`.
pub open spec fn representable(d: Decimal) -> bool {
    d.base <= u64::MAX && d.precision <= u32::MAX
}

/// The number that holds the decimal `d`.
pub closed spec fn number_of(d: Decimal) -> NumberWithPrecision {
    NumberWithPrecision { base_amount: d.base as u64, precision: d.precision as u32 }
}

/// A number is determined by the decimal it holds.
pub proof fn lemma_number_of_view(n: NumberWithPrecision)
    ensures
        representable(n@),
        number_of(n@) == n,
{
}

/// The digits of `n` without a leading zero: none for zero.
pub open spec fn significant(n: nat) -> Seq<char> {
    if n == 0 {
        Seq::empty()
    } else {
        numeral(n)
    }
}

proof fn lemma_reverse_push(s: Seq<char>, c: char)
    ensures
        s.push(c).reverse() == seq![c] + s.reverse(),
{
    assert(s.push(c).reverse() =~= seq![c] + s.reverse());
}

proof fn lemma_reverse_prepend(s: Seq<char>, c: char)
    ensures
        (seq![c] + s).reverse() == s.reverse().push(c),
{
    assert((seq![c] + s).reverse() =~= s.reverse().push(c));
}

/// The character of the last decimal digit of `n`.
pub fn char_of_last_digit(n: u64) -> (c: char)
    ensures
        c == digit_char((n % 10) as nat),
{
    match n % 10 {
        0 => '0',
        1 => '1',
        2 => '2',
        3 => '3',
        4 => '4',
        5 => '5',
        6 => '6',
        7 => '7',
        8 => '8',
        _ => '9',
    }
}

/// Ten to the power `e`, where that fits in 64 bits.
fn pow10_u64(e: u32) -> (r: u64)
    requires
        pow10(e as nat) <= u64::MAX,
    ensures
        r == pow10(e as nat),
{
    let mut r: u64 = 1;
    let mut i: u32 = 0;
    while i < e
        invariant
            i <= e,
            r == pow10(i as nat),
            pow10(e as nat) <= u64::MAX,
        decreases e - i,
    {
        proof {
            lemma_pow10_monotonic((i + 1) as nat, e as nat);
        }
        r = r * 10;
        i = i + 1;
    }
    r
}

/// `value` divided by ten to the power `d`, rounded toward zero.
fn shrink(value: u64, d: u32) -> (r: u64)
    ensures
        r == (value as nat) / pow10(d as nat),
{
    if d >= 20 {
        proof {
            lemma_pow10_twenty();
            lemma_pow10_monotonic(20, d as nat);
            lemma_basic_div(value as int, pow10(d as nat) as int);
        }
        0
    } else {
        proof {
            lemma_pow10_twenty();
            lemma_pow10_monotonic(d as nat, 19);
            lemma_pow10_positive(d as nat);
        }
        value / pow10_u64(d)
    }
}

/// The base amount at precision `to` of the number `base * 10^(-from)`.
fn scale(base: u64, from: u32, to: u32) -> (r: u64)
    requires
        (Decimal { base: base as nat, precision: from as nat }).scaled(to as nat) <= u64::MAX,
    ensures
        r == (Decimal { base: base as nat, precision: from as nat }).scaled(to as nat),
{
    if to > from {
        let d: u32 = to - from;
        if base == 0 {
            assert(0 * pow10(d as nat) == 0) by (nonlinear_arith);
            0
        } else {
            proof {
                lemma_pow10_positive(d as nat);
                lemma_mul_inequality(1, base as int, pow10(d as nat) as int);
                lemma_mul_is_commutative(base as int, pow10(d as nat) as int);
            }
            base * pow10_u64(d)
        }
    } else if from > to {
        shrink(base, from - to)
    } else {
        assert(base * pow10(0) == base) by (nonlinear_arith)
            requires
                pow10(0) == 1,
        ;
        base
    }
}

/// -1, 0 or 1 as `low * 10^d` is below, equal to or above `high`.
fn sign_scaled(low: u64, d: u32, high: u64) -> (s: i8)
    ensures
        -1 <= s <= 1,
        s == -1 <==> low * pow10(d as nat) < high,
        s == 0 <==> low * pow10(d as nat) == high,
{
    if low == 0 {
        assert(0 * pow10(d as nat) == 0) by (nonlinear_arith);
        if high == 0 {
            0
        } else {
            -1
        }
    } else if d >= 20 {
        proof {
            lemma_pow10_twenty();
            lemma_pow10_monotonic(20, d as nat);
            lemma_mul_inequality(1, low as int, pow10(d as nat) as int);
        }
        1
    } else {
        proof {
            lemma_pow10_twenty();
            lemma_pow10_monotonic(d as nat, 19);
        }
        let factor: u64 = pow10_u64(d);
        assert(low * factor <= u128::MAX) by (nonlinear_arith)
            requires
                low <= u64::MAX,
                factor <= u64::MAX,
        ;
        let scaled: u128 = (low as u128) * (factor as u128);
        let other: u128 = high as u128;
        if scaled < other {
            -1
        } else if scaled == other {
            0
        } else {
            1
        }
    }
}

impl NumberWithPrecision {
    pub fn new(base_amount: u64, precision: u32) -> (number: Self)
        ensures
            number@ == (Decimal { base: base_amount as nat, precision: precision as nat }),
    {
        Self { base_amount, precision }
    }

    /// The text of this number with `target_precision` fractional digits,
    /// rounded toward zero.
    pub fn format(&self, target_precision: u32) -> (text: String)
        requires
            self@.scaled(target_precision as nat) <= u64::MAX,
        ensures
            text@ == self@.text(target_precision as nat),
    {
        let value: u64 = scale(self.base_amount, self.precision, target_precision);
        let mut rest_amount: u64 = value;
        let mut ret: Vec<char> = Vec::new();
        let mut written: u32 = 0;
        proof {
            vstd::arithmetic::div_mod::lemma_div_basics_3(value as int);
            assert(pow10(0) == 1);
            assert(ret@.reverse() =~= low_digits(value as nat, 0));
        }
        while written < target_precision
            invariant
                written <= target_precision,
                rest_amount == (value as nat) / pow10(written as nat),
                ret@.reverse() == low_digits(value as nat, written as nat),
            decreases target_precision - written,
        {
            let c: char = char_of_last_digit(rest_amount);
            proof {
                lemma_reverse_push(ret@, c);
                lemma_pow10_positive(written as nat);
                lemma_div_denominator(value as int, pow10(written as nat) as int, 10);
                lemma_mul_is_commutative(pow10(written as nat) as int, 10);
            }
            ret.push(c);
            rest_amount = rest_amount / 10;
            written = written + 1;
        }
        let ghost fraction: Seq<char> = low_digits(value as nat, target_precision as nat);
        let ghost whole: nat = rest_amount as nat;
        let whole_is_zero: bool = rest_amount == 0;
        proof {
            lemma_reverse_push(ret@, '.');
        }
        ret.push('.');
        let ghost leading: Seq<char> = Seq::empty();
        assert(ret@.reverse() =~= leading + seq!['.'] + fraction);
        while rest_amount > 0
            invariant
                ret@.reverse() == leading + seq!['.'] + fraction,
                significant(whole) == significant(rest_amount as nat) + leading,
            decreases rest_amount,
        {
            let c: char = char_of_last_digit(rest_amount);
            proof {
                lemma_reverse_push(ret@, c);
                assert(significant(rest_amount as nat) =~= significant((rest_amount / 10) as nat)
                    + seq![c]);
                assert(seq![c] + (leading + seq!['.'] + fraction) =~= (seq![c] + leading)
                    + seq!['.'] + fraction);
                assert(significant((rest_amount / 10) as nat) + (seq![c] + leading)
                    =~= significant(rest_amount as nat) + leading);
                leading = seq![c] + leading;
            }
            ret.push(c);
            rest_amount = rest_amount / 10;
        }
        proof {
            assert(significant(whole) =~= leading);
        }
        if whole_is_zero {
            proof {
                lemma_reverse_push(ret@, '0');
                assert(seq!['0'] + (leading + seq!['.'] + fraction) =~= numeral(0) + seq!['.']
                    + fraction);
            }
            ret.push('0');
        }
        assert(ret@.reverse() == self@.text(target_precision as nat));
        let mut text: String = String::new();
        let mut remaining: usize = ret.len();
        assert(ret@.subrange(remaining as int, ret@.len() as int).reverse() =~= text@);
        while remaining > 0
            invariant
                remaining <= ret.len(),
                text@ == ret@.subrange(remaining as int, ret@.len() as int).reverse(),
            decreases remaining,
        {
            remaining = remaining - 1;
            proof {
                let tail = ret@.subrange(remaining + 1, ret@.len() as int);
                assert(ret@.subrange(remaining as int, ret@.len() as int) =~= seq![
                    ret@[remaining as int],
                ] + tail);
                lemma_reverse_prepend(tail, ret@[remaining as int]);
            }
            push_char(&mut text, ret[remaining]);
        }
        assert(ret@.subrange(0, ret@.len() as int) =~= ret@);
        text
    }

    /// This number at another precision, rounded toward zero.
    pub fn with_precision(&self, target_precision: u32) -> (number: Self)
        requires
            self@.scaled(target_precision as nat) <= u64::MAX,
        ensures
            number@ == self@.rescaled(target_precision as nat),
    {
        Self::new(scale(self.base_amount, self.precision, target_precision), target_precision)
    }

    /// -1, 0 or 1 as this number is below, equal to or above `other`, both
    /// taken at the greater of the two precisions.
    pub fn sign_against(&self, other: &Self) -> (s: i8)
        ensures
            -1 <= s <= 1,
            s == -1 <==> self@.below(other@),
            s == 0 <==> self@.same_value(other@),
            s == 1 <==> other@.below(self@),
    {
        proof {
            assert(self.base_amount * pow10(0) == self.base_amount) by (nonlinear_arith)
                requires
                    pow10(0) == 1,
            ;
            assert(other.base_amount * pow10(0) == other.base_amount) by (nonlinear_arith)
                requires
                    pow10(0) == 1,
            ;
        }
        if self.precision >= other.precision {
            let s: i8 = sign_scaled(
                other.base_amount,
                self.precision - other.precision,
                self.base_amount,
            );
            -s
        } else {
            sign_scaled(self.base_amount, other.precision - self.precision, other.base_amount)
        }
    }
}

impl NumberWithPrecision {
    /// The order of two numbers, taken at the greater of the two precisions.
    pub fn cmp(&self, other: &Self) -> (o: Ordering)
        ensures
            o == Ordering::Less <==> self@.below(other@),
            o == Ordering::Equal <==> self@.same_value(other@),
            o == Ordering::Greater <==> other@.below(self@),
    {
        let s: i8 = self.sign_against(other);
        if s < 0 {
            Ordering::Less
        } else if s == 0 {
            Ordering::Equal
        } else {
            Ordering::Greater
        }
    }
}

impl PartialEq for NumberWithPrecision {
    fn eq(&self, other: &NumberWithPrecision) -> (r: bool) {
        self.sign_against(other) == 0
    }
}

impl PartialEqSpecImpl for NumberWithPrecision {
    open spec fn obeys_eq_spec() -> bool {
        true
    }

    open spec fn eq_spec(&self, other: &NumberWithPrecision) -> bool {
        self@.same_value(other@)
    }
}

impl PartialOrd for NumberWithPrecision {
    fn partial_cmp(&self, other: &Self) -> (r: Option<Ordering>) {
        Some(self.cmp(other))
    }
}

impl PartialOrdSpecImpl for NumberWithPrecision {
    open spec fn obeys_partial_cmp_spec() -> bool {
        true
    }

    open spec fn partial_cmp_spec(&self, other: &Self) -> Option<Ordering> {
        if self@.below(other@) {
            Some(Ordering::Less)
        } else if self@.same_value(other@) {
            Some(Ordering::Equal)
        } else {
            Some(Ordering::Greater)
        }
    }
}

/// Numbers that are equal compare as equal, whatever their precisions.
pub proof fn law_equal_numbers_compare_equal(a: NumberWithPrecision, b: NumberWithPrecision)
    requires
        PartialEqSpec::eq_spec(&a, &b),
    ensures
        PartialOrdSpec::partial_cmp_spec(&a, &b) == Some(Ordering::Equal),
        PartialOrdSpec::partial_cmp_spec(&b, &a) == Some(Ordering::Equal),
        PartialEqSpec::eq_spec(&b, &a),
{
}

impl core::ops::Mul for NumberWithPrecision {
    type Output = Self;

    /// The product at the greater of the two precisions, rounded toward zero.
    /// Factors of ten that the result does not need are removed from the
    /// operands before they are multiplied.
    fn mul(self, right: Self) -> (res: Self)
        ensures
            res@ == self@.product(right@),
    {
        let target_precision: u32 = if self.precision >= right.precision {
            self.precision
        } else {
            right.precision
        };
        let ghost budget: nat = spec_min(self.precision as nat, right.precision as nat);
        let mut excess: u32 = if self.precision >= right.precision {
            right.precision
        } else {
            self.precision
        };
        let mut left_value: u64 = self.base_amount;
        let mut right_value: u64 = right.base_amount;
        proof {
            assert(left_value * pow10(0) == left_value) by (nonlinear_arith)
                requires
                    pow10(0) == 1,
            ;
        }
        while excess > 0 && left_value % 10 == 0
            invariant
                excess <= budget,
                self.base_amount == left_value * pow10((budget - excess) as nat),
                trimmable(self.base_amount as nat, budget) == (budget - excess) + trimmable(
                    left_value as nat,
                    excess as nat,
                ),
            decreases excess,
        {
            proof {
                lemma_trim_step(left_value as nat, (budget - excess) as nat);
            }
            left_value = left_value / 10;
            excess = excess - 1;
        }
        let ghost left_trim: nat = (budget - excess) as nat;
        let ghost rest: nat = excess as nat;
        proof {
            assert(right_value * pow10(0) == right_value) by (nonlinear_arith)
                requires
                    pow10(0) == 1,
            ;
        }
        while excess > 0 && right_value % 10 == 0
            invariant
                excess <= rest,
                right.base_amount == right_value * pow10((rest - excess) as nat),
                trimmable(right.base_amount as nat, rest) == (rest - excess) + trimmable(
                    right_value as nat,
                    excess as nat,
                ),
            decreases excess,
        {
            proof {
                lemma_trim_step(right_value as nat, (rest - excess) as nat);
            }
            right_value = right_value / 10;
            excess = excess - 1;
        }
        let ghost right_trim: nat = (rest - excess) as nat;
        proof {
            lemma_exact_quotient(self.base_amount as nat, left_value as nat, left_trim);
            lemma_exact_quotient(right.base_amount as nat, right_value as nat, right_trim);
            lemma_trimmed_product(
                left_value as nat,
                left_trim,
                right_value as nat,
                right_trim,
                excess as nat,
            );
        }
        assert(trimmable(self.base_amount as nat, budget) == left_trim);
        assert(trimmable(right.base_amount as nat, (budget - left_trim) as nat) == right_trim);
        let product: u64 = left_value * right_value;
        let number = NumberWithPrecision::new(shrink(product, excess), target_precision);
        proof {
            assert(budget == left_trim + right_trim + excess);
            assert(self.base_amount == left_value * pow10(left_trim));
            assert(right.base_amount == right_value * pow10(right_trim));
            lemma_number_of_view(number);
        }
        number
    }
}

impl MulSpecImpl for NumberWithPrecision {
    open spec fn obeys_mul_spec() -> bool {
        true
    }

    open spec fn mul_req(self, rhs: Self) -> bool {
        self@.product_fits(rhs@)
    }

    open spec fn mul_spec(self, rhs: Self) -> Self {
        number_of(self@.product(rhs@))
    }
}

impl core::ops::Div<u64> for NumberWithPrecision {
    type Output = Self;

    /// The quotient by a whole number other than zero, at the same precision,
    /// rounded toward zero.
    fn div(self, rhs: u64) -> (res: Self)
        ensures
            res@ == self@.quotient(rhs as nat),
    {
        proof {
            lemma_div_nonincreasing(self.base_amount as int, rhs as int);
        }
        NumberWithPrecision::new(self.base_amount / rhs, self.precision)
    }
}

impl DivSpecImpl<u64> for NumberWithPrecision {
    open spec fn obeys_div_spec() -> bool {
        true
    }

    open spec fn div_req(self, rhs: u64) -> bool {
        rhs != 0
    }

    open spec fn div_spec(self, rhs: u64) -> Self {
        number_of(self@.quotient(rhs as nat))
    }
}

impl core::ops::Add for NumberWithPrecision {
    type Output = Self;

    /// The sum at the greater of the two precisions.
    fn add(self, right: Self) -> (res: Self)
        ensures
            res@ == self@.sum(right@),
    {
        let target_precision: u32 = if self.precision >= right.precision {
            self.precision
        } else {
            right.precision
        };
        let left_value: u64 = scale(self.base_amount, self.precision, target_precision);
        let right_value: u64 = scale(right.base_amount, right.precision, target_precision);
        NumberWithPrecision::new(left_value + right_value, target_precision)
    }
}

impl AddSpecImpl for NumberWithPrecision {
    open spec fn obeys_add_spec() -> bool {
        true
    }

    open spec fn add_req(self, rhs: Self) -> bool {
        self@.sum_fits(rhs@)
    }

    open spec fn add_spec(self, rhs: Self) -> Self {
        number_of(self@.sum(rhs@))
    }
}

/// Removing one factor of ten from a value that ends in zero.
proof fn lemma_trim_step(value: nat, done: nat)
    requires
        value % 10 == 0,
    ensures
        (value / 10) * pow10(done + 1) == value * pow10(done),
{
    lemma_fundamental_div_mod(value as int, 10);
    assert(pow10(done + 1) == 10 * pow10(done));
    lemma_mul_is_associative((value / 10) as int, 10, pow10(done) as int);
}

/// A value that is a multiple of a power of ten, divided by that power.
proof fn lemma_exact_quotient(value: nat, trimmed: nat, count: nat)
    requires
        value == trimmed * pow10(count),
    ensures
        value / pow10(count) == trimmed,
{
    lemma_pow10_positive(count);
    vstd::arithmetic::div_mod::lemma_div_multiples_vanish(trimmed as int, pow10(count) as int);
    lemma_mul_is_commutative(trimmed as int, pow10(count) as int);
}

/// Dividing the product of the trimmed values by what is left of the excess
/// gives the product of the full values divided by the whole excess.
proof fn lemma_trimmed_product(left: nat, left_trim: nat, right: nat, right_trim: nat, rest: nat)
    ensures
        (left * right) / pow10(rest) == ((left * pow10(left_trim)) * (right * pow10(right_trim)))
            / pow10(left_trim + right_trim + rest),
{
    let removed = pow10(left_trim + right_trim);
    lemma_pow10_positive(left_trim + right_trim);
    lemma_pow10_positive(rest);
    lemma_pow10_adds(left_trim, right_trim);
    lemma_pow10_adds(left_trim + right_trim, rest);
    assert((left * pow10(left_trim)) * (right * pow10(right_trim)) == removed * (left * right))
        by (nonlinear_arith)
        requires
            removed == pow10(left_trim) * pow10(right_trim),
    ;
    lemma_div_multiples_vanish_quotient(
        removed as int,
        (left * right) as int,
        pow10(rest) as int,
    );
}

} // verus!
