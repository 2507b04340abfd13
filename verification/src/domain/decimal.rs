//! The mathematical model of fixed-point decimal numbers.

use vstd::arithmetic::div_mod::{
    lemma_basic_div, lemma_div_basics_3, lemma_div_denominator, lemma_fundamental_div_mod,
    lemma_fundamental_div_mod_converse,
};
use vstd::arithmetic::mul::lemma_mul_is_associative;
use vstd::prelude::*;

verus! {

/// Ten to the power `e`.
pub open spec fn pow10(e: nat) -> nat
    decreases e,
{
    if e == 0 {
        1
    } else {
        10 * pow10((e - 1) as nat)
    }
}

/// A decimal number `base * 10^(-precision)`.
pub struct Decimal {
    pub base: nat,
    pub precision: nat,
}

pub open spec fn spec_max(a: nat, b: nat) -> nat {
    if a >= b {
        a
    } else {
        b
    }
}

pub open spec fn spec_min(a: nat, b: nat) -> nat {
    if a <= b {
        a
    } else {
        b
    }
}

impl Decimal {
    /// The base amount of this number at precision `p`, rounded toward zero.
    pub open spec fn scaled(self, p: nat) -> nat {
        if p >= self.precision {
            self.base * pow10((p - self.precision) as nat)
        } else {
            self.base / pow10((self.precision - p) as nat)
        }
    }

    /// This number at precision `p`, rounded toward zero.
    pub open spec fn rescaled(self, p: nat) -> Decimal {
        Decimal { base: self.scaled(p), precision: p }
    }

    /// Equality at the greater of the two precisions.
    pub open spec fn same_value(self, other: Decimal) -> bool {
        self.scaled(spec_max(self.precision, other.precision)) == other.scaled(
            spec_max(self.precision, other.precision),
        )
    }

    /// Strict order at the greater of the two precisions.
    pub open spec fn below(self, other: Decimal) -> bool {
        self.scaled(spec_max(self.precision, other.precision)) < other.scaled(
            spec_max(self.precision, other.precision),
        )
    }

    /// The product at the greater of the two precisions, rounded toward zero.
    pub open spec fn product(self, other: Decimal) -> Decimal {
        Decimal {
            base: (self.base * other.base) / pow10(spec_min(self.precision, other.precision)),
            precision: spec_max(self.precision, other.precision),
        }
    }

    /// The product with every digit kept, at the sum of the two precisions.
    pub open spec fn exact_product(self, other: Decimal) -> Decimal {
        Decimal { base: self.base * other.base, precision: self.precision + other.precision }
    }

    /// Whether cutting the product down to the greater of the two precisions
    /// loses nothing that shows at precision `p`.
    pub open spec fn product_shows_whole(self, other: Decimal, p: nat) -> bool {
        let low = spec_min(self.precision, other.precision);
        let high = spec_max(self.precision, other.precision);
        p <= high || ((self.base * other.base) % pow10(low)) * pow10((p - high) as nat) < pow10(
            low,
        )
    }

    /// The sum at the greater of the two precisions.
    pub open spec fn sum(self, other: Decimal) -> Decimal {
        Decimal {
            base: self.scaled(spec_max(self.precision, other.precision)) + other.scaled(
                spec_max(self.precision, other.precision),
            ),
            precision: spec_max(self.precision, other.precision),
        }
    }

    /// The text of this number at precision `p`, rounded toward zero: the
    /// numeral of the whole part, a point, and `p` fractional digits.
    pub open spec fn text(self, p: nat) -> Seq<char> {
        numeral(self.scaled(p) / pow10(p)) + seq!['.'] + low_digits(self.scaled(p), p)
    }

    /// Whether the product can be computed in 64 bits once the factors of ten
    /// that the result does not need have been removed, first from `self`,
    /// then from `other`.
    pub open spec fn product_fits(self, other: Decimal) -> bool {
        let excess = spec_min(self.precision, other.precision);
        let left = trimmable(self.base, excess);
        let right = trimmable(other.base, (excess - left) as nat);
        (self.base / pow10(left)) * (other.base / pow10(right)) <= u64::MAX
    }

    /// Whether the sum fits in 64 bits.
    pub open spec fn sum_fits(self, other: Decimal) -> bool {
        self.sum(other).base <= u64::MAX
    }

    /// The quotient by a whole number, at the same precision, rounded toward zero.
    pub open spec fn quotient(self, divisor: nat) -> Decimal {
        Decimal { base: self.base / divisor, precision: self.precision }
    }
}

/// The character of a decimal digit.
pub open spec fn digit_char(d: nat) -> char {
    if d == 0 {
        '0'
    } else if d == 1 {
        '1'
    } else if d == 2 {
        '2'
    } else if d == 3 {
        '3'
    } else if d == 4 {
        '4'
    } else if d == 5 {
        '5'
    } else if d == 6 {
        '6'
    } else if d == 7 {
        '7'
    } else if d == 8 {
        '8'
    } else {
        '9'
    }
}

pub open spec fn is_digit_char(c: char) -> bool {
    exists|d: nat| d < 10 && c == #[trigger] digit_char(d)
}

/// The decimal numeral of `n`, most significant digit first.
pub open spec fn numeral(n: nat) -> Seq<char>
    decreases n,
{
    if n < 10 {
        seq![digit_char(n)]
    } else {
        numeral(n / 10).push(digit_char(n % 10))
    }
}

/// The lowest `width` decimal digits of `n`, most significant digit first.
pub open spec fn low_digits(n: nat, width: nat) -> Seq<char>
    decreases width,
{
    if width == 0 {
        Seq::empty()
    } else {
        seq![digit_char((n / pow10((width - 1) as nat)) % 10)] + low_digits(
            n,
            (width - 1) as nat,
        )
    }
}

/// How many factors of ten divide `value`, counting at most `budget` of them.
pub open spec fn trimmable(value: nat, budget: nat) -> nat
    decreases budget,
{
    if budget == 0 || value % 10 != 0 {
        0
    } else {
        1 + trimmable(value / 10, (budget - 1) as nat)
    }
}

pub proof fn lemma_pow10_positive(e: nat)
    ensures
        pow10(e) > 0,
    decreases e,
{
    if e > 0 {
        lemma_pow10_positive((e - 1) as nat);
    }
}

pub proof fn lemma_pow10_adds(a: nat, b: nat)
    ensures
        pow10(a + b) == pow10(a) * pow10(b),
    decreases a,
{
    if a == 0 {
        assert(pow10(0) == 1);
        assert(1 * pow10(b) == pow10(b));
    } else {
        lemma_pow10_adds((a - 1) as nat, b);
        assert(pow10(a + b) == 10 * pow10((a - 1 + b) as nat));
        lemma_mul_is_associative(10, pow10((a - 1) as nat) as int, pow10(b) as int);
    }
}

pub proof fn lemma_pow10_monotonic(a: nat, b: nat)
    requires
        a <= b,
    ensures
        pow10(a) <= pow10(b),
    decreases b,
{
    if a < b {
        lemma_pow10_monotonic(a, (b - 1) as nat);
        lemma_pow10_positive((b - 1) as nat);
    }
}

/// Twenty decimal digits do not fit in 64 bits.
pub proof fn lemma_pow10_twenty()
    ensures
        pow10(19) == 10_000_000_000_000_000_000,
        pow10(19) <= u64::MAX,
        pow10(20) > u64::MAX,
{
    reveal_with_fuel(pow10, 21);
}

pub proof fn lemma_numeral_shape(n: nat)
    ensures
        numeral(n).len() >= 1,
        forall|i: int| 0 <= i < numeral(n).len() ==> is_digit_char(#[trigger] numeral(n)[i]),
    decreases n,
{
    if n < 10 {
        assert(is_digit_char(digit_char(n)));
    } else {
        lemma_numeral_shape(n / 10);
        assert(n % 10 < 10);
        assert(is_digit_char(digit_char(n % 10)));
    }
}

pub proof fn lemma_low_digits_shape(n: nat, width: nat)
    ensures
        low_digits(n, width).len() == width,
        forall|i: int|
            0 <= i < low_digits(n, width).len() ==> is_digit_char(
                #[trigger] low_digits(n, width)[i],
            ),
    decreases width,
{
    if width > 0 {
        lemma_low_digits_shape(n, (width - 1) as nat);
        let d = (n / pow10((width - 1) as nat)) % 10;
        assert(d < 10);
        assert(is_digit_char(digit_char(d)));
    }
}

/// The text of a number at precision `p` has a whole part of at least one
/// digit, then a point, then exactly `p` digits.
pub proof fn law_text_shape(d: Decimal, p: nat)
    ensures
        d.text(p).len() >= p + 2,
        d.text(p)[d.text(p).len() - 1 - p] == '.',
        forall|i: int|
            0 <= i < d.text(p).len() && i != d.text(p).len() - 1 - p ==> is_digit_char(
                #[trigger] d.text(p)[i],
            ),
{
    let whole = numeral(d.scaled(p) / pow10(p));
    let fraction = low_digits(d.scaled(p), p);
    lemma_numeral_shape(d.scaled(p) / pow10(p));
    lemma_low_digits_shape(d.scaled(p), p);
    let text = d.text(p);
    assert(text.len() == whole.len() + 1 + p);
    assert forall|i: int| 0 <= i < text.len() && i != text.len() - 1 - p implies is_digit_char(
        #[trigger] text[i],
    ) by {
        if i < whole.len() {
            assert(text[i] == whole[i]);
        } else {
            assert(text[i] == fraction[i - whole.len() - 1]);
        }
    }
}

/// Numbers that are equal at the greater of their precisions are neither
/// below nor above one another.
pub proof fn law_same_value_is_unordered(a: Decimal, b: Decimal)
    requires
        a.same_value(b),
    ensures
        !a.below(b),
        !b.below(a),
        b.same_value(a),
{
}

/// Of two numbers exactly one holds: the first is below the second, they are
/// equal, or the second is below the first.
pub proof fn law_order_is_total(a: Decimal, b: Decimal)
    ensures
        a.below(b) || a.same_value(b) || b.below(a),
        !(a.below(b) && a.same_value(b)),
        !(a.below(b) && b.below(a)),
        !(a.same_value(b) && b.below(a)),
{
}

/// The product of two numbers, shown at precision `p`, is their product
/// with every digit kept, rounded toward zero at precision `p`, exactly
/// where cutting it down to the greater of the two precisions loses nothing
/// that shows at `p`: always so where `p` is at most that precision.
pub proof fn law_product_rounds_toward_zero(a: Decimal, b: Decimal, p: nat)
    ensures
        a.product(b).scaled(p) == a.exact_product(b).scaled(p) <==> a.product_shows_whole(b, p),
        a.product_shows_whole(b, p) ==> a.product(b).text(p) == a.exact_product(b).text(p),
{
    let low = spec_min(a.precision, b.precision);
    let high = spec_max(a.precision, b.precision);
    let ab: int = (a.base * b.base) as int;
    let unit: int = pow10(low) as int;
    lemma_pow10_positive(low);
    let q: int = ab / unit;
    let r: int = ab % unit;
    lemma_fundamental_div_mod(ab, unit);
    assert(a.precision + b.precision == high + low);
    assert(a.product(b).base == q);
    assert(pow10(0) == 1);
    let shown = a.product(b).scaled(p);
    let exact = a.exact_product(b).scaled(p);
    let whole = a.product_shows_whole(b, p);
    assert(r == (a.base * b.base) % pow10(low));
    if p < high {
        let cut = pow10((high - p) as nat) as int;
        lemma_pow10_positive((high - p) as nat);
        lemma_div_denominator(ab, unit, cut);
        lemma_pow10_adds(low, (high - p) as nat);
        assert(exact == ab / (unit * cut));
        assert(shown == q / cut);
        assert(shown == exact && whole);
    } else if p == high {
        assert(q * 1 == q);
        assert(shown == q);
        if low == 0 {
            lemma_div_basics_3(ab);
            assert(unit == 1);
            assert(q == ab / 1);
            assert(q == ab);
            assert(ab * 1 == ab);
            assert(exact == ab);
        } else {
            assert(exact == a.exact_product(b).base / pow10((high + low - p) as nat));
            assert(exact == ab / unit);
        }
        assert(shown == exact);
        assert(whole);
    } else {
        let k = (p - high) as nat;
        let f: int = pow10(k) as int;
        lemma_pow10_positive(k);
        assert(a.product(b).scaled(p) == q * f);
        if k >= low {
            let g: int = pow10((k - low) as nat) as int;
            lemma_pow10_positive((k - low) as nat);
            lemma_pow10_adds(low, (k - low) as nat);
            assert(f == unit * g);
            assert(a.exact_product(b).scaled(p) == ab * g);
            assert(ab * g == q * f + r * g) by (nonlinear_arith)
                requires
                    ab == unit * q + r,
                    f == unit * g,
            ;
            if r == 0 {
                assert(r * g == 0) by (nonlinear_arith)
                    requires
                        r == 0,
                ;
                assert(r * f == 0) by (nonlinear_arith)
                    requires
                        r == 0,
                ;
            } else {
                assert(r * g > 0) by (nonlinear_arith)
                    requires
                        r > 0,
                        g > 0,
                ;
                lemma_pow10_monotonic(low, k);
                assert(r * f >= unit) by (nonlinear_arith)
                    requires
                        r >= 1,
                        f >= unit,
                        unit > 0,
                ;
            }
            assert(whole <==> r * f < unit);
            assert(shown == exact <==> whole);
        } else {
            let e: int = pow10((low - k) as nat) as int;
            lemma_pow10_positive((low - k) as nat);
            lemma_pow10_adds(k, (low - k) as nat);
            assert(unit == f * e);
            assert(a.exact_product(b).scaled(p) == ab / e);
            lemma_fundamental_div_mod(r, e);
            assert(ab == (q * f + r / e) * e + r % e) by (nonlinear_arith)
                requires
                    ab == unit * q + r,
                    unit == f * e,
                    r == e * (r / e) + r % e,
            ;
            lemma_fundamental_div_mod_converse(ab, e, q * f + r / e, r % e);
            assert(ab / e == q * f + r / e);
            if r < e {
                lemma_basic_div(r, e);
                assert(r * f < unit) by (nonlinear_arith)
                    requires
                        0 <= r < e,
                        f > 0,
                        unit == f * e,
                ;
            } else {
                assert(r / e > 0) by {
                    vstd::arithmetic::div_mod::lemma_div_non_zero(r, e);
                }
                assert(r * f >= unit) by (nonlinear_arith)
                    requires
                        r >= e,
                        f > 0,
                        e > 0,
                        unit == f * e,
                ;
            }
            assert(whole <==> r * f < unit);
            assert(shown == exact <==> whole);
        }
    }
}

} // verus!
