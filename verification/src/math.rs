//! The arithmetic that a numeric domain offers to the evaluator, and the
//! integer domain.
//!
//! Every operation returns `None` where the domain has no value for the
//! result, so that the evaluator can report the failure instead of aborting.
//!
//! Each trait names, beside an operation, the function that the contracts
//! use for its result. An implementation that is verified states that
//! function; one that is not may leave it out, and nothing is then known of
//! its results.
use crate::text::string_push;
use vstd::prelude::*;

verus! {

/// The four closed binary operations of a domain.
pub trait CommonMath: Sized {
    /// The sum, or `None` where the domain cannot hold it.
    open spec fn add_spec(self, rhs: Self) -> Option<Self> {
        arbitrary()
    }

    /// The difference, or `None` where the domain cannot hold it.
    open spec fn sub_spec(self, rhs: Self) -> Option<Self> {
        arbitrary()
    }

    /// The product, or `None` where the domain cannot hold it.
    open spec fn mul_spec(self, rhs: Self) -> Option<Self> {
        arbitrary()
    }

    /// The quotient, or `None` where the domain has none.
    open spec fn div_spec(self, rhs: Self) -> Option<Self> {
        arbitrary()
    }

    fn add(self, rhs: Self) -> (r: Option<Self>)
        ensures
            r == self.add_spec(rhs),
    ;

    fn sub(self, rhs: Self) -> (r: Option<Self>)
        ensures
            r == self.sub_spec(rhs),
    ;

    fn mul(self, rhs: Self) -> (r: Option<Self>)
        ensures
            r == self.mul_spec(rhs),
    ;

    fn div(self, rhs: Self) -> (r: Option<Self>)
        ensures
            r == self.div_spec(rhs),
    ;
}

/// The reciprocal.
pub trait Inv: Sized {
    /// The reciprocal, or `None` where the domain has none.
    open spec fn inv_spec(self) -> Option<Self> {
        arbitrary()
    }

    fn inv(self) -> (r: Option<Self>)
        ensures
            r == self.inv_spec(),
    ;
}

/// Exponentiation: `self` raised to the power `rhs`.
pub trait Pow: Sized {
    /// The power, or `None` where the domain has none.
    open spec fn pow_spec(self, rhs: Self) -> Option<Self> {
        arbitrary()
    }

    fn pow(self, rhs: Self) -> (r: Option<Self>)
        ensures
            r == self.pow_spec(rhs),
    ;
}

/// Division by one hundred, and the hundred itself.
pub trait Percent: Sized {
    open spec fn hundred_spec() -> Self {
        arbitrary()
    }

    /// The hundredth part, or `None` where the domain has none.
    open spec fn percent_spec(self) -> Option<Self> {
        arbitrary()
    }

    /// The domain's constant 100.
    fn hundred() -> (r: Self)
        ensures
            r == Self::hundred_spec(),
    ;

    fn percent(self) -> (r: Option<Self>)
        ensures
            r == self.percent_spec(),
    ;
}

/// The `self`-th root of `rhs`. It is never implemented on its own: it is
/// `rhs` raised to the reciprocal of `self`, for every type with both.
pub trait Root: Sized {
    spec fn root_spec(self, rhs: Self) -> Option<Self>;

    /// Find the `self` root of `rhs`.
    fn root(self, rhs: Self) -> (r: Option<Self>)
        ensures
            r == self.root_spec(rhs),
    ;
}

impl<T: Pow + Inv> Root for T {
    open spec fn root_spec(self, rhs: Self) -> Option<Self> {
        match self.inv_spec() {
            Some(exponent) => rhs.pow_spec(exponent),
            None => None,
        }
    }

    fn root(self, rhs: Self) -> (r: Option<Self>) {
        match self.inv() {
            Some(exponent) => rhs.pow(exponent),
            None => None,
        }
    }
}

/// Everything the evaluator asks of a numeric domain.
pub trait Math: CommonMath + Pow + Root + Percent {
}

impl<T: CommonMath + Pow + Root + Percent> Math for T {
}

/// Whether `v` is the value of some `i32`.
pub open spec fn fits_i32(v: int) -> bool {
    i32::MIN <= v <= i32::MAX
}

/// `v` as an `i32`, where it is one.
pub open spec fn checked_i32(v: int) -> Option<i32> {
    if fits_i32(v) {
        Some(v as i32)
    } else {
        None
    }
}

/// The quotient of `a` by `b` rounded towards zero, for `b != 0`.
pub open spec fn truncated_quotient(a: int, b: int) -> int {
    if a >= 0 && b > 0 {
        a / b
    } else if a >= 0 {
        -(a / (-b))
    } else if b > 0 {
        -((-a) / b)
    } else {
        (-a) / (-b)
    }
}

/// `b` multiplied by itself `e` times.
pub open spec fn int_pow(b: int, e: nat) -> int
    decreases e,
{
    if e == 0 {
        1
    } else {
        b * int_pow(b, (e - 1) as nat)
    }
}

/// The magnitude of `v`.
pub open spec fn abs(v: int) -> int {
    if v < 0 {
        -v
    } else {
        v
    }
}

/// The magnitude of a product is the product of the magnitudes.
proof fn lemma_abs_mul(a: int, b: int)
    ensures
        abs(a * b) == abs(a) * abs(b),
{
    assert(abs(a * b) == abs(a) * abs(b)) by (nonlinear_arith);
}

/// Powers of a base of magnitude two or more grow in magnitude.
proof fn lemma_int_pow_grows(b: int, i: nat, j: nat)
    requires
        abs(b) >= 2,
        i < j,
    ensures
        abs(int_pow(b, i)) >= 1,
        abs(int_pow(b, j)) >= 2 * abs(int_pow(b, i)),
    decreases j,
{
    lemma_int_pow_positive(b, i);
    let p = int_pow(b, (j - 1) as nat);
    lemma_abs_mul(b, p);
    if j - 1 == i {
        assert(abs(b) * abs(p) >= 2 * abs(p)) by (nonlinear_arith)
            requires
                abs(b) >= 2,
                abs(p) >= 0,
        ;
    } else {
        lemma_int_pow_grows(b, i, (j - 1) as nat);
        assert(abs(b) * abs(p) >= 2 * abs(p)) by (nonlinear_arith)
            requires
                abs(b) >= 2,
                abs(p) >= 0,
        ;
    }
}

/// No power of a base of magnitude two or more is zero.
proof fn lemma_int_pow_positive(b: int, i: nat)
    requires
        abs(b) >= 2,
    ensures
        abs(int_pow(b, i)) >= 1,
    decreases i,
{
    if i > 0 {
        let p = int_pow(b, (i - 1) as nat);
        lemma_int_pow_positive(b, (i - 1) as nat);
        lemma_abs_mul(b, p);
        assert(abs(b) * abs(p) >= 1) by (nonlinear_arith)
            requires
                abs(b) >= 2,
                abs(p) >= 1,
        ;
    }
}

/// The powers of zero.
proof fn lemma_int_pow_zero(e: nat)
    ensures
        int_pow(0, e) == if e == 0 {
            1int
        } else {
            0int
        },
{
}

/// The powers of one.
proof fn lemma_int_pow_one(e: nat)
    ensures
        int_pow(1, e) == 1,
    decreases e,
{
    if e > 0 {
        lemma_int_pow_one((e - 1) as nat);
    }
}

/// The powers of minus one.
proof fn lemma_int_pow_minus_one(e: nat)
    ensures
        int_pow(-1, e) == if e % 2 == 0 {
            1int
        } else {
            -1int
        },
    decreases e,
{
    if e > 0 {
        lemma_int_pow_minus_one((e - 1) as nat);
    }
}

impl CommonMath for i32 {
    /// The sum, where it is an `i32`.
    open spec fn add_spec(self, rhs: Self) -> Option<Self> {
        checked_i32(self + rhs)
    }

    /// The difference, where it is an `i32`.
    open spec fn sub_spec(self, rhs: Self) -> Option<Self> {
        checked_i32(self - rhs)
    }

    /// The product, where it is an `i32`.
    open spec fn mul_spec(self, rhs: Self) -> Option<Self> {
        checked_i32(self * rhs)
    }

    /// The quotient rounded towards zero, where the divisor is not zero and
    /// the quotient is an `i32`.
    open spec fn div_spec(self, rhs: Self) -> Option<Self> {
        if rhs == 0 {
            None
        } else {
            checked_i32(truncated_quotient(self as int, rhs as int))
        }
    }

    fn add(self, rhs: Self) -> (r: Option<Self>) {
        self.checked_add(rhs)
    }

    fn sub(self, rhs: Self) -> (r: Option<Self>) {
        self.checked_sub(rhs)
    }

    fn mul(self, rhs: Self) -> (r: Option<Self>) {
        self.checked_mul(rhs)
    }

    fn div(self, rhs: Self) -> (r: Option<Self>) {
        self.checked_div(rhs)
    }
}

impl Inv for i32 {
    /// No integer but 1 and -1 has an integral reciprocal: the integer
    /// domain offers none.
    open spec fn inv_spec(self) -> Option<Self> {
        None
    }

    fn inv(self) -> (r: Option<Self>) {
        None
    }
}

impl Pow for i32 {
    /// `self` to the power `rhs`, where `rhs` is not negative and the power
    /// is an `i32`.
    open spec fn pow_spec(self, rhs: Self) -> Option<Self> {
        if rhs < 0 {
            None
        } else {
            checked_i32(int_pow(self as int, rhs as nat))
        }
    }

    fn pow(self, rhs: Self) -> (r: Option<Self>) {
        if rhs < 0 {
            return None;
        }
        if self == 0 {
            proof {
                lemma_int_pow_zero(rhs as nat);
            }
            return Some(if rhs == 0 { 1 } else { 0 });
        }
        if self == 1 {
            proof {
                lemma_int_pow_one(rhs as nat);
            }
            return Some(1);
        }
        if self == -1 {
            proof {
                lemma_int_pow_minus_one(rhs as nat);
            }
            return Some(if rhs % 2 == 0 { 1 } else { -1 });
        }
        let mut power: i32 = 1;
        let mut done: i32 = 0;
        while done < rhs
            invariant
                0 <= done <= rhs,
                abs(self as int) >= 2,
                power == int_pow(self as int, done as nat),
            decreases rhs - done,
        {
            match power.checked_mul(self) {
                Some(next) => {
                    power = next;
                },
                None => {
                    proof {
                        let next = int_pow(self as int, (done + 1) as nat);
                        assert(next == self * power);
                        if done + 1 < rhs {
                            lemma_int_pow_grows(self as int, (done + 1) as nat, rhs as nat);
                        }
                    }
                    return None;
                },
            }
            done = done + 1;
        }
        Some(power)
    }
}

impl Percent for i32 {
    open spec fn hundred_spec() -> Self {
        100
    }

    /// The hundredth part, rounded towards zero.
    open spec fn percent_spec(self) -> Option<Self> {
        Some(truncated_quotient(self as int, 100) as i32)
    }

    fn hundred() -> (r: Self) {
        100
    }

    fn percent(self) -> (r: Option<Self>) {
        Some(self / 100)
    }
}

/// The text that a value is written as.
pub trait Format {
    /// Whether `format` writes what `format_spec` says.
    open spec fn obeys_format_spec() -> bool {
        arbitrary()
    }

    open spec fn format_spec(&self) -> Seq<char> {
        arbitrary()
    }

    fn format(&self) -> (r: String)
        ensures
            Self::obeys_format_spec() ==> r@ == self.format_spec(),
    ;
}

/// The character of the decimal digit `d`.
pub open spec fn digit_char(d: int) -> char {
    if d == 0 {
        '0'
    } else if d == 1 {
        '1'
    } else if d == 2 {
        '2'
    } else if d == 3 {
        '3'
    } else if d == 4 {
        '4'
    } else if d == 5 {
        '5'
    } else if d == 6 {
        '6'
    } else if d == 7 {
        '7'
    } else if d == 8 {
        '8'
    } else {
        '9'
    }
}

/// The digits of `n` in base ten, without leading zeros.
pub open spec fn nat_text(n: nat) -> Seq<char>
    decreases n,
{
    if n < 10 {
        seq![digit_char(n as int)]
    } else {
        nat_text(n / 10).push(digit_char((n % 10) as int))
    }
}

/// The integer `v` in base ten, with a minus sign where it is negative.
pub open spec fn int_text(v: int) -> Seq<char> {
    if v < 0 {
        seq!['-'] + nat_text((-v) as nat)
    } else {
        nat_text(v as nat)
    }
}

/// The character of the decimal digit `d`.
fn digit(d: u32) -> (c: char)
    requires
        d < 10,
    ensures
        c == digit_char(d as int),
{
    if d == 0 {
        '0'
    } else if d == 1 {
        '1'
    } else if d == 2 {
        '2'
    } else if d == 3 {
        '3'
    } else if d == 4 {
        '4'
    } else if d == 5 {
        '5'
    } else if d == 6 {
        '6'
    } else if d == 7 {
        '7'
    } else if d == 8 {
        '8'
    } else {
        '9'
    }
}

impl Format for i32 {
    open spec fn obeys_format_spec() -> bool {
        true
    }

    /// In base ten, with a minus sign where it is negative.
    open spec fn format_spec(&self) -> Seq<char> {
        int_text(*self as int)
    }

    fn format(&self) -> (r: String) {
        let negative = *self < 0;
        let magnitude: u32 = if negative {
            (-(*self as i64)) as u32
        } else {
            *self as u32
        };
        // The digits, the last first.
        let mut digits: Vec<char> = Vec::new();
        let mut rest: u32 = magnitude;
        loop
            invariant_except_break
                nat_text(magnitude as nat) == nat_text(rest as nat) + digits@.reverse(),
            ensures
                nat_text(magnitude as nat) == digits@.reverse(),
                digits@.len() > 0,
            decreases rest,
        {
            if rest < 10 {
                digits.push(digit(rest));
                break ;
            }
            digits.push(digit(rest % 10));
            rest = rest / 10;
        }
        let mut r = String::new();
        if negative {
            string_push(&mut r, '-');
        }
        let ghost sign = r@;
        let mut left: usize = digits.len();
        while left > 0
            invariant
                left <= digits.len(),
                r@ == sign + digits@.reverse().take(digits.len() - left),
            decreases left,
        {
            left = left - 1;
            string_push(&mut r, digits[left]);
        }
        r
    }
}

} // verus!
