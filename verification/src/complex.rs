//! Complex numbers over any component type that offers the arithmetic.
use crate::calculator::FromStrValue;
use crate::math::{CommonMath, Format, Inv, Percent, Pow};
use vstd::prelude::*;
use vstd::std_specs::cmp::{PartialEqSpec, PartialOrdIs, PartialOrdSpec};

verus! {

/// The additive identity of a type.
pub trait Zero: Sized {
    open spec fn zero_spec() -> Self {
        arbitrary()
    }

    fn zero() -> (r: Self)
        ensures
            r == Self::zero_spec(),
    ;
}

/// The multiplicative identity of a type.
pub trait One: Sized {
    open spec fn one_spec() -> Self {
        arbitrary()
    }

    fn one() -> (r: Self)
        ensures
            r == Self::one_spec(),
    ;
}

impl Zero for i32 {
    open spec fn zero_spec() -> Self {
        0
    }

    fn zero() -> (r: Self) {
        0
    }
}

impl One for i32 {
    open spec fn one_spec() -> Self {
        1
    }

    fn one() -> (r: Self) {
        1
    }
}

/// A complex power, for the component type that can compute one.
pub trait ComplexPow: Sized {
    /// `base` raised to the power `exponent`, or `None` where the component
    /// type has no such power.
    open spec fn complex_pow_spec(base: Complex<Self>, exponent: Complex<Self>) -> Option<
        Complex<Self>,
    > {
        arbitrary()
    }

    fn complex_pow(base: Complex<Self>, exponent: Complex<Self>) -> (r: Option<Complex<Self>>)
        ensures
            r == Self::complex_pow_spec(base, exponent),
    ;
}

impl ComplexPow for i32 {
    /// A power of a complex number needs logarithms and trigonometry, which
    /// integers do not have.
    open spec fn complex_pow_spec(base: Complex<Self>, exponent: Complex<Self>) -> Option<
        Complex<Self>,
    > {
        None
    }

    fn complex_pow(base: Complex<Self>, exponent: Complex<Self>) -> (r: Option<Complex<Self>>) {
        None
    }
}

/// The number `real + imaginary * i`.
#[derive(Debug, Clone, Copy, PartialEq)]
pub struct Complex<T> {
    pub real: T,
    pub imaginary: T,
}

/// The sum of two results, where both are there.
pub open spec fn add_opt<T: CommonMath>(a: Option<T>, b: Option<T>) -> Option<T> {
    match (a, b) {
        (Some(x), Some(y)) => x.add_spec(y),
        _ => None,
    }
}

/// The difference of two results, where both are there.
pub open spec fn sub_opt<T: CommonMath>(a: Option<T>, b: Option<T>) -> Option<T> {
    match (a, b) {
        (Some(x), Some(y)) => x.sub_spec(y),
        _ => None,
    }
}

/// The quotient of two results, where both are there.
pub open spec fn div_opt<T: CommonMath>(a: Option<T>, b: Option<T>) -> Option<T> {
    match (a, b) {
        (Some(x), Some(y)) => x.div_spec(y),
        _ => None,
    }
}

/// The complex number of two components, where both are there.
pub open spec fn complex_opt<T>(re: Option<T>, im: Option<T>) -> Option<Complex<T>> {
    match (re, im) {
        (Some(re), Some(im)) => Some(Complex { real: re, imaginary: im }),
        _ => None,
    }
}

impl<T> Complex<T> {
    /// The number `re + im * i`.
    pub fn new(re: T, im: T) -> (r: Self)
        ensures
            r.real == re,
            r.imaginary == im,
    {
        Self { real: re, imaginary: im }
    }

    /// The complex number on the real axis at `re`.
    pub fn from_real(re: T) -> (r: Self) where T: Zero
        ensures
            r.real == re,
            r.imaginary == T::zero_spec(),
    {
        Self { real: re, imaginary: T::zero() }
    }
}

impl<T: Zero + PartialEq> Complex<T> {
    /// Whether the real part differs from zero.
    pub fn has_real(&self) -> (r: bool)
        ensures
            T::obeys_eq_spec() ==> r == !T::zero_spec().eq_spec(&self.real),
    {
        T::zero() != self.real
    }

    /// Whether the imaginary part differs from zero.
    pub fn has_imaginary(&self) -> (r: bool)
        ensures
            T::obeys_eq_spec() ==> r == !T::zero_spec().eq_spec(&self.imaginary),
    {
        T::zero() != self.imaginary
    }
}

impl<T: Zero> Zero for Complex<T> {
    open spec fn zero_spec() -> Self {
        Complex { real: T::zero_spec(), imaginary: T::zero_spec() }
    }

    fn zero() -> (r: Self) {
        Self { real: T::zero(), imaginary: T::zero() }
    }
}

impl<T: CommonMath + Copy> CommonMath for Complex<T> {
    /// Component by component.
    open spec fn add_spec(self, rhs: Self) -> Option<Self> {
        complex_opt(self.real.add_spec(rhs.real), self.imaginary.add_spec(rhs.imaginary))
    }

    /// Component by component.
    open spec fn sub_spec(self, rhs: Self) -> Option<Self> {
        complex_opt(self.real.sub_spec(rhs.real), self.imaginary.sub_spec(rhs.imaginary))
    }

    /// `(a + bi)(c + di) = (ac - bd) + (bc + ad)i`.
    open spec fn mul_spec(self, rhs: Self) -> Option<Self> {
        let a = self.real;
        let b = self.imaginary;
        let c = rhs.real;
        let d = rhs.imaginary;
        complex_opt(
            sub_opt(a.mul_spec(c), b.mul_spec(d)),
            add_opt(b.mul_spec(c), a.mul_spec(d)),
        )
    }

    /// `(a + bi) / (c + di) = (ac + bd) / (c^2 + d^2) + ((bc - ad) / (c^2 + d^2))i`.
    open spec fn div_spec(self, rhs: Self) -> Option<Self> {
        let a = self.real;
        let b = self.imaginary;
        let c = rhs.real;
        let d = rhs.imaginary;
        let c2d2 = add_opt(c.mul_spec(c), d.mul_spec(d));
        complex_opt(
            div_opt(add_opt(a.mul_spec(c), b.mul_spec(d)), c2d2),
            div_opt(sub_opt(b.mul_spec(c), a.mul_spec(d)), c2d2),
        )
    }

    fn add(self, rhs: Self) -> (r: Option<Self>) {
        let re = self.real.add(rhs.real)?;
        let im = self.imaginary.add(rhs.imaginary)?;
        Some(Self { real: re, imaginary: im })
    }

    fn sub(self, rhs: Self) -> (r: Option<Self>) {
        let re = self.real.sub(rhs.real)?;
        let im = self.imaginary.sub(rhs.imaginary)?;
        Some(Self { real: re, imaginary: im })
    }

    fn mul(self, rhs: Self) -> (r: Option<Self>) {
        let a = self.real;
        let b = self.imaginary;
        let c = rhs.real;
        let d = rhs.imaginary;
        let re = a.mul(c)?.sub(b.mul(d)?)?;
        let im = b.mul(c)?.add(a.mul(d)?)?;
        Some(Self { real: re, imaginary: im })
    }

    fn div(self, rhs: Self) -> (r: Option<Self>) {
        let a = self.real;
        let b = self.imaginary;
        let c = rhs.real;
        let d = rhs.imaginary;
        let c2d2 = c.mul(c)?.add(d.mul(d)?)?;
        let re = a.mul(c)?.add(b.mul(d)?)?.div(c2d2)?;
        let im = b.mul(c)?.sub(a.mul(d)?)?.div(c2d2)?;
        Some(Self { real: re, imaginary: im })
    }
}

impl<T: CommonMath + Percent + Zero + Copy> Percent for Complex<T> {
    /// The real number 100.
    open spec fn hundred_spec() -> Self {
        Complex { real: T::hundred_spec(), imaginary: T::zero_spec() }
    }

    /// Division by the real number 100.
    open spec fn percent_spec(self) -> Option<Self> {
        self.div_spec(Self::hundred_spec())
    }

    fn hundred() -> (r: Self) {
        Complex::from_real(T::hundred())
    }

    fn percent(self) -> (r: Option<Self>) {
        self.div(Self::hundred())
    }
}

impl<T: ComplexPow> Pow for Complex<T> {
    open spec fn pow_spec(self, rhs: Self) -> Option<Self> {
        T::complex_pow_spec(self, rhs)
    }

    fn pow(self, rhs: Self) -> (r: Option<Self>) {
        T::complex_pow(self, rhs)
    }
}

impl<T: CommonMath + Zero + One + Copy> Inv for Complex<T> {
    /// The real number 1 divided by `self`.
    open spec fn inv_spec(self) -> Option<Self> {
        Complex { real: T::one_spec(), imaginary: T::zero_spec() }.div_spec(self)
    }

    fn inv(self) -> (r: Option<Self>) {
        Complex::from_real(T::one()).div(self)
    }
}

impl<T: FromStrValue + Zero + One> FromStrValue for Complex<T> {
    /// The text `i` is the imaginary unit. Any other text is read as a
    /// component and stands for the number on the real axis.
    open spec fn from_str_spec(s: Seq<char>) -> Option<Self> {
        if s == seq!['i'] {
            Some(Complex { real: T::zero_spec(), imaginary: T::one_spec() })
        } else {
            match T::from_str_spec(s) {
                Some(re) => Some(Complex { real: re, imaginary: T::zero_spec() }),
                None => None,
            }
        }
    }

    fn from_str(s: &str) -> (r: Option<Self>) {
        if s.unicode_len() == 1 && s.get_char(0) == 'i' {
            assert(s@ == seq!['i']);
            Some(Self { real: T::zero(), imaginary: T::one() })
        } else {
            match T::from_str(s) {
                Some(re) => Some(Self { real: re, imaginary: T::zero() }),
                None => None,
            }
        }
    }
}

/// Whether `v` is one or minus one, which is zero less one.
pub open spec fn is_unit<T: Zero + One + CommonMath + PartialEq>(v: T) -> bool {
    v.eq_spec(&T::one_spec()) || match T::zero_spec().sub_spec(T::one_spec()) {
        Some(minus_one) => v.eq_spec(&minus_one),
        None => false,
    }
}

/// What stands between the real part and the imaginary part.
pub open spec fn joint(has_real: bool, positive: bool, unit: bool) -> Seq<char> {
    if positive {
        if has_real {
            seq![' ', '+', ' ']
        } else {
            Seq::empty()
        }
    } else {
        (if has_real {
            seq![' ']
        } else {
            Seq::empty()
        }) + (if unit {
            seq!['-']
        } else {
            Seq::empty()
        })
    }
}

impl<T: Format + Zero + One + CommonMath + PartialEq + PartialOrd + Copy> Format for Complex<T> {
    open spec fn obeys_format_spec() -> bool {
        T::obeys_eq_spec() && T::obeys_partial_cmp_spec() && T::obeys_format_spec()
    }

    /// The real part is left out where it is zero, and the imaginary part
    /// with its `i` where that is zero; where both are, the text is that of
    /// the real part. A positive imaginary part is joined to a real part by
    /// ` + `, any other by a blank, and then brings its own sign. An imaginary
    /// part of one or minus one is written without its number: `i`, `-i`.
    open spec fn format_spec(&self) -> Seq<char> {
        let has_real = !T::zero_spec().eq_spec(&self.real);
        let has_imaginary = !T::zero_spec().eq_spec(&self.imaginary);
        let unit = is_unit(self.imaginary);
        let positive = self.imaginary.is_gt(&T::zero_spec());
        if has_imaginary {
            (if has_real {
                self.real.format_spec()
            } else {
                Seq::empty()
            }) + joint(has_real, positive, unit) + (if unit {
                Seq::empty()
            } else {
                self.imaginary.format_spec()
            }) + seq!['i']
        } else {
            self.real.format_spec()
        }
    }

    fn format(&self) -> (r: String) {
        proof {
            reveal_strlit(" + ");
            reveal_strlit(" ");
            reveal_strlit("-");
            reveal_strlit("i");
        }
        let has_real = self.has_real();
        let has_imaginary = self.has_imaginary();
        if !has_imaginary {
            return self.real.format();
        }
        let mut text = String::new();
        if has_real {
            text.append(self.real.format().as_str());
        }
        let unit = self.imaginary == T::one() || match T::zero().sub(T::one()) {
            Some(minus_one) => self.imaginary == minus_one,
            None => false,
        };
        if self.imaginary > T::zero() {
            if has_real {
                text.append(" + ");
            }
        } else {
            if has_real {
                text.append(" ");
            }
            if unit {
                text.append("-");
            }
        }
        if !unit {
            text.append(self.imaginary.format().as_str());
        }
        text.append("i");
        text
    }
}

} // verus!
