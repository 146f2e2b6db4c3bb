use calculator::calculator::{CalcError, Calculator, FromStrValue};
use calculator::complex::{Complex, ComplexPow, One, Zero};
use calculator::math::{CommonMath, Format, Inv, Percent, Pow};

/// The real numbers, as the machine has them.
#[derive(Debug, Clone, Copy, PartialEq, PartialOrd)]
struct Real(f64);

impl Zero for Real {
    fn zero() -> Self {
        Real(0f64)
    }
}

impl One for Real {
    fn one() -> Self {
        Real(1f64)
    }
}

impl CommonMath for Real {
    fn add(self, rhs: Self) -> Option<Self> {
        Some(Real(self.0 + rhs.0))
    }

    fn sub(self, rhs: Self) -> Option<Self> {
        Some(Real(self.0 - rhs.0))
    }

    fn mul(self, rhs: Self) -> Option<Self> {
        Some(Real(self.0 * rhs.0))
    }

    fn div(self, rhs: Self) -> Option<Self> {
        Some(Real(self.0 / rhs.0))
    }
}

impl Percent for Real {
    fn hundred() -> Self {
        Real(100f64)
    }

    fn percent(self) -> Option<Self> {
        Some(Real(self.0 / 100f64))
    }
}

impl FromStrValue for Real {
    fn from_str(s: &str) -> Option<Self> {
        match s {
            "tau" => Some(Real(std::f64::consts::TAU)),
            "pi" => Some(Real(std::f64::consts::PI)),
            "e" => Some(Real(std::f64::consts::E)),
            _ => s.parse().ok().map(Real),
        }
    }
}

impl ComplexPow for Real {
    fn complex_pow(base: Complex<Self>, exponent: Complex<Self>) -> Option<Complex<Self>> {
        let base = num::Complex { re: base.real.0, im: base.imaginary.0 };
        let exponent = num::Complex { re: exponent.real.0, im: exponent.imaginary.0 };
        let power = num::traits::Pow::pow(base, exponent);
        Some(Complex::new(Real(power.re), Real(power.im)))
    }
}

impl Format for Real {
    fn format(&self) -> String {
        format!("{}", self.0)
    }
}

fn complex(re: f64, im: f64) -> Complex<Real> {
    Complex::new(Real(re), Real(im))
}

#[test]
fn zero() {
    let complex = <Complex<Real> as Zero>::zero();
    assert_eq!((Real(0f64), Real(0f64)), (complex.real, complex.imaginary));
    assert!(!complex.has_real());
    assert!(!complex.has_imaginary());
}

#[test]
fn one_real() {
    let complex = Complex::new(Real(1f64), Real(0f64));
    assert_eq!((Real(1f64), Real(0f64)), (complex.real, complex.imaginary));
    assert!(complex.has_real());
    assert!(!complex.has_imaginary());
}

#[test]
fn one_imaginary() {
    let complex = Complex::new(Real(0f64), Real(1f64));
    assert_eq!((Real(0f64), Real(1f64)), (complex.real, complex.imaginary));
    assert!(!complex.has_real());
    assert!(complex.has_imaginary());
}

#[test]
fn on_the_real_axis() {
    assert_eq!(complex(7f64, 0f64), Complex::from_real(Real(7f64)));
    assert_eq!(Complex::new(7, 0), Complex::from_real(7));
}

#[test]
fn the_imaginary_unit() {
    assert_eq!(Ok(complex(0f64, 1f64)), Calculator {}.calculate("i"));
    assert_eq!(
        Some(complex(0f64, 1f64)),
        <Complex<Real> as FromStrValue>::from_str("i")
    );
    assert_eq!(
        Some(complex(2.5, 0f64)),
        <Complex<Real> as FromStrValue>::from_str("2.5")
    );
    assert_eq!(None, <Complex<Real> as FromStrValue>::from_str("1+2i"));
    assert_eq!(None, <Complex<Real> as FromStrValue>::from_str("2i"));
    assert_eq!(
        Some(Complex::new(0, 1)),
        <Complex<i32> as FromStrValue>::from_str("i")
    );
}

#[test]
fn literals_combine_by_operators() {
    let calculator = Calculator {};
    assert_eq!(Ok(complex(1f64, 2f64)), calculator.calculate("1+2*i"));
    assert_eq!(Ok(complex(1f64, 2f64)), calculator.calculate("1+2(i)"));
    assert_eq!(Ok(complex(-1f64, 0f64)), calculator.calculate("i*i"));
    assert_eq!(
        Err(CalcError::ParseError("2pi".to_string())),
        calculator.calculate::<Complex<Real>>("2pi")
    );
    assert_eq!(
        Ok(complex(std::f64::consts::TAU, 0f64)),
        calculator.calculate("2(pi)")
    );
    assert_eq!(Ok(complex(0.95, 0f64)), calculator.calculate("95%"));
}

#[test]
fn sum_and_difference_go_by_components() {
    assert_eq!(Some(complex(4f64, 6f64)), complex(1f64, 2f64).add(complex(3f64, 4f64)));
    assert_eq!(Some(complex(-2f64, 3f64)), complex(1f64, 5f64).sub(complex(3f64, 2f64)));
    assert_eq!(None, Complex::new(i32::MAX, 0).add(Complex::new(1, 0)));
    assert_eq!(None, Complex::new(0, i32::MIN).sub(Complex::new(0, 1)));
}

#[test]
fn complex_product() {
    let a = Complex::new(Real(1f64), Real(2f64));
    let b = Complex::new(Real(3f64), Real(4f64));
    assert_eq!(Some(Complex::new(Real(-5f64), Real(10f64))), a.mul(b));
    assert_eq!(Some(Complex::new(-5, 10)), Complex::new(1, 2).mul(Complex::new(3, 4)));
}

#[test]
fn complex_quotient() {
    // (-5 + 10i) / (3 + 4i) = 1 + 2i
    assert_eq!(
        Some(complex(1f64, 2f64)),
        complex(-5f64, 10f64).div(complex(3f64, 4f64))
    );
    assert_eq!(Some(Complex::new(1, 2)), Complex::new(-5, 10).div(Complex::new(3, 4)));
    assert_eq!(None, Complex::new(1, 1).div(Complex::new(0, 0)));
}

#[test]
fn complex_reciprocal_and_percent() {
    assert_eq!(Some(complex(0f64, -1f64)), complex(0f64, 1f64).inv());
    assert_eq!(Some(complex(0.5, 0f64)), complex(2f64, 0f64).inv());
    assert_eq!(Some(complex(0.5, 0.25)), complex(50f64, 25f64).percent());
    assert_eq!(complex(100f64, 0f64), <Complex<Real> as Percent>::hundred());
}

#[test]
fn complex_power_comes_from_the_components() {
    let square = complex(0f64, 1f64).pow(complex(2f64, 0f64));
    match square {
        Some(value) => {
            assert!((value.real.0 + 1f64).abs() < 1e-12);
            assert!(value.imaginary.0.abs() < 1e-12);
        }
        None => panic!("no power"),
    }
    assert_eq!(None, Complex::new(1, 1).pow(Complex::new(2, 0)));
}

#[test]
fn complex_numbers_are_written() {
    assert_eq!("0", complex(0f64, 0f64).format());
    assert_eq!("3", complex(3f64, 0f64).format());
    assert_eq!("2i", complex(0f64, 2f64).format());
    assert_eq!("-2i", complex(0f64, -2f64).format());
    assert_eq!("i", complex(0f64, 1f64).format());
    assert_eq!("-i", complex(0f64, -1f64).format());
    assert_eq!("3 + 2i", complex(3f64, 2f64).format());
    assert_eq!("3 -2i", complex(3f64, -2f64).format());
    assert_eq!("3 + i", complex(3f64, 1f64).format());
    assert_eq!("3 -i", complex(3f64, -1f64).format());
    assert_eq!("1.5 + 0.5i", complex(1.5, 0.5).format());
    assert_eq!("-3 -2i", Complex::new(-3, -2).format());
    assert_eq!("0", Complex::new(0, 0).format());
    assert_eq!("-i", Complex::new(0, -1).format());
    assert_eq!("7 + i", Complex::new(7, 1).format());
}

#[test]
fn integer_sum_overflows() {
    assert_eq!(None, i32::MAX.add(1));
    assert_eq!(Some(3), 1i32.add(2));
}
