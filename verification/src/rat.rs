use vstd::prelude::*;

verus! {

/// An exact rational number: the numeric value held by the floating
/// registers and by the PID state.  Script literals are decimal, so every
/// value a script can write down is represented exactly; arithmetic either
/// returns the exact result or reports that it does not fit.
#[derive(Clone, Copy, PartialEq, Eq, Structural, Debug)]
pub struct Rat {
    /// Numerator.
    pub num: i64,
    /// Denominator; well-formed values keep it positive.
    pub den: i64,
}

/// Does a mathematical integer fit in an `i64`?
pub open spec fn fits_i64(x: int) -> bool {
    i64::MIN <= x <= i64::MAX
}

impl Rat {
    /// Numerator, as a mathematical integer.
    pub open spec fn n(self) -> int {
        self.num as int
    }

    /// Denominator, as a mathematical integer.
    pub open spec fn d(self) -> int {
        self.den as int
    }

    /// A well-formed rational keeps its denominator positive.
    pub open spec fn wf(self) -> bool {
        self.d() > 0
    }

    /// Do two rationals denote the same value?
    pub open spec fn same(self, other: Rat) -> bool {
        self.n() * other.d() == other.n() * self.d()
    }

    /// The exact sum, when its numerator and denominator fit.
    pub open spec fn add_spec(a: Rat, b: Rat) -> Option<Rat> {
        let n = a.n() * b.d() + b.n() * a.d();
        let d = a.d() * b.d();
        if fits_i64(n) && fits_i64(d) {
            Some(Rat { num: n as i64, den: d as i64 })
        } else {
            None
        }
    }

    /// The exact difference, when it fits.
    pub open spec fn sub_spec(a: Rat, b: Rat) -> Option<Rat> {
        let n = a.n() * b.d() - b.n() * a.d();
        let d = a.d() * b.d();
        if fits_i64(n) && fits_i64(d) {
            Some(Rat { num: n as i64, den: d as i64 })
        } else {
            None
        }
    }

    /// The exact product, when it fits.
    pub open spec fn mul_spec(a: Rat, b: Rat) -> Option<Rat> {
        let n = a.n() * b.n();
        let d = a.d() * b.d();
        if fits_i64(n) && fits_i64(d) {
            Some(Rat { num: n as i64, den: d as i64 })
        } else {
            None
        }
    }

    /// The exact reciprocal: the sign moves to the numerator.  It exists
    /// unless the value is zero or its negated numerator does not fit.
    pub open spec fn recip_spec(a: Rat) -> Option<Rat> {
        if a.n() > 0 {
            Some(Rat { num: a.den, den: a.num })
        } else if a.n() < 0 && fits_i64(-a.n()) {
            Some(Rat { num: (-a.d()) as i64, den: (-a.n()) as i64 })
        } else {
            None
        }
    }

    /// The negated value, when it fits.
    pub open spec fn neg_spec(a: Rat) -> Option<Rat> {
        if fits_i64(-a.n()) {
            Some(Rat { num: (-a.n()) as i64, den: a.den })
        } else {
            None
        }
    }

    /// Strict order on values (for well-formed operands).
    pub open spec fn lt_spec(a: Rat, b: Rat) -> bool {
        a.n() * b.d() < b.n() * a.d()
    }

    /// The value truncated toward zero and saturated into `u32`:
    /// negative values give 0, values above `u32::MAX` give `u32::MAX`.
    pub open spec fn trunc_spec(a: Rat) -> u32 {
        if a.n() < 0 {
            0u32
        } else if a.n() / a.d() > u32::MAX {
            u32::MAX
        } else {
            (a.n() / a.d()) as u32
        }
    }

    /// The integer `v`, as a rational.
    pub fn from_u32(v: u32) -> (r: Rat)
        ensures
            r.wf(),
            r.n() == v as int,
            r.d() == 1,
    {
        Rat { num: v as i64, den: 1 }
    }

    /// The rational `num / den`.
    pub fn new(num: i64, den: i64) -> (r: Rat)
        requires
            den > 0,
        ensures
            r.wf(),
            r.n() == num as int,
            r.d() == den as int,
    {
        Rat { num, den }
    }

    /// Zero.
    pub fn zero() -> (r: Rat)
        ensures
            r.wf(),
            r.n() == 0,
            r.d() == 1,
    {
        Rat { num: 0, den: 1 }
    }

    /// Is the value zero?
    pub fn is_zero(&self) -> (r: bool)
        requires
            self.wf(),
        ensures
            r == (self.n() == 0),
    {
        self.num == 0
    }

    /// Exact addition; `None` when the result does not fit.
    pub fn checked_add(self, other: Rat) -> (r: Option<Rat>)
        requires
            self.wf(),
            other.wf(),
        ensures
            r == Rat::add_spec(self, other),
            r is Some ==> r->0.wf(),
    {
        proof {
            lemma_i64_mul_den_fits(self.num as int, other.den as int);
            lemma_i64_mul_den_fits(other.num as int, self.den as int);
            lemma_i64_mul_fits(self.den as int, other.den as int);
            lemma_mul_pos(self.den as int, other.den as int);
        }
        let n: i128 = (self.num as i128) * (other.den as i128) + (other.num as i128) * (self.den as i128);
        let d: i128 = (self.den as i128) * (other.den as i128);
        if n < i64::MIN as i128 || n > i64::MAX as i128 || d > i64::MAX as i128 {
            None
        } else {
            Some(Rat { num: n as i64, den: d as i64 })
        }
    }

    /// Exact subtraction; `None` when the result does not fit.
    pub fn checked_sub(self, other: Rat) -> (r: Option<Rat>)
        requires
            self.wf(),
            other.wf(),
        ensures
            r == Rat::sub_spec(self, other),
            r is Some ==> r->0.wf(),
    {
        proof {
            lemma_i64_mul_den_fits(self.num as int, other.den as int);
            lemma_i64_mul_den_fits(other.num as int, self.den as int);
            lemma_i64_mul_fits(self.den as int, other.den as int);
            lemma_mul_pos(self.den as int, other.den as int);
        }
        let n: i128 = (self.num as i128) * (other.den as i128) - (other.num as i128) * (self.den as i128);
        let d: i128 = (self.den as i128) * (other.den as i128);
        if n < i64::MIN as i128 || n > i64::MAX as i128 || d > i64::MAX as i128 {
            None
        } else {
            Some(Rat { num: n as i64, den: d as i64 })
        }
    }

    /// Exact multiplication; `None` when the result does not fit.
    pub fn checked_mul(self, other: Rat) -> (r: Option<Rat>)
        requires
            self.wf(),
            other.wf(),
        ensures
            r == Rat::mul_spec(self, other),
            r is Some ==> r->0.wf(),
    {
        proof {
            lemma_i64_mul_fits(self.num as int, other.num as int);
            lemma_i64_mul_fits(self.den as int, other.den as int);
            lemma_mul_pos(self.den as int, other.den as int);
        }
        let n: i128 = (self.num as i128) * (other.num as i128);
        let d: i128 = (self.den as i128) * (other.den as i128);
        if n < i64::MIN as i128 || n > i64::MAX as i128 || d > i64::MAX as i128 {
            None
        } else {
            Some(Rat { num: n as i64, den: d as i64 })
        }
    }

    /// Exact reciprocal; `None` for zero, or when the result does not fit.
    pub fn checked_recip(self) -> (r: Option<Rat>)
        requires
            self.wf(),
        ensures
            r == Rat::recip_spec(self),
            r is Some ==> r->0.wf(),
    {
        if self.num > 0 {
            Some(Rat { num: self.den, den: self.num })
        } else if self.num < 0 && self.num > i64::MIN {
            Some(Rat { num: -self.den, den: -self.num })
        } else {
            None
        }
    }

    /// Exact negation; `None` when the result does not fit.
    pub fn checked_neg(self) -> (r: Option<Rat>)
        requires
            self.wf(),
        ensures
            r == Rat::neg_spec(self),
            r is Some ==> r->0.wf(),
    {
        if self.num > i64::MIN {
            Some(Rat { num: -self.num, den: self.den })
        } else {
            None
        }
    }

    /// Strict order on values.
    pub fn lt(self, other: Rat) -> (r: bool)
        requires
            self.wf(),
            other.wf(),
        ensures
            r == Rat::lt_spec(self, other),
    {
        proof {
            lemma_i64_mul_fits(self.num as int, other.den as int);
            lemma_i64_mul_fits(other.num as int, self.den as int);
        }
        (self.num as i128) * (other.den as i128) < (other.num as i128) * (self.den as i128)
    }

    /// Truncation toward zero, saturated into `u32`.
    pub fn trunc_u32(self) -> (r: u32)
        requires
            self.wf(),
        ensures
            r == Rat::trunc_spec(self),
    {
        if self.num < 0 {
            0
        } else {
            let q: u64 = (self.num as u64) / (self.den as u64);
            if q > u32::MAX as u64 {
                u32::MAX
            } else {
                q as u32
            }
        }
    }
}

/// The product of two `i64`-bounded integers stays far inside `i128`.
proof fn lemma_i64_mul_fits(a: int, b: int)
    requires
        i64::MIN <= a <= i64::MAX,
        i64::MIN <= b <= i64::MAX,
    ensures
        -0x4000_0000_0000_0000_0000_0000_0000_0000 <= a * b
            <= 0x4000_0000_0000_0000_0000_0000_0000_0000,
{
    assert(-0x4000_0000_0000_0000_0000_0000_0000_0000 <= a * b
        <= 0x4000_0000_0000_0000_0000_0000_0000_0000) by (nonlinear_arith)
        requires
            -0x8000_0000_0000_0000 <= a <= 0x7fff_ffff_ffff_ffff,
            -0x8000_0000_0000_0000 <= b <= 0x7fff_ffff_ffff_ffff,
    ;
}

/// The product of an `i64`-bounded integer and a positive `i64`-bounded
/// integer leaves room to add a second such product inside `i128`.
proof fn lemma_i64_mul_den_fits(a: int, b: int)
    requires
        i64::MIN <= a <= i64::MAX,
        1 <= b <= i64::MAX,
    ensures
        -0x3fff_ffff_ffff_ffff_8000_0000_0000_0000 <= a * b
            <= 0x3fff_ffff_ffff_ffff_8000_0000_0000_0000,
{
    assert(-0x3fff_ffff_ffff_ffff_8000_0000_0000_0000 <= a * b
        <= 0x3fff_ffff_ffff_ffff_8000_0000_0000_0000) by (nonlinear_arith)
        requires
            -0x8000_0000_0000_0000 <= a <= 0x7fff_ffff_ffff_ffff,
            1 <= b <= 0x7fff_ffff_ffff_ffff,
    ;
}

/// The product of two positive integers is positive.
proof fn lemma_mul_pos(a: int, b: int)
    requires
        a > 0,
        b > 0,
    ensures
        a * b > 0,
{
    assert(a * b > 0) by (nonlinear_arith)
        requires
            a > 0,
            b > 0,
    ;
}

} // verus!
