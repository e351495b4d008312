//! The element type of discrete forms.
use vstd::arithmetic::div_mod::*;
use vstd::arithmetic::mul::*;
use vstd::prelude::*;

verus! {

/// What the operators need of the values a form holds: a commutative ring in
/// which two is invertible, so that halving is exact.
///
/// `valid` singles out the values that obey the laws; every operation yields a
/// valid value, so only values made outside the operations can be invalid.
pub trait Scalar: Sized + Copy {
    spec fn valid(self) -> bool;

    spec fn zero_spec() -> Self;

    spec fn one_spec() -> Self;

    spec fn add_spec(self, rhs: Self) -> Self;

    spec fn sub_spec(self, rhs: Self) -> Self;

    spec fn mul_spec(self, rhs: Self) -> Self;

    spec fn neg_spec(self) -> Self;

    /// The value whose double is `self`.
    spec fn half_spec(self) -> Self;

    fn zero() -> (r: Self)
        ensures
            r == Self::zero_spec(),
    ;

    fn one() -> (r: Self)
        ensures
            r == Self::one_spec(),
    ;

    fn add(self, rhs: Self) -> (r: Self)
        ensures
            r == self.add_spec(rhs),
    ;

    fn sub(self, rhs: Self) -> (r: Self)
        ensures
            r == self.sub_spec(rhs),
    ;

    fn mul(self, rhs: Self) -> (r: Self)
        ensures
            r == self.mul_spec(rhs),
    ;

    fn neg(self) -> (r: Self)
        ensures
            r == self.neg_spec(),
    ;

    fn half(self) -> (r: Self)
        ensures
            r == self.half_spec(),
    ;

    proof fn lemma_closed(a: Self, b: Self)
        ensures
            Self::zero_spec().valid(),
            Self::one_spec().valid(),
            a.add_spec(b).valid(),
            a.sub_spec(b).valid(),
            a.mul_spec(b).valid(),
            a.neg_spec().valid(),
            a.half_spec().valid(),
    ;

    proof fn lemma_add_assoc(a: Self, b: Self, c: Self)
        requires
            a.valid(),
            b.valid(),
            c.valid(),
        ensures
            a.add_spec(b).add_spec(c) == a.add_spec(b.add_spec(c)),
    ;

    proof fn lemma_add_comm(a: Self, b: Self)
        requires
            a.valid(),
            b.valid(),
        ensures
            a.add_spec(b) == b.add_spec(a),
    ;

    proof fn lemma_add_zero(a: Self)
        requires
            a.valid(),
        ensures
            a.add_spec(Self::zero_spec()) == a,
    ;

    proof fn lemma_add_neg(a: Self)
        requires
            a.valid(),
        ensures
            a.add_spec(a.neg_spec()) == Self::zero_spec(),
    ;

    proof fn lemma_sub_is_add_neg(a: Self, b: Self)
        requires
            a.valid(),
            b.valid(),
        ensures
            a.sub_spec(b) == a.add_spec(b.neg_spec()),
    ;

    proof fn lemma_mul_assoc(a: Self, b: Self, c: Self)
        requires
            a.valid(),
            b.valid(),
            c.valid(),
        ensures
            a.mul_spec(b).mul_spec(c) == a.mul_spec(b.mul_spec(c)),
    ;

    proof fn lemma_mul_comm(a: Self, b: Self)
        requires
            a.valid(),
            b.valid(),
        ensures
            a.mul_spec(b) == b.mul_spec(a),
    ;

    proof fn lemma_mul_one(a: Self)
        requires
            a.valid(),
        ensures
            a.mul_spec(Self::one_spec()) == a,
    ;

    proof fn lemma_mul_distrib(a: Self, b: Self, c: Self)
        requires
            a.valid(),
            b.valid(),
            c.valid(),
        ensures
            a.mul_spec(b.add_spec(c)) == a.mul_spec(b).add_spec(a.mul_spec(c)),
    ;

    proof fn lemma_half(a: Self)
        requires
            a.valid(),
        ensures
            a.half_spec().add_spec(a.half_spec()) == a,
            a.add_spec(a).half_spec() == a,
    ;
}

/// The prime `2^31 - 1`.
pub const MODULUS: u64 = 2147483647;

/// Integers modulo the prime `MODULUS`: an exact field, in which every law of
/// the operators holds with `==`.
#[derive(Clone, Copy, Debug, PartialEq, Eq)]
pub struct Fp {
    v: u64,
}

impl Fp {
    #[verifier::type_invariant]
    spec fn reduced(self) -> bool {
        self.v < MODULUS
    }

    /// The residue as an integer in `0..MODULUS`.
    pub closed spec fn residue(self) -> int {
        self.v as int
    }

    /// The residue of `n`.
    pub fn new(n: u64) -> (r: Fp)
        ensures
            r.residue() == n as int % MODULUS as int,
    {
        Fp { v: n % MODULUS }
    }

    /// The residue of `n`, which may be negative.
    pub fn from_i64(n: i64) -> (r: Fp)
        ensures
            r.residue() == n as int % MODULUS as int,
    {
        let m: i64 = n % (MODULUS as i64);
        if m < 0 {
            Fp { v: (m + MODULUS as i64) as u64 }
        } else {
            Fp { v: m as u64 }
        }
    }

    pub fn value(self) -> (r: u64)
        ensures
            r == self.residue(),
            r < MODULUS,
    {
        proof {
            use_type_invariant(self);
        }
        self.v
    }
}

impl Scalar for Fp {
    closed spec fn valid(self) -> bool {
        self.v < MODULUS
    }

    closed spec fn zero_spec() -> Fp {
        Fp { v: 0 }
    }

    closed spec fn one_spec() -> Fp {
        Fp { v: 1 }
    }

    closed spec fn add_spec(self, rhs: Fp) -> Fp {
        Fp { v: ((self.v + rhs.v) % (MODULUS as int)) as u64 }
    }

    closed spec fn sub_spec(self, rhs: Fp) -> Fp {
        Fp { v: ((self.v + MODULUS - rhs.v) % (MODULUS as int)) as u64 }
    }

    closed spec fn mul_spec(self, rhs: Fp) -> Fp {
        Fp { v: ((self.v * rhs.v) % (MODULUS as int)) as u64 }
    }

    closed spec fn neg_spec(self) -> Fp {
        Fp { v: ((MODULUS - self.v) % (MODULUS as int)) as u64 }
    }

    closed spec fn half_spec(self) -> Fp {
        let x = self.v % MODULUS;
        if x % 2 == 0 {
            Fp { v: x / 2 }
        } else {
            Fp { v: ((x + MODULUS) / 2) as u64 }
        }
    }

    fn zero() -> (r: Fp) {
        Fp { v: 0 }
    }

    fn one() -> (r: Fp) {
        Fp { v: 1 }
    }

    fn add(self, rhs: Fp) -> (r: Fp) {
        proof {
            use_type_invariant(self);
            use_type_invariant(rhs);
        }
        Fp { v: (self.v + rhs.v) % MODULUS }
    }

    fn sub(self, rhs: Fp) -> (r: Fp) {
        proof {
            use_type_invariant(self);
            use_type_invariant(rhs);
        }
        Fp { v: (self.v + MODULUS - rhs.v) % MODULUS }
    }

    fn mul(self, rhs: Fp) -> (r: Fp) {
        proof {
            use_type_invariant(self);
            use_type_invariant(rhs);
            assert(self.v * rhs.v < MODULUS * MODULUS) by (nonlinear_arith)
                requires
                    self.v < MODULUS,
                    rhs.v < MODULUS,
            ;
        }
        Fp { v: (self.v * rhs.v) % MODULUS }
    }

    fn neg(self) -> (r: Fp) {
        proof {
            use_type_invariant(self);
        }
        Fp { v: (MODULUS - self.v) % MODULUS }
    }

    fn half(self) -> (r: Fp) {
        proof {
            use_type_invariant(self);
            lemma_small_mod(self.v as nat, MODULUS as nat);
        }
        if self.v % 2 == 0 {
            Fp { v: self.v / 2 }
        } else {
            Fp { v: (self.v + MODULUS) / 2 }
        }
    }

    proof fn lemma_closed(a: Fp, b: Fp) {
    }

    proof fn lemma_add_assoc(a: Fp, b: Fp, c: Fp) {
        let m = MODULUS as int;
        let (x, y, z) = (a.v as int, b.v as int, c.v as int);
        lemma_add_mod_noop(x + y, z, m);
        lemma_add_mod_noop(x, y + z, m);
        lemma_small_mod(z as nat, m as nat);
        lemma_small_mod(x as nat, m as nat);
        assert((x + y) + z == x + (y + z));
    }

    proof fn lemma_add_comm(a: Fp, b: Fp) {
    }

    proof fn lemma_add_zero(a: Fp) {
        lemma_small_mod(a.v as nat, MODULUS as nat);
    }

    proof fn lemma_add_neg(a: Fp) {
        let m = MODULUS as int;
        if a.v == 0 {
            lemma_mod_self_0(m);
        } else {
            lemma_small_mod((m - a.v) as nat, m as nat);
            lemma_mod_self_0(m);
        }
    }

    proof fn lemma_sub_is_add_neg(a: Fp, b: Fp) {
        let m = MODULUS as int;
        let (x, y) = (a.v as int, b.v as int);
        lemma_add_mod_noop_right(x, m - y, m);
    }

    proof fn lemma_mul_assoc(a: Fp, b: Fp, c: Fp) {
        let m = MODULUS as int;
        let (x, y, z) = (a.v as int, b.v as int, c.v as int);
        lemma_mul_mod_noop_left(x * y, z, m);
        lemma_mul_mod_noop_right(x, y * z, m);
        lemma_mul_is_associative(x, y, z);
    }

    proof fn lemma_mul_comm(a: Fp, b: Fp) {
        lemma_mul_is_commutative(a.v as int, b.v as int);
    }

    proof fn lemma_mul_one(a: Fp) {
        lemma_small_mod(a.v as nat, MODULUS as nat);
    }

    proof fn lemma_mul_distrib(a: Fp, b: Fp, c: Fp) {
        let m = MODULUS as int;
        let (x, y, z) = (a.v as int, b.v as int, c.v as int);
        lemma_mul_mod_noop_right(x, y + z, m);
        lemma_mul_is_distributive_add(x, y, z);
        lemma_add_mod_noop(x * y, x * z, m);
    }

    proof fn lemma_half(a: Fp) {
        let m = MODULUS as int;
        let x = a.v as int;
        lemma_small_mod(x as nat, m as nat);
        let h = a.half_spec().v as int;
        assert(h + h == x || h + h == x + m);
        if h + h == x {
            lemma_small_mod(x as nat, m as nat);
        } else {
            lemma_mod_add_multiples_vanish(x, m);
            lemma_small_mod(x as nat, m as nat);
        }
        if x + x < m {
            lemma_small_mod((x + x) as nat, m as nat);
        } else {
            lemma_mod_sub_multiples_vanish(x + x, m);
            lemma_small_mod((x + x - m) as nat, m as nat);
        }
    }
}

} // verus!
