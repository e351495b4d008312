//! Consequences of the ring laws of `Scalar`, in the shape the linearity
//! proofs use them.
use crate::scalar::Scalar;
use vstd::prelude::*;

verus! {

/// `a·x + b·y`.
pub open spec fn comb<T: Scalar>(a: T, x: T, b: T, y: T) -> T {
    a.mul_spec(x).add_spec(b.mul_spec(y))
}

/// `(p + q) + (r + s) == (p + r) + (q + s)`.
pub proof fn lemma_add_swap<T: Scalar>(p: T, q: T, r: T, s: T)
    requires
        p.valid(),
        q.valid(),
        r.valid(),
        s.valid(),
    ensures
        p.add_spec(q).add_spec(r.add_spec(s)) == p.add_spec(r).add_spec(q.add_spec(s)),
{
    T::lemma_closed(q, r);
    T::lemma_closed(r, s);
    T::lemma_closed(q, s);
    T::lemma_closed(r.add_spec(q), s);
    T::lemma_add_assoc(p, q, r.add_spec(s));
    T::lemma_add_assoc(q, r, s);
    T::lemma_add_comm(q, r);
    T::lemma_add_assoc(r, q, s);
    T::lemma_add_assoc(p, r, q.add_spec(s));
}

/// A value that cancels `p` is its negation.
pub proof fn lemma_neg_unique<T: Scalar>(p: T, q: T)
    requires
        p.valid(),
        q.valid(),
        p.add_spec(q) == T::zero_spec(),
    ensures
        q == p.neg_spec(),
{
    let z = T::zero_spec();
    let n = p.neg_spec();
    T::lemma_closed(p, q);
    T::lemma_add_zero(q);
    T::lemma_add_neg(p);
    T::lemma_add_assoc(q, p, n);
    T::lemma_add_comm(q, p);
    T::lemma_add_comm(z, n);
    T::lemma_add_zero(n);
}

pub proof fn lemma_neg_neg<T: Scalar>(p: T)
    requires
        p.valid(),
    ensures
        p.neg_spec().neg_spec() == p,
{
    T::lemma_closed(p, p);
    T::lemma_add_neg(p);
    T::lemma_add_comm(p, p.neg_spec());
    lemma_neg_unique(p.neg_spec(), p);
}

pub proof fn lemma_neg_add<T: Scalar>(p: T, q: T)
    requires
        p.valid(),
        q.valid(),
    ensures
        p.add_spec(q).neg_spec() == p.neg_spec().add_spec(q.neg_spec()),
{
    let z = T::zero_spec();
    T::lemma_closed(p, q);
    T::lemma_closed(q, p);
    T::lemma_closed(p.neg_spec(), q.neg_spec());
    lemma_add_swap(p, q, p.neg_spec(), q.neg_spec());
    T::lemma_add_neg(p);
    T::lemma_add_neg(q);
    T::lemma_add_zero(z);
    lemma_neg_unique(p.add_spec(q), p.neg_spec().add_spec(q.neg_spec()));
}

pub proof fn lemma_mul_zero<T: Scalar>(a: T)
    requires
        a.valid(),
    ensures
        a.mul_spec(T::zero_spec()) == T::zero_spec(),
{
    let z = T::zero_spec();
    let m = a.mul_spec(z);
    T::lemma_closed(a, z);
    T::lemma_closed(m, m);
    T::lemma_add_zero(z);
    T::lemma_mul_distrib(a, z, z);
    // m + m == m, so m == m + (m + -m) == (m + m) + -m == m + -m == 0
    T::lemma_add_neg(m);
    T::lemma_add_assoc(m, m, m.neg_spec());
    T::lemma_add_zero(m);
}

pub proof fn lemma_mul_neg<T: Scalar>(a: T, x: T)
    requires
        a.valid(),
        x.valid(),
    ensures
        a.mul_spec(x.neg_spec()) == a.mul_spec(x).neg_spec(),
{
    T::lemma_closed(a, x);
    T::lemma_closed(x, a);
    T::lemma_closed(a, x.neg_spec());
    T::lemma_mul_distrib(a, x, x.neg_spec());
    T::lemma_add_neg(x);
    lemma_mul_zero(a);
    lemma_neg_unique(a.mul_spec(x), a.mul_spec(x.neg_spec()));
}

pub proof fn lemma_comb_valid<T: Scalar>(a: T, x: T, b: T, y: T)
    ensures
        comb(a, x, b, y).valid(),
{
    T::lemma_closed(a, x);
    T::lemma_closed(b, y);
    T::lemma_closed(a.mul_spec(x), b.mul_spec(y));
}

/// Sums of combinations: `(a·x + b·y) + (a·u + b·v) == a·(x + u) + b·(y + v)`.
pub proof fn lemma_comb_add<T: Scalar>(a: T, b: T, x: T, y: T, u: T, v: T)
    requires
        a.valid(),
        b.valid(),
        x.valid(),
        y.valid(),
        u.valid(),
        v.valid(),
    ensures
        comb(a, x, b, y).add_spec(comb(a, u, b, v)) == comb(a, x.add_spec(u), b, y.add_spec(v)),
{
    T::lemma_closed(a, x);
    T::lemma_closed(b, y);
    T::lemma_closed(a, u);
    T::lemma_closed(b, v);
    lemma_add_swap(a.mul_spec(x), b.mul_spec(y), a.mul_spec(u), b.mul_spec(v));
    T::lemma_mul_distrib(a, x, u);
    T::lemma_mul_distrib(b, y, v);
}

/// Negation of a combination: `-(a·x + b·y) == a·(-x) + b·(-y)`.
pub proof fn lemma_comb_neg<T: Scalar>(a: T, b: T, x: T, y: T)
    requires
        a.valid(),
        b.valid(),
        x.valid(),
        y.valid(),
    ensures
        comb(a, x, b, y).neg_spec() == comb(a, x.neg_spec(), b, y.neg_spec()),
{
    T::lemma_closed(a, x);
    T::lemma_closed(b, y);
    lemma_neg_add(a.mul_spec(x), b.mul_spec(y));
    lemma_mul_neg(a, x);
    lemma_mul_neg(b, y);
}

/// Differences of combinations: `(a·x + b·y) - (a·u + b·v) == a·(x - u) + b·(y - v)`.
pub proof fn lemma_comb_sub<T: Scalar>(a: T, b: T, x: T, y: T, u: T, v: T)
    requires
        a.valid(),
        b.valid(),
        x.valid(),
        y.valid(),
        u.valid(),
        v.valid(),
    ensures
        comb(a, x, b, y).sub_spec(comb(a, u, b, v)) == comb(a, x.sub_spec(u), b, y.sub_spec(v)),
{
    T::lemma_closed(u, v);
    T::lemma_closed(v, u);
    T::lemma_closed(x, y);
    lemma_comb_valid(a, x, b, y);
    lemma_comb_valid(a, u, b, v);
    T::lemma_sub_is_add_neg(comb(a, x, b, y), comb(a, u, b, v));
    lemma_comb_neg(a, b, u, v);
    lemma_comb_add(a, b, x, y, u.neg_spec(), v.neg_spec());
    T::lemma_sub_is_add_neg(x, u);
    T::lemma_sub_is_add_neg(y, v);
}

/// Halving a combination: `half(a·x + b·y) == a·half(x) + b·half(y)`.
pub proof fn lemma_comb_half<T: Scalar>(a: T, b: T, x: T, y: T)
    requires
        a.valid(),
        b.valid(),
        x.valid(),
        y.valid(),
    ensures
        comb(a, x, b, y).half_spec() == comb(a, x.half_spec(), b, y.half_spec()),
{
    let (hx, hy) = (x.half_spec(), y.half_spec());
    let u = comb(a, hx, b, hy);
    T::lemma_closed(x, y);
    T::lemma_closed(y, x);
    T::lemma_closed(hx, hy);
    lemma_comb_valid(a, hx, b, hy);
    lemma_comb_add(a, b, hx, hy, hx, hy);
    T::lemma_half(x);
    T::lemma_half(y);
    T::lemma_half(u);
}

} // verus!
