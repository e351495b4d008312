//! Laws of the operators, stated over their models.
use crate::algebra::{
    comb, lemma_comb_add, lemma_comb_half, lemma_comb_neg, lemma_comb_sub, lemma_comb_valid,
};
use crate::forms::{lemma_edge_count_parts, lemma_index_in_range, lemma_row_col};
use crate::model::{
    derivative0_dual, derivative0_primal, derivative1_primal, double_times, edge_count,
    face_count, face_sum, halve_times, hodge0_to_dual, hodge0_to_primal, hodge1_to_dual,
    hodge1_to_primal, vertex_count, vertical_count,
};
use crate::scalar::Scalar;
use vstd::prelude::*;

verus! {

/// Every element of `s` obeys the laws of `Scalar`.
pub open spec fn all_valid<T: Scalar>(s: Seq<T>) -> bool {
    forall|i: int| 0 <= i < s.len() ==> #[trigger] s[i].valid()
}

/// The form `a·x + b·y`, element by element.
pub open spec fn combine<T: Scalar>(a: T, x: Seq<T>, b: T, y: Seq<T>) -> Seq<T> {
    Seq::new(x.len(), |i: int| comb(a, x[i], b, y[i]))
}

proof fn lemma_halve_double<T: Scalar>(x: T, k: nat)
    requires
        x.valid(),
        k <= 2,
    ensures
        double_times(halve_times(x, k), k) == x,
        halve_times(double_times(x, k), k) == x,
{
    T::lemma_closed(x, x);
    let hx = x.half_spec();
    let dx = x.add_spec(x);
    T::lemma_closed(hx, hx);
    T::lemma_closed(dx, dx);
    T::lemma_half(x);
    T::lemma_half(hx);
    T::lemma_half(dx);
    assert(halve_times(x, 0) == x);
    assert(double_times(x, 0) == x);
    assert(double_times(hx, 0) == hx);
    assert(halve_times(dx, 0) == dx);
    assert(halve_times(hx.half_spec(), 0) == hx.half_spec());
    assert(double_times(hx.half_spec(), 0) == hx.half_spec());
    assert(halve_times(dx.add_spec(dx), 0) == dx.add_spec(dx));
    assert(double_times(hx.half_spec(), 1) == hx.half_spec().add_spec(hx.half_spec()));
    assert(halve_times(dx.add_spec(dx), 1) == dx.add_spec(dx).half_spec());
    assert(halve_times(x, 1) == hx);
    assert(double_times(x, 1) == dx);
    assert(halve_times(x, 2) == hx.half_spec());
    assert(double_times(x, 2) == dx.add_spec(dx));
    assert(double_times(hx, 1) == hx.add_spec(hx));
    assert(double_times(hx.half_spec(), 2) == hx.half_spec().add_spec(hx.half_spec()).add_spec(
        hx.half_spec().add_spec(hx.half_spec()),
    ));
    assert(halve_times(dx, 1) == dx.half_spec());
    assert(halve_times(dx.add_spec(dx), 2) == dx.add_spec(dx).half_spec().half_spec());
}

/// The Hodge star of 0-forms and its inverse undo each other exactly, on
/// every form of valid values: `apply_inv(apply(x)) == x` and
/// `apply(apply_inv(x)) == x`. (The star of 2-forms is the identity.)
pub proof fn lemma_hodge0_round_trip<T: Scalar>(h: int, w: int, x: Seq<T>)
    requires
        all_valid(x),
    ensures
        hodge0_to_primal(h, w, hodge0_to_dual(h, w, x)) == x,
        hodge0_to_dual(h, w, hodge0_to_primal(h, w, x)) == x,
{
    assert forall|i: int| 0 <= i < x.len() implies hodge0_to_primal(
        h,
        w,
        hodge0_to_dual(h, w, x),
    )[i] == x[i] && hodge0_to_dual(h, w, hodge0_to_primal(h, w, x))[i] == x[i] by {
        assert(x[i].valid());
        lemma_halve_double(x[i], crate::model::boundary_sides(h, w, i / (w + 1), i % (w + 1)));
    }
    assert(hodge0_to_primal(h, w, hodge0_to_dual(h, w, x)) =~= x);
    assert(hodge0_to_dual(h, w, hodge0_to_primal(h, w, x)) =~= x);
}

/// On 1-forms the two stars, as defined (`apply` negates the horizontal
/// block, `apply_inv` the vertical one), compose to negation in either
/// order: `apply_inv(apply(x)) == -x`, the rule `⋆⋆ = -1` of 1-forms in the
/// plane.
pub proof fn lemma_hodge1_twice<T: Scalar>(h: int, w: int, x: Seq<T>)
    ensures
        hodge1_to_primal(h, w, hodge1_to_dual(h, w, x)) == Seq::new(
            x.len(),
            |i: int| x[i].neg_spec(),
        ),
        hodge1_to_dual(h, w, hodge1_to_primal(h, w, x)) == Seq::new(
            x.len(),
            |i: int| x[i].neg_spec(),
        ),
{
    assert(hodge1_to_primal(h, w, hodge1_to_dual(h, w, x)) =~= Seq::new(
        x.len(),
        |i: int| x[i].neg_spec(),
    ));
    assert(hodge1_to_dual(h, w, hodge1_to_primal(h, w, x)) =~= Seq::new(
        x.len(),
        |i: int| x[i].neg_spec(),
    ));
}

proof fn lemma_halve_times_linear<T: Scalar>(a: T, b: T, x: T, y: T, k: nat)
    requires
        a.valid(),
        b.valid(),
        x.valid(),
        y.valid(),
        k <= 2,
    ensures
        halve_times(comb(a, x, b, y), k) == comb(a, halve_times(x, k), b, halve_times(y, k)),
        double_times(comb(a, x, b, y), k) == comb(a, double_times(x, k), b, double_times(y, k)),
{
    let z = comb(a, x, b, y);
    lemma_comb_valid(a, x, b, y);
    T::lemma_closed(x, y);
    T::lemma_closed(y, x);
    T::lemma_closed(x, x);
    T::lemma_closed(y, y);
    T::lemma_closed(z, z);
    let (hx, hy) = (x.half_spec(), y.half_spec());
    let (dx, dy) = (x.add_spec(x), y.add_spec(y));
    T::lemma_closed(hx, hy);
    T::lemma_closed(hy, hx);
    T::lemma_closed(dx, dy);
    T::lemma_closed(dy, dx);
    T::lemma_closed(hx, hx);
    T::lemma_closed(hy, hy);
    T::lemma_closed(dx, dx);
    T::lemma_closed(dy, dy);
    assert(halve_times(z, 0) == z);
    assert(halve_times(x, 0) == x);
    assert(halve_times(y, 0) == y);
    assert(double_times(z, 0) == z);
    assert(double_times(x, 0) == x);
    assert(double_times(y, 0) == y);
    lemma_comb_half(a, b, x, y);
    lemma_comb_half(a, b, hx, hy);
    lemma_comb_add(a, b, x, y, x, y);
    lemma_comb_add(a, b, dx, dy, dx, dy);
    assert(halve_times(z, 1) == z.half_spec());
    assert(halve_times(x, 1) == hx);
    assert(halve_times(y, 1) == hy);
    assert(halve_times(z, 2) == z.half_spec().half_spec());
    assert(halve_times(x, 2) == hx.half_spec());
    assert(halve_times(y, 2) == hy.half_spec());
    assert(double_times(z, 1) == z.add_spec(z));
    assert(double_times(x, 1) == dx);
    assert(double_times(y, 1) == dy);
    assert(double_times(z, 2) == z.add_spec(z).add_spec(z.add_spec(z)));
    assert(double_times(x, 2) == dx.add_spec(dx));
    assert(double_times(y, 2) == dy.add_spec(dy));
}

/// The Hodge stars are linear: each maps `a·x + b·y` to `a·op(x) + b·op(y)`.
/// (The star of 2-forms is the identity, linear as it stands.)
pub proof fn lemma_hodge_linear<T: Scalar>(
    h: int,
    w: int,
    a: T,
    b: T,
    x0: Seq<T>,
    y0: Seq<T>,
    x1: Seq<T>,
    y1: Seq<T>,
)
    requires
        a.valid(),
        b.valid(),
        all_valid(x0),
        all_valid(y0),
        all_valid(x1),
        all_valid(y1),
        x0.len() == y0.len(),
        x1.len() == y1.len(),
    ensures
        hodge0_to_dual(h, w, combine(a, x0, b, y0)) == combine(
            a,
            hodge0_to_dual(h, w, x0),
            b,
            hodge0_to_dual(h, w, y0),
        ),
        hodge0_to_primal(h, w, combine(a, x0, b, y0)) == combine(
            a,
            hodge0_to_primal(h, w, x0),
            b,
            hodge0_to_primal(h, w, y0),
        ),
        hodge1_to_dual(h, w, combine(a, x1, b, y1)) == combine(
            a,
            hodge1_to_dual(h, w, x1),
            b,
            hodge1_to_dual(h, w, y1),
        ),
        hodge1_to_primal(h, w, combine(a, x1, b, y1)) == combine(
            a,
            hodge1_to_primal(h, w, x1),
            b,
            hodge1_to_primal(h, w, y1),
        ),
{
    assert forall|i: int| 0 <= i < x0.len() implies hodge0_to_dual(h, w, combine(a, x0, b, y0))[i]
        == combine(a, hodge0_to_dual(h, w, x0), b, hodge0_to_dual(h, w, y0))[i]
        && hodge0_to_primal(h, w, combine(a, x0, b, y0))[i] == combine(
        a,
        hodge0_to_primal(h, w, x0),
        b,
        hodge0_to_primal(h, w, y0),
    )[i] by {
        assert(x0[i].valid() && y0[i].valid());
        lemma_halve_times_linear(
            a,
            b,
            x0[i],
            y0[i],
            crate::model::boundary_sides(h, w, i / (w + 1), i % (w + 1)),
        );
    }
    assert(hodge0_to_dual(h, w, combine(a, x0, b, y0)) =~= combine(
        a,
        hodge0_to_dual(h, w, x0),
        b,
        hodge0_to_dual(h, w, y0),
    ));
    assert(hodge0_to_primal(h, w, combine(a, x0, b, y0)) =~= combine(
        a,
        hodge0_to_primal(h, w, x0),
        b,
        hodge0_to_primal(h, w, y0),
    ));
    assert forall|i: int| 0 <= i < x1.len() implies hodge1_to_dual(h, w, combine(a, x1, b, y1))[i]
        == combine(a, hodge1_to_dual(h, w, x1), b, hodge1_to_dual(h, w, y1))[i]
        && hodge1_to_primal(h, w, combine(a, x1, b, y1))[i] == combine(
        a,
        hodge1_to_primal(h, w, x1),
        b,
        hodge1_to_primal(h, w, y1),
    )[i] by {
        assert(x1[i].valid() && y1[i].valid());
        lemma_comb_neg(a, b, x1[i], y1[i]);
    }
    assert(hodge1_to_dual(h, w, combine(a, x1, b, y1)) =~= combine(
        a,
        hodge1_to_dual(h, w, x1),
        b,
        hodge1_to_dual(h, w, y1),
    ));
    assert(hodge1_to_primal(h, w, combine(a, x1, b, y1)) =~= combine(
        a,
        hodge1_to_primal(h, w, x1),
        b,
        hodge1_to_primal(h, w, y1),
    ));
}

proof fn lemma_face_sum_linear<T: Scalar>(
    a: T,
    b: T,
    bx: T,
    by: T,
    tx: T,
    ty: T,
    lx: T,
    ly: T,
    rx: T,
    ry: T,
)
    requires
        a.valid(),
        b.valid(),
        bx.valid(),
        by.valid(),
        tx.valid(),
        ty.valid(),
        lx.valid(),
        ly.valid(),
        rx.valid(),
        ry.valid(),
    ensures
        comb(a, bx, b, by).neg_spec().add_spec(comb(a, tx, b, ty)).sub_spec(
            comb(a, lx, b, ly),
        ).add_spec(comb(a, rx, b, ry)) == comb(
            a,
            bx.neg_spec().add_spec(tx).sub_spec(lx).add_spec(rx),
            b,
            by.neg_spec().add_spec(ty).sub_spec(ly).add_spec(ry),
        ),
{
    T::lemma_closed(bx, by);
    T::lemma_closed(by, bx);
    let (nx, ny) = (bx.neg_spec(), by.neg_spec());
    lemma_comb_neg(a, b, bx, by);
    lemma_comb_add(a, b, nx, ny, tx, ty);
    T::lemma_closed(nx, tx);
    T::lemma_closed(ny, ty);
    let (px, py) = (nx.add_spec(tx), ny.add_spec(ty));
    lemma_comb_sub(a, b, px, py, lx, ly);
    T::lemma_closed(px, lx);
    T::lemma_closed(py, ly);
    lemma_comb_add(a, b, px.sub_spec(lx), py.sub_spec(ly), rx, ry);
}

/// The exterior derivatives are linear: each maps `a·x + b·y` to
/// `a·d(x) + b·d(y)`. For the dual 0→1 derivative, which leaves the outer
/// edges as they were, the edges written into are combined as well.
pub proof fn lemma_derivative_linear<T: Scalar>(
    h: int,
    w: int,
    a: T,
    b: T,
    vx: Seq<T>,
    vy: Seq<T>,
    ex: Seq<T>,
    ey: Seq<T>,
    fx: Seq<T>,
    fy: Seq<T>,
)
    requires
        1 <= h,
        1 <= w,
        a.valid(),
        b.valid(),
        all_valid(vx),
        all_valid(vy),
        all_valid(ex),
        all_valid(ey),
        all_valid(fx),
        all_valid(fy),
        vx.len() == vertex_count(h, w),
        vy.len() == vertex_count(h, w),
        ex.len() == edge_count(h, w),
        ey.len() == edge_count(h, w),
        fx.len() == face_count(h, w),
        fy.len() == face_count(h, w),
    ensures
        derivative0_primal(h, w, combine(a, vx, b, vy)) == combine(
            a,
            derivative0_primal(h, w, vx),
            b,
            derivative0_primal(h, w, vy),
        ),
        derivative0_dual(h, w, combine(a, ex, b, ey), combine(a, fx, b, fy)) == combine(
            a,
            derivative0_dual(h, w, ex, fx),
            b,
            derivative0_dual(h, w, ey, fy),
        ),
        derivative1_primal(h, w, combine(a, ex, b, ey)) == combine(
            a,
            derivative1_primal(h, w, ex),
            b,
            derivative1_primal(h, w, ey),
        ),
{
    lemma_edge_count_parts(h, w);
    let nv = vertical_count(h, w);
    assert((h + 1) * w == w * (h + 1)) by (nonlinear_arith);
    let v = combine(a, vx, b, vy);
    let e = combine(a, ex, b, ey);
    let f = combine(a, fx, b, fy);
    assert forall|i: int| 0 <= i < edge_count(h, w) implies #[trigger] derivative0_dual(h, w, e, f)[i]
        == combine(a, derivative0_dual(h, w, ex, fx), b, derivative0_dual(h, w, ey, fy))[i]
        && derivative0_primal(h, w, v)[i] == combine(
        a,
        derivative0_primal(h, w, vx),
        b,
        derivative0_primal(h, w, vy),
    )[i] by {
        if i < nv {
            lemma_row_col(i, h + 1, w);
            let (r, c) = (i / w, i % w);
            lemma_index_in_range(r, c + 1, h + 1, w + 1);
            lemma_index_in_range(r, c, h + 1, w + 1);
            let (hi, lo) = (r * (w + 1) + c + 1, r * (w + 1) + c);
            assert(vx[hi].valid() && vy[hi].valid() && vx[lo].valid() && vy[lo].valid());
            lemma_comb_sub(a, b, vx[hi], vy[hi], vx[lo], vy[lo]);
            if 1 <= r < h {
                lemma_index_in_range(r, c, h, w);
                lemma_index_in_range(r - 1, c, h, w);
                let (q1, q0) = (r * w + c, (r - 1) * w + c);
                assert(fx[q1].valid() && fy[q1].valid() && fx[q0].valid() && fy[q0].valid());
                lemma_comb_sub(a, b, fx[q1], fy[q1], fx[q0], fy[q0]);
                T::lemma_closed(fx[q1], fx[q0]);
                T::lemma_closed(fy[q1], fy[q0]);
                lemma_comb_neg(a, b, fx[q1].sub_spec(fx[q0]), fy[q1].sub_spec(fy[q0]));
            }
        } else {
            let j = i - nv;
            lemma_row_col(j, h, w + 1);
            let (r, c) = (j / (w + 1), j % (w + 1));
            lemma_index_in_range(r + 1, c, h + 1, w + 1);
            lemma_index_in_range(r, c, h + 1, w + 1);
            let (hi, lo) = ((r + 1) * (w + 1) + c, r * (w + 1) + c);
            assert(vx[hi].valid() && vy[hi].valid() && vx[lo].valid() && vy[lo].valid());
            lemma_comb_sub(a, b, vx[hi], vy[hi], vx[lo], vy[lo]);
            if 1 <= c < w {
                lemma_index_in_range(r, c, h, w);
                lemma_index_in_range(r, c - 1, h, w);
                let (q0, q1) = (r * w + c - 1, r * w + c);
                assert(fx[q1].valid() && fy[q1].valid() && fx[q0].valid() && fy[q0].valid());
                lemma_comb_sub(a, b, fx[q0], fy[q0], fx[q1], fy[q1]);
            }
        }
    }
    assert forall|i: int| 0 <= i < edge_count(h, w) implies #[trigger] derivative0_primal(h, w, v)[i]
        == combine(a, derivative0_primal(h, w, vx), b, derivative0_primal(h, w, vy))[i] by {
        assert(derivative0_dual(h, w, e, f)[i] == combine(
            a,
            derivative0_dual(h, w, ex, fx),
            b,
            derivative0_dual(h, w, ey, fy),
        )[i]);
    }
    assert(derivative0_primal(h, w, v) =~= combine(
        a,
        derivative0_primal(h, w, vx),
        b,
        derivative0_primal(h, w, vy),
    ));
    assert(derivative0_dual(h, w, e, f) =~= combine(
        a,
        derivative0_dual(h, w, ex, fx),
        b,
        derivative0_dual(h, w, ey, fy),
    ));
    assert forall|i: int| 0 <= i < face_count(h, w) implies derivative1_primal(h, w, e)[i]
        == combine(a, derivative1_primal(h, w, ex), b, derivative1_primal(h, w, ey))[i] by {
        lemma_row_col(i, h, w);
        let (r, c) = (i / w, i % w);
        lemma_index_in_range(r + 1, c, h + 1, w);
        lemma_index_in_range(r, c, h + 1, w);
        lemma_index_in_range(r, c + 1, h, w + 1);
        let (t, bo) = (r * w + c, (r + 1) * w + c);
        let (l, ri) = (nv + r * (w + 1) + c, nv + r * (w + 1) + c + 1);
        assert(ex[t].valid() && ey[t].valid() && ex[bo].valid() && ey[bo].valid());
        assert(ex[l].valid() && ey[l].valid() && ex[ri].valid() && ey[ri].valid());
        lemma_face_sum_linear(a, b, ex[bo], ey[bo], ex[t], ey[t], ex[l], ey[l], ex[ri], ey[ri]);
        assert(face_sum(h, w, e, r, c) == comb(a, face_sum(h, w, ex, r, c), b, face_sum(h, w, ey, r, c)));
    }
    assert(derivative1_primal(h, w, e) =~= combine(
        a,
        derivative1_primal(h, w, ex),
        b,
        derivative1_primal(h, w, ey),
    ));
}

/// How many of the first `m` vertices of row `r` lie on exactly `k` sides of
/// the domain.
pub open spec fn row_count(h: int, w: int, r: int, m: nat, k: nat) -> nat
    decreases m,
{
    if m == 0 {
        0
    } else {
        row_count(h, w, r, (m - 1) as nat, k) + (if crate::model::boundary_sides(h, w, r, m - 1)
            == k {
            1nat
        } else {
            0nat
        })
    }
}

/// How many vertices of the first `n` rows lie on exactly `k` sides of the
/// domain.
pub open spec fn grid_count(h: int, w: int, n: nat, k: nat) -> nat
    decreases n,
{
    if n == 0 {
        0
    } else {
        grid_count(h, w, (n - 1) as nat, k) + row_count(h, w, n - 1, (w + 1) as nat, k)
    }
}

proof fn lemma_row_count(h: int, w: int, r: int, m: nat)
    requires
        1 <= w,
        m <= w + 1,
    ensures
        ({
            let e: nat = (if m >= 1 { 1nat } else { 0nat }) + (if m >= w + 1 { 1nat } else { 0nat });
            if r == 0 || r == h {
                row_count(h, w, r, m, 2) == e && row_count(h, w, r, m, 1) == m - e && row_count(
                    h,
                    w,
                    r,
                    m,
                    0,
                ) == 0
            } else {
                row_count(h, w, r, m, 2) == 0 && row_count(h, w, r, m, 1) == e && row_count(
                    h,
                    w,
                    r,
                    m,
                    0,
                ) == m - e
            }
        }),
    decreases m,
{
    if m > 0 {
        lemma_row_count(h, w, r, (m - 1) as nat);
    }
}

proof fn lemma_grid_count(h: int, w: int, n: nat)
    requires
        1 <= h,
        1 <= w,
        n <= h + 1,
    ensures
        ({
            let b: int = (if n >= 1 { 1int } else { 0int }) + (if n >= h + 1 { 1int } else { 0int });
            &&& grid_count(h, w, n, 2) == 2 * b
            &&& grid_count(h, w, n, 1) == b * (w - 1) + (n - b) * 2
            &&& grid_count(h, w, n, 0) == (n - b) * (w - 1)
        }),
    decreases n,
{
    if n > 0 {
        let m = (n - 1) as nat;
        lemma_grid_count(h, w, m);
        lemma_row_count(h, w, m as int, (w + 1) as nat);
        let b0: int = (if m >= 1 { 1int } else { 0int }) + (if m >= h + 1 { 1int } else { 0int });
        let b: int = (if n >= 1 { 1int } else { 0int }) + (if n >= h + 1 { 1int } else { 0int });
        if m == 0 || m == h {
            assert(b == b0 + 1);
            assert(b * (w - 1) == b0 * (w - 1) + (w - 1)) by (nonlinear_arith)
                requires
                    b == b0 + 1,
            ;
        } else {
            assert(b == b0);
            assert((n - b) * (w - 1) == (m - b0) * (w - 1) + (w - 1)) by (nonlinear_arith)
                requires
                    b == b0,
                    n == m + 1,
            ;
        }
    }
}

/// The 0-form Hodge star scales exactly four vertices by a quarter (the
/// corners, on two sides of the domain), `2(h-1) + 2(w-1)` by a half (the rest
/// of the boundary, on one side), and leaves the `(h-1)(w-1)` inner vertices
/// unchanged: `hodge0_to_dual` halves each vertex once per side it lies on.
pub proof fn lemma_hodge0_weight_counts(h: int, w: int)
    requires
        1 <= h,
        1 <= w,
    ensures
        grid_count(h, w, (h + 1) as nat, 2) == 4,
        grid_count(h, w, (h + 1) as nat, 1) == 2 * (h - 1) + 2 * (w - 1),
        grid_count(h, w, (h + 1) as nat, 0) == (h - 1) * (w - 1),
{
    lemma_grid_count(h, w, (h + 1) as nat);
    assert((h + 1 - 2) * 2 == 2 * (h - 1)) by (nonlinear_arith);
    assert(2 * (w - 1) + 2 * (h - 1) == 2 * (h - 1) + 2 * (w - 1));
    assert((h + 1 - 2) * (w - 1) == (h - 1) * (w - 1)) by (nonlinear_arith);
}

} // verus!
