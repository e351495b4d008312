//! The mathematical meaning of the operators, over flat row-major sequences.
//!
//! A grid of `h × w` faces has `(h+1) × (w+1)` vertices and `h × w` faces,
//! stored row by row. Its edges are one buffer: first the vertical block of
//! shape `(h+1) × w` (edges between horizontally adjacent vertices), then the
//! horizontal block of shape `h × (w+1)` (edges between vertically adjacent
//! vertices).
use crate::scalar::Scalar;
use vstd::prelude::*;

verus! {

pub open spec fn vertex_count(h: int, w: int) -> int {
    (h + 1) * (w + 1)
}

pub open spec fn vertical_count(h: int, w: int) -> int {
    w * (h + 1)
}

pub open spec fn horizontal_count(h: int, w: int) -> int {
    h * (w + 1)
}

pub open spec fn edge_count(h: int, w: int) -> int {
    vertical_count(h, w) + horizontal_count(h, w)
}

pub open spec fn face_count(h: int, w: int) -> int {
    h * w
}

/// Element `(r, c)` of a row-major array with `cols` columns.
pub open spec fn at<T>(s: Seq<T>, cols: int, r: int, c: int) -> T {
    s[r * cols + c]
}

/// Edge `(r, c)` of the vertical block of a 1-form on `h × w` faces.
pub open spec fn vertical<T>(e: Seq<T>, h: int, w: int, r: int, c: int) -> T {
    e[r * w + c]
}

/// Edge `(r, c)` of the horizontal block of a 1-form on `h × w` faces.
pub open spec fn horizontal<T>(e: Seq<T>, h: int, w: int, r: int, c: int) -> T {
    e[vertical_count(h, w) + r * (w + 1) + c]
}

/// How many sides of the domain vertex `(r, c)` lies on: two at a corner,
/// one elsewhere on the boundary, none inside.
pub open spec fn boundary_sides(h: int, w: int, r: int, c: int) -> nat {
    (if r == 0 || r == h { 1nat } else { 0nat }) + (if c == 0 || c == w { 1nat } else { 0nat })
}

/// `x` halved `k` times.
pub open spec fn halve_times<T: Scalar>(x: T, k: nat) -> T
    decreases k,
{
    if k == 0 {
        x
    } else {
        halve_times(x, (k - 1) as nat).half_spec()
    }
}

/// `x` doubled `k` times.
pub open spec fn double_times<T: Scalar>(x: T, k: nat) -> T
    decreases k,
{
    if k == 0 {
        x
    } else {
        let d = double_times(x, (k - 1) as nat);
        d.add_spec(d)
    }
}

/// Hodge star of a primal 0-form: each vertex value times the area of its
/// dual cell, a quarter at a corner, a half elsewhere on the boundary.
pub open spec fn hodge0_to_dual<T: Scalar>(h: int, w: int, p: Seq<T>) -> Seq<T> {
    Seq::new(p.len(), |i: int| halve_times(p[i], boundary_sides(h, w, i / (w + 1), i % (w + 1))))
}

/// Inverse Hodge star of a dual 0-form: each value divided by the area of
/// its dual cell.
pub open spec fn hodge0_to_primal<T: Scalar>(h: int, w: int, d: Seq<T>) -> Seq<T> {
    Seq::new(d.len(), |i: int| double_times(d[i], boundary_sides(h, w, i / (w + 1), i % (w + 1))))
}

/// Hodge star of a primal 1-form: the vertical block is kept, the horizontal
/// block negated.
pub open spec fn hodge1_to_dual<T: Scalar>(h: int, w: int, p: Seq<T>) -> Seq<T> {
    Seq::new(
        p.len(),
        |i: int|
            if i < vertical_count(h, w) {
                p[i]
            } else {
                p[i].neg_spec()
            },
    )
}

/// Inverse Hodge star of a dual 1-form: the vertical block is negated, the
/// horizontal block kept.
pub open spec fn hodge1_to_primal<T: Scalar>(h: int, w: int, d: Seq<T>) -> Seq<T> {
    Seq::new(
        d.len(),
        |i: int|
            if i < vertical_count(h, w) {
                d[i].neg_spec()
            } else {
                d[i]
            },
    )
}

/// Exterior derivative of a primal 0-form: each edge gets the value at its
/// right (vertical block) or lower (horizontal block) vertex minus the value
/// at its left or upper vertex.
pub open spec fn derivative0_primal<T: Scalar>(h: int, w: int, v: Seq<T>) -> Seq<T> {
    Seq::new(
        edge_count(h, w) as nat,
        |i: int|
            if i < vertical_count(h, w) {
                let (r, c) = (i / w, i % w);
                at(v, w + 1, r, c + 1).sub_spec(at(v, w + 1, r, c))
            } else {
                let j = i - vertical_count(h, w);
                let (r, c) = (j / (w + 1), j % (w + 1));
                at(v, w + 1, r + 1, c).sub_spec(at(v, w + 1, r, c))
            },
    )
}

/// Exterior derivative of a dual 0-form, given as a face field `f`, written
/// over the edges `e`. Inner vertical edges (rows `1..h`) get
/// `-(below - above)`, inner horizontal edges (columns `1..w`) get
/// `left - right`; the edges on the two outer rows of the vertical block and
/// the two outer columns of the horizontal block keep their value.
pub open spec fn derivative0_dual<T: Scalar>(h: int, w: int, e: Seq<T>, f: Seq<T>) -> Seq<T> {
    Seq::new(
        e.len(),
        |i: int|
            if i < vertical_count(h, w) {
                let (r, c) = (i / w, i % w);
                if 1 <= r < h {
                    at(f, w, r, c).sub_spec(at(f, w, r - 1, c)).neg_spec()
                } else {
                    e[i]
                }
            } else {
                let j = i - vertical_count(h, w);
                let (r, c) = (j / (w + 1), j % (w + 1));
                if 1 <= c < w {
                    at(f, w, r, c - 1).sub_spec(at(f, w, r, c))
                } else {
                    e[i]
                }
            },
    )
}

/// The divergence-like sum of the four edges around face `(r, c)`:
/// `-bottom + top - left + right`.
pub open spec fn face_sum<T: Scalar>(h: int, w: int, e: Seq<T>, r: int, c: int) -> T {
    let top = vertical(e, h, w, r, c);
    let bottom = vertical(e, h, w, r + 1, c);
    let left = horizontal(e, h, w, r, c);
    let right = horizontal(e, h, w, r, c + 1);
    bottom.neg_spec().add_spec(top).sub_spec(left).add_spec(right)
}

/// Exterior derivative of a primal 1-form: the face sum of every face.
pub open spec fn derivative1_primal<T: Scalar>(h: int, w: int, e: Seq<T>) -> Seq<T> {
    Seq::new(face_count(h, w) as nat, |i: int| face_sum(h, w, e, i / w, i % w))
}

} // verus!
