//! Homogeneous 4-vectors and 4x4 transforms in fixed point.
use vstd::prelude::*;
use crate::fixed::{FIX, LIMIT, div_floor, floor_div};

verus! {

/// A homogeneous point `(x, y, z, w)`, each component in fixed point.
#[derive(Clone, Copy, Debug, PartialEq, Eq)]
pub struct Vector(pub [i64; 4]);

/// A 4x4 transform in fixed point. Each of the four rows holds one column of
/// the conceptual matrix: row `i` is what the `i`-th component of a vector
/// is multiplied by.
#[derive(Clone, Copy, Debug, PartialEq, Eq)]
pub struct Matrix(pub [[i64; 4]; 4]);

/// `|a| <= LIMIT`.
pub open spec fn within_limit(a: int) -> bool {
    -LIMIT <= a <= LIMIT
}

impl Vector {
    /// Every component lies within `LIMIT` in magnitude.
    pub open spec fn bounded(self) -> bool {
        &&& within_limit(self.0[0] as int)
        &&& within_limit(self.0[1] as int)
        &&& within_limit(self.0[2] as int)
        &&& within_limit(self.0[3] as int)
    }
}

impl Matrix {
    /// Every entry lies within `LIMIT` in magnitude.
    pub open spec fn bounded(self) -> bool {
        forall|i: int, k: int| 0 <= i < 4 && 0 <= k < 4 ==> within_limit(#[trigger] self.0[i][k] as int)
    }

    /// The identity transform: `FIX` on the diagonal, zero elsewhere.
    pub open spec fn is_identity(self) -> bool {
        forall|i: int, k: int| 0 <= i < 4 && 0 <= k < 4 ==>
            #[trigger] self.0[i][k] == (if i == k { FIX } else { 0i64 })
    }

    /// The identity transform.
    pub fn identity() -> (m: Matrix)
        ensures
            m.is_identity(),
            m.bounded(),
    {
        Matrix([
            [FIX, 0, 0, 0],
            [0, FIX, 0, 0],
            [0, 0, FIX, 0],
            [0, 0, 0, FIX],
        ])
    }
}

/// The weighted sum of the `k`-th entries of the matrix's rows, weighted by
/// the vector's components, before rescaling.
pub open spec fn weighted_sum(m: Matrix, v: Vector, k: int) -> int {
    v.0[0] * m.0[0][k] + v.0[1] * m.0[1][k] + v.0[2] * m.0[2][k] + v.0[3] * m.0[3][k]
}

/// Component `k` of the product of `m` and `v`, rounded down to fixed point.
pub open spec fn product_component(m: Matrix, v: Vector, k: int) -> int {
    floor_div(weighted_sum(m, v, k), FIX as int)
}

fn component(m: &Matrix, v: &Vector, k: usize) -> (r: i64)
    requires
        k < 4,
        m.bounded(),
        v.bounded(),
    ensures
        r == product_component(*m, *v, k as int),
{
    let (mx, my, mz, mw) = (m.0[0], m.0[1], m.0[2], m.0[3]);
    let (x, y, z, w) = (v.0[0], v.0[1], v.0[2], v.0[3]);
    assert(within_limit(mx[k as int] as int) && within_limit(my[k as int] as int)
        && within_limit(mz[k as int] as int) && within_limit(mw[k as int] as int)) by {
        assert(mx[k as int] == m.0[0][k as int]);
        assert(my[k as int] == m.0[1][k as int]);
        assert(mz[k as int] == m.0[2][k as int]);
        assert(mw[k as int] == m.0[3][k as int]);
    }
    proof {
        lemma_product_bound(x as int, mx[k as int] as int);
        lemma_product_bound(y as int, my[k as int] as int);
        lemma_product_bound(z as int, mz[k as int] as int);
        lemma_product_bound(w as int, mw[k as int] as int);
    }
    let sum = x * mx[k] + y * my[k] + z * mz[k] + w * mw[k];
    div_floor(sum, FIX)
}

proof fn lemma_product_bound(a: int, b: int)
    requires
        within_limit(a),
        within_limit(b),
    ensures
        -LIMIT * LIMIT <= a * b <= LIMIT * LIMIT,
{
    assert(-LIMIT * LIMIT <= a * b <= LIMIT * LIMIT) by (nonlinear_arith)
        requires -LIMIT <= a <= LIMIT, -LIMIT <= b <= LIMIT;
}

/// The product of the transform `m` and the point `v`: component `k` of the
/// result is the sum over `i` of `v[i] * m[i][k]`, rescaled to fixed point by
/// floor division.
pub fn matrix_times_vector(m: &Matrix, v: &Vector) -> (r: Vector)
    requires
        m.bounded(),
        v.bounded(),
    ensures
        forall|k: int| 0 <= k < 4 ==> #[trigger] r.0[k] == product_component(*m, *v, k),
{
    let r = Vector([component(m, v, 0), component(m, v, 1), component(m, v, 2), component(m, v, 3)]);
    assert forall|k: int| 0 <= k < 4 implies #[trigger] r.0[k] == product_component(*m, *v, k) by {
        if k == 0 {} else if k == 1 {} else if k == 2 {} else {}
    }
    r
}

/// Applying the identity transform to any point gives that point back.
pub proof fn lemma_identity_transform(m: Matrix, v: Vector)
    requires
        m.is_identity(),
    ensures
        forall|k: int| 0 <= k < 4 ==> #[trigger] product_component(m, v, k) == v.0[k],
{
    assert forall|k: int| 0 <= k < 4 implies #[trigger] product_component(m, v, k) == v.0[k] by {
        assert(m.0[0][k] == (if k == 0 { FIX } else { 0i64 }));
        assert(m.0[1][k] == (if k == 1 { FIX } else { 0i64 }));
        assert(m.0[2][k] == (if k == 2 { FIX } else { 0i64 }));
        assert(m.0[3][k] == (if k == 3 { FIX } else { 0i64 }));
        assert(weighted_sum(m, v, k) == v.0[k] * FIX);
        vstd::arithmetic::div_mod::lemma_div_multiples_vanish(v.0[k] as int, FIX as int);
        assert(v.0[k] * FIX == FIX * v.0[k]);
    }
}

} // verus!
