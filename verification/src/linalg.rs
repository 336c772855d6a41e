//! Linear-algebra primitives: random initialization, inner product, and
//! matrix transpose over fixed-point scalars.
//!
//! Vectors are `Vec<i64>` of raw fixed-point values; matrices are row-major
//! `Vec<Vec<i64>>`. Specifications speak of them as `Seq<int>` and
//! `Seq<Seq<int>>` of the raw values.

use vstd::prelude::*;
use crate::fx::{fx_add, fx_add_s, fx_mul, fx_mul_s, abs_i, lemma_fx_mul_bounded, SCALE};

verus! {

/// The raw values of a vector, as mathematical integers.
pub open spec fn vals(v: Seq<i64>) -> Seq<int> {
    Seq::new(v.len(), |i: int| v[i] as int)
}

/// The raw values of a row-major matrix.
pub open spec fn mat_vals(m: Seq<Vec<i64>>) -> Seq<Seq<int>> {
    Seq::new(m.len(), |i: int| vals(m[i]@))
}

/// A matrix with `rows` rows, all of length `cols`.
pub open spec fn is_rect(m: Seq<Seq<int>>, rows: int, cols: int) -> bool {
    &&& m.len() == rows
    &&& forall|i: int| 0 <= i < rows ==> (#[trigger] m[i]).len() == cols
}

/// The transpose of a nonempty rectangular matrix.
pub open spec fn transpose_s(m: Seq<Seq<int>>) -> Seq<Seq<int>> {
    Seq::new(m[0].len(), |i: int| Seq::new(m.len(), |j: int| m[j][i]))
}

/// Saturating fixed-point inner product of the first `n` positions, taken in
/// index order.
pub open spec fn dot_s(u: Seq<int>, v: Seq<int>, n: int) -> int
    decreases n,
{
    if n <= 0 {
        0
    } else {
        fx_add_s(dot_s(u, v, n - 1), fx_mul_s(u[n - 1], v[n - 1]))
    }
}

/// An operation on two vectors whose lengths do not agree.
#[derive(Clone, Copy, Debug, PartialEq, Eq, Structural)]
pub enum LinAlgError {
    LengthMismatch,
}

/// Relies on rand::random: a uniformly distributed machine word from the
/// thread-local generator; nothing is assumed about the value drawn.
#[verifier::external_body]
fn random_u64() -> u64 {
    rand::random::<u64>()
}

/// One pseudorandom scalar with mean `mu` and spread `sigma`: the sum of
/// twelve uniform draws on `[0, 1]`, centered, has mean 0 and standard
/// deviation 1; the sample is `mu + sigma` times that sum. The result always
/// lies within six standard deviations of the mean.
pub fn gen_rand_val(mu: i64, sigma: i64) -> (r: i64)
    requires
        0 <= sigma,
        i64::MIN <= mu - 6 * sigma,
        mu + 6 * sigma <= i64::MAX,
    ensures
        mu - 6 * sigma <= r <= mu + 6 * sigma,
{
    let mut acc: i64 = 0;
    for j in 0..12usize
        invariant
            0 <= acc <= j * (SCALE as int),
    {
        let u = random_u64() % (SCALE as u64 + 1);
        acc = acc + (u as i64);
    }
    let centered = acc - 6 * SCALE;
    let spread = fx_mul(sigma, centered);
    proof {
        assert(abs_i((sigma as int) * (centered as int)) <= (6 * sigma) * SCALE)
            by (nonlinear_arith)
            requires
                0 <= sigma,
                -6 * (SCALE as int) <= centered <= 6 * (SCALE as int);
        lemma_fx_mul_bounded(sigma as int, centered as int, 6 * sigma);
    }
    fx_add(mu, spread)
}

/// A vector of `size` independent samples from `gen_rand_val`.
pub fn gen_rand_vec(size: usize, mu: i64, sigma: i64) -> (r: Vec<i64>)
    requires
        0 <= sigma,
        i64::MIN <= mu - 6 * sigma,
        mu + 6 * sigma <= i64::MAX,
    ensures
        r@.len() == size,
        forall|i: int| 0 <= i < size ==> mu - 6 * sigma <= #[trigger] r@[i] <= mu + 6 * sigma,
{
    let mut v: Vec<i64> = Vec::new();
    for j in 0..size
        invariant
            v@.len() == j,
            forall|i: int| 0 <= i < j ==> mu - 6 * sigma <= #[trigger] v@[i] <= mu + 6 * sigma,
            0 <= sigma,
            i64::MIN <= mu - 6 * sigma,
            mu + 6 * sigma <= i64::MAX,
    {
        let elem = gen_rand_val(mu, sigma);
        v.push(elem);
    }
    v
}

/// An `nrow` by `ncol` matrix of independent samples from `gen_rand_val`.
pub fn gen_rand_mat(nrow: usize, ncol: usize, mu: i64, sigma: i64) -> (r: Vec<Vec<i64>>)
    requires
        0 <= sigma,
        i64::MIN <= mu - 6 * sigma,
        mu + 6 * sigma <= i64::MAX,
    ensures
        r@.len() == nrow,
        forall|i: int| 0 <= i < nrow ==> (#[trigger] r@[i])@.len() == ncol,
        forall|i: int, j: int|
            0 <= i < nrow && 0 <= j < ncol ==> mu - 6 * sigma <= #[trigger] r@[i]@[j] <= mu + 6
                * sigma,
{
    let mut m: Vec<Vec<i64>> = Vec::new();
    for i in 0..nrow
        invariant
            m@.len() == i,
            forall|p: int| 0 <= p < i ==> (#[trigger] m@[p])@.len() == ncol,
            forall|p: int, q: int|
                0 <= p < i && 0 <= q < ncol ==> mu - 6 * sigma <= #[trigger] m@[p]@[q] <= mu + 6
                    * sigma,
            0 <= sigma,
            i64::MIN <= mu - 6 * sigma,
            mu + 6 * sigma <= i64::MAX,
    {
        let row = gen_rand_vec(ncol, mu, sigma);
        m.push(row);
    }
    m
}

/// Saturating fixed-point inner product, taken in index order. Returns a
/// length-mismatch error exactly when the operand lengths differ.
pub fn inner_prod(u: &Vec<i64>, v: &Vec<i64>) -> (r: Result<i64, LinAlgError>)
    ensures
        u@.len() == v@.len() ==> (r matches Ok(s) && s as int == dot_s(
            vals(u@),
            vals(v@),
            u@.len() as int,
        )),
        u@.len() != v@.len() ==> r == Err::<i64, LinAlgError>(LinAlgError::LengthMismatch),
{
    if u.len() != v.len() {
        return Err(LinAlgError::LengthMismatch);
    }
    let mut res: i64 = 0;
    for i in 0..v.len()
        invariant
            u@.len() == v@.len(),
            res as int == dot_s(vals(u@), vals(v@), i as int),
    {
        res = fx_add(res, fx_mul(u[i], v[i]));
    }
    Ok(res)
}

/// The transpose of a nonempty rectangular matrix: rows and columns swapped,
/// in a freshly allocated matrix.
pub fn transpose(m: &Vec<Vec<i64>>) -> (r: Vec<Vec<i64>>)
    requires
        m@.len() > 0,
        forall|i: int| 0 <= i < m@.len() ==> (#[trigger] m@[i])@.len() == m@[0]@.len(),
    ensures
        r@.len() == m@[0]@.len(),
        forall|i: int| 0 <= i < r@.len() ==> (#[trigger] r@[i])@.len() == m@.len(),
        forall|i: int, j: int|
            0 <= i < r@.len() && 0 <= j < m@.len() ==> #[trigger] r@[i]@[j] == m@[j]@[i],
        mat_vals(r@) == transpose_s(mat_vals(m@)),
{
    let nrows = m.len();
    let ncols = m[0].len();
    let mut transposed: Vec<Vec<i64>> = Vec::new();
    for i in 0..ncols
        invariant
            m@.len() == nrows > 0,
            forall|p: int| 0 <= p < nrows ==> (#[trigger] m@[p])@.len() == ncols,
            transposed@.len() == i,
            forall|p: int| 0 <= p < i ==> (#[trigger] transposed@[p])@.len() == nrows,
            forall|p: int, q: int|
                0 <= p < i && 0 <= q < nrows ==> #[trigger] transposed@[p]@[q] == m@[q]@[p],
    {
        let mut rowvec: Vec<i64> = Vec::new();
        for j in 0..nrows
            invariant
                m@.len() == nrows > 0,
                forall|p: int| 0 <= p < nrows ==> (#[trigger] m@[p])@.len() == ncols,
                i < ncols,
                rowvec@.len() == j,
                forall|q: int| 0 <= q < j ==> #[trigger] rowvec@[q] == m@[q]@[i as int],
        {
            rowvec.push(m[j][i]);
        }
        transposed.push(rowvec);
    }
    proof {
        assert(mat_vals(transposed@) =~~= transpose_s(mat_vals(m@)));
    }
    transposed
}

/// Transposing twice gives the original matrix back: for any nonempty
/// rectangular matrix with at least one column, the transpose of the
/// transpose equals the matrix itself.
pub proof fn lemma_transpose_involution(m: Seq<Seq<int>>, rows: int, cols: int)
    requires
        is_rect(m, rows, cols),
        rows > 0,
        cols > 0,
    ensures
        is_rect(transpose_s(m), cols, rows),
        transpose_s(transpose_s(m)) == m,
{
    let t = transpose_s(m);
    assert(transpose_s(t) =~~= m);
}

} // verus!
