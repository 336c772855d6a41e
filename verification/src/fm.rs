//! The factorization machine: parameter storage, prediction, and
//! per-example stochastic gradient descent training.
//!
//! A model predicts `bias + <w, x> + interaction(v, x)`, where the
//! interaction term sums, over every pair of feature positions, the inner
//! product of their factor vectors weighted by both feature values. It is
//! computed per factor column from a running sum and sum of squares, which
//! costs `ndim * k` multiplications instead of `ndim * ndim * k`.

use vstd::prelude::*;
use crate::fx::{abs_i, fx_add, fx_add_s, fx_mul, fx_mul_s, fx_sub, fx_sub_s, SCALE};
use crate::linalg::{
    gen_rand_mat, gen_rand_val, gen_rand_vec, inner_prod, transpose, dot_s, vals, mat_vals,
};

verus! {

/// Raw value of one half, used to halve the interaction accumulator.
pub const HALF: i64 = 500_000;

/// Standard deviation of the random initialization: one hundredth of a unit,
/// so that early interaction terms stay near zero.
pub const INIT_SIGMA: i64 = 10_000;

/// Raw learning rate used by `fit`: one thousandth of a unit.
pub const ETA: i64 = 1_000;

/// A factorization machine over fixed-point scalars.
///
/// `w` always holds `ndim` linear weights, and `v` is an `ndim` by `k`
/// row-major matrix whose row `i` is the factor vector of feature `i`.
/// `l0`, `l1` and `l2` are the raw regularization strengths applied to the
/// bias, the weights and the factors.
pub struct FM {
    pub k: usize,
    pub ndim: usize,
    pub bias: i64,
    pub w: Vec<i64>,
    pub v: Vec<Vec<i64>>,
    pub l0: i64,
    pub l1: i64,
    pub l2: i64,
}

/// The mathematical model of a machine: raw parameter values as integers.
#[verifier::ext_equal]
pub ghost struct FmView {
    pub k: int,
    pub ndim: int,
    pub bias: int,
    pub w: Seq<int>,
    pub v: Seq<Seq<int>>,
    pub l0: int,
    pub l1: int,
    pub l2: int,
}

impl View for FM {
    type V = FmView;

    open spec fn view(&self) -> FmView {
        FmView {
            k: self.k as int,
            ndim: self.ndim as int,
            bias: self.bias as int,
            w: vals(self.w@),
            v: mat_vals(self.v@),
            l0: self.l0 as int,
            l1: self.l1 as int,
            l2: self.l2 as int,
        }
    }
}

/// Well-formedness: positive dimensions, index-aligned parameter storage,
/// non-negative regularization strengths.
pub open spec fn wf(m: FmView) -> bool {
    &&& m.k >= 1
    &&& m.ndim >= 1
    &&& m.w.len() == m.ndim
    &&& m.v.len() == m.ndim
    &&& forall|i: int| 0 <= i < m.ndim ==> (#[trigger] m.v[i]).len() == m.k
    &&& m.l0 >= 0
    &&& m.l1 >= 0
    &&& m.l2 >= 0
}

/// Contribution of feature `i` to factor column `f`: `v[i][f] * x[i]`.
pub open spec fn contrib_s(v: Seq<Seq<int>>, x: Seq<int>, f: int, i: int) -> int {
    fx_mul_s(v[i][f], x[i])
}

/// Running sum of the first `n` contributions to factor column `f`.
pub open spec fn row_sum_s(v: Seq<Seq<int>>, x: Seq<int>, f: int, n: int) -> int
    decreases n,
{
    if n <= 0 {
        0
    } else {
        fx_add_s(row_sum_s(v, x, f, n - 1), contrib_s(v, x, f, n - 1))
    }
}

/// Running sum of the squares of the first `n` contributions to column `f`.
pub open spec fn row_sumsq_s(v: Seq<Seq<int>>, x: Seq<int>, f: int, n: int) -> int
    decreases n,
{
    if n <= 0 {
        0
    } else {
        fx_add_s(
            row_sumsq_s(v, x, f, n - 1),
            fx_mul_s(contrib_s(v, x, f, n - 1), contrib_s(v, x, f, n - 1)),
        )
    }
}

/// Accumulated interaction terms of the first `nf` factor columns: for each
/// column, the square of its contribution sum minus its sum of squares.
pub open spec fn inter_acc_s(v: Seq<Seq<int>>, x: Seq<int>, ndim: int, nf: int) -> int
    decreases nf,
{
    if nf <= 0 {
        0
    } else {
        fx_add_s(
            inter_acc_s(v, x, ndim, nf - 1),
            fx_sub_s(
                fx_mul_s(row_sum_s(v, x, nf - 1, ndim), row_sum_s(v, x, nf - 1, ndim)),
                row_sumsq_s(v, x, nf - 1, ndim),
            ),
        )
    }
}

/// The linear term: inner product of the weights with the features.
pub open spec fn pointwise_s(m: FmView, x: Seq<int>) -> int {
    dot_s(m.w, x, m.ndim)
}

/// The pairwise interaction term: half the accumulated per-column terms.
pub open spec fn pairwise_s(m: FmView, x: Seq<int>) -> int {
    fx_mul_s(HALF as int, inter_acc_s(m.v, x, m.ndim, m.k))
}

/// The model's prediction on one feature vector.
pub open spec fn predict_one_s(m: FmView, x: Seq<int>) -> int {
    fx_add_s(fx_add_s(m.bias, pointwise_s(m, x)), pairwise_s(m, x))
}

/// Residual of one training example: target minus current prediction.
pub open spec fn resid_s(m: FmView, x: Seq<int>, t: int) -> int {
    fx_sub_s(t, predict_one_s(m, x))
}

/// The bias after one gradient step on one example.
pub open spec fn step_bias_s(m: FmView, x: Seq<int>, t: int, eta: int) -> int {
    fx_add_s(m.bias, fx_mul_s(eta, fx_sub_s(resid_s(m, x, t), fx_mul_s(m.l0, m.bias))))
}

/// The weights after one gradient step on one example.
pub open spec fn step_w_s(m: FmView, x: Seq<int>, t: int, eta: int) -> Seq<int> {
    Seq::new(
        m.ndim as nat,
        |i: int|
            fx_add_s(
                m.w[i],
                fx_mul_s(
                    eta,
                    fx_sub_s(fx_mul_s(resid_s(m, x, t), x[i]), fx_mul_s(m.l1, m.w[i])),
                ),
            ),
    )
}

/// Gradient of the interaction term with respect to `v[i][f]`, evaluated on
/// the pre-update parameters.
pub open spec fn factor_grad_s(m: FmView, x: Seq<int>, i: int, f: int) -> int {
    fx_sub_s(
        fx_mul_s(x[i], row_sum_s(m.v, x, f, m.ndim)),
        fx_mul_s(m.v[i][f], fx_mul_s(x[i], x[i])),
    )
}

/// The factor matrix after one gradient step on one example.
pub open spec fn step_v_s(m: FmView, x: Seq<int>, t: int, eta: int) -> Seq<Seq<int>> {
    Seq::new(
        m.ndim as nat,
        |i: int|
            Seq::new(
                m.k as nat,
                |f: int|
                    fx_add_s(
                        m.v[i][f],
                        fx_mul_s(
                            eta,
                            fx_sub_s(
                                fx_mul_s(resid_s(m, x, t), factor_grad_s(m, x, i, f)),
                                fx_mul_s(m.l2, m.v[i][f]),
                            ),
                        ),
                    ),
            ),
    )
}

/// One stochastic gradient descent step: all three parameter groups are
/// recomputed from the same pre-update snapshot, then committed together.
pub open spec fn step_s(m: FmView, x: Seq<int>, t: int, eta: int) -> FmView {
    FmView {
        bias: step_bias_s(m, x, t, eta),
        w: step_w_s(m, x, t, eta),
        v: step_v_s(m, x, t, eta),
        ..m
    }
}

/// The model after the first `n` examples of one epoch, in input order.
pub open spec fn pass_s(m: FmView, rows: Seq<Seq<int>>, ts: Seq<int>, eta: int, n: int) -> FmView
    decreases n,
{
    if n <= 0 {
        m
    } else {
        step_s(pass_s(m, rows, ts, eta, n - 1), rows[n - 1], ts[n - 1], eta)
    }
}

/// The model after `epochs` full passes over the dataset.
pub open spec fn fit_s(m: FmView, rows: Seq<Seq<int>>, ts: Seq<int>, eta: int, epochs: int) -> FmView
    decreases epochs,
{
    if epochs <= 0 {
        m
    } else {
        pass_s(fit_s(m, rows, ts, eta, epochs - 1), rows, ts, eta, ts.len() as int)
    }
}

/// One update step preserves well-formedness and never changes the factor
/// rank, the feature dimension, or the regularization strengths.
pub proof fn lemma_step_wf(m: FmView, x: Seq<int>, t: int, eta: int)
    requires
        wf(m),
    ensures
        wf(step_s(m, x, t, eta)),
        step_s(m, x, t, eta).k == m.k,
        step_s(m, x, t, eta).ndim == m.ndim,
        step_s(m, x, t, eta).l0 == m.l0,
        step_s(m, x, t, eta).l1 == m.l1,
        step_s(m, x, t, eta).l2 == m.l2,
{
}

/// One epoch preserves well-formedness, dimensions, and strengths.
pub proof fn lemma_pass_wf(m: FmView, rows: Seq<Seq<int>>, ts: Seq<int>, eta: int, n: int)
    requires
        wf(m),
    ensures
        wf(pass_s(m, rows, ts, eta, n)),
        pass_s(m, rows, ts, eta, n).k == m.k,
        pass_s(m, rows, ts, eta, n).ndim == m.ndim,
        pass_s(m, rows, ts, eta, n).l0 == m.l0,
        pass_s(m, rows, ts, eta, n).l1 == m.l1,
        pass_s(m, rows, ts, eta, n).l2 == m.l2,
    decreases n,
{
    if n > 0 {
        lemma_pass_wf(m, rows, ts, eta, n - 1);
        lemma_step_wf(pass_s(m, rows, ts, eta, n - 1), rows[n - 1], ts[n - 1], eta);
    }
}

/// Dimension invariance of training: however many epochs are run, the model
/// keeps `ndim` weights, an `ndim` by `k` factor matrix, and its strengths.
pub proof fn lemma_fit_wf(m: FmView, rows: Seq<Seq<int>>, ts: Seq<int>, eta: int, epochs: int)
    requires
        wf(m),
    ensures
        wf(fit_s(m, rows, ts, eta, epochs)),
        fit_s(m, rows, ts, eta, epochs).k == m.k,
        fit_s(m, rows, ts, eta, epochs).ndim == m.ndim,
        fit_s(m, rows, ts, eta, epochs).l0 == m.l0,
        fit_s(m, rows, ts, eta, epochs).l1 == m.l1,
        fit_s(m, rows, ts, eta, epochs).l2 == m.l2,
    decreases epochs,
{
    if epochs > 0 {
        lemma_fit_wf(m, rows, ts, eta, epochs - 1);
        lemma_pass_wf(fit_s(m, rows, ts, eta, epochs - 1), rows, ts, eta, ts.len() as int);
    }
}

/// Regularization pull on the bias: when the decay term `l0 * bias`
/// outweighs the residual by at least one whole unit and `eta * l0` is at
/// most one, a training step cannot grow the bias magnitude.
pub proof fn lemma_step_pull_bias(m: FmView, x: Seq<int>, t: int, eta: int)
    requires
        0 <= eta,
        0 <= m.l0,
        eta * m.l0 <= (SCALE as int) * (SCALE as int),
        (SCALE as int) * (abs_i(resid_s(m, x, t)) + 1) <= m.l0 * abs_i(m.bias),
        abs_i(m.bias) <= i64::MAX,
        abs_i(resid_s(m, x, t)) <= i64::MAX,
    ensures
        abs_i(step_s(m, x, t, eta).bias) <= abs_i(m.bias),
{
    crate::algebra::lemma_regularization_pull(m.bias, resid_s(m, x, t), eta, m.l0);
}

/// Regularization pull on a weight: its gradient signal is the residual
/// scaled by the feature value, and under the same dominance condition a
/// training step cannot grow the weight's magnitude.
pub proof fn lemma_step_pull_weight(m: FmView, x: Seq<int>, t: int, eta: int, i: int)
    requires
        0 <= i < m.ndim,
        0 <= eta,
        0 <= m.l1,
        eta * m.l1 <= (SCALE as int) * (SCALE as int),
        (SCALE as int) * (abs_i(fx_mul_s(resid_s(m, x, t), x[i])) + 1) <= m.l1 * abs_i(m.w[i]),
        abs_i(m.w[i]) <= i64::MAX,
        abs_i(fx_mul_s(resid_s(m, x, t), x[i])) <= i64::MAX,
    ensures
        abs_i(step_s(m, x, t, eta).w[i]) <= abs_i(m.w[i]),
{
    crate::algebra::lemma_regularization_pull(
        m.w[i],
        fx_mul_s(resid_s(m, x, t), x[i]),
        eta,
        m.l1,
    );
}

/// Regularization pull on a factor: its gradient signal is the residual
/// scaled by the interaction gradient, and under the same dominance
/// condition a training step cannot grow the factor's magnitude.
pub proof fn lemma_step_pull_factor(m: FmView, x: Seq<int>, t: int, eta: int, i: int, f: int)
    requires
        0 <= i < m.ndim,
        0 <= f < m.k,
        0 <= eta,
        0 <= m.l2,
        eta * m.l2 <= (SCALE as int) * (SCALE as int),
        (SCALE as int) * (abs_i(fx_mul_s(resid_s(m, x, t), factor_grad_s(m, x, i, f))) + 1)
            <= m.l2 * abs_i(m.v[i][f]),
        abs_i(m.v[i][f]) <= i64::MAX,
        abs_i(fx_mul_s(resid_s(m, x, t), factor_grad_s(m, x, i, f))) <= i64::MAX,
    ensures
        abs_i(step_s(m, x, t, eta).v[i][f]) <= abs_i(m.v[i][f]),
{
    crate::algebra::lemma_regularization_pull(
        m.v[i][f],
        fx_mul_s(resid_s(m, x, t), factor_grad_s(m, x, i, f)),
        eta,
        m.l2,
    );
}

impl FM {
    /// A fresh model with the given factor rank, feature dimension and raw
    /// regularization strengths (whole units), its parameters drawn at
    /// random near zero.
    pub fn new(k: &usize, ndim: &usize, l0: i32, l1: i32, l2: i32) -> (r: FM)
        requires
            *k >= 1,
            *ndim >= 1,
            l0 >= 0,
            l1 >= 0,
            l2 >= 0,
        ensures
            wf(r@),
            r@.k == *k as int,
            r@.ndim == *ndim as int,
            r@.l0 == l0 as int * SCALE,
            r@.l1 == l1 as int * SCALE,
            r@.l2 == l2 as int * SCALE,
            abs_i(r@.bias) <= 6 * INIT_SIGMA,
            forall|i: int|
                0 <= i < r@.ndim ==> abs_i(#[trigger] r@.w[i]) <= 6 * INIT_SIGMA,
            forall|i: int, f: int|
                0 <= i < r@.ndim && 0 <= f < r@.k ==> abs_i(#[trigger] r@.v[i][f]) <= 6
                    * INIT_SIGMA,
    {
        let mu: i64 = 0;
        let sigma: i64 = INIT_SIGMA;
        let bias = gen_rand_val(mu, sigma);
        let w = gen_rand_vec(*ndim, mu, sigma);
        let v = gen_rand_mat(*ndim, *k, mu, sigma);
        FM {
            k: *k,
            ndim: *ndim,
            bias,
            w,
            v,
            l0: (l0 as i64) * SCALE,
            l1: (l1 as i64) * SCALE,
            l2: (l2 as i64) * SCALE,
        }
    }

    /// The linear term of the prediction.
    pub fn pointwise_sum(&self, vec: &Vec<i64>) -> (r: i64)
        requires
            wf(self@),
            vec@.len() == self@.ndim,
        ensures
            r as int == pointwise_s(self@, vals(vec@)),
    {
        match inner_prod(&self.w, vec) {
            Ok(s) => s,
            Err(_) => unreached(),
        }
    }

    /// The pairwise interaction term, computed per factor column from the
    /// running sum and sum of squares of a memoized contribution table. The
    /// identity behind this reformulation is proved exact in `algebra`.
    pub fn pairwise_sum(&self, vec: &Vec<i64>) -> (r: i64)
        requires
            wf(self@),
            vec@.len() == self@.ndim,
        ensures
            r as int == pairwise_s(self@, vals(vec@)),
    {
        let ghost mv = self@.v;
        let ghost xv = vals(vec@);
        let mut table: Vec<Vec<i64>> = Vec::new();
        for f in 0..self.k
            invariant
                wf(self@),
                vec@.len() == self@.ndim,
                mv == self@.v,
                xv == vals(vec@),
                table@.len() == f,
                forall|p: int, i: int|
                    0 <= p < f && 0 <= i < self@.ndim ==> #[trigger] table@[p]@[i] as int
                        == contrib_s(mv, xv, p, i),
                forall|p: int| 0 <= p < f ==> (#[trigger] table@[p])@.len() == self@.ndim,
        {
            let mut partial_interaction: Vec<i64> = Vec::new();
            for i in 0..self.ndim
                invariant
                    wf(self@),
                    vec@.len() == self@.ndim,
                    mv == self@.v,
                    xv == vals(vec@),
                    f < self@.k,
                    partial_interaction@.len() == i,
                    forall|q: int|
                        0 <= q < i ==> #[trigger] partial_interaction@[q] as int == contrib_s(
                            mv,
                            xv,
                            f as int,
                            q,
                        ),
            {
                proof {
                    assert(self@.v[i as int].len() == self@.k);
                }
                partial_interaction.push(fx_mul(self.v[i][f], vec[i]));
            }
            table.push(partial_interaction);
        }
        let mut sum: i64 = 0;
        for f in 0..self.k
            invariant
                wf(self@),
                vec@.len() == self@.ndim,
                mv == self@.v,
                xv == vals(vec@),
                table@.len() == self@.k,
                forall|p: int, i: int|
                    0 <= p < self@.k && 0 <= i < self@.ndim ==> #[trigger] table@[p]@[i] as int
                        == contrib_s(mv, xv, p, i),
                forall|p: int| 0 <= p < self@.k ==> (#[trigger] table@[p])@.len() == self@.ndim,
                sum as int == inter_acc_s(mv, xv, self@.ndim, f as int),
        {
            let mut first_sum: i64 = 0;
            let mut second_sum: i64 = 0;
            for i in 0..self.ndim
                invariant
                    wf(self@),
                    vec@.len() == self@.ndim,
                    mv == self@.v,
                    xv == vals(vec@),
                    f < self@.k,
                    table@.len() == self@.k,
                    forall|p: int, q: int|
                        0 <= p < self@.k && 0 <= q < self@.ndim ==> #[trigger] table@[p]@[q] as int
                            == contrib_s(mv, xv, p, q),
                    forall|p: int| 0 <= p < self@.k ==> (#[trigger] table@[p])@.len() == self@.ndim,
                    first_sum as int == row_sum_s(mv, xv, f as int, i as int),
                    second_sum as int == row_sumsq_s(mv, xv, f as int, i as int),
            {
                let c = table[f][i];
                first_sum = fx_add(first_sum, c);
                second_sum = fx_add(second_sum, fx_mul(c, c));
            }
            sum = fx_add(sum, fx_sub(fx_mul(first_sum, first_sum), second_sum));
        }
        fx_mul(HALF, sum)
    }

    /// The prediction on one feature vector, which must have length `ndim`.
    pub fn predict_one(&self, vec: &Vec<i64>) -> (r: i64)
        requires
            wf(self@),
            vec@.len() == self@.ndim,
        ensures
            r as int == predict_one_s(self@, vals(vec@)),
    {
        fx_add(fx_add(self.bias, self.pointwise_sum(vec)), self.pairwise_sum(vec))
    }

    /// Predictions on each feature row independently, in input order.
    pub fn predict(&self, features: &Vec<Vec<i64>>) -> (r: Vec<i64>)
        requires
            wf(self@),
            forall|i: int|
                0 <= i < features@.len() ==> (#[trigger] features@[i])@.len() == self@.ndim,
        ensures
            r@.len() == features@.len(),
            forall|i: int|
                0 <= i < features@.len() ==> #[trigger] r@[i] as int == predict_one_s(
                    self@,
                    vals(features@[i]@),
                ),
    {
        let mut t_pred: Vec<i64> = Vec::new();
        for i in 0..features.len()
            invariant
                wf(self@),
                forall|p: int|
                    0 <= p < features@.len() ==> (#[trigger] features@[p])@.len() == self@.ndim,
                t_pred@.len() == i,
                forall|p: int|
                    0 <= p < i ==> #[trigger] t_pred@[p] as int == predict_one_s(
                        self@,
                        vals(features@[p]@),
                    ),
        {
            let x = &features[i];
            t_pred.push(self.predict_one(x));
        }
        t_pred
    }

    /// Trains for `num_iter` epochs with the default learning rate `ETA`.
    pub fn fit(&mut self, features: &Vec<Vec<i64>>, t: &Vec<i64>, num_iter: i32)
        requires
            wf(old(self)@),
            features@.len() == t@.len(),
            forall|i: int|
                0 <= i < features@.len() ==> (#[trigger] features@[i])@.len() == old(self)@.ndim,
            num_iter >= 1,
        ensures
            final(self)@ == fit_s(
                old(self)@,
                mat_vals(features@),
                vals(t@),
                ETA as int,
                num_iter as int,
            ),
            wf(final(self)@),
    {
        self.fit_with_rate(features, t, num_iter, ETA)
    }

    /// Trains for `num_iter` epochs of pure online stochastic gradient
    /// descent: examples are visited strictly in input order, and after each
    /// one the bias, the weights and the factors are replaced by values
    /// computed from one consistent pre-update snapshot.
    pub fn fit_with_rate(&mut self, features: &Vec<Vec<i64>>, t: &Vec<i64>, num_iter: i32, eta: i64)
        requires
            wf(old(self)@),
            features@.len() == t@.len(),
            forall|i: int|
                0 <= i < features@.len() ==> (#[trigger] features@[i])@.len() == old(self)@.ndim,
            num_iter >= 1,
            eta >= 1,
        ensures
            final(self)@ == fit_s(
                old(self)@,
                mat_vals(features@),
                vals(t@),
                eta as int,
                num_iter as int,
            ),
            wf(final(self)@),
    {
        let ghost m0 = self@;
        let ghost rows = mat_vals(features@);
        let ghost ts = vals(t@);
        for epoch in 0..num_iter
            invariant
                wf(m0),
                rows == mat_vals(features@),
                ts == vals(t@),
                features@.len() == t@.len(),
                forall|i: int| 0 <= i < rows.len() ==> (#[trigger] rows[i]).len() == m0.ndim,
                self@ == fit_s(m0, rows, ts, eta as int, epoch as int),
                wf(self@),
                self@.ndim == m0.ndim,
                self@.k == m0.k,
        {
            proof {
                lemma_fit_wf(m0, rows, ts, eta as int, epoch as int);
            }
            let ghost mepoch = self@;
            for j in 0..t.len()
                invariant
                    wf(m0),
                    rows == mat_vals(features@),
                    ts == vals(t@),
                    features@.len() == t@.len(),
                    forall|i: int| 0 <= i < rows.len() ==> (#[trigger] rows[i]).len() == m0.ndim,
                    mepoch == fit_s(m0, rows, ts, eta as int, epoch as int),
                    self@ == pass_s(mepoch, rows, ts, eta as int, j as int),
                    wf(self@),
                    self@.ndim == m0.ndim,
                    self@.k == m0.k,
            {
                let ghost mcur = self@;
                let ghost xv = rows[j as int];
                let ghost tj = ts[j as int];
                let x = &features[j];
                proof {
                    assert(xv == vals(x@));
                }
                let t_pred = self.predict_one(x);
                let residue = fx_sub(t[j], t_pred);
                proof {
                    assert(residue as int == resid_s(mcur, xv, tj));
                }
                let updated_bias = fx_add(
                    self.bias,
                    fx_mul(eta, fx_sub(residue, fx_mul(self.l0, self.bias))),
                );
                let mut updated_w: Vec<i64> = Vec::new();
                for i in 0..self.ndim
                    invariant
                        self@ == mcur,
                        wf(mcur),
                        xv.len() == mcur.ndim,
                        residue as int == resid_s(mcur, xv, tj),
                        xv == vals(x@),
                        updated_w@.len() == i,
                        forall|p: int|
                            0 <= p < i ==> #[trigger] updated_w@[p] as int == step_w_s(
                                mcur,
                                xv,
                                tj,
                                eta as int,
                            )[p],
                {
                    let updated_w_i = fx_add(
                        self.w[i],
                        fx_mul(eta, fx_sub(fx_mul(residue, x[i]), fx_mul(self.l1, self.w[i]))),
                    );
                    updated_w.push(updated_w_i);
                }
                let mut updated_vt: Vec<Vec<i64>> = Vec::new();
                for f in 0..self.k
                    invariant
                        self@ == mcur,
                        wf(mcur),
                        xv.len() == mcur.ndim,
                        residue as int == resid_s(mcur, xv, tj),
                        xv == vals(x@),
                        updated_vt@.len() == f,
                        forall|p: int|
                            0 <= p < f ==> (#[trigger] updated_vt@[p])@.len() == mcur.ndim,
                        forall|p: int, q: int|
                            0 <= p < f && 0 <= q < mcur.ndim ==> #[trigger] updated_vt@[p]@[q] as int
                                == step_v_s(mcur, xv, tj, eta as int)[q][p],
                {
                    let mut partial_sum: i64 = 0;
                    for h in 0..self.ndim
                        invariant
                            self@ == mcur,
                            wf(mcur),
                            xv.len() == mcur.ndim,
                            xv == vals(x@),
                            f < mcur.k,
                            partial_sum as int == row_sum_s(mcur.v, xv, f as int, h as int),
                    {
                        proof {
                            assert(self@.v[h as int].len() == self@.k);
                        }
                        partial_sum = fx_add(partial_sum, fx_mul(self.v[h][f], x[h]));
                    }
                    let mut updated_v_i: Vec<i64> = Vec::new();
                    for i in 0..self.ndim
                        invariant
                            self@ == mcur,
                            wf(mcur),
                            xv.len() == mcur.ndim,
                            residue as int == resid_s(mcur, xv, tj),
                            xv == vals(x@),
                            f < mcur.k,
                            partial_sum as int == row_sum_s(mcur.v, xv, f as int, mcur.ndim),
                            updated_v_i@.len() == i,
                            forall|q: int|
                                0 <= q < i ==> #[trigger] updated_v_i@[q] as int == step_v_s(
                                    mcur,
                                    xv,
                                    tj,
                                    eta as int,
                                )[q][f as int],
                    {
                        proof {
                            assert(self@.v[i as int].len() == self@.k);
                        }
                        let nabra = fx_sub(
                            fx_mul(x[i], partial_sum),
                            fx_mul(self.v[i][f], fx_mul(x[i], x[i])),
                        );
                        let updated_v_i_f = fx_add(
                            self.v[i][f],
                            fx_mul(eta, fx_sub(fx_mul(residue, nabra), fx_mul(self.l2, self.v[i][f]))),
                        );
                        updated_v_i.push(updated_v_i_f);
                    }
                    updated_vt.push(updated_v_i);
                }
                let updated_v = transpose(&updated_vt);
                self.bias = updated_bias;
                self.w = updated_w;
                self.v = updated_v;
                proof {
                    let stepped = step_s(mcur, xv, tj, eta as int);
                    lemma_step_wf(mcur, xv, tj, eta as int);
                    assert(self@.w =~= stepped.w);
                    assert(self@.v =~~= stepped.v);
                    assert(self@ =~~= stepped);
                    assert(self@ == pass_s(mepoch, rows, ts, eta as int, j + 1));
                }
            }
            proof {
                assert(self@ == fit_s(m0, rows, ts, eta as int, epoch + 1));
            }
        }
    }
}

} // verus!
