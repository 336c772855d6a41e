//! Exact-arithmetic laws behind the model.
//!
//! The interaction algorithm in `fm` rests on an algebraic identity: summing
//! `v[i][f] * v[j][f] * x[i] * x[j]` over all pairs `i < j` and all factor
//! columns `f` equals, for each column, half of the squared contribution sum
//! minus the sum of squared contributions. The lemmas here state and prove
//! that identity over exact integer arithmetic, the form in which it is
//! mathematically exact; the fixed-point code applies it with rounding at
//! each multiplication. The regularization-pull lemma, by contrast, is
//! proved directly over the saturating fixed-point update rule that the
//! training step applies.

use vstd::prelude::*;
use vstd::arithmetic::div_mod::{
    lemma_div_multiples_vanish, lemma_div_pos_is_pos, lemma_fundamental_div_mod, lemma_mod_bound,
};
use crate::fx::{abs_i, fx_add_s, fx_mul_s, fx_sub_s, tdiv, SCALE};

verus! {

/// Exact sum of the first `n` contributions `v[i][f] * x[i]` to column `f`.
pub open spec fn ssum(v: Seq<Seq<int>>, x: Seq<int>, f: int, n: int) -> int
    decreases n,
{
    if n <= 0 {
        0
    } else {
        ssum(v, x, f, n - 1) + v[n - 1][f] * x[n - 1]
    }
}

/// Exact sum of the squares of the first `n` contributions to column `f`.
pub open spec fn ssumsq(v: Seq<Seq<int>>, x: Seq<int>, f: int, n: int) -> int
    decreases n,
{
    if n <= 0 {
        0
    } else {
        ssumsq(v, x, f, n - 1) + (v[n - 1][f] * x[n - 1]) * (v[n - 1][f] * x[n - 1])
    }
}

/// Exact sum, over pairs `i' < i < n`, of the products of contributions
/// `i` and `i'` to column `f`.
pub open spec fn spair(v: Seq<Seq<int>>, x: Seq<int>, f: int, n: int) -> int
    decreases n,
{
    if n <= 0 {
        0
    } else {
        spair(v, x, f, n - 1) + (v[n - 1][f] * x[n - 1]) * ssum(v, x, f, n - 1)
    }
}

/// The reformulated interaction accumulator over the first `nf` columns:
/// squared contribution sum minus sum of squared contributions, per column.
pub open spec fn fterms(v: Seq<Seq<int>>, x: Seq<int>, ndim: int, nf: int) -> int
    decreases nf,
{
    if nf <= 0 {
        0
    } else {
        fterms(v, x, ndim, nf - 1) + (ssum(v, x, nf - 1, ndim) * ssum(v, x, nf - 1, ndim) - ssumsq(
            v,
            x,
            nf - 1,
            ndim,
        ))
    }
}

/// Sum of `spair` over the first `nf` columns.
pub open spec fn spairsum(v: Seq<Seq<int>>, x: Seq<int>, n: int, nf: int) -> int
    decreases nf,
{
    if nf <= 0 {
        0
    } else {
        spairsum(v, x, n, nf - 1) + spair(v, x, nf - 1, n)
    }
}

/// The brute-force pairwise term of features `i` and `j`: the factor inner
/// product over the first `kk` columns, weighted by both feature values.
pub open spec fn bpair(v: Seq<Seq<int>>, x: Seq<int>, i: int, j: int, kk: int) -> int
    decreases kk,
{
    if kk <= 0 {
        0
    } else {
        bpair(v, x, i, j, kk - 1) + v[i][kk - 1] * v[j][kk - 1] * x[i] * x[j]
    }
}

/// Sum, over the first `kk` columns, of contribution `j` times the column's
/// sum of the first `m` contributions.
pub open spec fn cfsum(v: Seq<Seq<int>>, x: Seq<int>, j: int, m: int, kk: int) -> int
    decreases kk,
{
    if kk <= 0 {
        0
    } else {
        cfsum(v, x, j, m, kk - 1) + (v[j][kk - 1] * x[j]) * ssum(v, x, kk - 1, m)
    }
}

/// Brute-force pairwise terms of feature `j` against features `i < m`.
pub open spec fn brute_in(v: Seq<Seq<int>>, x: Seq<int>, j: int, m: int, kk: int) -> int
    decreases m,
{
    if m <= 0 {
        0
    } else {
        brute_in(v, x, j, m - 1, kk) + bpair(v, x, m - 1, j, kk)
    }
}

/// The brute-force pairwise interaction: `bpair` over all pairs `i < j < n`.
pub open spec fn brute(v: Seq<Seq<int>>, x: Seq<int>, n: int, kk: int) -> int
    decreases n,
{
    if n <= 0 {
        0
    } else {
        brute(v, x, n - 1, kk) + brute_in(v, x, n - 1, n - 1, kk)
    }
}

/// Squaring a sum expands into the sum of squares plus twice the pair sum.
proof fn lemma_square_expansion(v: Seq<Seq<int>>, x: Seq<int>, f: int, n: int)
    ensures
        ssum(v, x, f, n) * ssum(v, x, f, n) == ssumsq(v, x, f, n) + 2 * spair(v, x, f, n),
    decreases n,
{
    if n > 0 {
        lemma_square_expansion(v, x, f, n - 1);
        let s = ssum(v, x, f, n - 1);
        let c = v[n - 1][f] * x[n - 1];
        assert((s + c) * (s + c) == s * s + 2 * (c * s) + c * c) by (nonlinear_arith);
    }
}

/// Extending the inner sums by feature `m - 1` adds that feature's
/// brute-force pair term against `j`.
proof fn lemma_cfsum_step(v: Seq<Seq<int>>, x: Seq<int>, j: int, m: int, kk: int)
    requires
        m >= 1,
    ensures
        cfsum(v, x, j, m, kk) == cfsum(v, x, j, m - 1, kk) + bpair(v, x, m - 1, j, kk),
    decreases kk,
{
    if kk > 0 {
        lemma_cfsum_step(v, x, j, m, kk - 1);
        let a = v[j][kk - 1] * x[j];
        let s = ssum(v, x, kk - 1, m - 1);
        let c = v[m - 1][kk - 1] * x[m - 1];
        assert(a * (s + c) == a * s + a * c) by (nonlinear_arith);
        assert((v[j][kk - 1] * x[j]) * (v[m - 1][kk - 1] * x[m - 1]) == v[m - 1][kk - 1] * v[j][kk
            - 1] * x[m - 1] * x[j]) by (nonlinear_arith);
    }
}

/// With no features summed yet, the column sums contribute nothing.
proof fn lemma_cfsum_zero(v: Seq<Seq<int>>, x: Seq<int>, j: int, kk: int)
    ensures
        cfsum(v, x, j, 0, kk) == 0,
    decreases kk,
{
    if kk > 0 {
        lemma_cfsum_zero(v, x, j, kk - 1);
    }
}

/// Summing contribution `j` against each column's first `m` contributions
/// equals the brute-force pair terms of `j` against features `i < m`.
proof fn lemma_cfsum_is_brute_in(v: Seq<Seq<int>>, x: Seq<int>, j: int, m: int, kk: int)
    requires
        m >= 0,
    ensures
        cfsum(v, x, j, m, kk) == brute_in(v, x, j, m, kk),
    decreases m,
{
    if m == 0 {
        lemma_cfsum_zero(v, x, j, kk);
    } else {
        lemma_cfsum_is_brute_in(v, x, j, m - 1, kk);
        lemma_cfsum_step(v, x, j, m, kk);
    }
}

/// With no features, there are no pairs.
proof fn lemma_spairsum_zero(v: Seq<Seq<int>>, x: Seq<int>, kk: int)
    ensures
        spairsum(v, x, 0, kk) == 0,
    decreases kk,
{
    if kk > 0 {
        lemma_spairsum_zero(v, x, kk - 1);
    }
}

/// Extending every column's pair sum by feature `n - 1` adds that feature's
/// cross terms against all earlier features.
proof fn lemma_spairsum_step(v: Seq<Seq<int>>, x: Seq<int>, n: int, kk: int)
    requires
        n >= 1,
    ensures
        spairsum(v, x, n, kk) == spairsum(v, x, n - 1, kk) + cfsum(v, x, n - 1, n - 1, kk),
    decreases kk,
{
    if kk > 0 {
        lemma_spairsum_step(v, x, n, kk - 1);
    }
}

/// Exchanging the order of summation: pair sums per column, summed over
/// columns, equal the brute-force sum over pairs of features.
proof fn lemma_exchange(v: Seq<Seq<int>>, x: Seq<int>, n: int, kk: int)
    requires
        n >= 0,
    ensures
        spairsum(v, x, n, kk) == brute(v, x, n, kk),
    decreases n,
{
    if n == 0 {
        lemma_spairsum_zero(v, x, kk);
    } else {
        lemma_exchange(v, x, n - 1, kk);
        lemma_spairsum_step(v, x, n, kk);
        lemma_cfsum_is_brute_in(v, x, n - 1, n - 1, kk);
    }
}

/// Per column, the reformulated term is twice the column's pair sum.
proof fn lemma_fterms(v: Seq<Seq<int>>, x: Seq<int>, ndim: int, nf: int)
    ensures
        fterms(v, x, ndim, nf) == 2 * spairsum(v, x, ndim, nf),
    decreases nf,
{
    if nf > 0 {
        lemma_fterms(v, x, ndim, nf - 1);
        lemma_square_expansion(v, x, nf - 1, ndim);
    }
}

/// The interaction reformulation is exact: over exact integer arithmetic,
/// the per-column accumulation of squared sum minus sum of squares equals
/// twice the brute-force sum of `v[i][f] * v[j][f] * x[i] * x[j]` over all
/// pairs `i < j` and columns `f` - and so its half equals that sum itself.
pub proof fn lemma_interaction_equivalence(v: Seq<Seq<int>>, x: Seq<int>, ndim: int, kk: int)
    requires
        ndim >= 0,
    ensures
        fterms(v, x, ndim, kk) == 2 * brute(v, x, ndim, kk),
        fterms(v, x, ndim, kk) / 2 == brute(v, x, ndim, kk),
{
    lemma_fterms(v, x, ndim, kk);
    lemma_exchange(v, x, ndim, kk);
    lemma_div_multiples_vanish(brute(v, x, ndim, kk), 2);
}

/// Facts about division rounded toward zero by a positive divisor: the sign
/// is kept, and the rescaled quotient sits within one divisor of the
/// dividend.
proof fn lemma_tdiv_props(p: int, d: int)
    requires
        d >= 1,
    ensures
        p >= 0 ==> tdiv(p, d) >= 0 && d * tdiv(p, d) <= p && d * tdiv(p, d) >= p - d + 1,
        p <= 0 ==> tdiv(p, d) <= 0 && d * tdiv(p, d) >= p && d * tdiv(p, d) <= p + d - 1,
{
    if p >= 0 {
        lemma_div_pos_is_pos(p, d);
        lemma_fundamental_div_mod(p, d);
        lemma_mod_bound(p, d);
    } else {
        lemma_div_pos_is_pos(-p, d);
        lemma_fundamental_div_mod(-p, d);
        lemma_mod_bound(-p, d);
        let q = (-p) / d;
        assert(d * (-q) == -(d * q)) by (nonlinear_arith);
    }
}

/// Regularization pulls parameters toward zero. Every parameter update that
/// `fit` applies has the saturating fixed-point form
/// `p + e * (g - l * p)` - for the bias with the residual as signal `g`, for
/// a weight with `residual * x[i]`, and for a factor with
/// `residual * gradient`. Whenever the decay term `l * p` outweighs the
/// signal by at least one whole unit and `e * l` is at most one, the update
/// cannot grow the parameter's magnitude.
pub proof fn lemma_regularization_pull(p: int, g: int, e: int, l: int)
    requires
        0 <= e,
        0 <= l,
        e * l <= (SCALE as int) * (SCALE as int),
        (SCALE as int) * (abs_i(g) + 1) <= l * abs_i(p),
        abs_i(p) <= i64::MAX,
        abs_i(g) <= i64::MAX,
    ensures
        abs_i(fx_add_s(p, fx_mul_s(e, fx_sub_s(g, fx_mul_s(l, p))))) <= abs_i(p),
{
    let s = SCALE as int;
    let lp = l * p;
    let t1 = tdiv(lp, s);
    let d1 = fx_mul_s(l, p);
    lemma_tdiv_props(lp, s);
    if p > 0 {
        assert(lp >= l) by (nonlinear_arith)
            requires
                lp == l * p,
                l >= 0,
                p >= 1,
        ;
        assert(s * d1 <= lp && 0 <= d1 && g <= d1);
        let u = fx_sub_s(g, d1);
        let au = abs_i(u);
        assert(u <= 0 && au <= d1 + abs_i(g));
        let eu = e * u;
        assert(eu <= 0 && abs_i(eu) == e * au) by (nonlinear_arith)
            requires
                eu == e * u,
                e >= 0,
                u <= 0,
                au == abs_i(u),
        ;
        let t2 = tdiv(eu, s);
        lemma_tdiv_props(eu, s);
        let m2 = fx_mul_s(e, u);
        assert(m2 <= 0 && s * abs_i(m2) <= e * au);
        assert(e * au <= e * (d1 + abs_i(g))) by (nonlinear_arith)
            requires
                e >= 0,
                au <= d1 + abs_i(g),
        ;
        assert(e * (d1 + abs_i(g)) == e * d1 + e * abs_i(g)) by (nonlinear_arith);
        assert(s * (e * d1) == e * (s * d1)) by (nonlinear_arith);
        assert(s * (e * abs_i(g)) == e * (s * abs_i(g))) by (nonlinear_arith);
        assert(e * (s * d1) <= e * lp) by (nonlinear_arith)
            requires
                e >= 0,
                s * d1 <= lp,
        ;
        assert(e * (s * abs_i(g)) <= e * lp) by (nonlinear_arith)
            requires
                e >= 0,
                s * abs_i(g) <= lp,
        ;
        assert(e * lp == (e * l) * p) by (nonlinear_arith)
            requires
                lp == l * p,
        ;
        assert((e * l) * p <= (s * s) * p) by (nonlinear_arith)
            requires
                e * l <= s * s,
                p >= 0,
        ;
        assert(s * (s * abs_i(m2)) <= 2 * ((s * s) * p));
        assert(abs_i(m2) <= 2 * p);
        assert(abs_i(fx_add_s(p, m2)) <= p);
    } else if p < 0 {
        let ap = -p;
        assert(lp <= -l) by (nonlinear_arith)
            requires
                lp == l * p,
                l >= 0,
                p <= -1,
        ;
        assert(abs_i(lp) == l * ap) by (nonlinear_arith)
            requires
                lp == l * p,
                p < 0,
                l >= 0,
                ap == -p,
        ;
        assert(s * d1 >= lp && d1 <= 0 && g >= d1);
        let u = fx_sub_s(g, d1);
        let au = abs_i(u);
        assert(u >= 0 && au <= abs_i(d1) + abs_i(g));
        let eu = e * u;
        assert(eu >= 0 && abs_i(eu) == e * au) by (nonlinear_arith)
            requires
                eu == e * u,
                e >= 0,
                u >= 0,
                au == abs_i(u),
        ;
        let t2 = tdiv(eu, s);
        lemma_tdiv_props(eu, s);
        let m2 = fx_mul_s(e, u);
        assert(m2 >= 0 && s * abs_i(m2) <= e * au);
        assert(e * au <= e * (abs_i(d1) + abs_i(g))) by (nonlinear_arith)
            requires
                e >= 0,
                au <= abs_i(d1) + abs_i(g),
        ;
        assert(e * (abs_i(d1) + abs_i(g)) == e * abs_i(d1) + e * abs_i(g)) by (nonlinear_arith);
        assert(s * (e * abs_i(d1)) == e * (s * abs_i(d1))) by (nonlinear_arith);
        assert(s * (e * abs_i(g)) == e * (s * abs_i(g))) by (nonlinear_arith);
        assert(e * (s * abs_i(d1)) <= e * (l * ap)) by (nonlinear_arith)
            requires
                e >= 0,
                s * abs_i(d1) <= l * ap,
        ;
        assert(e * (s * abs_i(g)) <= e * (l * ap)) by (nonlinear_arith)
            requires
                e >= 0,
                s * abs_i(g) <= l * ap,
        ;
        assert(e * (l * ap) == (e * l) * ap) by (nonlinear_arith);
        assert((e * l) * ap <= (s * s) * ap) by (nonlinear_arith)
            requires
                e * l <= s * s,
                ap >= 0,
        ;
        assert(s * (s * abs_i(m2)) <= 2 * ((s * s) * ap));
        assert(abs_i(m2) <= 2 * ap);
        assert(abs_i(fx_add_s(p, m2)) <= ap);
    }
}

} // verus!
