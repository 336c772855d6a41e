use factorization_machine::fm::FM;
use factorization_machine::fx::SCALE;
use factorization_machine::linalg::{gen_rand_val, inner_prod, transpose, LinAlgError};

/// Raw fixed-point value of a float, rounded to the nearest unit.
fn fx(x: f64) -> i64 {
    (x * SCALE as f64).round() as i64
}

/// Unit value of a raw fixed-point scalar.
fn unfx(r: i64) -> f64 {
    r as f64 / SCALE as f64
}

fn mean_squared_error(model: &FM, rows: &Vec<Vec<i64>>, targets: &Vec<i64>) -> f64 {
    let mut err = 0.0;
    for i in 0..targets.len() {
        let d = unfx(targets[i]) - unfx(model.predict_one(&rows[i]));
        err += d * d;
    }
    err / targets.len() as f64
}

#[test]
fn dimension_invariants() {
    let k: usize = 3;
    let ndim: usize = 4;
    let mut model = FM::new(&k, &ndim, 1, 2, 3);
    assert_eq!(model.w.len(), ndim);
    assert_eq!(model.v.len(), ndim);
    for row in &model.v {
        assert_eq!(row.len(), k);
    }
    let rows: Vec<Vec<i64>> = vec![vec![fx(1.0), fx(0.0), fx(2.0), fx(1.0)]];
    let targets: Vec<i64> = vec![fx(3.0)];
    model.fit(&rows, &targets, 7);
    assert_eq!(model.w.len(), ndim);
    assert_eq!(model.v.len(), ndim);
    for row in &model.v {
        assert_eq!(row.len(), k);
    }
}

#[test]
fn batch_point_consistency() {
    let model = FM {
        k: 2,
        ndim: 3,
        bias: fx(0.25),
        w: vec![fx(1.0), fx(-0.5), fx(2.0)],
        v: vec![vec![fx(0.5), fx(1.0)], vec![fx(-1.0), fx(0.5)], vec![fx(2.0), fx(0.0)]],
        l0: 0,
        l1: 0,
        l2: 0,
    };
    let rows: Vec<Vec<i64>> = vec![
        vec![fx(1.0), fx(2.0), fx(3.0)],
        vec![fx(0.0), fx(0.0), fx(0.0)],
        vec![fx(-1.0), fx(0.5), fx(1.5)],
    ];
    let bulk = model.predict(&rows);
    assert_eq!(bulk.len(), rows.len());
    for i in 0..rows.len() {
        assert_eq!(bulk[i], model.predict_one(&rows[i]));
    }
}

#[test]
fn interaction_term_equivalence() {
    // Integer-valued scalars keep every fixed-point product exact, so the
    // fast per-column formula and the brute-force pairwise sum agree to the
    // last raw unit.
    let model = FM {
        k: 2,
        ndim: 3,
        bias: 0,
        w: vec![0, 0, 0],
        v: vec![vec![fx(1.0), fx(2.0)], vec![fx(2.0), fx(0.0)], vec![fx(1.0), fx(1.0)]],
        l0: 0,
        l1: 0,
        l2: 0,
    };
    let x: Vec<i64> = vec![fx(1.0), fx(2.0), fx(3.0)];
    let fast = model.pairwise_sum(&x);

    let mut brute_units: i64 = 0;
    for i in 0..3 {
        for j in (i + 1)..3 {
            for f in 0..2 {
                brute_units += (model.v[i][f] / SCALE) * (model.v[j][f] / SCALE) * (x[i] / SCALE)
                    * (x[j] / SCALE);
            }
        }
    }
    assert_eq!(fast, brute_units * SCALE);
    assert_eq!(fast, 25 * SCALE);
}

#[test]
fn inner_product() {
    let u: Vec<i64> = vec![fx(1.0), fx(2.0), fx(3.0)];
    let v: Vec<i64> = vec![fx(4.0), fx(5.0), fx(6.0)];
    assert_eq!(inner_prod(&u, &v), Ok(32 * SCALE));

    let short: Vec<i64> = vec![fx(1.0), fx(2.0)];
    let long: Vec<i64> = vec![fx(1.0), fx(2.0), fx(3.0)];
    assert_eq!(inner_prod(&short, &long), Err(LinAlgError::LengthMismatch));
}

#[test]
fn transpose_round_trip() {
    let m: Vec<Vec<i64>> = vec![vec![1, 2, 3], vec![4, 5, 6]];
    let t = transpose(&m);
    assert_eq!(t.len(), m[0].len());
    assert_eq!(t[0].len(), m.len());
    let tt = transpose(&t);
    assert_eq!(tt, m);
}

#[test]
fn predict_one_exact() {
    // bias 0.5, linear term 1 + 2 = 3, interaction ((1+2)^2 - (1+4)) / 2 = 2.
    let model = FM {
        k: 1,
        ndim: 2,
        bias: fx(0.5),
        w: vec![fx(1.0), fx(2.0)],
        v: vec![vec![fx(1.0)], vec![fx(2.0)]],
        l0: 0,
        l1: 0,
        l2: 0,
    };
    let x: Vec<i64> = vec![fx(1.0), fx(1.0)];
    assert_eq!(model.predict_one(&x), fx(5.5));
}

#[test]
fn sgd_single_step_exact() {
    // From zero parameters, one example (x = 1, t = 1) moves bias and weight
    // by eta * residual = 0.001 and leaves the zero factor in place.
    let mut model = FM {
        k: 1,
        ndim: 1,
        bias: 0,
        w: vec![0],
        v: vec![vec![0]],
        l0: 0,
        l1: 0,
        l2: 0,
    };
    let rows: Vec<Vec<i64>> = vec![vec![fx(1.0)]];
    let targets: Vec<i64> = vec![fx(1.0)];
    model.fit(&rows, &targets, 1);
    assert_eq!(model.bias, fx(0.001));
    assert_eq!(model.w, vec![fx(0.001)]);
    assert_eq!(model.v, vec![vec![0]]);
}

#[test]
fn training_reduces_error() {
    let rows: Vec<Vec<i64>> = vec![
        vec![fx(1.0), fx(0.0)],
        vec![fx(0.0), fx(1.0)],
        vec![fx(1.0), fx(1.0)],
        vec![fx(2.0), fx(1.0)],
        vec![fx(1.0), fx(2.0)],
    ];
    let targets: Vec<i64> = vec![fx(1.0), fx(2.0), fx(3.0), fx(4.0), fx(5.0)];
    let mut model = FM {
        k: 2,
        ndim: 2,
        bias: 0,
        w: vec![0, 0],
        v: vec![vec![fx(0.01), fx(0.01)], vec![fx(0.01), fx(0.01)]],
        l0: 0,
        l1: 0,
        l2: 0,
    };
    let before = mean_squared_error(&model, &rows, &targets);
    model.fit(&rows, &targets, 50);
    let after = mean_squared_error(&model, &rows, &targets);
    assert!(after < before);
}

#[test]
fn regularization_pull() {
    // With strengths of 900 and the default learning rate, decay dominates
    // each update and every parameter collapses toward zero.
    let mut model = FM {
        k: 1,
        ndim: 1,
        bias: fx(1.0),
        w: vec![fx(1.0)],
        v: vec![vec![fx(0.5)]],
        l0: 900 * SCALE,
        l1: 900 * SCALE,
        l2: 900 * SCALE,
    };
    let rows: Vec<Vec<i64>> = vec![vec![fx(1.0)]];
    let targets: Vec<i64> = vec![fx(0.0)];
    model.fit(&rows, &targets, 10);
    assert!(model.bias.abs() < fx(1.0) / 100);
    assert!(model.w[0].abs() < fx(1.0) / 100);
    assert!(model.v[0][0].abs() < fx(0.5) / 100);
}

#[test]
fn default_rate_matches_explicit() {
    let build = || FM {
        k: 2,
        ndim: 2,
        bias: fx(0.1),
        w: vec![fx(0.2), fx(-0.3)],
        v: vec![vec![fx(0.01), fx(0.02)], vec![fx(-0.01), fx(0.03)]],
        l0: SCALE,
        l1: SCALE,
        l2: SCALE,
    };
    let rows: Vec<Vec<i64>> = vec![vec![fx(1.0), fx(2.0)], vec![fx(0.5), fx(-1.0)]];
    let targets: Vec<i64> = vec![fx(1.0), fx(-1.0)];
    let mut with_default = build();
    let mut with_explicit = build();
    with_default.fit(&rows, &targets, 3);
    with_explicit.fit_with_rate(&rows, &targets, 3, fx(0.001));
    assert_eq!(with_default.bias, with_explicit.bias);
    assert_eq!(with_default.w, with_explicit.w);
    assert_eq!(with_default.v, with_explicit.v);
}

#[test]
fn random_sample_within_bounds() {
    let mu = fx(5.0);
    let sigma = fx(0.01);
    for _ in 0..100 {
        let r = gen_rand_val(mu, sigma);
        assert!(mu - 6 * sigma <= r && r <= mu + 6 * sigma);
    }
}
