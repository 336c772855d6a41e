use factorization_machine::fm::FM;
use factorization_machine::fx::SCALE;
use factorization_machine::linalg::{gen_rand_mat, gen_rand_vec, inner_prod, transpose};

/// Raw fixed-point value of a float, rounded to the nearest unit.
fn fx(x: f64) -> i64 {
    (x * SCALE as f64).round() as i64
}

#[test]
fn linalg() {
    let vec = gen_rand_vec(10usize, 0, SCALE / 100);
    let mat = gen_rand_mat(5usize, 3usize, 0, SCALE / 100);
    let transposed_mat = transpose(&mat);

    assert_eq!(vec.len(), 10usize);

    let u: Vec<i64> = vec![fx(1.0), fx(2.0), fx(3.0)];
    let v: Vec<i64> = vec![fx(4.0), fx(5.0), fx(6.0)];
    assert_eq!(inner_prod(&u, &v), Ok(32 * SCALE));

    assert_eq!(mat.len(), transposed_mat[0].len());
    assert_eq!(mat[0].len(), transposed_mat.len());
}

#[test]
fn fm_learning() {
    let features: Vec<Vec<i64>> = vec![
        //       Users    |         Movies      |     Movie Ratings   |   Time |   Last Movie Rated   |
        //    A    B    C |   TI   NH   SW   ST |   TI   NH   SW   ST |        |   TI   NH   SW   ST  |
        vec![fx(1.0), fx(0.0), fx(0.0), fx(1.0), fx(0.0), fx(0.0), fx(0.0), fx(0.3), fx(0.3), fx(0.3), fx(0.0), fx(13.0), fx(0.0), fx(0.0), fx(0.0), fx(0.0)],
        vec![fx(1.0), fx(0.0), fx(0.0), fx(0.0), fx(1.0), fx(0.0), fx(0.0), fx(0.3), fx(0.3), fx(0.3), fx(0.0), fx(14.0), fx(1.0), fx(0.0), fx(0.0), fx(0.0)],
        vec![fx(1.0), fx(0.0), fx(0.0), fx(0.0), fx(0.0), fx(1.0), fx(0.0), fx(0.3), fx(0.3), fx(0.3), fx(0.0), fx(16.0), fx(0.0), fx(1.0), fx(0.0), fx(0.0)],
        vec![fx(0.0), fx(1.0), fx(0.0), fx(0.0), fx(0.0), fx(1.0), fx(0.0), fx(0.0), fx(0.0), fx(0.5), fx(0.5), fx(5.0), fx(0.0), fx(0.0), fx(0.0), fx(0.0)],
        vec![fx(0.0), fx(1.0), fx(0.0), fx(0.0), fx(0.0), fx(0.0), fx(1.0), fx(0.0), fx(0.0), fx(0.5), fx(0.5), fx(8.0), fx(0.0), fx(0.0), fx(1.0), fx(0.0)],
        vec![fx(0.0), fx(0.0), fx(0.1), fx(1.0), fx(0.0), fx(0.0), fx(0.0), fx(0.5), fx(0.0), fx(0.5), fx(0.0), fx(9.0), fx(0.0), fx(0.0), fx(0.0), fx(0.0)],
        vec![fx(0.0), fx(0.0), fx(0.1), fx(0.0), fx(0.0), fx(1.0), fx(0.0), fx(0.5), fx(0.0), fx(0.5), fx(0.0), fx(12.0), fx(1.0), fx(0.0), fx(0.0), fx(0.0)],
    ];
    let target: Vec<i64> = vec![fx(5.0), fx(3.0), fx(1.0), fx(4.0), fx(5.0), fx(1.0), fx(5.0)];

    let ndim: usize = features[0].len();
    let k: usize = 8;
    let mut model = FM::new(&k, &ndim, 0, 0, 0);

    println!();
    println!("[FM model explanation]");
    println!("----------------------");
    println!("k of model is    : {}", &model.k);
    println!("nrow of model is : {}", &model.v.len());
    println!("ncol of model is : {}", &model.v[0].len());
    println!("----------------------");
    println!();

    /* Train & Test split */
    let mut x_train: Vec<Vec<i64>> = vec![];
    let mut x_test: Vec<Vec<i64>> = vec![];
    let mut y_train: Vec<i64> = vec![];
    let mut y_test: Vec<i64> = vec![];
    for i in 0..5 {
        x_train.push(features[i].clone());
        y_train.push(target[i]);
    }
    for i in 5..7 {
        x_test.push(features[i].clone());
        y_test.push(target[i]);
    }

    /* Training */
    let epochs: i32 = 5;
    model.fit(&x_train, &y_train, epochs);
    println!("# of iteration: {}", epochs);

    /* Test */
    let mut t_pred: Vec<i64> = vec![];
    for i in 0..2 {
        let y_pred = model.predict_one(&x_test[i]);
        t_pred.push(y_pred);
        println!("----- Test No: {} -----", i + 1);
        println!("y observed : {}", y_test[i]);
        println!("y predicted: {}", y_pred);
    }

    let t_pred_bulk = model.predict(&x_test);
    assert_eq!(t_pred[0], t_pred_bulk[0]);
    assert_eq!(t_pred[1], t_pred_bulk[1]);
}
