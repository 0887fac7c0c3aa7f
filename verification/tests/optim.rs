use adtensor::optim::SGD;
use adtensor::shape::Shape;
use adtensor::tensor::Tensor;

fn t(s: Vec<usize>, v: Vec<f64>) -> Tensor<f64> {
    Tensor { s: Shape::from(s), v }
}

#[test]
fn sgd_step_moves_against_the_gradient() {
    let sgd = SGD { lr: 0.5 };
    let mut p = t(vec![1, 2], vec![1., 2.]);
    sgd.step(&mut p, &t(vec![1, 2], vec![2., -4.]));
    assert_eq!(p, t(vec![1, 2], vec![0., 4.]));
}

#[test]
fn sgd_step_with_an_empty_gradient_changes_nothing() {
    let sgd = SGD { lr: 0.5 };
    let mut p = t(vec![1, 2], vec![1., 2.]);
    sgd.step(&mut p, &Tensor::new());
    assert_eq!(p, t(vec![1, 2], vec![1., 2.]));
}

#[test]
fn sgd_step_all_moves_each_parameter() {
    let sgd = SGD { lr: 0.25 };
    let mut ps = vec![t(vec![2], vec![1., 1.]), t(vec![1, 1], vec![8.]), t(vec![1], vec![3.])];
    let gs = vec![t(vec![2], vec![4., 8.]), Tensor::new(), t(vec![1], vec![-4.])];
    sgd.step_all(&mut ps, &gs);
    assert_eq!(ps, vec![t(vec![2], vec![0., -1.]), t(vec![1, 1], vec![8.]), t(vec![1], vec![4.])]);
}

#[test]
fn sgd_on_integers() {
    let sgd = SGD { lr: 2i64 };
    let mut p = Tensor { s: Shape::from(vec![3]), v: vec![10i64, 20, 30] };
    sgd.step(&mut p, &Tensor { s: Shape::from(vec![3]), v: vec![1i64, -2, 3] });
    assert_eq!(p.v, vec![8, 24, 24]);
}
