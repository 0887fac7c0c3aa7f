use adtensor::nn::activation::{Identity, Step};
use adtensor::nn::sequential::{Evaluate, Forward, Sequential};
use adtensor::shape::Shape;
use adtensor::tensor::Tensor;

fn t(v: Vec<i32>) -> Tensor<i32> {
    Tensor { s: Shape::from(vec![v.len()]), v }
}

#[test]
fn identity_runs_and_evaluates_to_its_input() {
    let mut id = Identity::<i32>::new();
    assert_eq!(id.forward(t(vec![1, -2, 3])), t(vec![1, -2, 3]));
    assert_eq!(Evaluate::eval(&id, &t(vec![4, 5])), t(vec![4, 5]));
}

#[test]
fn step_runs_and_evaluates_to_the_step() {
    let mut s = Step::between(0, 1, 0);
    assert_eq!(Forward::forward(&mut s, t(vec![-1, 0, 2])), t(vec![0, 0, 1]));
    assert_eq!(Evaluate::eval(&s, &t(vec![5, -5])), t(vec![1, 0]));
    assert_eq!(s, Step::between(0, 1, 0));
}

#[test]
fn sequential_runs_the_second_on_the_result_of_the_first() {
    let mut two = Sequential::new(Step::between(0, 10, 0), Step::between(5, 7, 0));
    assert_eq!(two.forward(t(vec![-3, 3])), t(vec![5, 7]));
    assert_eq!(two.eval(&t(vec![1, 0, -1])), t(vec![7, 5, 5]));
    let mut three = Sequential::new(Identity::<i32>::new(), two);
    assert_eq!(three.forward(t(vec![9, -9])), t(vec![7, 5]));
    assert_eq!(three.a.eval(&t(vec![2])), t(vec![2]));
}
