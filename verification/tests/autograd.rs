use adtensor::adscalar::ADScalar;
use adtensor::autograd::adtensor::ADTensor;
use adtensor::autograd::graph::{Graph, PartialGrad, Vtx};
use adtensor::autograd::loss::Loss;
use adtensor::matmul::MatRef;
use adtensor::shape::{Shape, ShapeMismatch, Shaped};
use adtensor::tensor::Tensor;

fn sh(v: Vec<usize>) -> Shape {
    Shape::from(v)
}

fn t(s: Vec<usize>, v: Vec<f32>) -> Tensor<f32> {
    Tensor { s: sh(s), v }
}

fn gemm(l: MatRef<f32>, r: MatRef<f32>) -> Vec<f32> {
    let mut c = vec![0.0f32; l.rows * r.cols];
    for i in 0..l.rows {
        for j in 0..r.cols {
            let mut acc = 0.0f32;
            for k in 0..l.cols {
                acc += l.data[i * l.row_stride + k * l.col_stride]
                    * r.data[k * r.row_stride + j * r.col_stride];
            }
            c[i * r.cols + j] = acc;
        }
    }
    c
}

#[test]
fn graph_register_sorts_the_keys() {
    let g = Graph::<f32>::register(vec![30, 10, 20]);
    assert_eq!(g.param_count(), 3);
    assert_eq!(g.len(), 0);
    assert_eq!(g.find_param(10), Some(0));
    assert_eq!(g.find_param(20), Some(1));
    assert_eq!(g.find_param(30), Some(2));
}

#[test]
fn graph_find_param_misses() {
    let g = Graph::<f32>::register(vec![30, 10, 20]);
    assert_eq!(g.find_param(0), None);
    assert_eq!(g.find_param(15), None);
    assert_eq!(g.find_param(31), None);
    let e = Graph::<f32>::register(vec![]);
    assert_eq!(e.find_param(1), None);
    assert_eq!(e.param_count(), 0);
}

#[test]
fn graph_find_param_gives_the_first_of_equal_keys() {
    let g = Graph::<f32>::register(vec![5, 3, 5, 5, 1, 3]);
    assert_eq!(g.param_count(), 6);
    assert_eq!(g.find_param(1), Some(0));
    assert_eq!(g.find_param(3), Some(1));
    assert_eq!(g.find_param(5), Some(3));
}

#[test]
fn graph_find_param_in_a_large_table() {
    let keys: Vec<usize> = (0..1000).rev().map(|k| k * 3).collect();
    let g = Graph::<f32>::register(keys);
    for k in 0..1000 {
        assert_eq!(g.find_param(k * 3), Some(k));
        assert_eq!(g.find_param(k * 3 + 1), None);
    }
}

#[test]
fn graph_push_len_record_truncate() {
    let mut g = Graph::<f32>::register(vec![1]);
    let r0 = PartialGrad { lhs: None, rhs: Some((Vtx::Param(0), t(vec![1, 2], vec![1., 2.]))) };
    let r1 = PartialGrad { lhs: Some((Vtx::Var(0), t(vec![1, 1], vec![3.]))), rhs: None };
    assert_eq!(g.push(r0.clone()), Vtx::Var(0));
    assert_eq!(g.push(r1.clone()), Vtx::Var(1));
    assert_eq!(g.len(), 2);
    assert_eq!(*g.record(0), r0);
    assert_eq!(*g.record(1), r1);
    g.truncate(5);
    assert_eq!(g.len(), 2);
    g.truncate(1);
    assert_eq!(g.len(), 1);
    assert_eq!(*g.record(0), r0);
    g.truncate(0);
    assert_eq!(g.len(), 0);
    assert_eq!(g.param_count(), 1);
}

#[test]
fn graph_input_has_no_vertex() {
    let g = Graph::<f32>::register(vec![1]);
    let x = g.input(t(vec![1, 2], vec![1., 2.]));
    assert_eq!(x.i, None);
    assert_eq!(*x.v(), t(vec![1, 2], vec![1., 2.]));
    assert_eq!(*x.s(), sh(vec![1, 2]));
}

#[test]
fn mm_with_a_parameter_is_recorded() {
    let mut g = Graph::<f32>::register(vec![7]);
    let x = g.input(t(vec![1, 2], vec![1., 2.]));
    let w = t(vec![2, 2], vec![1., 2., 3., 4.]);
    let y = x.mm(&mut g, 7, &w, &gemm);
    assert_eq!(y.v, t(vec![1, 2], vec![7., 10.]));
    assert_eq!(y.i, Some(Vtx::Var(0)));
    assert_eq!(g.len(), 1);
    assert_eq!(g.record(0).lhs, None);
    assert_eq!(g.record(0).rhs, Some((Vtx::Param(0), t(vec![1, 2], vec![1., 2.]))));
}

#[test]
fn mm_with_a_constant_is_not_recorded() {
    let mut g = Graph::<f32>::register(vec![7]);
    let x = g.input(t(vec![1, 2], vec![1., 2.]));
    let c = t(vec![2, 1], vec![1., 1.]);
    let y = x.mm(&mut g, 8, &c, &gemm);
    assert_eq!(y.v, t(vec![1, 1], vec![3.]));
    assert_eq!(y.i, None);
    assert_eq!(g.len(), 0);
}

#[test]
fn mm_behind_a_recorded_value_names_both_operands() {
    let mut g = Graph::<f32>::register(vec![3, 9]);
    let x = g.input(t(vec![1, 2], vec![1., 2.]));
    let w1 = t(vec![2, 2], vec![1., 0., 0., 1.]);
    let w2 = t(vec![2, 1], vec![2., 3.]);
    let h = x.mm(&mut g, 9, &w1, &gemm);
    let y = h.mm(&mut g, 3, &w2, &gemm);
    assert_eq!(y.v, t(vec![1, 1], vec![8.]));
    assert_eq!(y.i, Some(Vtx::Var(1)));
    assert_eq!(g.record(0).rhs, Some((Vtx::Param(1), t(vec![1, 2], vec![1., 2.]))));
    assert_eq!(g.record(1).lhs, Some((Vtx::Var(0), w2.clone())));
    assert_eq!(g.record(1).rhs, Some((Vtx::Param(0), t(vec![1, 2], vec![1., 2.]))));
}

#[test]
fn mm_var_of_two_values() {
    let mut g = Graph::<f32>::register(vec![1]);
    let x = g.input(t(vec![1, 2], vec![1., 2.]));
    let w = t(vec![2, 2], vec![1., 1., 1., 1.]);
    let h = x.mm(&mut g, 1, &w, &gemm);
    let c = g.input(t(vec![2, 1], vec![1., 2.]));
    let y = h.mm_var(&mut g, &c, &gemm);
    assert_eq!(y.v, t(vec![1, 1], vec![9.]));
    assert_eq!(y.i, Some(Vtx::Var(1)));
    assert_eq!(g.record(1).lhs, Some((Vtx::Var(0), t(vec![2, 1], vec![1., 2.]))));
    assert_eq!(g.record(1).rhs, None);
    let a = g.input(t(vec![1, 1], vec![2.]));
    let b = g.input(t(vec![1, 1], vec![3.]));
    let n = g.len();
    let z = a.mm_var(&mut g, &b, &gemm);
    assert_eq!(z.i, None);
    assert_eq!(g.len(), n);
}

#[test]
fn add_records_ones_of_the_sum_shape() {
    let mut g = Graph::<f32>::register(vec![4]);
    let x = g.input(t(vec![2, 2], vec![1., 2., 3., 4.]));
    let b = t(vec![1, 2], vec![10., 20.]);
    let y = x.add(&mut g, 4, &b);
    assert_eq!(y.v, t(vec![2, 2], vec![11., 22., 13., 24.]));
    assert_eq!(y.i, Some(Vtx::Var(0)));
    assert_eq!(g.record(0).lhs, None);
    assert_eq!(g.record(0).rhs, Some((Vtx::Param(0), t(vec![2, 2], vec![1.; 4]))));
}

#[test]
fn add_unit_records_the_given_unit() {
    let mut g = Graph::<f32>::register(vec![4]);
    let x = g.input(t(vec![1, 2], vec![1., 2.]));
    let b = t(vec![1, 2], vec![10., 20.]);
    let y = x.add_unit(&mut g, 4, &b, 0.5);
    let z = y.add_unit(&mut g, 5, &b, 0.25);
    assert_eq!(z.v, t(vec![1, 2], vec![21., 42.]));
    assert_eq!(g.record(0).rhs, Some((Vtx::Param(0), t(vec![1, 2], vec![0.5; 2]))));
    assert_eq!(g.record(1).lhs, Some((Vtx::Var(0), t(vec![1, 2], vec![0.25; 2]))));
    assert_eq!(g.record(1).rhs, None);
}

#[test]
fn add_var_of_two_values() {
    let mut g = Graph::<f32>::register(vec![4]);
    let x = g.input(t(vec![1, 2], vec![1., 2.]));
    let b = t(vec![1, 2], vec![10., 20.]);
    let y = x.add(&mut g, 4, &b);
    let z = y.add_var(&mut g, &y);
    assert_eq!(z.v, t(vec![1, 2], vec![22., 44.]));
    assert_eq!(z.i, Some(Vtx::Var(1)));
    assert_eq!(g.record(1).lhs, Some((Vtx::Var(0), t(vec![1, 2], vec![1.; 2]))));
    assert_eq!(g.record(1).rhs, Some((Vtx::Var(0), t(vec![1, 2], vec![1.; 2]))));
    let u = x.add_var_unit(&mut g, &x, 3.0);
    assert_eq!(u.i, None);
    assert_eq!(u.v, t(vec![1, 2], vec![2., 4.]));
    assert_eq!(g.len(), 2);
}

#[test]
fn end_to_end_weight_gradient_is_the_input() {
    let mut g = Graph::<f32>::register(vec![42]);
    let w = Tensor::shape_elem(sh(vec![1, 2]), 0.1f32);
    let x = g.input(Tensor::<f32>::ones(sh(vec![1, 2])));
    let y = x.mm(&mut g, 42, &w, &gemm);
    assert_eq!(y.v.v, vec![0.2, 0.2]);
    let loss = y.backward(&mut g, &gemm).unwrap();
    assert_eq!(loss.v.v, vec![0.2, 0.2]);
    assert_eq!(loss.g.len(), 1);
    assert_eq!(loss.g[0], Tensor::<f32>::ones(sh(vec![1, 2])));
}

#[test]
fn weight_gradient_of_a_row_times_a_matrix() {
    let mut g = Graph::<f32>::register(vec![1]);
    let x = g.input(t(vec![1, 3], vec![1., 2., 3.]));
    let w = t(vec![3, 2], vec![1., 2., 3., 4., 5., 6.]);
    let y = x.mm(&mut g, 1, &w, &gemm);
    assert_eq!(y.v, t(vec![1, 2], vec![22., 28.]));
    let loss = y.backward(&mut g, &gemm).unwrap();
    assert_eq!(loss.g, vec![t(vec![1, 3], vec![1., 2., 3.])]);
}

#[test]
fn bias_gradient_is_ones_summed_over_the_rows() {
    let mut g = Graph::<f32>::register(vec![1, 2]);
    let x = g.input(t(vec![2, 3], vec![1.; 6]));
    let w = t(vec![3, 2], vec![1.; 6]);
    let b = t(vec![1, 2], vec![0.5, 0.5]);
    let h = x.mm(&mut g, 1, &w, &gemm);
    let y = h.add(&mut g, 2, &b);
    assert_eq!(y.v, t(vec![2, 2], vec![3.5; 4]));
    let loss = y.backward(&mut g, &gemm).unwrap();
    assert_eq!(loss.g.len(), 2);
    assert_eq!(loss.g[1], t(vec![1, 2], vec![2., 2.]));
    assert_eq!(loss.g[0], t(vec![1, 3], vec![4., 4., 4.]));
}

#[test]
fn bias_gradient_of_a_single_row_is_ones() {
    let mut g = Graph::<f32>::register(vec![1, 2]);
    let x = g.input(t(vec![1, 3], vec![1., 2., 3.]));
    let w = t(vec![3, 2], vec![1.; 6]);
    let b = t(vec![1, 2], vec![0.5, 0.5]);
    let h = x.mm(&mut g, 1, &w, &gemm);
    let y = h.add(&mut g, 2, &b);
    let loss = y.backward(&mut g, &gemm).unwrap();
    assert_eq!(loss.g[1], t(vec![1, 2], vec![1., 1.]));
    assert_eq!(loss.g[0], t(vec![1, 3], vec![2., 4., 6.]));
}

#[test]
fn untouched_parameter_has_an_empty_gradient() {
    let mut g = Graph::<f32>::register(vec![10, 20, 30]);
    let x = g.input(t(vec![1, 2], vec![1., 2.]));
    let w = t(vec![2, 2], vec![1., 2., 3., 4.]);
    let y = x.mm(&mut g, 20, &w, &gemm);
    let loss = y.backward(&mut g, &gemm).unwrap();
    assert_eq!(loss.g.len(), 3);
    assert_eq!(loss.g[0], Tensor::new());
    assert_eq!(loss.g[1], t(vec![1, 2], vec![1., 2.]));
    assert_eq!(loss.g[2], Tensor::new());
}

#[test]
fn gradients_of_a_parameter_used_twice_add_up() {
    let mut g = Graph::<f32>::register(vec![1]);
    let x = g.input(t(vec![1, 2], vec![1., 2.]));
    let w = t(vec![2, 2], vec![1., 0., 0., 1.]);
    let h = x.mm(&mut g, 1, &w, &gemm);
    let y = h.mm(&mut g, 1, &w, &gemm);
    assert_eq!(y.v, t(vec![1, 2], vec![1., 2.]));
    let loss = y.backward(&mut g, &gemm).unwrap();
    assert_eq!(loss.g, vec![t(vec![1, 2], vec![3., 6.])]);
}

#[test]
fn backward_with_a_seed() {
    let mut g = Graph::<f32>::register(vec![1]);
    let x = g.input(t(vec![1, 2], vec![1., 2.]));
    let w = t(vec![2, 2], vec![1., 2., 3., 4.]);
    let y = x.mm(&mut g, 1, &w, &gemm);
    let loss = y.backward_with(&mut g, t(vec![1, 1], vec![3.]), &gemm).unwrap();
    assert_eq!(loss.g, vec![t(vec![1, 2], vec![3., 6.])]);
    let again = g.backward_with(t(vec![1, 1], vec![-1.]), &gemm).unwrap();
    assert_eq!(again, vec![t(vec![1, 2], vec![-1., -2.])]);
    let empty = g.backward_with(Tensor::new(), &gemm).unwrap();
    assert_eq!(empty, vec![Tensor::new()]);
}

#[test]
fn backward_of_an_empty_ledger() {
    let g = Graph::<f32>::register(vec![1, 2]);
    assert_eq!(g.backward(&gemm), Ok(vec![Tensor::new(), Tensor::new()]));
}

#[test]
fn backward_of_a_value_without_a_vertex() {
    let mut g = Graph::<f32>::register(vec![1]);
    let x = g.input(t(vec![1, 2], vec![1., 2.]));
    let w = t(vec![2, 2], vec![1., 2., 3., 4.]);
    let _y = x.mm(&mut g, 1, &w, &gemm);
    let loss = x.backward(&mut g, &gemm).unwrap();
    assert_eq!(loss.v, t(vec![1, 2], vec![1., 2.]));
    assert_eq!(loss.g.len(), 0);
    assert_eq!(g.len(), 1);
}

#[test]
fn backward_cuts_the_ledger_behind_the_terminal() {
    let mut g = Graph::<f32>::register(vec![1]);
    let x = g.input(t(vec![1, 2], vec![1., 2.]));
    let w = t(vec![2, 2], vec![1., 2., 3., 4.]);
    let y = x.mm(&mut g, 1, &w, &gemm);
    let _z = y.mm(&mut g, 1, &w, &gemm);
    assert_eq!(g.len(), 2);
    let loss = y.backward(&mut g, &gemm).unwrap();
    assert_eq!(g.len(), 1);
    assert_eq!(loss.g, vec![t(vec![1, 2], vec![1., 2.])]);
}

#[test]
fn backward_reports_the_shapes_that_do_not_multiply() {
    let mut g = Graph::<f32>::register(vec![1]);
    let r = PartialGrad { lhs: None, rhs: Some((Vtx::Param(0), t(vec![3], vec![1., 2., 3.]))) };
    g.push(r);
    let e = g.backward(&gemm);
    assert_eq!(e, Err(ShapeMismatch { lhs: sh(vec![1, 1]), rhs: sh(vec![3]) }));
    let f = g.backward_with(t(vec![2, 3], vec![1.; 6]), &gemm);
    assert_eq!(f, Err(ShapeMismatch { lhs: sh(vec![2, 3]), rhs: sh(vec![3]) }));
}

#[test]
fn backward_reports_the_shapes_that_do_not_accumulate() {
    let mut g = Graph::<f32>::register(vec![1]);
    let d1 = t(vec![1, 2], vec![1., 2.]);
    let d2 = t(vec![1, 3], vec![1., 2., 3.]);
    g.push(PartialGrad { lhs: Some((Vtx::Param(0), d1)), rhs: Some((Vtx::Param(0), d2)) });
    let e = g.backward(&gemm);
    assert_eq!(e, Err(ShapeMismatch { lhs: sh(vec![1, 2]), rhs: sh(vec![1, 3]) }));
}

#[test]
fn backward_skips_a_record_that_no_gradient_has_reached() {
    let mut g = Graph::<f32>::register(vec![1, 2]);
    g.push(PartialGrad { lhs: None, rhs: Some((Vtx::Param(0), t(vec![5], vec![1.; 5]))) });
    g.push(PartialGrad { lhs: None, rhs: Some((Vtx::Param(1), t(vec![1, 2], vec![1., 2.]))) });
    let r = g.backward(&gemm).unwrap();
    assert_eq!(r, vec![Tensor::new(), t(vec![1, 2], vec![1., 2.])]);
}

#[test]
fn loss_new_is_empty() {
    let l = Loss::<f32>::new();
    assert_eq!(l.v, Tensor::new());
    assert_eq!(l.g.len(), 0);
}

#[test]
fn loss_add_takes_what_the_first_lacks() {
    let a = Loss::<f32>::new();
    let b = Loss { v: t(vec![1, 1], vec![2.]), g: vec![t(vec![1, 2], vec![1., 2.])] };
    assert_eq!(a.add(&b), b);
}

#[test]
fn loss_add_sums_values_and_gradients() {
    let a = Loss { v: t(vec![1, 1], vec![1.]), g: vec![t(vec![1, 2], vec![1., 2.])] };
    let b = Loss {
        v: t(vec![1, 1], vec![2.]),
        g: vec![t(vec![1, 2], vec![10., 20.]), t(vec![1, 1], vec![5.])],
    };
    let c = a.add(&b);
    assert_eq!(c.v, t(vec![1, 1], vec![3.]));
    assert_eq!(c.g, vec![t(vec![1, 2], vec![11., 22.]), Tensor::new()]);
    let d = b.add(&a);
    assert_eq!(d.v, t(vec![1, 1], vec![3.]));
    assert_eq!(d.g, vec![t(vec![1, 2], vec![11., 22.])]);
}

#[test]
fn adtensor_holds_value_and_vertex() {
    let x = ADTensor { v: t(vec![1, 1], vec![2.]), i: Some(Vtx::Param(3)) };
    assert_eq!(x.clone(), x);
    assert_eq!(x.v().v, vec![2.]);
}

#[test]
fn map_records_the_derivatives() {
    let mut g = Graph::<f32>::register(vec![1]);
    let x = g.input(t(vec![1, 2], vec![2., 3.]));
    let square = |a: ADScalar<f32>| a * a;
    let y = x.map(&mut g, 1., square);
    assert_eq!(y.v, t(vec![1, 2], vec![4., 9.]));
    assert_eq!(y.i, None);
    assert_eq!(g.len(), 0);
    let b = t(vec![1, 2], vec![0., 0.]);
    let h = x.add(&mut g, 1, &b);
    let z = h.map(&mut g, 1., square);
    assert_eq!(z.v, t(vec![1, 2], vec![4., 9.]));
    assert_eq!(z.i, Some(Vtx::Var(1)));
    assert_eq!(g.record(1).lhs, Some((Vtx::Var(0), t(vec![1, 2], vec![4., 6.]))));
    assert_eq!(g.record(1).rhs, None);
}

#[test]
fn graph_key_and_clear() {
    let mut g = Graph::<f32>::register(vec![9, 4]);
    assert_eq!(g.key(0), 4);
    assert_eq!(g.key(1), 9);
    let x = g.input(t(vec![1, 1], vec![2.]));
    let w = t(vec![1, 1], vec![3.]);
    let _ = x.mm(&mut g, 4, &w, &gemm);
    assert_eq!(g.len(), 1);
    g.clear();
    assert_eq!(g.len(), 0);
    assert_eq!(g.param_count(), 2);
}

#[test]
fn adtensor_copy_keeps_value_and_vertex() {
    let x = ADTensor { v: t(vec![1, 1], vec![2.]), i: Some(Vtx::Var(3)) };
    assert_eq!(x.copy(), x);
}

#[test]
fn backward_reports_a_product_that_does_not_fit() {
    let mut g = Graph::<f32>::register(vec![1]);
    let d = Tensor { s: sh(vec![1 << 40, 0, 1 << 40]), v: vec![] };
    g.push(PartialGrad { lhs: None, rhs: Some((Vtx::Param(0), d)) });
    let e = g.backward(&gemm);
    assert_eq!(e, Err(ShapeMismatch { lhs: sh(vec![1, 1]), rhs: sh(vec![1 << 40, 0, 1 << 40]) }));
}

#[test]
fn adtensor_is_within_its_graph() {
    let mut g = Graph::<f32>::register(vec![1]);
    let x = g.input(t(vec![1, 1], vec![2.]));
    assert!(x.is_within(&g));
    let w = t(vec![1, 1], vec![3.]);
    let y = x.mm(&mut g, 1, &w, &gemm);
    assert!(y.is_within(&g));
    g.clear();
    assert!(!y.is_within(&g));
    assert!(!ADTensor { v: t(vec![1, 1], vec![2.]), i: Some(Vtx::Param(1)) }.is_within(&g));
    assert!(ADTensor { v: t(vec![1, 1], vec![2.]), i: Some(Vtx::Param(0)) }.is_within(&g));
    assert!(!ADTensor { v: t(vec![2, 1], vec![2.]), i: None }.is_within(&g));
}

#[test]
fn backward_reports_a_product_that_the_accumulator_cannot_take() {
    let mut g = Graph::<f32>::register(vec![1]);
    let a = t(vec![2, 4], vec![1.; 8]);
    let b = t(vec![1, 2], vec![1., 1.]);
    let c = t(vec![1, 1], vec![1.]);
    g.push(PartialGrad { lhs: None, rhs: Some((Vtx::Param(0), a)) });
    g.push(PartialGrad { lhs: Some((Vtx::Var(0), b)), rhs: Some((Vtx::Param(0), c)) });
    let e = g.backward(&gemm);
    assert_eq!(e, Err(ShapeMismatch { lhs: sh(vec![1, 1]), rhs: sh(vec![1, 4]) }));
}

#[test]
fn backward_accumulates_a_product_chunk_by_chunk() {
    let mut g = Graph::<f32>::register(vec![1]);
    let a = t(vec![2, 1], vec![1., 1.]);
    let b = t(vec![1, 2], vec![1., 1.]);
    let c = t(vec![1, 4], vec![1., 2., 3., 4.]);
    g.push(PartialGrad { lhs: None, rhs: Some((Vtx::Param(0), a)) });
    g.push(PartialGrad { lhs: Some((Vtx::Var(0), b)), rhs: Some((Vtx::Param(0), c)) });
    let r = g.backward(&gemm).unwrap();
    assert_eq!(r, vec![t(vec![1, 4], vec![3., 4., 5., 6.])]);
}
