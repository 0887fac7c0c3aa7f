use adtensor::matmul::MatRef;
use adtensor::shape::{Shape, ShapeMismatch};
use adtensor::tensor::Tensor;

fn sh(v: Vec<usize>) -> Shape {
    Shape::from(v)
}

fn gemm(l: MatRef<f32>, r: MatRef<f32>) -> Vec<f32> {
    let mut c = vec![0.0f32; l.rows * r.cols];
    for i in 0..l.rows {
        for j in 0..r.cols {
            let mut acc = 0.0f32;
            for k in 0..l.cols {
                acc += l.data[i * l.row_stride + k * l.col_stride]
                    * r.data[k * r.row_stride + j * r.col_stride];
            }
            c[i * r.cols + j] = acc;
        }
    }
    c
}

fn gemm_i64(l: MatRef<i64>, r: MatRef<i64>) -> Vec<i64> {
    let mut c = vec![0i64; l.rows * r.cols];
    for i in 0..l.rows {
        for j in 0..r.cols {
            for k in 0..l.cols {
                c[i * r.cols + j] += l.data[i * l.row_stride + k * l.col_stride]
                    * r.data[k * r.row_stride + j * r.col_stride];
            }
        }
    }
    c
}

#[test]
fn tensor_test_ones() {
    let x = Tensor::<f32>::ones(vec![1, 2].into());
    assert_eq!(x.v, vec![1., 1.]);
}

#[test]
fn tensor_test_reshape() {
    let x = Tensor::from(vec![1., 2.]);
    let y = x.reshape(vec![2, 1].into());
    assert_eq!(y.s, Shape::from(vec![2, 1]));
}

#[test]
fn tensor_test_add() {
    let x = Tensor::<f32>{s: vec![2, 2].into(), v: vec![1., 2., 3., 4.]};
    let y = Tensor::from(vec![1., 2.]);
    let z = Tensor{s: vec![2, 2].into(), v: vec![2., 4., 4., 6.]};
    assert_eq!(&x + &y, z);
}

#[test]
fn tensor_test_mm() {
    let x = Tensor::<f32>{s: vec![1, 2, 2].into(), v: vec![1., 2., 3., 4.]};
    let w = Tensor::ones(vec![2, 2, 3].into());
    let y = Tensor{s: vec![2, 2, 3].into(), v: vec![3., 3., 3., 7., 7., 7.,
                                                    3., 3., 3., 7., 7., 7.]};
    assert_eq!(x.mm(&w, &gemm), y);
}

#[test]
fn tensor_new_is_the_empty_placeholder() {
    let t = Tensor::<f32>::new();
    assert_eq!(t.len(), 0);
    assert_eq!(t.s, Shape::new());
    assert_eq!(t, Tensor::<f32>::default());
}

#[test]
fn tensor_shape_has_no_elements() {
    let t = Tensor::<i32>::shape(sh(vec![0, 4]));
    assert_eq!(t.s, sh(vec![0, 4]));
    assert_eq!(t.len(), 0);
}

#[test]
fn tensor_shape_elem_fills() {
    let t = Tensor::shape_elem(sh(vec![2, 3]), 7i32);
    assert_eq!(t.s, sh(vec![2, 3]));
    assert_eq!(t.v, vec![7; 6]);
    assert_eq!(t.len(), 6);
    let s = Tensor::shape_elem(Shape::new(), 0.5f64);
    assert_eq!(s.v, vec![0.5]);
}

#[test]
fn tensor_shape_fn_calls_the_generator() {
    let t = Tensor::shape_fn(sh(vec![3, 2]), || 4u8);
    assert_eq!(t.s, sh(vec![3, 2]));
    assert_eq!(t.v, vec![4u8; 6]);
    let c = std::cell::Cell::new(0i32);
    let u = Tensor::shape_fn(sh(vec![4]), || {
        c.set(c.get() + 1);
        c.get()
    });
    assert_eq!(u.v, vec![1, 2, 3, 4]);
}

#[test]
fn tensor_zeros_and_ones() {
    let z = Tensor::<f64>::zeros(sh(vec![2, 2]));
    assert_eq!(z.v, vec![0.0; 4]);
    let o = Tensor::<i32>::ones(sh(vec![3]));
    assert_eq!(o.v, vec![1, 1, 1]);
    assert_eq!(o.s, sh(vec![3]));
}

#[test]
fn tensor_from_vec_is_a_row() {
    let t = Tensor::from(vec![1, 2, 3]);
    assert_eq!(t.s, sh(vec![1, 3]));
    assert_eq!(t.v, vec![1, 2, 3]);
    let e = Tensor::<i32>::from(vec![]);
    assert_eq!(e.s, sh(vec![1, 0]));
}

#[test]
fn tensor_reshape_keeps_the_buffer() {
    let t = Tensor { s: sh(vec![2, 3]), v: vec![1, 2, 3, 4, 5, 6] };
    let r = t.reshape(sh(vec![3, 2]));
    assert_eq!(r.s, sh(vec![3, 2]));
    assert_eq!(r.v, vec![1, 2, 3, 4, 5, 6]);
}

#[test]
fn tensor_reshape_round_trip() {
    let t = Tensor { s: sh(vec![2, 3]), v: vec![1., 2., 3., 4., 5., 6.] };
    for s1 in [vec![6], vec![3, 2], vec![1, 6, 1], vec![2, 1, 3]] {
        let back = t.clone().reshape(sh(s1)).reshape(sh(vec![2, 3]));
        assert_eq!(back, t);
    }
}

#[test]
fn tensor_copy_equals() {
    let t = Tensor { s: sh(vec![2, 2]), v: vec![1., 2., 3., 4.] };
    assert_eq!(t.copy(), t);
}

#[test]
fn tensor_map_applies_to_each_element() {
    let t = Tensor { s: sh(vec![2, 2]), v: vec![1, 2, 3, 4] };
    let m = t.map(|x: i32| x * 10);
    assert_eq!(m.s, sh(vec![2, 2]));
    assert_eq!(m.v, vec![10, 20, 30, 40]);
    let b = t.map(|x: i32| x > 2);
    assert_eq!(b.v, vec![false, false, true, true]);
}

#[test]
fn tensor_zip_with_broadcasts_the_smaller_operand() {
    let a = Tensor { s: sh(vec![3, 2]), v: vec![1, 2, 3, 4, 5, 6] };
    let b = Tensor { s: sh(vec![2]), v: vec![10, 20] };
    let z = a.zip_with(&b, |x: i32, y: i32| x + y);
    assert_eq!(z.s, sh(vec![3, 2]));
    assert_eq!(z.v, vec![11, 22, 13, 24, 15, 26]);
    let w = b.zip_with(&a, |x: i32, y: i32| x - y);
    assert_eq!(w.s, sh(vec![3, 2]));
    assert_eq!(w.v, vec![9, 18, 7, 16, 5, 14]);
}

#[test]
fn tensor_zeros_plus_zeros_is_zeros() {
    for s in [vec![], vec![3], vec![2, 3], vec![1, 4, 2]] {
        let z = Tensor::<f32>::zeros(sh(s.clone()));
        assert_eq!(&z + &z, Tensor::<f32>::zeros(sh(s)));
    }
}

#[test]
fn tensor_sum_commutes() {
    let a = Tensor { s: sh(vec![2, 1, 3]), v: vec![1., 2., 3., 4., 5., 6.] };
    let b = Tensor { s: sh(vec![1, 3]), v: vec![10., 20., 30.] };
    assert_eq!(&a + &b, &b + &a);
    assert_eq!((&a + &b).v, vec![11., 22., 33., 14., 25., 36.]);
    assert_eq!((&a + &b).s, sh(vec![2, 1, 3]));
    assert_eq!(&a * &b, &b * &a);
}

#[test]
fn tensor_difference_product_quotient() {
    let a = Tensor { s: sh(vec![2, 2]), v: vec![8., 6., 4., 2.] };
    let b = Tensor { s: sh(vec![1, 2]), v: vec![2., 1.] };
    assert_eq!((&a - &b).v, vec![6., 5., 2., 1.]);
    assert_eq!((&b - &a).v, vec![-6., -5., -2., -1.]);
    assert_eq!((&a * &b).v, vec![16., 6., 8., 2.]);
    assert_eq!((&a / &b).v, vec![4., 6., 2., 2.]);
    assert_eq!((&b / &a).v, vec![0.25, 1. / 6., 0.5, 0.5]);
    assert_eq!((&a / &b).s, sh(vec![2, 2]));
}

#[test]
fn tensor_add_assign_into_empty_takes_the_value() {
    let mut acc = Tensor::<f32>::new();
    let g = Tensor { s: sh(vec![1, 2]), v: vec![1., 2.] };
    assert_eq!(acc.add_assign(&g), Ok(()));
    assert_eq!(acc, g);
}

#[test]
fn tensor_add_assign_adds_block_by_block() {
    let mut acc = Tensor { s: sh(vec![2, 2]), v: vec![1., 2., 3., 4.] };
    let g = Tensor { s: sh(vec![1, 2]), v: vec![10., 20.] };
    assert_eq!(acc.add_assign(&g), Ok(()));
    assert_eq!(acc, Tensor { s: sh(vec![2, 2]), v: vec![11., 22., 13., 24.] });
    assert_eq!(acc.add_assign(&Tensor { s: sh(vec![2, 2]), v: vec![1., 1., 1., 1.] }), Ok(()));
    assert_eq!(acc.v, vec![12., 23., 14., 25.]);
}

#[test]
fn tensor_add_assign_reports_an_operand_it_cannot_take() {
    let mut acc = Tensor { s: sh(vec![1, 2]), v: vec![1., 2.] };
    let g = Tensor { s: sh(vec![2, 2]), v: vec![10., 20., 30., 40.] };
    let e = ShapeMismatch { lhs: sh(vec![1, 2]), rhs: sh(vec![2, 2]) };
    assert_eq!(acc.add_assign(&g), Err(e));
    assert_eq!(acc, Tensor { s: sh(vec![1, 2]), v: vec![1., 2.] });
    let mut six = Tensor { s: sh(vec![1, 6]), v: vec![0.; 6] };
    let four = Tensor { s: sh(vec![4, 1]), v: vec![1.; 4] };
    assert!(six.add_assign(&four).is_err());
    assert!(six.add_assign(&Tensor::shape(sh(vec![0, 6]))).is_err());
    assert!(six.add_assign(&Tensor { s: sh(vec![5]), v: vec![1.; 5] }).is_err());
    assert!(six.add_assign(&Tensor { s: sh(vec![3]), v: vec![1.; 3] }).is_err());
    assert_eq!(six.v, vec![0.; 6]);
}

#[test]
fn tensor_mm_of_two_matrices() {
    let a = Tensor { s: sh(vec![2, 3]), v: vec![1., 2., 3., 4., 5., 6.] };
    let b = Tensor { s: sh(vec![3, 2]), v: vec![7., 8., 9., 10., 11., 12.] };
    let c = a.mm(&b, &gemm);
    assert_eq!(c.s, sh(vec![2, 2]));
    assert_eq!(c.v, vec![58., 64., 139., 154.]);
}

#[test]
fn tensor_mm_broadcasts_the_smaller_stack() {
    let a = Tensor { s: sh(vec![2, 1, 2]), v: vec![1, 2, 3, 4] };
    let b = Tensor { s: sh(vec![2, 1]), v: vec![5, 6] };
    let c = a.mm(&b, &gemm_i64);
    assert_eq!(c.s, sh(vec![2, 1, 1]));
    assert_eq!(c.v, vec![17, 39]);
    let d = Tensor { s: sh(vec![1, 2]), v: vec![1, 1] };
    let e = Tensor { s: sh(vec![3, 2, 1]), v: vec![1, 2, 3, 4, 5, 6] };
    let f = d.mm(&e, &gemm_i64);
    assert_eq!(f.s, sh(vec![3, 1, 1]));
    assert_eq!(f.v, vec![3, 7, 11]);
}

#[test]
fn tensor_mm_repeats_a_single_row_or_column() {
    let x = Tensor { s: sh(vec![1, 2]), v: vec![1., 1.] };
    let w = Tensor { s: sh(vec![1, 2]), v: vec![0.1f32, 0.1] };
    let y = x.mm(&w, &gemm);
    assert_eq!(y.s, sh(vec![1, 2]));
    assert_eq!(y.v, vec![0.2, 0.2]);
    let seed = Tensor { s: sh(vec![1, 1]), v: vec![1i64] };
    let d = Tensor { s: sh(vec![3, 2]), v: vec![1, 2, 3, 4, 5, 6] };
    let g = seed.mm(&d, &gemm_i64);
    assert_eq!(g.s, sh(vec![1, 2]));
    assert_eq!(g.v, vec![9, 12]);
}

#[test]
fn tensor_mm_without_elements() {
    let a = Tensor::<f32> { s: sh(vec![0, 3]), v: vec![] };
    let b = Tensor { s: sh(vec![3, 2]), v: vec![1.; 6] };
    let c = a.mm(&b, &gemm);
    assert_eq!(c.s, sh(vec![0, 2]));
    assert_eq!(c.len(), 0);
    let d = Tensor::<f32> { s: sh(vec![2, 0]), v: vec![] };
    let e = Tensor::<f32> { s: sh(vec![0, 2]), v: vec![] };
    let f = d.mm(&e, &gemm);
    assert_eq!(f.s, sh(vec![2, 2]));
    assert_eq!(f.v, vec![0.; 4]);
}

#[test]
fn tensor_is_full() {
    assert!(Tensor { s: sh(vec![2, 2]), v: vec![1, 2, 3, 4] }.is_full());
    assert!(!Tensor { s: sh(vec![2, 2]), v: vec![1, 2, 3] }.is_full());
    assert!(!Tensor::<i32>::new().is_full());
    assert!(Tensor::<i32>::shape(sh(vec![0, 4])).is_full());
    assert!(!Tensor::<i32>::shape(sh(vec![usize::MAX, 4])).is_full());
}

#[test]
fn tensor_try_mm_reports_what_does_not_fit() {
    let a = Tensor { s: sh(vec![2, 3]), v: vec![1., 2., 3., 4., 5., 6.] };
    let b = Tensor { s: sh(vec![3, 2]), v: vec![7., 8., 9., 10., 11., 12.] };
    assert_eq!(a.try_mm(&b, &gemm).unwrap().v, vec![58., 64., 139., 154.]);
    let c = Tensor { s: sh(vec![2, 2]), v: vec![1.; 4] };
    assert_eq!(
        a.try_mm(&c, &gemm),
        Err(ShapeMismatch { lhs: sh(vec![2, 3]), rhs: sh(vec![2, 2]) })
    );
    let short = Tensor { s: sh(vec![3, 2]), v: vec![1.; 5] };
    assert!(a.try_mm(&short, &gemm).is_err());
    assert!(Tensor::<f32>::new().try_mm(&b, &gemm).is_err());
}

fn strides(s: &[usize]) -> Vec<usize> {
    let mut st = vec![0; s.len()];
    let mut acc = 1;
    for i in (0..s.len()).rev() {
        st[i] = acc;
        acc *= s[i];
    }
    st
}

/// The element of `t` that the multi-index `idx` of a broadcast result of
/// rank `idx.len()` reads: axes are aligned at the trailing end, and an axis
/// of size 1 is read at 0.
fn at(t: &Tensor<i64>, idx: &[usize]) -> i64 {
    let dims = t.s.to_vec();
    let st = strides(&dims);
    let off = idx.len() - dims.len();
    let mut p = 0;
    for (a, d) in dims.iter().enumerate() {
        let i = if *d == 1 { 0 } else { idx[off + a] };
        p += i * st[a];
    }
    t.v[p]
}

fn indices(s: &[usize]) -> Vec<Vec<usize>> {
    let mut all = vec![vec![]];
    for d in s {
        let mut next = vec![];
        for i in all {
            for j in 0..*d {
                let mut k = i.clone();
                k.push(j);
                next.push(k);
            }
        }
        all = next;
    }
    all
}

fn counting(s: Vec<usize>, from: i64) -> Tensor<i64> {
    let n: usize = s.iter().product();
    Tensor { s: sh(s), v: (0..n as i64).map(|i| from + i * i).collect() }
}

#[test]
fn elementwise_agrees_with_axis_by_axis_broadcasting() {
    let shapes: Vec<Vec<usize>> = vec![
        vec![], vec![1], vec![3], vec![2, 3], vec![1, 3], vec![1, 1, 3], vec![4, 2, 3],
        vec![1, 2, 3], vec![1, 1], vec![4, 1, 1], vec![2, 1], vec![1, 2], vec![5], vec![4, 2, 1],
        vec![1, 4, 2, 3], vec![2, 2], vec![3, 1, 3],
    ];
    let mut met = 0;
    for a in &shapes {
        for b in &shapes {
            let (ta, tb) = (counting(a.clone(), 1), counting(b.clone(), 100));
            if !ta.s.can_broadcast(&tb.s) {
                continue;
            }
            met += 1;
            let out = &ta - &tb;
            let dims = out.s.to_vec();
            assert_eq!(out.len(), dims.iter().product::<usize>());
            for (p, idx) in indices(&dims).iter().enumerate() {
                assert_eq!(out.v[p], at(&ta, idx) - at(&tb, idx), "{:?} - {:?} at {:?}", a, b, idx);
            }
        }
    }
    assert!(met > 60);
}

#[test]
fn matrix_product_agrees_with_the_sum_over_the_contracted_axis() {
    let shapes: Vec<Vec<usize>> = vec![
        vec![2, 3], vec![3, 2], vec![1, 3], vec![3, 1], vec![1, 1], vec![2, 2, 3], vec![2, 3, 2],
        vec![1, 2, 3], vec![4, 1, 3, 2], vec![1, 3, 2], vec![2, 1, 2], vec![2, 1, 1], vec![3, 3],
        vec![4, 2, 3, 3], vec![2, 2],
    ];
    let mut met = 0;
    for a in &shapes {
        for b in &shapes {
            let (ta, tb) = (counting(a.clone(), 1), counting(b.clone(), 7));
            if !ta.s.can_broadcast_mm(&tb.s) {
                continue;
            }
            met += 1;
            let out = ta.mm(&tb, &gemm_i64);
            let dims = out.s.to_vec();
            let r = dims.len();
            assert_eq!(out.len(), dims.iter().product::<usize>());
            let (ka, kb) = (a[a.len() - 1], b[b.len() - 2]);
            let k = if ka == 1 { kb } else { ka };
            for (p, idx) in indices(&dims).iter().enumerate() {
                let mut sum = 0;
                for l in 0..k {
                    let mut ia = idx.clone();
                    ia[r - 1] = l;
                    let mut ib = idx.clone();
                    ib[r - 2] = l;
                    sum += at(&ta, &ia) * at(&tb, &ib);
                }
                assert_eq!(out.v[p], sum, "{:?} x {:?} at {:?}", a, b, idx);
            }
        }
    }
    assert!(met > 40);
}

#[test]
fn tensor_sum_of_a_column_and_a_row() {
    let col = Tensor { s: sh(vec![2, 1]), v: vec![10, 20] };
    let row = Tensor { s: sh(vec![1, 3]), v: vec![1, 2, 3] };
    let sum = &col + &row;
    assert_eq!(sum, Tensor { s: sh(vec![2, 3]), v: vec![11, 12, 13, 21, 22, 23] });
    assert_eq!(&row + &col, sum);
    assert_eq!(&col * &row, &row * &col);
    assert_eq!((&col - &row).v, vec![9, 8, 7, 19, 18, 17]);
}

#[test]
fn tensor_sum_stretches_an_inner_axis() {
    let a = Tensor { s: sh(vec![2, 1, 2]), v: vec![1, 2, 3, 4] };
    let b = Tensor { s: sh(vec![2, 3, 2]), v: (0..12).collect() };
    let sum = &a + &b;
    assert_eq!(sum.s, sh(vec![2, 3, 2]));
    assert_eq!(sum.v, vec![1, 3, 3, 5, 5, 7, 9, 11, 11, 13, 13, 15]);
    assert_eq!(&b + &a, sum);
}

#[test]
fn tensor_add_assign_adds_chunk_by_chunk() {
    let mut acc = Tensor { s: sh(vec![2, 3]), v: vec![0, 0, 0, 0, 0, 0] };
    assert_eq!(acc.add_assign(&Tensor { s: sh(vec![2, 1]), v: vec![10, 20] }), Ok(()));
    assert_eq!(acc.v, vec![10, 20, 10, 20, 10, 20]);
    assert_eq!(acc.add_assign(&Tensor { s: sh(vec![1, 3]), v: vec![1, 2, 3] }), Ok(()));
    assert_eq!(acc.v, vec![11, 22, 13, 21, 12, 23]);
    assert_eq!(acc.s, sh(vec![2, 3]));
    let mut ones = Tensor { s: sh(vec![1, 4]), v: vec![1, 1, 1, 1] };
    assert_eq!(ones.add_assign(&Tensor { s: sh(vec![2, 1]), v: vec![1, 1] }), Ok(()));
    assert_eq!(ones, Tensor { s: sh(vec![1, 4]), v: vec![2, 2, 2, 2] });
    let mut col = Tensor { s: sh(vec![2, 1]), v: vec![1, 2] };
    let e = ShapeMismatch { lhs: sh(vec![2, 1]), rhs: sh(vec![1, 3]) };
    assert_eq!(col.add_assign(&Tensor { s: sh(vec![1, 3]), v: vec![1, 2, 3] }), Err(e));
    assert_eq!(col, Tensor { s: sh(vec![2, 1]), v: vec![1, 2] });
}

#[test]
fn tensor_mm_broadcasts_the_stacks_axis_by_axis() {
    let a = Tensor { s: sh(vec![2, 1, 1, 1]), v: vec![2, 3] };
    let b = Tensor { s: sh(vec![1, 2, 1, 1]), v: vec![5, 7] };
    let c = a.mm(&b, &gemm_i64);
    assert_eq!(c, Tensor { s: sh(vec![2, 2, 1, 1]), v: vec![10, 14, 15, 21] });
}
