use adtensor::expression::{Expr, ExprGraph, Expression, Function, Identity, Var};

#[test]
fn an_arena_starts_without_entries() {
    let g = ExprGraph::<i32>::new();
    assert_eq!(g.len(), 0);
    assert!(!g.holds(&Var { i: 0 }));
}

#[test]
fn a_variable_is_appended_and_names_itself() {
    let mut g = ExprGraph::<i32>::new();
    let a = g.var(7);
    let b = g.var(9);
    assert_eq!(g.len(), 2);
    assert_eq!(a, Var { i: 0 });
    assert_eq!(b, Var { i: 1 });
    assert_eq!(g.entry(&a).t, 7);
    assert_eq!(g.entry(&b).t, 9);
    assert_eq!(g.entry(&a).p, (a.i, a.i));
    assert_eq!(g.entry(&b).p, (b.i, b.i));
}

#[test]
fn a_function_of_a_variable_is_appended_after_it() {
    let mut g = ExprGraph::<i32>::new();
    let a = g.var(3);
    let b = g.var(10);
    assert!(g.holds(&a));
    let c = a.func(&mut g, |t: &i32| t * t + 1);
    assert_eq!(c, Var { i: 2 });
    assert_eq!(g.len(), 3);
    assert_eq!(g.entry(&c).t, 10);
    assert_eq!(g.entry(&c).p, (a.i, c.i));
    assert!(g.holds(&c));
    let d = c.func(&mut g, |t: &i32| t - 4);
    assert_eq!(d, Var { i: 3 });
    assert_eq!(g.entry(&d).t, 6);
    assert_eq!(g.entry(&d).p, (c.i, d.i));
    assert_eq!(g.entry(&a).t, 3);
    assert_eq!(g.entry(&b).t, 10);
    assert!(!g.holds(&Var { i: 4 }));
    assert_eq!(g.entry(&c).eval(&5, &0), (26, 0));
    assert_eq!(g.entry(&a).eval(&5, &6), (5, 6));
}

#[test]
fn the_identity_hands_both_operands_back() {
    let e = Identity::<i32>::new();
    assert_eq!(e.eval(&4, &5), (4, 5));
}

#[test]
fn a_function_expression_applies_to_the_left_operand() {
    let e = Function::<_, i32>::from(|t: &i32| 2 * t);
    assert_eq!(e.eval(&4, &5), (8, 0));
}

#[test]
fn an_entry_evaluates_as_its_expression_does() {
    let x = Expr { p: (0, 1), e: Box::new(Function::<_, i32>::from(|t: &i32| t + 1)), t: 2 };
    assert_eq!(x.eval(&4, &5), (5, 0));
    let y = Expr { p: (0, 0), e: Box::new(Identity::<i32>::new()), t: 2 };
    assert_eq!(y.eval(&4, &5), (4, 5));
}
