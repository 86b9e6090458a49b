use icicle_trace::{
    check_constraints, get_log_quotient_degree, get_max_constraint_degree,
    get_symbolic_constraints, Air, BabyBear, BaseAir, CheckError, SymbolicAirBuilder,
    SymbolicExpression,
};
use p3_matrix::dense::RowMajorMatrix;
use p3_matrix::Matrix;

/// Two columns, `left` and `right`; public values `a`, `b` and the result `x`.
pub struct FibonacciAir {}

impl BaseAir for FibonacciAir {
    fn width(&self) -> usize {
        2
    }
}

impl Air for FibonacciAir {
    fn eval(&self, builder: &mut SymbolicAirBuilder) {
        let main = builder.main();
        let pis = builder.public_values().to_vec();
        let a = SymbolicExpression::from(pis[0]);
        let b = SymbolicExpression::from(pis[1]);
        let x = SymbolicExpression::from(pis[2]);
        let local = main.row_slice(0).to_vec();
        let next = main.row_slice(1).to_vec();
        let local_left = SymbolicExpression::from(local[0]);
        let local_right = SymbolicExpression::from(local[1]);
        let next_left = SymbolicExpression::from(next[0]);
        let next_right = SymbolicExpression::from(next[1]);

        let mut when_first_row = builder.when_first_row();
        when_first_row.assert_eq(local_left.clone(), a);
        when_first_row.assert_eq(local_right.clone(), b);

        let mut when_transition = builder.when_transition();
        when_transition.assert_eq(local_right.clone(), next_left);
        when_transition.assert_eq(local_left.add(local_right.clone()), next_right);

        builder.when_last_row().assert_eq(local_right, x);
    }
}

fn generate_trace_rows(a: u32, b: u32, n: usize) -> RowMajorMatrix<u32> {
    assert!(n.is_power_of_two());
    let mut values = vec![a, b];
    for i in 1..n {
        let left = values[2 * i - 1];
        let right = values[2 * i - 2] + values[2 * i - 1];
        values.push(left);
        values.push(right);
    }
    RowMajorMatrix::new(values, 2)
}

fn pubs(x: u32) -> Vec<BabyBear> {
    vec![BabyBear::from_u32(0), BabyBear::from_u32(1), BabyBear::from_u32(x)]
}

/// n-th Fibonacci number expected to be x
fn test_trace(n: usize, x: u32) {
    let trace = generate_trace_rows(0, 1, n);
    let pis = pubs(x);
    let symbolic_constraints = get_symbolic_constraints(&FibonacciAir {}, 0, pis.len());
    let constraint_count = symbolic_constraints.len();
    let constraint_degree = symbolic_constraints
        .iter()
        .map(SymbolicExpression::degree_multiple)
        .max()
        .unwrap_or(0);
    assert_eq!(constraint_count, 5);
    assert_eq!(constraint_degree, 2);
    assert_eq!(trace.height(), n);
    assert_eq!(check_constraints(&FibonacciAir {}, &trace, &pis), Ok(()));
}

#[test]
fn test_public_value() {
    test_trace(1 << 3, 21);
}

#[test]
fn fibonacci_trace_values() {
    let trace = generate_trace_rows(0, 1, 8);
    assert_eq!(trace.values, vec![0, 1, 1, 1, 1, 2, 2, 3, 3, 5, 5, 8, 8, 13, 13, 21]);
}

#[test]
fn fibonacci_constraint_degrees() {
    let d = get_max_constraint_degree(&FibonacciAir {}, 0, 3);
    assert_eq!(d, 2);
    assert_eq!(get_log_quotient_degree(&FibonacciAir {}, 0, 3), 0);
}

#[test]
fn fibonacci_wrong_result_fails_on_last_row() {
    let trace = generate_trace_rows(0, 1, 8);
    let r = check_constraints(&FibonacciAir {}, &trace, &pubs(22));
    match r {
        Err(CheckError::NonZero { row, constraint, .. }) => {
            assert_eq!(row, 7);
            assert_eq!(constraint, 4);
        }
        other => panic!("unexpected {:?}", other),
    }
}

#[test]
fn fibonacci_mismatched_first_row_fails_on_row_zero() {
    let trace = generate_trace_rows(1, 1, 8);
    let r = check_constraints(&FibonacciAir {}, &trace, &pubs(21));
    match r {
        Err(CheckError::NonZero { row, constraint, value }) => {
            assert_eq!(row, 0);
            assert_eq!(constraint, 0);
            assert_eq!(value, BabyBear::from_u32(1));
        }
        other => panic!("unexpected {:?}", other),
    }
}

#[test]
fn missing_public_value_is_unbound() {
    let trace = generate_trace_rows(0, 1, 8);
    let two = vec![BabyBear::from_u32(0), BabyBear::from_u32(1)];
    let cs = get_symbolic_constraints(&FibonacciAir {}, 0, 3);
    let r = icicle_trace::check_trace(&cs, &trace, &two);
    assert_eq!(r, Err(CheckError::Unbound { constraint: 4 }));
}

#[test]
fn narrow_trace_is_unbound() {
    let trace = RowMajorMatrix::new(vec![0u32, 1, 1, 2], 1);
    let cs = get_symbolic_constraints(&FibonacciAir {}, 0, 3);
    let r = icicle_trace::check_trace(&cs, &trace, &pubs(21));
    assert_eq!(r, Err(CheckError::Unbound { constraint: 1 }));
}

#[test]
fn empty_trace_passes() {
    let trace = RowMajorMatrix::new(Vec::<u32>::new(), 2);
    assert_eq!(check_constraints(&FibonacciAir {}, &trace, &pubs(21)), Ok(()));
}
