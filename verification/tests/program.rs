use classer::program::{Coefficient, LinearProgram};

type Point = [f64; 2];

fn number(entry: Coefficient, black: &[Point], white: &[Point]) -> f64 {
    match entry {
        Coefficient::Zero => 0.0,
        Coefficient::One => 1.0,
        Coefficient::MinusOne => -1.0,
        Coefficient::Coordinate { point, axis } => black[point][axis],
        Coefficient::Negated { point, axis } => -white[point][axis],
    }
}

fn row_value(lp: &LinearProgram, row: usize, x: &[f64], black: &[Point], white: &[Point]) -> f64 {
    (0..lp.num_vars()).map(|col| number(lp.coefficient(row, col), black, white) * x[col]).sum()
}

fn cost(lp: &LinearProgram, x: &[f64], black: &[Point], white: &[Point]) -> f64 {
    (0..lp.num_vars()).map(|col| number(lp.objective(col), black, white) * x[col]).sum()
}

fn worst_violation(lp: &LinearProgram, x: &[f64], black: &[Point], white: &[Point]) -> f64 {
    (0..lp.num_constraints())
        .map(|row| number(lp.rhs(row), black, white) - row_value(lp, row, x, black, white))
        .fold(f64::MIN, f64::max)
}

fn with_needed_slacks(a: [f64; 2], b: f64, black: &[Point], white: &[Point]) -> Vec<f64> {
    let mut x = Vec::new();
    for p in black {
        x.push((1.0 - (a[0] * p[0] + a[1] * p[1] - b)).max(0.0));
    }
    for p in white {
        x.push((1.0 - (b - a[0] * p[0] - a[1] * p[1])).max(0.0));
    }
    x.extend([a[0], a[1], b]);
    x
}

#[test]
fn no_program_for_an_empty_class() {
    assert!(LinearProgram::build(0, 3, 2).is_none());
    assert!(LinearProgram::build(3, 0, 2).is_none());
    assert!(LinearProgram::build(0, 0, 2).is_none());
    assert!(LinearProgram::build(1, 1, 2).is_some());
    assert!(LinearProgram::build(1, 1, 0).is_some());
}

#[test]
fn no_program_that_cannot_be_counted() {
    assert!(LinearProgram::build(usize::MAX, 1, 2).is_none());
    assert!(LinearProgram::build(usize::MAX / 2, 1, 2).is_none());
    assert!(LinearProgram::build(usize::MAX / 2, usize::MAX / 2, 0).is_none());
    assert!(LinearProgram::build(1, 1, usize::MAX - 2).is_none());
    assert!(LinearProgram::build(1, 1, usize::MAX - 3).is_some());
    assert!(LinearProgram::build(usize::MAX / 2 - 1, 1, usize::MAX / 2).is_some());
    assert!(LinearProgram::build(usize::MAX / 2 - 1, 1, usize::MAX / 2 + 1).is_none());
}

#[test]
fn sizes() {
    let lp = LinearProgram::build(2, 3, 2).unwrap();
    assert_eq!(lp.num_vars(), 8);
    assert_eq!(lp.num_constraints(), 10);
    let lp = LinearProgram::build(1, 1, 5).unwrap();
    assert_eq!(lp.num_vars(), 8);
    assert_eq!(lp.num_constraints(), 4);
}

#[test]
fn the_whole_matrix_for_two_black_points_and_one_white() {
    let (one, zero, minus_one) = (Coefficient::One, Coefficient::Zero, Coefficient::MinusOne);
    let lp = LinearProgram::build(2, 1, 2).unwrap();
    let x = |point: usize, axis: usize| Coefficient::Coordinate { point, axis };
    let y = |point: usize, axis: usize| Coefficient::Negated { point, axis };
    let expected = [
        [one, zero, zero, x(0, 0), x(0, 1), minus_one],
        [zero, one, zero, x(1, 0), x(1, 1), minus_one],
        [zero, zero, one, y(0, 0), y(0, 1), one],
        [one, zero, zero, zero, zero, zero],
        [zero, one, zero, zero, zero, zero],
        [zero, zero, one, zero, zero, zero],
    ];
    assert_eq!(lp.num_constraints(), 6);
    assert_eq!(lp.num_vars(), 6);
    for row in 0..6 {
        for col in 0..6 {
            assert_eq!(lp.coefficient(row, col), expected[row][col], "row {row}, column {col}");
        }
    }
    let rhs: Vec<Coefficient> = (0..6).map(|row| lp.rhs(row)).collect();
    assert_eq!(rhs, vec![one, one, one, zero, zero, zero]);
    let objective: Vec<Coefficient> = (0..6).map(|col| lp.objective(col)).collect();
    assert_eq!(objective, vec![one, one, one, zero, zero, zero]);
}

#[test]
fn rows_follow_the_points_in_input_order() {
    let black: [Point; 2] = [[256.0, 289.0], [330.0, 216.0]];
    let white: [Point; 3] = [[323.0, 363.0], [410.0, 282.0], [488.0, 200.0]];
    let lp = LinearProgram::build(2, 3, 2).unwrap();
    for (i, p) in black.iter().enumerate() {
        assert_eq!(number(lp.coefficient(i, 5), &black, &white), p[0]);
        assert_eq!(number(lp.coefficient(i, 6), &black, &white), p[1]);
        assert_eq!(lp.coefficient(i, 7), Coefficient::MinusOne);
        assert_eq!(lp.coefficient(i, i), Coefficient::One);
    }
    for (j, p) in white.iter().enumerate() {
        assert_eq!(number(lp.coefficient(2 + j, 5), &black, &white), -p[0]);
        assert_eq!(number(lp.coefficient(2 + j, 6), &black, &white), -p[1]);
        assert_eq!(lp.coefficient(2 + j, 7), Coefficient::One);
        assert_eq!(lp.coefficient(2 + j, 2 + j), Coefficient::One);
    }
}

#[test]
fn a_row_has_the_value_of_its_margin() {
    let black: [Point; 2] = [[0.0, 0.0], [1.0, 0.0]];
    let white: [Point; 2] = [[0.0, 1.0], [1.0, 1.0]];
    let lp = LinearProgram::build(2, 2, 2).unwrap();
    let x = [0.5, 0.25, 0.125, 2.0, 3.0, -5.0, 7.0];
    assert_eq!(row_value(&lp, 0, &x, &black, &white), 0.0 - 7.0 + 0.5);
    assert_eq!(row_value(&lp, 1, &x, &black, &white), 3.0 - 7.0 + 0.25);
    assert_eq!(row_value(&lp, 2, &x, &black, &white), 5.0 + 7.0 + 0.125);
    assert_eq!(row_value(&lp, 3, &x, &black, &white), -3.0 + 5.0 + 7.0 + 2.0);
    assert_eq!(row_value(&lp, 4, &x, &black, &white), 0.5);
    assert_eq!(row_value(&lp, 5, &x, &black, &white), 0.25);
    assert_eq!(row_value(&lp, 6, &x, &black, &white), 0.125);
    assert_eq!(row_value(&lp, 7, &x, &black, &white), 2.0);
    assert_eq!(cost(&lp, &x, &black, &white), 0.5 + 0.25 + 0.125 + 2.0);
}

#[test]
fn unit_square_the_expected_line_is_an_optimum() {
    let black: [Point; 2] = [[0.0, 0.0], [1.0, 0.0]];
    let white: [Point; 2] = [[0.0, 1.0], [1.0, 1.0]];
    let lp = LinearProgram::build(black.len(), white.len(), 2).unwrap();
    let x = with_needed_slacks([0.0, -2.0], -1.0, &black, &white);
    assert_eq!(x, vec![0.0, 0.0, 0.0, 0.0, 0.0, -2.0, -1.0]);
    assert!(worst_violation(&lp, &x, &black, &white) <= 0.0);
    assert_eq!(cost(&lp, &x, &black, &white), 0.0);
    for row in 0..4 {
        assert_eq!(row_value(&lp, row, &x, &black, &white), 1.0);
    }
}

#[test]
fn five_points_the_expected_line_is_an_optimum() {
    let black: [Point; 2] = [[256.0, 289.0], [330.0, 216.0]];
    let white: [Point; 3] = [[323.0, 363.0], [410.0, 282.0], [488.0, 200.0]];
    let lp = LinearProgram::build(black.len(), white.len(), 2).unwrap();
    let a = [-0.014104, -0.014277];
    let b = -8.73817;
    let x = with_needed_slacks(a, b, &black, &white);
    assert!(worst_violation(&lp, &x, &black, &white) <= 1e-12);
    assert!(cost(&lp, &x, &black, &white) < 1e-3);
    for p in black {
        assert!(a[0] * p[0] + a[1] * p[1] - b >= 1.0 - 1e-3);
    }
    for p in white {
        assert!(a[0] * p[0] + a[1] * p[1] - b <= -(1.0 - 1e-3));
    }
}

#[test]
fn a_shared_point_costs_two_at_least() {
    let black: [Point; 2] = [[3.0, 4.0], [0.0, 0.0]];
    let white: [Point; 2] = [[9.0, 1.0], [3.0, 4.0]];
    let lp = LinearProgram::build(black.len(), white.len(), 2).unwrap();
    let mut least = f64::MAX;
    for a0 in -8..=8 {
        for a1 in -8..=8 {
            for b in -40..=40 {
                let a = [f64::from(a0) / 4.0, f64::from(a1) / 4.0];
                let x = with_needed_slacks(a, f64::from(b) / 4.0, &black, &white);
                assert!(worst_violation(&lp, &x, &black, &white) <= 1e-12);
                let total = cost(&lp, &x, &black, &white);
                assert!(total >= 2.0);
                least = least.min(total);
            }
        }
    }
    assert_eq!(least, 2.0);
}

#[test]
fn giving_every_point_its_slack_is_always_feasible() {
    let black: [Point; 3] = [[1.0, 1.0], [2.0, 5.0], [-3.0, 0.5]];
    let white: [Point; 2] = [[1.5, 1.0], [-2.0, 4.0]];
    let lp = LinearProgram::build(black.len(), white.len(), 2).unwrap();
    for (a, b) in [([0.0, 0.0], 0.0), ([1.0, -1.0], 0.5), ([-4.0, 2.0], -3.0), ([0.25, 8.0], 100.0)] {
        let x = with_needed_slacks(a, b, &black, &white);
        assert!(worst_violation(&lp, &x, &black, &white) <= 1e-12);
        assert!(cost(&lp, &x, &black, &white) >= 0.0);
    }
    let x = with_needed_slacks([0.0, 0.0], 0.0, &black, &white);
    assert_eq!(cost(&lp, &x, &black, &white), 5.0);
}

#[test]
fn a_separating_line_scaled_to_margin_one_costs_nothing() {
    let black: [Point; 2] = [[0.0, 0.0], [1.0, 0.0]];
    let white: [Point; 2] = [[0.0, 1.0], [1.0, 1.0]];
    let lp = LinearProgram::build(black.len(), white.len(), 2).unwrap();
    // y = 1/2 separates with margin 1/4 as written: a = (0, -1/2), b = -1/4.
    let (a, b, margin) = ([0.0, -0.5], -0.25, 0.25);
    for p in black {
        assert!(a[0] * p[0] + a[1] * p[1] - b >= margin);
    }
    for p in white {
        assert!(a[0] * p[0] + a[1] * p[1] - b <= -margin);
    }
    let unscaled = with_needed_slacks(a, b, &black, &white);
    assert_eq!(cost(&lp, &unscaled, &black, &white), 3.0);
    let k = 1.0 / margin;
    let x = with_needed_slacks([k * a[0], k * a[1]], k * b, &black, &white);
    assert_eq!(x, vec![0.0, 0.0, 0.0, 0.0, 0.0, -2.0, -1.0]);
    assert!(worst_violation(&lp, &x, &black, &white) <= 0.0);
    assert_eq!(cost(&lp, &x, &black, &white), 0.0);
}

#[test]
fn no_feasible_slacks_are_cheaper_than_the_needed_ones() {
    let black: [Point; 2] = [[1.0, 1.0], [4.0, 0.0]];
    let white: [Point; 2] = [[2.0, 1.0], [0.0, 3.0]];
    let lp = LinearProgram::build(black.len(), white.len(), 2).unwrap();
    let (a, b) = ([1.0, -1.0], 0.5);
    let needed = with_needed_slacks(a, b, &black, &white);
    assert_eq!(needed, vec![1.5, 0.0, 1.5, 0.0, 1.0, -1.0, 0.5]);
    assert!(worst_violation(&lp, &needed, &black, &white) <= 0.0);
    assert_eq!(cost(&lp, &needed, &black, &white), 3.0);
    for spare in [0.0, 0.25, 1.0] {
        for t in 0..4 {
            let mut more = needed.clone();
            more[t] += spare;
            assert!(worst_violation(&lp, &more, &black, &white) <= 0.0);
            assert!(cost(&lp, &more, &black, &white) >= 3.0);
            let mut less = needed.clone();
            less[t] -= 0.125;
            assert!(worst_violation(&lp, &less, &black, &white) > 0.0);
        }
    }
}
