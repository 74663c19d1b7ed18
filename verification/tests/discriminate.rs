use classer::discriminate::{
    accept, is_finite_bits, is_zero_bits, linear_discriminate, LinearDiscrimination, SolveError,
};
use std::cell::Cell;

type Point = [f32; 2];

fn line(a0: f32, a1: f32, b: f32) -> LinearDiscrimination {
    LinearDiscrimination { vec_a: [a0.to_bits(), a1.to_bits()], scl_b: b.to_bits() }
}

#[test]
fn none_is_all_zero() {
    let none = LinearDiscrimination::none();
    assert_eq!(f32::from_bits(none.vec_a[0]), 0.0);
    assert_eq!(f32::from_bits(none.vec_a[1]), 0.0);
    assert_eq!(f32::from_bits(none.scl_b), 0.0);
    assert_eq!(none, line(0.0, 0.0, 0.0));
    assert!(none.is_none());
    assert!(none.is_finite());
}

#[test]
fn a_zero_normal_of_either_sign_is_none() {
    assert!(line(-0.0, 0.0, 3.0).is_none());
    assert!(line(0.0, -0.0, -1.0).is_none());
    assert!(!line(0.0, -2.0, -1.0).is_none());
    assert!(!line(f32::MIN_POSITIVE, 0.0, 0.0).is_none());
    assert!(!line(1.0e-45, 0.0, 0.0).is_none());
}

#[test]
fn zero_encodings() {
    assert!(is_zero_bits(0));
    assert!(is_zero_bits(0x8000_0000));
    assert!(!is_zero_bits(1));
    assert!(!is_zero_bits(0x8000_0001));
    assert!(!is_zero_bits(1.0f32.to_bits()));
}

#[test]
fn finite_encodings() {
    assert!(is_finite_bits(0));
    assert!(is_finite_bits(1.0f32.to_bits()));
    assert!(is_finite_bits(f32::MAX.to_bits()));
    assert!(is_finite_bits(f32::MIN.to_bits()));
    assert!(is_finite_bits((-8.73817f32).to_bits()));
    assert!(!is_finite_bits(f32::INFINITY.to_bits()));
    assert!(!is_finite_bits(f32::NEG_INFINITY.to_bits()));
    assert!(!is_finite_bits(f32::NAN.to_bits()));
    assert!(!is_finite_bits(0x7f80_0001));
    assert!(!is_finite_bits(0xffff_ffff));
    assert!(is_finite_bits(0x7f7f_ffff));
}

#[test]
fn finite_lines() {
    assert!(line(0.0, -2.0, -1.0).is_finite());
    assert!(!line(f32::NAN, -2.0, -1.0).is_finite());
    assert!(!line(0.0, f32::INFINITY, -1.0).is_finite());
    assert!(!line(0.0, -2.0, f32::NEG_INFINITY).is_finite());
}

#[test]
fn a_finite_line_is_kept() {
    let found: Result<LinearDiscrimination, SolveError<String>> = accept(Ok(line(0.0, -2.0, -1.0)));
    assert_eq!(found, Ok(line(0.0, -2.0, -1.0)));
}

#[test]
fn a_line_that_is_not_finite_is_not_kept() {
    let found: Result<LinearDiscrimination, SolveError<String>> =
        accept(Ok(line(f32::NAN, -2.0, -1.0)));
    assert_eq!(found, Err(SolveError::NonFinite));
    let found: Result<LinearDiscrimination, SolveError<String>> =
        accept(Ok(line(1.0, 1.0, f32::INFINITY)));
    assert_eq!(found, Err(SolveError::NonFinite));
}

#[test]
fn a_failure_is_passed_on() {
    let found = accept(Err("did not converge".to_string()));
    assert_eq!(found, Err(SolveError::Solver("did not converge".to_string())));
}

#[test]
fn accepting_changes_nothing_the_second_time() {
    let once: Result<LinearDiscrimination, SolveError<String>> =
        accept(Ok(line(-0.014104, -0.014277, -8.73817)));
    let kept = once.unwrap();
    let twice: Result<LinearDiscrimination, SolveError<String>> = accept(Ok(kept));
    assert_eq!(twice, Ok(kept));
}

#[test]
fn empty_black_is_not_solved() {
    let calls = Cell::new(0);
    let black: Vec<Point> = Vec::new();
    let white: Vec<Point> = vec![[0.0, 1.0], [1.0, 1.0]];
    let found = linear_discriminate(&black, &white, |_: &[Point], _: &[Point]| {
        calls.set(calls.get() + 1);
        Ok::<LinearDiscrimination, String>(line(1.0, 1.0, 1.0))
    });
    assert_eq!(found, Err(SolveError::EmptyInput));
    assert_eq!(calls.get(), 0);
}

#[test]
fn empty_white_is_not_solved() {
    let calls = Cell::new(0);
    let black: Vec<Point> = vec![[0.0, 0.0]];
    let white: Vec<Point> = Vec::new();
    let found = linear_discriminate(&black, &white, |_: &[Point], _: &[Point]| {
        calls.set(calls.get() + 1);
        Ok::<LinearDiscrimination, String>(line(1.0, 1.0, 1.0))
    });
    assert_eq!(found, Err(SolveError::EmptyInput));
    assert_eq!(calls.get(), 0);
}

#[test]
fn the_solver_is_asked_once_with_both_classes() {
    let calls = Cell::new(0);
    let black: Vec<Point> = vec![[0.0, 0.0], [1.0, 0.0]];
    let white: Vec<Point> = vec![[0.0, 1.0], [1.0, 1.0]];
    let found = linear_discriminate(&black, &white, |b: &[Point], w: &[Point]| {
        calls.set(calls.get() + 1);
        assert_eq!(b, &[[0.0, 0.0], [1.0, 0.0]]);
        assert_eq!(w, &[[0.0, 1.0], [1.0, 1.0]]);
        Ok::<LinearDiscrimination, String>(line(0.0, -2.0, -1.0))
    });
    assert_eq!(found, Ok(line(0.0, -2.0, -1.0)));
    assert_eq!(calls.get(), 1);
}

#[test]
fn a_solver_failure_is_a_typed_error() {
    let black: Vec<Point> = vec![[0.0, 0.0]];
    let white: Vec<Point> = vec![[0.0, 0.0]];
    let found = linear_discriminate(&black, &white, |_: &[Point], _: &[Point]| {
        Err::<LinearDiscrimination, &str>("stalled")
    });
    assert_eq!(found, Err(SolveError::Solver("stalled")));
}

#[test]
fn a_solver_answer_that_is_not_finite_is_an_error() {
    let black: Vec<Point> = vec![[0.0, 0.0]];
    let white: Vec<Point> = vec![[1.0, 0.0]];
    let found = linear_discriminate(&black, &white, |_: &[Point], _: &[Point]| {
        Ok::<LinearDiscrimination, String>(line(f32::NAN, f32::NAN, f32::NAN))
    });
    assert_eq!(found, Err(SolveError::NonFinite));
}
