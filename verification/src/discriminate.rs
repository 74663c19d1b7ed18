//! The separating line and the test that every solver answer has to pass.
//!
//! The numerical solver works on real-number approximations that this crate
//! does not compute with. A coefficient is therefore held as the 32 bits of
//! its IEEE 754 single-precision encoding: one sign bit, eight exponent bits,
//! twenty-three fraction bits. From the encoding alone one can tell whether a
//! coefficient is zero and whether it is a finite number, and these are the
//! two facts the rest of the crate depends on.

use vstd::prelude::*;

verus! {

/// The exponent field of a single-precision encoding.
pub open spec fn exponent_field(bits: u32) -> int {
    (bits as int / 0x80_0000) % 0x100
}

/// The fraction field of a single-precision encoding.
pub open spec fn fraction_field(bits: u32) -> int {
    bits as int % 0x80_0000
}

/// The encoding stands for a finite number: neither an infinity nor a NaN,
/// which are the encodings whose exponent field is all ones.
pub open spec fn encodes_finite(bits: u32) -> bool {
    exponent_field(bits) != 0xff
}

/// The encoding stands for zero, of either sign.
pub open spec fn encodes_zero(bits: u32) -> bool {
    exponent_field(bits) == 0 && fraction_field(bits) == 0
}

/// Whether `bits` encodes a finite number.
pub fn is_finite_bits(bits: u32) -> (finite: bool)
    ensures
        finite == encodes_finite(bits),
{
    (bits / 0x80_0000) % 0x100 != 0xff
}

/// Whether `bits` encodes positive or negative zero.
pub fn is_zero_bits(bits: u32) -> (zero: bool)
    ensures
        zero == encodes_zero(bits),
        zero == (bits == 0 || bits == 0x8000_0000),
{
    bits % 0x8000_0000 == 0
}

/// The line `a . p = b` that separates the two classes, with the normal `a`
/// and the offset `b` held as single-precision encodings.
///
/// A zero normal describes no line. It is the value that stands for "no
/// separator": before anything was computed, and whenever a class is empty.
#[derive(Clone, Copy, Debug, PartialEq, Eq)]
pub struct LinearDiscrimination {
    pub vec_a: [u32; 2],
    pub scl_b: u32,
}

impl LinearDiscrimination {
    /// The normal is the zero vector.
    pub open spec fn is_none_spec(&self) -> bool {
        encodes_zero(self.vec_a[0]) && encodes_zero(self.vec_a[1])
    }

    /// Every coefficient is a finite number.
    pub open spec fn is_finite_spec(&self) -> bool {
        encodes_finite(self.vec_a[0]) && encodes_finite(self.vec_a[1]) && encodes_finite(
            self.scl_b,
        )
    }

    /// The value that stands for "no separator": all coefficients are
    /// positive zero.
    pub fn none() -> (line: Self)
        ensures
            line.vec_a[0] == 0,
            line.vec_a[1] == 0,
            line.scl_b == 0,
            line.is_none_spec(),
            line.is_finite_spec(),
    {
        LinearDiscrimination { vec_a: [0, 0], scl_b: 0 }
    }

    /// Whether this is a value that stands for "no separator".
    pub fn is_none(&self) -> (none: bool)
        ensures
            none == self.is_none_spec(),
    {
        is_zero_bits(self.vec_a[0]) && is_zero_bits(self.vec_a[1])
    }

    /// Whether every coefficient is a finite number.
    pub fn is_finite(&self) -> (finite: bool)
        ensures
            finite == self.is_finite_spec(),
    {
        is_finite_bits(self.vec_a[0]) && is_finite_bits(self.vec_a[1]) && is_finite_bits(
            self.scl_b,
        )
    }
}

/// Why no separator is available.
#[derive(Debug, PartialEq, Eq)]
pub enum SolveError<E> {
    /// A class has no points, so there is nothing to separate yet.
    EmptyInput,
    /// The requested kind of separator is not provided.
    Unsupported,
    /// The solver answered with a coefficient that is not a finite number.
    NonFinite,
    /// The solver gave up; its own report is carried along.
    Solver(E),
}

/// What becomes of a solver's answer: a failure is passed on, and a line is
/// kept only if all its coefficients are finite.
pub open spec fn accepted<E>(raw: Result<LinearDiscrimination, E>) -> Result<
    LinearDiscrimination,
    SolveError<E>,
> {
    match raw {
        Ok(line) => if line.is_finite_spec() {
            Ok(line)
        } else {
            Err(SolveError::NonFinite)
        },
        Err(report) => Err(SolveError::Solver(report)),
    }
}

/// Decides what becomes of a solver's answer; see [`accepted`].
pub fn accept<E>(raw: Result<LinearDiscrimination, E>) -> (checked: Result<
    LinearDiscrimination,
    SolveError<E>,
>)
    ensures
        checked == accepted(raw),
        checked matches Ok(line) ==> line.is_finite_spec(),
{
    match raw {
        Ok(line) => {
            if line.is_finite() {
                Ok(line)
            } else {
                Err(SolveError::NonFinite)
            }
        },
        Err(report) => Err(SolveError::Solver(report)),
    }
}

/// Accepting changes nothing the second time: a line that was kept once is
/// kept again as it is.
pub proof fn lemma_accepted_again<E>(raw: Result<LinearDiscrimination, E>)
    ensures
        accepted(raw) matches Ok(line) ==> accepted(Ok::<LinearDiscrimination, E>(line))
            == accepted(raw),
{
}

/// Computes the line that separates `black_points` from `white_points`.
///
/// The numerical work is done by `solve`, which is called at most once and
/// only when both classes have points. Its answer is returned only if it is a
/// line with finite coefficients; in every other case the caller gets a typed
/// error and must show no separator.
pub fn linear_discriminate<P, E, F>(black_points: &[P], white_points: &[P], solve: F) -> (found:
    Result<LinearDiscrimination, SolveError<E>>) where
    F: FnOnce(&[P], &[P]) -> Result<LinearDiscrimination, E>,

    requires
        black_points@.len() > 0 && white_points@.len() > 0 ==> call_requires(
            solve,
            (black_points, white_points),
        ),
    ensures
        black_points@.len() == 0 || white_points@.len() == 0 ==> found == Err::<
            LinearDiscrimination,
            SolveError<E>,
        >(SolveError::EmptyInput),
        black_points@.len() > 0 && white_points@.len() > 0 ==> exists|
            raw: Result<LinearDiscrimination, E>,
        |
            call_ensures(solve, (black_points, white_points), raw) && found == accepted(raw),
        found matches Ok(line) ==> line.is_finite_spec(),
{
    if black_points.len() == 0 || white_points.len() == 0 {
        return Err(SolveError::EmptyInput);
    }
    let raw = solve(black_points, white_points);
    accept(raw)
}

} // verus!
