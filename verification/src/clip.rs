//! Choosing the visible chord of the separating line.
//!
//! The line is drawn inside a rectangle. Where it crosses the rectangle's
//! edges is a matter of real-number arithmetic and is worked out by the
//! caller, edge by edge. What is decided here is whether the line can be
//! drawn at all, and which of those crossings become the two ends of the
//! chord: the first one, and the first one after it that is a different
//! point.

use vstd::prelude::*;
use crate::discriminate::LinearDiscrimination;

verus! {

/// Why there is no chord to draw.
#[derive(Clone, Copy, Debug, PartialEq, Eq, Structural)]
pub enum ClipError {
    /// A coefficient of the line is not a finite number.
    NotFinite,
    /// The normal is the zero vector, so there is no line.
    ZeroNormal,
    /// The line does not meet the rectangle.
    NoIntersection,
}

/// The position of the first set flag, or the length of `flags` if none is set.
pub open spec fn first_set(flags: Seq<bool>) -> int
    decreases flags.len(),
{
    if flags.len() == 0 {
        0
    } else if flags[0] {
        0
    } else {
        1 + first_set(flags.drop_first())
    }
}

/// The chord of `line` for the given crossings.
///
/// `negligible` says whether the caller found the normal too short to tell a
/// direction; a normal that is exactly zero is recognised here.
/// `crossings` are the points where the line meets an edge within the edge's
/// bounds, in the order in which the edges are scanned, and `distinct[k]`
/// says whether `crossings[k]` is another point than `crossings[0]`.
/// `fallback` is the chord found in closed form for a line that runs
/// parallel to an edge, where there is one; it is used only if the scan
/// found nothing. A single crossing is a chord of length zero.
pub open spec fn chord_of<P>(
    line: LinearDiscrimination,
    negligible: bool,
    crossings: Seq<P>,
    distinct: Seq<bool>,
    fallback: Option<(P, P)>,
) -> Result<(P, P), ClipError> {
    if !line.is_finite_spec() {
        Err(ClipError::NotFinite)
    } else if line.is_none_spec() || negligible {
        Err(ClipError::ZeroNormal)
    } else if crossings.len() == 0 {
        match fallback {
            Some(chord) => Ok(chord),
            None => Err(ClipError::NoIntersection),
        }
    } else if first_set(distinct) < crossings.len() {
        Ok((crossings[0], crossings[first_set(distinct)]))
    } else {
        Ok((crossings[0], crossings[0]))
    }
}

/// `first_set` is the least position that holds a set flag.
pub proof fn lemma_first_set(flags: Seq<bool>)
    ensures
        0 <= first_set(flags) <= flags.len(),
        first_set(flags) < flags.len() ==> flags[first_set(flags)],
        forall|k: int| 0 <= k < first_set(flags) ==> !flags[k],
    decreases flags.len(),
{
    if flags.len() > 0 && !flags[0] {
        let rest = flags.drop_first();
        lemma_first_set(rest);
        assert forall|k: int| 0 <= k < first_set(flags) implies !flags[k] by {
            if k > 0 {
                assert(flags[k] == rest[k - 1]);
            }
        }
    }
}

/// Chooses the two ends of the visible chord of `line`; see [`chord_of`].
///
/// There is a chord only for a line with finite coefficients and a normal
/// that is neither zero nor negligible. The ends of a chord that comes from
/// the scan are crossings, and they are different points unless every
/// crossing is the same point as the first.
pub fn select_chord<P: Copy>(
    line: &LinearDiscrimination,
    negligible: bool,
    crossings: &[P],
    distinct: &[bool],
    fallback: Option<(P, P)>,
) -> (chord: Result<(P, P), ClipError>)
    requires
        crossings@.len() == distinct@.len(),
    ensures
        chord == chord_of(*line, negligible, crossings@, distinct@, fallback),
        chord is Ok ==> line.is_finite_spec() && !line.is_none_spec() && !negligible,
        chord is Ok && crossings@.len() > 0 ==> exists|k: int|
            0 <= k < crossings@.len() && chord == Ok::<(P, P), ClipError>(
                (crossings@[0], #[trigger] crossings@[k]),
            ) && (distinct@[k] || !distinct@.contains(true)),
{
    if !line.is_finite() {
        return Err(ClipError::NotFinite);
    }
    if line.is_none() || negligible {
        return Err(ClipError::ZeroNormal);
    }
    if crossings.len() == 0 {
        return match fallback {
            Some(ends) => Ok(ends),
            None => Err(ClipError::NoIntersection),
        };
    }
    proof {
        lemma_first_set(distinct@);
    }
    let mut k: usize = 0;
    while k < distinct.len() && !distinct[k]
        invariant
            k <= distinct@.len(),
            forall|t: int| 0 <= t < k ==> !distinct@[t],
        decreases distinct@.len() - k,
    {
        k += 1;
    }
    if k < crossings.len() {
        Ok((crossings[0], crossings[k]))
    } else {
        Ok((crossings[0], crossings[0]))
    }
}

} // verus!
