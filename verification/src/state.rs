//! The editing session: the two classes of points, the tool in hand, and the
//! separator that belongs to the points as they stand.

use vstd::prelude::*;
use crate::discriminate::{accepted, linear_discriminate, LinearDiscrimination, SolveError};
use crate::utils::{
    chosen, kept_from, lemma_sweep_parts, lemma_sweep_unflagged, paint_by_radius,
    remove_by_radius, taken_from,
};

verus! {

/// The tool that mouse input is applied with.
#[derive(Clone, Copy, Debug, PartialEq, Eq, Structural)]
pub enum InputMode {
    /// Clicks add points.
    Add,
    /// Holding the button erases the points under the cursor.
    Remove,
    /// Holding a button moves the points under the cursor to the other class.
    Paint,
}

/// The family of curves a separator is taken from.
#[derive(Clone, Copy, Debug, PartialEq, Eq, Structural)]
pub enum DiscriminationKind {
    /// A straight line.
    Linear,
    /// A conic section. Not provided.
    Quadratic,
    /// A polynomial curve. Not provided.
    Polynomial,
}

/// What a frame of mouse input does to the points.
#[derive(Clone, Copy, Debug, PartialEq, Eq, Structural)]
pub enum Gesture {
    /// The points stay as they are.
    Nothing,
    /// The point under the cursor joins the black class.
    AddBlack,
    /// The point under the cursor joins the white class.
    AddWhite,
    /// The points within the cursor's radius leave both classes.
    Erase,
    /// The white points within the cursor's radius become black.
    PaintBlack,
    /// The black points within the cursor's radius become white.
    PaintWhite,
}

/// What the shell observed since the previous frame.
pub struct Frame<P> {
    /// For each tool button, in toolbar order, whether it was clicked.
    pub mode_clicks: [bool; 3],
    /// Whether the button that discards all points was clicked.
    pub clear_click: bool,
    /// Whether the cursor is over the canvas, below the toolbar.
    pub over_canvas: bool,
    /// Whether the left button went down during this frame.
    pub left_just_pressed: bool,
    /// Whether the right button went down during this frame.
    pub right_just_pressed: bool,
    /// Whether the left button is held.
    pub left_pressed: bool,
    /// Whether the right button is held.
    pub right_pressed: bool,
    /// The point under the cursor.
    pub cursor: P,
    /// For each black point, in order, whether it is within the cursor's radius.
    pub black_hits: Vec<bool>,
    /// For each white point, in order, whether it is within the cursor's radius.
    pub white_hits: Vec<bool>,
}

/// What an update did to the separator.
#[derive(Debug, PartialEq, Eq)]
pub enum Recompute<E> {
    /// The points did not change; the separator is the one from before.
    Idle,
    /// The points changed and the separator for them was stored.
    Solved(LinearDiscrimination),
    /// The points changed and there is no separator for them.
    NoSeparator(SolveError<E>),
}

impl InputMode {
    /// Position of the tool in the toolbar, left to right.
    pub open spec fn index_spec(self) -> int {
        match self {
            InputMode::Add => 0,
            InputMode::Remove => 1,
            InputMode::Paint => 2,
        }
    }

    /// The tools in toolbar order.
    pub fn all() -> (modes: [InputMode; 3])
        ensures
            modes@ == seq![InputMode::Add, InputMode::Remove, InputMode::Paint],
            forall|i: int| 0 <= i < 3 ==> (#[trigger] modes@[i]).index_spec() == i,
    {
        [InputMode::Add, InputMode::Remove, InputMode::Paint]
    }

    /// Whether the tool acts on everything within the cursor's radius, so
    /// that the radius is worth showing.
    pub fn uses_radius(self) -> (uses: bool)
        ensures
            uses == (self != InputMode::Add),
    {
        match self {
            InputMode::Add => false,
            InputMode::Remove | InputMode::Paint => true,
        }
    }
}

/// The tool in hand after the toolbar clicks of a frame: the buttons are
/// served left to right, so of several clicked ones the rightmost wins.
pub open spec fn mode_after(mode: InputMode, clicks: Seq<bool>) -> InputMode {
    if clicks[2] {
        InputMode::Paint
    } else if clicks[1] {
        InputMode::Remove
    } else if clicks[0] {
        InputMode::Add
    } else {
        mode
    }
}

/// The gesture that the mouse buttons make with the tool `mode`. Nothing
/// happens while the cursor is over the toolbar, and the left button goes
/// before the right one.
pub open spec fn gesture_of(
    mode: InputMode,
    over_canvas: bool,
    left_just_pressed: bool,
    right_just_pressed: bool,
    left_pressed: bool,
    right_pressed: bool,
) -> Gesture {
    if !over_canvas {
        Gesture::Nothing
    } else {
        match mode {
            InputMode::Add => if left_just_pressed {
                Gesture::AddBlack
            } else if right_just_pressed {
                Gesture::AddWhite
            } else {
                Gesture::Nothing
            },
            InputMode::Remove => if left_pressed {
                Gesture::Erase
            } else {
                Gesture::Nothing
            },
            InputMode::Paint => if left_pressed {
                Gesture::PaintBlack
            } else if right_pressed {
                Gesture::PaintWhite
            } else {
                Gesture::Nothing
            },
        }
    }
}

/// The black points after a gesture.
pub open spec fn black_after<P>(
    gesture: Gesture,
    black: Seq<P>,
    white: Seq<P>,
    black_hits: Seq<bool>,
    white_hits: Seq<bool>,
    cursor: P,
) -> Seq<P> {
    match gesture {
        Gesture::Nothing | Gesture::AddWhite => black,
        Gesture::AddBlack => black.push(cursor),
        Gesture::Erase | Gesture::PaintWhite => kept_from(black, black_hits, 0),
        Gesture::PaintBlack => black + taken_from(white, white_hits, 0),
    }
}

/// The white points after a gesture.
pub open spec fn white_after<P>(
    gesture: Gesture,
    black: Seq<P>,
    white: Seq<P>,
    black_hits: Seq<bool>,
    white_hits: Seq<bool>,
    cursor: P,
) -> Seq<P> {
    match gesture {
        Gesture::Nothing | Gesture::AddBlack => white,
        Gesture::AddWhite => white.push(cursor),
        Gesture::Erase | Gesture::PaintBlack => kept_from(white, white_hits, 0),
        Gesture::PaintWhite => white + taken_from(black, black_hits, 0),
    }
}

/// Whether a gesture changes the points.
pub open spec fn gesture_edits(gesture: Gesture, black_hits: Seq<bool>, white_hits: Seq<bool>) -> bool {
    match gesture {
        Gesture::Nothing => false,
        Gesture::AddBlack | Gesture::AddWhite => true,
        Gesture::Erase => black_hits.contains(true) || white_hits.contains(true),
        Gesture::PaintBlack => white_hits.contains(true),
        Gesture::PaintWhite => black_hits.contains(true),
    }
}

/// What a gesture does to the classes as bags, where the order of the points
/// does not count: adding puts the point under the cursor into one class,
/// erasing takes the points under the cursor out of both, and painting moves
/// the points under the cursor from one class to the other, so that the two
/// classes together hold what they held before.
pub proof fn lemma_gesture_on_bags<P>(
    gesture: Gesture,
    black: Seq<P>,
    white: Seq<P>,
    black_hits: Seq<bool>,
    white_hits: Seq<bool>,
    cursor: P,
)
    requires
        black_hits.len() == black.len(),
        white_hits.len() == white.len(),
    ensures
        ({
            let black_now = black_after(gesture, black, white, black_hits, white_hits, cursor);
            let white_now = white_after(gesture, black, white, black_hits, white_hits, cursor);
            let black_bag = black.to_multiset();
            let white_bag = white.to_multiset();
            match gesture {
                Gesture::Nothing => black_now == black && white_now == white,
                Gesture::AddBlack => black_now.to_multiset() == black_bag.insert(cursor)
                    && white_now == white,
                Gesture::AddWhite => black_now == black && white_now.to_multiset()
                    == white_bag.insert(cursor),
                Gesture::Erase => black_now.to_multiset() == chosen(
                    black,
                    black_hits,
                    false,
                ).to_multiset() && white_now.to_multiset() == chosen(
                    white,
                    white_hits,
                    false,
                ).to_multiset(),
                Gesture::PaintBlack => black_now.to_multiset() == black_bag.add(
                    chosen(white, white_hits, true).to_multiset(),
                ) && white_now.to_multiset() == chosen(white, white_hits, false).to_multiset()
                    && black_now.to_multiset().add(white_now.to_multiset()) == black_bag.add(
                    white_bag,
                ),
                Gesture::PaintWhite => white_now.to_multiset() == white_bag.add(
                    chosen(black, black_hits, true).to_multiset(),
                ) && black_now.to_multiset() == chosen(black, black_hits, false).to_multiset()
                    && black_now.to_multiset().add(white_now.to_multiset()) == black_bag.add(
                    white_bag,
                ),
            }
        }),
{
    broadcast use vstd::seq_lib::group_to_multiset_ensures;
    broadcast use vstd::multiset::group_multiset_axioms;

    lemma_sweep_parts(black, black_hits);
    lemma_sweep_parts(white, white_hits);
    vstd::seq_lib::lemma_multiset_commutative(black, taken_from(white, white_hits, 0));
    vstd::seq_lib::lemma_multiset_commutative(white, taken_from(black, black_hits, 0));
    let black_now = black_after(gesture, black, white, black_hits, white_hits, cursor);
    let white_now = white_after(gesture, black, white, black_hits, white_hits, cursor);
    assert(gesture is PaintBlack || gesture is PaintWhite ==> black_now.to_multiset().add(
        white_now.to_multiset(),
    ) =~= black.to_multiset().add(white.to_multiset()));
}

impl<P> Frame<P> {
    /// The gesture that this frame's mouse input makes with the tool `mode`.
    pub fn gesture(&self, mode: InputMode) -> (gesture: Gesture)
        ensures
            gesture == gesture_of(
                mode,
                self.over_canvas,
                self.left_just_pressed,
                self.right_just_pressed,
                self.left_pressed,
                self.right_pressed,
            ),
    {
        if !self.over_canvas {
            return Gesture::Nothing;
        }
        match mode {
            InputMode::Add => {
                if self.left_just_pressed {
                    Gesture::AddBlack
                } else if self.right_just_pressed {
                    Gesture::AddWhite
                } else {
                    Gesture::Nothing
                }
            },
            InputMode::Remove => {
                if self.left_pressed {
                    Gesture::Erase
                } else {
                    Gesture::Nothing
                }
            },
            InputMode::Paint => {
                if self.left_pressed {
                    Gesture::PaintBlack
                } else if self.right_pressed {
                    Gesture::PaintWhite
                } else {
                    Gesture::Nothing
                }
            },
        }
    }
}

/// The gesture of a frame, made with the tool that is in hand once the
/// frame's toolbar clicks are served.
pub open spec fn frame_gesture<P>(mode: InputMode, frame: Frame<P>) -> Gesture {
    gesture_of(
        mode_after(mode, frame.mode_clicks@),
        frame.over_canvas,
        frame.left_just_pressed,
        frame.right_just_pressed,
        frame.left_pressed,
        frame.right_pressed,
    )
}

/// The black points after a frame: a click on the discard button empties
/// both classes before the gesture is applied.
pub open spec fn frame_black<P>(mode: InputMode, black: Seq<P>, white: Seq<P>, frame: Frame<P>) -> Seq<
    P,
> {
    if frame.clear_click {
        black_after(
            frame_gesture(mode, frame),
            Seq::empty(),
            Seq::empty(),
            Seq::empty(),
            Seq::empty(),
            frame.cursor,
        )
    } else {
        black_after(
            frame_gesture(mode, frame),
            black,
            white,
            frame.black_hits@,
            frame.white_hits@,
            frame.cursor,
        )
    }
}

/// The white points after a frame.
pub open spec fn frame_white<P>(mode: InputMode, black: Seq<P>, white: Seq<P>, frame: Frame<P>) -> Seq<
    P,
> {
    if frame.clear_click {
        white_after(
            frame_gesture(mode, frame),
            Seq::empty(),
            Seq::empty(),
            Seq::empty(),
            Seq::empty(),
            frame.cursor,
        )
    } else {
        white_after(
            frame_gesture(mode, frame),
            black,
            white,
            frame.black_hits@,
            frame.white_hits@,
            frame.cursor,
        )
    }
}

/// Whether a frame calls for a new separator: the discard button always
/// does, a gesture does if it changes the points.
pub open spec fn frame_changes<P>(mode: InputMode, frame: Frame<P>) -> bool {
    frame.clear_click || gesture_edits(
        frame_gesture(mode, frame),
        frame.black_hits@,
        frame.white_hits@,
    )
}

/// How the answer for changed points is reported.
pub open spec fn recompute_of<E>(found: Result<LinearDiscrimination, SolveError<E>>) -> Recompute<E> {
    match found {
        Ok(line) => Recompute::Solved(line),
        Err(error) => Recompute::NoSeparator(error),
    }
}

/// The separator that is held after an update that reported `done`.
pub open spec fn separator_after<E>(
    before: Option<LinearDiscrimination>,
    done: Recompute<E>,
) -> Option<LinearDiscrimination> {
    match done {
        Recompute::Idle => before,
        Recompute::Solved(line) => Some(line),
        Recompute::NoSeparator(_) => None,
    }
}

/// An editing session.
///
/// A session never holds a separator that does not belong to its points: a
/// separator is held only while both classes have points, and its
/// coefficients are finite.
pub struct State<P> {
    input_mode: InputMode,
    discr_kind: DiscriminationKind,
    solution: Option<LinearDiscrimination>,
    white_points: Vec<P>,
    black_points: Vec<P>,
}

impl<P> State<P> {
    #[verifier::type_invariant]
    spec fn well_formed(&self) -> bool {
        self.solution matches Some(line) ==> {
            &&& line.is_finite_spec()
            &&& self.black_points@.len() > 0
            &&& self.white_points@.len() > 0
        }
    }

    /// The tool in hand.
    pub closed spec fn mode(&self) -> InputMode {
        self.input_mode
    }

    /// The kind of separator that the session computes.
    pub closed spec fn kind(&self) -> DiscriminationKind {
        self.discr_kind
    }

    /// The separator that is held, if any.
    pub closed spec fn separator(&self) -> Option<LinearDiscrimination> {
        self.solution
    }

    /// The black points, in the order in which they are stored.
    pub closed spec fn black(&self) -> Seq<P> {
        self.black_points@
    }

    /// The white points, in the order in which they are stored.
    pub closed spec fn white(&self) -> Seq<P> {
        self.white_points@
    }

    /// A fresh session: no points, no separator, the adding tool in hand,
    /// and straight lines as separators.
    pub fn new() -> (state: Self)
        ensures
            state.mode() == InputMode::Add,
            state.kind() == DiscriminationKind::Linear,
            state.separator().is_none(),
            state.black() == Seq::<P>::empty(),
            state.white() == Seq::<P>::empty(),
    {
        Self::with_kind(DiscriminationKind::Linear)
    }

    /// A fresh session that is to compute separators of the given kind.
    pub fn with_kind(kind: DiscriminationKind) -> (state: Self)
        ensures
            state.mode() == InputMode::Add,
            state.kind() == kind,
            state.separator().is_none(),
            state.black() == Seq::<P>::empty(),
            state.white() == Seq::<P>::empty(),
    {
        State {
            input_mode: InputMode::Add,
            discr_kind: kind,
            solution: None,
            white_points: Vec::new(),
            black_points: Vec::new(),
        }
    }

    /// The tool in hand.
    pub fn input_mode(&self) -> (mode: InputMode)
        ensures
            mode == self.mode(),
    {
        self.input_mode
    }

    /// The kind of separator that the session computes.
    pub fn discr_kind(&self) -> (kind: DiscriminationKind)
        ensures
            kind == self.kind(),
    {
        self.discr_kind
    }

    /// The separator that is held, if any. Where there is one, both classes
    /// have points and its coefficients are finite.
    pub fn solution(&self) -> (held: Option<LinearDiscrimination>)
        ensures
            held == self.separator(),
            held matches Some(line) ==> line.is_finite_spec() && self.black().len() > 0
                && self.white().len() > 0,
    {
        proof {
            use_type_invariant(self);
        }
        self.solution
    }

    /// The line to draw with: the separator that is held, or else the value
    /// that stands for "no separator".
    pub fn shown(&self) -> (line: LinearDiscrimination)
        ensures
            self.separator() matches Some(held) ==> line == held,
            self.separator().is_none() ==> line.vec_a[0] == 0 && line.vec_a[1] == 0 && line.scl_b
                == 0,
            self.separator().is_none() ==> line.is_none_spec(),
            line.is_finite_spec(),
    {
        proof {
            use_type_invariant(self);
        }
        match self.solution {
            Some(held) => held,
            None => LinearDiscrimination::none(),
        }
    }

    /// The black points.
    pub fn black_points(&self) -> (points: &Vec<P>)
        ensures
            points@ == self.black(),
    {
        &self.black_points
    }

    /// The white points.
    pub fn white_points(&self) -> (points: &Vec<P>)
        ensures
            points@ == self.white(),
    {
        &self.white_points
    }

    /// Applies one frame of input and brings the separator up to date.
    ///
    /// The toolbar clicks are served first, then the discard button, then the
    /// gesture that the mouse makes with the tool in hand. If none of this
    /// changed the points, the separator stays. Otherwise the old separator
    /// is dropped, and `solve` is asked for a new one if both classes have
    /// points and the session computes straight lines; `solve` is not called
    /// in any other case, and never more than once.
    pub fn update<E, F>(&mut self, frame: Frame<P>, solve: F) -> (done: Recompute<E>) where
        F: FnOnce(&[P], &[P]) -> Result<LinearDiscrimination, E>,

        requires
            frame.black_hits@.len() == old(self).black().len(),
            frame.white_hits@.len() == old(self).white().len(),
            forall|black: &[P], white: &[P]|
                black@.len() > 0 && white@.len() > 0 ==> call_requires(solve, (black, white)),
        ensures
            final(self).mode() == mode_after(old(self).mode(), frame.mode_clicks@),
            final(self).kind() == old(self).kind(),
            final(self).black() == frame_black(
                old(self).mode(),
                old(self).black(),
                old(self).white(),
                frame,
            ),
            final(self).white() == frame_white(
                old(self).mode(),
                old(self).black(),
                old(self).white(),
                frame,
            ),
            final(self).separator() == separator_after(old(self).separator(), done),
            done is Idle <==> !frame_changes(old(self).mode(), frame),
            done is Idle ==> final(self).black() == old(self).black() && final(self).white() == old(
                self,
            ).white(),
            frame_changes(old(self).mode(), frame) ==> ({
                let black_now = final(self).black();
                let white_now = final(self).white();
                if black_now.len() == 0 || white_now.len() == 0 {
                    done == Recompute::<E>::NoSeparator(SolveError::EmptyInput)
                } else if old(self).kind() != DiscriminationKind::Linear {
                    done == Recompute::<E>::NoSeparator(SolveError::Unsupported)
                } else {
                    exists|black: &[P], white: &[P], raw: Result<LinearDiscrimination, E>|
                        black@ == black_now && white@ == white_now && call_ensures(
                            solve,
                            (black, white),
                            raw,
                        ) && done == recompute_of(accepted(raw))
                }
            }),
    {
        proof {
            use_type_invariant(&*self);
        }
        let previous = self.solution;
        self.solution = None;
        let mut black: Vec<P> = Vec::new();
        let mut white: Vec<P> = Vec::new();
        core::mem::swap(&mut self.black_points, &mut black);
        core::mem::swap(&mut self.white_points, &mut white);
        let mut changed = false;

        if frame.mode_clicks[0] {
            self.input_mode = InputMode::Add;
        }
        if frame.mode_clicks[1] {
            self.input_mode = InputMode::Remove;
        }
        if frame.mode_clicks[2] {
            self.input_mode = InputMode::Paint;
        }
        let gesture = frame.gesture(self.input_mode);
        let mut black_hits = frame.black_hits;
        let mut white_hits = frame.white_hits;
        if frame.clear_click {
            white.clear();
            black.clear();
            black_hits.clear();
            white_hits.clear();
            changed = true;
        }
        match gesture {
            Gesture::Nothing => {},
            Gesture::AddBlack => {
                black.push(frame.cursor);
                changed = true;
            },
            Gesture::AddWhite => {
                white.push(frame.cursor);
                changed = true;
            },
            Gesture::Erase => {
                remove_by_radius(&mut black, black_hits, &mut changed);
                remove_by_radius(&mut white, white_hits, &mut changed);
            },
            Gesture::PaintBlack => {
                paint_by_radius(&mut white, &mut black, white_hits, &mut changed);
            },
            Gesture::PaintWhite => {
                paint_by_radius(&mut black, &mut white, black_hits, &mut changed);
            },
        }

        let done = if !changed {
            proof {
                if !frame.black_hits@.contains(true) {
                    lemma_sweep_unflagged(old(self).black(), frame.black_hits@, 0);
                }
                if !frame.white_hits@.contains(true) {
                    lemma_sweep_unflagged(old(self).white(), frame.white_hits@, 0);
                }
                assert(black@ + Seq::<P>::empty() =~= black@);
                assert(white@ + Seq::<P>::empty() =~= white@);
            }
            Recompute::Idle
        } else {
            let found = match self.discr_kind {
                DiscriminationKind::Linear => linear_discriminate(
                    black.as_slice(),
                    white.as_slice(),
                    solve,
                ),
                DiscriminationKind::Quadratic | DiscriminationKind::Polynomial => {
                    if black.len() == 0 || white.len() == 0 {
                        Err(SolveError::EmptyInput)
                    } else {
                        Err(SolveError::Unsupported)
                    }
                },
            };
            match found {
                Ok(line) => Recompute::Solved(line),
                Err(error) => Recompute::NoSeparator(error),
            }
        };
        core::mem::swap(&mut self.black_points, &mut black);
        core::mem::swap(&mut self.white_points, &mut white);
        self.solution = match done {
            Recompute::Idle => previous,
            Recompute::Solved(line) => Some(line),
            Recompute::NoSeparator(_) => None,
        };
        done
    }
}

} // verus!
