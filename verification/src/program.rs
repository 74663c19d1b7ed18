//! The linear program whose optimum is the best separating hyperplane.
//!
//! For `n` black points `x_i` and `m` white points `y_j` in `d` dimensions
//! the unknowns are, in this order, a slack `u_i` for every black point, a
//! slack `v_j` for every white point, the normal `a` and the offset `b`. The
//! program minimises the sum of the slacks under
//!
//! ```text
//!   a . x_i - b + u_i >= 1     (row i)
//!  -a . y_j + b + v_j >= 1     (row n + j)
//!   u_i >= 0,  v_j >= 0        (rows n + m onwards)
//! ```
//!
//! Every entry of the constraint matrix is a constant or a coordinate of one
//! point, copied or negated. This module says which, entry by entry, and
//! leaves the numbers to the solver. What the entries mean is stated over the
//! real numbers.

use vstd::prelude::*;

verus! {

/// One entry of the program, as a recipe.
#[derive(Clone, Copy, Debug, PartialEq, Eq, Structural)]
pub enum Coefficient {
    /// The number 0.
    Zero,
    /// The number 1.
    One,
    /// The number -1.
    MinusOne,
    /// The coordinate `axis` of the black point `point`.
    Coordinate { point: usize, axis: usize },
    /// The negated coordinate `axis` of the white point `point`.
    Negated { point: usize, axis: usize },
}

/// The size of a program: the number of black points, of white points, and
/// of dimensions.
pub struct Shape {
    pub black: nat,
    pub white: nat,
    pub dims: nat,
}

impl Shape {
    /// The number of slack variables, one per point.
    pub open spec fn slacks(self) -> nat {
        self.black + self.white
    }

    /// The number of unknowns.
    pub open spec fn num_vars(self) -> nat {
        self.black + self.white + self.dims + 1
    }

    /// The number of constraints: a margin row and a sign row per point.
    pub open spec fn num_constraints(self) -> nat {
        2 * (self.black + self.white)
    }

    /// The column of the offset `b`.
    pub open spec fn offset_column(self) -> nat {
        self.black + self.white + self.dims
    }

    /// The entry of the constraint matrix in row `row` and column `col`.
    pub open spec fn coefficient(self, row: int, col: int) -> Coefficient {
        if row < self.slacks() {
            if col < self.slacks() {
                if col == row {
                    Coefficient::One
                } else {
                    Coefficient::Zero
                }
            } else if col < self.offset_column() {
                if row < self.black {
                    Coefficient::Coordinate {
                        point: row as usize,
                        axis: (col - self.slacks()) as usize,
                    }
                } else {
                    Coefficient::Negated {
                        point: (row - self.black) as usize,
                        axis: (col - self.slacks()) as usize,
                    }
                }
            } else if row < self.black {
                Coefficient::MinusOne
            } else {
                Coefficient::One
            }
        } else if col == row - self.slacks() {
            Coefficient::One
        } else {
            Coefficient::Zero
        }
    }

    /// The right-hand side of row `row`.
    pub open spec fn rhs(self, row: int) -> Coefficient {
        if row < self.slacks() {
            Coefficient::One
        } else {
            Coefficient::Zero
        }
    }

    /// The weight of column `col` in the objective.
    pub open spec fn objective(self, col: int) -> Coefficient {
        if col < self.slacks() {
            Coefficient::One
        } else {
            Coefficient::Zero
        }
    }
}

/// The layout of the program for given numbers of points.
pub struct LinearProgram {
    n_black: usize,
    n_white: usize,
    dims: usize,
}

impl LinearProgram {
    #[verifier::type_invariant]
    spec fn well_formed(&self) -> bool {
        &&& self.n_black > 0
        &&& self.n_white > 0
        &&& self.n_black + self.n_white + self.dims + 1 <= usize::MAX
        &&& 2 * (self.n_black + self.n_white) <= usize::MAX
    }

    /// The size of the program.
    pub closed spec fn shape(&self) -> Shape {
        Shape { black: self.n_black as nat, white: self.n_white as nat, dims: self.dims as nat }
    }

    /// Lays out the program for `n_black` black and `n_white` white points
    /// in `dims` dimensions. There is no program if a class is empty, or if
    /// the matrix would have more rows or columns than can be counted.
    pub fn build(n_black: usize, n_white: usize, dims: usize) -> (program: Option<Self>)
        ensures
            program.is_some() <==> (n_black > 0 && n_white > 0 && n_black + n_white + dims + 1
                <= usize::MAX && 2 * (n_black + n_white) <= usize::MAX),
            program matches Some(lp) ==> lp.shape() == (Shape {
                black: n_black as nat,
                white: n_white as nat,
                dims: dims as nat,
            }),
    {
        if n_black == 0 || n_white == 0 {
            return None;
        }
        let slacks = match n_black.checked_add(n_white) {
            Some(sum) => sum,
            None => {
                return None;
            },
        };
        if slacks.checked_add(slacks).is_none() {
            return None;
        }
        match slacks.checked_add(dims) {
            Some(sum) => {
                if sum == usize::MAX {
                    return None;
                }
            },
            None => {
                return None;
            },
        }
        Some(LinearProgram { n_black, n_white, dims })
    }

    /// The number of unknowns.
    pub fn num_vars(&self) -> (count: usize)
        ensures
            count == self.shape().num_vars(),
    {
        proof {
            use_type_invariant(self);
        }
        self.n_black + self.n_white + self.dims + 1
    }

    /// The number of constraints.
    pub fn num_constraints(&self) -> (count: usize)
        ensures
            count == self.shape().num_constraints(),
    {
        proof {
            use_type_invariant(self);
        }
        2 * (self.n_black + self.n_white)
    }

    /// The entry of the constraint matrix in row `row` and column `col`.
    pub fn coefficient(&self, row: usize, col: usize) -> (entry: Coefficient)
        requires
            row < self.shape().num_constraints(),
            col < self.shape().num_vars(),
        ensures
            entry == self.shape().coefficient(row as int, col as int),
    {
        proof {
            use_type_invariant(self);
        }
        let slacks = self.n_black + self.n_white;
        if row < slacks {
            if col < slacks {
                if col == row {
                    Coefficient::One
                } else {
                    Coefficient::Zero
                }
            } else if col < slacks + self.dims {
                if row < self.n_black {
                    Coefficient::Coordinate { point: row, axis: col - slacks }
                } else {
                    Coefficient::Negated { point: row - self.n_black, axis: col - slacks }
                }
            } else if row < self.n_black {
                Coefficient::MinusOne
            } else {
                Coefficient::One
            }
        } else if col == row - slacks {
            Coefficient::One
        } else {
            Coefficient::Zero
        }
    }

    /// The right-hand side of row `row`.
    pub fn rhs(&self, row: usize) -> (entry: Coefficient)
        requires
            row < self.shape().num_constraints(),
        ensures
            entry == self.shape().rhs(row as int),
    {
        proof {
            use_type_invariant(self);
        }
        if row < self.n_black + self.n_white {
            Coefficient::One
        } else {
            Coefficient::Zero
        }
    }

    /// The weight of column `col` in the objective.
    pub fn objective(&self, col: usize) -> (entry: Coefficient)
        requires
            col < self.shape().num_vars(),
        ensures
            entry == self.shape().objective(col as int),
    {
        proof {
            use_type_invariant(self);
        }
        if col < self.n_black + self.n_white {
            Coefficient::One
        } else {
            Coefficient::Zero
        }
    }
}

/// The two classes with their coordinates as real numbers.
pub struct Points {
    pub black: Seq<Seq<real>>,
    pub white: Seq<Seq<real>>,
}

impl Shape {
    /// The rows and columns can be counted in a machine word.
    pub open spec fn countable(self) -> bool {
        self.num_vars() <= usize::MAX && self.num_constraints() <= usize::MAX
    }

    /// `points` holds as many points, of as many coordinates, as the shape says.
    pub open spec fn fits(self, points: Points) -> bool {
        &&& points.black.len() == self.black
        &&& points.white.len() == self.white
        &&& forall|i: int| 0 <= i < self.black ==> (#[trigger] points.black[i]).len() == self.dims
        &&& forall|j: int| 0 <= j < self.white ==> (#[trigger] points.white[j]).len() == self.dims
    }

    /// The normal `a` that the assignment `x` holds.
    pub open spec fn normal_of(self, x: Seq<real>) -> Seq<real> {
        x.subrange(self.slacks() as int, self.offset_column() as int)
    }

    /// The offset `b` that the assignment `x` holds.
    pub open spec fn offset_of(self, x: Seq<real>) -> real {
        x[self.offset_column() as int]
    }

    /// The value of row `row` of the constraint matrix at the assignment `x`,
    /// summed over the columns before `upto`.
    pub open spec fn row_sum(self, points: Points, row: int, x: Seq<real>, upto: nat) -> real
        decreases upto,
    {
        if upto == 0 {
            0 as real
        } else {
            self.row_sum(points, row, x, (upto - 1) as nat) + value_of(
                self.coefficient(row, upto - 1),
                points,
            ) * x[upto - 1]
        }
    }

    /// The value of row `row` of the constraint matrix at the assignment `x`.
    pub open spec fn row_value(self, points: Points, row: int, x: Seq<real>) -> real {
        self.row_sum(points, row, x, self.num_vars())
    }

    /// The objective at the assignment `x`, summed over the columns before `upto`.
    pub open spec fn cost_sum(self, points: Points, x: Seq<real>, upto: nat) -> real
        decreases upto,
    {
        if upto == 0 {
            0 as real
        } else {
            self.cost_sum(points, x, (upto - 1) as nat) + value_of(
                self.objective(upto - 1),
                points,
            ) * x[upto - 1]
        }
    }

    /// The objective at the assignment `x`.
    pub open spec fn cost(self, points: Points, x: Seq<real>) -> real {
        self.cost_sum(points, x, self.num_vars())
    }

    /// The assignment `x` meets every constraint.
    pub open spec fn feasible(self, points: Points, x: Seq<real>) -> bool {
        &&& x.len() == self.num_vars()
        &&& forall|row: int|
            0 <= row < self.num_constraints() ==> #[trigger] self.row_value(points, row, x)
                >= value_of(self.rhs(row), points)
    }

    /// The constraints as they are meant: every point lies on its side of
    /// the hyperplane at distance 1 or makes up for it by its slack, and no
    /// slack is negative.
    pub open spec fn within_margins(self, points: Points, x: Seq<real>) -> bool {
        &&& x.len() == self.num_vars()
        &&& forall|i: int|
            0 <= i < self.black ==> dot(self.normal_of(x), #[trigger] points.black[i])
                - self.offset_of(x) + x[i] >= 1 as real
        &&& forall|j: int|
            0 <= j < self.white ==> self.offset_of(x) - dot(
                self.normal_of(x),
                #[trigger] points.white[j],
            ) + x[self.black + j] >= 1 as real
        &&& forall|t: int| 0 <= t < self.slacks() ==> #[trigger] x[t] >= 0 as real
    }
}

/// The number that a recipe stands for.
pub open spec fn value_of(entry: Coefficient, points: Points) -> real {
    match entry {
        Coefficient::Zero => 0 as real,
        Coefficient::One => 1 as real,
        Coefficient::MinusOne => -(1 as real),
        Coefficient::Coordinate { point, axis } => points.black[point as int][axis as int],
        Coefficient::Negated { point, axis } => -points.white[point as int][axis as int],
    }
}

/// The sum of the first `upto` products `a[k] * p[k]`.
pub open spec fn dot_upto(a: Seq<real>, p: Seq<real>, upto: nat) -> real
    decreases upto,
{
    if upto == 0 {
        0 as real
    } else {
        dot_upto(a, p, (upto - 1) as nat) + a[upto - 1] * p[upto - 1]
    }
}

/// The inner product of `a` and `p`.
pub open spec fn dot(a: Seq<real>, p: Seq<real>) -> real {
    dot_upto(a, p, a.len())
}

/// The sum of the first `upto` elements of `s`.
pub open spec fn sum_upto(s: Seq<real>, upto: nat) -> real
    decreases upto,
{
    if upto == 0 {
        0 as real
    } else {
        sum_upto(s, (upto - 1) as nat) + s[upto - 1]
    }
}

proof fn lemma_margin_row_slacks(shape: Shape, points: Points, row: int, x: Seq<real>, upto: nat)
    requires
        0 <= row < shape.slacks(),
        upto <= shape.slacks(),
    ensures
        shape.row_sum(points, row, x, upto) == if row < upto {
            x[row]
        } else {
            0 as real
        },
    decreases upto,
{
    if upto > 0 {
        lemma_margin_row_slacks(shape, points, row, x, (upto - 1) as nat);
    }
}

proof fn lemma_margin_row_normal(shape: Shape, points: Points, row: int, x: Seq<real>, k: nat)
    requires
        shape.countable(),
        shape.fits(points),
        x.len() == shape.num_vars(),
        0 <= row < shape.slacks(),
        k <= shape.dims,
    ensures
        row < shape.black ==> shape.row_sum(points, row, x, shape.slacks() + k) == x[row]
            + dot_upto(shape.normal_of(x), points.black[row], k),
        row >= shape.black ==> shape.row_sum(points, row, x, shape.slacks() + k) == x[row]
            - dot_upto(shape.normal_of(x), points.white[row - shape.black], k),
    decreases k,
{
    if k == 0 {
        lemma_margin_row_slacks(shape, points, row, x, shape.slacks());
    } else {
        lemma_margin_row_normal(shape, points, row, x, (k - 1) as nat);
        let col = shape.slacks() + k - 1;
        let a = shape.normal_of(x);
        assert(a[k - 1] == x[col]);
        assert(shape.row_sum(points, row, x, shape.slacks() + k) == shape.row_sum(
            points,
            row,
            x,
            (shape.slacks() + k - 1) as nat,
        ) + value_of(shape.coefficient(row, col), points) * x[col]);
        if row < shape.black {
            let p = points.black[row];
            assert(value_of(shape.coefficient(row, col), points) == p[k - 1]);
            assert(p[k - 1] * x[col] == a[k - 1] * p[k - 1]) by (nonlinear_arith)
                requires
                    a[k - 1] == x[col],
            ;
        } else {
            let p = points.white[row - shape.black];
            assert(value_of(shape.coefficient(row, col), points) == -p[k - 1]);
            assert((-p[k - 1]) * x[col] == -(a[k - 1] * p[k - 1])) by (nonlinear_arith)
                requires
                    a[k - 1] == x[col],
            ;
        }
    }
}

proof fn lemma_sign_row(shape: Shape, points: Points, t: int, x: Seq<real>, upto: nat)
    requires
        0 <= t < shape.slacks(),
        upto <= shape.num_vars(),
    ensures
        shape.row_sum(points, shape.slacks() + t, x, upto) == if t < upto {
            x[t]
        } else {
            0 as real
        },
    decreases upto,
{
    if upto > 0 {
        lemma_sign_row(shape, points, t, x, (upto - 1) as nat);
    }
}

proof fn lemma_cost_upto(shape: Shape, points: Points, x: Seq<real>, upto: nat)
    requires
        upto <= shape.num_vars(),
    ensures
        shape.cost_sum(points, x, upto) == sum_upto(
            x,
            if upto <= shape.slacks() {
                upto
            } else {
                shape.slacks()
            },
        ),
    decreases upto,
{
    if upto > 0 {
        lemma_cost_upto(shape, points, x, (upto - 1) as nat);
    }
}

/// What the rows of the constraint matrix say. At every assignment `x`, the
/// row of a black point `x_i` has the value `a . x_i - b + u_i`, the row of a
/// white point `y_j` has the value `-a . y_j + b + v_j`, the rows after them
/// have the value of one slack each, and the objective is the sum of the
/// slacks.
pub proof fn lemma_rows_encode_margins(shape: Shape, points: Points, x: Seq<real>)
    requires
        shape.countable(),
        shape.fits(points),
        x.len() == shape.num_vars(),
    ensures
        forall|i: int|
            0 <= i < shape.black ==> #[trigger] shape.row_value(points, i, x) == dot(
                shape.normal_of(x),
                points.black[i],
            ) - shape.offset_of(x) + x[i],
        forall|row: int|
            shape.black <= row < shape.slacks() ==> #[trigger] shape.row_value(points, row, x)
                == shape.offset_of(x) - dot(shape.normal_of(x), points.white[row - shape.black])
                + x[row],
        forall|row: int|
            shape.slacks() <= row < shape.num_constraints() ==> #[trigger] shape.row_value(
                points,
                row,
                x,
            ) == x[row - shape.slacks()],
        shape.cost(points, x) == sum_upto(x, shape.slacks()),
{
    assert forall|row: int| 0 <= row < shape.slacks() implies {
        &&& row < shape.black ==> #[trigger] shape.row_value(points, row, x) == dot(
            shape.normal_of(x),
            points.black[row],
        ) - shape.offset_of(x) + x[row]
        &&& row >= shape.black ==> shape.row_value(points, row, x) == shape.offset_of(x) - dot(
            shape.normal_of(x),
            points.white[row - shape.black],
        ) + x[row]
    } by {
        lemma_margin_row_normal(shape, points, row, x, shape.dims);
        let col = shape.offset_column() as int;
        assert(shape.row_value(points, row, x) == shape.row_sum(
            points,
            row,
            x,
            shape.offset_column(),
        ) + value_of(shape.coefficient(row, col), points) * x[col]);
    }
    assert forall|row: int|
        shape.slacks() <= row < shape.num_constraints() implies #[trigger] shape.row_value(
        points,
        row,
        x,
    ) == x[row - shape.slacks()] by {
        lemma_sign_row(shape, points, row - shape.slacks(), x, shape.num_vars());
    }
    lemma_cost_upto(shape, points, x, shape.num_vars());
}

/// The program is the one that was meant: an assignment meets every row of
/// the constraint matrix exactly if every point keeps its margin up to its
/// slack and no slack is negative.
pub proof fn lemma_feasible_means_within_margins(shape: Shape, points: Points, x: Seq<real>)
    requires
        shape.countable(),
        shape.fits(points),
    ensures
        shape.feasible(points, x) <==> shape.within_margins(points, x),
{
    if x.len() == shape.num_vars() {
        lemma_rows_encode_margins(shape, points, x);
        if shape.feasible(points, x) {
            assert forall|i: int| 0 <= i < shape.black implies dot(
                shape.normal_of(x),
                #[trigger] points.black[i],
            ) - shape.offset_of(x) + x[i] >= 1 as real by {
                assert(shape.row_value(points, i, x) >= value_of(shape.rhs(i), points));
            }
            assert forall|j: int| 0 <= j < shape.white implies shape.offset_of(x) - dot(
                shape.normal_of(x),
                #[trigger] points.white[j],
            ) + x[shape.black + j] >= 1 as real by {
                let row = shape.black + j;
                assert(shape.row_value(points, row, x) >= value_of(shape.rhs(row), points));
            }
            assert forall|t: int| 0 <= t < shape.slacks() implies #[trigger] x[t] >= 0 as real by {
                let row = shape.slacks() + t;
                assert(shape.row_value(points, row, x) >= value_of(shape.rhs(row), points));
            }
        }
        if shape.within_margins(points, x) {
            assert forall|row: int| 0 <= row < shape.num_constraints() implies #[trigger] shape.row_value(
                points,
                row,
                x,
            ) >= value_of(shape.rhs(row), points) by {
                if row < shape.black {
                    assert(points.black[row].len() == shape.dims);
                } else if row < shape.slacks() {
                    assert(points.white[row - shape.black].len() == shape.dims);
                } else {
                    assert(x[row - shape.slacks()] >= 0 as real);
                }
            }
        }
    }
}

/// `z` where it is positive, and zero elsewhere.
pub open spec fn positive_part(z: real) -> real {
    if z > 0 as real {
        z
    } else {
        0 as real
    }
}

/// The slacks that the hyperplane `(a, b)` needs: for each point, what it
/// lacks of the margin 1.
pub open spec fn needed_slacks(shape: Shape, points: Points, a: Seq<real>, b: real) -> Seq<real> {
    Seq::new(
        shape.slacks(),
        |t: int|
            if t < shape.black {
                positive_part(1 as real - (dot(a, points.black[t]) - b))
            } else {
                positive_part(1 as real - (b - dot(a, points.white[t - shape.black])))
            },
    )
}

/// The hyperplane `(a, b)` has every black point at `a . x - b >= margin`
/// and every white point at `a . y - b <= -margin`.
pub open spec fn separates(points: Points, a: Seq<real>, b: real, margin: real) -> bool {
    &&& forall|i: int|
        0 <= i < points.black.len() ==> dot(a, #[trigger] points.black[i]) - b >= margin
    &&& forall|j: int|
        0 <= j < points.white.len() ==> dot(a, #[trigger] points.white[j]) - b <= -margin
}

/// `a` with every coordinate multiplied by `k`.
pub open spec fn scaled(a: Seq<real>, k: real) -> Seq<real> {
    Seq::new(a.len(), |t: int| k * a[t])
}

proof fn lemma_sum_nonnegative(s: Seq<real>, upto: nat)
    requires
        upto <= s.len(),
        forall|t: int| 0 <= t < upto ==> #[trigger] s[t] >= 0 as real,
    ensures
        sum_upto(s, upto) >= 0 as real,
        sum_upto(s, upto) == 0 as real ==> forall|t: int| 0 <= t < upto ==> #[trigger] s[t]
            == 0 as real,
    decreases upto,
{
    if upto > 0 {
        lemma_sum_nonnegative(s, (upto - 1) as nat);
        assert(s[upto - 1] >= 0 as real);
    }
}

proof fn lemma_sum_zero(s: Seq<real>, upto: nat)
    requires
        upto <= s.len(),
        forall|t: int| 0 <= t < upto ==> #[trigger] s[t] == 0 as real,
    ensures
        sum_upto(s, upto) == 0 as real,
    decreases upto,
{
    if upto > 0 {
        lemma_sum_zero(s, (upto - 1) as nat);
    }
}

proof fn lemma_dot_scaled(a: Seq<real>, p: Seq<real>, k: real, upto: nat)
    requires
        upto <= a.len(),
    ensures
        dot_upto(scaled(a, k), p, upto) == k * dot_upto(a, p, upto),
    decreases upto,
{
    if upto > 0 {
        lemma_dot_scaled(a, p, k, (upto - 1) as nat);
        let head = dot_upto(a, p, (upto - 1) as nat);
        let x = a[upto - 1];
        let y = p[upto - 1];
        assert(k * head + (k * x) * y == k * (head + x * y)) by (nonlinear_arith);
    }
}

/// The total slack is never negative where the constraints hold.
pub proof fn lemma_cost_nonnegative(shape: Shape, points: Points, x: Seq<real>)
    requires
        shape.countable(),
        shape.fits(points),
        shape.feasible(points, x),
    ensures
        shape.cost(points, x) >= 0 as real,
{
    lemma_feasible_means_within_margins(shape, points, x);
    lemma_rows_encode_margins(shape, points, x);
    lemma_sum_nonnegative(x, shape.slacks());
}

/// The constraints can always be met: whatever hyperplane `(a, b)` is
/// taken, giving every point the slack it needs yields a feasible
/// assignment.
pub proof fn lemma_always_feasible(shape: Shape, points: Points, a: Seq<real>, b: real)
    requires
        shape.countable(),
        shape.fits(points),
        a.len() == shape.dims,
    ensures
        shape.feasible(points, needed_slacks(shape, points, a, b) + a + seq![b]),
{
    let x = needed_slacks(shape, points, a, b) + a + seq![b];
    assert(shape.normal_of(x) =~= a);
    assert(shape.offset_of(x) == b);
    assert(shape.within_margins(points, x));
    lemma_feasible_means_within_margins(shape, points, x);
}

/// An assignment that meets the constraints with total slack zero holds a
/// hyperplane that separates the classes with margin 1.
pub proof fn lemma_zero_cost_separates(shape: Shape, points: Points, x: Seq<real>)
    requires
        shape.countable(),
        shape.fits(points),
        shape.feasible(points, x),
        shape.cost(points, x) == 0 as real,
    ensures
        separates(points, shape.normal_of(x), shape.offset_of(x), 1 as real),
{
    lemma_feasible_means_within_margins(shape, points, x);
    lemma_rows_encode_margins(shape, points, x);
    lemma_sum_nonnegative(x, shape.slacks());
    assert forall|i: int| 0 <= i < points.black.len() implies dot(
        shape.normal_of(x),
        #[trigger] points.black[i],
    ) - shape.offset_of(x) >= 1 as real by {
        assert(x[i] == 0 as real);
    }
    assert forall|j: int| 0 <= j < points.white.len() implies dot(
        shape.normal_of(x),
        #[trigger] points.white[j],
    ) - shape.offset_of(x) <= -(1 as real) by {
        assert(x[shape.black + j] == 0 as real);
    }
}

/// Where some hyperplane separates the classes with a positive margin, the
/// least total slack is zero: that hyperplane, scaled so that its margin
/// becomes 1, meets the constraints with every slack at zero.
pub proof fn lemma_separable_costs_nothing(
    shape: Shape,
    points: Points,
    a: Seq<real>,
    b: real,
    margin: real,
)
    requires
        shape.countable(),
        shape.fits(points),
        a.len() == shape.dims,
        margin > 0 as real,
        separates(points, a, b, margin),
    ensures
        ({
            let k = 1 as real / margin;
            let x = Seq::new(shape.slacks(), |t: int| 0 as real) + scaled(a, k) + seq![k * b];
            shape.feasible(points, x) && shape.cost(points, x) == 0 as real
        }),
{
    let k = 1 as real / margin;
    let x = Seq::new(shape.slacks(), |t: int| 0 as real) + scaled(a, k) + seq![k * b];
    assert(k > 0 as real && k * margin == 1 as real) by (nonlinear_arith)
        requires
            margin > 0 as real,
            k == 1 as real / margin,
    ;
    assert(shape.normal_of(x) =~= scaled(a, k));
    assert(shape.offset_of(x) == k * b);
    assert forall|i: int| 0 <= i < shape.black implies dot(
        shape.normal_of(x),
        #[trigger] points.black[i],
    ) - shape.offset_of(x) + x[i] >= 1 as real by {
        let d = dot(a, points.black[i]);
        lemma_dot_scaled(a, points.black[i], k, a.len());
        assert(k * d - k * b >= 1 as real) by (nonlinear_arith)
            requires
                k > 0 as real,
                k * margin == 1 as real,
                d - b >= margin,
        ;
    }
    assert forall|j: int| 0 <= j < shape.white implies shape.offset_of(x) - dot(
        shape.normal_of(x),
        #[trigger] points.white[j],
    ) + x[shape.black + j] >= 1 as real by {
        let d = dot(a, points.white[j]);
        lemma_dot_scaled(a, points.white[j], k, a.len());
        assert(k * b - k * d >= 1 as real) by (nonlinear_arith)
            requires
                k > 0 as real,
                k * margin == 1 as real,
                d - b <= -margin,
        ;
    }
    assert(shape.within_margins(points, x));
    lemma_feasible_means_within_margins(shape, points, x);
    lemma_rows_encode_margins(shape, points, x);
    lemma_sum_zero(x, shape.slacks());
}

proof fn lemma_sum_monotone(s: Seq<real>, least: Seq<real>, upto: nat)
    requires
        upto <= s.len(),
        upto <= least.len(),
        forall|t: int| 0 <= t < upto ==> #[trigger] s[t] >= least[t],
    ensures
        sum_upto(s, upto) >= sum_upto(least, upto),
    decreases upto,
{
    if upto > 0 {
        lemma_sum_monotone(s, least, (upto - 1) as nat);
        assert(s[upto - 1] >= least[upto - 1]);
    }
}

proof fn lemma_sum_covers_two(s: Seq<real>, upto: nat, p: int, q: int)
    requires
        upto <= s.len(),
        0 <= p < q < upto,
        forall|t: int| 0 <= t < upto ==> #[trigger] s[t] >= 0 as real,
    ensures
        sum_upto(s, upto) >= s[p] + s[q],
    decreases upto,
{
    if q == upto - 1 {
        lemma_sum_covers_one(s, (upto - 1) as nat, p);
    } else {
        lemma_sum_covers_two(s, (upto - 1) as nat, p, q);
        assert(s[upto - 1] >= 0 as real);
    }
}

proof fn lemma_sum_covers_one(s: Seq<real>, upto: nat, p: int)
    requires
        upto <= s.len(),
        0 <= p < upto,
        forall|t: int| 0 <= t < upto ==> #[trigger] s[t] >= 0 as real,
    ensures
        sum_upto(s, upto) >= s[p],
    decreases upto,
{
    if p == upto - 1 {
        lemma_sum_nonnegative(s, (upto - 1) as nat);
    } else {
        lemma_sum_covers_one(s, (upto - 1) as nat, p);
        assert(s[upto - 1] >= 0 as real);
    }
}

/// For the hyperplane that an assignment holds, no feasible choice of slacks
/// is cheaper than giving every point exactly the slack it needs. Minimising
/// the program therefore minimises, over all hyperplanes, the total by which
/// the points fall short of the margin.
pub proof fn lemma_needed_slacks_are_least(shape: Shape, points: Points, x: Seq<real>)
    requires
        shape.countable(),
        shape.fits(points),
        shape.feasible(points, x),
    ensures
        ({
            let a = shape.normal_of(x);
            let b = shape.offset_of(x);
            let least = needed_slacks(shape, points, a, b) + a + seq![b];
            shape.feasible(points, least) && shape.cost(points, least) <= shape.cost(points, x)
        }),
{
    let a = shape.normal_of(x);
    let b = shape.offset_of(x);
    let least = needed_slacks(shape, points, a, b) + a + seq![b];
    lemma_always_feasible(shape, points, a, b);
    lemma_feasible_means_within_margins(shape, points, x);
    lemma_rows_encode_margins(shape, points, x);
    lemma_rows_encode_margins(shape, points, least);
    assert forall|t: int| 0 <= t < shape.slacks() implies #[trigger] x[t] >= least[t] by {
        if t < shape.black {
            assert(points.black[t].len() == shape.dims);
        } else {
            assert(points.white[t - shape.black].len() == shape.dims);
            assert(x[shape.black + (t - shape.black)] == x[t]);
        }
    }
    lemma_sum_monotone(x, least, shape.slacks());
}

/// Where a black point and a white point coincide, no hyperplane keeps both
/// at their margins: their two slacks add up to 2 at least, and so does the
/// total slack of every feasible assignment.
pub proof fn lemma_coincident_points_cost(
    shape: Shape,
    points: Points,
    x: Seq<real>,
    i: int,
    j: int,
)
    requires
        shape.countable(),
        shape.fits(points),
        shape.feasible(points, x),
        0 <= i < shape.black,
        0 <= j < shape.white,
        points.black[i] == points.white[j],
    ensures
        shape.cost(points, x) >= 2 as real,
{
    lemma_feasible_means_within_margins(shape, points, x);
    lemma_rows_encode_margins(shape, points, x);
    assert(points.black[i].len() == shape.dims);
    assert(points.white[j].len() == shape.dims);
    lemma_sum_covers_two(x, shape.slacks(), i, shape.black + j);
}

} // verus!
