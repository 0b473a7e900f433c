//! The directions of the gradients between frames.
//!
//! A direction is kept as an angle, in units of `1 / 2^32` of a full turn.
//! Turning a gradient is then an addition modulo `2^32`: it is exact, and
//! a direction never stops being one, however often it is turned.  The
//! unit vector that belongs to an angle is found by the caller, who has
//! sine and cosine, and handed to the sampler in a
//! [`GradientGrid`](crate::gradient::GradientGrid).

use vstd::prelude::*;
use crate::lattice::{lemma_row_major, row_major};

verus! {

/// A full turn, in angle units.
pub const FULL_TURN: u64 = 0x1_0000_0000;

/// A gradient turns by less than one part in `TURN_PARTS` of a full turn
/// per frame.
pub const TURN_PARTS: u32 = 20;

/// The angle by which a gradient turns for the random word `draw`: words
/// are spread evenly over `[0, FULL_TURN)`, steps over
/// `[0, FULL_TURN / TURN_PARTS)`.
pub open spec fn step_of(draw: int) -> int {
    draw / (TURN_PARTS as int)
}

/// The angle `angle` turned by the step that belongs to `draw`.
pub open spec fn turned_by(angle: int, draw: int) -> int {
    (angle + step_of(draw)) % (FULL_TURN as int)
}

/// How far angle `to` lies ahead of angle `from`, going round in the
/// positive sense.
pub open spec fn ahead(from: int, to: int) -> int {
    (to - from) % (FULL_TURN as int)
}

/// Whether turning from `from` to `to` is a step of one frame: less than
/// one part in `TURN_PARTS` of a full turn, in the positive sense.
pub open spec fn is_small_turn(from: int, to: int) -> bool {
    TURN_PARTS * ahead(from, to) < FULL_TURN
}

/// Turning by the step of a random word turns by exactly that step, and
/// the step is small.
pub proof fn lemma_turned_is_small(angle: int, draw: int)
    requires
        0 <= angle < FULL_TURN,
        0 <= draw < FULL_TURN,
    ensures
        0 <= turned_by(angle, draw) < FULL_TURN,
        ahead(angle, turned_by(angle, draw)) == step_of(draw),
        is_small_turn(angle, turned_by(angle, draw)),
{
    let step = step_of(draw);
    let sum = angle + step;
    let full = FULL_TURN as int;
    assert(0 <= step && 20 * step <= draw);
    if sum < full {
        assert(sum % full == sum);
        assert((sum - angle) % full == step);
    } else {
        vstd::arithmetic::div_mod::lemma_fundamental_div_mod_converse(sum, full, 1, sum - full);
        vstd::arithmetic::div_mod::lemma_fundamental_div_mod_converse(
            sum - full - angle,
            full,
            -1,
            step,
        );
    }
}

/// Computes [`turned_by`].
pub fn turned(angle: u32, draw: u32) -> (a: u32)
    ensures
        a == turned_by(angle as int, draw as int),
        ahead(angle as int, a as int) == step_of(draw as int),
        is_small_turn(angle as int, a as int),
{
    proof {
        lemma_turned_is_small(angle as int, draw as int);
    }
    let step: u32 = draw / TURN_PARTS;
    let sum: u64 = angle as u64 + step as u64;
    (sum % FULL_TURN) as u32
}

/// A random word from `rand::random`, which draws it from the generator
/// of the current thread.  Nothing is claimed of the value.  The call
/// fails only if the operating system cannot seed the generator.
#[verifier::external_body]
fn random_word() -> (draw: u32) {
    rand::random::<u32>()
}

/// One direction on every corner of a lattice of `rows` by `cols` corners.
pub struct GradientField {
    rows: usize,
    cols: usize,
    angles: Vec<u32>,
}

impl GradientField {
    #[verifier::type_invariant]
    spec fn is_rectangular(self) -> bool {
        &&& self.rows * self.cols <= usize::MAX
        &&& self.angles@.len() == self.rows * self.cols
    }

    /// Number of corner rows.
    pub closed spec fn spec_rows(&self) -> usize {
        self.rows
    }

    /// Number of corners in each row.
    pub closed spec fn spec_cols(&self) -> usize {
        self.cols
    }

    /// The angle on corner `(row, col)`.
    pub closed spec fn at(self, row: int, col: int) -> u32 {
        self.angles@[row_major(row, col, self.cols as int)]
    }

    /// The field that has, row by row, the given angles on its corners;
    /// `None` unless there is exactly one angle for every corner.
    pub fn with_angles(rows: usize, cols: usize, angles: Vec<u32>) -> (field: Option<GradientField>)
        ensures
            field is Some <==> angles@.len() == rows * cols,
            field matches Some(f) ==> {
                &&& f.rows() == rows
                &&& f.cols() == cols
                &&& forall|r: int, c: int|
                    0 <= r < rows && 0 <= c < cols ==> #[trigger] f.at(r, c) == angles@[row_major(
                        r,
                        c,
                        cols as int,
                    )]
            },
    {
        let given: usize = angles.len();
        match rows.checked_mul(cols) {
            Some(n) => {
                if given == n {
                    Some(GradientField { rows, cols, angles })
                } else {
                    None
                }
            },
            None => None,
        }
    }

    /// A field of `rows` by `cols` corners, every direction drawn at
    /// random from the full turn, independently of the others.  `None`
    /// when that many corners cannot be indexed.
    pub fn init(rows: usize, cols: usize) -> (field: Option<GradientField>)
        ensures
            field is Some <==> rows * cols <= usize::MAX,
            field matches Some(f) ==> f.rows() == rows && f.cols() == cols,
    {
        let count: usize = match rows.checked_mul(cols) {
            Some(n) => n,
            None => {
                return None;
            },
        };
        let mut angles: Vec<u32> = Vec::new();
        let mut i: usize = 0;
        while i < count
            invariant
                i <= count,
                angles@.len() == i,
            decreases count - i,
        {
            angles.push(random_word());
            i = i + 1;
        }
        GradientField::with_angles(rows, cols, angles)
    }

    /// Turns every direction by a small step of its own, drawn at random
    /// and independently of the others: each ends up less than one part in
    /// `TURN_PARTS` of a full turn ahead of where it was.
    pub fn perturb(&mut self)
        ensures
            final(self).rows() == old(self).rows(),
            final(self).cols() == old(self).cols(),
            forall|r: int, c: int|
                0 <= r < old(self).rows() && 0 <= c < old(self).cols() ==> is_small_turn(
                    old(self).at(r, c) as int,
                    #[trigger] final(self).at(r, c) as int,
                ),
    {
        proof {
            use_type_invariant(&*self);
        }
        let count: usize = self.angles.len();
        let mut i: usize = 0;
        while i < count
            invariant
                i <= count,
                count == self.angles@.len(),
                self.rows == old(self).rows,
                self.cols == old(self).cols,
                self.rows * self.cols <= usize::MAX,
                self.angles@.len() == self.rows * self.cols,
                self.angles@.len() == old(self).angles@.len(),
                forall|k: int|
                    0 <= k < i ==> is_small_turn(
                        old(self).angles@[k] as int,
                        #[trigger] self.angles@[k] as int,
                    ),
                forall|k: int| i <= k < count ==> self.angles@[k] == old(self).angles@[k],
            decreases count - i,
        {
            let next: u32 = turned(self.angles[i], random_word());
            self.angles[i] = next;
            i = i + 1;
        }
        proof {
            assert forall|r: int, c: int|
                0 <= r < old(self).rows() && 0 <= c < old(self).cols() implies is_small_turn(
                old(self).at(r, c) as int,
                #[trigger] self.at(r, c) as int,
            ) by {
                lemma_row_major(r, c, self.rows as int, self.cols as int);
            }
        }
    }

    /// Number of corner rows.
    #[verifier::when_used_as_spec(spec_rows)]
    pub fn rows(&self) -> (n: usize)
        ensures
            n == self.spec_rows(),
    {
        self.rows
    }

    /// Number of corners in each row.
    #[verifier::when_used_as_spec(spec_cols)]
    pub fn cols(&self) -> (n: usize)
        ensures
            n == self.spec_cols(),
    {
        self.cols
    }

    /// The angle on corner `(row, col)`.
    pub fn angle(&self, row: usize, col: usize) -> (a: u32)
        requires
            row < self.rows(),
            col < self.cols(),
        ensures
            a == self.at(row as int, col as int),
    {
        proof {
            use_type_invariant(self);
            lemma_row_major(row as int, col as int, self.rows as int, self.cols as int);
        }
        self.angles[row * self.cols + col]
    }
}

} // verus!
