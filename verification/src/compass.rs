//! A table of directions, one for each of a number of equal steps of a turn.
//!
//! The simulation never computes a sine or a cosine. Whoever sets it up hands
//! it the direction of each step once, and an angle is then turned into a
//! direction by looking up the step it falls in.

use vstd::prelude::*;
use crate::fixed::{Vec2, ONE, TAU, turned};

verus! {

/// The largest number of steps a table may divide the turn into.
pub const MAX_STEPS: usize = 1_000_000;

/// A valid table of directions. The directions are those it was made of,
/// counter-clockwise from the positive x axis.
pub struct Compass {
    dirs: Vec<Vec2>,
}

/// Whether `dirs` can serve as a table: it has between one and `MAX_STEPS`
/// entries, none longer than one along either axis.
pub open spec fn valid_table(dirs: Seq<Vec2>) -> bool {
    &&& 0 < dirs.len() <= MAX_STEPS
    &&& forall|i: int| 0 <= i < dirs.len() ==> (#[trigger] dirs[i]).is_direction()
}

/// The step of `table` that an angle in `[0, TAU)` falls in.
pub open spec fn step_of(table: Seq<Vec2>, angle: int) -> int {
    (angle * table.len()) / (TAU as int)
}

/// The direction that `table` gives for `angle`, whole turns set aside.
pub open spec fn heading(table: Seq<Vec2>, angle: int) -> Vec2 {
    table[step_of(table, turned(angle))]
}

/// In a valid table every angle falls in a step, so `heading` is one of the
/// entries and no longer than one along either axis.
pub proof fn lemma_heading(table: Seq<Vec2>, angle: int)
    requires
        valid_table(table),
    ensures
        0 <= step_of(table, turned(angle)) < table.len(),
        heading(table, angle).is_direction(),
{
    let a: int = turned(angle);
    let n: int = table.len() as int;
    let t: int = TAU as int;
    assert(0 <= a < t);
    assert(0 <= (a * n) / t < n) by (nonlinear_arith)
        requires
            0 <= a < t,
            0 < n,
    ;
}

impl View for Compass {
    type V = Seq<Vec2>;

    closed spec fn view(&self) -> Seq<Vec2> {
        self.dirs@
    }
}

impl Compass {
    #[verifier::type_invariant]
    spec fn valid(&self) -> bool {
        valid_table(self.dirs@)
    }

    /// Whether the table is valid, as every table made by `new` is.
    pub open spec fn wf(&self) -> bool {
        valid_table(self@)
    }

    /// The number of steps the table divides the turn into.
    pub fn len(&self) -> (n: usize)
        ensures
            n == self@.len(),
            self.wf(),
    {
        proof {
            use_type_invariant(self);
        }
        self.dirs.len()
    }

    /// The direction of the step `i`.
    pub fn get(&self, i: usize) -> (d: Vec2)
        requires
            i < self@.len(),
        ensures
            d == self@[i as int],
    {
        self.dirs[i]
    }

    /// Makes a table of the given directions; `None` where they are no valid
    /// table.
    pub fn new(dirs: Vec<Vec2>) -> (r: Option<Compass>)
        ensures
            r.is_some() == valid_table(dirs@),
            r.is_some() ==> r.unwrap()@ == dirs@,
    {
        if dirs.len() == 0 || dirs.len() > MAX_STEPS {
            return None;
        }
        let mut i: usize = 0;
        while i < dirs.len()
            invariant
                0 <= i <= dirs.len(),
                forall|j: int| 0 <= j < i ==> (#[trigger] dirs@[j]).is_direction(),
            decreases dirs.len() - i,
        {
            let d: Vec2 = dirs[i];
            if d.x < -ONE || d.x > ONE || d.y < -ONE || d.y > ONE {
                assert(!dirs@[i as int].is_direction());
                return None;
            }
            i += 1;
        }
        Some(Compass { dirs })
    }

    /// The direction of `angle`, which lies in `[0, TAU)`.
    pub fn direction(&self, angle: i64) -> (d: Vec2)
        requires
            0 <= angle < TAU,
        ensures
            d == heading(self@, angle as int),
            d.is_direction(),
            self.wf(),
    {
        proof {
            use_type_invariant(self);
            lemma_heading(self@, angle as int);
            assert(turned(angle as int) == angle);
            assert(0 <= angle * self.dirs@.len() <= TAU * MAX_STEPS) by (nonlinear_arith)
                requires
                    0 <= angle < TAU,
                    0 < self.dirs@.len() <= MAX_STEPS,
            ;
        }
        let n: i64 = self.dirs.len() as i64;
        let step: i64 = (angle * n) / TAU;
        self.dirs[step as usize]
    }
}

} // verus!
