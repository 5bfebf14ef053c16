//! The graduated exercises: each one is a list of octaves in play.

use vstd::prelude::*;
use crate::note::Octave;

verus! {

/// An exercise of the catalog: its number and the octaves it spans.
#[derive(Debug)]
pub struct Exercise {
    pub num: u8,
    pub octaves: Vec<Octave>,
}

/// The number of the last exercise.
pub const LAST_EXERCISE: u8 = 7;

/// The octaves of each exercise, from one octave up to five; none for a
/// number outside the catalog.
pub open spec fn exercise_octaves(num: int) -> Option<Seq<Octave>> {
    if num == 1 {
        Some(seq![Octave::First])
    } else if num == 2 {
        Some(seq![Octave::First, Octave::Second])
    } else if num == 3 {
        Some(seq![Octave::Small, Octave::First])
    } else if num == 4 {
        Some(seq![Octave::First, Octave::Second, Octave::Third])
    } else if num == 5 {
        Some(seq![Octave::Great, Octave::Small, Octave::First])
    } else if num == 6 {
        Some(seq![Octave::Small, Octave::First, Octave::Second, Octave::Third])
    } else if num == 7 {
        Some(seq![Octave::Great, Octave::Small, Octave::First, Octave::Second, Octave::Third])
    } else {
        None
    }
}

impl Exercise {
    /// Whether this is the catalog's exercise of its number.
    pub open spec fn valid(&self) -> bool {
        exercise_octaves(self.num as int) == Some(self.octaves@)
    }

    /// The exercise with a given number, or none outside the catalog.
    pub fn by_number(num: u8) -> (r: Option<Exercise>)
        ensures
            match r {
                Some(e) => e.num == num && e.valid(),
                None => exercise_octaves(num as int) is None,
            },
    {
        let mut octaves: Vec<Octave> = Vec::new();
        if num == 1 {
            octaves.push(Octave::First);
        } else if num == 2 {
            octaves.push(Octave::First);
            octaves.push(Octave::Second);
        } else if num == 3 {
            octaves.push(Octave::Small);
            octaves.push(Octave::First);
        } else if num == 4 {
            octaves.push(Octave::First);
            octaves.push(Octave::Second);
            octaves.push(Octave::Third);
        } else if num == 5 {
            octaves.push(Octave::Great);
            octaves.push(Octave::Small);
            octaves.push(Octave::First);
        } else if num == 6 {
            octaves.push(Octave::Small);
            octaves.push(Octave::First);
            octaves.push(Octave::Second);
            octaves.push(Octave::Third);
        } else if num == 7 {
            octaves.push(Octave::Great);
            octaves.push(Octave::Small);
            octaves.push(Octave::First);
            octaves.push(Octave::Second);
            octaves.push(Octave::Third);
        } else {
            return None;
        }
        let e = Exercise { num, octaves };
        assert(e.octaves@ =~= exercise_octaves(num as int).unwrap());
        Some(e)
    }

    /// The first exercise: the first octave alone.
    pub fn first() -> (r: Exercise)
        ensures
            r.num == 1,
            r.valid(),
            r.octaves@ == seq![Octave::First],
    {
        let mut octaves: Vec<Octave> = Vec::new();
        octaves.push(Octave::First);
        let e = Exercise { num: 1, octaves };
        assert(e.octaves@ =~= seq![Octave::First]);
        e
    }

    /// The octaves of this exercise, lowest first.
    pub fn octaves(&self) -> (r: &Vec<Octave>)
        ensures
            r@ == self.octaves@,
    {
        &self.octaves
    }
}

/// The whole catalog, in order: the exercise numbered `i + 1` stands at `i`.
pub fn exercises() -> (r: Vec<Exercise>)
    ensures
        r@.len() == LAST_EXERCISE as nat,
        forall|i: int| 0 <= i < r@.len() ==> #[trigger] r@[i].num == i + 1 && r@[i].valid(),
{
    let mut v: Vec<Exercise> = Vec::new();
    let mut num: u8 = 1;
    while num <= LAST_EXERCISE
        invariant
            1 <= num <= LAST_EXERCISE + 1,
            v@.len() == num - 1,
            forall|i: int| 0 <= i < v@.len() ==> #[trigger] v@[i].num == i + 1 && v@[i].valid(),
        decreases LAST_EXERCISE + 1 - num,
    {
        match Exercise::by_number(num) {
            Some(e) => v.push(e),
            None => {
                assert(false);
            },
        }
        num = num + 1;
    }
    v
}

} // verus!
