//! The state of one session: the pool of notes still to play, the note
//! being asked, and the score.

use rand::Rng;
use vstd::prelude::*;
use crate::exercise::{Exercise, exercise_octaves};
use crate::note::{
    Note, Octave, Pitch, Tonality, gamut_for, has_gamut, octave_above, scale_of,
};

verus! {

/// The notes that one octave brings to a pool: the scale in that octave,
/// then the key in the octave above, where there is one.
pub open spec fn octave_block(o: Octave, key: Pitch, scale: Seq<Pitch>) -> Seq<Note> {
    let own = Seq::new(scale.len(), |i: int| Note { octave: o, pitch: scale[i] });
    match octave_above(o) {
        Some(up) => own.push(Note { octave: up, pitch: key }),
        None => own,
    }
}

/// The blocks of a list of octaves, in list order, repeats included.
pub open spec fn raw_pool(octaves: Seq<Octave>, key: Pitch, scale: Seq<Pitch>) -> Seq<Note>
    decreases octaves.len(),
{
    if octaves.len() == 0 {
        Seq::empty()
    } else {
        raw_pool(octaves.drop_last(), key, scale) + octave_block(octaves.last(), key, scale)
    }
}

/// A sequence without its repeats: each value stays where it first occurs.
pub open spec fn first_seen(s: Seq<Note>) -> Seq<Note>
    decreases s.len(),
{
    if s.len() == 0 {
        s
    } else {
        let d = first_seen(s.drop_last());
        if d.contains(s.last()) {
            d
        } else {
            d.push(s.last())
        }
    }
}

/// The pool of a fresh exercise over some octaves in the key of `key`.
pub open spec fn pool_of(key: Pitch, octaves: Seq<Octave>) -> Seq<Note> {
    first_seen(raw_pool(octaves, key, scale_of(key).unwrap()))
}

/// Removing repeats leaves no repeats, keeps every value, and keeps a
/// non-empty sequence non-empty.
pub proof fn lemma_first_seen(s: Seq<Note>)
    ensures
        first_seen(s).no_duplicates(),
        forall|n: Note| first_seen(s).contains(n) <==> s.contains(n),
        s.len() > 0 ==> first_seen(s).len() > 0,
        first_seen(s).len() <= s.len(),
    decreases s.len(),
{
    if s.len() > 0 {
        let t = s.drop_last();
        lemma_first_seen(t);
        let d = first_seen(t);
        assert forall|n: Note| first_seen(s).contains(n) <==> s.contains(n) by {
            let f = first_seen(s);
            assert(d.contains(n) <==> t.contains(n));
            if s.contains(n) {
                let i = choose|i: int| 0 <= i < s.len() && s[i] == n;
                if i < s.len() - 1 {
                    assert(t[i] == n);
                    assert(t.contains(n));
                    if !d.contains(s.last()) {
                        let k = choose|k: int| 0 <= k < d.len() && d[k] == n;
                        assert(f[k] == n);
                    }
                } else if d.contains(s.last()) {
                    assert(f == d);
                } else {
                    assert(f[d.len() as int] == n);
                }
            }
            if f.contains(n) {
                let k = choose|k: int| 0 <= k < f.len() && f[k] == n;
                if d.contains(s.last()) {
                    assert(f == d);
                    assert(d.contains(n));
                    let i = choose|i: int| 0 <= i < t.len() && t[i] == n;
                    assert(s[i] == n);
                } else if k < d.len() {
                    assert(d[k] == n);
                    assert(d.contains(n));
                    let i = choose|i: int| 0 <= i < t.len() && t[i] == n;
                    assert(s[i] == n);
                } else {
                    assert(s[s.len() - 1] == n);
                }
            }
        }
        if !d.contains(s.last()) {
            let e = d.push(s.last());
            assert forall|i: int, j: int| 0 <= i < e.len() && 0 <= j < e.len() && i != j
                implies e[i] != e[j] by {
                if i == d.len() as int {
                    assert(d[j] == e[j]);
                } else if j == d.len() as int {
                    assert(d[i] == e[i]);
                }
            }
        }
    }
}

/// A pool over at least one octave of a key with a gamut is not empty.
pub proof fn lemma_pool_not_empty(key: Pitch, octaves: Seq<Octave>)
    requires
        has_gamut(key),
        octaves.len() > 0,
    ensures
        pool_of(key, octaves).len() > 0,
        pool_of(key, octaves).no_duplicates(),
{
    let scale = scale_of(key).unwrap();
    let raw = raw_pool(octaves, key, scale);
    assert(octave_block(octaves.last(), key, scale).len() >= 7);
    assert(raw.len() > 0);
    lemma_first_seen(raw);
}

/// Whether a pool holds a note, by a linear search.
pub(crate) fn pool_contains(pool: &Vec<Note>, n: Note) -> (r: bool)
    ensures
        r == pool@.contains(n),
{
    let mut i: usize = 0;
    while i < pool.len()
        invariant
            i <= pool@.len(),
            forall|j: int| 0 <= j < i ==> pool@[j] != n,
        decreases pool@.len() - i,
    {
        if pool[i] == n {
            return true;
        }
        i = i + 1;
    }
    false
}

/// The pool of a fresh exercise: for each octave, in order, the scale in
/// that octave and the key one octave above; then repeats are removed.
pub fn generate_notes(tonality: Tonality, octaves: &Vec<Octave>) -> (r: Vec<Note>)
    requires
        has_gamut(tonality.0),
    ensures
        r@ == pool_of(tonality.0, octaves@),
        r@.no_duplicates(),
{
    let gamut = match gamut_for(tonality.0) {
        Some(g) => g,
        None => {
            return Vec::new();
        },
    };
    let ghost key = tonality.0;
    let ghost scale = scale_of(key).unwrap();
    let mut raw: Vec<Note> = Vec::new();
    let mut i: usize = 0;
    while i < octaves.len()
        invariant
            i <= octaves@.len(),
            gamut.key == key,
            gamut.scale@ == scale,
            scale.len() == 7,
            raw@ == raw_pool(octaves@.take(i as int), key, scale),
        decreases octaves@.len() - i,
    {
        let octave = octaves[i];
        let ghost before = raw@;
        let mut j: usize = 0;
        while j < 7
            invariant
                j <= 7,
                gamut.key == key,
                gamut.scale@ == scale,
                scale.len() == 7,
                raw@ == before + Seq::new(j as nat, |k: int| Note { octave, pitch: scale[k] }),
            decreases 7 - j,
        {
            raw.push(Note { octave, pitch: gamut.scale[j] });
            proof {
                let own = Seq::new((j + 1) as nat, |k: int| Note { octave, pitch: scale[k] });
                assert(raw@ =~= before + own);
            }
            j = j + 1;
        }
        if let Some(up) = octave.next() {
            raw.push(Note { octave: up, pitch: gamut.key });
        }
        proof {
            let taken = octaves@.take(i as int + 1);
            assert(taken.drop_last() =~= octaves@.take(i as int));
            assert(taken.last() == octave);
            assert(raw@ =~= raw_pool(taken, key, scale));
        }
        i = i + 1;
    }
    proof {
        assert(octaves@.take(octaves@.len() as int) =~= octaves@);
    }
    let mut pool: Vec<Note> = Vec::new();
    let mut k: usize = 0;
    while k < raw.len()
        invariant
            k <= raw@.len(),
            pool@ == first_seen(raw@.take(k as int)),
        decreases raw@.len() - k,
    {
        let n = raw[k];
        if !pool_contains(&pool, n) {
            pool.push(n);
        }
        proof {
            let taken = raw@.take(k as int + 1);
            assert(taken.drop_last() =~= raw@.take(k as int));
            assert(taken.last() == n);
        }
        k = k + 1;
    }
    proof {
        assert(raw@.take(raw@.len() as int) =~= raw@);
        lemma_first_seen(raw@);
    }
    pool
}

/// The state of a session.
#[derive(Debug)]
pub struct State {
    /// The key of the session.
    pub tonality: Tonality,
    /// The exercise being played.
    pub exercise: Exercise,
    /// The note being asked; it stays in `notes` until the next draw.
    pub note: Option<Note>,
    /// The notes of the exercise not yet drawn, and the one being asked.
    pub notes: Vec<Note>,
    /// How many notes were named right.
    pub right_count: u8,
    /// How many notes were played.
    pub total_count: u8,
    /// How many answers the current note still takes: 0 or 1.
    pub attempts_left: u8,
}

/// What is left to draw from a pool once the note being asked is taken out.
pub open spec fn remaining(pool: Seq<Note>, current: Option<Note>) -> Seq<Note> {
    match current {
        Some(n) => pool.remove_value(n),
        None => pool,
    }
}

/// One draw: the asked note leaves the pool, and the new one, if any, is
/// taken from what is left; none comes only from an empty rest. Nothing
/// else changes.
pub open spec fn draw_step(before: State, after: State, r: Option<Note>) -> bool {
    &&& after.notes@ == remaining(before.notes@, before.note)
    &&& after.note == r
    &&& (r is None <==> after.notes@.len() == 0)
    &&& (r matches Some(n) ==> after.notes@.contains(n))
    &&& after.tonality == before.tonality
    &&& after.exercise == before.exercise
    &&& after.right_count == before.right_count
    &&& after.total_count == before.total_count
    &&& after.attempts_left == before.attempts_left
}

/// Taking one occurrence out of a sequence without repeats shortens it by
/// one and leaves the other values in place.
pub proof fn lemma_remove_one(s: Seq<Note>, n: Note)
    requires
        s.no_duplicates(),
        s.contains(n),
    ensures
        s.remove_value(n).len() == s.len() - 1,
        s.remove_value(n).no_duplicates(),
        forall|x: Note| s.remove_value(n).contains(x) <==> (s.contains(x) && x != n),
{
    s.index_of_first_ensures(n);
    let i = s.index_of_first(n).unwrap();
    s.remove_ensures(i);
    let t = s.remove(i);
    assert forall|x: Note| t.contains(x) <==> (s.contains(x) && x != n) by {
        if t.contains(x) {
            let k = choose|k: int| 0 <= k < t.len() && t[k] == x;
            if k < i {
                assert(s[k] == x);
            } else {
                assert(s[k + 1] == x);
            }
        }
        if s.contains(x) && x != n {
            let k = choose|k: int| 0 <= k < s.len() && s[k] == x;
            if k < i {
                assert(t[k] == x);
            } else {
                assert(k != i);
                assert(t[k - 1] == x);
            }
        }
    }
    assert forall|a: int, b: int| 0 <= a < t.len() && 0 <= b < t.len() && a != b
        implies t[a] != t[b] by {
        let a1 = if a < i { a } else { a + 1 };
        let b1 = if b < i { b } else { b + 1 };
        assert(t[a] == s[a1]);
        assert(t[b] == s[b1]);
    }
}

impl State {
    /// The state is sound: its key has a gamut, its pool has no repeats,
    /// the asked note is in the pool, and at most one attempt is open.
    pub open spec fn wf(&self) -> bool {
        &&& has_gamut(self.tonality.0)
        &&& self.notes@.no_duplicates()
        &&& (self.note matches Some(n) ==> self.notes@.contains(n))
        &&& self.attempts_left <= 1
    }

    /// A fresh session in a key with a gamut, on an exercise: the pool of
    /// that exercise, no note asked, nothing counted.
    pub fn new(tonality: Tonality, exercise: Exercise) -> (r: State)
        requires
            has_gamut(tonality.0),
        ensures
            r.wf(),
            r.tonality == tonality,
            r.exercise == exercise,
            r.notes@ == pool_of(tonality.0, exercise.octaves@),
            r.note is None,
            r.right_count == 0,
            r.total_count == 0,
            r.attempts_left == 0,
    {
        let notes = generate_notes(tonality, &exercise.octaves);
        State {
            tonality,
            exercise,
            note: None,
            notes,
            right_count: 0,
            total_count: 0,
            attempts_left: 0,
        }
    }

    /// Takes the asked note out of the pool, where there is one.
    fn drop_note(&mut self)
        requires
            old(self).wf(),
        ensures
            final(self).notes@ == remaining(old(self).notes@, old(self).note),
            final(self).notes@.no_duplicates(),
            final(self).note == old(self).note,
            final(self).tonality == old(self).tonality,
            final(self).exercise == old(self).exercise,
            final(self).right_count == old(self).right_count,
            final(self).total_count == old(self).total_count,
            final(self).attempts_left == old(self).attempts_left,
    {
        if let Some(n) = self.note {
            let ghost s = self.notes@;
            let mut i: usize = 0;
            while i < self.notes.len() && self.notes[i] != n
                invariant
                    self.notes@ == s,
                    i <= s.len(),
                    forall|j: int| 0 <= j < i ==> s[j] != n,
                decreases s.len() - i,
            {
                i = i + 1;
            }
            proof {
                if i == s.len() {
                    let k = choose|k: int| 0 <= k < s.len() && s[k] == n;
                    assert(s[k] != n);
                }
                s.index_of_first_ensures(n);
                let f = s.index_of_first(n).unwrap();
                if f < i {
                    assert(s[f] != n);
                } else if f > i {
                    assert(s[i as int] != n);
                }
                lemma_remove_one(s, n);
            }
            self.notes.remove(i);
        }
    }

    /// The draw with a chosen index: the asked note leaves the pool, then
    /// the note at `index`, taken modulo what is left, becomes the asked
    /// note; none where nothing is left.
    pub fn draw_at(&mut self, index: usize) -> (r: Option<Note>)
        requires
            old(self).wf(),
        ensures
            final(self).wf(),
            draw_step(*old(self), *final(self), r),
            r == (if final(self).notes@.len() == 0 {
                None::<Note>
            } else {
                Some(final(self).notes@[index as int % final(self).notes@.len() as int])
            }),
    {
        self.drop_note();
        let len = self.notes.len();
        if len == 0 {
            self.note = None;
        } else {
            let n = self.notes[index % len];
            self.note = Some(n);
            assert(self.notes@[index as int % len as int] == n);
        }
        self.note
    }

    /// The draw: the asked note leaves the pool, and a note picked at
    /// random from what is left becomes the asked note. An empty rest gives
    /// none, and then every later draw gives none.
    pub fn next_note(&mut self) -> (r: Option<Note>)
        requires
            old(self).wf(),
        ensures
            final(self).wf(),
            draw_step(*old(self), *final(self), r),
    {
        let left = match self.note {
            Some(_) => self.notes.len() - 1,
            None => self.notes.len(),
        };
        proof {
            if let Some(n) = self.note {
                lemma_remove_one(self.notes@, n);
            }
        }
        let index = if left > 0 {
            random_below(left)
        } else {
            0
        };
        self.draw_at(index)
    }

    /// Moves on to the exercise after this one, where the catalog has it:
    /// its pool replaces the old one and no note is asked. The score is
    /// kept. Where there is none, nothing changes.
    pub fn next_exercise(&mut self) -> (r: Option<Exercise>)
        requires
            old(self).wf(),
        ensures
            final(self).wf(),
            final(self).tonality == old(self).tonality,
            final(self).right_count == old(self).right_count,
            final(self).total_count == old(self).total_count,
            final(self).attempts_left == old(self).attempts_left,
            match r {
                Some(e) => {
                    &&& e.num == old(self).exercise.num + 1
                    &&& e.valid()
                    &&& final(self).exercise.num == e.num
                    &&& final(self).exercise.octaves@ == e.octaves@
                    &&& final(self).notes@ == pool_of(old(self).tonality.0, e.octaves@)
                    &&& final(self).notes@.len() > 0
                    &&& final(self).note is None
                },
                None => {
                    &&& exercise_octaves(old(self).exercise.num + 1) is None
                    &&& final(self).exercise == old(self).exercise
                    &&& final(self).notes@ == old(self).notes@
                    &&& final(self).note == old(self).note
                },
            },
    {
        if self.exercise.num == 255 {
            return None;
        }
        let num = self.exercise.num + 1;
        match Exercise::by_number(num) {
            Some(e) => {
                proof {
                    lemma_pool_not_empty(self.tonality.0, e.octaves@);
                }
                let notes = generate_notes(self.tonality, &e.octaves);
                self.exercise = e;
                self.notes = notes;
                self.note = None;
                Exercise::by_number(num)
            },
            None => None,
        }
    }
}

/// Relies on rand's `Rng::gen_range` on the thread-local generator: for a
/// non-empty range `0..n` it returns a value in that range (it panics only
/// on an empty range).
#[verifier::external_body]
fn random_below(n: usize) -> (r: usize)
    requires
        n > 0,
    ensures
        r < n,
{
    rand::thread_rng().gen_range(0..n)
}

/// What is left to draw after the `k` first draws of a run of draws that
/// starts from a pool without repeats and no asked note.
proof fn lemma_draw_run(states: Seq<State>, draws: Seq<Option<Note>>, k: int)
    requires
        states.len() == draws.len() + 1,
        states[0].notes@.no_duplicates(),
        states[0].note is None,
        forall|j: int|
            0 <= j < draws.len() ==> draw_step(#[trigger] states[j], states[j + 1], draws[j]),
        0 <= k <= draws.len(),
    ensures
        ({
            let n = states[0].notes@.len() as int;
            let rest = remaining(states[k].notes@, states[k].note);
            &&& rest.no_duplicates()
            &&& rest.len() == (if k <= n { n - k } else { 0 })
            &&& (states[k].note matches Some(x) ==> states[k].notes@.contains(x))
            &&& states[k].notes@.no_duplicates()
            &&& forall|j: int| 0 <= j < k && j < n ==> #[trigger] draws[j] is Some
            &&& forall|j: int| n <= j < k ==> #[trigger] draws[j] is None
            &&& forall|j: int|
                0 <= j < k ==> (#[trigger] draws[j] matches Some(x) ==> !rest.contains(x))
        }),
    decreases k,
{
    if k > 0 {
        lemma_draw_run(states, draws, k - 1);
        let n = states[0].notes@.len() as int;
        let prev = remaining(states[k - 1].notes@, states[k - 1].note);
        assert(draw_step(states[k - 1], states[k], draws[k - 1]));
        let s = states[k];
        assert(s.notes@ == prev);
        let rest = remaining(s.notes@, s.note);
        match draws[k - 1] {
            Some(x) => {
                lemma_remove_one(prev, x);
                assert(rest == prev.remove_value(x));
            },
            None => {
                assert(rest == prev);
            },
        }
        assert forall|j: int| 0 <= j < k implies
            (#[trigger] draws[j] matches Some(x) ==> !rest.contains(x)) by {
            if j < k - 1 {
                if let Some(x) = draws[j] {
                    assert(!prev.contains(x));
                }
            }
        }
    }
}

/// Drawing again and again from a fresh pool of `n` notes gives `n`
/// distinct notes, and none from the next draw on.
pub proof fn draws_exhaust_pool(states: Seq<State>, draws: Seq<Option<Note>>)
    requires
        states.len() == draws.len() + 1,
        states[0].notes@.no_duplicates(),
        states[0].note is None,
        forall|j: int|
            0 <= j < draws.len() ==> draw_step(#[trigger] states[j], states[j + 1], draws[j]),
    ensures
        forall|j: int|
            0 <= j < draws.len() && j < states[0].notes@.len() ==> #[trigger] draws[j] is Some,
        forall|i: int, j: int|
            0 <= i < j < draws.len() && j < states[0].notes@.len()
                ==> #[trigger] draws[i] != #[trigger] draws[j],
        forall|j: int| states[0].notes@.len() <= j < draws.len() ==> #[trigger] draws[j] is None,
{
    let n = states[0].notes@.len() as int;
    lemma_draw_run(states, draws, draws.len() as int);
    assert forall|i: int, j: int| 0 <= i < j < draws.len() && j < n implies
        draws[i] != draws[j] by {
        lemma_draw_run(states, draws, j);
        let prev = remaining(states[j].notes@, states[j].note);
        assert(draw_step(states[j], states[j + 1], draws[j]));
        let x = draws[j].unwrap();
        assert(states[j + 1].notes@.contains(x));
        assert(draws[i] is Some);
        assert(!prev.contains(draws[i].unwrap()));
    }
}

} // verus!
