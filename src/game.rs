//! The controller of a session: it starts and resumes games, checks
//! answers, keeps the score, moves through the exercises, and names the
//! samples that the player has to play. Storage and playback are left to
//! the caller, which acts on what each operation returns.

use vstd::prelude::*;
use crate::exercise::{Exercise, exercise_octaves};
use crate::models::{GameState, GameStateChangeset, NewGame};
use crate::note::{
    Note, ParseError, Pitch, Tonality, has_gamut, note_text, pitch_from_text, tonality_text,
};
use crate::snapshot::{loadable, loaded_from, snapshot_fields};
use crate::state::{State, lemma_pool_not_empty, pool_of, remaining};

verus! {

/// Settings of the game; it has none yet.
#[derive(Clone, Copy, Debug, PartialEq, Eq, Structural)]
pub struct Config {}

impl Config {
    /// The default settings.
    pub fn new() -> (r: Config)
        ensures
            r == (Config {}),
    {
        Config {}
    }
}

impl Default for Config {
    fn default() -> (r: Config)
        ensures
            r == (Config {}),
    {
        Config::new()
    }
}

/// A count raised by one, held at its largest value.
pub open spec fn bump(c: u8) -> u8 {
    if c < 255 {
        (c + 1) as u8
    } else {
        255
    }
}

/// What a request for the next note came to.
pub enum Turn {
    /// A note of the current exercise is asked.
    Note(Note),
    /// The exercise was passed: the next one starts with this note.
    Exercise(Exercise, Note),
    /// The session is over.
    Over,
    /// There is no session.
    Idle,
}

/// The text that precedes a tonality in the name of its tonal-center sample.
pub open spec fn cadence_prefix() -> Seq<char> {
    seq!['I', 'I', 'V', 'V', 'I', 'P', 'A', 'C', ' ', '-', ' ']
}

/// Whether one of the answers names a pitch.
pub open spec fn names_pitch(answers: Seq<&str>, p: Pitch) -> bool {
    exists|i: int| 0 <= i < answers.len() && pitch_from_text(#[trigger] answers[i]@) == Some(p)
}

/// Whether the answers are right for the asked note: one of them names
/// its pitch, in whatever octave.
pub open spec fn answers_right(answers: Seq<&str>, note: Option<Note>) -> bool {
    match note {
        Some(n) => names_pitch(answers, n.pitch),
        None => false,
    }
}

/// One request for the next note. Where the pool is not exhausted, a note
/// of it is drawn; where it is, and every played note was named right, the
/// next exercise starts with a fresh pool and a note of it; else the
/// session is over. A played note counts once and opens one attempt.
pub open spec fn play_step(before: Controller, after: Controller, r: Turn) -> bool {
    match before.state {
        None => r is Idle && after.state is None,
        Some(s) => {
            let rest = remaining(s.notes@, s.note);
            let perfect = s.right_count == s.total_count;
            let next = exercise_octaves(s.exercise.num + 1);
            &&& after.state is Some
            &&& {
                let t = after.state.unwrap();
                &&& t.tonality == s.tonality
                &&& t.right_count == s.right_count
                &&& match r {
                    Turn::Note(n) => {
                        &&& rest.len() > 0
                        &&& t.notes@ == rest
                        &&& t.note == Some(n)
                        &&& rest.contains(n)
                        &&& t.exercise == s.exercise
                        &&& t.total_count == bump(s.total_count)
                        &&& t.attempts_left == 1
                    },
                    Turn::Exercise(e, n) => {
                        &&& rest.len() == 0
                        &&& perfect
                        &&& next is Some
                        &&& e.num == s.exercise.num + 1
                        &&& e.valid()
                        &&& t.exercise.num == e.num
                        &&& t.exercise.octaves@ == e.octaves@
                        &&& t.notes@ == pool_of(s.tonality.0, e.octaves@)
                        &&& t.note == Some(n)
                        &&& t.notes@.contains(n)
                        &&& t.total_count == bump(s.total_count)
                        &&& t.attempts_left == 1
                    },
                    Turn::Over => {
                        &&& rest.len() == 0
                        &&& (!perfect || next is None)
                        &&& t.notes@.len() == 0
                        &&& t.note is None
                        &&& t.exercise.num == s.exercise.num
                        &&& t.total_count == s.total_count
                        &&& t.attempts_left == s.attempts_left
                    },
                    Turn::Idle => false,
                }
            }
        },
    }
}

/// The controller of one session at a time.
pub struct Controller {
    pub config: Config,
    /// The session being played, if any.
    pub state: Option<State>,
}

impl Controller {
    /// The session, if any, is sound.
    pub open spec fn wf(&self) -> bool {
        self.state matches Some(s) ==> s.wf()
    }

    /// Whether the session is over: there is none, or its pool is empty.
    pub open spec fn finished(&self) -> bool {
        match self.state {
            Some(s) => s.notes@.len() == 0,
            None => true,
        }
    }

    /// A controller with no session.
    pub fn new(config: Config) -> (r: Controller)
        ensures
            r.wf(),
            r.config == config,
            r.state is None,
    {
        Controller { config, state: None }
    }

    /// Starts a session in a key that has a gamut, on the first exercise,
    /// with nothing counted. Returns the record of the game to be stored.
    pub fn new_game(&mut self, tonality: Tonality) -> (r: NewGame)
        requires
            has_gamut(tonality.0),
        ensures
            final(self).wf(),
            final(self).config == old(self).config,
            r.tonality@ == tonality_text(tonality),
            final(self).state matches Some(s) && {
                &&& s.tonality == tonality
                &&& s.exercise.num == 1
                &&& s.exercise.valid()
                &&& s.notes@ == pool_of(tonality.0, s.exercise.octaves@)
                &&& s.note is None
                &&& s.right_count == 0
                &&& s.total_count == 0
                &&& s.attempts_left == 0
            },
    {
        let exercise = Exercise::first();
        self.state = Some(State::new(tonality, exercise));
        NewGame { tonality: tonality.to_string() }
    }

    /// Resumes the stored session that the caller found, if any. With none
    /// found, nothing changes. A snapshot that names a sound session
    /// replaces the session, with no attempt open, and is handed back;
    /// any other is refused and nothing changes.
    pub fn load_game(
        &mut self,
        found: Option<GameState>,
    ) -> (r: Result<Option<GameState>, ParseError>)
        requires
            old(self).wf(),
        ensures
            final(self).wf(),
            final(self).config == old(self).config,
            match found {
                None => {
                    &&& r == Ok::<Option<GameState>, ParseError>(None)
                    &&& final(self).state == old(self).state
                },
                Some(gs) => if loadable(gs) {
                    &&& r matches Ok(Some(g)) && g == gs
                    &&& final(self).state matches Some(st) && loaded_from(gs, st)
                } else {
                    r is Err && final(self).state == old(self).state
                },
            },
    {
        match found {
            None => Ok(None),
            Some(gs) => {
                let st = State::load(&gs)?;
                self.state = Some(st);
                Ok(Some(gs))
            },
        }
    }

    /// The snapshot of the session, for the caller to store against the
    /// current game; none with no session.
    pub fn save_state(&self) -> (r: Option<GameStateChangeset>)
        ensures
            match self.state {
                Some(s) => r matches Some(c) && snapshot_fields(
                    s,
                    c.tonality@,
                    c.exercise,
                    c.note@,
                    c.notes@,
                    c.right_count,
                    c.total_count,
                ),
                None => r is None,
            },
    {
        match self.state {
            Some(ref s) => Some(s.changeset()),
            None => None,
        }
    }

    /// Checks answers against the asked note. With no attempt open (or no
    /// session) it returns none and changes nothing. Otherwise it takes the
    /// attempt and returns whether one of the answers names the pitch of
    /// the asked note, in any octave; a right answer counts once. An answer
    /// that names no pitch is wrong.
    pub fn check_answers(&mut self, answers: &[&str]) -> (r: Option<bool>)
        requires
            old(self).wf(),
        ensures
            final(self).wf(),
            final(self).config == old(self).config,
            match old(self).state {
                None => r is None && final(self).state is None,
                Some(s) => if s.attempts_left == 0 {
                    r is None && final(self).state == old(self).state
                } else {
                    let right = answers_right(answers@, s.note);
                    &&& r == Some(right)
                    &&& final(self).state matches Some(t) && {
                        &&& t.attempts_left == 0
                        &&& t.right_count == if right {
                            bump(s.right_count)
                        } else {
                            s.right_count
                        }
                        &&& t.total_count == s.total_count
                        &&& t.note == s.note
                        &&& t.notes == s.notes
                        &&& t.tonality == s.tonality
                        &&& t.exercise == s.exercise
                    }
                },
            },
    {
        match self.state {
            None => None,
            Some(ref mut s) => {
                if s.attempts_left == 0 {
                    return None;
                }
                s.attempts_left = s.attempts_left - 1;
                let right = match s.note {
                    Some(n) => any_names(answers, n.pitch),
                    None => false,
                };
                if right && s.right_count < 255 {
                    s.right_count = s.right_count + 1;
                }
                Some(right)
            },
        }
    }

    /// Asks for the next note; see `play_step`. The caller plays the note
    /// it returns, and ends the stored game where it returns `Over`.
    pub fn play_next_note(&mut self) -> (r: Turn)
        requires
            old(self).wf(),
        ensures
            final(self).wf(),
            final(self).config == old(self).config,
            play_step(*old(self), *final(self), r),
    {
        match self.state {
            None => Turn::Idle,
            Some(ref mut s) => {
                let first = s.next_note();
                match first {
                    Some(n) => {
                        count_played(s);
                        Turn::Note(n)
                    },
                    None => {
                        if s.total_count == s.right_count {
                            match s.next_exercise() {
                                Some(e) => {
                                    let again = s.next_note();
                                    match again {
                                        Some(n) => {
                                            count_played(s);
                                            Turn::Exercise(e, n)
                                        },
                                        None => Turn::Over,
                                    }
                                },
                                None => Turn::Over,
                            }
                        } else {
                            Turn::Over
                        }
                    },
                }
            },
        }
    }

    /// The number of notes named right; 0 with no session.
    pub fn right_count(&self) -> (r: u8)
        ensures
            r == match self.state {
                Some(s) => s.right_count,
                None => 0,
            },
    {
        match self.state {
            Some(ref s) => s.right_count,
            None => 0,
        }
    }

    /// The number of notes played; 0 with no session.
    pub fn total_count(&self) -> (r: u8)
        ensures
            r == match self.state {
                Some(s) => s.total_count,
                None => 0,
            },
    {
        match self.state {
            Some(ref s) => s.total_count,
            None => 0,
        }
    }

    /// Whether the session is over: there is none, or its pool is empty.
    pub fn is_finished(&self) -> (r: bool)
        ensures
            r == self.finished(),
    {
        match self.state {
            Some(ref s) => s.notes.len() == 0,
            None => true,
        }
    }

    /// The sample of the asked note, to be played again; none where no
    /// note is asked. The score does not change.
    pub fn repeat_note(&self) -> (r: Option<String>)
        ensures
            match self.state {
                Some(s) => match s.note {
                    Some(n) => r matches Some(t) && t@ == note_text(n),
                    None => r is None,
                },
                None => r is None,
            },
    {
        match self.state {
            Some(ref s) => match s.note {
                Some(n) => Some(note_sample(n)),
                None => None,
            },
            None => None,
        }
    }

    /// The sample of the session's tonal center; none with no session.
    pub fn play_tonal_center(&self) -> (r: Option<String>)
        ensures
            match self.state {
                Some(s) => r matches Some(t) && t@ == cadence_prefix() + tonality_text(s.tonality),
                None => r is None,
            },
    {
        match self.state {
            Some(ref s) => Some(tonal_center_sample(s.tonality)),
            None => None,
        }
    }
}

/// Once the pool is exhausted after a perfect score, the next request
/// moves on to the next exercise of the catalog, whose pool is the whole,
/// non-empty pool of its octaves in the session's key.
pub proof fn perfect_exhaustion_advances(before: Controller, after: Controller, r: Turn)
    requires
        before.wf(),
        play_step(before, after, r),
        before.state matches Some(s) && {
            &&& remaining(s.notes@, s.note).len() == 0
            &&& s.right_count == s.total_count
            &&& exercise_octaves(s.exercise.num + 1) is Some
        },
    ensures
        ({
            let s = before.state.unwrap();
            let octaves = exercise_octaves(s.exercise.num + 1).unwrap();
            &&& r matches Turn::Exercise(e, n) && e.num == s.exercise.num + 1
            &&& after.state matches Some(t) && {
                &&& t.exercise.num == s.exercise.num + 1
                &&& t.notes@ == pool_of(s.tonality.0, octaves)
                &&& t.notes@.len() > 0
                &&& t.right_count == s.right_count
            }
        }),
{
    let s = before.state.unwrap();
    let octaves = exercise_octaves(s.exercise.num + 1).unwrap();
    assert(octaves.len() > 0);
    lemma_pool_not_empty(s.tonality.0, octaves);
}

/// Once the pool is exhausted with a score short of perfect, the session
/// is over: it is finished, and every later request finds it over too.
pub proof fn imperfect_exhaustion_ends(
    before: Controller,
    after: Controller,
    r: Turn,
    later: Controller,
    r2: Turn,
)
    requires
        play_step(before, after, r),
        play_step(after, later, r2),
        before.state matches Some(s) && {
            &&& remaining(s.notes@, s.note).len() == 0
            &&& s.right_count != s.total_count
        },
    ensures
        r is Over,
        after.finished(),
        r2 is Over,
        later.finished(),
{
    let t = after.state.unwrap();
    assert(remaining(t.notes@, t.note) == t.notes@);
}

/// Counts a played note and opens one attempt for it.
fn count_played(s: &mut State)
    ensures
        final(s).total_count == bump(old(s).total_count),
        final(s).attempts_left == 1,
        final(s).right_count == old(s).right_count,
        final(s).notes == old(s).notes,
        final(s).note == old(s).note,
        final(s).tonality == old(s).tonality,
        final(s).exercise == old(s).exercise,
{
    if s.total_count < 255 {
        s.total_count = s.total_count + 1;
    }
    s.attempts_left = 1;
}

/// Whether one of the answers names a pitch; texts that name no pitch are
/// passed over.
pub fn any_names(answers: &[&str], p: Pitch) -> (r: bool)
    ensures
        r == names_pitch(answers@, p),
{
    let mut i: usize = 0;
    while i < answers.len()
        invariant
            i <= answers@.len(),
            forall|j: int| 0 <= j < i ==> pitch_from_text(#[trigger] answers@[j]@) != Some(p),
        decreases answers@.len() - i,
    {
        match Pitch::parse(answers[i]) {
            Ok(q) => {
                if q == p {
                    return true;
                }
            },
            Err(_) => {},
        }
        i = i + 1;
    }
    false
}

/// The name of a note's sample: the note's text (`C4`).
pub fn note_sample(n: Note) -> (r: String)
    ensures
        r@ == note_text(n),
{
    n.to_string()
}

/// The name of a tonality's tonal-center sample (`IIVVIPAC - C#maj`).
pub fn tonal_center_sample(t: Tonality) -> (r: String)
    ensures
        r@ == cadence_prefix() + tonality_text(t),
{
    proof {
        reveal_strlit("IIVVIPAC - ");
    }
    let mut s = String::from_str("IIVVIPAC - ");
    let name = t.to_string();
    s.append(name.as_str());
    s
}

} // verus!
