//! Snapshots of a session as text: a pool is the texts of its notes joined
//! by commas, and an asked note is its text, or nothing.

use vstd::prelude::*;
use crate::exercise::{Exercise, exercise_octaves};
use crate::models::{GameState, GameStateChangeset};
use crate::note::{
    Note, ParseError, Tonality, gamut_for, has_gamut, note_from_text, note_text,
    note_text_round_trip, tonality_from_text, tonality_text, tonality_text_round_trip,
};
use crate::state::{State, pool_contains};

verus! {

/// The texts of some notes, joined by commas (`C4,D4,E4`).
pub open spec fn notes_text(ns: Seq<Note>) -> Seq<char>
    decreases ns.len(),
{
    if ns.len() == 0 {
        Seq::empty()
    } else if ns.len() == 1 {
        note_text(ns[0])
    } else {
        notes_text(ns.drop_last()).push(',') + note_text(ns.last())
    }
}

/// The pieces of a text between its commas, from left to right.
pub open spec fn split_commas(s: Seq<char>) -> Seq<Seq<char>>
    decreases s.len(),
{
    if s.len() == 0 {
        seq![Seq::empty()]
    } else {
        let parts = split_commas(s.drop_last());
        if s.last() == ',' {
            parts.push(Seq::empty())
        } else {
            parts.update(parts.len() - 1, parts.last().push(s.last()))
        }
    }
}

/// The notes that some texts name, where each of them names one.
pub open spec fn notes_from_parts(parts: Seq<Seq<char>>) -> Option<Seq<Note>> {
    if forall|k: int| 0 <= k < parts.len() ==> (#[trigger] note_from_text(parts[k])) is Some {
        Some(Seq::new(parts.len(), |k: int| note_from_text(parts[k]).unwrap()))
    } else {
        None
    }
}

/// The notes that a pool's text names: none for the empty text, else one
/// for each piece between commas; nothing where a piece names no note.
pub open spec fn notes_from_text(s: Seq<char>) -> Option<Seq<Note>> {
    if s.len() == 0 {
        Some(Seq::empty())
    } else {
        notes_from_parts(split_commas(s))
    }
}

/// The text of an asked note: empty where none is asked.
pub open spec fn asked_text(n: Option<Note>) -> Seq<char> {
    match n {
        Some(n) => note_text(n),
        None => Seq::empty(),
    }
}

/// The asked note that a text names: none for the empty text.
pub open spec fn asked_from_text(s: Seq<char>) -> Option<Option<Note>> {
    if s.len() == 0 {
        Some(None)
    } else {
        match note_from_text(s) {
            Some(n) => Some(Some(n)),
            None => None,
        }
    }
}

/// Whether a text holds no comma.
pub open spec fn comma_free(s: Seq<char>) -> bool {
    forall|i: int| 0 <= i < s.len() ==> s[i] != ','
}

/// The text of a note holds no comma and is not empty.
pub proof fn lemma_note_text_comma_free(n: Note)
    ensures
        comma_free(note_text(n)),
        note_text(n).len() > 0,
{
}

/// Appending a text without commas extends the last piece.
pub proof fn lemma_split_extend(x: Seq<char>, b: Seq<char>)
    requires
        comma_free(b),
    ensures
        split_commas(x + b).len() == split_commas(x).len(),
        split_commas(x + b) == split_commas(x).update(
            split_commas(x).len() - 1,
            split_commas(x).last() + b,
        ),
    decreases b.len(),
{
    lemma_split_not_empty(x);
    if b.len() == 0 {
        assert(x + b =~= x);
        assert(split_commas(x).last() + b =~= split_commas(x).last());
        assert(split_commas(x).update(split_commas(x).len() - 1, split_commas(x).last())
            =~= split_commas(x));
    } else {
        let b0 = b.drop_last();
        assert(comma_free(b0));
        lemma_split_extend(x, b0);
        assert((x + b).drop_last() =~= x + b0);
        assert((x + b).last() == b.last());
        let p = split_commas(x);
        assert((p.last() + b0).push(b.last()) =~= p.last() + b);
        assert(split_commas(x + b) =~= p.update(p.len() - 1, p.last() + b));
    }
}

/// A text splits into at least one piece.
pub proof fn lemma_split_not_empty(s: Seq<char>)
    ensures
        split_commas(s).len() > 0,
    decreases s.len(),
{
    if s.len() > 0 {
        lemma_split_not_empty(s.drop_last());
    }
}

/// Splitting the joined texts of some notes gives back those texts.
pub proof fn lemma_split_joined(ns: Seq<Note>)
    requires
        ns.len() > 0,
    ensures
        split_commas(notes_text(ns)) == Seq::new(ns.len(), |k: int| note_text(ns[k])),
    decreases ns.len(),
{
    let last = note_text(ns.last());
    lemma_note_text_comma_free(ns.last());
    if ns.len() == 1 {
        let e = Seq::<char>::empty();
        assert(e + last =~= last);
        lemma_split_extend(e, last);
        assert(Seq::<char>::empty() + last =~= last);
        assert(split_commas(notes_text(ns)) =~= Seq::new(ns.len(), |k: int| note_text(ns[k])));
    } else {
        let init = ns.drop_last();
        lemma_split_joined(init);
        let j = notes_text(init).push(',');
        assert(j.drop_last() =~= notes_text(init));
        lemma_split_extend(j, last);
        assert(split_commas(notes_text(ns)) =~= Seq::new(ns.len(), |k: int| note_text(ns[k])));
    }
}

/// Reading back the text of a pool gives that pool.
pub proof fn notes_text_round_trip(ns: Seq<Note>)
    ensures
        notes_from_text(notes_text(ns)) == Some(ns),
{
    if ns.len() > 0 {
        lemma_split_joined(ns);
        lemma_note_text_comma_free(ns[0]);
        assert(notes_text(ns).len() > 0) by {
            lemma_joined_not_empty(ns);
        }
        let parts = split_commas(notes_text(ns));
        assert forall|k: int| 0 <= k < parts.len() implies
            (#[trigger] note_from_text(parts[k])) == Some(ns[k]) by {
            note_text_round_trip(ns[k]);
        }
        assert(notes_from_parts(parts).unwrap() =~= ns);
    }
}

/// The text of a non-empty pool is not empty.
proof fn lemma_joined_not_empty(ns: Seq<Note>)
    requires
        ns.len() > 0,
    ensures
        notes_text(ns).len() > 0,
{
    lemma_note_text_comma_free(ns.last());
    lemma_note_text_comma_free(ns[0]);
}

/// Reading back the text of an asked note gives that note.
pub proof fn asked_text_round_trip(n: Option<Note>)
    ensures
        asked_from_text(asked_text(n)) == Some(n),
{
    if let Some(x) = n {
        lemma_note_text_comma_free(x);
        note_text_round_trip(x);
    }
}

/// The pieces before the last one stay as they are when text is appended.
pub proof fn lemma_split_prefix(x: Seq<char>, y: Seq<char>)
    ensures
        split_commas(x + y).len() >= split_commas(x).len(),
        forall|k: int|
            0 <= k < split_commas(x).len() - 1 ==> split_commas(x + y)[k] == split_commas(x)[k],
    decreases y.len(),
{
    lemma_split_not_empty(x);
    if y.len() == 0 {
        assert(x + y =~= x);
    } else {
        let y0 = y.drop_last();
        lemma_split_prefix(x, y0);
        assert((x + y).drop_last() =~= x + y0);
        lemma_split_not_empty(x + y0);
    }
}

/// Joins the texts of some notes by commas.
pub fn join_notes(ns: &Vec<Note>) -> (r: String)
    ensures
        r@ == notes_text(ns@),
{
    let mut out = String::new();
    let mut i: usize = 0;
    while i < ns.len()
        invariant
            i <= ns@.len(),
            out@ == notes_text(ns@.take(i as int)),
        decreases ns@.len() - i,
    {
        let ghost before = out@;
        if i > 0 {
            proof {
                reveal_strlit(",");
            }
            out.append(",");
        }
        let text = ns[i].to_string();
        out.append(text.as_str());
        proof {
            let taken = ns@.take(i as int + 1);
            assert(taken.drop_last() =~= ns@.take(i as int));
            assert(taken.last() == ns@[i as int]);
            if i == 0 {
                assert(out@ =~= notes_text(taken));
            } else {
                assert(out@ =~= notes_text(taken));
            }
        }
        i = i + 1;
    }
    proof {
        assert(ns@.take(ns@.len() as int) =~= ns@);
    }
    out
}

/// Reads the notes of a pool's text.
pub fn parse_notes(s: &str) -> (r: Result<Vec<Note>, ParseError>)
    ensures
        match r {
            Ok(v) => notes_from_text(s@) == Some(v@),
            Err(_) => notes_from_text(s@) is None,
        },
{
    let n = s.unicode_len();
    let mut out: Vec<Note> = Vec::new();
    if n == 0 {
        assert(out@ =~= Seq::<Note>::empty());
        return Ok(out);
    }
    let mut start: usize = 0;
    let mut i: usize = 0;
    while i < n
        invariant
            n == s@.len(),
            start <= i <= n,
            split_commas(s@.take(i as int)).len() == out@.len() + 1,
            forall|k: int|
                0 <= k < out@.len() ==> note_from_text(
                    #[trigger] split_commas(s@.take(i as int))[k],
                ) == Some(out@[k]),
            split_commas(s@.take(i as int)).last() == s@.subrange(start as int, i as int),
        decreases n - i,
    {
        let ghost parts = split_commas(s@.take(i as int));
        let c = s.get_char(i);
        proof {
            let taken = s@.take(i as int + 1);
            assert(taken.drop_last() =~= s@.take(i as int));
            assert(taken.last() == c);
        }
        if c == ',' {
            let piece = s.substring_char(start, i);
            match Note::parse(piece) {
                Ok(note) => {
                    out.push(note);
                    start = i + 1;
                    proof {
                        let next = split_commas(s@.take(i as int + 1));
                        assert(next == parts.push(Seq::empty()));
                        assert(s@.subrange(start as int, i as int + 1) =~= Seq::<char>::empty());
                    }
                },
                Err(e) => {
                    proof {
                        let x = s@.take(i as int + 1);
                        let y = s@.skip(i as int + 1);
                        assert(x + y =~= s@);
                        lemma_split_prefix(x, y);
                        assert(split_commas(x) == parts.push(Seq::empty()));
                        assert(split_commas(x + y) == split_commas(s@));
                        assert(split_commas(x)[out@.len() as int] == parts[out@.len() as int]);
                        assert(parts[out@.len() as int] == parts.last());
                        assert(piece@ == s@.subrange(start as int, i as int));
                        assert(split_commas(s@)[out@.len() as int] == piece@);
                    }
                    return Err(e);
                },
            }
        } else {
            proof {
                let piece = s@.subrange(start as int, i as int);
                assert(s@.subrange(start as int, i as int + 1) =~= piece.push(c));
            }
        }
        i = i + 1;
    }
    proof {
        assert(s@.take(n as int) =~= s@);
    }
    let piece = s.substring_char(start, n);
    match Note::parse(piece) {
        Ok(note) => {
            out.push(note);
            proof {
                let parts = split_commas(s@);
                assert forall|k: int| 0 <= k < parts.len() implies
                    (#[trigger] note_from_text(parts[k])) is Some by {
                    if k < out@.len() - 1 {
                        assert(note_from_text(parts[k]) == Some(out@[k]));
                    }
                }
                assert(notes_from_parts(parts).unwrap() =~= out@);
            }
            Ok(out)
        },
        Err(e) => {
            proof {
                let parts = split_commas(s@);
                assert(note_from_text(parts[parts.len() - 1]) is None);
            }
            Err(e)
        },
    }
}

/// Whether some values are the snapshot of a session.
pub open spec fn snapshot_fields(
    s: State,
    tonality: Seq<char>,
    exercise: i32,
    note: Seq<char>,
    notes: Seq<char>,
    right_count: i32,
    total_count: i32,
) -> bool {
    &&& tonality == tonality_text(s.tonality)
    &&& exercise == s.exercise.num as i32
    &&& note == asked_text(s.note)
    &&& notes == notes_text(s.notes@)
    &&& right_count == s.right_count as i32
    &&& total_count == s.total_count as i32
}

/// Whether a stored snapshot names a sound session: a tonality with a
/// gamut, an exercise of the catalog, a pool without repeats that holds the
/// asked note, and counts that fit in a byte.
pub open spec fn loadable(gs: GameState) -> bool {
    let tonality = tonality_from_text(gs.tonality@);
    match (tonality, asked_from_text(gs.note@), notes_from_text(gs.notes@)) {
        (Some(t), Some(a), Some(ns)) => {
            &&& has_gamut(t.0)
            &&& exercise_octaves(gs.exercise as int) is Some
            &&& ns.no_duplicates()
            &&& (a matches Some(n) ==> ns.contains(n))
            &&& 0 <= gs.right_count <= 255
            &&& 0 <= gs.total_count <= 255
        },
        _ => false,
    }
}

/// Whether a session is the one that a stored snapshot names, with no
/// attempt open.
pub open spec fn loaded_from(gs: GameState, st: State) -> bool {
    &&& st.wf()
    &&& st.exercise.valid()
    &&& tonality_from_text(gs.tonality@) == Some(st.tonality)
    &&& st.exercise.num as int == gs.exercise as int
    &&& asked_from_text(gs.note@) == Some(st.note)
    &&& notes_from_text(gs.notes@) == Some(st.notes@)
    &&& st.right_count as int == gs.right_count as int
    &&& st.total_count as int == gs.total_count as int
    &&& st.attempts_left == 0
}

/// Whether a pool has a repeated note.
fn has_repeats(v: &Vec<Note>) -> (r: bool)
    ensures
        r == !v@.no_duplicates(),
{
    let mut i: usize = 0;
    while i < v.len()
        invariant
            i <= v@.len(),
            forall|a: int, b: int| 0 <= a < i && 0 <= b < i && a != b ==> v@[a] != v@[b],
        decreases v@.len() - i,
    {
        let mut j: usize = 0;
        while j < i
            invariant
                i < v@.len(),
                j <= i,
                forall|b: int| 0 <= b < j ==> v@[b] != v@[i as int],
            decreases i - j,
        {
            if v[j] == v[i] {
                return true;
            }
            j = j + 1;
        }
        i = i + 1;
    }
    false
}

impl State {
    /// The snapshot of this session, as text and numbers.
    pub fn changeset(&self) -> (r: GameStateChangeset)
        ensures
            snapshot_fields(
                *self,
                r.tonality@,
                r.exercise,
                r.note@,
                r.notes@,
                r.right_count,
                r.total_count,
            ),
    {
        let note = match self.note {
            Some(n) => n.to_string(),
            None => String::new(),
        };
        GameStateChangeset {
            tonality: self.tonality.to_string(),
            exercise: self.exercise.num as i32,
            note,
            notes: join_notes(&self.notes),
            right_count: self.right_count as i32,
            total_count: self.total_count as i32,
        }
    }

    /// The session that a stored snapshot names; refused where the
    /// snapshot names no sound session.
    pub fn load(gs: &GameState) -> (r: Result<State, ParseError>)
        ensures
            match r {
                Ok(st) => loaded_from(*gs, st),
                Err(_) => !loadable(*gs),
            },
    {
        let tonality = Tonality::parse(gs.tonality.as_str())?;
        let note = if gs.note.as_str().unicode_len() == 0 {
            None
        } else {
            Some(Note::parse(gs.note.as_str())?)
        };
        let notes = parse_notes(gs.notes.as_str())?;
        if gamut_for(tonality.0).is_none() {
            return Err(ParseError);
        }
        if gs.exercise < 0 || gs.exercise > 255 {
            return Err(ParseError);
        }
        let exercise = match Exercise::by_number(gs.exercise as u8) {
            Some(e) => e,
            None => {
                return Err(ParseError);
            },
        };
        if has_repeats(&notes) {
            return Err(ParseError);
        }
        if let Some(n) = note {
            if !pool_contains(&notes, n) {
                return Err(ParseError);
            }
        }
        if gs.right_count < 0 || gs.right_count > 255 {
            return Err(ParseError);
        }
        if gs.total_count < 0 || gs.total_count > 255 {
            return Err(ParseError);
        }
        Ok(State {
            tonality,
            exercise,
            note,
            notes,
            right_count: gs.right_count as u8,
            total_count: gs.total_count as u8,
            attempts_left: 0,
        })
    }
}

/// Loading the snapshot of a sound session on an exercise of the catalog
/// gives back the same session: same tonality, exercise, asked note, pool
/// and counts, with no attempt open.
pub proof fn snapshot_round_trip(s: State, gs: GameState)
    requires
        s.wf(),
        s.exercise.valid(),
        snapshot_fields(
            s,
            gs.tonality@,
            gs.exercise,
            gs.note@,
            gs.notes@,
            gs.right_count,
            gs.total_count,
        ),
    ensures
        loadable(gs),
        forall|st: State| #[trigger] loaded_from(gs, st) ==> {
            &&& st.tonality == s.tonality
            &&& st.exercise.num == s.exercise.num
            &&& st.exercise.octaves@ == s.exercise.octaves@
            &&& st.note == s.note
            &&& st.notes@ == s.notes@
            &&& st.right_count == s.right_count
            &&& st.total_count == s.total_count
        },
{
    tonality_text_round_trip(s.tonality);
    asked_text_round_trip(s.note);
    notes_text_round_trip(s.notes@);
}

} // verus!
