use timbre::exercise::{Exercise, exercises};
use timbre::note::{Note, Octave, Pitch, Tonality};
use timbre::state::{State, generate_notes};

#[test]
fn generate_notes_first_ex() {
    let tonality = Tonality(Pitch::C);
    let exercise = exercises().into_iter().nth(0).unwrap();
    let state = State::new(tonality, exercise);

    let notes = [
        Note {
            octave: Octave::First,
            pitch: Pitch::C,
        },
        Note {
            octave: Octave::First,
            pitch: Pitch::D,
        },
        Note {
            octave: Octave::First,
            pitch: Pitch::E,
        },
        Note {
            octave: Octave::First,
            pitch: Pitch::F,
        },
        Note {
            octave: Octave::First,
            pitch: Pitch::G,
        },
        Note {
            octave: Octave::First,
            pitch: Pitch::A,
        },
        Note {
            octave: Octave::First,
            pitch: Pitch::B,
        },
        Note {
            octave: Octave::Second,
            pitch: Pitch::C,
        },
    ];

    assert_eq!(state.notes, notes.to_vec());
}

#[test]
fn generate_notes_second_ex() {
    let tonality = Tonality(Pitch::C);
    let exercise = exercises().into_iter().nth(1).unwrap();
    let state = State::new(tonality, exercise);

    let notes = [
        Note {
            octave: Octave::First,
            pitch: Pitch::C,
        },
        Note {
            octave: Octave::First,
            pitch: Pitch::D,
        },
        Note {
            octave: Octave::First,
            pitch: Pitch::E,
        },
        Note {
            octave: Octave::First,
            pitch: Pitch::F,
        },
        Note {
            octave: Octave::First,
            pitch: Pitch::G,
        },
        Note {
            octave: Octave::First,
            pitch: Pitch::A,
        },
        Note {
            octave: Octave::First,
            pitch: Pitch::B,
        },
        Note {
            octave: Octave::Second,
            pitch: Pitch::C,
        },
        Note {
            octave: Octave::Second,
            pitch: Pitch::D,
        },
        Note {
            octave: Octave::Second,
            pitch: Pitch::E,
        },
        Note {
            octave: Octave::Second,
            pitch: Pitch::F,
        },
        Note {
            octave: Octave::Second,
            pitch: Pitch::G,
        },
        Note {
            octave: Octave::Second,
            pitch: Pitch::A,
        },
        Note {
            octave: Octave::Second,
            pitch: Pitch::B,
        },
        Note {
            octave: Octave::Third,
            pitch: Pitch::C,
        },
    ];

    assert_eq!(state.notes, notes.to_vec());
}

#[test]
fn next_note_first_ex() {
    let tonality = Tonality(Pitch::C);
    let exercise = exercises().into_iter().nth(0).unwrap();
    let mut state = State::new(tonality, exercise);

    assert!(state.note.is_none());

    let note_1 = state.next_note().unwrap();
    let note_2 = state.next_note().unwrap();
    let note_3 = state.next_note().unwrap();
    let note_4 = state.next_note().unwrap();
    let note_5 = state.next_note().unwrap();
    let note_6 = state.next_note().unwrap();
    let note_7 = state.next_note().unwrap();
    let note_8 = state.next_note().unwrap();

    let note_9 = state.next_note();
    assert!(note_9.is_none());

    let mut notes = [
        note_1, note_2, note_3, note_4, note_5, note_6, note_7, note_8
    ];

    let expected_notes = [
        Note {
            octave: Octave::First,
            pitch: Pitch::C,
        },
        Note {
            octave: Octave::First,
            pitch: Pitch::D,
        },
        Note {
            octave: Octave::First,
            pitch: Pitch::E,
        },
        Note {
            octave: Octave::First,
            pitch: Pitch::F,
        },
        Note {
            octave: Octave::First,
            pitch: Pitch::G,
        },
        Note {
            octave: Octave::First,
            pitch: Pitch::A,
        },
        Note {
            octave: Octave::First,
            pitch: Pitch::B,
        },
        Note {
            octave: Octave::Second,
            pitch: Pitch::C,
        },
    ];

    assert_ne!(notes, expected_notes);
    notes.sort();
    assert_eq!(notes, expected_notes);
}

#[test]
fn next_note_second_ex() {
    let tonality = Tonality(Pitch::C);
    let exercise = exercises().into_iter().nth(1).unwrap();
    let mut state = State::new(tonality, exercise);

    assert!(state.note.is_none());

    let note_1 = state.next_note().unwrap();
    let note_2 = state.next_note().unwrap();
    let note_3 = state.next_note().unwrap();
    let note_4 = state.next_note().unwrap();
    let note_5 = state.next_note().unwrap();
    let note_6 = state.next_note().unwrap();
    let note_7 = state.next_note().unwrap();
    let note_8 = state.next_note().unwrap();
    let note_9 = state.next_note().unwrap();
    let note_10 = state.next_note().unwrap();
    let note_11 = state.next_note().unwrap();
    let note_12 = state.next_note().unwrap();
    let note_13 = state.next_note().unwrap();
    let note_14 = state.next_note().unwrap();
    let note_15 = state.next_note().unwrap();

    let note_16 = state.next_note();
    assert!(note_16.is_none());

    let mut notes = [
        note_1, note_2, note_3, note_4, note_5, note_6, note_7, note_8, note_9, note_10,
        note_11, note_12, note_13, note_14, note_15,
    ];

    let expected_notes = [
        Note {
            octave: Octave::First,
            pitch: Pitch::C,
        },
        Note {
            octave: Octave::First,
            pitch: Pitch::D,
        },
        Note {
            octave: Octave::First,
            pitch: Pitch::E,
        },
        Note {
            octave: Octave::First,
            pitch: Pitch::F,
        },
        Note {
            octave: Octave::First,
            pitch: Pitch::G,
        },
        Note {
            octave: Octave::First,
            pitch: Pitch::A,
        },
        Note {
            octave: Octave::First,
            pitch: Pitch::B,
        },
        Note {
            octave: Octave::Second,
            pitch: Pitch::C,
        },
        Note {
            octave: Octave::Second,
            pitch: Pitch::D,
        },
        Note {
            octave: Octave::Second,
            pitch: Pitch::E,
        },
        Note {
            octave: Octave::Second,
            pitch: Pitch::F,
        },
        Note {
            octave: Octave::Second,
            pitch: Pitch::G,
        },
        Note {
            octave: Octave::Second,
            pitch: Pitch::A,
        },
        Note {
            octave: Octave::Second,
            pitch: Pitch::B,
        },
        Note {
            octave: Octave::Third,
            pitch: Pitch::C,
        },
    ];

    assert_ne!(notes, expected_notes);
    notes.sort();
    assert_eq!(notes, expected_notes);
}

#[test]
fn pool_sizes_of_the_catalog() {
    let sizes = [8usize, 15, 15, 22, 22, 29, 36];
    for (i, e) in exercises().into_iter().enumerate() {
        assert_eq!(e.num as usize, i + 1);
        let pool = generate_notes(Tonality(Pitch::D), &e.octaves);
        assert_eq!(pool.len(), sizes[i]);
    }
    assert!(Exercise::by_number(0).is_none());
    assert!(Exercise::by_number(8).is_none());
    assert_eq!(Exercise::first().octaves(), &vec![Octave::First]);
}

#[test]
fn repeated_octave_is_not_repeated_in_pool() {
    let octaves = vec![Octave::First, Octave::First];
    let pool = generate_notes(Tonality(Pitch::C), &octaves);
    assert_eq!(pool.len(), 8);
    let top = vec![Octave::Fourth];
    let pool = generate_notes(Tonality(Pitch::C), &top);
    assert_eq!(pool.len(), 7);
    assert_eq!(pool[6], Note { octave: Octave::Fourth, pitch: Pitch::B });
}

#[test]
fn draws_give_each_note_once_then_none() {
    let exercise = Exercise::by_number(4).unwrap();
    let mut state = State::new(Tonality(Pitch::Bflat), exercise);
    let n = state.notes.len();
    let mut seen: Vec<Note> = Vec::new();
    for _ in 0..n {
        let note = state.next_note().unwrap();
        assert!(!seen.contains(&note));
        assert!(state.notes.contains(&note));
        seen.push(note);
    }
    assert_eq!(state.next_note(), None);
    assert!(state.notes.is_empty());
    assert_eq!(state.next_note(), None);
}

#[test]
fn draw_at_takes_index_modulo_rest() {
    let mut state = State::new(Tonality(Pitch::C), Exercise::first());
    let picked = state.draw_at(9).unwrap();
    assert_eq!(picked, Note { octave: Octave::First, pitch: Pitch::D });
    assert_eq!(state.notes.len(), 8);
    let next = state.draw_at(0).unwrap();
    assert_eq!(next, Note { octave: Octave::First, pitch: Pitch::C });
    assert_eq!(state.notes.len(), 7);
    assert!(!state.notes.contains(&picked));
}

#[test]
fn next_exercise_replaces_pool_and_keeps_score() {
    let mut state = State::new(Tonality(Pitch::C), Exercise::first());
    state.right_count = 3;
    state.total_count = 4;
    let e = state.next_exercise().unwrap();
    assert_eq!(e.num, 2);
    assert_eq!(state.exercise.num, 2);
    assert_eq!(state.notes.len(), 15);
    assert!(state.note.is_none());
    assert_eq!(state.right_count, 3);
    assert_eq!(state.total_count, 4);
    let mut last = State::new(Tonality(Pitch::C), Exercise::by_number(7).unwrap());
    assert!(last.next_exercise().is_none());
    assert_eq!(last.exercise.num, 7);
    assert_eq!(last.notes.len(), 36);
}
