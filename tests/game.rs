use timbre::exercise::Exercise;
use timbre::game::{Config, Controller, Turn, any_names, note_sample, tonal_center_sample};
use timbre::models::GameState;
use timbre::note::{Note, Octave, ParseError, Pitch, Tonality};
use timbre::snapshot::{join_notes, parse_notes};
use timbre::state::State;

fn started(key: Pitch) -> Controller {
    let mut c = Controller::new(Config::new());
    let record = c.new_game(Tonality(key));
    assert_eq!(record.tonality, Tonality(key).to_string());
    c
}

fn asked(c: &Controller) -> Note {
    c.state.as_ref().unwrap().note.unwrap()
}

fn stored(c: &Controller, id: i32) -> GameState {
    let cs = c.save_state().unwrap();
    GameState {
        id,
        tonality: cs.tonality,
        exercise: cs.exercise,
        note: cs.note,
        notes: cs.notes,
        right_count: cs.right_count,
        total_count: cs.total_count,
        game_id: 1,
    }
}

#[test]
fn new_game_starts_first_exercise() {
    let c = started(Pitch::C);
    let s = c.state.as_ref().unwrap();
    assert_eq!(s.exercise.num, 1);
    assert_eq!(s.notes.len(), 8);
    assert_eq!(c.right_count(), 0);
    assert_eq!(c.total_count(), 0);
    assert!(!c.is_finished());
}

#[test]
fn no_session_is_neutral() {
    let mut c = Controller::new(Config::new());
    assert!(c.is_finished());
    assert_eq!(c.right_count(), 0);
    assert_eq!(c.total_count(), 0);
    assert_eq!(c.check_answers(&["C"]), None);
    assert!(matches!(c.play_next_note(), Turn::Idle));
    assert_eq!(c.repeat_note(), None);
    assert_eq!(c.play_tonal_center(), None);
    assert!(c.save_state().is_none());
}

#[test]
fn no_attempt_gives_none_and_keeps_counts() {
    let mut c = started(Pitch::C);
    assert_eq!(c.check_answers(&["C"]), None);
    assert!(matches!(c.play_next_note(), Turn::Note(_)));
    let name = asked(&c).pitch.to_string();
    assert_eq!(c.check_answers(&[name.as_str()]), Some(true));
    assert_eq!(c.right_count(), 1);
    assert_eq!(c.total_count(), 1);
    assert_eq!(c.check_answers(&[name.as_str()]), None);
    assert_eq!(c.right_count(), 1);
    assert_eq!(c.total_count(), 1);
}

#[test]
fn either_spelling_of_asked_pitch_is_right() {
    let mut state = State::new(Tonality(Pitch::D), Exercise::first());
    let target = Note { octave: Octave::First, pitch: Pitch::Csharp };
    let index = state.notes.iter().position(|n| *n == target).unwrap();
    state.draw_at(index);
    state.attempts_left = 1;
    state.total_count = 1;
    let mut c = Controller::new(Config::new());
    c.state = Some(state);
    assert_eq!(c.check_answers(&["C#", "Db"]), Some(true));
    assert_eq!(c.right_count(), 1);
    c.state.as_mut().unwrap().attempts_left = 1;
    assert_eq!(c.check_answers(&["Db", "C#"]), Some(true));
    c.state.as_mut().unwrap().attempts_left = 1;
    assert_eq!(c.check_answers(&["D", "nonsense"]), Some(false));
    assert_eq!(c.right_count(), 2);
    assert_eq!(c.total_count(), 1);
}

#[test]
fn answers_name_pitches() {
    assert!(any_names(&["x", "C#"], Pitch::Csharp));
    assert!(!any_names(&["Db"], Pitch::Csharp));
    assert!(!any_names(&[], Pitch::C));
}

#[test]
fn perfect_exercise_advances() {
    let mut c = started(Pitch::C);
    for _ in 0..8 {
        assert!(matches!(c.play_next_note(), Turn::Note(_)));
        let name = asked(&c).pitch.to_string();
        assert_eq!(c.check_answers(&[name.as_str()]), Some(true));
    }
    match c.play_next_note() {
        Turn::Exercise(e, n) => {
            assert_eq!(e.num, 2);
            let s = c.state.as_ref().unwrap();
            assert_eq!(s.exercise.num, 2);
            assert_eq!(s.notes.len(), 15);
            assert!(s.notes.contains(&n));
            assert_eq!(s.note, Some(n));
        },
        _ => panic!("the next exercise should start"),
    }
    assert_eq!(c.right_count(), 8);
    assert_eq!(c.total_count(), 9);
    assert!(!c.is_finished());
}

#[test]
fn imperfect_exercise_ends_session() {
    let mut c = started(Pitch::G);
    for i in 0..8 {
        assert!(matches!(c.play_next_note(), Turn::Note(_)));
        if i > 0 {
            let name = asked(&c).pitch.to_string();
            assert_eq!(c.check_answers(&[name.as_str()]), Some(true));
        }
    }
    assert!(matches!(c.play_next_note(), Turn::Over));
    assert!(c.is_finished());
    assert!(matches!(c.play_next_note(), Turn::Over));
    assert_eq!(c.right_count(), 7);
    assert_eq!(c.total_count(), 8);
    assert_eq!(c.repeat_note(), None);
}

#[test]
fn last_exercise_ends_session() {
    let mut state = State::new(Tonality(Pitch::C), Exercise::by_number(7).unwrap());
    while state.next_note().is_some() {}
    let mut c = Controller::new(Config::new());
    c.state = Some(state);
    assert!(matches!(c.play_next_note(), Turn::Over));
    assert!(c.is_finished());
}

#[test]
fn samples_are_named_by_note_and_tonality() {
    let mut c = started(Pitch::C);
    c.new_game(Tonality(Pitch::Fsharp));
    assert_eq!(c.play_tonal_center(), Some("IIVVIPAC - F#maj".to_string()));
    assert!(matches!(c.play_next_note(), Turn::Note(_)));
    let n = asked(&c);
    assert_eq!(c.repeat_note(), Some(n.to_string()));
    assert_eq!(c.total_count(), 1);
    assert_eq!(note_sample(Note { octave: Octave::Small, pitch: Pitch::Bflat }), "Bb3");
    assert_eq!(tonal_center_sample(Tonality(Pitch::C)), "IIVVIPAC - Cmaj");
}

#[test]
fn saved_state_loads_back() {
    let mut c = started(Pitch::Eflat);
    for _ in 0..3 {
        c.play_next_note();
        let name = asked(&c).pitch.to_string();
        c.check_answers(&[name.as_str()]);
    }
    c.play_next_note();
    let row = stored(&c, 5);
    assert_eq!(row.tonality, "Ebmaj");
    assert_eq!(row.exercise, 1);
    let mut fresh = Controller::new(Config::new());
    let back = fresh.load_game(Some(row)).unwrap().unwrap();
    assert_eq!(back.id, 5);
    let a = c.state.as_ref().unwrap();
    let b = fresh.state.as_ref().unwrap();
    assert_eq!(a.tonality, b.tonality);
    assert_eq!(a.exercise.num, b.exercise.num);
    assert_eq!(a.note, b.note);
    assert_eq!(a.notes, b.notes);
    assert_eq!(b.right_count, 3);
    assert_eq!(b.total_count, 4);
    assert_eq!(b.attempts_left, 0);
}

#[test]
fn load_nothing_keeps_state() {
    let mut c = started(Pitch::C);
    assert!(c.load_game(None).unwrap().is_none());
    assert_eq!(c.state.as_ref().unwrap().notes.len(), 8);
}

#[test]
fn unsound_snapshots_are_refused() {
    let c = started(Pitch::A);
    let good = stored(&c, 1);
    let with = |f: &dyn Fn(&mut GameState)| {
        let mut g = stored(&c, 1);
        f(&mut g);
        let mut fresh = Controller::new(Config::new());
        let r = fresh.load_game(Some(g));
        (r.is_err(), fresh.state.is_none())
    };
    assert_eq!(good.note, "");
    assert_eq!(with(&|g| g.tonality = "Cbmaj".to_string()), (true, true));
    assert_eq!(with(&|g| g.tonality = "A".to_string()), (true, true));
    assert_eq!(with(&|g| g.exercise = 8), (true, true));
    assert_eq!(with(&|g| g.exercise = -1), (true, true));
    assert_eq!(with(&|g| g.note = "H4".to_string()), (true, true));
    assert_eq!(with(&|g| g.note = "C7".to_string()), (true, true));
    assert_eq!(with(&|g| g.notes = "A4,A4".to_string()), (true, true));
    assert_eq!(with(&|g| g.notes = "A4,,B4".to_string()), (true, true));
    assert_eq!(with(&|g| g.right_count = 256), (true, true));
    assert_eq!(with(&|g| g.total_count = -3), (true, true));
    assert_eq!(with(&|_| {}), (false, false));
}

#[test]
fn pool_text_round_trip() {
    let notes = vec![
        Note { octave: Octave::First, pitch: Pitch::C },
        Note { octave: Octave::Second, pitch: Pitch::Fsharp },
        Note { octave: Octave::Great, pitch: Pitch::Bflat },
    ];
    let text = join_notes(&notes);
    assert_eq!(text, "C4,F#5,Bb2");
    assert_eq!(parse_notes(&text), Ok(notes));
    assert_eq!(join_notes(&vec![]), "");
    assert_eq!(parse_notes(""), Ok(vec![]));
    assert_eq!(parse_notes("C4,"), Err(ParseError));
    assert_eq!(parse_notes(",C4"), Err(ParseError));
}
