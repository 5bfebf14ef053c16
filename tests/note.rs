use timbre::note::{Note, Octave, ParseError, Pitch, Tonality, gamut_for, tonalities};

#[test]
fn note_display() {
    let c_4 = Note {
        octave: Octave::First,
        pitch: Pitch::C,
    };
    let csharp_4 = Note {
        octave: Octave::First,
        pitch: Pitch::Csharp,
    };

    assert_eq!(c_4.to_string(), "C4");
    assert_eq!(csharp_4.to_string(), "C#4");
}

#[test]
fn pitch_display() {
    assert_eq!(Pitch::C.to_string(), "C");
    assert_eq!(Pitch::Cflat.to_string(), "Cb");
    assert_eq!(Pitch::Csharp.to_string(), "C#");

    assert_eq!(Pitch::D.to_string(), "D");
    assert_eq!(Pitch::Dflat.to_string(), "Db");
    assert_eq!(Pitch::Dsharp.to_string(), "D#");
}

#[test]
fn tonality_display() {
    let all = tonalities();
    let c_ton = all.first().unwrap();
    assert_eq!(c_ton.to_string(), "Cmaj");

    let fsharp_ton = all.last().unwrap();
    assert_eq!(fsharp_ton.to_string(), "F#maj");
}

#[test]
fn parse_note_from_str() {
    let note: Note = "C4".parse().unwrap();
    assert_eq!(
        note,
        Note {
            octave: Octave::First,
            pitch: Pitch::C,
        }
    );

    let note: Note = "F#4".parse().unwrap();
    assert_eq!(
        note,
        Note {
            octave: Octave::First,
            pitch: Pitch::Fsharp,
        }
    );
}

#[test]
fn parse_tonality_from_str() {
    let tonality: Tonality = "Cmaj".parse().unwrap();
    assert_eq!(tonality, Tonality(Pitch::C));

    let tonality: Tonality = "C#maj".parse().unwrap();
    assert_eq!(tonality, Tonality(Pitch::Csharp));
}

const ALL_PITCHES: [Pitch; 21] = [
    Pitch::Cflat, Pitch::C, Pitch::Csharp, Pitch::Dflat, Pitch::D, Pitch::Dsharp, Pitch::Eflat,
    Pitch::E, Pitch::Esharp, Pitch::Fflat, Pitch::F, Pitch::Fsharp, Pitch::Gflat, Pitch::G,
    Pitch::Gsharp, Pitch::Aflat, Pitch::A, Pitch::Asharp, Pitch::Bflat, Pitch::B, Pitch::Bsharp,
];

const ALL_OCTAVES: [Octave; 6] = [
    Octave::Great, Octave::Small, Octave::First, Octave::Second, Octave::Third, Octave::Fourth,
];

#[test]
fn every_text_reads_back() {
    for p in ALL_PITCHES {
        assert_eq!(Pitch::parse(&p.to_string()), Ok(p));
        let t = Tonality(p);
        assert_eq!(Tonality::parse(&t.to_string()), Ok(t));
        for o in ALL_OCTAVES {
            let n = Note { octave: o, pitch: p };
            assert_eq!(Note::parse(&n.to_string()), Ok(n));
        }
    }
}

#[test]
fn malformed_texts_are_refused() {
    assert_eq!(Pitch::parse(""), Err(ParseError));
    assert_eq!(Pitch::parse("H"), Err(ParseError));
    assert_eq!(Pitch::parse("C##"), Err(ParseError));
    assert_eq!(Pitch::parse("Cx"), Err(ParseError));
    assert_eq!(Pitch::parse("c"), Err(ParseError));
    assert_eq!(Note::parse(""), Err(ParseError));
    assert_eq!(Note::parse("C"), Err(ParseError));
    assert_eq!(Note::parse("C8"), Err(ParseError));
    assert_eq!(Note::parse("4"), Err(ParseError));
    assert_eq!(Note::parse("X4"), Err(ParseError));
    assert_eq!(Tonality::parse("maj"), Err(ParseError));
    assert_eq!(Tonality::parse("C"), Err(ParseError));
    assert_eq!(Tonality::parse("Cmin"), Err(ParseError));
    assert_eq!(Tonality::parse("Hmaj"), Err(ParseError));
}

#[test]
fn octave_next_and_number() {
    assert_eq!(Octave::Great.next(), Some(Octave::Small));
    assert_eq!(Octave::Third.next(), Some(Octave::Fourth));
    assert_eq!(Octave::Fourth.next(), None);
    assert_eq!(Octave::Great.number(), 2);
    assert_eq!(Octave::Fourth.number(), 7);
    assert_eq!(Octave::parse("5"), Ok(Octave::Second));
    assert_eq!(Octave::parse("1"), Err(ParseError));
}

#[test]
fn gamut_rows() {
    let g = gamut_for(Pitch::G).unwrap();
    assert_eq!(g.key, Pitch::G);
    assert_eq!(
        g.scale,
        [Pitch::G, Pitch::A, Pitch::B, Pitch::C, Pitch::D, Pitch::E, Pitch::Fsharp]
    );
    let fs = gamut_for(Pitch::Fsharp).unwrap();
    assert_eq!(fs.scale[6], Pitch::F);
    assert!(gamut_for(Pitch::Cflat).is_none());
    assert!(gamut_for(Pitch::Csharp).is_none());
    let all = tonalities();
    assert_eq!(all.len(), 12);
    for t in all {
        assert!(gamut_for(t.0).is_some());
    }
}
