//! Pitches, octaves, notes and tonalities, with their text forms.

use vstd::prelude::*;

verus! {

/// A string that names no pitch, note or tonality.
#[derive(Clone, Copy, Debug, PartialEq, Eq, Structural)]
pub struct ParseError;

/// The twenty-one spellings: seven letters, each flat, natural or sharp.
/// Declaration order gives the ordering used to sort notes.
#[derive(Clone, Copy, Debug, PartialEq, Eq, Structural, PartialOrd, Ord, Hash)]
pub enum Pitch {
    Cflat,
    C,
    Csharp,
    Dflat,
    D,
    Dsharp,
    Eflat,
    E,
    Esharp,
    Fflat,
    F,
    Fsharp,
    Gflat,
    G,
    Gsharp,
    Aflat,
    A,
    Asharp,
    Bflat,
    B,
    Bsharp,
}

/// Text of a pitch: its letter, then `b` for a flat or `#` for a sharp.
pub open spec fn pitch_text(p: Pitch) -> Seq<char> {
    match p {
        Pitch::Cflat => seq!['C', 'b'],
        Pitch::C => seq!['C'],
        Pitch::Csharp => seq!['C', '#'],
        Pitch::Dflat => seq!['D', 'b'],
        Pitch::D => seq!['D'],
        Pitch::Dsharp => seq!['D', '#'],
        Pitch::Eflat => seq!['E', 'b'],
        Pitch::E => seq!['E'],
        Pitch::Esharp => seq!['E', '#'],
        Pitch::Fflat => seq!['F', 'b'],
        Pitch::F => seq!['F'],
        Pitch::Fsharp => seq!['F', '#'],
        Pitch::Gflat => seq!['G', 'b'],
        Pitch::G => seq!['G'],
        Pitch::Gsharp => seq!['G', '#'],
        Pitch::Aflat => seq!['A', 'b'],
        Pitch::A => seq!['A'],
        Pitch::Asharp => seq!['A', '#'],
        Pitch::Bflat => seq!['B', 'b'],
        Pitch::B => seq!['B'],
        Pitch::Bsharp => seq!['B', '#'],
    }
}

/// The natural pitch that a letter names.
pub open spec fn natural_of(c: char) -> Option<Pitch> {
    if c == 'C' {
        Some(Pitch::C)
    } else if c == 'D' {
        Some(Pitch::D)
    } else if c == 'E' {
        Some(Pitch::E)
    } else if c == 'F' {
        Some(Pitch::F)
    } else if c == 'G' {
        Some(Pitch::G)
    } else if c == 'A' {
        Some(Pitch::A)
    } else if c == 'B' {
        Some(Pitch::B)
    } else {
        None
    }
}

/// The sharp pitch on a letter.
pub open spec fn sharp_of(c: char) -> Option<Pitch> {
    if c == 'C' {
        Some(Pitch::Csharp)
    } else if c == 'D' {
        Some(Pitch::Dsharp)
    } else if c == 'E' {
        Some(Pitch::Esharp)
    } else if c == 'F' {
        Some(Pitch::Fsharp)
    } else if c == 'G' {
        Some(Pitch::Gsharp)
    } else if c == 'A' {
        Some(Pitch::Asharp)
    } else if c == 'B' {
        Some(Pitch::Bsharp)
    } else {
        None
    }
}

/// The flat pitch on a letter.
pub open spec fn flat_of(c: char) -> Option<Pitch> {
    if c == 'C' {
        Some(Pitch::Cflat)
    } else if c == 'D' {
        Some(Pitch::Dflat)
    } else if c == 'E' {
        Some(Pitch::Eflat)
    } else if c == 'F' {
        Some(Pitch::Fflat)
    } else if c == 'G' {
        Some(Pitch::Gflat)
    } else if c == 'A' {
        Some(Pitch::Aflat)
    } else if c == 'B' {
        Some(Pitch::Bflat)
    } else {
        None
    }
}

/// The pitch that a text names, if any: a letter alone, or a letter and
/// one of `#` and `b`.
pub open spec fn pitch_from_text(s: Seq<char>) -> Option<Pitch> {
    if s.len() == 1 {
        natural_of(s[0])
    } else if s.len() == 2 && s[1] == '#' {
        sharp_of(s[0])
    } else if s.len() == 2 && s[1] == 'b' {
        flat_of(s[0])
    } else {
        None
    }
}

/// Reading back the text of a pitch gives that pitch.
pub proof fn pitch_text_round_trip(p: Pitch)
    ensures
        pitch_from_text(pitch_text(p)) == Some(p),
{
}

fn natural_from_letter(c: char) -> (r: Option<Pitch>)
    ensures
        r == natural_of(c),
{
    match c {
        'C' => Some(Pitch::C),
        'D' => Some(Pitch::D),
        'E' => Some(Pitch::E),
        'F' => Some(Pitch::F),
        'G' => Some(Pitch::G),
        'A' => Some(Pitch::A),
        'B' => Some(Pitch::B),
        _ => None,
    }
}

fn sharp_from_letter(c: char) -> (r: Option<Pitch>)
    ensures
        r == sharp_of(c),
{
    match c {
        'C' => Some(Pitch::Csharp),
        'D' => Some(Pitch::Dsharp),
        'E' => Some(Pitch::Esharp),
        'F' => Some(Pitch::Fsharp),
        'G' => Some(Pitch::Gsharp),
        'A' => Some(Pitch::Asharp),
        'B' => Some(Pitch::Bsharp),
        _ => None,
    }
}

fn flat_from_letter(c: char) -> (r: Option<Pitch>)
    ensures
        r == flat_of(c),
{
    match c {
        'C' => Some(Pitch::Cflat),
        'D' => Some(Pitch::Dflat),
        'E' => Some(Pitch::Eflat),
        'F' => Some(Pitch::Fflat),
        'G' => Some(Pitch::Gflat),
        'A' => Some(Pitch::Aflat),
        'B' => Some(Pitch::Bflat),
        _ => None,
    }
}

impl Pitch {
    /// The text of this pitch, as a static string.
    pub fn as_str(&self) -> (r: &'static str)
        ensures
            r@ == pitch_text(*self),
    {
        match self {
            Pitch::Cflat => { proof { reveal_strlit("Cb"); } "Cb" },
            Pitch::C => { proof { reveal_strlit("C"); } "C" },
            Pitch::Csharp => { proof { reveal_strlit("C#"); } "C#" },
            Pitch::Dflat => { proof { reveal_strlit("Db"); } "Db" },
            Pitch::D => { proof { reveal_strlit("D"); } "D" },
            Pitch::Dsharp => { proof { reveal_strlit("D#"); } "D#" },
            Pitch::Eflat => { proof { reveal_strlit("Eb"); } "Eb" },
            Pitch::E => { proof { reveal_strlit("E"); } "E" },
            Pitch::Esharp => { proof { reveal_strlit("E#"); } "E#" },
            Pitch::Fflat => { proof { reveal_strlit("Fb"); } "Fb" },
            Pitch::F => { proof { reveal_strlit("F"); } "F" },
            Pitch::Fsharp => { proof { reveal_strlit("F#"); } "F#" },
            Pitch::Gflat => { proof { reveal_strlit("Gb"); } "Gb" },
            Pitch::G => { proof { reveal_strlit("G"); } "G" },
            Pitch::Gsharp => { proof { reveal_strlit("G#"); } "G#" },
            Pitch::Aflat => { proof { reveal_strlit("Ab"); } "Ab" },
            Pitch::A => { proof { reveal_strlit("A"); } "A" },
            Pitch::Asharp => { proof { reveal_strlit("A#"); } "A#" },
            Pitch::Bflat => { proof { reveal_strlit("Bb"); } "Bb" },
            Pitch::B => { proof { reveal_strlit("B"); } "B" },
            Pitch::Bsharp => { proof { reveal_strlit("B#"); } "B#" },
        }
    }

    /// The text of this pitch (`C`, `C#`, `Db`, ...).
    pub fn to_string(&self) -> (r: String)
        ensures
            r@ == pitch_text(*self),
    {
        String::from_str(self.as_str())
    }

    /// Reads a pitch from its text; any other text is refused.
    pub fn parse(s: &str) -> (r: Result<Pitch, ParseError>)
        ensures
            r == pitch_from_text(s@).ok_or(ParseError),
    {
        let n = s.unicode_len();
        let found = if n == 1 {
            natural_from_letter(s.get_char(0))
        } else if n == 2 {
            let sign = s.get_char(1);
            if sign == '#' {
                sharp_from_letter(s.get_char(0))
            } else if sign == 'b' {
                flat_from_letter(s.get_char(0))
            } else {
                None
            }
        } else {
            None
        };
        match found {
            Some(p) => Ok(p),
            None => Err(ParseError),
        }
    }
}

/// The octaves in play, from low to high; each one's number is the digit
/// that ends a note's text.
#[derive(Clone, Copy, Debug, PartialEq, Eq, Structural, PartialOrd, Ord, Hash)]
pub enum Octave {
    Great,
    Small,
    First,
    Second,
    Third,
    Fourth,
}

/// The number of an octave, as in scientific pitch notation.
pub open spec fn octave_number(o: Octave) -> nat {
    match o {
        Octave::Great => 2,
        Octave::Small => 3,
        Octave::First => 4,
        Octave::Second => 5,
        Octave::Third => 6,
        Octave::Fourth => 7,
    }
}

/// The digit that writes an octave's number.
pub open spec fn octave_digit(o: Octave) -> char {
    match o {
        Octave::Great => '2',
        Octave::Small => '3',
        Octave::First => '4',
        Octave::Second => '5',
        Octave::Third => '6',
        Octave::Fourth => '7',
    }
}

/// The octave that a digit names.
pub open spec fn octave_from_digit(c: char) -> Option<Octave> {
    if c == '2' {
        Some(Octave::Great)
    } else if c == '3' {
        Some(Octave::Small)
    } else if c == '4' {
        Some(Octave::First)
    } else if c == '5' {
        Some(Octave::Second)
    } else if c == '6' {
        Some(Octave::Third)
    } else if c == '7' {
        Some(Octave::Fourth)
    } else {
        None
    }
}

/// The octave just above, if there is one.
pub open spec fn octave_above(o: Octave) -> Option<Octave> {
    match o {
        Octave::Great => Some(Octave::Small),
        Octave::Small => Some(Octave::First),
        Octave::First => Some(Octave::Second),
        Octave::Second => Some(Octave::Third),
        Octave::Third => Some(Octave::Fourth),
        Octave::Fourth => None,
    }
}

impl Octave {
    /// The octave just above this one, or none above the highest.
    pub fn next(&self) -> (r: Option<Octave>)
        ensures
            r == octave_above(*self),
            r matches Some(o) ==> octave_number(o) == octave_number(*self) + 1,
            r is None <==> octave_number(*self) == 7,
    {
        match *self {
            Octave::Great => Some(Octave::Small),
            Octave::Small => Some(Octave::First),
            Octave::First => Some(Octave::Second),
            Octave::Second => Some(Octave::Third),
            Octave::Third => Some(Octave::Fourth),
            Octave::Fourth => None,
        }
    }

    /// The number of this octave (2 for the great octave, up to 7).
    pub fn number(&self) -> (r: u8)
        ensures
            r as nat == octave_number(*self),
    {
        match *self {
            Octave::Great => 2,
            Octave::Small => 3,
            Octave::First => 4,
            Octave::Second => 5,
            Octave::Third => 6,
            Octave::Fourth => 7,
        }
    }

    /// The digit of this octave, as a static string.
    pub fn as_str(&self) -> (r: &'static str)
        ensures
            r@ == seq![octave_digit(*self)],
    {
        match *self {
            Octave::Great => { proof { reveal_strlit("2"); } "2" },
            Octave::Small => { proof { reveal_strlit("3"); } "3" },
            Octave::First => { proof { reveal_strlit("4"); } "4" },
            Octave::Second => { proof { reveal_strlit("5"); } "5" },
            Octave::Third => { proof { reveal_strlit("6"); } "6" },
            Octave::Fourth => { proof { reveal_strlit("7"); } "7" },
        }
    }

    /// The octave that a digit names.
    pub fn from_digit(c: char) -> (r: Option<Octave>)
        ensures
            r == octave_from_digit(c),
    {
        match c {
            '2' => Some(Octave::Great),
            '3' => Some(Octave::Small),
            '4' => Some(Octave::First),
            '5' => Some(Octave::Second),
            '6' => Some(Octave::Third),
            '7' => Some(Octave::Fourth),
            _ => None,
        }
    }

    /// Reads an octave from its one-digit text.
    pub fn parse(s: &str) -> (r: Result<Octave, ParseError>)
        ensures
            r == (if s@.len() == 1 { octave_from_digit(s@[0]) } else { None }).ok_or(ParseError),
    {
        if s.unicode_len() == 1 {
            match Octave::from_digit(s.get_char(0)) {
                Some(o) => Ok(o),
                None => Err(ParseError),
            }
        } else {
            Err(ParseError)
        }
    }
}

/// A pitch in a given octave. Notes order by octave, then by pitch.
#[derive(Clone, Copy, Debug, PartialEq, Eq, Structural, PartialOrd, Ord, Hash)]
pub struct Note {
    pub octave: Octave,
    pub pitch: Pitch,
}

/// Text of a note: its pitch, then its octave's digit (`F#4`).
pub open spec fn note_text(n: Note) -> Seq<char> {
    pitch_text(n.pitch).push(octave_digit(n.octave))
}

/// The note that a text names: a final octave digit after a pitch.
pub open spec fn note_from_text(s: Seq<char>) -> Option<Note> {
    if s.len() >= 1 {
        match (octave_from_digit(s.last()), pitch_from_text(s.drop_last())) {
            (Some(octave), Some(pitch)) => Some(Note { octave, pitch }),
            _ => None,
        }
    } else {
        None
    }
}

/// Reading back the text of a note gives that note.
pub proof fn note_text_round_trip(n: Note)
    ensures
        note_from_text(note_text(n)) == Some(n),
{
    let s = note_text(n);
    assert(s.drop_last() =~= pitch_text(n.pitch));
    pitch_text_round_trip(n.pitch);
}

impl Note {
    /// The text of this note (`C4`, `F#4`).
    pub fn to_string(&self) -> (r: String)
        ensures
            r@ == note_text(*self),
    {
        let mut s = String::from_str(self.pitch.as_str());
        s.append(self.octave.as_str());
        proof {
            assert(s@ =~= note_text(*self));
        }
        s
    }

    /// Reads a note from its text; any other text is refused.
    pub fn parse(s: &str) -> (r: Result<Note, ParseError>)
        ensures
            r == note_from_text(s@).ok_or(ParseError),
    {
        let n = s.unicode_len();
        if n == 0 {
            return Err(ParseError);
        }
        let octave = Octave::from_digit(s.get_char(n - 1));
        let pitch = Pitch::parse(s.substring_char(0, n - 1));
        proof {
            assert(s@.subrange(0, n - 1) =~= s@.drop_last());
        }
        match (octave, pitch) {
            (Some(octave), Ok(pitch)) => Ok(Note { octave, pitch }),
            _ => Err(ParseError),
        }
    }
}

impl std::str::FromStr for Note {
    type Err = ParseError;

    fn from_str(s: &str) -> Result<Note, ParseError> {
        Note::parse(s)
    }
}

impl std::str::FromStr for Pitch {
    type Err = ParseError;

    fn from_str(s: &str) -> Result<Pitch, ParseError> {
        Pitch::parse(s)
    }
}

/// A major key, named by its root.
#[derive(Clone, Copy, Debug, PartialEq, Eq, Structural)]
pub struct Tonality(pub Pitch);

/// The suffix that marks a major key.
pub open spec fn major_suffix() -> Seq<char> {
    seq!['m', 'a', 'j']
}

/// Text of a tonality: its root's text, then `maj` (`C#maj`).
pub open spec fn tonality_text(t: Tonality) -> Seq<char> {
    pitch_text(t.0) + major_suffix()
}

/// The tonality that a text names: a pitch followed by `maj`.
pub open spec fn tonality_from_text(s: Seq<char>) -> Option<Tonality> {
    if s.len() >= 3 && s.subrange(s.len() - 3, s.len() as int) == major_suffix() {
        match pitch_from_text(s.subrange(0, s.len() - 3)) {
            Some(p) => Some(Tonality(p)),
            None => None,
        }
    } else {
        None
    }
}

/// Reading back the text of a tonality gives that tonality.
pub proof fn tonality_text_round_trip(t: Tonality)
    ensures
        tonality_from_text(tonality_text(t)) == Some(t),
{
    let s = tonality_text(t);
    let n = s.len();
    assert(s.subrange(n - 3, n as int) =~= major_suffix());
    assert(s.subrange(0, n - 3) =~= pitch_text(t.0));
    pitch_text_round_trip(t.0);
}

impl Tonality {
    /// The text of this tonality (`Cmaj`, `F#maj`).
    pub fn to_string(&self) -> (r: String)
        ensures
            r@ == tonality_text(*self),
    {
        let mut s = String::from_str(self.0.as_str());
        proof {
            reveal_strlit("maj");
        }
        s.append("maj");
        s
    }

    /// Reads a tonality from its text; any other text is refused.
    pub fn parse(s: &str) -> (r: Result<Tonality, ParseError>)
        ensures
            r == tonality_from_text(s@).ok_or(ParseError),
    {
        let n = s.unicode_len();
        if n < 3 {
            return Err(ParseError);
        }
        let suffix = s.substring_char(n - 3, n);
        if !(suffix.unicode_len() == 3 && suffix.get_char(0) == 'm' && suffix.get_char(1) == 'a'
            && suffix.get_char(2) == 'j') {
            proof {
                if s@.subrange(n - 3, n as int) == major_suffix() {
                    assert(suffix@[0] == 'm' && suffix@[1] == 'a' && suffix@[2] == 'j');
                }
            }
            return Err(ParseError);
        }
        proof {
            assert(suffix@ =~= major_suffix());
        }
        match Pitch::parse(s.substring_char(0, n - 3)) {
            Ok(p) => Ok(Tonality(p)),
            Err(e) => Err(e),
        }
    }
}

impl std::str::FromStr for Tonality {
    type Err = ParseError;

    fn from_str(s: &str) -> Result<Tonality, ParseError> {
        Tonality::parse(s)
    }
}

/// The major scale of a key: its seven degrees in ascending order.
pub struct Gamut {
    pub key: Pitch,
    pub scale: [Pitch; 7],
}

/// The scale of each key that a session can use, and none for the others.
/// The row of F sharp keeps F natural as its seventh degree.
pub open spec fn scale_of(key: Pitch) -> Option<Seq<Pitch>> {
    match key {
        Pitch::C => Some(seq![
            Pitch::C, Pitch::D, Pitch::E, Pitch::F, Pitch::G, Pitch::A, Pitch::B,
        ]),
        Pitch::G => Some(seq![
            Pitch::G, Pitch::A, Pitch::B, Pitch::C, Pitch::D, Pitch::E, Pitch::Fsharp,
        ]),
        Pitch::D => Some(seq![
            Pitch::D, Pitch::E, Pitch::Fsharp, Pitch::G, Pitch::A, Pitch::B, Pitch::Csharp,
        ]),
        Pitch::A => Some(seq![
            Pitch::A, Pitch::B, Pitch::Csharp, Pitch::D, Pitch::E, Pitch::Fsharp, Pitch::Gsharp,
        ]),
        Pitch::E => Some(seq![
            Pitch::E, Pitch::Fsharp, Pitch::Gsharp, Pitch::A, Pitch::B, Pitch::Csharp,
            Pitch::Dsharp,
        ]),
        Pitch::B => Some(seq![
            Pitch::B, Pitch::Csharp, Pitch::Dsharp, Pitch::E, Pitch::Fsharp, Pitch::Gsharp,
            Pitch::Asharp,
        ]),
        Pitch::F => Some(seq![
            Pitch::F, Pitch::G, Pitch::A, Pitch::Bflat, Pitch::C, Pitch::D, Pitch::E,
        ]),
        Pitch::Bflat => Some(seq![
            Pitch::Bflat, Pitch::C, Pitch::D, Pitch::Eflat, Pitch::F, Pitch::G, Pitch::A,
        ]),
        Pitch::Eflat => Some(seq![
            Pitch::Eflat, Pitch::F, Pitch::G, Pitch::Aflat, Pitch::Bflat, Pitch::C, Pitch::D,
        ]),
        Pitch::Aflat => Some(seq![
            Pitch::Aflat, Pitch::Bflat, Pitch::C, Pitch::Dflat, Pitch::Eflat, Pitch::F, Pitch::G,
        ]),
        Pitch::Dflat => Some(seq![
            Pitch::Dflat, Pitch::Eflat, Pitch::F, Pitch::Gflat, Pitch::Aflat, Pitch::Bflat,
            Pitch::C,
        ]),
        Pitch::Fsharp => Some(seq![
            Pitch::Fsharp, Pitch::Gsharp, Pitch::Asharp, Pitch::B, Pitch::Csharp, Pitch::Dsharp,
            Pitch::F,
        ]),
        _ => None,
    }
}

/// Whether a key has a scale, and so can be the tonality of a session.
pub open spec fn has_gamut(key: Pitch) -> bool {
    scale_of(key) is Some
}

/// The keys offered to the learner, sharp keys first, then flat keys.
pub open spec fn tonality_list() -> Seq<Tonality> {
    seq![
        Tonality(Pitch::C), Tonality(Pitch::G), Tonality(Pitch::D), Tonality(Pitch::A),
        Tonality(Pitch::E), Tonality(Pitch::B), Tonality(Pitch::F), Tonality(Pitch::Bflat),
        Tonality(Pitch::Eflat), Tonality(Pitch::Aflat), Tonality(Pitch::Dflat),
        Tonality(Pitch::Fsharp),
    ]
}

/// The gamut of a key, or none where the key has no scale.
pub fn gamut_for(key: Pitch) -> (r: Option<Gamut>)
    ensures
        match r {
            Some(g) => g.key == key && scale_of(key) == Some(g.scale@),
            None => scale_of(key) is None,
        },
{
    let scale: [Pitch; 7] = match key {
        Pitch::C => [
            Pitch::C, Pitch::D, Pitch::E, Pitch::F, Pitch::G, Pitch::A, Pitch::B,
        ],
        Pitch::G => [
            Pitch::G, Pitch::A, Pitch::B, Pitch::C, Pitch::D, Pitch::E, Pitch::Fsharp,
        ],
        Pitch::D => [
            Pitch::D, Pitch::E, Pitch::Fsharp, Pitch::G, Pitch::A, Pitch::B, Pitch::Csharp,
        ],
        Pitch::A => [
            Pitch::A, Pitch::B, Pitch::Csharp, Pitch::D, Pitch::E, Pitch::Fsharp, Pitch::Gsharp,
        ],
        Pitch::E => [
            Pitch::E, Pitch::Fsharp, Pitch::Gsharp, Pitch::A, Pitch::B, Pitch::Csharp,
            Pitch::Dsharp,
        ],
        Pitch::B => [
            Pitch::B, Pitch::Csharp, Pitch::Dsharp, Pitch::E, Pitch::Fsharp, Pitch::Gsharp,
            Pitch::Asharp,
        ],
        Pitch::F => [
            Pitch::F, Pitch::G, Pitch::A, Pitch::Bflat, Pitch::C, Pitch::D, Pitch::E,
        ],
        Pitch::Bflat => [
            Pitch::Bflat, Pitch::C, Pitch::D, Pitch::Eflat, Pitch::F, Pitch::G, Pitch::A,
        ],
        Pitch::Eflat => [
            Pitch::Eflat, Pitch::F, Pitch::G, Pitch::Aflat, Pitch::Bflat, Pitch::C, Pitch::D,
        ],
        Pitch::Aflat => [
            Pitch::Aflat, Pitch::Bflat, Pitch::C, Pitch::Dflat, Pitch::Eflat, Pitch::F, Pitch::G,
        ],
        Pitch::Dflat => [
            Pitch::Dflat, Pitch::Eflat, Pitch::F, Pitch::Gflat, Pitch::Aflat, Pitch::Bflat,
            Pitch::C,
        ],
        Pitch::Fsharp => [
            Pitch::Fsharp, Pitch::Gsharp, Pitch::Asharp, Pitch::B, Pitch::Csharp, Pitch::Dsharp,
            Pitch::F,
        ],
        _ => {
            return None;
        },
    };
    proof {
        assert(scale@ =~= scale_of(key).unwrap());
    }
    Some(Gamut { key, scale })
}

/// The tonalities that a session can be played in; each has a gamut.
pub fn tonalities() -> (r: Vec<Tonality>)
    ensures
        r@ == tonality_list(),
        forall|i: int| 0 <= i < r@.len() ==> has_gamut(#[trigger] r@[i].0),
{
    let mut v: Vec<Tonality> = Vec::new();
    v.push(Tonality(Pitch::C));
    v.push(Tonality(Pitch::G));
    v.push(Tonality(Pitch::D));
    v.push(Tonality(Pitch::A));
    v.push(Tonality(Pitch::E));
    v.push(Tonality(Pitch::B));
    v.push(Tonality(Pitch::F));
    v.push(Tonality(Pitch::Bflat));
    v.push(Tonality(Pitch::Eflat));
    v.push(Tonality(Pitch::Aflat));
    v.push(Tonality(Pitch::Dflat));
    v.push(Tonality(Pitch::Fsharp));
    proof {
        assert(v@ =~= tonality_list());
    }
    v
}

} // verus!
