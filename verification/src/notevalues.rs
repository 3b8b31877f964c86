//! The twelve chromatic note names.

use vstd::prelude::*;

verus! {

#[derive(Debug, PartialEq, Eq, Copy, Clone, Structural)]
pub enum NoteValues {
    C,
    CSharp,
    D,
    DSharp,
    E,
    F,
    FSharp,
    G,
    GSharp,
    A,
    ASharp,
    B,
}

/// The note a one-letter name denotes, either case.
pub open spec fn parse_letter(c: char) -> Option<NoteValues> {
    if c == 'c' || c == 'C' {
        Some(NoteValues::C)
    } else if c == 'd' || c == 'D' {
        Some(NoteValues::D)
    } else if c == 'e' || c == 'E' {
        Some(NoteValues::E)
    } else if c == 'f' || c == 'F' {
        Some(NoteValues::F)
    } else if c == 'g' || c == 'G' {
        Some(NoteValues::G)
    } else if c == 'a' || c == 'A' {
        Some(NoteValues::A)
    } else if c == 'b' || c == 'B' {
        Some(NoteValues::B)
    } else {
        None
    }
}

/// The note a letter-plus-sharp name denotes; `e#` wraps to F and
/// `b#` to C.
pub open spec fn parse_sharp(c: char) -> Option<NoteValues> {
    match parse_letter(c) {
        Some(NoteValues::C) => Some(NoteValues::CSharp),
        Some(NoteValues::D) => Some(NoteValues::DSharp),
        Some(NoteValues::E) => Some(NoteValues::F),
        Some(NoteValues::F) => Some(NoteValues::FSharp),
        Some(NoteValues::G) => Some(NoteValues::GSharp),
        Some(NoteValues::A) => Some(NoteValues::ASharp),
        Some(NoteValues::B) => Some(NoteValues::C),
        _ => None,
    }
}

/// The note a letter-plus-flat name denotes; `cb` wraps to B and `fb`
/// to E.
pub open spec fn parse_flat(c: char) -> Option<NoteValues> {
    match parse_letter(c) {
        Some(NoteValues::C) => Some(NoteValues::B),
        Some(NoteValues::D) => Some(NoteValues::CSharp),
        Some(NoteValues::E) => Some(NoteValues::DSharp),
        Some(NoteValues::F) => Some(NoteValues::E),
        Some(NoteValues::G) => Some(NoteValues::FSharp),
        Some(NoteValues::A) => Some(NoteValues::GSharp),
        Some(NoteValues::B) => Some(NoteValues::ASharp),
        _ => None,
    }
}

/// The note a name denotes: a letter, optionally followed by a sharp
/// sign or a flat letter, in either case.
pub open spec fn parse_note(s: Seq<char>) -> Option<NoteValues> {
    if s.len() == 1 {
        parse_letter(s[0])
    } else if s.len() == 2 {
        if s[1] == '#' {
            parse_sharp(s[0])
        } else if s[1] == 'b' || s[1] == 'B' {
            parse_flat(s[0])
        } else {
            None
        }
    } else {
        None
    }
}

impl NoteValues {
    /// Position in the chromatic scale, C first.
    pub open spec fn spec_ord(self) -> int {
        match self {
            NoteValues::C => 0,
            NoteValues::CSharp => 1,
            NoteValues::D => 2,
            NoteValues::DSharp => 3,
            NoteValues::E => 4,
            NoteValues::F => 5,
            NoteValues::FSharp => 6,
            NoteValues::G => 7,
            NoteValues::GSharp => 8,
            NoteValues::A => 9,
            NoteValues::ASharp => 10,
            NoteValues::B => 11,
        }
    }

    /// This note's name.
    pub open spec fn spec_str(self) -> Seq<char> {
        match self {
            NoteValues::C => "C"@,
            NoteValues::CSharp => "C#"@,
            NoteValues::D => "D"@,
            NoteValues::DSharp => "D#"@,
            NoteValues::E => "E"@,
            NoteValues::F => "F"@,
            NoteValues::FSharp => "F#"@,
            NoteValues::G => "G"@,
            NoteValues::GSharp => "G#"@,
            NoteValues::A => "A"@,
            NoteValues::ASharp => "A#"@,
            NoteValues::B => "B"@,
        }
    }

    /// Parse a note name, case-insensitively.  Exactly the names the
    /// parsing functions accept yield a note; everything else is an
    /// error.
    pub fn from_str(s: &str) -> (r: Result<Self, &'static str>)
        ensures
            parse_note(s@) is Some ==> r == Ok::<Self, &'static str>(parse_note(s@)->0),
            parse_note(s@) is None ==> r is Err,
    {
        let n = s.unicode_len();
        if n == 1 {
            let c = s.get_char(0);
            match Self::letter_of(c) {
                Some(v) => Ok(v),
                None => Err("Invalid Note Name"),
            }
        } else if n == 2 {
            let c0 = s.get_char(0);
            let c1 = s.get_char(1);
            if c1 == '#' {
                match Self::letter_of(c0) {
                    Some(NoteValues::C) => Ok(NoteValues::CSharp),
                    Some(NoteValues::D) => Ok(NoteValues::DSharp),
                    Some(NoteValues::E) => Ok(NoteValues::F),
                    Some(NoteValues::F) => Ok(NoteValues::FSharp),
                    Some(NoteValues::G) => Ok(NoteValues::GSharp),
                    Some(NoteValues::A) => Ok(NoteValues::ASharp),
                    Some(NoteValues::B) => Ok(NoteValues::C),
                    _ => Err("Invalid Note Name"),
                }
            } else if c1 == 'b' || c1 == 'B' {
                match Self::letter_of(c0) {
                    Some(NoteValues::C) => Ok(NoteValues::B),
                    Some(NoteValues::D) => Ok(NoteValues::CSharp),
                    Some(NoteValues::E) => Ok(NoteValues::DSharp),
                    Some(NoteValues::F) => Ok(NoteValues::E),
                    Some(NoteValues::G) => Ok(NoteValues::FSharp),
                    Some(NoteValues::A) => Ok(NoteValues::GSharp),
                    Some(NoteValues::B) => Ok(NoteValues::ASharp),
                    _ => Err("Invalid Note Name"),
                }
            } else {
                Err("Invalid Note Name")
            }
        } else {
            Err("Invalid Note Name")
        }
    }

    /// The note a one-letter name denotes.
    fn letter_of(c: char) -> (r: Option<Self>)
        ensures
            r == parse_letter(c),
    {
        if c == 'c' || c == 'C' {
            Some(NoteValues::C)
        } else if c == 'd' || c == 'D' {
            Some(NoteValues::D)
        } else if c == 'e' || c == 'E' {
            Some(NoteValues::E)
        } else if c == 'f' || c == 'F' {
            Some(NoteValues::F)
        } else if c == 'g' || c == 'G' {
            Some(NoteValues::G)
        } else if c == 'a' || c == 'A' {
            Some(NoteValues::A)
        } else if c == 'b' || c == 'B' {
            Some(NoteValues::B)
        } else {
            None
        }
    }

    pub fn to_str(&self) -> (r: &'static str)
        ensures
            r@ == self.spec_str(),
    {
        match self {
            NoteValues::C => "C",
            NoteValues::CSharp => "C#",
            NoteValues::D => "D",
            NoteValues::DSharp => "D#",
            NoteValues::E => "E",
            NoteValues::F => "F",
            NoteValues::FSharp => "F#",
            NoteValues::G => "G",
            NoteValues::GSharp => "G#",
            NoteValues::A => "A",
            NoteValues::ASharp => "A#",
            NoteValues::B => "B",
        }
    }

    /// The next note upward, wrapping from B to C.
    pub fn next(&self) -> (r: Self)
        ensures
            r.spec_ord() == (self.spec_ord() + 1) % 12,
    {
        match self {
            NoteValues::C => NoteValues::CSharp,
            NoteValues::CSharp => NoteValues::D,
            NoteValues::D => NoteValues::DSharp,
            NoteValues::DSharp => NoteValues::E,
            NoteValues::E => NoteValues::F,
            NoteValues::F => NoteValues::FSharp,
            NoteValues::FSharp => NoteValues::G,
            NoteValues::G => NoteValues::GSharp,
            NoteValues::GSharp => NoteValues::A,
            NoteValues::A => NoteValues::ASharp,
            NoteValues::ASharp => NoteValues::B,
            NoteValues::B => NoteValues::C,
        }
    }

    /// The next note downward, wrapping from C to B.
    pub fn prev(&self) -> (r: Self)
        ensures
            r.spec_ord() == (self.spec_ord() + 11) % 12,
    {
        match self {
            NoteValues::C => NoteValues::B,
            NoteValues::CSharp => NoteValues::C,
            NoteValues::D => NoteValues::CSharp,
            NoteValues::DSharp => NoteValues::D,
            NoteValues::E => NoteValues::DSharp,
            NoteValues::F => NoteValues::E,
            NoteValues::FSharp => NoteValues::F,
            NoteValues::G => NoteValues::FSharp,
            NoteValues::GSharp => NoteValues::G,
            NoteValues::A => NoteValues::GSharp,
            NoteValues::ASharp => NoteValues::A,
            NoteValues::B => NoteValues::ASharp,
        }
    }
}

} // verus!
