use tuning_drift::notevalues::NoteValues;

#[test]
fn from_str() {
    assert_eq!(NoteValues::from_str(&String::from("Cb")).unwrap(), NoteValues::B);
    assert_eq!(NoteValues::from_str(&String::from("C")).unwrap(), NoteValues::C);
    assert_eq!(NoteValues::from_str(&String::from("C#")).unwrap(), NoteValues::CSharp);
    assert_eq!(NoteValues::from_str(&String::from("Db")).unwrap(), NoteValues::CSharp);
    assert_eq!(NoteValues::from_str(&String::from("D")).unwrap(), NoteValues::D);
    assert_eq!(NoteValues::from_str(&String::from("D#")).unwrap(), NoteValues::DSharp);
    assert_eq!(NoteValues::from_str(&String::from("Eb")).unwrap(), NoteValues::DSharp);
    assert_eq!(NoteValues::from_str(&String::from("E")).unwrap(), NoteValues::E);
    assert_eq!(NoteValues::from_str(&String::from("E#")).unwrap(), NoteValues::F);
    assert_eq!(NoteValues::from_str(&String::from("Fb")).unwrap(), NoteValues::E);
    assert_eq!(NoteValues::from_str(&String::from("F")).unwrap(), NoteValues::F);
    assert_eq!(NoteValues::from_str(&String::from("F#")).unwrap(), NoteValues::FSharp);
    assert_eq!(NoteValues::from_str(&String::from("Gb")).unwrap(), NoteValues::FSharp);
    assert_eq!(NoteValues::from_str(&String::from("G")).unwrap(), NoteValues::G);
    assert_eq!(NoteValues::from_str(&String::from("G#")).unwrap(), NoteValues::GSharp);
    assert_eq!(NoteValues::from_str(&String::from("Ab")).unwrap(), NoteValues::GSharp);
    assert_eq!(NoteValues::from_str(&String::from("A")).unwrap(), NoteValues::A);
    assert_eq!(NoteValues::from_str(&String::from("A#")).unwrap(), NoteValues::ASharp);
    assert_eq!(NoteValues::from_str(&String::from("Bb")).unwrap(), NoteValues::ASharp);
    assert_eq!(NoteValues::from_str(&String::from("B")).unwrap(), NoteValues::B);
    assert_eq!(NoteValues::from_str(&String::from("B#")).unwrap(), NoteValues::C);

    assert_eq!(NoteValues::from_str(&String::from("cb")).unwrap(), NoteValues::B);
    assert_eq!(NoteValues::from_str(&String::from("c")).unwrap(), NoteValues::C);
    assert_eq!(NoteValues::from_str(&String::from("c#")).unwrap(), NoteValues::CSharp);
    assert_eq!(NoteValues::from_str(&String::from("db")).unwrap(), NoteValues::CSharp);
    assert_eq!(NoteValues::from_str(&String::from("d")).unwrap(), NoteValues::D);
    assert_eq!(NoteValues::from_str(&String::from("d#")).unwrap(), NoteValues::DSharp);
    assert_eq!(NoteValues::from_str(&String::from("eb")).unwrap(), NoteValues::DSharp);
    assert_eq!(NoteValues::from_str(&String::from("e")).unwrap(), NoteValues::E);
    assert_eq!(NoteValues::from_str(&String::from("e#")).unwrap(), NoteValues::F);
    assert_eq!(NoteValues::from_str(&String::from("fb")).unwrap(), NoteValues::E);
    assert_eq!(NoteValues::from_str(&String::from("f")).unwrap(), NoteValues::F);
    assert_eq!(NoteValues::from_str(&String::from("f#")).unwrap(), NoteValues::FSharp);
    assert_eq!(NoteValues::from_str(&String::from("gb")).unwrap(), NoteValues::FSharp);
    assert_eq!(NoteValues::from_str(&String::from("g")).unwrap(), NoteValues::G);
    assert_eq!(NoteValues::from_str(&String::from("g#")).unwrap(), NoteValues::GSharp);
    assert_eq!(NoteValues::from_str(&String::from("ab")).unwrap(), NoteValues::GSharp);
    assert_eq!(NoteValues::from_str(&String::from("a")).unwrap(), NoteValues::A);
    assert_eq!(NoteValues::from_str(&String::from("a#")).unwrap(), NoteValues::ASharp);
    assert_eq!(NoteValues::from_str(&String::from("bb")).unwrap(), NoteValues::ASharp);
    assert_eq!(NoteValues::from_str(&String::from("b")).unwrap(), NoteValues::B);
    assert_eq!(NoteValues::from_str(&String::from("b#")).unwrap(), NoteValues::C);
}

#[test]
fn to_str() {
    assert_eq!(NoteValues::C.to_str(), String::from("C"));
    assert_eq!(NoteValues::CSharp.to_str(), String::from("C#"));
    assert_eq!(NoteValues::D.to_str(), String::from("D"));
    assert_eq!(NoteValues::DSharp.to_str(), String::from("D#"));
    assert_eq!(NoteValues::E.to_str(), String::from("E"));
    assert_eq!(NoteValues::F.to_str(), String::from("F"));
    assert_eq!(NoteValues::FSharp.to_str(), String::from("F#"));
    assert_eq!(NoteValues::G.to_str(), String::from("G"));
    assert_eq!(NoteValues::GSharp.to_str(), String::from("G#"));
    assert_eq!(NoteValues::A.to_str(), String::from("A"));
    assert_eq!(NoteValues::ASharp.to_str(), String::from("A#"));
    assert_eq!(NoteValues::B.to_str(), String::from("B"));
}

#[test]
fn invalid_names_are_rejected() {
    assert!(NoteValues::from_str("").is_err());
    assert!(NoteValues::from_str("H").is_err());
    assert!(NoteValues::from_str("c##").is_err());
    assert!(NoteValues::from_str("x#").is_err());
    assert!(NoteValues::from_str("#").is_err());
    assert_eq!(NoteValues::from_str("Q"), Err("Invalid Note Name"));
}
