use copland::duration::Duration;
use copland::lilypond::ToLilypond;
use copland::note::Note;
use copland::pitch::{Accidental, DiatonicPitchClass, Pitch, PitchClass};
use copland::rest::Rest;
use copland::score::{RhythmicStaff, Score, Staff, StaffGroup, Voice};
use copland::spacer::Spacer;

fn note(dpc: DiatonicPitchClass) -> Note {
    Note::new(
        Pitch::new(PitchClass::new(dpc, Accidental::Natural), 4),
        Duration::new(1, 4),
    )
    .unwrap()
}

#[test]
fn tests_to_lilypond() {
    let mut staff = Staff::new(vec![
        note(DiatonicPitchClass::C).into(),
        note(DiatonicPitchClass::D).into(),
        note(DiatonicPitchClass::E).into(),
    ]);
    staff.set_name("Staff One");

    let mut staff2 = Staff::new(vec![
        note(DiatonicPitchClass::F).into(),
        note(DiatonicPitchClass::G).into(),
        note(DiatonicPitchClass::A).into(),
    ]);
    staff2.set_name("Staff Two");

    let mut staff_group = StaffGroup::new(vec![staff.into(), staff2.into()]);
    staff_group.set_name("Staff Group");

    let mut score = Score::new(vec![staff_group.into()]);

    assert_eq!(
        score.to_lilypond().unwrap(),
        r#"
\new Score <<
  \context StaffGroup = "Staff Group" <<
    \context Staff = "Staff One" {
      c'4
      d'4
      e'4
    }
    \context Staff = "Staff Two" {
      f'4
      g'4
      a'4
    }
  >>
>>
    "#
        .trim()
    );

    score.set_name("My Score");

    assert_eq!(
        score.to_lilypond().unwrap(),
        r#"
\context Score = "My Score" <<
  \context StaffGroup = "Staff Group" <<
    \context Staff = "Staff One" {
      c'4
      d'4
      e'4
    }
    \context Staff = "Staff Two" {
      f'4
      g'4
      a'4
    }
  >>
>>
    "#
        .trim()
    );
}

#[test]
fn voice_without_name() {
    let voice = Voice::new(vec![Rest::new(Duration::new(1, 4)).unwrap().into()]);

    assert_eq!(voice.contents.len(), 1);
    assert_eq!(voice.name, None);
    assert!(!voice.simultaneous);

    assert_eq!(
        voice.to_lilypond().unwrap(),
        r#"
\new Voice {
  r4
}
        "#
        .trim()
    )
}

#[test]
fn with_name() {
    let mut voice = Voice::new(vec![Rest::new(Duration::new(1, 4)).unwrap().into()]);
    voice.set_name("Voice One");

    assert_eq!(voice.contents.len(), 1);
    assert_eq!(voice.name, Some("Voice One".to_string()));
    assert!(!voice.simultaneous);

    assert_eq!(
        voice.to_lilypond().unwrap(),
        r#"
\context Voice = "Voice One" {
  r4
}
        "#
        .trim()
    )
}

#[test]
fn voice_simultaneous() {
    let mut voice = Voice::new(vec![Rest::new(Duration::new(1, 4)).unwrap().into()]);
    voice.set_name("Voice One");
    voice.set_simultaneous(true);

    assert_eq!(voice.contents.len(), 1);
    assert_eq!(voice.name, Some("Voice One".to_string()));
    assert!(voice.simultaneous);

    assert_eq!(
        voice.to_lilypond().unwrap(),
        r#"
\context Voice = "Voice One" <<
  r4
>>
        "#
        .trim()
    )
}

#[test]
fn staff_without_name() {
    let mut voice = Voice::new(vec![Rest::new(Duration::new(1, 4)).unwrap().into()]);
    voice.set_name("Voice One");
    voice.set_simultaneous(true);

    let staff = Staff::new(vec![voice.into()]);

    assert_eq!(
        staff.to_lilypond().unwrap(),
        r#"
\new Staff {
  \context Voice = "Voice One" <<
    r4
  >>
}
        "#
        .trim()
    )
}

#[test]
fn staff_simultaneous() {
    let mut voice = Voice::new(vec![Rest::new(Duration::new(1, 4)).unwrap().into()]);
    voice.set_name("Voice One");

    let mut voice2 = Voice::new(vec![Spacer::new(Duration::new(1, 4)).unwrap().into()]);
    voice2.set_name("Voice Two");

    let mut staff = Staff::new(vec![voice.into(), voice2.into()]);
    staff.set_name("Staff One");
    staff.set_simultaneous(true);

    assert_eq!(
        staff.to_lilypond().unwrap(),
        r#"
\context Staff = "Staff One" <<
  \context Voice = "Voice One" {
    r4
  }
  \context Voice = "Voice Two" {
    s4
  }
>>
        "#
        .trim()
    )
}

#[test]
fn rhythmic_staff_without_name() {
    let mut voice = Voice::new(vec![Rest::new(Duration::new(1, 4)).unwrap().into()]);
    voice.set_name("Voice One");
    voice.set_simultaneous(true);

    let staff = RhythmicStaff::new(vec![voice.into()]);

    assert_eq!(
        staff.to_lilypond().unwrap(),
        r#"
\new RhythmicStaff {
  \context Voice = "Voice One" <<
    r4
  >>
}
        "#
        .trim()
    )
}

#[test]
fn rhythmic_staff_simultaneous() {
    let mut voice = Voice::new(vec![Rest::new(Duration::new(1, 4)).unwrap().into()]);
    voice.set_name("Voice One");

    let mut voice2 = Voice::new(vec![Spacer::new(Duration::new(1, 4)).unwrap().into()]);
    voice2.set_name("Voice Two");

    let mut staff = RhythmicStaff::new(vec![voice.into(), voice2.into()]);
    staff.set_name("RhythmicStaff One");
    staff.set_simultaneous(true);

    assert_eq!(
        staff.to_lilypond().unwrap(),
        r#"
\context RhythmicStaff = "RhythmicStaff One" <<
  \context Voice = "Voice One" {
    r4
  }
  \context Voice = "Voice Two" {
    s4
  }
>>
        "#
        .trim()
    )
}
