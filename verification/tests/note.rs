use copland::duration::Duration;
use copland::interval::{Interval, Quality};
use copland::leaf::Leaf;
use copland::lilypond::ToLilypond;
use copland::note::Note;
use copland::pitch::{Accidental, DiatonicPitchClass, Pitch, PitchClass};

fn note() -> Note {
    Note::new(
        Pitch::new(PitchClass::new(DiatonicPitchClass::E, Accidental::Flat), 2),
        Duration::new(1, 8),
    )
    .unwrap()
}

#[test]
fn note_new() {
    assert!(Note::new(note().written_pitch(), Duration::new(1, 5)).is_err());
}

#[test]
fn note_to_lilypond() {
    assert_eq!(note().to_lilypond().unwrap(), "ef,8");
}

#[test]
fn note_to_rest() {
    assert_eq!(note().to_rest().to_lilypond().unwrap(), "r8");
}

#[test]
fn note_to_spacer() {
    assert_eq!(note().to_spacer().to_lilypond().unwrap(), "s8");
}

#[test]
fn note_to_chord() {
    assert_eq!(note().to_chord().to_lilypond().unwrap(), "<\n  ef,\n>8");
}

#[test]
fn note_to_note() {
    assert_eq!(note().to_note(), note());
}

#[test]
fn note_transpose() {
    let mut note = note();
    note.transpose(Interval::new(Quality::Major, 3));
    assert_eq!(note.to_lilypond().unwrap(), "g,8");
}
