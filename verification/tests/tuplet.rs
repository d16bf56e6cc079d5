use copland::duration::Duration;
use copland::lilypond::ToLilypond;
use copland::multiplier::Multiplier;
use copland::note::Note;
use copland::pitch::{Accidental, DiatonicPitchClass, Pitch, PitchClass};
use copland::tuplet::Tuplet;

fn note(dpc: DiatonicPitchClass) -> Note {
    Note::new(
        Pitch::new(PitchClass::new(dpc, Accidental::Natural), 4),
        Duration::new(1, 8),
    )
    .unwrap()
}

#[test]
fn tuplet_new() {
    let tuplet = Tuplet::new(
        Multiplier::new(2, 3),
        vec![
            note(DiatonicPitchClass::C).into(),
            note(DiatonicPitchClass::D).into(),
            note(DiatonicPitchClass::E).into(),
        ],
    );

    assert_eq!(
        tuplet.to_lilypond().unwrap(),
        r#"
\tuplet 3/2 {
  c'8
  d'8
  e'8
}
        "#
        .trim()
    );
}
