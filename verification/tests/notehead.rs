use copland::interval::{Interval, Quality};
use copland::lilypond::ToLilypond;
use copland::notehead::Notehead;
use copland::pitch::{Accidental, DiatonicPitchClass, Pitch, PitchClass};

#[test]
fn mod_to_lilypond() {
    let pitch = Pitch::new(
        PitchClass::new(DiatonicPitchClass::C, Accidental::Natural),
        4,
    );

    let notehead = Notehead::new(pitch);
    assert_eq!(notehead.to_lilypond().unwrap(), "c'");

    let notehead2 = Notehead::new(pitch).forced();
    assert_eq!(notehead2.to_lilypond().unwrap(), "c'!");

    let notehead2 = Notehead::new(pitch).cautionary();
    assert_eq!(notehead2.to_lilypond().unwrap(), "c'?");

    let notehead3 = notehead2.neutral();
    assert_eq!(notehead3.to_lilypond().unwrap(), "c'");
}

#[test]
fn mod_transpose() {
    let pitch = Pitch::new(
        PitchClass::new(DiatonicPitchClass::C, Accidental::Natural),
        4,
    );

    let mut notehead = Notehead::new(pitch);

    notehead.transpose(Interval::new(Quality::Perfect, 4));

    assert_eq!(notehead.to_lilypond().unwrap(), "f'");
}
