use copland::interval::Interval;
use copland::interval::Quality::{Augmented, Minor, Perfect};
use copland::pitch::Accidental::{DoubleSharp, Flat, Natural, QuarterFlat, QuarterSharp, Sharp, ThreeQuarterSharp};
use copland::pitch::DiatonicPitchClass::{A, C, D, E, F, G};
use copland::pitch::{Octave, Pitch, PitchClass};

#[test]
fn pitch_quarter_tones() {
    let c4 = Pitch::new(PitchClass::new(C, Natural), 4);
    assert_eq!(c4.quarter_tones() as f32 / 2.0, 0.);

    let fs3 = Pitch::new(PitchClass::new(F, Sharp), 3);
    assert_eq!(fs3.quarter_tones() as f32 / 2.0, -6.);

    let cqf4 = Pitch::new(PitchClass::new(C, QuarterFlat), 4);
    assert_eq!(cqf4.quarter_tones() as f32 / 2.0, -0.5);
}

#[test]
fn pitch_to_string() {
    let c4 = Pitch::new(PitchClass::new(C, Natural), 4);
    assert_eq!(c4.name(), "c'");

    let fs3 = Pitch::new(PitchClass::new(F, Sharp), 3);
    assert_eq!(fs3.name(), "fs");

    let cqf4 = Pitch::new(PitchClass::new(C, QuarterFlat), 4);
    assert_eq!(cqf4.name(), "cqf'");

    let gtqs2 = Pitch::new(PitchClass::new(G, ThreeQuarterSharp), 2);
    assert_eq!(gtqs2.name(), "gtqs,");

    let af5 = Pitch::new(PitchClass::new(A, Flat), 5);
    assert_eq!(af5.name(), "af''");
}

#[test]
fn tests_transpose() {
    let c4 = Pitch::new(PitchClass::new(C, Natural), 4);
    let p1 = Interval::new(Perfect, 1);
    let minor3 = Interval::new(Minor, 3);
    let neg_p5 = Interval::new(Perfect, 5).neg();

    assert_eq!(c4.transpose(p1), c4);
    assert_eq!(
        c4.transpose(minor3),
        Pitch::new(PitchClass::new(E, Flat), 4)
    );
    assert_eq!(
        c4.transpose(neg_p5),
        Pitch::new(PitchClass::new(F, Natural), 3)
    );

    let dqs4 = Pitch::new(PitchClass::new(D, QuarterSharp), 4);
    assert_eq!(dqs4.transpose(p1), dqs4);
    assert_eq!(
        dqs4.transpose(minor3),
        Pitch::new(PitchClass::new(F, QuarterSharp), 4)
    );
    assert_eq!(
        dqs4.transpose(neg_p5),
        Pitch::new(PitchClass::new(G, QuarterSharp), 3)
    );

    let aug8 = Interval::new(Augmented(1), 8);

    assert_eq!(c4.transpose(aug8), Pitch::new(PitchClass::new(C, Sharp), 5));

    let ess4 = Pitch::new(PitchClass::new(E, DoubleSharp), 4);
    let a1 = Interval::new(Augmented(1), 1);

    assert_eq!(
        ess4.transpose(a1),
        Pitch::new(PitchClass::new(F, DoubleSharp), 4)
    );
}

#[test]
fn octave_marks() {
    assert_eq!(Octave::new(3).marks(), "");
    assert_eq!(Octave::new(4).marks(), "'");
    assert_eq!(Octave::new(6).marks(), "'''");
    assert_eq!(Octave::new(1).marks(), ",,");
    assert_eq!(Octave::default().marks(), "'");
}
