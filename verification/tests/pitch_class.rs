use copland::pitch::Accidental::{DoubleFlat, DoubleSharp, Flat, Natural, QuarterFlat, ThreeQuarterSharp};
use copland::pitch::DiatonicPitchClass::{B, C, E};
use copland::pitch::PitchClass;

#[test]
fn pitch_class_new() {
    let pitch_class = PitchClass::new(C, Natural);

    assert_eq!(pitch_class.to_pair(), (C, Natural));
}

#[test]
fn pitch_class_quarter_tones() {
    assert_eq!(PitchClass::new(C, Natural).quarter_tones() as f32 / 2.0, 0.);
    assert_eq!(PitchClass::new(E, Flat).quarter_tones() as f32 / 2.0, 3.);
    assert_eq!(PitchClass::new(C, DoubleFlat).quarter_tones() as f32 / 2.0, 10.);
    assert_eq!(
        PitchClass::new(B, ThreeQuarterSharp).quarter_tones() as f32 / 2.0,
        0.5
    );
    assert_eq!(PitchClass::new(B, DoubleSharp).quarter_tones() as f32 / 2.0, 1.);
    assert_eq!(PitchClass::new(C, QuarterFlat).quarter_tones() as f32 / 2.0, 11.5);
    assert_eq!(
        PitchClass::new(E, ThreeQuarterSharp).quarter_tones() as f32 / 2.0,
        5.5
    );
}

#[test]
fn pitch_class_to_string() {
    let c = PitchClass::new(C, Natural);
    assert_eq!(c.diatonic_pitch_class().letter(), "c");

    let bss = PitchClass::new(B, DoubleSharp);
    let mut s = bss.diatonic_pitch_class().letter();
    s.push_str(&bss.accidental.suffix());
    assert_eq!(s, "bss");

    let cqf = PitchClass::new(C, QuarterFlat);
    let mut s = cqf.diatonic_pitch_class().letter();
    s.push_str(&cqf.accidental.suffix());
    assert_eq!(s, "cqf");

    let etqs = PitchClass::new(E, ThreeQuarterSharp);
    let mut s = etqs.diatonic_pitch_class().letter();
    s.push_str(&etqs.accidental.suffix());
    assert_eq!(s, "etqs");
}

#[test]
fn diatonic_pitch_class_index() {
    assert_eq!(PitchClass::new(C, Natural).diatonic_pitch_class_index(), 0);
    assert_eq!(PitchClass::new(B, Flat).diatonic_pitch_class_index(), 6);
}
