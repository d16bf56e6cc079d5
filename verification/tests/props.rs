use copland::container::Containable;
use copland::duration::Duration;
use copland::error::Error;
use copland::interval::{Interval, IntervalClass, IntervalSize, Quality};
use copland::lilypond::ToLilypond;
use copland::note::Note;
use copland::pitch::{Accidental, DiatonicPitchClass, Pitch, PitchClass};
use copland::rest::Rest;
use copland::score::Voice;

#[test]
fn reduction_always_normalizes() {
    // Denominator positive and fields coprime, whatever the signs.
    for (n, d, en, ed) in [
        (6, -8, -3, 4),
        (0, 5, 0, 1),
        (36, 24, 3, 2),
        (-36, -24, 3, 2),
        (7, 7, 1, 1),
        (1, 1, 1, 1),
    ] {
        assert_eq!(Duration::new(n, d).to_pair(), (en, ed));
    }
}

#[test]
fn printability_cases() {
    assert!(Duration::new(1, 4).is_printable());
    assert!(!Duration::new(1, 3).is_printable());
    assert!(!Duration::new(23, 1).is_printable());
    assert!(!Duration::new(5, 8).is_printable());
    assert!(Duration::new(15, 1).is_printable());
    assert!(!Duration::new(16, 1).is_printable());
    assert!(!Duration::new(0, 1).is_printable());
    assert!(!Duration::new(-1, 4).is_printable());
    assert!(Duration::new(2, 1).is_printable());
}

#[test]
fn decomposition_round_trip() {
    for (n, d) in [(11, 8), (33, 1), (29, 16), (1, 4), (9, 8), (31, 2)] {
        let whole = Duration::new(n, d);
        let parts = whole.to_printable_duration_list();
        assert!(!parts.is_empty());
        let mut sum = Duration::new(0, 1);
        for p in &parts {
            assert!(p.is_printable());
            sum = sum.add(*p);
        }
        assert_eq!(sum, whole);
    }
}

#[test]
fn rendering_cases() {
    assert_eq!(Duration::new(1, 1).to_lilypond().unwrap(), "1");
    assert_eq!(Duration::new(3, 2).to_lilypond().unwrap(), "1.");
    assert_eq!(Duration::new(2, 1).to_lilypond().unwrap(), "\\breve");
    assert_eq!(Duration::new(4, 1).to_lilypond().unwrap(), "\\longa");
    assert_eq!(Duration::new(6, 1).to_lilypond().unwrap(), "\\longa.");
    assert_eq!(Duration::new(1, 64).to_lilypond().unwrap(), "64");
}

#[test]
fn division_by_zero_is_an_error() {
    let d = Duration::new(3, 4);
    assert_eq!(d.div(Duration::new(0, 1)), Err(Error::DivisionByZero));
    assert_eq!(d.div_int(0), Err(Error::DivisionByZero));
    assert_eq!(d.div_int(2).unwrap(), Duration::new(3, 8));
}

#[test]
fn accidental_range_is_enforced() {
    assert_eq!(
        Accidental::from_quarter_tones(5),
        Err(Error::InvalidAccidentalSize(5))
    );
    assert_eq!(
        Accidental::from_quarter_tones(-5),
        Err(Error::InvalidAccidentalSize(-5))
    );
    assert_eq!(
        Accidental::from_quarter_tones(-4),
        Ok(Accidental::DoubleFlat)
    );
    assert_eq!(Accidental::from_quarter_tones(0), Ok(Accidental::Natural));
}

#[test]
fn invalid_interval_class_error_carries_the_pair() {
    assert_eq!(
        IntervalClass::new(Quality::Perfect, IntervalSize::Second),
        Err(Error::InvalidIntervalClass(
            Quality::Perfect,
            IntervalSize::Second
        ))
    );
}

#[test]
fn diatonic_cycle() {
    assert_eq!(DiatonicPitchClass::C.shift(9), DiatonicPitchClass::E);
    assert_eq!(DiatonicPitchClass::C.shift(-1), DiatonicPitchClass::B);
    assert_eq!(DiatonicPitchClass::B.next(), DiatonicPitchClass::C);
    assert_eq!(DiatonicPitchClass::C.prev(), DiatonicPitchClass::B);
    assert_eq!(DiatonicPitchClass::F.shift(0), DiatonicPitchClass::F);
}

#[test]
fn greater_printable_climbs() {
    assert_eq!(
        Duration::new(23, 16).equal_or_greater_printable_duration(),
        Duration::new(3, 2)
    );
    assert_eq!(
        Duration::new(9, 1).equal_or_greater_printable_duration(),
        Duration::new(12, 1)
    );
}

#[test]
fn shorter_printable_descends() {
    assert_eq!(
        Duration::new(11, 4).equal_or_shorter_printable_duration(),
        Duration::new(2, 1)
    );
}

#[test]
fn leaves_and_contents() {
    let note: Containable = Note::new(
        Pitch::new(
            PitchClass::new(DiatonicPitchClass::C, Accidental::Natural),
            4,
        ),
        Duration::new(1, 4),
    )
    .unwrap()
    .into();
    let rest: Containable = Rest::new(Duration::new(1, 2)).unwrap().into();
    let voice: Containable = Voice::new(vec![note, rest]).into();

    assert!(!voice.is_leaf());
    assert_eq!(voice.contents().len(), 2);
    let leaves = voice.leaves();
    assert_eq!(leaves.len(), 2);
    assert!(leaves.iter().all(Containable::is_leaf));
    // Depth-first order: the note before the rest.
    assert_eq!(leaves[0].to_lilypond().unwrap(), "c'4");
    assert_eq!(leaves[1].to_lilypond().unwrap(), "r2");
}

#[test]
fn negation_negates_distance() {
    for (quality, size) in [
        (Quality::Major, 9),
        (Quality::Perfect, 5),
        (Quality::Diminished(2), 12),
        (Quality::Augmented(1), 1),
    ] {
        let interval = Interval::new(quality, size);
        assert_eq!(interval.neg().quarter_tones(), -interval.quarter_tones());
        assert_eq!(interval.neg().staff_spaces(), -interval.staff_spaces());
    }
}
