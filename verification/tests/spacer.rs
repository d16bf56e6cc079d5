use copland::duration::Duration;
use copland::leaf::Leaf;
use copland::lilypond::ToLilypond;
use copland::spacer::Spacer;

fn spacer() -> Spacer {
    Spacer::new(Duration::new(7, 16)).unwrap()
}

#[test]
fn spacer_to_lilypond() {
    assert_eq!(spacer().to_lilypond().unwrap(), "s4..");
}

#[test]
fn spacer_to_rest() {
    assert_eq!(spacer().to_rest().to_lilypond().unwrap(), "r4..");
}

#[test]
fn spacer_to_spacer() {
    assert_eq!(spacer().to_spacer(), spacer());
}

#[test]
fn spacer_to_chord() {
    assert_eq!(spacer().to_chord().to_lilypond().unwrap(), "<\n  c'\n>4..");
}

#[test]
fn spacer_to_note() {
    assert_eq!(spacer().to_note().to_lilypond().unwrap(), "c'4..");
}
