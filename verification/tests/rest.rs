use copland::duration::Duration;
use copland::leaf::Leaf;
use copland::lilypond::ToLilypond;
use copland::rest::Rest;

fn rest() -> Rest {
    Rest::new(Duration::new(3, 4)).unwrap()
}

#[test]
fn rest_to_lilypond() {
    assert_eq!(rest().to_lilypond().unwrap(), "r2.");
}

#[test]
fn rest_to_rest() {
    assert_eq!(rest().to_rest(), rest());
}

#[test]
fn rest_to_spacer() {
    assert_eq!(rest().to_spacer().to_lilypond().unwrap(), "s2.");
}

#[test]
fn rest_to_chord() {
    assert_eq!(rest().to_chord().to_lilypond().unwrap(), "<\n  c'\n>2.");
}

#[test]
fn rest_to_note() {
    assert_eq!(rest().to_note().to_lilypond().unwrap(), "c'2.");
}
