use copland::duration::Duration;
use copland::error::Error;
use copland::lilypond::ToLilypond;

#[test]
fn duration_new() {
    assert_eq!(Duration::new(1, 4).to_pair(), (1, 4));
    assert_eq!(Duration::new(2, 4).to_pair(), (1, 2));
    assert_eq!(Duration::new(-1, 4).to_pair(), (-1, 4));
    assert_eq!(Duration::new(1, -4).to_pair(), (-1, 4));
    assert_eq!(Duration::new(-1, -4).to_pair(), (1, 4));
}

#[test]
fn from() {
    let d = Duration::new(1, 4);
    assert_eq!(Duration::from(d).to_pair(), (1, 4));
}

#[test]
fn duration_add() {
    let d1 = Duration::new(1, 4);
    let d2 = Duration::new(1, 3);

    assert_eq!(d1.add(d2), Duration::new(7, 12));
}

#[test]
fn duration_subtract() {
    let d1 = Duration::new(1, 4);
    let d2 = Duration::new(1, 3);

    assert_eq!(d1.sub(d2), Duration::new(-1, 12));
    assert_eq!(d2.sub(d1), Duration::new(1, 12));
}

#[test]
fn duration_multiply() {
    let d1 = Duration::new(1, 4);
    let d2 = Duration::new(1, 3);

    assert_eq!(d1.mul(d2), Duration::new(1, 12));
    assert_eq!(d1.mul_int(3), Duration::new(3, 4));
}

#[test]
fn duration_divide() {
    let d1 = Duration::new(1, 3);
    let d2 = Duration::new(2, 1);

    assert_eq!(d1.div(d2).unwrap(), Duration::new(1, 6));
    assert_eq!(d2.div(d1).unwrap(), Duration::new(6, 1));
    assert_eq!(d1.div_int(3).unwrap(), Duration::new(1, 9));
}

#[test]
fn duration_negate() {
    let d1 = Duration::new(1, 3);

    assert_eq!(d1.neg(), Duration::new(-1, 3));
}

#[test]
fn duration_abs() {
    let d1 = Duration::new(-1, 3);
    let d2 = Duration::new(1, 4);

    assert_eq!(d1.abs(), Duration::new(1, 3));
    assert_eq!(d2.abs(), d2);
}

#[test]
fn new_duration() {
    let d = Duration::new(1, 4);

    assert_eq!(d.as_tuple(), (1, 4));
    let (n, den) = d.as_tuple();
    assert_eq!(n as f32 / den as f32, 0.25);
}

#[test]
fn new_reduced_duration() {
    let d = Duration::new(2, 4);

    assert_eq!(d.as_tuple(), (1, 2));
}

#[test]
fn new_duration_with_corrected_polarity() {
    let mut d = Duration::new(-1, 4);
    assert_eq!(d.as_tuple(), (-1, 4));

    d = Duration::new(-1, -4);
    assert_eq!(d.as_tuple(), (1, 4));

    d = Duration::new(1, -4);
    assert_eq!(d.as_tuple(), (-1, 4));
}

#[test]
fn add_durations() {
    let d1 = Duration::new(1, 4);
    let d2 = Duration::new(1, 3);

    assert_eq!(d1.add(d2), Duration::new(7, 12));
}

#[test]
fn subtract() {
    let d1 = Duration::new(1, 4);
    let d2 = Duration::new(1, 3);

    assert_eq!(d1.sub(d2), Duration::new(-1, 12));
    assert_eq!(d2.sub(d1), Duration::new(1, 12));
}

#[test]
fn multiply() {
    let d1 = Duration::new(1, 4);
    let d2 = Duration::new(1, 3);

    assert_eq!(d1.mul(d2), Duration::new(1, 12));

    assert_eq!(d1.mul_int(3), Duration::new(3, 4));
    assert_eq!(d1.mul_int(2. as i32), Duration::new(1, 2));
}

#[test]
fn divide() {
    let d1 = Duration::new(1, 4);
    let d2 = Duration::new(1, 3);

    assert_eq!(d1.div(d2).unwrap(), Duration::new(3, 4));

    assert_eq!(d1.div_int(3).unwrap(), Duration::new(1, 12));
    assert_eq!(d2.div_int(2. as i32).unwrap(), Duration::new(1, 6));
}

#[test]
fn is_printable() {
    let d1 = Duration::new(1, 4);
    let d2 = Duration::new(1, 3);

    assert!(d1.is_printable());
    assert!(!d2.is_printable());
}

#[test]
fn is_negative() {
    let d1 = Duration::new(1, 4);
    let d2 = Duration::new(-1, 4);

    assert!(!d1.is_negative());
    assert!(d2.is_negative());
    assert!(!Duration::new(0, 1).is_negative());
}

#[test]
fn abs() {
    let d1 = Duration::new(1, 4);
    let d2 = Duration::new(-1, 4);

    assert_eq!(d1.abs(), d1);
    assert_eq!(d2.abs(), d1);
}

#[test]
fn duration_to_lilypond() {
    let mut d = Duration::new(1, 4);
    assert_eq!(d.to_lilypond().unwrap(), "4");

    d = Duration::new(3, 8);
    assert_eq!(d.to_lilypond().unwrap(), "4.");

    d = Duration::new(7, 32);
    assert_eq!(d.to_lilypond().unwrap(), "8..");

    d = Duration::new(15, 1);
    assert_eq!(d.to_lilypond().unwrap(), "\\maxima...")
}

#[test]
fn to_lilypond_for_unprintable_durations() {
    let mut d = Duration::new(23, 1);
    assert_eq!(d.to_lilypond(), Err(Error::UnprintableDuration(d)));

    d = Duration::new(5, 8);
    assert_eq!(d.to_lilypond(), Err(Error::UnprintableDuration(d)));

    d = Duration::new(1, 5);
    assert_eq!(d.to_lilypond(), Err(Error::UnprintableDuration(d)));
}

#[test]
fn equal_or_shorter_printable_duration() {
    let d = Duration::new(5, 8);
    let d2 = Duration::new(1, 2);

    assert_eq!(d.equal_or_shorter_printable_duration(), d2);
    assert_eq!(d2.equal_or_shorter_printable_duration(), d2);
}

#[test]
fn equal_or_greater_printable_duration() {
    let d = Duration::new(5, 8);
    let d2 = Duration::new(3, 4);

    assert_eq!(d.equal_or_greater_printable_duration(), d2);
    assert_eq!(d2.equal_or_greater_printable_duration(), d2);
}

#[test]
fn to_printable_duration_list() {
    let d = Duration::new(1, 4);
    assert_eq!(d.to_printable_duration_list(), vec![Duration::new(1, 4)]);

    let d2 = Duration::new(5, 8);
    assert_eq!(
        d2.to_printable_duration_list(),
        vec![Duration::new(1, 2), Duration::new(1, 8)]
    );

    let d3 = Duration::new(-1, 4);
    assert_eq!(d3.to_printable_duration_list(), vec![] as Vec<Duration>);
}
