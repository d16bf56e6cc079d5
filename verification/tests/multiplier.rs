use copland::multiplier::Multiplier;

#[test]
fn multiplier_new() {
    assert_eq!(Multiplier::new(2, 3).to_pair(), (2, 3));
    assert_eq!(Multiplier::new(-2, 3).to_pair(), (-2, 3));
    assert_eq!(Multiplier::new(2, -3).to_pair(), (-2, 3));
    assert_eq!(Multiplier::new(-2, -3).to_pair(), (2, 3));
}

#[test]
fn multiplier_add() {
    let m1 = Multiplier::new(2, 3);
    let m2 = Multiplier::new(1, 4);
    assert_eq!(m1.add(m2), Multiplier::new(11, 12));
}

#[test]
fn multiplier_subtract() {
    let m1 = Multiplier::new(2, 3);
    let m2 = Multiplier::new(1, 4);
    assert_eq!(m1.sub(m2), Multiplier::new(5, 12));
    assert_eq!(m2.sub(m1), Multiplier::new(-5, 12));
}

#[test]
fn multiplier_multiply() {
    let m1 = Multiplier::new(2, 3);
    let m2 = Multiplier::new(1, 4);
    assert_eq!(m1.mul(m2), Multiplier::new(2, 12));
    assert_eq!(m1.mul_int(3), Multiplier::new(6, 3));
}

#[test]
fn multiplier_divide() {
    let m1 = Multiplier::new(2, 3);
    let m2 = Multiplier::new(1, 4);
    assert_eq!(m1.div(m2), Multiplier::new(8, 3));
    assert_eq!(m2.div(m1), Multiplier::new(3, 8));
    assert_eq!(m1.div_int(3), Multiplier::new(2, 9));
}

#[test]
fn multiplier_negate() {
    let m1 = Multiplier::new(2, 3);
    let m2 = Multiplier::new(-1, 4);

    assert_eq!(m1.neg(), Multiplier::new(-2, 3));
    assert_eq!(m2.neg(), Multiplier::new(1, 4));
}

#[test]
fn multiplier_abs() {
    let m1 = Multiplier::new(2, 3);
    let m2 = Multiplier::new(-1, 4);

    assert_eq!(m1.abs(), Multiplier::new(2, 3));
    assert_eq!(m2.abs(), Multiplier::new(1, 4));
}
