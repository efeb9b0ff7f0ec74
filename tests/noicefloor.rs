use linkiq::ctrl::noicefloor::NoiceFloor;

#[test]
fn can_accumulate() {
    let mut floor = NoiceFloor::new(-120);
    assert_eq!(-120, floor.value());

    floor.add(-118);
    assert_eq!(-119, floor.value());

    floor.add(-116);
    assert_eq!(-118, floor.value());
}

#[test]
fn can_accumulate_after_window() {
    let mut floor = NoiceFloor::new(-120);
    for _ in 0..8 {
        floor.add(-120);
    }
    assert_eq!(-120, floor.value());

    floor.add(-112);
    assert_eq!(-119, floor.value());
}

#[test]
fn constant_input_keeps_floor() {
    let mut floor = NoiceFloor::new(-110);
    for _ in 0..8 {
        floor.add(-110);
        assert_eq!(-110, floor.value());
    }
    floor.add(-112);
    assert_eq!(-110, floor.value());
    floor.add(-112);
    assert_eq!(-110, floor.value());
}

#[test]
fn constant_input_converges_from_below() {
    let mut floor = NoiceFloor::new(-120);
    for _ in 0..40 {
        floor.add(-100);
    }
    assert_eq!(-100, floor.value());
}

#[test]
fn positive_values_round_toward_zero() {
    let mut floor = NoiceFloor::new(10);
    floor.add(3);
    assert_eq!(9, floor.value());
}
