use time_util::Instant;

#[test]
fn instants_are_made_of_seconds_and_nanoseconds() {
    let time = Instant::new(5, 999_999_999).unwrap();
    assert_eq!(time.secs(), 5);
    assert_eq!(time.subsec_nanos(), 999_999_999);
    assert_eq!(Instant::new(5, 1_000_000_000), None);
    assert_eq!(Instant::from_secs(-7).secs(), -7);
    assert_eq!(Instant::from_secs(-7).subsec_nanos(), 0);
    assert_eq!(Instant::new(3, 0), Some(Instant::from_secs(3)));
}

#[test]
fn instants_are_equal_where_both_parts_are() {
    assert_eq!(Instant::new(1, 2).unwrap(), Instant::new(1, 2).unwrap());
    assert_ne!(Instant::new(1, 2).unwrap(), Instant::new(1, 3).unwrap());
    assert_ne!(Instant::new(1, 2).unwrap(), Instant::new(2, 2).unwrap());
}

#[test]
fn instants_are_ordered_by_time() {
    assert!(Instant::new(-1, 999_999_999).unwrap() < Instant::from_secs(0));
    assert!(Instant::new(1, 2).unwrap() < Instant::new(1, 3).unwrap());
    assert!(Instant::new(1, 999_999_999).unwrap() < Instant::new(2, 0).unwrap());
}

#[test]
fn add_secs_moves_the_seconds_only() {
    let time = Instant::new(10, 7).unwrap();
    assert_eq!(time.add_secs(5), Instant::new(15, 7).unwrap());
    assert_eq!(time.add_secs(-20), Instant::new(-10, 7).unwrap());
}

#[test]
fn instants_by_their_distance_from_the_epoch() {
    assert_eq!(Instant::after_epoch(5, 7), Instant::new(5, 7));
    assert_eq!(Instant::after_epoch(0, 0), Some(Instant::from_secs(0)));
    assert_eq!(Instant::after_epoch(5, 1_000_000_000), None);
    assert_eq!(Instant::after_epoch(9_223_372_036_854_775_808, 0), None);
    assert_eq!(
        Instant::after_epoch(9_223_372_036_854_775_807, 999_999_999),
        Instant::new(i64::MAX, 999_999_999)
    );
    assert_eq!(Instant::before_epoch(0, 0), Some(Instant::from_secs(0)));
    assert_eq!(Instant::before_epoch(5, 0), Some(Instant::from_secs(-5)));
    assert_eq!(Instant::before_epoch(5, 250_000_000), Instant::new(-6, 750_000_000));
    assert_eq!(Instant::before_epoch(0, 1), Instant::new(-1, 999_999_999));
    assert_eq!(Instant::before_epoch(5, 1_000_000_000), None);
    assert_eq!(Instant::before_epoch(9_223_372_036_854_775_808, 0), None);
    assert_eq!(
        Instant::before_epoch(9_223_372_036_854_775_807, 1),
        Instant::new(i64::MIN, 999_999_999)
    );
}

#[test]
fn the_distance_of_an_instant_from_the_epoch() {
    assert_eq!(Instant::from_secs(0).distance_from_epoch(), (false, 0, 0));
    assert_eq!(Instant::new(5, 7).unwrap().distance_from_epoch(), (false, 5, 7));
    assert_eq!(Instant::from_secs(-5).distance_from_epoch(), (true, 5, 0));
    assert_eq!(
        Instant::new(-6, 750_000_000).unwrap().distance_from_epoch(),
        (true, 5, 250_000_000)
    );
    assert_eq!(Instant::new(-1, 999_999_999).unwrap().distance_from_epoch(), (true, 0, 1));
    assert_eq!(
        Instant::from_secs(i64::MIN).distance_from_epoch(),
        (true, 9_223_372_036_854_775_808, 0)
    );
    assert_eq!(
        Instant::new(i64::MIN, 999_999_999).unwrap().distance_from_epoch(),
        (true, 9_223_372_036_854_775_807, 1)
    );
}
