use peripheral_registry::Hertz;

#[test]
fn hertz_constructors() {
    assert_eq!(Hertz::hz(50), Hertz(50));
    assert_eq!(Hertz::khz(2), Hertz(2_000));
    assert_eq!(Hertz::mhz(3), Hertz(3_000_000));
    assert_eq!(Hertz::ghz(4), Hertz(4_000_000_000));
    assert_eq!(Hertz::khz(0), Hertz(0));
}

#[test]
fn hertz_period_in_milliseconds() {
    assert_eq!(Hertz::hz(1).to_milliseconds(), 1000);
    assert_eq!(Hertz::hz(4).to_milliseconds(), 250);
    assert_eq!(Hertz::khz(1).to_milliseconds(), 1);
    assert_eq!(Hertz::hz(3).to_milliseconds(), 333);
    assert_eq!(Hertz::mhz(1).to_milliseconds(), 0);
}

#[test]
fn hertz_ordering() {
    assert!(Hertz::hz(999) < Hertz::khz(1));
    assert!(Hertz::khz(1_000) == Hertz::mhz(1));
    assert!(Hertz::ghz(1) > Hertz::mhz(999));
}
