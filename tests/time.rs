use blocks::time::GameTime;

#[test]
fn compare() {
    let a = GameTime::from_millis(1000);
    let b = GameTime::from_millis(2000);
    let c = GameTime::from_millis(1000);
    assert!(a < b);
    assert_eq!(a, c);
    assert_eq!(a + 1000, b);
}

#[test]
fn difference_of_times() {
    let a = GameTime::from_millis(1000);
    let b = GameTime::from_millis(2500);
    assert_eq!(b - a, 1500);
    assert_eq!(b.millis(), 2500);
}
