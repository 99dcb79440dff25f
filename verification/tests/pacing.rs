use snake::pacing::{whole_tick_rate, MAX_HZ, MIN_HZ};

#[test]
fn the_rate_starts_at_ten() {
    assert_eq!(MIN_HZ, 10);
    assert_eq!(MAX_HZ, 30);
    assert_eq!(whole_tick_rate(0), 10);
    assert_eq!(whole_tick_rate(1), 10);
}

#[test]
fn the_rate_follows_twice_the_logarithm() {
    assert_eq!(whole_tick_rate(2), 12);
    assert_eq!(whole_tick_rate(3), 13);
    assert_eq!(whole_tick_rate(4), 14);
    assert_eq!(whole_tick_rate(5), 14);
    assert_eq!(whole_tick_rate(6), 15);
    assert_eq!(whole_tick_rate(8), 16);
    assert_eq!(whole_tick_rate(16), 18);
    assert_eq!(whole_tick_rate(32), 20);
    assert_eq!(whole_tick_rate(181), 24);
    assert_eq!(whole_tick_rate(182), 25);
    assert_eq!(whole_tick_rate(900), 29);
}

#[test]
fn the_rate_stops_at_thirty() {
    assert_eq!(whole_tick_rate(1023), 29);
    assert_eq!(whole_tick_rate(1024), 30);
    assert_eq!(whole_tick_rate(1025), 30);
    assert_eq!(whole_tick_rate(1_000_000), 30);
    assert_eq!(whole_tick_rate(usize::MAX), 30);
}

#[test]
fn the_rate_never_falls() {
    let mut previous = whole_tick_rate(0);
    for n in 1..2000 {
        let hz = whole_tick_rate(n);
        assert!(hz >= previous);
        assert!((MIN_HZ..=MAX_HZ).contains(&hz));
        previous = hz;
    }
}

#[test]
fn the_rate_is_the_whole_part_of_the_formula() {
    for n in 1..1100usize {
        let exact = (10.0 + 2.0 * (n as f64).log2()).clamp(10.0, 30.0);
        let hz = whole_tick_rate(n) as f64;
        assert!(hz <= exact + 1e-9 && exact < hz + 1.0 + 1e-9, "n = {}", n);
    }
}
