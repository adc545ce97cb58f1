use soft_ratatui::blink::{BlinkClock, BLINK_PERIOD};

fn advanced(ticks: u32) -> BlinkClock {
    let mut clock = BlinkClock::new();
    for _ in 0..ticks {
        clock.tick();
    }
    clock
}

#[test]
fn clock_starts_at_zero() {
    assert_eq!(BlinkClock::new().counter(), 0);
    assert_eq!(BLINK_PERIOD, 200);
}

#[test]
fn tick_adds_one_and_wraps() {
    assert_eq!(advanced(1).counter(), 1);
    assert_eq!(advanced(199).counter(), 199);
    assert_eq!(advanced(200).counter(), 0);
    assert_eq!(advanced(201).counter(), 1);
}

#[test]
fn two_hundred_ticks_return_to_any_start() {
    for start in 0..200u32 {
        let mut clock = advanced(start);
        let before = clock.counter();
        for _ in 0..200 {
            clock.tick();
        }
        assert_eq!(clock.counter(), before);
        assert_eq!(clock, advanced(start));
    }
}

#[test]
fn fast_phase_is_the_first_six_ticks_of_each_hundred() {
    for tick in 0..200u32 {
        let expected = tick % 100 <= 5;
        assert_eq!(advanced(tick).fast(), expected, "tick {}", tick);
    }
    assert!(advanced(0).fast());
    assert!(advanced(5).fast());
    assert!(!advanced(6).fast());
    assert!(!advanced(99).fast());
    assert!(advanced(100).fast());
    assert!(advanced(105).fast());
    assert!(!advanced(106).fast());
}

#[test]
fn slow_phase_is_ticks_20_to_25() {
    for tick in 0..200u32 {
        let expected = (20..=25).contains(&tick);
        assert_eq!(advanced(tick).slow(), expected, "tick {}", tick);
    }
    assert!(!advanced(19).slow());
    assert!(advanced(20).slow());
    assert!(advanced(25).slow());
    assert!(!advanced(26).slow());
    assert!(!advanced(120).slow());
}
