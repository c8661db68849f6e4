use primer::closures::{generate_workout, roll, LazyU32, Workout};
use std::cell::Cell;

#[test]
fn call_with_different_values() {
    let x = 1;
    let mut c = LazyU32::new(|| x + 1);

    let v1 = c.get();
    let v2 = c.get();

    assert_eq!(v1, 2);
    assert_eq!(v2, 2);
}

#[test]
fn lazy_value_is_computed_once() {
    let calls = Cell::new(0);
    let mut lazy = LazyU32::new(|| {
        calls.set(calls.get() + 1);
        calls.get() * 10
    });
    assert_eq!(calls.get(), 0);
    assert_eq!(lazy.get(), 10);
    assert_eq!(lazy.get(), 10);
    assert_eq!(calls.get(), 1);
}

#[test]
fn low_intensity_is_strength_from_one_computation() {
    let calls = Cell::new(0u32);
    let plan = generate_workout(24, 3, || {
        calls.set(calls.get() + 1);
        7
    });
    assert!(matches!(plan, Workout::Strength { pushups: 7, situps: 7 }));
    assert_eq!(calls.get(), 1);
}

#[test]
fn high_intensity_on_day_three_is_rest_without_computing() {
    let calls = Cell::new(0u32);
    let plan = generate_workout(25, 3, || {
        calls.set(calls.get() + 1);
        7
    });
    assert!(matches!(plan, Workout::Rest));
    assert_eq!(calls.get(), 0);
}

#[test]
fn high_intensity_is_a_run() {
    let plan = generate_workout(25, 4, || 4);
    assert!(matches!(plan, Workout::Run { minutes: 4 }));
    let plan = generate_workout(u32::MAX, 0, || 0);
    assert!(matches!(plan, Workout::Run { minutes: 0 }));
}

#[test]
fn roll_stays_on_the_die_and_varies() {
    let mut seen = [false; 7];
    for _ in 0..2000 {
        let side = roll(6);
        assert!((1..=6).contains(&side));
        seen[side as usize] = true;
    }
    assert!(seen[1..].iter().filter(|s| **s).count() >= 2);
    for _ in 0..50 {
        assert_eq!(roll(1), 1);
    }
}
