use primer::tally::{bump, run_in_turn};

#[test]
fn ten_workers_count_to_ten() {
    let mut counter = 0;
    for _ in 0..10 {
        bump(&mut counter);
    }
    assert_eq!(counter, 10);
    assert_eq!(run_in_turn(0, 10), 10);
}

#[test]
fn the_count_goes_on_from_where_it_was() {
    assert_eq!(run_in_turn(5, 0), 5);
    assert_eq!(run_in_turn(-3, 3), 0);
    assert_eq!(run_in_turn(i32::MAX - 2, 2), i32::MAX);
    let mut count = 5;
    bump(&mut count);
    assert_eq!(count, 6);
}
