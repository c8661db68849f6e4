use primer::structs::{roll, roll2, DiceRoll};

#[test]
fn total_max_and_min() {
    let r = DiceRoll::from(2, 6);
    assert_eq!((r.left, r.right), (2, 6));
    assert_eq!(r.total(), 8);
    assert_eq!(r.max(), 6);
    assert_eq!(r.min(), 2);
    let r = DiceRoll::from(5, 5);
    assert_eq!((r.total(), r.max(), r.min()), (10, 5, 5));
    let r = DiceRoll::from(255, 0);
    assert_eq!((r.total(), r.max(), r.min()), (255, 255, 0));
}

#[test]
fn the_fixed_rolls() {
    assert_eq!(roll2(), (1, 4));
    let r = roll();
    assert_eq!((r.left, r.right), (1, 4));
    assert_eq!(r.total(), 5);
}

#[test]
fn random_rolls_are_sides_of_a_die_and_vary() {
    let mut seen_left = [false; 7];
    let mut seen_right = [false; 7];
    for _ in 0..2000 {
        let r = DiceRoll::random();
        assert!((1..=6).contains(&r.left) && (1..=6).contains(&r.right));
        seen_left[r.left as usize] = true;
        seen_right[r.right as usize] = true;
    }
    assert!(seen_left.iter().filter(|s| **s).count() >= 2);
    assert!(seen_right.iter().filter(|s| **s).count() >= 2);
}

#[test]
fn reroll_replaces_both_dice() {
    let mut r = DiceRoll::from(200, 0);
    r.reroll();
    assert!((1..=6).contains(&r.left) && (1..=6).contains(&r.right));
    assert!((2..=12).contains(&r.total()));
}
