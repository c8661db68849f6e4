use primer::generics::{copy_of_largest, largest};
use primer::geometry::Point;

#[test]
fn largest_of_integers_and_characters() {
    let vec_i32 = vec![2, 4, 5, 6, 3, 1];
    assert_eq!(*largest(&vec_i32), 6);
    assert_eq!(copy_of_largest(&vec_i32), 6);

    let vec_ch = ['y', 'y', 'z', 'x'];
    assert_eq!(*largest(&vec_ch), 'z');
    assert_eq!(copy_of_largest(&vec_ch), 'z');
}

#[test]
fn largest_of_one_and_of_equals() {
    assert_eq!(*largest(&[7u8]), 7);
    assert_eq!(copy_of_largest(&[i64::MIN]), i64::MIN);
    let same = [3, 3, 3];
    // The first of several largest elements is the one that is handed out.
    assert!(std::ptr::eq(largest(&same), &same[0]));
    let pairs = [(1, 'a'), (2, 'b'), (2, 'a'), (0, 'z')];
    assert_eq!(*largest(&pairs), (2, 'b'));
}

#[test]
fn what_cannot_be_compared_does_not_win() {
    let floats = [1.0f64, f64::NAN, 0.5];
    assert_eq!(copy_of_largest(&floats), 1.0);
    let floats = [f64::NAN, 4.0];
    assert!(copy_of_largest(&floats).is_nan());
}

#[test]
fn coordinates_of_a_point() {
    let p = Point::of(1, -2, 3);
    assert_eq!((*p.x(), *p.y(), *p.z()), (1, -2, 3));
    assert_eq!(p.largest_coord(), 3);
    assert_eq!(Point::of(9, 2, 3).largest_coord(), 9);
    assert_eq!(Point::of(1, 7, 3).largest_coord(), 7);
    assert_eq!(Point::of(4, 4, 4).largest_coord(), 4);
    let p = Point::of(1.2f32, 0.50f32, -5.2f32);
    assert_eq!(p.largest_coord(), 1.2f32);
}
