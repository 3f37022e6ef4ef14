use literate::largest::largest;
use literate::largest::largest_char;
use literate::largest::largest_i32;

#[test]
fn test_largest_i32() {
    assert_eq!(100, largest_i32(&[34, 50, 24, 100, 99]));
    assert_eq!(5, largest_i32(&[5]));
    assert_eq!(-1, largest_i32(&[-7, -1, -3]));
}

#[test]
fn test_largest_char() {
    assert_eq!('n', largest_char(&['a', 'n', 'd', 'i']));
    assert_eq!('z', largest_char(&['z']));
}

#[test]
fn test_largest_generic() {
    assert_eq!(100, largest(&[34, 50, 24, 100, 99]));
    assert_eq!('n', largest(&['a', 'n', 'd', 'i']));
    assert_eq!(9_u8, largest(&[9, 1, 4]));
}
