use std::cmp::Ordering;
use rocket_config::Number;

fn float(x: f64) -> Number {
    Number::from_float_text(format!("{:e}", x)).unwrap()
}

#[test]
fn non_negative_above_negative_and_float() {
    assert_eq!(Number::from(0u8).cmp(&Number::from(i64::MIN)), Ordering::Greater);
    assert_eq!(Number::from(0u8).cmp(&float(1e300)), Ordering::Greater);
    assert_eq!(Number::from(-1i8).cmp(&float(1e300)), Ordering::Greater);
    assert_eq!(float(-5.0).cmp(&Number::from(-7i32)), Ordering::Less);
    assert!(Number::from(0u64) > Number::from(-1i64));
    assert!(float(3.5) < Number::from(-100i64));
}

#[test]
fn integers_compare_by_value() {
    assert_eq!(Number::from(3u8).cmp(&Number::from(10u64)), Ordering::Less);
    assert_eq!(Number::from(-3i8).cmp(&Number::from(-10i64)), Ordering::Greater);
    assert_eq!(Number::from(7u16).cmp(&Number::from(7i32)), Ordering::Equal);
}

#[test]
fn floats_compare_by_scientific_text() {
    // "1e1" < "2e0" as text, though ten is more than two.
    assert_eq!(float(10.0).cmp(&float(2.0)), Ordering::Less);
    assert_eq!(float(1.5).cmp(&float(1.25)), Ordering::Greater);
    assert_eq!(float(2.5).cmp(&float(2.5)), Ordering::Equal);
    assert_eq!(float(10.0).as_float_text(), Some("1e1"));
}

#[test]
fn float_text_must_be_finite_rendering() {
    assert!(Number::from_float_text(format!("{:e}", f64::INFINITY)).is_none());
    assert!(Number::from_float_text(format!("{:e}", f64::NAN)).is_none());
    assert!(Number::from_float_text("1.5".to_owned()).is_none());
    assert!(Number::from_float_text("1.e3".to_owned()).is_none());
    assert!(Number::from_float_text("-3.75e-2".to_owned()).is_some());
    assert!(Number::from_float_text("0e0".to_owned()).is_some());
}

#[test]
fn number_kinds() {
    let f = float(0.5);
    assert!(f.is_f64());
    assert!(!f.is_i64());
    assert!(!f.is_u64());
    assert_eq!(f.as_i64(), None);
    assert_eq!(f.as_u64(), None);
    assert_eq!(Number::from(-2i16).as_i64(), Some(-2));
    assert_eq!(Number::from_i64(4).as_u64(), Some(4));
    assert_eq!(Number::from_u64(u64::MAX).as_i64(), None);
    assert!(Number::from(usize::MAX).is_u64());
    assert!(Number::from(-1isize).is_i64());
}
