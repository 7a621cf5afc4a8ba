use s3sync::settings::{
    PathSettings, window_seconds_range, DEFAULT_EVENT_WINDOW_SECONDS,
};

fn settings(window: Option<u64>, recursive: Option<bool>) -> PathSettings {
    PathSettings { recursive, window }
}

#[test]
fn defaults_apply_when_fields_unset() {
    let s = settings(None, None);
    assert_eq!(s.window(), DEFAULT_EVENT_WINDOW_SECONDS);
    assert!(!s.recursive());
}

#[test]
fn default_value_is_five_seconds_non_recursive() {
    let s = PathSettings::default();
    assert_eq!(s.window(), 5);
    assert!(!s.recursive());
}

#[test]
fn combine_takes_min_window_and_or_recursion() {
    let a = settings(Some(10), Some(false));
    let b = settings(Some(3), Some(true));
    let c = a.combine(&b);
    assert_eq!(c.window(), 3);
    assert!(c.recursive());
}

#[test]
fn combine_is_commutative_observationally() {
    let a = settings(Some(7), Some(true));
    let b = settings(None, None);
    let ab = a.combine(&b);
    let ba = b.combine(&a);
    assert_eq!(ab.window(), ba.window());
    assert_eq!(ab.recursive(), ba.recursive());
}

#[test]
fn combine_is_associative_observationally() {
    let a = settings(Some(10), Some(false));
    let b = settings(Some(3), Some(true));
    let c = settings(Some(6), Some(false));
    let left = a.combine(&b).combine(&c);
    let right = a.combine(&b.combine(&c));
    assert_eq!(left.window(), right.window());
    assert_eq!(left.recursive(), right.recursive());
}

#[test]
fn window_in_bounds_checks_range() {
    assert!(settings(Some(1), None).window_in_bounds());
    assert!(settings(Some(3600), None).window_in_bounds());
    assert!(settings(None, None).window_in_bounds());
    assert!(!settings(Some(0), None).window_in_bounds());
    assert!(!settings(Some(3601), None).window_in_bounds());
}

#[test]
fn window_argument_accepts_decimals_in_range() {
    assert_eq!(window_seconds_range("5"), Ok(5));
    assert_eq!(window_seconds_range("1"), Ok(1));
    assert_eq!(window_seconds_range("3600"), Ok(3600));
    assert_eq!(window_seconds_range("0042"), Ok(42));
}

#[test]
fn window_argument_accepts_leading_plus() {
    assert_eq!(window_seconds_range("+7"), Ok(7));
}

#[test]
fn window_argument_rejects_out_of_range() {
    assert!(window_seconds_range("0").is_err());
    assert!(window_seconds_range("3601").is_err());
    assert!(window_seconds_range("99999999999999999999999999").is_err());
}

#[test]
fn window_argument_rejects_non_numbers() {
    assert!(window_seconds_range("").is_err());
    assert!(window_seconds_range("+").is_err());
    assert!(window_seconds_range("abc").is_err());
    assert!(window_seconds_range("12x").is_err());
    assert!(window_seconds_range("-5").is_err());
    assert!(window_seconds_range(" 5").is_err());
}
