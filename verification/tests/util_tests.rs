use webdesk::util::{now_iso, timestamp_for};

#[test]
fn timestamp_format() {
    assert_eq!(timestamp_for(0), "1970-01-01T00:00:00Z+0s");
    assert_eq!(timestamp_for(1234), "1970-01-01T00:00:00Z+1234s");
}

#[test]
fn now_iso_has_the_stable_shape() {
    let t = now_iso();
    assert!(t.starts_with("1970-01-01T00:00:00Z+"));
    assert!(t.ends_with('s'));
    let digits = &t["1970-01-01T00:00:00Z+".len()..t.len() - 1];
    assert!(!digits.is_empty() && digits.chars().all(|c| c.is_ascii_digit()));
}
