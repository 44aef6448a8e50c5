use geolite::freshness::update_needed;
use geolite::WEEK_SECS;

#[test]
fn fresh_marker_needs_no_refresh() {
    let now: u64 = 1_700_000_000;
    let marker = Some(String::from("1700000000"));
    assert!(!update_needed(&marker, now));
    let marker = Some((now - WEEK_SECS + 1).to_string());
    assert!(!update_needed(&marker, now));
}

#[test]
fn week_old_marker_needs_refresh() {
    let now: u64 = 1_700_000_000;
    let marker = Some((now - WEEK_SECS).to_string());
    assert!(update_needed(&marker, now));
    let marker = Some(String::from("0"));
    assert!(update_needed(&marker, now));
}

#[test]
fn missing_marker_needs_refresh() {
    assert!(update_needed(&None, 1_700_000_000));
}

#[test]
fn non_numeric_marker_needs_refresh() {
    let now: u64 = 1_700_000_000;
    assert!(update_needed(&Some(String::from("")), now));
    assert!(update_needed(&Some(String::from("not-a-number")), now));
    assert!(update_needed(&Some(String::from("1700000000\n")), now));
    assert!(update_needed(&Some(String::from("-5")), now));
}

#[test]
fn future_dated_marker_needs_refresh() {
    let now: u64 = 1_700_000_000;
    let marker = Some((now + 1).to_string());
    assert!(update_needed(&marker, now));
}
