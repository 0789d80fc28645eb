use feth::nonce::NonceTracker;
use feth::u256::U256;

#[test]
fn a_tracker_starts_at_the_pending_nonce() {
    let t = NonceTracker::new(U256::from_u64(10));
    assert_eq!(t.peek(), U256::from_u64(10));
}

#[test]
fn advance_adds_one() {
    let mut t = NonceTracker::new(U256::from_u64(10));
    assert!(t.advance());
    assert!(t.advance());
    assert_eq!(t.peek(), U256::from_u64(12));
    let mut t = NonceTracker::new(U256::from_u64(u64::MAX));
    assert!(t.advance());
    assert_eq!(t.peek(), U256::from_limbs([0, 1, 0, 0]));
}

#[test]
fn the_largest_nonce_stays() {
    let mut t = NonceTracker::new(U256::max_value());
    assert!(!t.advance());
    assert_eq!(t.peek(), U256::max_value());
}

#[test]
fn refresh_takes_a_lower_value_too() {
    let mut t = NonceTracker::new(U256::from_u64(10));
    t.refresh(Some(U256::from_u64(15)));
    assert_eq!(t.peek(), U256::from_u64(15));
    t.refresh(Some(U256::from_u64(3)));
    assert_eq!(t.peek(), U256::from_u64(3));
}

#[test]
fn refresh_without_a_report_changes_nothing() {
    let mut t = NonceTracker::new(U256::from_u64(10));
    t.refresh(None);
    assert_eq!(t.peek(), U256::from_u64(10));
}
