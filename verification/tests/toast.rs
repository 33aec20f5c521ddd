use std::time::{Duration, Instant};
use studypilot::toast::Toast;

#[test]
fn a_notice_expires_once_its_time_is_reached() {
    let now = Instant::now();
    let t = Toast { message: "已复制".to_string(), error: false, expires_at: now + Duration::from_millis(2500) };
    assert!(!t.expired_at(now));
    assert!(!t.expired());
    assert!(t.expired_at(now + Duration::from_millis(2500)));
    assert!(t.expired_at(now + Duration::from_secs(10)));
}

#[test]
fn notices_start_unexpired() {
    let info = Toast::info("好".to_string());
    let err = Toast::error("坏".to_string());
    assert!(!info.expired());
    assert!(!err.expired());
    assert!(!info.error && err.error);
    assert!(err.expires_at > info.expires_at);
}

#[test]
fn notices_last_their_documented_time() {
    let before = Instant::now();
    let info = Toast::info("好".to_string());
    let err = Toast::error("坏".to_string());
    let after = Instant::now();
    assert!(info.expires_at >= before + Duration::from_millis(2500));
    assert!(info.expires_at <= after + Duration::from_millis(2500));
    assert!(err.expires_at >= before + Duration::from_millis(4000));
    assert!(err.expires_at <= after + Duration::from_millis(4000));
}
