use miniorg::sync::{bearer_header_value, sync_endpoint, sync_outcome, SyncStatus};

#[test]
fn new_status_is_idle() {
    let st = SyncStatus::new();
    assert!(!st.is_syncing);
    assert_eq!(st.last_sync, None);
    assert_eq!(st.error, None);
}

#[test]
fn manual_sync_refused_while_already_syncing() {
    let mut st = SyncStatus::new();
    st.complete_success("T0".to_string());
    st.complete_failure("old failure".to_string());
    st.begin_periodic_sync();
    let last_before = st.last_sync.clone();
    let error_before = st.error.clone();
    let r = st.begin_manual_sync();
    assert_eq!(r, Err("Sync already in progress".to_string()));
    assert!(st.is_syncing);
    assert_eq!(st.last_sync, last_before);
    assert_eq!(st.error, error_before);
}

#[test]
fn successful_attempt_lifecycle() {
    let mut st = SyncStatus::new();
    st.begin_manual_sync().unwrap();
    assert!(st.is_syncing);
    assert_eq!(st.error, None);
    st.complete_success("2024-01-01T00:00:00+00:00".to_string());
    assert!(!st.is_syncing);
    assert_eq!(st.last_sync, Some("2024-01-01T00:00:00+00:00".to_string()));
    assert_eq!(st.error, None);
}

#[test]
fn failing_attempt_lifecycle() {
    let mut st = SyncStatus::new();
    st.complete_success("T1".to_string());
    st.begin_manual_sync().unwrap();
    st.complete_failure("Sync failed: boom".to_string());
    assert!(!st.is_syncing);
    assert_eq!(st.last_sync, Some("T1".to_string()));
    assert_eq!(st.error, Some("Sync failed: boom".to_string()));
}

#[test]
fn attempt_clears_previous_error() {
    let mut st = SyncStatus::new();
    st.begin_periodic_sync();
    st.complete_failure("boom".to_string());
    assert_eq!(st.error, Some("boom".to_string()));
    st.begin_periodic_sync();
    assert_eq!(st.error, None);
}

#[test]
fn manual_sync_allowed_again_after_completion() {
    let mut st = SyncStatus::new();
    st.begin_manual_sync().unwrap();
    st.complete_success("T".to_string());
    assert!(st.begin_manual_sync().is_ok());
}

#[test]
fn complete_success_now_stamps_an_rfc3339_utc_time() {
    let mut st = SyncStatus::new();
    st.begin_manual_sync().unwrap();
    st.complete_success_now();
    assert!(!st.is_syncing);
    let stamp = st.last_sync.clone().unwrap();
    assert!(stamp.len() >= 25);
    assert!(stamp.ends_with("+00:00"));
    let t = stamp.find('T').unwrap();
    assert_eq!(&stamp[4..5], "-");
    assert_eq!(&stamp[7..8], "-");
    assert_eq!(&stamp[t + 3..t + 4], ":");
    assert_eq!(&stamp[t + 6..t + 7], ":");
    assert!(stamp[..4].chars().all(|c| c.is_ascii_digit()));
}

#[test]
fn snapshot_copies_all_fields() {
    let mut st = SyncStatus::new();
    st.begin_periodic_sync();
    st.complete_failure("why".to_string());
    let snap = st.get_sync_status();
    assert_eq!(snap.is_syncing, st.is_syncing);
    assert_eq!(snap.last_sync, st.last_sync);
    assert_eq!(snap.error, st.error);
}

#[test]
fn outcome_success_is_ok() {
    assert_eq!(sync_outcome(true, None), Ok(()));
    assert_eq!(sync_outcome(true, Some("ignored".to_string())), Ok(()));
}

#[test]
fn outcome_failure_carries_body_detail() {
    assert_eq!(
        sync_outcome(false, Some("server said no".to_string())),
        Err("Sync failed: server said no".to_string())
    );
}

#[test]
fn outcome_failure_without_body_is_generic() {
    assert_eq!(sync_outcome(false, None), Err("Sync failed: Unknown error".to_string()));
}

#[test]
fn bearer_header_and_endpoint_are_exact() {
    assert_eq!(bearer_header_value("tok"), "Bearer tok");
    assert_eq!(sync_endpoint("https://api.example.com"), "https://api.example.com/api/calendar-sync");
}
