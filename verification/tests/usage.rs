use hen_local::usage::{month_key, StoredUsage, UsageState};

fn stored(month: &str, lifetime: u64, monthly: u64) -> StoredUsage {
    StoredUsage {
        lifetime_seconds: lifetime,
        month_key: month.into(),
        monthly_seconds: monthly,
        completed_sessions: 0,
        session_active: true,
    }
}

#[test]
fn month_keys_are_zero_padded() {
    assert_eq!(month_key(2024, 5), "2024-05");
    assert_eq!(month_key(2024, 12), "2024-12");
    assert_eq!(month_key(33, 1), "0033-01");
    assert_eq!(month_key(-5, 3), "-005-03");
    assert_eq!(month_key(12345, 7), "12345-07");
}

#[test]
fn loading_forgets_a_running_session_and_rolls_the_month() {
    let state = UsageState::load(stored("2024-04", 100, 40), "2024-05");
    assert!(!state.running);
    assert!(!state.stored.session_active);
    assert_eq!(state.stored.month_key, "2024-05");
    assert_eq!(state.stored.monthly_seconds, 0);
    assert_eq!(state.stored.lifetime_seconds, 100);
    let state = UsageState::load(stored("", 100, 40), "2024-05");
    assert_eq!(state.stored.month_key, "2024-05");
    assert_eq!(state.stored.monthly_seconds, 40);
}

#[test]
fn checkpoints_count_each_second_once() {
    let mut state = UsageState::load(stored("2024-05", 100, 40), "2024-05");
    assert!(state.start("2024-05"));
    assert!(!state.start("2024-05"));
    assert!(state.checkpoint("2024-05", 30));
    assert!(!state.checkpoint("2024-05", 30));
    assert!(state.checkpoint("2024-05", 45));
    let shown = state.snapshot("2024-05", 50);
    assert_eq!(shown.current_session_seconds, 50);
    assert_eq!(shown.lifetime_seconds, 150);
    assert_eq!(shown.monthly_seconds, 90);
    assert!(shown.running);
    state.stop("2024-05", 60);
    assert_eq!(state.stored.lifetime_seconds, 160);
    assert_eq!(state.stored.monthly_seconds, 100);
    assert_eq!(state.stored.completed_sessions, 1);
    assert!(!state.running);
    state.stop("2024-05", 60);
    assert_eq!(state.stored.lifetime_seconds, 160);
    assert_eq!(state.stored.completed_sessions, 1);
}

#[test]
fn a_new_month_starts_from_zero() {
    let mut state = UsageState::load(stored("2024-05", 100, 40), "2024-05");
    state.start("2024-05");
    state.checkpoint("2024-05", 10);
    let shown = state.snapshot("2024-06", 25);
    assert_eq!(shown.month_key, "2024-06");
    assert_eq!(shown.monthly_seconds, 15);
    assert_eq!(shown.lifetime_seconds, 125);
}

use chrono::Datelike;
use hen_local::usage::{current_month_key, month_key_at};

#[test]
fn current_month_key_is_this_utc_month() {
    let before = chrono::Utc::now();
    let key = current_month_key().unwrap();
    let after = chrono::Utc::now();
    let expected = |at: chrono::DateTime<chrono::Utc>| format!("{:04}-{:02}", at.year(), at.month());
    assert!(key == expected(before) || key == expected(after));
    assert_eq!(key.len(), 7);
}

#[test]
fn month_key_at_reads_the_utc_month_of_a_clock_reading() {
    assert_eq!(month_key_at(Some(0)), Some("1970-01".to_string()));
    assert_eq!(month_key_at(Some(1_700_000_000)), Some("2023-11".to_string()));
    assert_eq!(month_key_at(Some(1_709_251_199)), Some("2024-02".to_string()));
    assert_eq!(month_key_at(None), None);
    assert_eq!(month_key_at(Some(u64::MAX)), None);
}
