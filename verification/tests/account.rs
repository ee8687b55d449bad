use hen_local::account::{
    config_value, deactivates_this_device, device_limit_message, refreshed_email,
    session_needs_refresh, should_refresh_lease, sign_in_callback_url, AccountConfig,
    AccountStatus, ConfigSource, RawDevice,
};
use hen_local::license::{LicensePayload, Timestamp};

fn source(runtime: Option<&str>, compiled: Option<&str>, from_file: Option<&str>) -> ConfigSource {
    ConfigSource {
        runtime: runtime.map(str::to_string),
        compiled: compiled.map(str::to_string),
        from_file: from_file.map(str::to_string),
    }
}

fn payload(device_id: &str, expires_at: &str) -> LicensePayload {
    LicensePayload {
        version: 1,
        key_id: "hen-local-license-v1".into(),
        user_id: "user-1".into(),
        device_id: device_id.into(),
        device_public_key: "key".into(),
        issued_at: "2024-05-01T00:00:00Z".into(),
        expires_at: expires_at.into(),
        plan: "hen-local-monthly".into(),
        unlimited_local_translation: true,
        source: "trial".into(),
    }
}

fn raw(id: &str) -> RawDevice {
    RawDevice {
        id: id.into(),
        friendly_name: format!("Mac {id}"),
        activated_at: "2024-05-01".into(),
        last_used_at: "2024-05-02".into(),
        deactivated_at: None,
    }
}

#[test]
fn configuration_prefers_runtime_then_compiled_then_file() {
    assert_eq!(config_value(&source(Some("https://a.example//"), Some("b"), Some("c"))), "https://a.example");
    assert_eq!(config_value(&source(None, Some("b/"), Some("c"))), "b");
    assert_eq!(config_value(&source(None, None, Some("c"))), "c");
    assert_eq!(config_value(&source(None, None, None)), "");
}

#[test]
fn configuration_defaults_provider_and_drops_empty_account_page() {
    let config = AccountConfig::from_sources(
        &source(Some("https://x.supabase.co/"), None, None),
        &source(None, Some("anon"), None),
        &source(None, None, None),
        &source(None, None, Some("/")),
    );
    assert_eq!(config.supabase_url, "https://x.supabase.co");
    assert_eq!(config.anon_key, "anon");
    assert_eq!(config.auth_provider, "google");
    assert_eq!(config.account_url, None);
    assert!(config.configured());
    let unconfigured = AccountConfig {
        supabase_url: String::new(),
        anon_key: "anon".into(),
        auth_provider: "google".into(),
        account_url: None,
    };
    assert!(!unconfigured.configured());
}

#[test]
fn initial_status_explains_what_to_do() {
    let status = AccountStatus::initial(true);
    assert_eq!(status.message, "Sign in to start or refresh your license");
    assert_eq!(status.subscription_state, "not_configured");
    let status = AccountStatus::initial(false);
    assert_eq!(status.message, "Account service is not configured in this internal build");
    assert!(!status.signed_in);
}

#[test]
fn local_update_signs_out_and_reads_the_lease() {
    let mut status = AccountStatus::signed_in(
        "a@b.c".into(),
        "active".into(),
        "stripe".into(),
        Some("2024-06-01".into()),
        None,
        vec![raw("d1")],
        None,
    );
    let lease = payload("d1", "2024-05-08T00:00:00Z");
    status.update_local(true, None, Some(&lease));
    assert!(!status.signed_in);
    assert_eq!(status.email, None);
    assert_eq!(status.subscription_state, "signed_out");
    assert!(status.devices.is_empty());
    assert!(status.license_valid);
    assert_eq!(status.current_device_id.as_deref(), Some("d1"));
    assert_eq!(status.lease_expires_at.as_deref(), Some("2024-05-08T00:00:00Z"));

    status.update_local(true, Some(String::new()), None);
    assert!(status.signed_in);
    assert_eq!(status.email, None);
    assert!(!status.license_valid);

    status.update_local(false, Some("x@y.z".into()), Some(&lease));
    assert!(!status.configured);
    assert!(!status.license_valid);
}

#[test]
fn refreshed_status_marks_the_current_device() {
    let lease = payload("d2", "2024-05-08T00:00:00Z");
    let status = AccountStatus::signed_in(
        "a@b.c".into(),
        "active".into(),
        "stripe".into(),
        None,
        Some(&lease),
        vec![raw("d1"), raw("d2")],
        None,
    );
    assert_eq!(status.email.as_deref(), Some("a@b.c"));
    assert!(!status.devices[0].current);
    assert!(status.devices[1].current);
    assert_eq!(status.message, "License is ready for offline translation");

    let status = AccountStatus::signed_in(
        String::new(),
        "unknown".into(),
        "unknown".into(),
        None,
        None,
        vec![raw("d1")],
        Some("Two Macs are already active. Deactivate one below, then refresh this license.".into()),
    );
    assert!(!status.devices[0].current);
    assert!(!status.license_valid);
    assert_eq!(
        status.message,
        "Two Macs are already active. Deactivate one below, then refresh this license."
    );
}

#[test]
fn lease_is_refreshed_within_a_day_of_expiry() {
    let now = Timestamp { secs: 1_000_000, nanos: 0 };
    assert!(should_refresh_lease(None, now));
    assert!(should_refresh_lease(Some(Timestamp { secs: 1_086_400, nanos: 0 }), now));
    assert!(!should_refresh_lease(Some(Timestamp { secs: 1_086_400, nanos: 1 }), now));
    assert!(!should_refresh_lease(Some(Timestamp { secs: 2_000_000, nanos: 0 }), now));
}

#[test]
fn sessions_are_renewed_five_minutes_early() {
    assert!(session_needs_refresh(1_300, 1_000));
    assert!(!session_needs_refresh(1_301, 1_000));
}

#[test]
fn device_limit_gets_a_friendly_message() {
    assert_eq!(
        device_limit_message("DEVICE_LIMIT_REACHED: 2 devices").as_deref(),
        Some("Two Macs are already active. Deactivate one below, then refresh this license.")
    );
    assert_eq!(device_limit_message("network down"), None);
}

#[test]
fn refresh_keeps_the_known_email_when_none_is_sent() {
    assert_eq!(refreshed_email(Some("new@x.y".into()), "old@x.y"), "new@x.y");
    assert_eq!(refreshed_email(Some(String::new()), "old@x.y"), "old@x.y");
    assert_eq!(refreshed_email(None, "old@x.y"), "old@x.y");
}

#[test]
fn callback_url_carries_the_state() {
    assert_eq!(sign_in_callback_url("abc"), "henlocal://auth/callback?state=abc");
}

#[test]
fn deactivating_the_leased_device_is_detected() {
    let lease = payload("d1", "2024-05-08T00:00:00Z");
    assert!(deactivates_this_device(Some(&lease), "d1"));
    assert!(!deactivates_this_device(Some(&lease), "d2"));
    assert!(!deactivates_this_device(None, "d1"));
}

use hen_local::account::{
    check_sign_in_state, pkce_challenge, read_sign_in_callback, refresh_step, sign_in_target,
    RefreshAction, RefreshEvent, RefreshPhase,
};

fn config(account_url: Option<&str>) -> AccountConfig {
    AccountConfig {
        supabase_url: "https://x.supabase.co".into(),
        anon_key: "anon".into(),
        auth_provider: "google".into(),
        account_url: account_url.map(str::to_string),
    }
}

#[test]
fn pkce_challenge_is_url_safe_sha256() {
    assert_eq!(pkce_challenge("abc"), "ungWv48Bz-pBQUDeXa4iI7ADYaOWF3qctBD_YfIAFa0");
}

#[test]
fn sign_in_goes_to_the_account_page_or_the_provider() {
    let target = sign_in_target(&config(None), "henlocal://auth/callback?state=s", "ch", "s");
    assert_eq!(target.base, "https://x.supabase.co/auth/v1/authorize");
    assert_eq!(target.extra_segment, None);
    assert_eq!(target.query[0], ("provider".to_string(), "google".to_string()));
    assert_eq!(target.query.len(), 5);
    let target = sign_in_target(&config(Some("https://account.example")), "cb", "ch", "s");
    assert_eq!(target.base, "https://account.example");
    assert_eq!(target.extra_segment.as_deref(), Some("desktop-sign-in"));
    assert_eq!(
        target.query,
        vec![
            ("redirect_to".to_string(), "cb".to_string()),
            ("code_challenge".to_string(), "ch".to_string()),
            ("code_challenge_method".to_string(), "s256".to_string()),
            ("state".to_string(), "s".to_string()),
        ]
    );
}

#[test]
fn callbacks_are_checked_before_their_code_is_used() {
    assert_eq!(
        read_sign_in_callback("henlocal://auth/callback?code=c1&state=s1"),
        Ok(("c1".to_string(), Some("s1".to_string())))
    );
    assert_eq!(
        read_sign_in_callback("henlocal://auth/callback?code=a%20b"),
        Ok(("a b".to_string(), None))
    );
    assert_eq!(
        read_sign_in_callback("https://auth/callback?code=c1"),
        Err("Unknown Hen Local sign-in callback".to_string())
    );
    assert_eq!(
        read_sign_in_callback("henlocal://auth/callback?error_description=denied&code=c"),
        Err("denied".to_string())
    );
    assert_eq!(
        read_sign_in_callback("henlocal://auth/callback?state=s"),
        Err("Sign-in callback is missing its code".to_string())
    );
    assert!(read_sign_in_callback("not a url")
        .unwrap_err()
        .starts_with("Invalid sign-in callback: "));
}

#[test]
fn sign_in_state_must_match_the_pending_attempt() {
    assert_eq!(check_sign_in_state(&Some("s".into()), Some("s")), Ok(()));
    assert_eq!(
        check_sign_in_state(&Some("s".into()), Some("t")),
        Err("Sign-in state did not match. Start sign-in again.".to_string())
    );
    assert_eq!(
        check_sign_in_state(&None, None),
        Err("This sign-in attempt is no longer active. Start sign-in again.".to_string())
    );
}

#[test]
fn refresh_renews_what_is_due_and_tolerates_the_device_limit() {
    let (phase, action) = refresh_step(
        RefreshPhase::Start,
        RefreshEvent::Begin { configured: true, session: Ok(Some(1_100)), now: 1_000 },
    );
    assert_eq!(phase, RefreshPhase::RenewingSession);
    assert!(matches!(action, RefreshAction::RenewSession));
    let (phase, action) = refresh_step(phase, RefreshEvent::SessionRenewed(Ok(())));
    assert!(matches!(action, RefreshAction::FetchAccount));
    let (phase, action) = refresh_step(phase, RefreshEvent::AccountFetched(Ok(())));
    assert!(matches!(action, RefreshAction::CheckLease));
    let (phase, action) = refresh_step(
        phase,
        RefreshEvent::LeaseChecked { lease: None, at: Timestamp { secs: 1_000, nanos: 0 } },
    );
    assert!(matches!(action, RefreshAction::ActivateDevice));
    let (phase, action) = refresh_step(
        phase,
        RefreshEvent::DeviceActivated(Err("DEVICE_LIMIT_REACHED".into())),
    );
    assert_eq!(phase, RefreshPhase::Done);
    match action {
        RefreshAction::Finish(Some(message)) => assert_eq!(
            message,
            "Two Macs are already active. Deactivate one below, then refresh this license."
        ),
        other => panic!("unexpected {other:?}"),
    }
    let (_, action) = refresh_step(phase, RefreshEvent::AccountRefetched(Ok(())));
    assert!(matches!(action, RefreshAction::Ignore));
}

#[test]
fn refresh_keeps_a_fresh_lease_and_reports_failures() {
    let (_, action) = refresh_step(
        RefreshPhase::Start,
        RefreshEvent::Begin { configured: false, session: Ok(None), now: 0 },
    );
    assert!(matches!(action, RefreshAction::ReturnLocalStatus));
    let (phase, action) = refresh_step(
        RefreshPhase::Start,
        RefreshEvent::Begin { configured: true, session: Ok(Some(10_000)), now: 1_000 },
    );
    assert!(matches!(action, RefreshAction::FetchAccount));
    let (phase, _) = refresh_step(phase, RefreshEvent::AccountFetched(Ok(())));
    let (_, action) = refresh_step(
        phase,
        RefreshEvent::LeaseChecked {
            lease: Some(lease_payload("d1", "1970-01-12T13:46:40Z")),
            at: Timestamp { secs: 1_000, nanos: 0 },
        },
    );
    assert!(matches!(action, RefreshAction::Finish(None)));
    let (_, action) = refresh_step(
        RefreshPhase::CheckingLease,
        RefreshEvent::LeaseChecked {
            lease: Some(lease_payload("d1", "1970-01-01T00:33:20Z")),
            at: Timestamp { secs: 1_000, nanos: 0 },
        },
    );
    match action {
        RefreshAction::RenewLease(device) => assert_eq!(device, "d1"),
        other => panic!("unexpected {other:?}"),
    }
    let (_, action) = refresh_step(RefreshPhase::RenewingLease, RefreshEvent::LeaseRenewed(Err("offline".into())));
    match action {
        RefreshAction::Fail(error) => assert_eq!(error, "offline"),
        other => panic!("unexpected {other:?}"),
    }
}

use hen_local::account::friendly_name_from;

#[test]
fn device_names_are_trimmed_and_bounded() {
    assert_eq!(friendly_name_from(Some("  Studio Mac \n".into())), "Studio Mac");
    assert_eq!(friendly_name_from(Some("   ".into())), "Mac");
    assert_eq!(friendly_name_from(None), "Mac");
    assert_eq!(friendly_name_from(Some("x".repeat(150))).chars().count(), 100);
}

use hen_local::account::translation_gate;
use hen_local::license::LicenseEnvelope;

fn envelope() -> LicenseEnvelope {
    LicenseEnvelope {
        payload: payload("d1", "2024-05-08T00:00:00Z"),
        canonical_payload: "{}".into(),
        signature: "sig".into(),
    }
}

#[test]
fn unconfigured_builds_stay_unlocked() {
    assert!(matches!(translation_gate(false, Err("no key".into()), Err("no lease".into())), Ok(None)));
    assert_eq!(
        translation_gate(true, Ok("key".into()), Ok(None)).err(),
        Some("Sign in and activate this Mac before starting live translation".to_string())
    );
    assert_eq!(translation_gate(true, Err("keychain".into()), Ok(None)).err(), Some("keychain".to_string()));
    match translation_gate(true, Ok("key".into()), Ok(Some(envelope()))) {
        Ok(Some((key, lease))) => {
            assert_eq!(key, "key");
            assert_eq!(lease.signature, "sig");
        }
        _ => panic!("expected a lease to verify"),
    }
}

#[test]
fn pkce_challenge_uses_the_url_safe_alphabet_without_padding() {
    let challenge = pkce_challenge("hen-local-verifier");
    assert_eq!(challenge.len(), 43);
    assert!(challenge.chars().all(|c| c.is_ascii_alphanumeric() || c == '-' || c == '_'));
}

fn lease_payload(device_id: &str, expires_at: &str) -> hen_local::license::LicensePayload {
    hen_local::license::LicensePayload {
        version: 1,
        key_id: "hen-local-license-v1".into(),
        user_id: "user-1".into(),
        device_id: device_id.into(),
        device_public_key: "device-a".into(),
        issued_at: "1970-01-01T00:00:00Z".into(),
        expires_at: expires_at.into(),
        plan: "hen-local-monthly".into(),
        unlimited_local_translation: true,
        source: "trial".into(),
    }
}

#[test]
fn refresh_reads_the_lease_expiry_itself() {
    let now = Timestamp { secs: 1_000, nanos: 0 };
    let (_, action) = refresh_step(
        RefreshPhase::CheckingLease,
        RefreshEvent::LeaseChecked { lease: Some(lease_payload("d2", "1970-01-02T00:16:40Z")), at: now },
    );
    match action {
        RefreshAction::RenewLease(device) => assert_eq!(device, "d2"),
        other => panic!("a lease expiring exactly a day later is due: {other:?}"),
    }
    let (_, action) = refresh_step(
        RefreshPhase::CheckingLease,
        RefreshEvent::LeaseChecked { lease: Some(lease_payload("d2", "1970-01-02T00:16:41Z")), at: now },
    );
    assert!(matches!(action, RefreshAction::Finish(None)));
    let (_, action) = refresh_step(
        RefreshPhase::CheckingLease,
        RefreshEvent::LeaseChecked { lease: Some(lease_payload("d3", "not a date")), at: now },
    );
    match action {
        RefreshAction::RenewLease(device) => assert_eq!(device, "d3"),
        other => panic!("an unreadable expiry is renewed: {other:?}"),
    }
}

#[test]
fn lease_expiry_reads_the_payload_date() {
    let expiry = hen_local::license::lease_expiry(&lease_payload("d1", "2024-05-01T12:00:00+02:00")).unwrap();
    assert_eq!(expiry.secs, 1_714_557_600);
    assert_eq!(expiry.nanos, 0);
    assert!(hen_local::license::lease_expiry(&lease_payload("d1", "tomorrow")).is_none());
}
