use base64::Engine;
use chrono::{DateTime, Duration as ChronoDuration, Utc};
use ed25519_dalek::{Signer, SigningKey};
use hen_local::license::{
    check_license_clock, device_fingerprint, hex_digest, verify_lease_at, LicenseEnvelope,
    LicensePayload, LicenseVerifier, Timestamp,
};
use rand::{rngs::OsRng, RngCore};

const LICENSE_KEY_ID: &str = "hen-local-license-v1";

fn encode(bytes: &[u8]) -> String {
    base64::engine::general_purpose::STANDARD.encode(bytes)
}

fn stamp(at: DateTime<Utc>) -> Timestamp {
    Timestamp {
        secs: at.timestamp(),
        nanos: at.timestamp_subsec_nanos(),
    }
}

fn canonical_text(payload: &LicensePayload) -> String {
    format!(
        "{{\"version\":{},\"keyId\":\"{}\",\"userId\":\"{}\",\"deviceId\":\"{}\",\"devicePublicKey\":\"{}\",\"issuedAt\":\"{}\",\"expiresAt\":\"{}\",\"plan\":\"{}\",\"unlimitedLocalTranslation\":{},\"source\":\"{}\"}}",
        payload.version,
        payload.key_id,
        payload.user_id,
        payload.device_id,
        payload.device_public_key,
        payload.issued_at,
        payload.expires_at,
        payload.plan,
        payload.unlimited_local_translation,
        payload.source
    )
}

fn random_signing_key() -> SigningKey {
    let mut random = [0_u8; 32];
    OsRng.fill_bytes(&mut random);
    SigningKey::from_bytes(&random)
}

fn verifier_for(signing_key: &SigningKey) -> LicenseVerifier {
    match LicenseVerifier::from_base64(&encode(signing_key.verifying_key().as_bytes())) {
        Ok(verifier) => verifier,
        Err(error) => panic!("verifying key should load: {error}"),
    }
}

fn signed_envelope(
    signing_key: &SigningKey,
    device_key: &str,
    expires: DateTime<Utc>,
) -> LicenseEnvelope {
    let issued = Utc::now() - ChronoDuration::seconds(1);
    let payload = LicensePayload {
        version: 1,
        key_id: LICENSE_KEY_ID.into(),
        user_id: "user-1".into(),
        device_id: "device-1".into(),
        device_public_key: device_key.into(),
        issued_at: issued.to_rfc3339(),
        expires_at: expires.to_rfc3339(),
        plan: "hen-local-monthly".into(),
        unlimited_local_translation: true,
        source: "trial".into(),
    };
    let canonical_payload = canonical_text(&payload);
    LicenseEnvelope {
        signature: encode(&signing_key.sign(canonical_payload.as_bytes()).to_bytes()),
        payload,
        canonical_payload,
    }
}

/// What reading the canonical text gives back: the payload that was signed.
fn signed_payload(envelope: &LicenseEnvelope) -> Result<LicensePayload, String> {
    Ok(LicensePayload {
        version: envelope.payload.version,
        key_id: envelope.payload.key_id.clone(),
        user_id: envelope.payload.user_id.clone(),
        device_id: envelope.payload.device_id.clone(),
        device_public_key: envelope.payload.device_public_key.clone(),
        issued_at: envelope.payload.issued_at.clone(),
        expires_at: envelope.payload.expires_at.clone(),
        plan: envelope.payload.plan.clone(),
        unlimited_local_translation: envelope.payload.unlimited_local_translation,
        source: envelope.payload.source.clone(),
    })
}

#[test]
fn rejects_tampered_license_before_dates_are_trusted() {
    let signing_key = random_signing_key();
    let device = "device-public-key";
    let mut envelope = signed_envelope(&signing_key, device, Utc::now() + ChronoDuration::days(1));
    let parsed = signed_payload(&envelope);
    envelope.payload.device_id = "tampered".into();
    let result = verify_lease_at(
        &envelope,
        device,
        &verifier_for(&signing_key),
        stamp(Utc::now()),
        parsed,
    );
    assert!(result.is_err());
    assert_eq!(
        result.err().unwrap(),
        "The local license payload does not match its signature"
    );
}

#[test]
fn rejects_license_for_another_device() {
    let signing_key = random_signing_key();
    let envelope = signed_envelope(&signing_key, "device-a", Utc::now() + ChronoDuration::days(1));
    let parsed = signed_payload(&envelope);
    let result = verify_lease_at(
        &envelope,
        "device-b",
        &verifier_for(&signing_key),
        stamp(Utc::now()),
        parsed,
    );
    assert!(result.is_err());
    assert_eq!(result.err().unwrap(), "This license belongs to a different Mac");
}

#[test]
fn accepts_valid_seven_day_device_bound_license() {
    let signing_key = random_signing_key();
    let now = Utc::now();
    let envelope = signed_envelope(
        &signing_key,
        "device-a",
        now + ChronoDuration::days(7) - ChronoDuration::seconds(2),
    );
    let parsed = signed_payload(&envelope);
    let result = verify_lease_at(&envelope, "device-a", &verifier_for(&signing_key), stamp(now), parsed);
    assert!(result.is_ok());
    assert_eq!(result.unwrap().device_id, "device-1");
}

#[test]
fn rejects_expired_license() {
    let signing_key = random_signing_key();
    let envelope = signed_envelope(&signing_key, "device-a", Utc::now() - ChronoDuration::seconds(1));
    let parsed = signed_payload(&envelope);
    let result = verify_lease_at(
        &envelope,
        "device-a",
        &verifier_for(&signing_key),
        stamp(Utc::now()),
        parsed,
    );
    assert!(result.is_err());
    assert_eq!(
        result.err().unwrap(),
        "This device license has expired. Connect to refresh it."
    );
}

#[test]
fn rejects_a_signed_lease_for_an_unknown_plan() {
    let signing_key = random_signing_key();
    let mut envelope = signed_envelope(&signing_key, "device-a", Utc::now() + ChronoDuration::days(1));
    envelope.payload.plan = "unknown-plan".into();
    envelope.canonical_payload = canonical_text(&envelope.payload);
    envelope.signature = encode(&signing_key.sign(envelope.canonical_payload.as_bytes()).to_bytes());
    let parsed = signed_payload(&envelope);
    let result = verify_lease_at(
        &envelope,
        "device-a",
        &verifier_for(&signing_key),
        stamp(Utc::now()),
        parsed,
    );
    assert!(result.is_err());
    assert_eq!(
        result.err().unwrap(),
        "The local license is not supported by this app version"
    );
}

#[test]
fn rejects_a_signature_from_another_key() {
    let signing_key = random_signing_key();
    let other_key = random_signing_key();
    let envelope = signed_envelope(&signing_key, "device-a", Utc::now() + ChronoDuration::days(1));
    let parsed = signed_payload(&envelope);
    let result = verify_lease_at(&envelope, "device-a", &verifier_for(&other_key), stamp(Utc::now()), parsed);
    assert_eq!(
        result.err().unwrap(),
        "The local license signature could not be verified"
    );
}

#[test]
fn reports_malformed_signatures_and_payloads() {
    let signing_key = random_signing_key();
    let mut envelope = signed_envelope(&signing_key, "device-a", Utc::now() + ChronoDuration::days(1));
    let parsed = signed_payload(&envelope);
    let good_signature = envelope.signature.clone();

    envelope.signature = "not base64!".into();
    let result = verify_lease_at(&envelope, "device-a", &verifier_for(&signing_key), stamp(Utc::now()), signed_payload(&envelope));
    assert!(result.err().unwrap().starts_with("License signature is invalid: "));

    envelope.signature = encode(&[1, 2, 3]);
    let result = verify_lease_at(&envelope, "device-a", &verifier_for(&signing_key), stamp(Utc::now()), signed_payload(&envelope));
    assert_eq!(result.err().unwrap(), "License signature is invalid: signature error");

    envelope.signature = good_signature;
    let result = verify_lease_at(
        &envelope,
        "device-a",
        &verifier_for(&signing_key),
        stamp(Utc::now()),
        Err("expected value at line 1 column 1".into()),
    );
    assert_eq!(
        result.err().unwrap(),
        "License payload is invalid: expected value at line 1 column 1"
    );
    assert!(parsed.is_ok());
}

#[test]
fn rejects_leases_issued_in_the_future_or_lasting_too_long() {
    let signing_key = random_signing_key();
    let now = Utc::now();
    let envelope = signed_envelope(&signing_key, "device-a", now + ChronoDuration::days(8));
    let parsed = signed_payload(&envelope);
    let result = verify_lease_at(&envelope, "device-a", &verifier_for(&signing_key), stamp(now), parsed);
    assert_eq!(
        result.err().unwrap(),
        "The license is longer than the supported offline window"
    );

    let envelope = signed_envelope(&signing_key, "device-a", now + ChronoDuration::days(1));
    let parsed = signed_payload(&envelope);
    let result = verify_lease_at(
        &envelope,
        "device-a",
        &verifier_for(&signing_key),
        stamp(now - ChronoDuration::minutes(10)),
        parsed,
    );
    assert_eq!(
        result.err().unwrap(),
        "The Mac clock is earlier than the license issue time"
    );
}

#[test]
fn embedded_key_errors_are_reported() {
    assert_eq!(
        LicenseVerifier::from_base64(&encode(&[7_u8; 16])).err().unwrap(),
        "Embedded license key has the wrong length"
    );
    assert!(LicenseVerifier::from_base64("***").err().unwrap().starts_with("Embedded license key is invalid: "));
    let key = random_signing_key();
    let padded = format!("  {}\n", encode(key.verifying_key().as_bytes()));
    assert!(LicenseVerifier::from_base64(&padded).is_ok());
}

#[test]
fn license_clock_only_moves_forward() {
    assert_eq!(check_license_clock(1_000, None), Ok(true));
    assert_eq!(check_license_clock(1_000, Some("900")), Ok(true));
    assert_eq!(check_license_clock(1_000, Some("1000")), Ok(false));
    assert_eq!(check_license_clock(1_000, Some("1300")), Ok(false));
    assert_eq!(
        check_license_clock(1_000, Some("1301")),
        Err("The Mac clock moved backwards. Restore automatic date and time, then refresh the license.".to_string())
    );
    assert_eq!(
        check_license_clock(1_000, Some("later")),
        Err("The secure license clock record is invalid".to_string())
    );
    assert_eq!(check_license_clock(-5, Some("-10")), Ok(true));
    assert_eq!(check_license_clock(5, Some("+5")), Ok(false));
}

#[test]
fn hex_digest_is_lowercase_two_digits_per_byte() {
    assert_eq!(hex_digest(&[0x00, 0x0f, 0xa0, 0xff]), "000fa0ff");
    assert_eq!(hex_digest(&[]), "");
}

#[test]
fn device_fingerprint_is_the_sha256_of_the_key() {
    assert_eq!(
        device_fingerprint("abc"),
        "ba7816bf8f01cfea414140de5dae2223b00361a396177a9cb410ff61f20015ad"
    );
    assert_eq!(device_fingerprint("").len(), 64);
}

use hen_local::license::stored_device_key_bytes;

#[test]
fn stored_device_keys_must_be_32_bytes() {
    assert_eq!(stored_device_key_bytes(&encode(&[5_u8; 32])), Ok(vec![5_u8; 32]));
    assert_eq!(
        stored_device_key_bytes(&encode(&[5_u8; 31])),
        Err("Stored device key has the wrong length".to_string())
    );
    assert!(stored_device_key_bytes("%%").unwrap_err().starts_with("Stored device key is invalid: "));
}

#[test]
fn rejects_a_lease_lasting_thirty_seconds_past_seven_days() {
    let signing_key = random_signing_key();
    let now = Utc::now();
    let envelope = signed_envelope(
        &signing_key,
        "device-a",
        now + ChronoDuration::days(7) + ChronoDuration::seconds(30),
    );
    let parsed = signed_payload(&envelope);
    let result = verify_lease_at(&envelope, "device-a", &verifier_for(&signing_key), stamp(now), parsed);
    assert_eq!(
        result.err().unwrap(),
        "The license is longer than the supported offline window"
    );
}
