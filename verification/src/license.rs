//! Offline device licenses: a signed lease bound to one Mac, valid for a
//! short window, checked before live translation may start.

use vstd::prelude::*;

use base64::Engine;

use sha2::Digest;

use crate::text::{
    chars_of, concat, parse_i64, parse_i64_chars, str_eq, trim, trimmed,
};

verus! {

/// The signed content of a lease.
pub struct LicensePayload {
    pub version: u32,
    pub key_id: String,
    pub user_id: String,
    pub device_id: String,
    pub device_public_key: String,
    pub issued_at: String,
    pub expires_at: String,
    pub plan: String,
    pub unlimited_local_translation: bool,
    pub source: String,
}

/// A lease's payload as plain values.
pub struct PayloadView {
    pub version: u32,
    pub key_id: Seq<char>,
    pub user_id: Seq<char>,
    pub device_id: Seq<char>,
    pub device_public_key: Seq<char>,
    pub issued_at: Seq<char>,
    pub expires_at: Seq<char>,
    pub plan: Seq<char>,
    pub unlimited_local_translation: bool,
    pub source: Seq<char>,
}

impl View for LicensePayload {
    type V = PayloadView;

    open spec fn view(&self) -> PayloadView {
        PayloadView {
            version: self.version,
            key_id: self.key_id@,
            user_id: self.user_id@,
            device_id: self.device_id@,
            device_public_key: self.device_public_key@,
            issued_at: self.issued_at@,
            expires_at: self.expires_at@,
            plan: self.plan@,
            unlimited_local_translation: self.unlimited_local_translation,
            source: self.source@,
        }
    }
}

impl LicensePayload {
    /// A field-by-field copy.
    pub fn duplicate(&self) -> (out: LicensePayload)
        ensures
            out@ == self@,
    {
        LicensePayload {
            version: self.version,
            key_id: self.key_id.clone(),
            user_id: self.user_id.clone(),
            device_id: self.device_id.clone(),
            device_public_key: self.device_public_key.clone(),
            issued_at: self.issued_at.clone(),
            expires_at: self.expires_at.clone(),
            plan: self.plan.clone(),
            unlimited_local_translation: self.unlimited_local_translation,
            source: self.source.clone(),
        }
    }

    /// Whether two payloads hold the same values.
    pub fn same_as(&self, other: &LicensePayload) -> (r: bool)
        ensures
            r == (self@ == other@),
    {
        self.version == other.version && str_eq(self.key_id.as_str(), other.key_id.as_str())
            && str_eq(self.user_id.as_str(), other.user_id.as_str()) && str_eq(
            self.device_id.as_str(),
            other.device_id.as_str(),
        ) && str_eq(self.device_public_key.as_str(), other.device_public_key.as_str()) && str_eq(
            self.issued_at.as_str(),
            other.issued_at.as_str(),
        ) && str_eq(self.expires_at.as_str(), other.expires_at.as_str()) && str_eq(
            self.plan.as_str(),
            other.plan.as_str(),
        ) && self.unlimited_local_translation == other.unlimited_local_translation && str_eq(
            self.source.as_str(),
            other.source.as_str(),
        )
    }
}

/// A stored lease: the payload, the exact text that was signed, and the
/// base64 signature over that text.
pub struct LicenseEnvelope {
    pub payload: LicensePayload,
    pub canonical_payload: String,
    pub signature: String,
}

/// A stored lease as plain values.
pub struct EnvelopeView {
    pub payload: PayloadView,
    pub canonical_payload: Seq<char>,
    pub signature: Seq<char>,
}

impl View for LicenseEnvelope {
    type V = EnvelopeView;

    open spec fn view(&self) -> EnvelopeView {
        EnvelopeView {
            payload: self.payload@,
            canonical_payload: self.canonical_payload@,
            signature: self.signature@,
        }
    }
}

/// An instant: seconds since the Unix epoch and the nanoseconds past that
/// second (a leap second is written with nanoseconds past 999,999,999).
#[derive(Clone, Copy)]
pub struct Timestamp {
    pub secs: i64,
    pub nanos: u32,
}

/// An instant as a pair of integers.
pub open spec fn instant(t: Timestamp) -> (int, int) {
    (t.secs as int, t.nanos as int)
}

/// Whether instant `a` comes after instant `b`.
pub open spec fn later(a: (int, int), b: (int, int)) -> bool {
    a.0 > b.0 || (a.0 == b.0 && a.1 > b.1)
}

/// The instant `seconds` whole seconds after `t`; an instant inside a leap
/// second leaves it.
pub open spec fn shifted(t: (int, int), seconds: int) -> (int, int) {
    (t.0 + seconds, t.1 % 1_000_000_000)
}

/// Whether `a` comes after `b`, for instants given as exact integers.
fn later_exec(a_secs: i128, a_nanos: u32, b_secs: i128, b_nanos: u32) -> (r: bool)
    ensures
        r == later((a_secs as int, a_nanos as int), (b_secs as int, b_nanos as int)),
{
    a_secs > b_secs || (a_secs == b_secs && a_nanos > b_nanos)
}

// ---------------------------------------------------------------------
// Outside calls
// ---------------------------------------------------------------------

#[verifier::external_type_specification]
#[verifier::external_body]
pub struct ExVerifyingKey(ed25519_dalek::VerifyingKey);

#[verifier::external_type_specification]
#[verifier::external_body]
pub struct ExSignature(ed25519_dalek::Signature);

/// What the standard base64 alphabet (with padding) decodes `text` to, or
/// the decoder's error message.
pub uninterp spec fn base64_standard_decode(text: Seq<char>) -> Result<Seq<u8>, Seq<char>>;

/// Whether 32 bytes are the compressed form of an Edwards point.
pub uninterp spec fn ed25519_point_valid(bytes: Seq<u8>) -> bool;

/// Whether strict Ed25519 verification accepts `signature` over the UTF-8
/// bytes of `message` under the public key `key`.
pub uninterp spec fn ed25519_strict_accepts(key: Seq<u8>, message: Seq<char>, signature: Seq<u8>) -> bool;

/// The instant an RFC 3339 date-and-time denotes (seconds since the epoch
/// and nanoseconds), or the parser's error message.
pub uninterp spec fn rfc3339_instant(text: Seq<char>) -> Result<(i64, u32), Seq<char>>;

/// The view of a decoding result.
pub open spec fn bytes_result(r: Result<Vec<u8>, String>) -> Result<Seq<u8>, Seq<char>> {
    match r {
        Ok(v) => Ok(v@),
        Err(e) => Err(e@),
    }
}

/// `base64::engine::general_purpose::STANDARD.decode`: the decoded bytes,
/// or the decoder's error (`DecodeError`) as text. The result is named,
/// not stated.
#[verifier::external_body]
fn decode_base64(text: &str) -> (r: Result<Vec<u8>, String>)
    ensures
        bytes_result(r) == base64_standard_decode(text@),
{
    match base64::engine::general_purpose::STANDARD.decode(text) {
        Ok(bytes) => Ok(bytes),
        Err(error) => Err(error.to_string()),
    }
}

/// `chrono::DateTime::parse_from_rfc3339`, taken to UTC: the instant, or
/// the parser's error as text. The instant is named, not stated; its
/// nanoseconds stay below two seconds, as every chrono time does.
#[verifier::external_body]
fn parse_rfc3339(text: &str) -> (r: Result<Timestamp, String>)
    ensures
        match r {
            Ok(t) => rfc3339_instant(text@) == Ok::<(i64, u32), Seq<char>>((t.secs, t.nanos))
                && t.nanos < 2_000_000_000,
            Err(e) => rfc3339_instant(text@) == Err::<(i64, u32), Seq<char>>(e@),
        },
{
    match chrono::DateTime::parse_from_rfc3339(text) {
        Ok(value) => {
            let utc = value.with_timezone(&chrono::Utc);
            Ok(Timestamp { secs: utc.timestamp(), nanos: utc.timestamp_subsec_nanos() })
        },
        Err(error) => Err(error.to_string()),
    }
}

/// A public key that signs leases, with its 32 bytes.
pub struct LicenseVerifier {
    bytes: Vec<u8>,
    key: ed25519_dalek::VerifyingKey,
}

impl LicenseVerifier {
    /// The key's compressed bytes.
    pub closed spec fn key_bytes(&self) -> Seq<u8> {
        self.bytes@
    }
}

/// `ed25519_dalek::VerifyingKey::from_bytes`: succeeds exactly when the
/// bytes decompress to a curve point; its error then reads
/// `signature error: Cannot decompress Edwards point`.
#[verifier::external_body]
fn verifying_key_from_bytes(bytes: &[u8]) -> (r: Result<LicenseVerifier, String>)
    requires
        bytes@.len() == 32,
    ensures
        r is Ok <==> ed25519_point_valid(bytes@),
        r matches Ok(k) ==> k.key_bytes() == bytes@,
        r matches Err(e) ==> e@ == "signature error: Cannot decompress Edwards point"@,
{
    let array: [u8; 32] = bytes.try_into().unwrap();
    match ed25519_dalek::VerifyingKey::from_bytes(&array) {
        Ok(key) => Ok(LicenseVerifier { bytes: bytes.to_vec(), key }),
        Err(error) => Err(error.to_string()),
    }
}

/// A signature of 64 bytes.
pub struct LicenseSignature {
    bytes: Vec<u8>,
    signature: ed25519_dalek::Signature,
}

impl LicenseSignature {
    /// The signature's bytes.
    pub closed spec fn signature_bytes(&self) -> Seq<u8> {
        self.bytes@
    }
}

/// `ed25519_dalek::Signature::from_slice`: succeeds exactly on 64 bytes;
/// its error reads `signature error`.
#[verifier::external_body]
fn signature_from_slice(bytes: &[u8]) -> (r: Result<LicenseSignature, String>)
    ensures
        r is Ok <==> bytes@.len() == 64,
        r matches Ok(s) ==> s.signature_bytes() == bytes@,
        r matches Err(e) ==> e@ == "signature error"@,
{
    match ed25519_dalek::Signature::from_slice(bytes) {
        Ok(signature) => Ok(LicenseSignature { bytes: bytes.to_vec(), signature }),
        Err(error) => Err(error.to_string()),
    }
}

/// `ed25519_dalek::VerifyingKey::verify_strict` over the UTF-8 bytes of
/// `message`: whether it succeeds is named, not stated.
#[verifier::external_body]
fn verify_strict(key: &LicenseVerifier, message: &str, signature: &LicenseSignature) -> (r: bool)
    ensures
        r == ed25519_strict_accepts(key.key_bytes(), message@, signature.signature_bytes()),
{
    key.key.verify_strict(message.as_bytes(), &signature.signature).is_ok()
}

// ---------------------------------------------------------------------
// The embedded key
// ---------------------------------------------------------------------

/// The key bytes read from the base64 text embedded in the app, or why
/// they cannot serve.
pub open spec fn embedded_key_verdict(text: Seq<char>) -> Result<Seq<u8>, Seq<char>> {
    match base64_standard_decode(trim(text)) {
        Err(e) => Err("Embedded license key is invalid: "@ + e),
        Ok(b) => if b.len() != 32 {
            Err("Embedded license key has the wrong length"@)
        } else if !ed25519_point_valid(b) {
            Err("Embedded license key is invalid: signature error: Cannot decompress Edwards point"@)
        } else {
            Ok(b)
        },
    }
}

impl LicenseVerifier {
    /// Reads the lease-signing key from its base64 text (surrounding
    /// whitespace ignored).
    pub fn from_base64(text: &str) -> (r: Result<LicenseVerifier, String>)
        ensures
            match r {
                Ok(k) => embedded_key_verdict(text@) == Ok::<Seq<u8>, Seq<char>>(k.key_bytes()),
                Err(e) => embedded_key_verdict(text@) == Err::<Seq<u8>, Seq<char>>(e@),
            },
    {
        let t = trimmed(text);
        match decode_base64(t.as_str()) {
            Err(e) => Err(concat("Embedded license key is invalid: ", e.as_str())),
            Ok(bytes) => {
                if bytes.len() != 32 {
                    return Err("Embedded license key has the wrong length".to_string());
                }
                match verifying_key_from_bytes(bytes.as_slice()) {
                    Ok(k) => Ok(k),
                    Err(e) => {
                        proof {
                            reveal_strlit("Embedded license key is invalid: ");
                            reveal_strlit("signature error: Cannot decompress Edwards point");
                            reveal_strlit(
                                "Embedded license key is invalid: signature error: Cannot decompress Edwards point",
                            );
                        }
                        let msg = concat("Embedded license key is invalid: ", e.as_str());
                        assert(msg@ =~= "Embedded license key is invalid: signature error: Cannot decompress Edwards point"@);
                        Err(msg)
                    },
                }
            },
        }
    }
}

// ---------------------------------------------------------------------
// Checking a lease
// ---------------------------------------------------------------------

/// The view of a payload result.
pub open spec fn payload_result(r: Result<LicensePayload, String>) -> Result<PayloadView, Seq<char>> {
    match r {
        Ok(p) => Ok(p@),
        Err(e) => Err(e@),
    }
}

/// Whether a payload names this app version's key, plan and entitlement.
pub open spec fn supported_payload(p: PayloadView) -> bool {
    &&& p.version == 1
    &&& p.key_id == "hen-local-license-v1"@
    &&& p.plan == "hen-local-monthly"@
    &&& p.unlimited_local_translation
}

/// The checks on a lease's dates, once its payload is trusted: issued no
/// later than five minutes from now, not expired, and lasting at most
/// seven days.
pub open spec fn date_verdict(p: PayloadView, now: (int, int)) -> Result<PayloadView, Seq<char>> {
    match rfc3339_instant(p.issued_at) {
        Err(e) => Err("License date is invalid: "@ + e),
        Ok(i) => match rfc3339_instant(p.expires_at) {
            Err(e) => Err("License date is invalid: "@ + e),
            Ok(x) => {
                let issued = (i.0 as int, i.1 as int);
                let expires = (x.0 as int, x.1 as int);
                if later(issued, shifted(now, 300)) {
                    Err("The Mac clock is earlier than the license issue time"@)
                } else if !later(expires, now) {
                    Err("This device license has expired. Connect to refresh it."@)
                } else if later(expires, shifted(issued, 604800)) {
                    Err("The license is longer than the supported offline window"@)
                } else {
                    Ok(p)
                }
            },
        },
    }
}

/// The verdict on a lease for the device whose base64 public key is
/// `device_key`, under the signing key `key`, at `now`, given `parsed`, the
/// payload read from the lease's canonical text (or why it could not be
/// read). The signature is checked first, so nothing of the payload is
/// trusted before it; then the payload must be the signed one, supported,
/// bound to this device, and current.
pub open spec fn lease_verdict(
    env: EnvelopeView,
    device_key: Seq<char>,
    key: Seq<u8>,
    now: (int, int),
    parsed: Result<PayloadView, Seq<char>>,
) -> Result<PayloadView, Seq<char>> {
    match base64_standard_decode(env.signature) {
        Err(e) => Err("License signature is invalid: "@ + e),
        Ok(sig) => if sig.len() != 64 {
            Err("License signature is invalid: signature error"@)
        } else if !ed25519_strict_accepts(key, env.canonical_payload, sig) {
            Err("The local license signature could not be verified"@)
        } else {
            match parsed {
                Err(e) => Err("License payload is invalid: "@ + e),
                Ok(p) => if p != env.payload {
                    Err("The local license payload does not match its signature"@)
                } else if !supported_payload(p) {
                    Err("The local license is not supported by this app version"@)
                } else if p.device_public_key != device_key {
                    Err("This license belongs to a different Mac"@)
                } else {
                    date_verdict(p, now)
                },
            }
        },
    }
}

/// When a lease expires, read from its `expires_at` text; `None` when that
/// text is not an RFC 3339 date.
pub fn lease_expiry(payload: &LicensePayload) -> (r: Option<Timestamp>)
    ensures
        match r {
            Some(t) => rfc3339_instant(payload.expires_at@) == Ok::<(i64, u32), Seq<char>>((t.secs, t.nanos)),
            None => rfc3339_instant(payload.expires_at@) is Err,
        },
{
    match parse_rfc3339(payload.expires_at.as_str()) {
        Ok(t) => Some(t),
        Err(_) => None,
    }
}

/// Checks a lease's dates against `now`.
fn check_dates(p: LicensePayload, now: Timestamp) -> (r: Result<LicensePayload, String>)
    ensures
        payload_result(r) == date_verdict(p@, instant(now)),
{
    let issued = match parse_rfc3339(p.issued_at.as_str()) {
        Ok(t) => t,
        Err(e) => return Err(concat("License date is invalid: ", e.as_str())),
    };
    let expires = match parse_rfc3339(p.expires_at.as_str()) {
        Ok(t) => t,
        Err(e) => return Err(concat("License date is invalid: ", e.as_str())),
    };
    let now_plus = now.secs as i128 + 300;
    let now_nanos = now.nanos % 1_000_000_000;
    if later_exec(issued.secs as i128, issued.nanos, now_plus, now_nanos) {
        return Err("The Mac clock is earlier than the license issue time".to_string());
    }
    if !later_exec(expires.secs as i128, expires.nanos, now.secs as i128, now.nanos) {
        return Err("This device license has expired. Connect to refresh it.".to_string());
    }
    let limit = issued.secs as i128 + 604800;
    let limit_nanos = (issued.nanos % 1_000_000_000) % 1_000_000_000;
    if later_exec(expires.secs as i128, expires.nanos, limit, limit_nanos) {
        return Err("The license is longer than the supported offline window".to_string());
    }
    Ok(p)
}

/// Checks a lease for this device at `now`. `canonical` is the payload read
/// from `envelope.canonical_payload` (or the reader's error); it is only
/// looked at once the signature over that text has been verified.
pub fn verify_lease_at(
    envelope: &LicenseEnvelope,
    device_public_key: &str,
    verifying_key: &LicenseVerifier,
    now: Timestamp,
    canonical: Result<LicensePayload, String>,
) -> (r: Result<LicensePayload, String>)
    ensures
        payload_result(r) == lease_verdict(
            envelope@,
            device_public_key@,
            verifying_key.key_bytes(),
            instant(now),
            payload_result(canonical),
        ),
{
    let signature = match decode_base64(envelope.signature.as_str()) {
        Ok(bytes) => bytes,
        Err(e) => return Err(concat("License signature is invalid: ", e.as_str())),
    };
    let signature = match signature_from_slice(signature.as_slice()) {
        Ok(s) => s,
        Err(e) => {
            proof {
                reveal_strlit("License signature is invalid: ");
                reveal_strlit("signature error");
                reveal_strlit("License signature is invalid: signature error");
            }
            let msg = concat("License signature is invalid: ", e.as_str());
            assert(msg@ =~= "License signature is invalid: signature error"@);
            return Err(msg);
        },
    };
    if !verify_strict(verifying_key, envelope.canonical_payload.as_str(), &signature) {
        return Err("The local license signature could not be verified".to_string());
    }
    let payload = match canonical {
        Ok(p) => p,
        Err(e) => return Err(concat("License payload is invalid: ", e.as_str())),
    };
    if !payload.same_as(&envelope.payload) {
        return Err("The local license payload does not match its signature".to_string());
    }
    if !(payload.version == 1 && str_eq(payload.key_id.as_str(), "hen-local-license-v1") && str_eq(
        payload.plan.as_str(),
        "hen-local-monthly",
    ) && payload.unlimited_local_translation) {
        return Err("The local license is not supported by this app version".to_string());
    }
    if !str_eq(payload.device_public_key.as_str(), device_public_key) {
        return Err("This license belongs to a different Mac".to_string());
    }
    check_dates(payload, now)
}

// ---------------------------------------------------------------------
// Laws of lease checking
// ---------------------------------------------------------------------

/// An accepted lease is the signed one, names this app's key and plan, is
/// bound to this device, was issued no later than five minutes from now,
/// has not expired, and lasts no longer than seven days.
pub proof fn law_accepted_lease_is_signed_bound_and_current(
    env: EnvelopeView,
    device_key: Seq<char>,
    key: Seq<u8>,
    now: (int, int),
    parsed: Result<PayloadView, Seq<char>>,
)
    requires
        lease_verdict(env, device_key, key, now, parsed) is Ok,
    ensures
        ({
            let p = lease_verdict(env, device_key, key, now, parsed)->Ok_0;
            let sig = base64_standard_decode(env.signature)->Ok_0;
            let issued = rfc3339_instant(p.issued_at)->Ok_0;
            let expires = rfc3339_instant(p.expires_at)->Ok_0;
            &&& base64_standard_decode(env.signature) is Ok
            &&& sig.len() == 64
            &&& ed25519_strict_accepts(key, env.canonical_payload, sig)
            &&& parsed == Ok::<PayloadView, Seq<char>>(p)
            &&& p == env.payload
            &&& supported_payload(p)
            &&& p.device_public_key == device_key
            &&& rfc3339_instant(p.issued_at) is Ok
            &&& rfc3339_instant(p.expires_at) is Ok
            &&& !later((issued.0 as int, issued.1 as int), shifted(now, 300))
            &&& later((expires.0 as int, expires.1 as int), now)
            &&& !later(
                (expires.0 as int, expires.1 as int),
                shifted((issued.0 as int, issued.1 as int), 604800),
            )
        }),
{
}

/// Every lease that should work is accepted: one that is signed, is the
/// signed payload, names this app's key and plan, is bound to this device,
/// was issued no later than five minutes from now, has not expired and
/// lasts at most seven days gives back its payload.
pub proof fn law_current_lease_is_accepted(
    env: EnvelopeView,
    device_key: Seq<char>,
    key: Seq<u8>,
    now: (int, int),
    parsed: Result<PayloadView, Seq<char>>,
)
    requires
        base64_standard_decode(env.signature) is Ok,
        base64_standard_decode(env.signature)->Ok_0.len() == 64,
        ed25519_strict_accepts(key, env.canonical_payload, base64_standard_decode(env.signature)->Ok_0),
        parsed == Ok::<PayloadView, Seq<char>>(env.payload),
        supported_payload(env.payload),
        env.payload.device_public_key == device_key,
        rfc3339_instant(env.payload.issued_at) is Ok,
        rfc3339_instant(env.payload.expires_at) is Ok,
        ({
            let i = rfc3339_instant(env.payload.issued_at)->Ok_0;
            let x = rfc3339_instant(env.payload.expires_at)->Ok_0;
            let issued = (i.0 as int, i.1 as int);
            let expires = (x.0 as int, x.1 as int);
            &&& !later(issued, shifted(now, 300))
            &&& later(expires, now)
            &&& !later(expires, shifted(issued, 604800))
        }),
    ensures
        lease_verdict(env, device_key, key, now, parsed) == Ok::<PayloadView, Seq<char>>(env.payload),
{
}

/// Nothing of the payload is trusted before the signature: a signature
/// that does not verify rejects the lease whatever the payload and the
/// clock say.
pub proof fn law_signature_is_checked_before_the_payload(
    env: EnvelopeView,
    device_key: Seq<char>,
    key: Seq<u8>,
    now: (int, int),
    parsed: Result<PayloadView, Seq<char>>,
)
    requires
        base64_standard_decode(env.signature) is Ok,
        base64_standard_decode(env.signature)->Ok_0.len() == 64,
        !ed25519_strict_accepts(key, env.canonical_payload, base64_standard_decode(env.signature)->Ok_0),
    ensures
        lease_verdict(env, device_key, key, now, parsed) == Err::<PayloadView, Seq<char>>(
            "The local license signature could not be verified"@,
        ),
{
}

/// A payload that differs from the signed one is rejected before its dates
/// are looked at, whatever the clock says.
pub proof fn law_tampered_payload_is_rejected(
    env: EnvelopeView,
    device_key: Seq<char>,
    key: Seq<u8>,
    now1: (int, int),
    now2: (int, int),
    signed: PayloadView,
)
    requires
        base64_standard_decode(env.signature) is Ok,
        base64_standard_decode(env.signature)->Ok_0.len() == 64,
        ed25519_strict_accepts(key, env.canonical_payload, base64_standard_decode(env.signature)->Ok_0),
        signed != env.payload,
    ensures
        lease_verdict(env, device_key, key, now1, Ok(signed)) == Err::<PayloadView, Seq<char>>(
            "The local license payload does not match its signature"@,
        ),
        lease_verdict(env, device_key, key, now1, Ok(signed)) == lease_verdict(
            env,
            device_key,
            key,
            now2,
            Ok(signed),
        ),
{
}

// ---------------------------------------------------------------------
// The license clock
// ---------------------------------------------------------------------

/// What to do with the secure clock record `stored` (the latest time a
/// lease was accepted, in seconds) at `current`: `Ok(true)` to record
/// `current`, `Ok(false)` to keep the record, or why the clock cannot be
/// trusted. A clock more than five minutes behind the record has been
/// moved backwards.
pub open spec fn clock_verdict(current: i64, stored: Option<Seq<char>>) -> Result<bool, Seq<char>> {
    match stored {
        None => Ok(true),
        Some(text) => match parse_i64(text) {
            None => Err("The secure license clock record is invalid"@),
            Some(watermark) => if current + 300 < watermark {
                Err(
                    "The Mac clock moved backwards. Restore automatic date and time, then refresh the license."@,
                )
            } else if current <= watermark {
                Ok(false)
            } else {
                Ok(true)
            },
        },
    }
}

/// The characters of an optional text.
pub open spec fn opt_text(o: Option<&str>) -> Option<Seq<char>> {
    match o {
        Some(t) => Some(t@),
        None => None,
    }
}

/// Decides whether the license clock may advance to `current`.
pub fn check_license_clock(current: i64, stored: Option<&str>) -> (r: Result<bool, String>)
    requires
        current + 300 <= i64::MAX,
    ensures
        match r {
            Ok(b) => clock_verdict(current, opt_text(stored)) == Ok::<bool, Seq<char>>(b),
            Err(e) => clock_verdict(current, opt_text(stored)) == Err::<bool, Seq<char>>(e@),
        },
{
    match stored {
        None => Ok(true),
        Some(text) => {
            let v = chars_of(text);
            match parse_i64_chars(v.as_slice()) {
                None => Err("The secure license clock record is invalid".to_string()),
                Some(watermark) => {
                    if current + 300 < watermark {
                        Err(
                            "The Mac clock moved backwards. Restore automatic date and time, then refresh the license.".to_string(),
                        )
                    } else if current <= watermark {
                        Ok(false)
                    } else {
                        Ok(true)
                    }
                },
            }
        },
    }
}

/// The clock record only moves forward: whenever the verdict is to record
/// the current time, that time is later than the record it replaces.
pub proof fn law_clock_record_only_moves_forward(current: i64, stored: Seq<char>)
    requires
        clock_verdict(current, Some(stored)) == Ok::<bool, Seq<char>>(true),
    ensures
        parse_i64(stored) matches Some(w) && current > w,
{
}

/// A clock more than five minutes behind the latest accepted time is
/// refused, so moving the clock back cannot extend a lease.
pub proof fn law_clock_moved_back_is_refused(current: i64, stored: Seq<char>, watermark: i64)
    requires
        parse_i64(stored) == Some(watermark),
        current + 300 < watermark,
    ensures
        clock_verdict(current, Some(stored)) == Err::<bool, Seq<char>>(
            "The Mac clock moved backwards. Restore automatic date and time, then refresh the license."@,
        ),
{
}

// ---------------------------------------------------------------------
// Device identity
// ---------------------------------------------------------------------

/// The SHA-256 digest of the UTF-8 bytes of `text`.
pub uninterp spec fn sha256_digest(text: Seq<char>) -> Seq<u8>;

/// `sha2::Sha256::digest` over the UTF-8 bytes of `text`: 32 bytes, named
/// rather than stated.
#[verifier::external_body]
pub(crate) fn sha256_of(text: &str) -> (r: Vec<u8>)
    ensures
        r@ == sha256_digest(text@),
        r@.len() == 32,
{
    sha2::Sha256::digest(text.as_bytes()).to_vec()
}

/// The lowercase hexadecimal digit for `n < 16`.
pub open spec fn hex_digit(n: int) -> char {
    if n < 10 {
        (48 + n) as char
    } else {
        (87 + n) as char
    }
}

/// Bytes written as lowercase hexadecimal, two digits each.
pub open spec fn hex_of(bytes: Seq<u8>) -> Seq<char>
    decreases bytes.len(),
{
    if bytes.len() == 0 {
        seq![]
    } else {
        hex_of(bytes.drop_last()) + seq![
            hex_digit(bytes.last() as int / 16),
            hex_digit(bytes.last() as int % 16),
        ]
    }
}

/// One lowercase hexadecimal digit.
fn hex_char(n: u8) -> (c: char)
    requires
        n < 16,
    ensures
        c == hex_digit(n as int),
{
    if n < 10 {
        (48 + n) as char
    } else {
        (87 + n) as char
    }
}

/// Bytes as lowercase hexadecimal.
pub fn hex_digest(bytes: &[u8]) -> (out: String)
    ensures
        out@ == hex_of(bytes@),
{
    let mut out = String::new();
    let mut i: usize = 0;
    while i < bytes.len()
        invariant
            i <= bytes@.len(),
            out@ == hex_of(bytes@.subrange(0, i as int)),
        decreases bytes@.len() - i,
    {
        let b = bytes[i];
        crate::text::push_char(&mut out, hex_char(b / 16));
        crate::text::push_char(&mut out, hex_char(b % 16));
        assert(bytes@.subrange(0, i + 1).drop_last() =~= bytes@.subrange(0, i as int));
        i += 1;
    }
    assert(bytes@.subrange(0, bytes@.len() as int) =~= bytes@);
    out
}

/// The fingerprint a device registers with: its public key's SHA-256 digest
/// in hexadecimal.
pub fn device_fingerprint(public_key: &str) -> (out: String)
    ensures
        out@ == hex_of(sha256_digest(public_key@)),
        out@.len() == 64,
{
    let digest = sha256_of(public_key);
    proof {
        lemma_hex_len(digest@);
    }
    hex_digest(digest.as_slice())
}

/// Two digits per byte.
pub proof fn lemma_hex_len(bytes: Seq<u8>)
    ensures
        hex_of(bytes).len() == 2 * bytes.len(),
    decreases bytes.len(),
{
    if bytes.len() > 0 {
        lemma_hex_len(bytes.drop_last());
    }
}

/// The stored device signing key's bytes, or why the stored text cannot
/// be used.
pub open spec fn stored_key_verdict(stored: Seq<char>) -> Result<Seq<u8>, Seq<char>> {
    match base64_standard_decode(stored) {
        Err(e) => Err("Stored device key is invalid: "@ + e),
        Ok(b) => if b.len() != 32 {
            Err("Stored device key has the wrong length"@)
        } else {
            Ok(b)
        },
    }
}

/// Reads the device signing key stored as base64.
pub fn stored_device_key_bytes(stored: &str) -> (r: Result<Vec<u8>, String>)
    ensures
        bytes_result(r) == stored_key_verdict(stored@),
{
    match decode_base64(stored) {
        Err(e) => Err(concat("Stored device key is invalid: ", e.as_str())),
        Ok(bytes) => if bytes.len() != 32 {
            Err("Stored device key has the wrong length".to_string())
        } else {
            Ok(bytes)
        },
    }
}

} // verus!
