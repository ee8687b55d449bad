//! Account state shown to the user: configuration, sign-in, subscription
//! and the devices holding a license.

use vstd::prelude::*;

use base64::Engine;

use crate::license::{
    instant, lease_expiry, later, rfc3339_instant, sha256_digest, sha256_of, shifted, LicensePayload, Timestamp,
};
use crate::text::{chars_of, concat, contains, has_substring, str_eq, trim};

verus! {

/// Where the app signs in and manages licenses.
pub struct AccountConfig {
    pub supabase_url: String,
    pub anon_key: String,
    pub auth_provider: String,
    pub account_url: Option<String>,
}

impl AccountConfig {
    /// Whether the account service can be reached at all.
    pub fn configured(&self) -> (r: bool)
        ensures
            r == (self.supabase_url@.len() > 0 && self.anon_key@.len() > 0),
    {
        !self.supabase_url.as_str().is_empty() && !self.anon_key.as_str().is_empty()
    }
}

/// The candidates for one configuration value, in order of precedence: the
/// environment at run time, the value compiled in, and the value from the
/// configuration file.
pub struct ConfigSource {
    pub runtime: Option<String>,
    pub compiled: Option<String>,
    pub from_file: Option<String>,
}

/// `s` without its trailing `c` characters.
pub open spec fn trim_end_char(s: Seq<char>, c: char) -> Seq<char>
    decreases s.len(),
{
    if s.len() > 0 && s.last() == c {
        trim_end_char(s.drop_last(), c)
    } else {
        s
    }
}

/// The value a source gives: the first candidate present (the empty text
/// if none is), without trailing slashes.
pub open spec fn source_value(src: ConfigSource) -> Seq<char> {
    let v = match src.runtime {
        Some(r) => r@,
        None => match src.compiled {
            Some(c) => c@,
            None => match src.from_file {
                Some(f) => f@,
                None => seq![],
            },
        },
    };
    trim_end_char(v, '/')
}

/// Strips the trailing `c` characters of `s`.
fn trim_end_matches(s: &str, c: char) -> (out: String)
    ensures
        out@ == trim_end_char(s@, c),
{
    let v = chars_of(s);
    let mut end = v.len();
    assert(v@.subrange(0, end as int) =~= s@);
    while end > 0 && v[end - 1] == c
        invariant
            end <= v@.len(),
            trim_end_char(v@.subrange(0, end as int), c) == trim_end_char(s@, c),
            v@ == s@,
        decreases end,
    {
        assert(v@.subrange(0, end - 1) =~= v@.subrange(0, end as int).drop_last());
        end -= 1;
    }
    assert(v@.subrange(0, end as int).len() == 0 || v@.subrange(0, end as int).last() != c);
    crate::text::string_of_range(v.as_slice(), 0, end)
}

/// The value of one configuration source.
pub fn config_value(src: &ConfigSource) -> (out: String)
    ensures
        out@ == source_value(*src),
{
    let raw: &str = match &src.runtime {
        Some(r) => r.as_str(),
        None => match &src.compiled {
            Some(c) => c.as_str(),
            None => match &src.from_file {
                Some(f) => f.as_str(),
                None => "",
            },
        },
    };
    proof {
        reveal_strlit("");
    }
    trim_end_matches(raw, '/')
}

/// The configuration read from its sources: the sign-in provider defaults
/// to Google, and an empty account page means none.
pub open spec fn config_from(
    url: ConfigSource,
    anon: ConfigSource,
    provider: ConfigSource,
    account: ConfigSource,
) -> (Seq<char>, Seq<char>, Seq<char>, Option<Seq<char>>) {
    let p = source_value(provider);
    let a = source_value(account);
    (
        source_value(url),
        source_value(anon),
        if p.len() == 0 {
            "google"@
        } else {
            p
        },
        if a.len() == 0 {
            None
        } else {
            Some(a)
        },
    )
}

/// The view of an optional string.
pub open spec fn opt_string(o: Option<String>) -> Option<Seq<char>> {
    match o {
        Some(s) => Some(s@),
        None => None,
    }
}

impl AccountConfig {
    /// Builds the configuration from its sources.
    pub fn from_sources(
        url: &ConfigSource,
        anon: &ConfigSource,
        provider: &ConfigSource,
        account: &ConfigSource,
    ) -> (c: AccountConfig)
        ensures
            (c.supabase_url@, c.anon_key@, c.auth_provider@, opt_string(c.account_url)) == config_from(
                *url,
                *anon,
                *provider,
                *account,
            ),
    {
        let p = config_value(provider);
        let a = config_value(account);
        AccountConfig {
            supabase_url: config_value(url),
            anon_key: config_value(anon),
            auth_provider: if p.as_str().is_empty() {
                "google".to_string()
            } else {
                p
            },
            account_url: if a.as_str().is_empty() {
                None
            } else {
                Some(a)
            },
        }
    }
}

/// A device holding a license on the account.
pub struct AccountDevice {
    pub id: String,
    pub friendly_name: String,
    pub activated_at: String,
    pub last_used_at: String,
    pub deactivated_at: Option<String>,
    pub current: bool,
}

/// A device as the license service lists it.
pub struct RawDevice {
    pub id: String,
    pub friendly_name: String,
    pub activated_at: String,
    pub last_used_at: String,
    pub deactivated_at: Option<String>,
}

/// A device as plain values.
pub struct DeviceView {
    pub id: Seq<char>,
    pub friendly_name: Seq<char>,
    pub activated_at: Seq<char>,
    pub last_used_at: Seq<char>,
    pub deactivated_at: Option<Seq<char>>,
    pub current: bool,
}

impl View for AccountDevice {
    type V = DeviceView;

    open spec fn view(&self) -> DeviceView {
        DeviceView {
            id: self.id@,
            friendly_name: self.friendly_name@,
            activated_at: self.activated_at@,
            last_used_at: self.last_used_at@,
            deactivated_at: opt_string(self.deactivated_at),
            current: self.current,
        }
    }
}

/// What the account panel shows.
pub struct AccountStatus {
    pub configured: bool,
    pub signed_in: bool,
    pub email: Option<String>,
    pub subscription_state: String,
    pub entitlement_source: String,
    pub access_until: Option<String>,
    pub license_valid: bool,
    pub lease_expires_at: Option<String>,
    pub current_device_id: Option<String>,
    pub devices: Vec<AccountDevice>,
    pub message: String,
}

/// The account panel as plain values.
pub struct StatusView {
    pub configured: bool,
    pub signed_in: bool,
    pub email: Option<Seq<char>>,
    pub subscription_state: Seq<char>,
    pub entitlement_source: Seq<char>,
    pub access_until: Option<Seq<char>>,
    pub license_valid: bool,
    pub lease_expires_at: Option<Seq<char>>,
    pub current_device_id: Option<Seq<char>>,
    pub devices: Seq<DeviceView>,
    pub message: Seq<char>,
}

impl View for AccountStatus {
    type V = StatusView;

    open spec fn view(&self) -> StatusView {
        StatusView {
            configured: self.configured,
            signed_in: self.signed_in,
            email: opt_string(self.email),
            subscription_state: self.subscription_state@,
            entitlement_source: self.entitlement_source@,
            access_until: opt_string(self.access_until),
            license_valid: self.license_valid,
            lease_expires_at: opt_string(self.lease_expires_at),
            current_device_id: opt_string(self.current_device_id),
            devices: self.devices@.map_values(|d: AccountDevice| d@),
            message: self.message@,
        }
    }
}

/// The panel before anything was loaded.
pub open spec fn initial_status(configured: bool) -> StatusView {
    StatusView {
        configured,
        signed_in: false,
        email: None,
        subscription_state: "not_configured"@,
        entitlement_source: "not_configured"@,
        access_until: None,
        license_valid: false,
        lease_expires_at: None,
        current_device_id: None,
        devices: seq![],
        message: if configured {
            "Sign in to start or refresh your license"@
        } else {
            "Account service is not configured in this internal build"@
        },
    }
}

/// An e-mail address worth showing: a non-empty one.
pub open spec fn shown_email(email: Seq<char>) -> Option<Seq<char>> {
    if email.len() == 0 {
        None
    } else {
        Some(email)
    }
}

/// The panel after the locally stored state is looked at: `session_email`
/// is the e-mail of the stored session (`None` when there is none), and
/// `verified` the stored lease's payload when it verifies. Nothing else
/// changes when the service is not configured.
pub open spec fn local_status(
    s: StatusView,
    configured: bool,
    session_email: Option<Seq<char>>,
    verified: Option<(Seq<char>, Seq<char>)>,
) -> StatusView {
    if !configured {
        StatusView { configured: false, ..s }
    } else {
        let t = match session_email {
            Some(e) => StatusView { configured: true, signed_in: true, email: shown_email(e), ..s },
            None => StatusView {
                configured: true,
                signed_in: false,
                email: None,
                subscription_state: "signed_out"@,
                entitlement_source: "signed_out"@,
                access_until: None,
                devices: seq![],
                message: "Sign in to start or refresh your license"@,
                ..s
            },
        };
        StatusView {
            license_valid: verified is Some,
            lease_expires_at: match verified {
                Some(v) => Some(v.0),
                None => None,
            },
            current_device_id: match verified {
                Some(v) => Some(v.1),
                None => None,
            },
            ..t
        }
    }
}

/// The expiry and device of a verified payload.
pub open spec fn lease_facts(p: Option<&LicensePayload>) -> Option<(Seq<char>, Seq<char>)> {
    match p {
        Some(p) => Some((p.expires_at@, p.device_id@)),
        None => None,
    }
}

/// A copy of an optional string.
fn copy_opt(o: &Option<String>) -> (r: Option<String>)
    ensures
        opt_string(r) == opt_string(*o),
{
    match o {
        Some(s) => Some(s.clone()),
        None => None,
    }
}

impl AccountStatus {
    /// The panel before anything was loaded.
    pub fn initial(configured: bool) -> (s: AccountStatus)
        ensures
            s@ == initial_status(configured),
    {
        let s = AccountStatus {
            configured,
            signed_in: false,
            email: None,
            subscription_state: "not_configured".to_string(),
            entitlement_source: "not_configured".to_string(),
            access_until: None,
            license_valid: false,
            lease_expires_at: None,
            current_device_id: None,
            devices: Vec::new(),
            message: if configured {
                "Sign in to start or refresh your license".to_string()
            } else {
                "Account service is not configured in this internal build".to_string()
            },
        };
        assert(s@.devices =~= Seq::<DeviceView>::empty());
        s
    }

    /// Brings the panel up to date with the locally stored session and
    /// lease.
    pub fn update_local(
        &mut self,
        configured: bool,
        session_email: Option<String>,
        verified: Option<&LicensePayload>,
    )
        ensures
            final(self)@ == local_status(
                old(self)@,
                configured,
                opt_string(session_email),
                lease_facts(verified),
            ),
    {
        self.configured = configured;
        if !configured {
            return;
        }
        match session_email {
            Some(email) => {
                self.signed_in = true;
                self.email = if email.as_str().is_empty() {
                    None
                } else {
                    Some(email)
                };
            },
            None => {
                self.signed_in = false;
                self.email = None;
                self.subscription_state = "signed_out".to_string();
                self.entitlement_source = "signed_out".to_string();
                self.access_until = None;
                self.devices.clear();
                self.message = "Sign in to start or refresh your license".to_string();
                assert(self@.devices =~= Seq::<DeviceView>::empty());
            },
        }
        self.license_valid = verified.is_some();
        match verified {
            Some(p) => {
                self.lease_expires_at = Some(p.expires_at.clone());
                self.current_device_id = Some(p.device_id.clone());
            },
            None => {
                self.lease_expires_at = None;
                self.current_device_id = None;
            },
        }
    }
}

/// The devices with the current one marked.
pub open spec fn marked_devices(devices: Seq<RawDevice>, current: Option<Seq<char>>) -> Seq<DeviceView> {
    devices.map_values(
        |d: RawDevice|
            DeviceView {
                id: d.id@,
                friendly_name: d.friendly_name@,
                activated_at: d.activated_at@,
                last_used_at: d.last_used_at@,
                deactivated_at: opt_string(d.deactivated_at),
                current: current == Some(d.id@),
            },
    )
}

/// The panel after a successful refresh with the account service.
pub open spec fn signed_in_status(
    email: Seq<char>,
    subscription_state: Seq<char>,
    entitlement_source: Seq<char>,
    access_until: Option<Seq<char>>,
    valid: Option<(Seq<char>, Seq<char>)>,
    devices: Seq<RawDevice>,
    license_message: Option<Seq<char>>,
) -> StatusView {
    let current = match valid {
        Some(v) => Some(v.1),
        None => None,
    };
    StatusView {
        configured: true,
        signed_in: true,
        email: shown_email(email),
        subscription_state,
        entitlement_source,
        access_until,
        license_valid: valid is Some,
        lease_expires_at: match valid {
            Some(v) => Some(v.0),
            None => None,
        },
        current_device_id: current,
        devices: marked_devices(devices, current),
        message: match license_message {
            Some(m) => m,
            None => if valid is Some {
                "License is ready for offline translation"@
            } else {
                "Connect to refresh this device license"@
            },
        },
    }
}

/// Marks the current device among those the service listed.
pub fn mark_devices(devices: Vec<RawDevice>, current: &Option<String>) -> (out: Vec<AccountDevice>)
    ensures
        out@.map_values(|d: AccountDevice| d@) == marked_devices(devices@, opt_string(*current)),
{
    let mut out: Vec<AccountDevice> = Vec::new();
    let mut i: usize = 0;
    let ghost cur = opt_string(*current);
    while i < devices.len()
        invariant
            i <= devices@.len(),
            cur == opt_string(*current),
            out@.len() == i,
            forall|j: int|
                0 <= j < i ==> #[trigger] out@[j]@ == marked_devices(devices@, cur)[j],
        decreases devices@.len() - i,
    {
        let d = &devices[i];
        let is_current = match current {
            Some(c) => str_eq(c.as_str(), d.id.as_str()),
            None => false,
        };
        out.push(
            AccountDevice {
                id: d.id.clone(),
                friendly_name: d.friendly_name.clone(),
                activated_at: d.activated_at.clone(),
                last_used_at: d.last_used_at.clone(),
                deactivated_at: copy_opt(&d.deactivated_at),
                current: is_current,
            },
        );
        i += 1;
    }
    assert(out@.map_values(|d: AccountDevice| d@) =~= marked_devices(devices@, cur));
    out
}

impl AccountStatus {
    /// The panel after a successful refresh: `valid` is the stored lease's
    /// payload when it verifies, `license_message` a message that takes
    /// precedence over the usual one.
    pub fn signed_in(
        email: String,
        subscription_state: String,
        entitlement_source: String,
        access_until: Option<String>,
        valid: Option<&LicensePayload>,
        devices: Vec<RawDevice>,
        license_message: Option<String>,
    ) -> (s: AccountStatus)
        ensures
            s@ == signed_in_status(
                email@,
                subscription_state@,
                entitlement_source@,
                opt_string(access_until),
                lease_facts(valid),
                devices@,
                opt_string(license_message),
            ),
    {
        let current: Option<String> = match valid {
            Some(p) => Some(p.device_id.clone()),
            None => None,
        };
        let marked = mark_devices(devices, &current);
        let message = match license_message {
            Some(m) => m,
            None => if valid.is_some() {
                "License is ready for offline translation".to_string()
            } else {
                "Connect to refresh this device license".to_string()
            },
        };
        AccountStatus {
            configured: true,
            signed_in: true,
            email: if email.as_str().is_empty() {
                None
            } else {
                Some(email)
            },
            subscription_state,
            entitlement_source,
            access_until,
            license_valid: valid.is_some(),
            lease_expires_at: match valid {
                Some(p) => Some(p.expires_at.clone()),
                None => None,
            },
            current_device_id: current,
            devices: marked,
            message,
        }
    }
}

/// Whether the stored lease should be renewed: it expires within a day of
/// `now`, or there is no verified lease at all.
pub fn should_refresh_lease(expires: Option<Timestamp>, now: Timestamp) -> (r: bool)
    ensures
        r == match expires {
            Some(x) => !later(instant(x), shifted(instant(now), 86400)),
            None => true,
        },
{
    match expires {
        Some(x) => !(x.secs as i128 > now.secs as i128 + 86400 || (x.secs as i128 == now.secs as i128
            + 86400 && x.nanos > now.nanos % 1_000_000_000)),
        None => true,
    }
}

/// Whether a session expiring at `expires_at` (seconds) must be renewed at
/// `now`: it has at most five minutes left.
pub fn session_needs_refresh(expires_at: i64, now: i64) -> (r: bool)
    requires
        now + 300 <= i64::MAX,
    ensures
        r == (expires_at <= now + 300),
{
    expires_at <= now + 300
}

/// The message shown when activation fails because the account already has
/// its two Macs; `None` for any other failure, which is reported as is.
pub fn device_limit_message(error: &str) -> (r: Option<String>)
    ensures
        r matches Some(m) ==> m@ == "Two Macs are already active. Deactivate one below, then refresh this license."@,
        r is Some <==> contains(error@, "DEVICE_LIMIT_REACHED"@),
{
    let e = chars_of(error);
    let pat = chars_of("DEVICE_LIMIT_REACHED");
    if has_substring(e.as_slice(), pat.as_slice()) {
        Some("Two Macs are already active. Deactivate one below, then refresh this license.".to_string())
    } else {
        None
    }
}

/// The e-mail kept after a token refresh: the new one when the service sent
/// a non-empty one, else the one already stored.
pub fn refreshed_email(token_email: Option<String>, previous: &str) -> (r: String)
    ensures
        r@ == match token_email {
            Some(e) => if e@.len() > 0 {
                e@
            } else {
                previous@
            },
            None => previous@,
        },
{
    match token_email {
        Some(e) => if e.as_str().is_empty() {
            previous.to_string()
        } else {
            e
        },
        None => previous.to_string(),
    }
}

/// Where the browser sends the user back after signing in.
pub fn sign_in_callback_url(state: &str) -> (r: String)
    ensures
        r@ == "henlocal://auth/callback?state="@ + state@,
{
    concat("henlocal://auth/callback?state=", state)
}

/// Whether deactivating `device_id` removes this Mac's own license: the
/// stored lease verifies and names that device.
pub fn deactivates_this_device(verified: Option<&LicensePayload>, device_id: &str) -> (r: bool)
    ensures
        r == (verified matches Some(p) && p.device_id@ == device_id@),
{
    match verified {
        Some(p) => str_eq(p.device_id.as_str(), device_id),
        None => false,
    }
}

/// Updating from the same local state twice changes nothing more.
pub proof fn law_local_update_is_idempotent(
    s: StatusView,
    configured: bool,
    session_email: Option<Seq<char>>,
    verified: Option<(Seq<char>, Seq<char>)>,
)
    ensures
        local_status(local_status(s, configured, session_email, verified), configured, session_email, verified)
            == local_status(s, configured, session_email, verified),
{
}

/// Once configured, the license fields agree with each other, and a
/// signed-out panel shows no account data.
pub proof fn law_local_status_is_consistent(
    s: StatusView,
    session_email: Option<Seq<char>>,
    verified: Option<(Seq<char>, Seq<char>)>,
)
    ensures
        ({
            let t = local_status(s, true, session_email, verified);
            &&& t.license_valid == (t.lease_expires_at is Some)
            &&& t.license_valid == (t.current_device_id is Some)
            &&& t.signed_in == (session_email is Some)
            &&& !t.signed_in ==> t.email is None && t.devices.len() == 0 && t.access_until is None
        }),
{
}

/// After a refresh exactly the devices named by the verified lease are
/// marked current, and none when no lease verifies.
pub proof fn law_only_the_leased_device_is_current(
    email: Seq<char>,
    subscription_state: Seq<char>,
    entitlement_source: Seq<char>,
    access_until: Option<Seq<char>>,
    valid: Option<(Seq<char>, Seq<char>)>,
    devices: Seq<RawDevice>,
    license_message: Option<Seq<char>>,
    i: int,
)
    requires
        0 <= i < devices.len(),
    ensures
        ({
            let t = signed_in_status(
                email,
                subscription_state,
                entitlement_source,
                access_until,
                valid,
                devices,
                license_message,
            );
            &&& t.devices.len() == devices.len()
            &&& t.devices[i].current <==> (valid matches Some(v) && v.1 == devices[i].id@)
        }),
{
}

// ---------------------------------------------------------------------
// Refreshing the account
// ---------------------------------------------------------------------

/// Where a refresh with the account service stands.
#[derive(Debug, Clone, Copy, PartialEq, Eq, Structural)]
pub enum RefreshPhase {
    Start,
    RenewingSession,
    FetchingAccount,
    CheckingLease,
    RenewingLease,
    Activating,
    Refetching,
    Done,
}

/// What the caller reports back to a refresh.
pub enum RefreshEvent {
    /// The service's configuration, the stored session (its expiry, in
    /// seconds) or why it could not be read, and the time now in seconds.
    Begin { configured: bool, session: Result<Option<i64>, String>, now: i64 },
    SessionRenewed(Result<(), String>),
    AccountFetched(Result<(), String>),
    /// The stored lease's payload when it verifies, and the time `at` it
    /// was checked.
    LeaseChecked { lease: Option<LicensePayload>, at: Timestamp },
    LeaseRenewed(Result<(), String>),
    DeviceActivated(Result<(), String>),
    AccountRefetched(Result<(), String>),
}

/// What the caller does next.
#[derive(Debug)]
pub enum RefreshAction {
    /// Show the locally known status.
    ReturnLocalStatus,
    RenewSession,
    /// Fetch the billing status and the device list.
    FetchAccount,
    /// Check the stored lease.
    CheckLease,
    RenewLease(String),
    ActivateDevice,
    RefetchAccount,
    /// Build the signed-in status, with a message that takes precedence.
    Finish(Option<String>),
    Fail(String),
    /// The event did not belong to this phase; nothing to do.
    Ignore,
}

/// An action as plain values.
pub enum ActionView {
    ReturnLocalStatus,
    RenewSession,
    FetchAccount,
    CheckLease,
    RenewLease(Seq<char>),
    ActivateDevice,
    RefetchAccount,
    Finish(Option<Seq<char>>),
    Fail(Seq<char>),
    Ignore,
}

/// The view of an action.
pub open spec fn action_view(a: RefreshAction) -> ActionView {
    match a {
        RefreshAction::ReturnLocalStatus => ActionView::ReturnLocalStatus,
        RefreshAction::RenewSession => ActionView::RenewSession,
        RefreshAction::FetchAccount => ActionView::FetchAccount,
        RefreshAction::CheckLease => ActionView::CheckLease,
        RefreshAction::RenewLease(d) => ActionView::RenewLease(d@),
        RefreshAction::ActivateDevice => ActionView::ActivateDevice,
        RefreshAction::RefetchAccount => ActionView::RefetchAccount,
        RefreshAction::Finish(m) => ActionView::Finish(opt_string(m)),
        RefreshAction::Fail(e) => ActionView::Fail(e@),
        RefreshAction::Ignore => ActionView::Ignore,
    }
}

/// The message shown when the account already has its two Macs.
pub open spec fn device_limit_text() -> Seq<char> {
    "Two Macs are already active. Deactivate one below, then refresh this license."@
}

/// One step of a refresh: the session is renewed when it has five minutes
/// or less left, the account fetched, and the lease renewed when it
/// expires within a day, or the device activated when no lease verifies.
/// An account that already has two Macs is not an error: the refresh
/// finishes with a message saying so.
pub open spec fn refresh_next(p: RefreshPhase, e: RefreshEvent) -> (RefreshPhase, ActionView) {
    match (p, e) {
        (RefreshPhase::Start, RefreshEvent::Begin { configured, session, now }) => if !configured {
            (RefreshPhase::Done, ActionView::ReturnLocalStatus)
        } else {
            match session {
                Err(err) => (RefreshPhase::Done, ActionView::Fail(err@)),
                Ok(None) => (RefreshPhase::Done, ActionView::ReturnLocalStatus),
                Ok(Some(expires_at)) => if expires_at <= now + 300 {
                    (RefreshPhase::RenewingSession, ActionView::RenewSession)
                } else {
                    (RefreshPhase::FetchingAccount, ActionView::FetchAccount)
                },
            }
        },
        (RefreshPhase::RenewingSession, RefreshEvent::SessionRenewed(r)) => match r {
            Err(err) => (RefreshPhase::Done, ActionView::Fail(err@)),
            Ok(_) => (RefreshPhase::FetchingAccount, ActionView::FetchAccount),
        },
        (RefreshPhase::FetchingAccount, RefreshEvent::AccountFetched(r)) => match r {
            Err(err) => (RefreshPhase::Done, ActionView::Fail(err@)),
            Ok(_) => (RefreshPhase::CheckingLease, ActionView::CheckLease),
        },
        (RefreshPhase::CheckingLease, RefreshEvent::LeaseChecked { lease, at }) => {
            let due = match lease {
                Some(p) => match rfc3339_instant(p.expires_at@) {
                    Ok(x) => !later((x.0 as int, x.1 as int), shifted(instant(at), 86400)),
                    Err(_) => true,
                },
                None => true,
            };
            if !due {
                (RefreshPhase::Done, ActionView::Finish(None))
            } else {
                match lease {
                    Some(p) => (RefreshPhase::RenewingLease, ActionView::RenewLease(p.device_id@)),
                    None => (RefreshPhase::Activating, ActionView::ActivateDevice),
                }
            }
        },
        (RefreshPhase::RenewingLease, RefreshEvent::LeaseRenewed(r)) => match r {
            Err(err) => (RefreshPhase::Done, ActionView::Fail(err@)),
            Ok(_) => (RefreshPhase::Done, ActionView::Finish(None)),
        },
        (RefreshPhase::Activating, RefreshEvent::DeviceActivated(r)) => match r {
            Err(err) => if contains(err@, "DEVICE_LIMIT_REACHED"@) {
                (RefreshPhase::Done, ActionView::Finish(Some(device_limit_text())))
            } else {
                (RefreshPhase::Done, ActionView::Fail(err@))
            },
            Ok(_) => (RefreshPhase::Refetching, ActionView::RefetchAccount),
        },
        (RefreshPhase::Refetching, RefreshEvent::AccountRefetched(r)) => match r {
            Err(err) => (RefreshPhase::Done, ActionView::Fail(err@)),
            Ok(_) => (RefreshPhase::Done, ActionView::Finish(None)),
        },
        (p, _) => (p, ActionView::Ignore),
    }
}

/// Takes one step of a refresh.
pub fn refresh_step(phase: RefreshPhase, event: RefreshEvent) -> (r: (RefreshPhase, RefreshAction))
    requires
        event matches RefreshEvent::Begin { now, .. } ==> now + 300 <= i64::MAX,
    ensures
        (r.0, action_view(r.1)) == refresh_next(phase, event),
{
    match (phase, event) {
        (RefreshPhase::Start, RefreshEvent::Begin { configured, session, now }) => {
            if !configured {
                return (RefreshPhase::Done, RefreshAction::ReturnLocalStatus);
            }
            match session {
                Err(err) => (RefreshPhase::Done, RefreshAction::Fail(err)),
                Ok(None) => (RefreshPhase::Done, RefreshAction::ReturnLocalStatus),
                Ok(Some(expires_at)) => if session_needs_refresh(expires_at, now) {
                    (RefreshPhase::RenewingSession, RefreshAction::RenewSession)
                } else {
                    (RefreshPhase::FetchingAccount, RefreshAction::FetchAccount)
                },
            }
        },
        (RefreshPhase::RenewingSession, RefreshEvent::SessionRenewed(r)) => match r {
            Err(err) => (RefreshPhase::Done, RefreshAction::Fail(err)),
            Ok(_) => (RefreshPhase::FetchingAccount, RefreshAction::FetchAccount),
        },
        (RefreshPhase::FetchingAccount, RefreshEvent::AccountFetched(r)) => match r {
            Err(err) => (RefreshPhase::Done, RefreshAction::Fail(err)),
            Ok(_) => (RefreshPhase::CheckingLease, RefreshAction::CheckLease),
        },
        (RefreshPhase::CheckingLease, RefreshEvent::LeaseChecked { lease, at }) => {
            let expires = match &lease {
                Some(p) => lease_expiry(p),
                None => None,
            };
            if !should_refresh_lease(expires, at) {
                (RefreshPhase::Done, RefreshAction::Finish(None))
            } else {
                match lease {
                    Some(p) => (RefreshPhase::RenewingLease, RefreshAction::RenewLease(p.device_id)),
                    None => (RefreshPhase::Activating, RefreshAction::ActivateDevice),
                }
            }
        },
        (RefreshPhase::RenewingLease, RefreshEvent::LeaseRenewed(r)) => match r {
            Err(err) => (RefreshPhase::Done, RefreshAction::Fail(err)),
            Ok(_) => (RefreshPhase::Done, RefreshAction::Finish(None)),
        },
        (RefreshPhase::Activating, RefreshEvent::DeviceActivated(r)) => match r {
            Err(err) => match device_limit_message(err.as_str()) {
                Some(m) => (RefreshPhase::Done, RefreshAction::Finish(Some(m))),
                None => (RefreshPhase::Done, RefreshAction::Fail(err)),
            },
            Ok(_) => (RefreshPhase::Refetching, RefreshAction::RefetchAccount),
        },
        (RefreshPhase::Refetching, RefreshEvent::AccountRefetched(r)) => match r {
            Err(err) => (RefreshPhase::Done, RefreshAction::Fail(err)),
            Ok(_) => (RefreshPhase::Done, RefreshAction::Finish(None)),
        },
        (p, _) => (p, RefreshAction::Ignore),
    }
}

/// A device that was just activated is not shown from the device list
/// fetched before: a successful activation always fetches the account
/// again, and a refresh only finishes from activating with the message
/// that the account already has its two Macs.
pub proof fn law_activation_refetches_the_account(e: RefreshEvent)
    ensures
        e matches RefreshEvent::DeviceActivated(Ok(_)) ==> refresh_next(RefreshPhase::Activating, e) == (
            RefreshPhase::Refetching,
            ActionView::RefetchAccount,
        ),
        refresh_next(RefreshPhase::Activating, e).1 matches ActionView::Finish(m) ==> m == Some(
            device_limit_text(),
        ),
        refresh_next(RefreshPhase::Refetching, e).1 matches ActionView::Finish(m) ==> m is None
            && e matches RefreshEvent::AccountRefetched(Ok(_)),
{
}

/// A refresh that reaches its end either finishes, fails, or shows the
/// local status; once done it does nothing more.
pub proof fn law_done_refresh_stays_done(e: RefreshEvent)
    ensures
        refresh_next(RefreshPhase::Done, e) == (RefreshPhase::Done, ActionView::Ignore),
{
}

/// Two Macs already active is reported as a message on a finished refresh,
/// never as a failure.
pub proof fn law_device_limit_is_not_a_failure(err: String)
    requires
        contains(err@, "DEVICE_LIMIT_REACHED"@),
    ensures
        refresh_next(RefreshPhase::Activating, RefreshEvent::DeviceActivated(Err(err))) == (
            RefreshPhase::Done,
            ActionView::Finish(Some(device_limit_text())),
        ),
{
}

// ---------------------------------------------------------------------
// Signing in
// ---------------------------------------------------------------------

/// The URL-safe base64 alphabet (RFC 4648, section 5).
pub open spec fn url_safe_alphabet() -> Seq<char> {
    "ABCDEFGHIJKLMNOPQRSTUVWXYZabcdefghijklmnopqrstuvwxyz0123456789-_"@
}

/// The URL-safe base64 text of some bytes, without padding: every three
/// bytes give four characters of six bits each; a last one or two bytes
/// give two or three characters, the missing bits read as zero.
pub open spec fn base64_url_encode(bytes: Seq<u8>) -> Seq<char>
    decreases bytes.len(),
{
    if bytes.len() == 0 {
        seq![]
    } else {
        let a = bytes[0] as int;
        let b = if bytes.len() > 1 { bytes[1] as int } else { 0int };
        let c = if bytes.len() > 2 { bytes[2] as int } else { 0int };
        let digit = |v: int| url_safe_alphabet()[v];
        let group = seq![
            digit(a / 4),
            digit((a % 4) * 16 + b / 16),
            digit((b % 16) * 4 + c / 64),
            digit(c % 64),
        ];
        if bytes.len() == 1 {
            group.take(2)
        } else if bytes.len() == 2 {
            group.take(3)
        } else {
            group + base64_url_encode(bytes.subrange(3, bytes.len() as int))
        }
    }
}

/// `base64::engine::general_purpose::URL_SAFE_NO_PAD.encode`: the URL-safe
/// alphabet, no padding, as `base64_url_encode` states it.
#[verifier::external_body]
fn encode_url_safe(bytes: &[u8]) -> (r: String)
    ensures
        r@ == base64_url_encode(bytes@),
{
    base64::engine::general_purpose::URL_SAFE_NO_PAD.encode(bytes)
}

/// The PKCE challenge of a verifier: its SHA-256 digest in URL-safe base64.
pub fn pkce_challenge(verifier: &str) -> (r: String)
    ensures
        r@ == base64_url_encode(sha256_digest(verifier@)),
{
    let digest = sha256_of(verifier);
    encode_url_safe(digest.as_slice())
}

/// Where sign-in starts: the account page's `desktop-sign-in`, or the
/// service's own authorization endpoint for the configured provider, with
/// the query that asks for a PKCE code sent back to `callback_url`.
pub struct SignInTarget {
    pub base: String,
    pub extra_segment: Option<String>,
    pub query: Vec<(String, String)>,
}

/// Pairs of strings as pairs of character sequences.
pub open spec fn pairs_of(v: Seq<(String, String)>) -> Seq<(Seq<char>, Seq<char>)> {
    v.map_values(|p: (String, String)| (p.0@, p.1@))
}

/// The sign-in target, as plain values.
pub open spec fn sign_in_target_of(
    config: (Seq<char>, Seq<char>, Seq<char>, Option<Seq<char>>),
    callback_url: Seq<char>,
    challenge: Seq<char>,
    state: Seq<char>,
) -> (Seq<char>, Option<Seq<char>>, Seq<(Seq<char>, Seq<char>)>) {
    let common = seq![
        ("redirect_to"@, callback_url),
        ("code_challenge"@, challenge),
        ("code_challenge_method"@, "s256"@),
        ("state"@, state),
    ];
    match config.3 {
        Some(account) => (account, Some("desktop-sign-in"@), common),
        None => (config.0 + "/auth/v1/authorize"@, None, seq![("provider"@, config.2)] + common),
    }
}

/// Builds the sign-in target for a configuration.
pub fn sign_in_target(config: &AccountConfig, callback_url: &str, challenge: &str, state: &str) -> (r:
    SignInTarget)
    ensures
        (r.base@, opt_string(r.extra_segment), pairs_of(r.query@)) == sign_in_target_of(
            (config.supabase_url@, config.anon_key@, config.auth_provider@, opt_string(config.account_url)),
            callback_url@,
            challenge@,
            state@,
        ),
{
    let mut query: Vec<(String, String)> = Vec::new();
    let (base, extra) = match &config.account_url {
        Some(account) => (account.clone(), Some("desktop-sign-in".to_string())),
        None => {
            query.push(("provider".to_string(), config.auth_provider.clone()));
            (concat(config.supabase_url.as_str(), "/auth/v1/authorize"), None)
        },
    };
    query.push(("redirect_to".to_string(), callback_url.to_string()));
    query.push(("code_challenge".to_string(), challenge.to_string()));
    query.push(("code_challenge_method".to_string(), "s256".to_string()));
    query.push(("state".to_string(), state.to_string()));
    let r = SignInTarget { base, extra_segment: extra, query };
    assert(pairs_of(r.query@) =~= sign_in_target_of(
        (config.supabase_url@, config.anon_key@, config.auth_provider@, opt_string(config.account_url)),
        callback_url@,
        challenge@,
        state@,
    ).2);
    r
}

/// A parsed URL: its scheme, host, path and decoded query pairs.
pub struct UrlParts {
    pub scheme: String,
    pub host: Option<String>,
    pub path: String,
    pub query: Vec<(String, String)>,
}

/// What `url::Url::parse` reads from `text`: scheme, host, path and decoded
/// query pairs, or the parser's error message.
pub uninterp spec fn url_parts(text: Seq<char>) -> Result<
    (Seq<char>, Option<Seq<char>>, Seq<char>, Seq<(Seq<char>, Seq<char>)>),
    Seq<char>,
>;

/// A parsed URL as plain values.
pub open spec fn parts_view(p: UrlParts) -> (Seq<char>, Option<Seq<char>>, Seq<char>, Seq<
    (Seq<char>, Seq<char>),
>) {
    (p.scheme@, opt_string(p.host), p.path@, pairs_of(p.query@))
}

/// `url::Url::parse`, read back through `scheme`, `host_str`, `path` and
/// `query_pairs`. What it reads is named, not stated.
#[verifier::external_body]
fn parse_url(text: &str) -> (r: Result<UrlParts, String>)
    ensures
        match r {
            Ok(p) => url_parts(text@) == Ok::<_, Seq<char>>(parts_view(p)),
            Err(e) => url_parts(text@) == Err::<
                (Seq<char>, Option<Seq<char>>, Seq<char>, Seq<(Seq<char>, Seq<char>)>),
                Seq<char>,
            >(e@),
        },
{
    match url::Url::parse(text) {
        Ok(url) => Ok(
            UrlParts {
                scheme: url.scheme().to_string(),
                host: url.host_str().map(|host| host.to_string()),
                path: url.path().to_string(),
                query: url.query_pairs().map(|(k, v)| (k.into_owned(), v.into_owned())).collect(),
            },
        ),
        Err(error) => Err(error.to_string()),
    }
}

/// The value of the first query pair named `key`.
pub open spec fn query_value(q: Seq<(Seq<char>, Seq<char>)>, key: Seq<char>) -> Option<Seq<char>>
    decreases q.len(),
{
    if q.len() == 0 {
        None
    } else if q[0].0 == key {
        Some(q[0].1)
    } else {
        query_value(q.drop_first(), key)
    }
}

/// Finds the first query pair named `key`.
fn find_query(q: &[(String, String)], key: &str) -> (r: Option<String>)
    ensures
        opt_string(r) == query_value(pairs_of(q@), key@),
{
    let ghost qv = pairs_of(q@);
    let mut i: usize = 0;
    assert(qv.subrange(0, qv.len() as int) =~= qv);
    while i < q.len()
        invariant
            i <= q@.len(),
            qv == pairs_of(q@),
            query_value(qv, key@) == query_value(qv.subrange(i as int, qv.len() as int), key@),
        decreases q@.len() - i,
    {
        let ghost rest = qv.subrange(i as int, qv.len() as int);
        assert(rest[0] == qv[i as int]);
        if str_eq(q[i].0.as_str(), key) {
            return Some(q[i].1.clone());
        }
        assert(rest.drop_first() =~= qv.subrange(i + 1, qv.len() as int));
        i += 1;
    }
    None
}

/// What a sign-in callback carries: the code and the state, or why it is
/// refused. Only `henlocal://auth/callback` is accepted, and an error the
/// service reports is passed on.
pub open spec fn callback_verdict(text: Seq<char>) -> Result<(Seq<char>, Option<Seq<char>>), Seq<char>> {
    match url_parts(text) {
        Err(e) => Err("Invalid sign-in callback: "@ + e),
        Ok(p) => if p.0 != "henlocal"@ || p.1 != Some("auth"@) || p.2 != "/callback"@ {
            Err("Unknown Hen Local sign-in callback"@)
        } else {
            match query_value(p.3, "error_description"@) {
                Some(message) => Err(message),
                None => match query_value(p.3, "code"@) {
                    None => Err("Sign-in callback is missing its code"@),
                    Some(code) => Ok((code, query_value(p.3, "state"@))),
                },
            }
        },
    }
}

/// Reads the code and state of a sign-in callback.
pub fn read_sign_in_callback(callback: &str) -> (r: Result<(String, Option<String>), String>)
    ensures
        match r {
            Ok((code, state)) => callback_verdict(callback@) == Ok::<_, Seq<char>>(
                (code@, opt_string(state)),
            ),
            Err(e) => callback_verdict(callback@) == Err::<(Seq<char>, Option<Seq<char>>), Seq<char>>(
                e@,
            ),
        },
{
    let parts = match parse_url(callback) {
        Ok(p) => p,
        Err(e) => return Err(concat("Invalid sign-in callback: ", e.as_str())),
    };
    let auth_host = match &parts.host {
        Some(h) => str_eq(h.as_str(), "auth"),
        None => false,
    };
    proof {
        reveal_strlit("auth");
    }
    if !str_eq(parts.scheme.as_str(), "henlocal") || !auth_host || !str_eq(
        parts.path.as_str(),
        "/callback",
    ) {
        return Err("Unknown Hen Local sign-in callback".to_string());
    }
    match find_query(parts.query.as_slice(), "error_description") {
        Some(message) => return Err(message),
        None => {},
    }
    match find_query(parts.query.as_slice(), "code") {
        None => Err("Sign-in callback is missing its code".to_string()),
        Some(code) => Ok((code, find_query(parts.query.as_slice(), "state"))),
    }
}

/// Matches the callback's state with the sign-in attempt in progress (its
/// state, if one is pending).
pub fn check_sign_in_state(callback_state: &Option<String>, attempt_state: Option<&str>) -> (r: Result<
    (),
    String,
>)
    ensures
        match r {
            Ok(_) => attempt_state matches Some(a) && opt_string(*callback_state) == Some(a@),
            Err(e) => match attempt_state {
                None => e@ == "This sign-in attempt is no longer active. Start sign-in again."@,
                Some(a) => opt_string(*callback_state) != Some(a@) && e@
                    == "Sign-in state did not match. Start sign-in again."@,
            },
        },
{
    match attempt_state {
        None => Err("This sign-in attempt is no longer active. Start sign-in again.".to_string()),
        Some(a) => {
            let same = match callback_state {
                Some(c) => str_eq(c.as_str(), a),
                None => false,
            };
            if same {
                Ok(())
            } else {
                Err("Sign-in state did not match. Start sign-in again.".to_string())
            }
        },
    }
}

/// The name a device registers under: the computer's name, trimmed and cut
/// to 100 characters, or `Mac` when it has none.
pub fn friendly_name_from(computer_name: Option<String>) -> (r: String)
    ensures
        r@ == match computer_name {
            Some(n) => if trim(n@).len() == 0 {
                "Mac"@
            } else if trim(n@).len() > 100 {
                trim(n@).take(100)
            } else {
                trim(n@)
            },
            None => "Mac"@,
        },
{
    match computer_name {
        None => "Mac".to_string(),
        Some(n) => {
            let t = crate::text::trimmed(n.as_str());
            let v = chars_of(t.as_str());
            if v.len() == 0 {
                "Mac".to_string()
            } else if v.len() > 100 {
                let out = crate::text::string_of_range(v.as_slice(), 0, 100);
                assert(v@.subrange(0, 100) =~= t@.take(100));
                out
            } else {
                t
            }
        },
    }
}

/// What starting live translation needs from the license: nothing when the
/// account service is not configured (such a build stays unlocked);
/// otherwise the device's public key and the stored lease, which are then
/// to be verified, or why they are missing.
pub fn translation_gate(
    configured: bool,
    device_key: Result<String, String>,
    lease: Result<Option<crate::license::LicenseEnvelope>, String>,
) -> (r: Result<Option<(String, crate::license::LicenseEnvelope)>, String>)
    ensures
        !configured ==> r matches Ok(None),
        configured ==> match device_key {
            Err(e) => r == Err::<Option<(String, crate::license::LicenseEnvelope)>, String>(e),
            Ok(k) => match lease {
                Err(e) => r == Err::<Option<(String, crate::license::LicenseEnvelope)>, String>(e),
                Ok(None) => r matches Err(e) && e@
                    == "Sign in and activate this Mac before starting live translation"@,
                Ok(Some(l)) => r == Ok::<_, String>(Some((k, l))),
            },
        },
{
    if !configured {
        return Ok(None);
    }
    let key = match device_key {
        Ok(k) => k,
        Err(e) => return Err(e),
    };
    match lease {
        Err(e) => Err(e),
        Ok(None) => Err("Sign in and activate this Mac before starting live translation".to_string()),
        Ok(Some(l)) => Ok(Some((key, l))),
    }
}

} // verus!
