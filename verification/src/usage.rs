//! Local usage counters: how long live translation ran this month and in
//! total, counted without double counting across periodic checkpoints.

use vstd::prelude::*;

use chrono::Datelike;

use crate::text::{decimal, push_char, push_decimal, str_eq};

verus! {

/// The counters that are saved to disk.
pub struct StoredUsage {
    pub lifetime_seconds: u64,
    pub month_key: String,
    pub monthly_seconds: u64,
    pub completed_sessions: u64,
    pub session_active: bool,
}

/// The counters and the running session.
pub struct UsageState {
    pub stored: StoredUsage,
    pub running: bool,
    pub persisted_session_seconds: u64,
}

/// The counters as plain values.
pub struct UsageView {
    pub lifetime_seconds: nat,
    pub month_key: Seq<char>,
    pub monthly_seconds: nat,
    pub completed_sessions: nat,
    pub session_active: bool,
    pub running: bool,
    pub persisted_session_seconds: nat,
}

impl View for UsageState {
    type V = UsageView;

    open spec fn view(&self) -> UsageView {
        UsageView {
            lifetime_seconds: self.stored.lifetime_seconds as nat,
            month_key: self.stored.month_key@,
            monthly_seconds: self.stored.monthly_seconds as nat,
            completed_sessions: self.stored.completed_sessions as nat,
            session_active: self.stored.session_active,
            running: self.running,
            persisted_session_seconds: self.persisted_session_seconds as nat,
        }
    }
}

/// A new month starts the monthly count again.
pub open spec fn rolled(s: UsageView, month: Seq<char>) -> UsageView {
    if s.month_key != month {
        UsageView { month_key: month, monthly_seconds: 0, ..s }
    } else {
        s
    }
}

/// The seconds the session has run: `elapsed` while one runs, else none.
pub open spec fn session_seconds(s: UsageView, elapsed: nat) -> nat {
    if s.running {
        elapsed
    } else {
        0
    }
}

/// Seconds run since the last checkpoint.
pub open spec fn unsaved(s: UsageView, elapsed: nat) -> nat {
    let e = session_seconds(s, elapsed);
    if e > s.persisted_session_seconds {
        (e - s.persisted_session_seconds) as nat
    } else {
        0
    }
}

/// Starting a session (nothing happens while one runs).
pub open spec fn after_start(s: UsageView, month: Seq<char>) -> UsageView {
    let r = rolled(s, month);
    if !r.running {
        UsageView { running: true, persisted_session_seconds: 0, session_active: true, ..r }
    } else {
        r
    }
}

/// A checkpoint: the seconds run since the last one are added to both
/// counts.
pub open spec fn after_checkpoint(s: UsageView, month: Seq<char>, elapsed: nat) -> UsageView {
    let r = rolled(s, month);
    let d = unsaved(r, elapsed);
    if d > 0 {
        UsageView {
            lifetime_seconds: r.lifetime_seconds + d,
            monthly_seconds: r.monthly_seconds + d,
            persisted_session_seconds: session_seconds(r, elapsed),
            ..r
        }
    } else {
        r
    }
}

/// Stopping: the remaining seconds are added and, when a session ran, it
/// is counted as completed.
pub open spec fn after_stop(s: UsageView, month: Seq<char>, elapsed: nat) -> UsageView {
    let r = rolled(s, month);
    let d = unsaved(r, elapsed);
    let counted = if r.running {
        UsageView {
            lifetime_seconds: r.lifetime_seconds + d,
            monthly_seconds: r.monthly_seconds + d,
            completed_sessions: r.completed_sessions + 1,
            ..r
        }
    } else {
        r
    };
    UsageView { running: false, persisted_session_seconds: 0, session_active: false, ..counted }
}

/// Whether adding `elapsed` seconds and one session cannot overflow.
pub open spec fn room_for(s: UsageView, elapsed: nat) -> bool {
    &&& s.lifetime_seconds + elapsed <= u64::MAX
    &&& s.monthly_seconds + elapsed <= u64::MAX
    &&& s.completed_sessions + 1 <= u64::MAX
}

/// What the usage panel shows, in whole seconds.
pub struct UsageNumbers {
    pub current_session_seconds: u64,
    pub monthly_seconds: u64,
    pub lifetime_seconds: u64,
    pub completed_sessions: u64,
    pub running: bool,
    pub month_key: String,
}

impl UsageState {
    /// The state after the saved counters are read: no session runs, and an
    /// empty month key is taken to be the current month.
    pub fn load(stored: StoredUsage, month: &str) -> (s: UsageState)
        ensures
            s@ == rolled(
                UsageView {
                    lifetime_seconds: stored.lifetime_seconds as nat,
                    month_key: if stored.month_key@.len() == 0 {
                        month@
                    } else {
                        stored.month_key@
                    },
                    monthly_seconds: stored.monthly_seconds as nat,
                    completed_sessions: stored.completed_sessions as nat,
                    session_active: false,
                    running: false,
                    persisted_session_seconds: 0,
                },
                month@,
            ),
    {
        let mut stored = stored;
        stored.session_active = false;
        if stored.month_key.as_str().is_empty() {
            stored.month_key = month.to_string();
        }
        let mut s = UsageState { stored, running: false, persisted_session_seconds: 0 };
        s.roll_month(month);
        s
    }

    /// Starts the monthly count again when the month changed.
    pub fn roll_month(&mut self, month: &str)
        ensures
            final(self)@ == rolled(old(self)@, month@),
    {
        if !str_eq(self.stored.month_key.as_str(), month) {
            self.stored.month_key = month.to_string();
            self.stored.monthly_seconds = 0;
        }
    }

    /// Starts a session; returns whether the counters must be saved.
    pub fn start(&mut self, month: &str) -> (save: bool)
        ensures
            final(self)@ == after_start(old(self)@, month@),
            save == !rolled(old(self)@, month@).running,
    {
        self.roll_month(month);
        if !self.running {
            self.running = true;
            self.persisted_session_seconds = 0;
            self.stored.session_active = true;
            true
        } else {
            false
        }
    }

    /// Counts the seconds run since the last checkpoint; `elapsed` is how
    /// long the session has run. Returns whether the counters must be saved.
    pub fn checkpoint(&mut self, month: &str, elapsed: u64) -> (save: bool)
        requires
            room_for(old(self)@, elapsed as nat),
        ensures
            final(self)@ == after_checkpoint(old(self)@, month@, elapsed as nat),
            save == (unsaved(rolled(old(self)@, month@), elapsed as nat) > 0),
    {
        self.roll_month(month);
        let e = if self.running {
            elapsed
        } else {
            0
        };
        let delta = e.saturating_sub(self.persisted_session_seconds);
        if delta > 0 {
            self.stored.lifetime_seconds = self.stored.lifetime_seconds + delta;
            self.stored.monthly_seconds = self.stored.monthly_seconds + delta;
            self.persisted_session_seconds = e;
            true
        } else {
            false
        }
    }

    /// Ends the session; the counters are then saved.
    pub fn stop(&mut self, month: &str, elapsed: u64)
        requires
            room_for(old(self)@, elapsed as nat),
        ensures
            final(self)@ == after_stop(old(self)@, month@, elapsed as nat),
    {
        self.roll_month(month);
        let e = if self.running {
            elapsed
        } else {
            0
        };
        let delta = e.saturating_sub(self.persisted_session_seconds);
        if self.running {
            self.stored.lifetime_seconds = self.stored.lifetime_seconds + delta;
            self.stored.monthly_seconds = self.stored.monthly_seconds + delta;
            self.stored.completed_sessions = self.stored.completed_sessions + 1;
        }
        self.running = false;
        self.persisted_session_seconds = 0;
        self.stored.session_active = false;
    }

    /// The numbers shown now, counting the seconds not yet checkpointed.
    pub fn snapshot(&mut self, month: &str, elapsed: u64) -> (n: UsageNumbers)
        requires
            room_for(old(self)@, elapsed as nat),
        ensures
            final(self)@ == rolled(old(self)@, month@),
            n.current_session_seconds == session_seconds(final(self)@, elapsed as nat),
            n.monthly_seconds == final(self)@.monthly_seconds + unsaved(final(self)@, elapsed as nat),
            n.lifetime_seconds == final(self)@.lifetime_seconds + unsaved(final(self)@, elapsed as nat),
            n.completed_sessions == final(self)@.completed_sessions,
            n.running == final(self)@.running,
            n.month_key@ == final(self)@.month_key,
    {
        self.roll_month(month);
        let current = if self.running {
            elapsed
        } else {
            0
        };
        let unpersisted = current.saturating_sub(self.persisted_session_seconds);
        UsageNumbers {
            current_session_seconds: current,
            monthly_seconds: self.stored.monthly_seconds + unpersisted,
            lifetime_seconds: self.stored.lifetime_seconds + unpersisted,
            completed_sessions: self.stored.completed_sessions,
            running: self.running,
            month_key: self.stored.month_key.clone(),
        }
    }
}

/// A number in decimal, padded with zeros on the left to `width` digits.
pub open spec fn zero_padded(n: nat, width: nat) -> Seq<char>
    decreases width,
{
    if decimal(n).len() >= width || width == 0 {
        decimal(n)
    } else {
        seq!['0'] + zero_padded(n, (width - 1) as nat)
    }
}

/// `format!("{:04}-{:02}", year, month)`: the sign counts toward the width.
pub open spec fn month_key_of(year: int, month: nat) -> Seq<char> {
    let y = if year < 0 {
        seq!['-'] + zero_padded((-year) as nat, 3)
    } else {
        zero_padded(year as nat, 4)
    };
    y + seq!['-'] + zero_padded(month, 2)
}

/// Appends `n` padded with zeros to `width` digits.
fn push_padded(out: &mut String, n: u64, width: u64)
    ensures
        final(out)@ == old(out)@ + zero_padded(n as nat, width as nat),
    decreases width,
{
    let mut digits = String::new();
    push_decimal(&mut digits, n);
    let ghost d = decimal(n as nat);
    assert(digits@ =~= d);
    let count = crate::text::chars_of(digits.as_str()).len();
    if count as u64 >= width || width == 0 {
        let ghost before = out@;
        push_decimal(out, n);
        assert(out@ =~= before + d);
    } else {
        push_char(out, '0');
        push_padded(out, n, width - 1);
        assert(seq!['0'] + zero_padded(n as nat, (width - 1) as nat) =~= zero_padded(n as nat, width as nat));
    }
}

/// The key of a month, such as `2024-05`.
pub fn month_key(year: i32, month: u32) -> (out: String)
    ensures
        out@ == month_key_of(year as int, month as nat),
{
    let mut out = String::new();
    if year < 0 {
        push_char(&mut out, '-');
        let magnitude: u64 = (0i64 - year as i64) as u64;
        push_padded(&mut out, magnitude, 3);
    } else {
        push_padded(&mut out, year as u64, 4);
    }
    push_char(&mut out, '-');
    push_padded(&mut out, month as u64, 2);
    out
}

/// The proleptic Gregorian year and month of the day `days` after
/// 1970-01-01 (before it when negative), by the usual era arithmetic: eras
/// of 400 years, counted from 0000-03-01 so that leap days fall last.
pub open spec fn civil_year_month(days: int) -> (int, int) {
    let z = days + 719468;
    let era = z / 146097;
    let doe = z - era * 146097;
    let yoe = (doe - doe / 1460 + doe / 36524 - doe / 146096) / 365;
    let doy = doe - (365 * yoe + yoe / 4 - yoe / 100);
    let mp = (5 * doy + 2) / 153;
    let month = if mp < 10 { mp + 3 } else { mp - 9 };
    let year = yoe + era * 400 + if month <= 2 { 1int } else { 0int };
    (year, month)
}

/// The UTC year and month that `secs` seconds after the Unix epoch fall
/// in, or `None` when the year is outside chrono's range
/// (-262143 to 262142).
pub open spec fn utc_calendar_month(secs: i64) -> Option<(i32, u32)> {
    let (year, month) = civil_year_month(secs as int / 86400);
    if -262143 <= year <= 262142 {
        Some((year as i32, month as u32))
    } else {
        None
    }
}

/// `chrono::DateTime::<Utc>::from_timestamp(secs, 0)`, read as its year
/// and month: the proleptic Gregorian calendar, `None` for years outside
/// chrono's range. chrono documents `month()` as lying between 1 and 12.
#[verifier::external_body]
fn utc_year_month_at(secs: i64) -> (r: Option<(i32, u32)>)
    ensures
        r == utc_calendar_month(secs),
        r matches Some(ym) ==> 1 <= ym.1 <= 12,
{
    match chrono::DateTime::from_timestamp(secs, 0) {
        Some(t) => Some((t.year(), t.month())),
        None => None,
    }
}

/// The system clock as whole seconds since the Unix epoch, from
/// `std::time::SystemTime::now().duration_since(UNIX_EPOCH)`; `None` when
/// the clock reads before 1970. What it returns depends on the clock, so
/// nothing is promised of the value.
#[verifier::external_body]
fn unix_seconds_now() -> (r: Option<u64>) {
    match std::time::SystemTime::now().duration_since(std::time::UNIX_EPOCH) {
        Ok(d) => Some(d.as_secs()),
        Err(_) => None,
    }
}

/// The month key for a clock reading of `secs` seconds since the Unix
/// epoch: `None` when there is no reading or the calendar cannot place it.
pub open spec fn month_key_for(secs: Option<u64>) -> Option<Seq<char>> {
    match secs {
        None => None,
        Some(s) => if s > i64::MAX {
            None
        } else {
            match utc_calendar_month(s as i64) {
                None => None,
                Some(ym) => Some(month_key_of(ym.0 as int, ym.1 as nat)),
            }
        },
    }
}

/// The key of the month that a clock reading falls in, such as `2024-05`.
pub fn month_key_at(secs: Option<u64>) -> (out: Option<String>)
    ensures
        match out {
            Some(k) => month_key_for(secs) == Some(k@),
            None => month_key_for(secs) is None,
        },
        out matches Some(k) ==> exists|y: int, m: nat| 1 <= m <= 12 && k@ == month_key_of(y, m),
{
    match secs {
        None => None,
        Some(s) => {
            if s > i64::MAX as u64 {
                None
            } else {
                match utc_year_month_at(s as i64) {
                    None => None,
                    Some((year, month)) => {
                        let k = month_key(year, month);
                        assert(k@ == month_key_of(year as int, month as nat));
                        Some(k)
                    },
                }
            }
        },
    }
}

/// The key of the current month, or `None` when the system clock reads
/// before 1970 or beyond the calendar's range.
pub fn current_month_key() -> (out: Option<String>)
    ensures
        match out {
            Some(k) => exists|s: u64| month_key_for(Some(s)) == Some(k@),
            None => true,
        },
        out matches Some(k) ==> exists|y: int, m: nat| 1 <= m <= 12 && k@ == month_key_of(y, m),
{
    let now = unix_seconds_now();
    let r = month_key_at(now);
    proof {
        if r is Some {
            let s = now->Some_0;
            assert(month_key_for(Some(s)) == Some(r->Some_0@));
        }
    }
    r
}

// ---------------------------------------------------------------------
// Laws
// ---------------------------------------------------------------------

/// No event ever lowers the lifetime count or the number of completed
/// sessions.
pub proof fn law_lifetime_never_decreases(s: UsageView, month: Seq<char>, elapsed: nat)
    ensures
        after_start(s, month).lifetime_seconds == s.lifetime_seconds,
        after_checkpoint(s, month, elapsed).lifetime_seconds >= s.lifetime_seconds,
        after_stop(s, month, elapsed).lifetime_seconds >= s.lifetime_seconds,
        after_stop(s, month, elapsed).completed_sessions >= s.completed_sessions,
        rolled(s, month).lifetime_seconds == s.lifetime_seconds,
{
}

/// Checkpoints never count a second twice: stopping after a checkpoint
/// gives the same counts as stopping without it.
pub proof fn law_checkpoint_does_not_double_count(
    s: UsageView,
    month: Seq<char>,
    at_checkpoint: nat,
    at_stop: nat,
)
    requires
        at_checkpoint <= at_stop,
    ensures
        after_stop(after_checkpoint(s, month, at_checkpoint), month, at_stop) == after_stop(
            s,
            month,
            at_stop,
        ),
{
}

/// A whole session counts exactly the seconds it ran, once, however many
/// checkpoints it had.
pub proof fn law_session_counts_its_seconds_once(
    s: UsageView,
    month: Seq<char>,
    e1: nat,
    e2: nat,
    e3: nat,
)
    requires
        e1 <= e2 <= e3,
        s.month_key == month,
        !s.running,
    ensures
        ({
            let t = after_stop(
                after_checkpoint(after_checkpoint(after_start(s, month), month, e1), month, e2),
                month,
                e3,
            );
            &&& t.lifetime_seconds == s.lifetime_seconds + e3
            &&& t.monthly_seconds == s.monthly_seconds + e3
            &&& t.completed_sessions == s.completed_sessions + 1
            &&& !t.running
        }),
{
}

/// The monthly count never exceeds the lifetime count.
pub proof fn law_monthly_within_lifetime(s: UsageView, month: Seq<char>, elapsed: nat)
    requires
        s.monthly_seconds <= s.lifetime_seconds,
    ensures
        after_start(s, month).monthly_seconds <= after_start(s, month).lifetime_seconds,
        after_checkpoint(s, month, elapsed).monthly_seconds <= after_checkpoint(
            s,
            month,
            elapsed,
        ).lifetime_seconds,
        after_stop(s, month, elapsed).monthly_seconds <= after_stop(s, month, elapsed).lifetime_seconds,
{
}

/// A new month starts its count at zero and keeps the lifetime count.
pub proof fn law_new_month_resets_monthly_count(s: UsageView, month: Seq<char>)
    requires
        s.month_key != month,
    ensures
        rolled(s, month).monthly_seconds == 0,
        rolled(s, month).month_key == month,
        rolled(s, month).lifetime_seconds == s.lifetime_seconds,
{
}

} // verus!
