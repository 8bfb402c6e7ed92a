//! The calendar-sync scheduler's shared status and its transitions.
//!
//! One `SyncStatus` record is shared by the periodic loop and by manual
//! triggers; the caller keeps it behind one exclusive lock and never holds
//! that lock across the outbound network call. What is verified here is the
//! admission check, the exact effect of each transition, and the
//! classification of the outbound call's outcome.

use vstd::prelude::*;

use crate::text::is_digit;

verus! {

/// The shared progress record: whether an attempt is running, when the last
/// one succeeded, and why the last one failed.
#[derive(Debug)]
pub struct SyncStatus {
    pub is_syncing: bool,
    pub last_sync: Option<String>,
    pub error: Option<String>,
}

/// The record at the start of an attempt: running, error cleared.
pub open spec fn begun(s: SyncStatus) -> SyncStatus {
    SyncStatus { is_syncing: true, last_sync: s.last_sync, error: Option::None }
}

/// The record after a successful attempt: idle, stamped with the given time.
pub open spec fn completed_ok(s: SyncStatus, now: String) -> SyncStatus {
    SyncStatus { is_syncing: false, last_sync: Option::Some(now), error: s.error }
}

/// The record after a failed attempt: idle, the failure recorded, the last
/// success timestamp untouched.
pub open spec fn completed_err(s: SyncStatus, message: String) -> SyncStatus {
    SyncStatus { is_syncing: false, last_sync: s.last_sync, error: Option::Some(message) }
}

/// The date-time skeleton `..-MM-DDTHH:MM:SS..` anchored at the `T` in
/// position `i`: two-digit month, day, hour, minute and second fields with
/// their separators. The year stands before it and may be wider than four
/// digits; a fraction and the offset follow the seconds.
pub open spec fn rfc3339_skeleton_at(t: Seq<char>, i: int) -> bool {
    &&& 10 <= i
    &&& i + 9 <= t.len() - 6
    &&& t[i] == 'T'
    &&& t[i - 6] == '-' && t[i - 3] == '-'
    &&& is_digit(t[i - 5]) && is_digit(t[i - 4]) && is_digit(t[i - 2]) && is_digit(t[i - 1])
    &&& t[i + 3] == ':' && t[i + 6] == ':'
    &&& is_digit(t[i + 1]) && is_digit(t[i + 2]) && is_digit(t[i + 4]) && is_digit(t[i + 5])
        && is_digit(t[i + 7]) && is_digit(t[i + 8])
}

/// The shape of every RFC 3339 rendering of a UTC time: at least the 25
/// characters of `YYYY-MM-DDTHH:MM:SS+00:00`, the date-time skeleton around
/// the `T`, and the zero offset at the end.
pub open spec fn rfc3339_utc_timestamp(t: Seq<char>) -> bool {
    &&& t.len() >= 25
    &&& t.subrange(t.len() - 6, t.len() as int) == "+00:00"@
    &&& exists|i: int| rfc3339_skeleton_at(t, i)
}

/// Relies on `chrono::Utc::now` and `DateTime::to_rfc3339`: yields the
/// current time as RFC 3339 text. Which instant it names depends on the
/// clock, so only the text's shape is stated: a date, the `T` separator, a
/// time, an optional fraction, and the zero offset, as `to_rfc3339` writes
/// for every representable UTC time. As in the original, this panics if the
/// system clock is set before 1970.
#[verifier::external_body]
fn current_timestamp() -> (r: String)
    ensures
        rfc3339_utc_timestamp(r@),
{
    chrono::Utc::now().to_rfc3339()
}

impl SyncStatus {
    /// A fresh record: idle, never synced, no error.
    pub fn new() -> (r: SyncStatus)
        ensures
            !r.is_syncing,
            r.last_sync is None,
            r.error is None,
    {
        SyncStatus { is_syncing: false, last_sync: Option::None, error: Option::None }
    }

    /// The admission check and start of a manual attempt, in one step under
    /// the caller's lock: refused outright — with the record untouched — when
    /// an attempt is already running, otherwise the attempt begins.
    pub fn begin_manual_sync(&mut self) -> (r: Result<(), String>)
        ensures
            old(self).is_syncing ==> (r matches Err(m) && m@ == "Sync already in progress"@
                && *final(self) == *old(self)),
            !old(self).is_syncing ==> (r is Ok && *final(self) == begun(*old(self))),
    {
        if self.is_syncing {
            Result::Err(String::from_str("Sync already in progress"))
        } else {
            self.is_syncing = true;
            self.error = Option::None;
            Result::Ok(())
        }
    }

    /// The start of a periodic attempt: the loop is the only driver of its
    /// own cadence, so it begins without an admission check.
    pub fn begin_periodic_sync(&mut self)
        ensures
            *final(self) == begun(*old(self)),
    {
        self.is_syncing = true;
        self.error = Option::None;
    }

    /// Records a successful attempt under the given timestamp.
    pub fn complete_success(&mut self, now: String)
        ensures
            *final(self) == completed_ok(*old(self), now),
    {
        self.is_syncing = false;
        self.last_sync = Option::Some(now);
    }

    /// Records a successful attempt under the clock's current time: the new
    /// timestamp is an RFC 3339 UTC date-time text.
    pub fn complete_success_now(&mut self)
        ensures
            !final(self).is_syncing,
            (final(self).last_sync matches Some(t) && rfc3339_utc_timestamp(t@)),
            final(self).error == old(self).error,
    {
        let now = current_timestamp();
        self.complete_success(now);
    }

    /// Records a failed attempt; the last success timestamp is untouched.
    pub fn complete_failure(&mut self, message: String)
        ensures
            *final(self) == completed_err(*old(self), message),
    {
        self.is_syncing = false;
        self.error = Option::Some(message);
    }

    /// A snapshot copy, taken under the caller's lock; never waits on an
    /// attempt in flight.
    pub fn get_sync_status(&self) -> (r: SyncStatus)
        ensures
            r.is_syncing == self.is_syncing,
            r.last_sync == self.last_sync,
            r.error == self.error,
    {
        let last_sync = match &self.last_sync {
            Option::Some(s) => Option::Some(s.clone()),
            Option::None => Option::None,
        };
        let error = match &self.error {
            Option::Some(s) => Option::Some(s.clone()),
            Option::None => Option::None,
        };
        SyncStatus { is_syncing: self.is_syncing, last_sync, error }
    }
}

/// Folds the outbound call's result into the scheduler's single error shape:
/// any success-class response is a success; a failure carries the response
/// body as its detail when one could be read, and a generic detail otherwise.
pub fn sync_outcome(success: bool, body: Option<String>) -> (r: Result<(), String>)
    ensures
        success ==> r is Ok,
        !success ==> match body {
            Option::Some(b) => (r matches Err(m) && m@ == "Sync failed: "@ + b@),
            Option::None => (r matches Err(m) && m@ == "Sync failed: Unknown error"@),
        },
{
    if success {
        Result::Ok(())
    } else {
        let mut m = String::from_str("Sync failed: ");
        match body {
            Option::Some(b) => {
                m.append(b.as_str());
            },
            Option::None => {
                m.append("Unknown error");
                proof {
                    reveal_strlit("Sync failed: ");
                    reveal_strlit("Unknown error");
                    reveal_strlit("Sync failed: Unknown error");
                    assert(m@ =~= "Sync failed: Unknown error"@);
                }
            },
        }
        Result::Err(m)
    }
}

/// The outbound call's authorization header value for a bearer credential.
pub fn bearer_header_value(token: &str) -> (r: String)
    ensures
        r@ == "Bearer "@ + token@,
{
    let mut out = String::from_str("Bearer ");
    out.append(token);
    out
}

/// The sync endpoint under an API base URL.
pub fn sync_endpoint(api_url: &str) -> (r: String)
    ensures
        r@ == api_url@ + "/api/calendar-sync"@,
{
    let mut out = String::from_str(api_url);
    out.append("/api/calendar-sync");
    out
}

/// One attempt's life, whichever path drove it: beginning an attempt marks
/// the record running with its error cleared and the last timestamp kept;
/// finishing well returns it to idle with the new timestamp and still no
/// error; failing returns it to idle with the failure recorded and the
/// timestamp it had before the attempt.
pub proof fn lemma_sync_status_lifecycle(s0: SyncStatus, now: String, message: String)
    requires
        !s0.is_syncing,
    ensures
        ({
            let s1 = begun(s0);
            let s2 = completed_ok(s1, now);
            let s3 = completed_err(s1, message);
            s1.is_syncing && s1.error is None && s1.last_sync == s0.last_sync
                && !s2.is_syncing && s2.last_sync == Option::Some(now) && s2.error is None
                && !s3.is_syncing && s3.last_sync == s0.last_sync && s3.error
                == Option::Some(message)
        }),
{
}

} // verus!
