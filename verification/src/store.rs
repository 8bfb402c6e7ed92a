//! The credential store: a two-tier cache over the keyring crate's secret
//! store — the platform's native store when one of the crate's platform
//! backends is enabled; with none enabled, as in this build, the crate's
//! in-process store.
//!
//! The in-memory slot is the first tier; the keyring record, written
//! through the trusted wrappers below, is the second. Reads go through to the
//! keyring only when the memory slot is empty; writes reach the keyring before
//! the memory slot so that a failed persist leaves no stale in-memory value.
//! An absent durable record is a valid logged-out state, distinct from a
//! backend failure and from a corrupt record.

use vstd::prelude::*;

use crate::token::{decoded_token, encode_auth_token, parse_auth_token, AuthToken};

verus! {

/// What a durable read can come back with.
pub enum ReadOutcome {
    /// A record exists and holds this text.
    Found(String),
    /// No record has ever been written, or it was deleted.
    Absent,
    /// The backend could not be reached or refused the read.
    Failure(String),
}

/// What a durable delete can come back with.
pub enum DeleteOutcome {
    /// A record existed and is now gone.
    Deleted,
    /// There was no record to delete.
    NoEntry,
    /// The backend could not be reached or refused the delete.
    Failure(String),
}

/// Declares `keyring::Entry`, the handle to one named record of the platform
/// secret store; its value is opaque to verification.
#[verifier::external_type_specification]
#[verifier::external_body]
pub struct ExEntry(keyring::Entry);

/// Relies on `keyring::Entry::new`: opens a handle to the named secret entry,
/// or reports why the store is unavailable.
#[verifier::external_body]
fn keyring_entry(service: &str, user: &str) -> (r: Result<keyring::Entry, String>)
{
    keyring::Entry::new(service, user).map_err(|e| e.to_string())
}

/// Relies on `keyring::Entry::get_password`: yields the stored secret text,
/// `NoEntry` when no record exists, and any other error otherwise. The result
/// depends on what the platform store holds, so nothing more is stated.
#[verifier::external_body]
fn entry_get_password(entry: &keyring::Entry) -> (r: ReadOutcome)
{
    match entry.get_password() {
        Ok(value) => ReadOutcome::Found(value),
        Err(keyring::Error::NoEntry) => ReadOutcome::Absent,
        Err(err) => ReadOutcome::Failure(err.to_string()),
    }
}

/// Relies on `keyring::Entry::set_password`: replaces the stored secret text
/// with the given value, or reports the backend's error.
#[verifier::external_body]
fn entry_set_password(entry: &keyring::Entry, value: &str) -> (r: Result<(), String>)
{
    entry.set_password(value).map_err(|e| e.to_string())
}

/// Relies on `keyring::Entry::delete_credential`: removes the stored record,
/// reporting `NoEntry` when there was none.
#[verifier::external_body]
fn entry_delete_credential(entry: &keyring::Entry) -> (r: DeleteOutcome)
{
    match entry.delete_credential() {
        Ok(()) => DeleteOutcome::Deleted,
        Err(keyring::Error::NoEntry) => DeleteOutcome::NoEntry,
        Err(err) => DeleteOutcome::Failure(err.to_string()),
    }
}

/// Two credentials that carry the same token text and expiry.
pub open spec fn token_eq(a: AuthToken, b: AuthToken) -> bool {
    a.token@ == b.token@ && a.expires_at == b.expires_at
}

/// Turns the outcome of a durable read into what `get` reports: an absent
/// record is a valid logged-out state, a well-formed record yields its
/// credential, a malformed record is corruption, and a backend failure is
/// passed through.
pub fn interpret_stored(outcome: ReadOutcome) -> (r: Result<Option<AuthToken>, String>)
    ensures
        outcome is Absent ==> (r matches Ok(v) && v is None),
        outcome matches ReadOutcome::Found(s) ==> match decoded_token(s@) {
            Some(p) => (r matches Ok(v) && v matches Some(t) && t.token@ == p.0 && t.expires_at
                == p.1),
            None => (r matches Err(m) && m@ == "Failed to parse stored token"@),
        },
        outcome matches ReadOutcome::Failure(m) ==> (r matches Err(m2) && m2 == m),
{
    match outcome {
        ReadOutcome::Found(s) => {
            match parse_auth_token(s.as_str()) {
                Option::Some(t) => Result::Ok(Option::Some(t)),
                Option::None => Result::Err(String::from_str("Failed to parse stored token")),
            }
        },
        ReadOutcome::Absent => Result::Ok(Option::None),
        ReadOutcome::Failure(m) => Result::Err(m),
    }
}

/// Turns the outcome of a durable delete into what `clear` reports: deleting
/// a record that does not exist is a success, so logout is idempotent.
pub fn interpret_delete(outcome: DeleteOutcome) -> (r: Result<(), String>)
    ensures
        outcome is Deleted ==> r is Ok,
        outcome is NoEntry ==> r is Ok,
        outcome matches DeleteOutcome::Failure(m) ==> (r matches Err(m2) && m2 == m),
{
    match outcome {
        DeleteOutcome::Deleted => Result::Ok(()),
        DeleteOutcome::NoEntry => Result::Ok(()),
        DeleteOutcome::Failure(m) => Result::Err(m),
    }
}

/// The owner of the single current credential: an in-memory slot backed by
/// one named keyring entry.
pub struct CredentialStore {
    /// The in-memory tier; `None` either before any read-through or when
    /// logged out.
    pub cached: Option<AuthToken>,
    /// The durable tier: the handle to the named keyring record.
    pub entry: keyring::Entry,
}

impl CredentialStore {
    /// Opens the store over the fixed service/account keyring entry.
    pub fn new() -> (r: Result<CredentialStore, String>)
        ensures
            r matches Ok(st) ==> st.cached is None,
    {
        match keyring_entry("miniorg", "auth_token") {
            Result::Ok(entry) => Result::Ok(
                CredentialStore { cached: Option::None, entry },
            ),
            Result::Err(m) => Result::Err(m),
        }
    }

    /// The stored credential: the in-memory copy when present, otherwise a
    /// read-through from the keyring that also fills the memory slot. An
    /// absent record yields `Ok(None)`, never an error.
    pub fn get_auth_token(&mut self) -> (r: Result<Option<AuthToken>, String>)
        ensures
            old(self).cached matches Some(t) ==> (r matches Ok(v) && v matches Some(t2)
                && token_eq(t2, t) && final(self).cached == old(self).cached),
            old(self).cached is None ==> match r {
                Ok(v) => match v {
                    Some(t) => (final(self).cached matches Some(tc) && token_eq(tc, t)),
                    None => final(self).cached is None,
                },
                Err(_) => final(self).cached is None,
            },
    {
        match &self.cached {
            Option::Some(t) => {
                return Result::Ok(Option::Some(t.duplicate()));
            },
            Option::None => {},
        }
        let outcome = entry_get_password(&self.entry);
        match interpret_stored(outcome) {
            Result::Ok(Option::Some(t)) => {
                self.cached = Option::Some(t.duplicate());
                Result::Ok(Option::Some(t))
            },
            Result::Ok(Option::None) => {
                self.cached = Option::None;
                Result::Ok(Option::None)
            },
            Result::Err(m) => Result::Err(m),
        }
    }

    /// Stores a new credential: the keyring record is written first, and the
    /// memory slot is updated only when that write succeeded, so a failed
    /// persist leaves the store as it was.
    pub fn set_auth_token(&mut self, token: String, expires_at: Option<i64>) -> (r: Result<
        (),
        String,
    >)
        ensures
            r is Ok ==> (final(self).cached matches Some(t) && t.token@ == token@
                && t.expires_at == expires_at),
            r is Err ==> final(self).cached == old(self).cached,
    {
        let session = AuthToken { token, expires_at };
        let payload = encode_auth_token(&session);
        match entry_set_password(&self.entry, payload.as_str()) {
            Result::Ok(()) => {
                self.cached = Option::Some(session);
                Result::Ok(())
            },
            Result::Err(m) => Result::Err(m),
        }
    }

    /// Logs out: empties the memory slot and deletes the keyring record.
    /// Deleting an absent record is a success, so a second `clear` in a row
    /// succeeds as well.
    pub fn clear_auth_token(&mut self) -> (r: Result<(), String>)
        ensures
            final(self).cached is None,
    {
        self.cached = Option::None;
        let outcome = entry_delete_credential(&self.entry);
        interpret_delete(outcome)
    }

    /// Drops the in-memory copy, so the next `get` reads durable storage.
    pub fn invalidate_cache(&mut self)
        ensures
            final(self).cached is None,
    {
        self.cached = Option::None;
    }
}

/// Deletes the durable record under the fixed service/account identifiers.
/// What each backend outcome means — an absent record included, which is a
/// success — is fixed by the contract of `interpret_delete`.
pub fn clear_token_in_keyring() -> (r: Result<(), String>)
{
    match keyring_entry("miniorg", "auth_token") {
        Result::Ok(entry) => {
            let outcome = entry_delete_credential(&entry);
            interpret_delete(outcome)
        },
        Result::Err(m) => Result::Err(m),
    }
}

} // verus!
