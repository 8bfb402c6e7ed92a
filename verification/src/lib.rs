//! Core logic of a desktop OAuth client: capture of an authorization code on a
//! loopback redirect or a deep link, a two-tier credential store backed by the
//! platform keyring, and a periodic calendar-sync scheduler with a shared
//! status record.

pub mod callback;
pub mod listener;
pub mod notify;
pub mod store;
pub mod sync;
pub mod text;
pub mod token;
