//! The payload of a native system notification.

use vstd::prelude::*;

verus! {

/// What a notification carries: a title line and a body text. Showing it is
/// platform work and lives with the caller.
#[derive(Debug)]
pub struct NotificationPayload {
    pub title: String,
    pub body: String,
}

impl NotificationPayload {
    /// Bundles a title and a body.
    pub fn new(title: String, body: String) -> (r: NotificationPayload)
        ensures
            r.title@ == title@,
            r.body@ == body@,
    {
        NotificationPayload { title, body }
    }
}

} // verus!
