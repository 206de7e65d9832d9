//! Decisions about the database file's layout.

use vstd::prelude::*;

verus! {

/// How many tables the backend needs: `emails`, `adapters`, `insights` and
/// `logs`.
pub const REQUIRED_TABLE_COUNT: i64 = 4;

/// Whether the schema still has to be created, given how many of the
/// required tables exist.
pub fn schema_missing(tables_found: i64) -> (b: bool)
    ensures
        b == (tables_found < REQUIRED_TABLE_COUNT),
        b == (tables_found < 4),
{
    tables_found < REQUIRED_TABLE_COUNT
}


/// The welcome email put into an empty database; its date is the time of
/// insertion.
#[derive(Debug)]
pub struct SeedEmail {
    pub subject: String,
    pub sender: String,
    pub body: String,
    pub recipients: String,
    pub thread_id: String,
}

/// The rows that make an empty database usable before any mail is ingested:
/// the welcome email when there are no emails, and the sample adapter
/// (name, path, training tokens) when there are no adapters.
pub fn seed_rows(email_count: i64, adapter_count: i64) -> (r: (
    Option<SeedEmail>,
    Option<(String, String, i64)>,
))
    ensures
        (r.0 is Some) == (email_count == 0),
        r.0 matches Some(e) ==> e.subject@ == "Welcome to EmailBrain"@ && e.sender@
            == "system@emailbrain.local"@ && e.body@
            == "EmailBrain is ready. Connect the Swift Mail app or POST to /api/v1/emails to ingest real messages."@
            && e.recipients@ == "you@emailbrain.local"@ && e.thread_id@ == "seed-welcome"@,
        (r.1 is Some) == (adapter_count == 0),
        r.1 matches Some(a) ==> a.0@ == "Inbox Concierge"@ && a.1@
            == "adapters/output/inbox-concierge"@ && a.2 == 4096,
{
    let email = if email_count == 0 {
        Some(
            SeedEmail {
                subject: "Welcome to EmailBrain".to_string(),
                sender: "system@emailbrain.local".to_string(),
                body: "EmailBrain is ready. Connect the Swift Mail app or POST to /api/v1/emails to ingest real messages.".to_string(),
                recipients: "you@emailbrain.local".to_string(),
                thread_id: "seed-welcome".to_string(),
            },
        )
    } else {
        None
    };
    let adapter = if adapter_count == 0 {
        Some(
            (
                "Inbox Concierge".to_string(),
                "adapters/output/inbox-concierge".to_string(),
                4096i64,
            ),
        )
    } else {
        None
    };
    (email, adapter)
}

} // verus!
