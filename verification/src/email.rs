//! Validation of incoming emails and the answers of the email endpoints.

use vstd::prelude::*;
use crate::error::{db_error, error_with, AppError, BAD_REQUEST, INTERNAL_SERVER_ERROR, NOT_FOUND};
use crate::text::{concat3, i64_to_string, int_decimal, trim, trim_str};

verus! {

/// An email as a client submits it, and as it is stored once validated.
#[derive(Debug)]
pub struct EmailInput {
    pub subject: String,
    pub sender: String,
    pub body: String,
    pub date: String,
    pub recipients: Option<String>,
    pub thread_id: Option<String>,
}

/// The text of an optional string.
pub open spec fn opt_text(v: Option<String>) -> Option<Seq<char>> {
    match v {
        Some(s) => Some(s@),
        None => None,
    }
}

/// An optional field after trimming: absent when it is blank.
pub open spec fn trimmed_optional(v: Option<Seq<char>>) -> Option<Seq<char>> {
    match v {
        Some(s) => if trim(s).len() > 0 {
            Some(trim(s))
        } else {
            None
        },
        None => None,
    }
}

/// `value` trimmed, or `None` when that leaves nothing.
pub fn trim_optional(value: String) -> (r: Option<String>)
    ensures
        opt_text(r) == trimmed_optional(Some(value@)),
{
    let trimmed = trim_str(value.as_str());
    if trimmed.as_str().is_empty() {
        None
    } else {
        Some(trimmed)
    }
}

fn trim_optional_field(value: Option<String>) -> (r: Option<String>)
    ensures
        opt_text(r) == trimmed_optional(opt_text(value)),
{
    match value {
        Some(v) => trim_optional(v),
        None => None,
    }
}

/// The first problem with a submitted email, checked in the order subject,
/// sender, body, date: the message of the 400 answer it gets.
pub open spec fn email_problem(email: EmailInput) -> Option<Seq<char>> {
    if trim(email.subject@).len() == 0 {
        Some("Email subject must not be empty"@)
    } else if trim(email.sender@).len() == 0 {
        Some("Email sender must not be empty"@)
    } else if trim(email.body@).len() == 0 {
        Some("Email body must not be empty"@)
    } else if trim(email.date@).len() == 0 {
        Some("Email date must not be empty"@)
    } else {
        None
    }
}

/// Checks a submitted email and trims its fields. The date comes back
/// trimmed; turning it into a canonical timestamp is `with_normalized_date`.
pub fn validate_email_input(email: EmailInput) -> (r: Result<EmailInput, AppError>)
    ensures
        match r {
            Ok(e) => {
                &&& email_problem(email) is None
                &&& e.subject@ == trim(email.subject@)
                &&& e.sender@ == trim(email.sender@)
                &&& e.body@ == trim(email.body@)
                &&& e.date@ == trim(email.date@)
                &&& opt_text(e.recipients) == trimmed_optional(opt_text(email.recipients))
                &&& opt_text(e.thread_id) == trimmed_optional(opt_text(email.thread_id))
            },
            Err(e) => email_problem(email) == Some(e.message@) && e.status == BAD_REQUEST,
        },
{
    let subject = trim_str(email.subject.as_str());
    if subject.as_str().is_empty() {
        return Err(error_with(BAD_REQUEST, "Email subject must not be empty"));
    }
    let sender = trim_str(email.sender.as_str());
    if sender.as_str().is_empty() {
        return Err(error_with(BAD_REQUEST, "Email sender must not be empty"));
    }
    let body = trim_str(email.body.as_str());
    if body.as_str().is_empty() {
        return Err(error_with(BAD_REQUEST, "Email body must not be empty"));
    }
    let date = trim_str(email.date.as_str());
    if date.as_str().is_empty() {
        return Err(error_with(BAD_REQUEST, "Email date must not be empty"));
    }
    Ok(
        EmailInput {
            subject,
            sender,
            body,
            date,
            recipients: trim_optional_field(email.recipients),
            thread_id: trim_optional_field(email.thread_id),
        },
    )
}

/// The message for a date that is no supported timestamp.
pub open spec fn unsupported_date_message(value: Seq<char>) -> Seq<char> {
    "Email date '"@ + value + "' is not a supported timestamp"@
}

/// Puts the canonical form of the email's date in place. `normalized` is
/// what the database's `strftime('%Y-%m-%dT%H:%M:%SZ', date)` gave: a
/// value, SQL `NULL`, or the text of a database error.
pub fn with_normalized_date(email: EmailInput, normalized: Result<Option<String>, String>) -> (r:
    Result<EmailInput, AppError>)
    ensures
        match normalized {
            Err(d) => r matches Err(e) && e.status == INTERNAL_SERVER_ERROR && e.message@
                == "Database error occurred: "@ + d@,
            Ok(Some(n)) => if n@.len() > 0 {
                r matches Ok(e) && e.date@ == n@ && e.subject == email.subject && e.sender
                    == email.sender && e.body == email.body && e.recipients == email.recipients
                    && e.thread_id == email.thread_id
            } else {
                r matches Err(e) && e.status == BAD_REQUEST && e.message@
                    == unsupported_date_message(email.date@)
            },
            Ok(None) => r matches Err(e) && e.status == BAD_REQUEST && e.message@
                == unsupported_date_message(email.date@),
        },
{
    match normalized {
        Err(d) => Err(db_error(d.as_str())),
        Ok(Some(n)) => {
            if n.as_str().is_empty() {
                Err(
                    AppError::new(
                        BAD_REQUEST,
                        concat3("Email date '", email.date.as_str(), "' is not a supported timestamp"),
                    ),
                )
            } else {
                Ok(EmailInput { date: n, ..email })
            }
        },
        Ok(None) => Err(
            AppError::new(
                BAD_REQUEST,
                concat3("Email date '", email.date.as_str(), "' is not a supported timestamp"),
            ),
        ),
    }
}

/// Refuses an email ID below 1.
pub fn check_email_id(email_id: i64) -> (r: Result<(), AppError>)
    ensures
        r is Ok <==> email_id >= 1,
        r matches Err(e) ==> e.status == BAD_REQUEST && e.message@
            == "Email ID must be a positive integer"@,
{
    if email_id < 1 {
        Err(error_with(BAD_REQUEST, "Email ID must be a positive integer"))
    } else {
        Ok(())
    }
}

/// The answer when no email has the ID `email_id`.
pub fn email_not_found(email_id: i64) -> (e: AppError)
    ensures
        e.status == NOT_FOUND,
        e.message@ == "Email with ID "@ + int_decimal(email_id as int) + " not found"@,
{
    let id = i64_to_string(email_id);
    AppError::new(NOT_FOUND, concat3("Email with ID ", id.as_str(), " not found"))
}

/// The answer to a submitted email.
#[derive(Debug)]
pub struct ReceiveEmailResponse {
    pub message: String,
    pub email_id: i64,
    pub email: EmailInput,
}

/// The answer to a submitted email that is stored under `email_id`;
/// `already_stored` tells whether the same email was there before.
pub fn receipt(email: EmailInput, email_id: i64, already_stored: bool) -> (r: ReceiveEmailResponse)
    ensures
        r.email == email,
        r.email_id == email_id,
        r.message@ == (if already_stored {
            "Email already exists"@
        } else {
            "Email received successfully"@
        }),
{
    let message = if already_stored {
        "Email already exists".to_string()
    } else {
        "Email received successfully".to_string()
    };
    ReceiveEmailResponse { message, email_id, email }
}


/// A submitted email is accepted exactly when its subject, sender, body and
/// date are each non-blank once trimmed, whatever white space lies inside
/// them; otherwise the first blank one of these, in that order, is named.
pub proof fn law_email_problems(email: EmailInput)
    ensures
        (email_problem(email) is None) <==> (trim(email.subject@).len() > 0 && trim(
            email.sender@,
        ).len() > 0 && trim(email.body@).len() > 0 && trim(email.date@).len() > 0),
        trim(email.subject@).len() == 0 ==> email_problem(email) == Some(
            "Email subject must not be empty"@,
        ),
        trim(email.subject@).len() > 0 && trim(email.sender@).len() == 0 ==> email_problem(email)
            == Some("Email sender must not be empty"@),
        trim(email.subject@).len() > 0 && trim(email.sender@).len() > 0 && trim(email.body@).len()
            == 0 ==> email_problem(email) == Some("Email body must not be empty"@),
        trim(email.subject@).len() > 0 && trim(email.sender@).len() > 0 && trim(email.body@).len()
            > 0 && trim(email.date@).len() == 0 ==> email_problem(email) == Some(
            "Email date must not be empty"@,
        ),
{
}

/// An optional field is kept trimmed when it has text, and dropped when it
/// is blank or absent.
pub proof fn law_trimmed_optional(value: Option<Seq<char>>)
    ensures
        value matches Some(s) ==> (trim(s).len() > 0 ==> trimmed_optional(value) == Some(trim(s))),
        value matches Some(s) ==> (trim(s).len() == 0 ==> trimmed_optional(value) is None),
        value is None ==> trimmed_optional(value) is None,
{
}

/// The answer to an unsupported date quotes the trimmed date.
pub proof fn law_unsupported_date_message(value: Seq<char>)
    ensures
        unsupported_date_message(value) == "Email date '"@ + value
            + "' is not a supported timestamp"@,
{
}

} // verus!
