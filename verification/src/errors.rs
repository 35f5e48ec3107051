//! Error values shared by the utility modules, and the texts shown for them.

use crate::text::{
    byte_len, chars_find, join_texts, decimal, find, from_chars, owned, push_all, push_decimal, push_signed_decimal,
    push_str, signed_decimal, slice_chars, to_chars, utf8_len,
};
use vstd::prelude::*;

verus! {

/// What went wrong in one of the utility modules.
#[derive(Debug, Clone, PartialEq)]
pub enum SharedError {
    /// A cryptographic operation failed.
    Crypto(String),
    /// A value did not pass validation.
    Validation(ValidationError),
    /// A value could not be sanitized.
    Sanitization(String),
    /// A date or time operation failed.
    Time(String),
    /// An input or output operation failed.
    Io(String),
    /// The configuration is wrong.
    Config(String),
    /// Any other failure, with its message.
    Generic(String),
}

/// Why a value did not pass validation.
#[derive(Debug, Clone, PartialEq)]
pub enum ValidationError {
    InvalidEmail { value: String, reason: String },
    InvalidPhoneNumber { value: String, reason: String },
    InvalidStudentId { value: String, reason: String },
    InvalidModuleCode { value: String, reason: String },
    InvalidPostcode { value: String, reason: String },
    InvalidUrl { value: String, reason: String },
    TooShort { field: String, min_length: usize, actual_length: usize },
    TooLong { field: String, max_length: usize, actual_length: usize },
    OutOfRange { field: String, min: i64, max: i64, actual: i64 },
    Missing { field: String },
    InvalidFormat { field: String, expected: String },
    Custom(String),
}

/// The masked form of a value: `[empty]` for the empty text, `***` for a text
/// of at most two bytes, the first character and everything from the first
/// `@` on with `***` between them where there is an `@`, and otherwise the
/// first and the last character with `***` between them.
pub open spec fn redacted(value: Seq<char>) -> Seq<char> {
    if value.len() == 0 {
        "[empty]"@
    } else if utf8_len(value) <= 2 {
        "***"@
    } else {
        match find(value, seq!['@']) {
            Some(at) => seq![value[0]] + "***"@ + value.skip(at),
            None => seq![value[0]] + "***"@ + seq![value.last()],
        }
    }
}

/// Masks part of a value so that it can be logged.
pub fn redact_pii(value: &str) -> (r: String)
    ensures
        r@ == redacted(value@),
{
    let v = to_chars(value);
    if v.len() == 0 {
        return owned("[empty]");
    }
    if byte_len(value) <= 2 {
        return owned("***");
    }
    let mut out: Vec<char> = Vec::new();
    out.push(v[0]);
    push_str(&mut out, "***");
    let mut at_sign: Vec<char> = Vec::new();
    at_sign.push('@');
    assert(at_sign@ == seq!['@']);
    match chars_find(&v, &at_sign) {
        Some(at) => {
            let tail = slice_chars(&v, at, v.len());
            assert(tail@ == v@.skip(at as int));
            push_all(&mut out, &tail);
        },
        None => {
            out.push(v[v.len() - 1]);
        },
    }
    assert(out@ == redacted(value@));
    from_chars(&out)
}

/// The text shown for a validation error. A value that may identify a person
/// appears masked.
pub open spec fn validation_text(e: ValidationError) -> Seq<char> {
    match e {
        ValidationError::InvalidEmail { value, reason } => "Invalid email '"@ + redacted(value@)
            + "': "@ + reason@,
        ValidationError::InvalidPhoneNumber { value, reason } => "Invalid phone number '"@
            + redacted(value@) + "': "@ + reason@,
        ValidationError::InvalidStudentId { value, reason } => "Invalid student ID '"@ + redacted(
            value@,
        ) + "': "@ + reason@,
        ValidationError::InvalidModuleCode { value, reason } => "Invalid module code '"@ + value@
            + "': "@ + reason@,
        ValidationError::InvalidPostcode { value, reason } => "Invalid postcode '"@ + value@
            + "': "@ + reason@,
        ValidationError::InvalidUrl { value, reason } => "Invalid URL '"@ + value@ + "': "@
            + reason@,
        ValidationError::TooShort { field, min_length, actual_length } => "Field '"@ + field@
            + "' is too short (minimum: "@ + decimal(min_length as nat) + ", actual: "@ + decimal(
            actual_length as nat,
        ) + ")"@,
        ValidationError::TooLong { field, max_length, actual_length } => "Field '"@ + field@
            + "' is too long (maximum: "@ + decimal(max_length as nat) + ", actual: "@ + decimal(
            actual_length as nat,
        ) + ")"@,
        ValidationError::OutOfRange { field, min, max, actual } => "Field '"@ + field@
            + "' is out of range (min: "@ + signed_decimal(min as int) + ", max: "@
            + signed_decimal(max as int) + ", actual: "@ + signed_decimal(actual as int) + ")"@,
        ValidationError::Missing { field } => "Required field '"@ + field@ + "' is missing"@,
        ValidationError::InvalidFormat { field, expected } => "Field '"@ + field@
            + "' has invalid format (expected: "@ + expected@ + ")"@,
        ValidationError::Custom(msg) => msg@,
    }
}

fn quoted_value(label: &str, value: &Vec<char>, reason: &str) -> (r: String)
    ensures
        r@ == label@ + value@ + "': "@ + reason@,
{
    let mut out: Vec<char> = Vec::new();
    push_str(&mut out, label);
    push_all(&mut out, value);
    push_str(&mut out, "': ");
    push_str(&mut out, reason);
    assert(out@ == label@ + value@ + "': "@ + reason@);
    from_chars(&out)
}

fn length_text(field: &str, middle: &str, bound: usize, actual: usize) -> (r: String)
    ensures
        r@ == "Field '"@ + field@ + middle@ + decimal(bound as nat) + ", actual: "@ + decimal(
            actual as nat,
        ) + ")"@,
{
    let mut out: Vec<char> = Vec::new();
    push_str(&mut out, "Field '");
    push_str(&mut out, field);
    push_str(&mut out, middle);
    push_decimal(&mut out, bound as u64);
    push_str(&mut out, ", actual: ");
    push_decimal(&mut out, actual as u64);
    push_str(&mut out, ")");
    assert(out@ == "Field '"@ + field@ + middle@ + decimal(bound as nat) + ", actual: "@
        + decimal(actual as nat) + ")"@);
    from_chars(&out)
}

impl ValidationError {
    /// The text shown for this error.
    pub fn to_string(&self) -> (r: String)
        ensures
            r@ == validation_text(*self),
    {
        match self {
            ValidationError::InvalidEmail { value, reason } => {
                let masked = to_chars(redact_pii(value.as_str()).as_str());
                quoted_value("Invalid email '", &masked, reason.as_str())
            },
            ValidationError::InvalidPhoneNumber { value, reason } => {
                let masked = to_chars(redact_pii(value.as_str()).as_str());
                quoted_value("Invalid phone number '", &masked, reason.as_str())
            },
            ValidationError::InvalidStudentId { value, reason } => {
                let masked = to_chars(redact_pii(value.as_str()).as_str());
                quoted_value("Invalid student ID '", &masked, reason.as_str())
            },
            ValidationError::InvalidModuleCode { value, reason } => {
                let shown = to_chars(value.as_str());
                quoted_value("Invalid module code '", &shown, reason.as_str())
            },
            ValidationError::InvalidPostcode { value, reason } => {
                let shown = to_chars(value.as_str());
                quoted_value("Invalid postcode '", &shown, reason.as_str())
            },
            ValidationError::InvalidUrl { value, reason } => {
                let shown = to_chars(value.as_str());
                quoted_value("Invalid URL '", &shown, reason.as_str())
            },
            ValidationError::TooShort { field, min_length, actual_length } => length_text(
                field.as_str(),
                "' is too short (minimum: ",
                *min_length,
                *actual_length,
            ),
            ValidationError::TooLong { field, max_length, actual_length } => length_text(
                field.as_str(),
                "' is too long (maximum: ",
                *max_length,
                *actual_length,
            ),
            ValidationError::OutOfRange { field, min, max, actual } => {
                let mut out: Vec<char> = Vec::new();
                push_str(&mut out, "Field '");
                push_str(&mut out, field.as_str());
                push_str(&mut out, "' is out of range (min: ");
                push_signed_decimal(&mut out, *min);
                push_str(&mut out, ", max: ");
                push_signed_decimal(&mut out, *max);
                push_str(&mut out, ", actual: ");
                push_signed_decimal(&mut out, *actual);
                push_str(&mut out, ")");
                assert(out@ == validation_text(*self));
                from_chars(&out)
            },
            ValidationError::Missing { field } => {
                let mut out: Vec<char> = Vec::new();
                push_str(&mut out, "Required field '");
                push_str(&mut out, field.as_str());
                push_str(&mut out, "' is missing");
                assert(out@ == validation_text(*self));
                from_chars(&out)
            },
            ValidationError::InvalidFormat { field, expected } => {
                let mut out: Vec<char> = Vec::new();
                push_str(&mut out, "Field '");
                push_str(&mut out, field.as_str());
                push_str(&mut out, "' has invalid format (expected: ");
                push_str(&mut out, expected.as_str());
                push_str(&mut out, ")");
                assert(out@ == validation_text(*self));
                from_chars(&out)
            },
            ValidationError::Custom(msg) => msg.clone(),
        }
    }
}

/// The text shown for an error: the kind of failure, then its message.
pub open spec fn error_text(e: SharedError) -> Seq<char> {
    match e {
        SharedError::Crypto(m) => "Cryptographic error: "@ + m@,
        SharedError::Validation(v) => "Validation error: "@ + validation_text(v),
        SharedError::Sanitization(m) => "Sanitization error: "@ + m@,
        SharedError::Time(m) => "Time error: "@ + m@,
        SharedError::Io(m) => "I/O error: "@ + m@,
        SharedError::Config(m) => "Configuration error: "@ + m@,
        SharedError::Generic(m) => m@,
    }
}

impl SharedError {
    /// The text shown for this error.
    pub fn to_string(&self) -> (r: String)
        ensures
            r@ == error_text(*self),
    {
        match self {
            SharedError::Crypto(m) => join_texts("Cryptographic error: ", m.as_str()),
            SharedError::Validation(v) => {
                let inner = v.to_string();
                join_texts("Validation error: ", inner.as_str())
            },
            SharedError::Sanitization(m) => join_texts("Sanitization error: ", m.as_str()),
            SharedError::Time(m) => join_texts("Time error: ", m.as_str()),
            SharedError::Io(m) => join_texts("I/O error: ", m.as_str()),
            SharedError::Config(m) => join_texts("Configuration error: ", m.as_str()),
            SharedError::Generic(m) => m.clone(),
        }
    }
}

/// The message for an end user: what to do, without technical detail.
pub open spec fn friendly_text(e: SharedError) -> Seq<char> {
    match e {
        SharedError::Crypto(_) => "A security operation failed. Please try again or contact support."@,
        SharedError::Validation(v) => match v {
            ValidationError::InvalidEmail { .. } => "Please enter a valid email address."@,
            ValidationError::InvalidPhoneNumber { .. } => "Please enter a valid UK phone number."@,
            ValidationError::InvalidStudentId { .. } => "Please enter a valid OU student ID (e.g., A1234567)."@,
            ValidationError::InvalidModuleCode { .. } => "Please enter a valid OU module code (e.g., TM112, M250)."@,
            ValidationError::InvalidPostcode { .. } => "Please enter a valid UK postcode."@,
            ValidationError::InvalidUrl { .. } => "Please enter a valid URL starting with http:// or https://."@,
            ValidationError::TooShort { field, min_length, .. } => field@ + " must be at least "@
                + decimal(min_length as nat) + " characters long."@,
            ValidationError::TooLong { field, max_length, .. } => field@
                + " must be no more than "@ + decimal(max_length as nat) + " characters long."@,
            ValidationError::Missing { field } => field@ + " is required."@,
            _ => validation_text(v),
        },
        SharedError::Sanitization(_) => "Invalid input detected. Please check your data and try again."@,
        SharedError::Time(m) => "Date/time error: "@ + m@,
        SharedError::Io(_) => "An I/O operation failed. Please check permissions and try again."@,
        SharedError::Config(_) => "Configuration error. Please check your settings."@,
        SharedError::Generic(m) => m@,
    }
}

fn bound_text(field: &str, middle: &str, bound: usize) -> (r: String)
    ensures
        r@ == field@ + middle@ + decimal(bound as nat) + " characters long."@,
{
    let mut out: Vec<char> = Vec::new();
    push_str(&mut out, field);
    push_str(&mut out, middle);
    push_decimal(&mut out, bound as u64);
    push_str(&mut out, " characters long.");
    assert(out@ == field@ + middle@ + decimal(bound as nat) + " characters long."@);
    from_chars(&out)
}

/// Turns an error into a message for an end user.
pub fn user_friendly_message(error: &SharedError) -> (r: String)
    ensures
        r@ == friendly_text(*error),
{
    match error {
        SharedError::Crypto(_) => owned(
            "A security operation failed. Please try again or contact support.",
        ),
        SharedError::Validation(ve) => match ve {
            ValidationError::InvalidEmail { .. } => owned("Please enter a valid email address."),
            ValidationError::InvalidPhoneNumber { .. } => owned(
                "Please enter a valid UK phone number.",
            ),
            ValidationError::InvalidStudentId { .. } => owned(
                "Please enter a valid OU student ID (e.g., A1234567).",
            ),
            ValidationError::InvalidModuleCode { .. } => owned(
                "Please enter a valid OU module code (e.g., TM112, M250).",
            ),
            ValidationError::InvalidPostcode { .. } => owned("Please enter a valid UK postcode."),
            ValidationError::InvalidUrl { .. } => owned(
                "Please enter a valid URL starting with http:// or https://.",
            ),
            ValidationError::TooShort { field, min_length, .. } => bound_text(
                field.as_str(),
                " must be at least ",
                *min_length,
            ),
            ValidationError::TooLong { field, max_length, .. } => bound_text(
                field.as_str(),
                " must be no more than ",
                *max_length,
            ),
            ValidationError::Missing { field } => join_texts(field.as_str(), " is required."),
            _ => ve.to_string(),
        },
        SharedError::Sanitization(_) => owned(
            "Invalid input detected. Please check your data and try again.",
        ),
        SharedError::Time(msg) => join_texts("Date/time error: ", msg.as_str()),
        SharedError::Io(_) => owned(
            "An I/O operation failed. Please check permissions and try again.",
        ),
        SharedError::Config(_) => owned("Configuration error. Please check your settings."),
        SharedError::Generic(msg) => msg.clone(),
    }
}

} // verus!
