//! Log levels, audit records and the masking of values before they are logged.

use crate::errors::{redact_pii, redacted};
use crate::text::{
    byte_len, from_chars, lemma_utf8_len_bounds, lowercase, owned, push_all, push_repeated,
    push_str, repeated, split_chars, split_on, str_equal, to_chars, utf8_len, views,
};
use crate::pattern::{compile, compiles, pattern_compiles, pattern_replace_all, replace_all};
use crate::time::now_rfc3339;
use std::collections::HashMap;
use vstd::prelude::*;

verus! {

/// How much is logged, from the most to the least.
#[derive(Debug, Clone, Copy, PartialEq, Eq, Structural)]
pub enum LogLevel {
    Trace,
    Debug,
    Info,
    Warn,
    Error,
}

impl LogLevel {
    /// The name of a level, in lower case.
    pub open spec fn text(self) -> Seq<char> {
        match self {
            LogLevel::Trace => "trace"@,
            LogLevel::Debug => "debug"@,
            LogLevel::Info => "info"@,
            LogLevel::Warn => "warn"@,
            LogLevel::Error => "error"@,
        }
    }

    /// The name of a level, in upper case.
    pub open spec fn label(self) -> Seq<char> {
        match self {
            LogLevel::Trace => "TRACE"@,
            LogLevel::Debug => "DEBUG"@,
            LogLevel::Info => "INFO"@,
            LogLevel::Warn => "WARN"@,
            LogLevel::Error => "ERROR"@,
        }
    }

    /// The name of this level, in lower case.
    pub fn to_string(&self) -> (r: String)
        ensures
            r@ == self.text(),
    {
        match self {
            LogLevel::Trace => owned("trace"),
            LogLevel::Debug => owned("debug"),
            LogLevel::Info => owned("info"),
            LogLevel::Warn => owned("warn"),
            LogLevel::Error => owned("error"),
        }
    }
}

/// A verbosity level of the `tracing` crate. Nothing inside it is visible
/// here; `tracing_label` speaks for it.
#[verifier::external_type_specification]
#[verifier::external_body]
pub struct ExLevel(tracing::Level);

/// The label of a level of the `tracing` crate, as `tracing::Level::as_str`
/// gives it: the level's name in upper case.
pub uninterp spec fn tracing_label(level: tracing::Level) -> Seq<char>;

/// `tracing::Level::TRACE`. Trusted: its label is `TRACE`.
#[verifier::external_body]
fn tracing_trace() -> (l: tracing::Level)
    ensures
        tracing_label(l) == "TRACE"@,
{
    tracing::Level::TRACE
}

/// `tracing::Level::DEBUG`. Trusted: its label is `DEBUG`.
#[verifier::external_body]
fn tracing_debug() -> (l: tracing::Level)
    ensures
        tracing_label(l) == "DEBUG"@,
{
    tracing::Level::DEBUG
}

/// `tracing::Level::INFO`. Trusted: its label is `INFO`.
#[verifier::external_body]
fn tracing_info() -> (l: tracing::Level)
    ensures
        tracing_label(l) == "INFO"@,
{
    tracing::Level::INFO
}

/// `tracing::Level::WARN`. Trusted: its label is `WARN`.
#[verifier::external_body]
fn tracing_warn() -> (l: tracing::Level)
    ensures
        tracing_label(l) == "WARN"@,
{
    tracing::Level::WARN
}

/// `tracing::Level::ERROR`. Trusted: its label is `ERROR`.
#[verifier::external_body]
fn tracing_error() -> (l: tracing::Level)
    ensures
        tracing_label(l) == "ERROR"@,
{
    tracing::Level::ERROR
}

impl From<LogLevel> for tracing::Level {
    /// The level of the `tracing` crate that bears the same name.
    fn from(level: LogLevel) -> (l: tracing::Level)
        ensures
            tracing_label(l) == level.label(),
    {
        match level {
            LogLevel::Trace => tracing_trace(),
            LogLevel::Debug => tracing_debug(),
            LogLevel::Info => tracing_info(),
            LogLevel::Warn => tracing_warn(),
            LogLevel::Error => tracing_error(),
        }
    }
}

impl vstd::std_specs::convert::FromSpecImpl<LogLevel> for tracing::Level {
    open spec fn obeys_from_spec() -> bool {
        false
    }

    open spec fn from_spec(level: LogLevel) -> tracing::Level {
        arbitrary()
    }
}

/// Two levels are converted to levels of two labels, so no two of them to
/// one.
pub proof fn lemma_labels_differ(a: LogLevel, b: LogLevel)
    requires
        a != b,
    ensures
        a.label() != b.label(),
{
    reveal_strlit("TRACE");
    reveal_strlit("DEBUG");
    reveal_strlit("INFO");
    reveal_strlit("WARN");
    reveal_strlit("ERROR");
    assert("TRACE"@[0] == 'T' && "DEBUG"@[0] == 'D' && "INFO"@[0] == 'I' && "WARN"@[0] == 'W'
        && "ERROR"@[0] == 'E');
}

/// How an audited action ended.
#[derive(Debug, Clone, Copy, PartialEq, Eq, Structural)]
pub enum AuditResult {
    Success,
    Failure,
    Denied,
}

impl AuditResult {
    /// The name of an outcome, in upper case.
    pub open spec fn text(self) -> Seq<char> {
        match self {
            AuditResult::Success => "SUCCESS"@,
            AuditResult::Failure => "FAILURE"@,
            AuditResult::Denied => "DENIED"@,
        }
    }

    /// The name of this outcome, in upper case.
    pub fn to_string(&self) -> (r: String)
        ensures
            r@ == self.text(),
    {
        match self {
            AuditResult::Success => owned("SUCCESS"),
            AuditResult::Failure => owned("FAILURE"),
            AuditResult::Denied => owned("DENIED"),
        }
    }
}

/// One record of the audit log.
#[derive(Debug, Clone)]
pub struct AuditLogEntry {
    /// When the action happened, as an RFC 3339 text.
    pub timestamp: String,
    /// Who acted, masked.
    pub user_id: Option<String>,
    /// What was done.
    pub action: String,
    /// What it was done to.
    pub resource: Option<String>,
    /// How it ended.
    pub result: AuditResult,
    /// Anything else worth keeping.
    pub metadata: HashMap<String, String>,
    /// Where the actor came from, masked.
    pub ip_address: Option<String>,
}

/// The level that a name stands for, whatever its case. `warning` stands for
/// `Warn` as `warn` does.
pub open spec fn level_named(level: Seq<char>) -> Option<LogLevel> {
    let l = lowercase(level);
    if l == "trace"@ {
        Some(LogLevel::Trace)
    } else if l == "debug"@ {
        Some(LogLevel::Debug)
    } else if l == "info"@ {
        Some(LogLevel::Info)
    } else if l == "warn"@ || l == "warning"@ {
        Some(LogLevel::Warn)
    } else if l == "error"@ {
        Some(LogLevel::Error)
    } else {
        None
    }
}

/// Reads a log level from its name.
pub fn parse_log_level(level: &str) -> (r: Option<LogLevel>)
    ensures
        r == level_named(level@),
{
    let lower = level.to_lowercase();
    let l = lower.as_str();
    if str_equal(l, "trace") {
        Some(LogLevel::Trace)
    } else if str_equal(l, "debug") {
        Some(LogLevel::Debug)
    } else if str_equal(l, "info") {
        Some(LogLevel::Info)
    } else if str_equal(l, "warn") || str_equal(l, "warning") {
        Some(LogLevel::Warn)
    } else if str_equal(l, "error") {
        Some(LogLevel::Error)
    } else {
        None
    }
}

/// The masked form of a user identifier. One of at most two bytes keeps its
/// first character, or a star if it is empty, followed by a star. A longer
/// one keeps its first and last character, with a star between them for each
/// byte beyond two.
pub open spec fn masked_user_id(user_id: Seq<char>) -> Seq<char> {
    if utf8_len(user_id) <= 2 {
        seq![
            if user_id.len() > 0 {
                user_id[0]
            } else {
                '*'
            },
            '*',
        ]
    } else {
        seq![user_id[0]] + repeated('*', (utf8_len(user_id) - 2) as nat) + seq![user_id.last()]
    }
}

/// Masks a user identifier for the log.
pub fn redact_user_id(user_id: &str) -> (r: String)
    ensures
        r@ == masked_user_id(user_id@),
{
    let v = to_chars(user_id);
    let bytes = byte_len(user_id);
    let mut out: Vec<char> = Vec::new();
    proof {
        lemma_utf8_len_bounds(user_id@);
    }
    if bytes <= 2 {
        if v.len() > 0 {
            out.push(v[0]);
        } else {
            out.push('*');
        }
        out.push('*');
        assert(out@ == masked_user_id(user_id@));
    } else {
        out.push(v[0]);
        push_repeated(&mut out, '*', bytes - 2);
        out.push(v[v.len() - 1]);
        assert(out@ == masked_user_id(user_id@));
    }
    from_chars(&out)
}

/// The masked form of a network address. With four or more parts between
/// dots, the first two parts stay. Otherwise, with a colon, the first two
/// parts between colons stay. Anything else is masked whole.
pub open spec fn masked_ip(ip: Seq<char>) -> Seq<char> {
    let dotted = split_on(ip, '.');
    let coloned = split_on(ip, ':');
    if dotted.len() >= 4 {
        dotted[0] + "."@ + dotted[1] + ".***. ***"@
    } else if coloned.len() >= 2 {
        coloned[0] + ":"@ + coloned[1] + ":****:****:****:****:****:****"@
    } else {
        "***.***.***. ***"@
    }
}

/// Masks a network address for the log.
pub fn redact_ip_address(ip: &str) -> (r: String)
    ensures
        r@ == masked_ip(ip@),
{
    let v = to_chars(ip);
    let dotted = split_chars(&v, '.');
    if dotted.len() >= 4 {
        let mut out: Vec<char> = Vec::new();
        push_all(&mut out, &dotted[0]);
        push_str(&mut out, ".");
        push_all(&mut out, &dotted[1]);
        push_str(&mut out, ".***. ***");
        proof {
            assert(views(dotted@)[0] == dotted@[0]@);
            assert(views(dotted@)[1] == dotted@[1]@);
            assert(out@ == masked_ip(ip@));
        }
        return from_chars(&out);
    }
    let coloned = split_chars(&v, ':');
    if coloned.len() >= 2 {
        let mut out: Vec<char> = Vec::new();
        push_all(&mut out, &coloned[0]);
        push_str(&mut out, ":");
        push_all(&mut out, &coloned[1]);
        push_str(&mut out, ":****:****:****:****:****:****");
        proof {
            assert(views(coloned@)[0] == coloned@[0]@);
            assert(views(coloned@)[1] == coloned@[1]@);
            assert(out@ == masked_ip(ip@));
        }
        return from_chars(&out);
    }
    owned("***.***.***. ***")
}

/// Masks an e-mail address for the log: the first character and the domain
/// stay.
pub fn redact_email(email: &str) -> (r: String)
    ensures
        r@ == redacted(email@),
{
    redact_pii(email)
}

/// Builds an audit record for an action that happens now. The user
/// identifier and the network address are masked.
pub fn create_audit_log(
    user_id: Option<&str>,
    action: &str,
    resource: Option<&str>,
    result: AuditResult,
    metadata: HashMap<String, String>,
    ip_address: Option<&str>,
) -> (entry: AuditLogEntry)
    ensures
        match (user_id, entry.user_id) {
            (Some(given), Some(kept)) => kept@ == masked_user_id(given@),
            (None, None) => true,
            _ => false,
        },
        entry.action@ == action@,
        match (resource, entry.resource) {
            (Some(given), Some(kept)) => kept@ == given@,
            (None, None) => true,
            _ => false,
        },
        entry.result == result,
        entry.metadata == metadata,
        match (ip_address, entry.ip_address) {
            (Some(given), Some(kept)) => kept@ == masked_ip(given@),
            (None, None) => true,
            _ => false,
        },
{
    let user = match user_id {
        Some(id) => Some(redact_user_id(id)),
        None => None,
    };
    let kept_resource = match resource {
        Some(r) => Some(owned(r)),
        None => None,
    };
    let ip = match ip_address {
        Some(a) => Some(redact_ip_address(a)),
        None => None,
    };
    AuditLogEntry {
        timestamp: now_rfc3339(),
        user_id: user,
        action: owned(action),
        resource: kept_resource,
        result,
        metadata,
        ip_address: ip,
    }
}

/// Pattern for e-mail addresses in log messages.
pub const LOG_EMAIL_PATTERN: &'static str = r"\b[A-Za-z0-9._%+-]+@[A-Za-z0-9.-]+\.[A-Z|a-z]{2,}\b";

/// Pattern for telephone numbers in log messages.
pub const LOG_PHONE_PATTERN: &'static str = r"\b(\+?44\s?|0)\d{2,4}\s?\d{3,4}\s?\d{4}\b";

/// Pattern for payment card numbers in log messages.
pub const LOG_CARD_PATTERN: &'static str = r"\b\d{4}[\s-]?\d{4}[\s-]?\d{4}[\s-]?\d{4}\b";

/// Whether the three patterns for log messages compile.
pub open spec fn log_patterns_compile() -> bool {
    &&& pattern_compiles(LOG_EMAIL_PATTERN@)
    &&& pattern_compiles(LOG_PHONE_PATTERN@)
    &&& pattern_compiles(LOG_CARD_PATTERN@)
}

/// A log message with e-mail addresses, then telephone numbers, then payment
/// card numbers replaced by their placeholders.
pub open spec fn log_message_cleaned(message: Seq<char>) -> Seq<char> {
    pattern_replace_all(
        LOG_CARD_PATTERN@,
        pattern_replace_all(
            LOG_PHONE_PATTERN@,
            pattern_replace_all(LOG_EMAIL_PATTERN@, message, "[EMAIL_REDACTED]"@),
            "[PHONE_REDACTED]"@,
        ),
        "[CC_REDACTED]"@,
    )
}

/// Replaces what looks like personal data in a log message.
pub fn sanitize_log_message(message: &str) -> (r: String)
    requires
        log_patterns_compile(),
    ensures
        r@ == log_message_cleaned(message@),
{
    let email = compile(LOG_EMAIL_PATTERN).unwrap();
    let phone = compile(LOG_PHONE_PATTERN).unwrap();
    let card = compile(LOG_CARD_PATTERN).unwrap();
    let a = replace_all(&email, message, "[EMAIL_REDACTED]");
    let b = replace_all(&phone, a.as_str(), "[PHONE_REDACTED]");
    replace_all(&card, b.as_str(), "[CC_REDACTED]")
}

/// Cleans a log message where the patterns compile, and reports that they
/// do not where they do not.
pub fn try_sanitize_log_message(message: &str) -> (r: Option<String>)
    ensures
        r is Some <==> log_patterns_compile(),
        r matches Some(cleaned) ==> cleaned@ == log_message_cleaned(message@),
{
    if compiles(LOG_EMAIL_PATTERN) && compiles(LOG_PHONE_PATTERN) && compiles(LOG_CARD_PATTERN) {
        Some(sanitize_log_message(message))
    } else {
        None
    }
}

} // verus!
