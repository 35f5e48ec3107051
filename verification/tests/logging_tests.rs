use academic_workflow::logging::{
    create_audit_log, parse_log_level, redact_email, redact_ip_address, redact_user_id,
    sanitize_log_message, try_sanitize_log_message, AuditResult, LogLevel,
};
use std::collections::HashMap;
use tracing::Level;

#[test]
fn test_log_level_conversion() {
    assert_eq!(Level::from(LogLevel::Trace), Level::TRACE);
    assert_eq!(Level::from(LogLevel::Debug), Level::DEBUG);
    assert_eq!(Level::from(LogLevel::Info), Level::INFO);
    assert_eq!(Level::from(LogLevel::Warn), Level::WARN);
    assert_eq!(Level::from(LogLevel::Error), Level::ERROR);
}

#[test]
fn a_level_keeps_its_name_in_the_conversion() {
    let levels = [
        LogLevel::Trace,
        LogLevel::Debug,
        LogLevel::Info,
        LogLevel::Warn,
        LogLevel::Error,
    ];
    for level in levels {
        let converted = Level::from(level);
        assert_eq!(converted.as_str(), level.to_string().to_uppercase());
    }
    assert!(Level::from(LogLevel::Error) < Level::from(LogLevel::Trace));
}

#[test]
fn test_log_level_display() {
    assert_eq!(LogLevel::Info.to_string(), "info");
    assert_eq!(LogLevel::Debug.to_string(), "debug");
    assert_eq!(LogLevel::Error.to_string(), "error");
}

#[test]
fn test_create_audit_log() {
    let entry = create_audit_log(
        Some("user123"),
        "login",
        Some("auth"),
        AuditResult::Success,
        HashMap::new(),
        Some("192.168.1.100"),
    );

    assert_eq!(entry.action, "login");
    assert_eq!(entry.result, AuditResult::Success);
    assert!(entry.user_id.is_some());
    assert!(entry.ip_address.is_some());
}

#[test]
fn test_redact_user_id() {
    assert_eq!(redact_user_id("user12345"), "u*******5");
    assert_eq!(redact_user_id("ab"), "a*");
    assert_eq!(redact_user_id("a"), "a*");
    assert_eq!(redact_user_id("ABC"), "A*C");
}

#[test]
fn test_redact_ip_address() {
    assert_eq!(redact_ip_address("192.168.1.100"), "192.168.***. ***");
    assert_eq!(redact_ip_address("10.0.0.1"), "10.0.***. ***");

    // IPv6
    let ipv6 = redact_ip_address("2001:0db8:85a3:0000:0000:8a2e:0370:7334");
    assert!(ipv6.starts_with("2001:0db8:"));
}

#[test]
fn test_redact_email() {
    assert_eq!(redact_email("user@example.com"), "u***@example.com");
    assert_eq!(redact_email("test@domain.org"), "t***@domain.org");
}

#[test]
fn test_parse_log_level() {
    assert_eq!(parse_log_level("info"), Some(LogLevel::Info));
    assert_eq!(parse_log_level("INFO"), Some(LogLevel::Info));
    assert_eq!(parse_log_level("debug"), Some(LogLevel::Debug));
    assert_eq!(parse_log_level("warn"), Some(LogLevel::Warn));
    assert_eq!(parse_log_level("warning"), Some(LogLevel::Warn));
    assert_eq!(parse_log_level("invalid"), None);
}

#[test]
fn test_audit_result_display() {
    assert_eq!(AuditResult::Success.to_string(), "SUCCESS");
    assert_eq!(AuditResult::Failure.to_string(), "FAILURE");
    assert_eq!(AuditResult::Denied.to_string(), "DENIED");
}

#[test]
fn user_id_mask_counts_bytes() {
    assert_eq!(redact_user_id(""), "**");
    assert_eq!(redact_user_id("é"), "é*");
    assert_eq!(redact_user_id("éé"), "é**é");
    assert_eq!(redact_user_id("abcd"), "a**d");
}

#[test]
fn ip_mask_forms() {
    assert_eq!(redact_ip_address("1.2.3.4.5"), "1.2.***. ***");
    assert_eq!(redact_ip_address("..."), "..***. ***");
    assert_eq!(redact_ip_address("::1"), "::****:****:****:****:****:****");
    assert_eq!(redact_ip_address("a.b:c"), "a.b:c:****:****:****:****:****:****");
    assert_eq!(redact_ip_address("localhost"), "***.***.***. ***");
    assert_eq!(redact_ip_address("1.2.3"), "***.***.***. ***");
}

#[test]
fn levels_by_name() {
    assert_eq!(parse_log_level("TRACE"), Some(LogLevel::Trace));
    assert_eq!(parse_log_level("Error"), Some(LogLevel::Error));
    assert_eq!(parse_log_level("WaRnInG"), Some(LogLevel::Warn));
    assert_eq!(parse_log_level(" info"), None);
    assert_eq!(parse_log_level(""), None);
    assert_eq!(LogLevel::Trace.to_string(), "trace");
    assert_eq!(LogLevel::Warn.to_string(), "warn");
}

#[test]
fn audit_entry_masks_user_and_address() {
    let mut metadata = HashMap::new();
    metadata.insert("k".to_string(), "v".to_string());
    let entry = create_audit_log(
        Some("user12345"),
        "grade",
        Some("tma-1"),
        AuditResult::Denied,
        metadata.clone(),
        Some("192.168.1.100"),
    );
    assert_eq!(entry.user_id.as_deref(), Some("u*******5"));
    assert_eq!(entry.ip_address.as_deref(), Some("192.168.***. ***"));
    assert_eq!(entry.resource.as_deref(), Some("tma-1"));
    assert_eq!(entry.action, "grade");
    assert_eq!(entry.result, AuditResult::Denied);
    assert_eq!(entry.metadata, metadata);
    assert!(entry.timestamp.contains('T'));

    let bare = create_audit_log(None, "login", None, AuditResult::Success, HashMap::new(), None);
    assert!(bare.user_id.is_none() && bare.resource.is_none() && bare.ip_address.is_none());
}

#[test]
fn test_sanitize_log_message() {
    let msg = "User user@example.com logged in from 07123456789";
    let sanitized = sanitize_log_message(msg);
    assert!(sanitized.contains("[EMAIL_REDACTED]"));
    assert!(sanitized.contains("[PHONE_REDACTED]"));
    assert!(!sanitized.contains("user@example.com"));
}

#[test]
fn test_sanitize_credit_card() {
    let msg = "Payment with card 1234 5678 9012 3456";
    let sanitized = sanitize_log_message(msg);
    assert!(sanitized.contains("[CC_REDACTED]"));
    assert!(!sanitized.contains("1234 5678"));
}

#[test]
fn log_messages_are_cleaned_in_order() {
    assert_eq!(
        try_sanitize_log_message("a@b.org paid with 1234-5678-9012-3456").as_deref(),
        Some("[EMAIL_REDACTED] paid with [CC_REDACTED]")
    );
    assert_eq!(try_sanitize_log_message("nothing to hide").as_deref(), Some("nothing to hide"));
}
