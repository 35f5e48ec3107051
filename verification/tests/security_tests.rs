use academic_workflow::security::{PIIType, SecurityError, SecurityService};

#[test]
fn test_anonymize_student_id() {
    let security = SecurityService::new();
    let result = security.anonymize_student_id("student123").unwrap();

    assert_eq!(result.original, "student123");
    assert_ne!(result.anonymized, "student123");
    assert_eq!(result.anonymized.len(), 64); // SHA3-256 produces 64 hex chars
}

#[test]
fn test_anonymize_student_id_deterministic() {
    let security = SecurityService::new();
    let result1 = security.anonymize_student_id("student123").unwrap();
    let result2 = security.anonymize_student_id("student123").unwrap();

    assert_eq!(result1.anonymized, result2.anonymized);
}

#[test]
fn test_anonymize_student_id_with_salt() {
    let security = SecurityService::new();
    let result = security.anonymize_student_id_with_salt("student123", "my-salt").unwrap();

    assert_eq!(result.salt, Some("my-salt".to_string()));
    assert_ne!(result.anonymized, security.anonymize_student_id("student123").unwrap().anonymized);
}

#[test]
fn test_anonymize_empty_student_id() {
    let security = SecurityService::new();
    let result = security.anonymize_student_id("");

    assert!(result.is_err());
}

#[test]
fn security_test_detect_email() {
    let security = SecurityService::new();
    let result = security.detect_pii("Contact me at john.doe@example.com for details");

    assert!(result.found);
    assert!(result.pii_types.contains(&PIIType::Email));
    assert_eq!(result.locations.len(), 1);
    assert_eq!(result.locations[0].matched_text, "john.doe@example.com");
}

#[test]
fn test_detect_phone_number() {
    let security = SecurityService::new();
    let result = security.detect_pii("Call me on 07123456789");

    assert!(result.found);
    assert!(result.pii_types.contains(&PIIType::PhoneNumber));
}

#[test]
fn test_detect_postal_code() {
    let security = SecurityService::new();
    let result = security.detect_pii("My address is MK7 6AA");

    assert!(result.found);
    assert!(result.pii_types.contains(&PIIType::PostalCode));
}

#[test]
fn test_detect_url() {
    let security = SecurityService::new();
    let result = security.detect_pii("Visit https://example.com/myprofile");

    assert!(result.found);
    assert!(result.pii_types.contains(&PIIType::Url));
}

#[test]
fn test_detect_no_pii() {
    let security = SecurityService::new();
    let result = security.detect_pii("This is a clean answer with no personal information");

    assert!(!result.found);
    assert!(result.locations.is_empty());
}

#[test]
fn test_sanitize_content() {
    let security = SecurityService::new();
    let content = "Email me at john@example.com or call 07123456789";
    let sanitized = security.sanitize_content(content);

    assert!(!sanitized.contains("john@example.com"));
    assert!(!sanitized.contains("07123456789"));
    assert!(sanitized.contains("[EMAIL_REDACTED]"));
    assert!(sanitized.contains("[PHONE_REDACTED]"));
}

#[test]
fn test_validate_output_clean() {
    let security = SecurityService::new();
    let result = security.validate_output("This is clean feedback with no PII");

    assert!(result.is_ok());
}

#[test]
fn test_validate_output_with_pii() {
    let security = SecurityService::new();
    let result = security.validate_output("Good work! Email me at john@example.com");

    assert!(result.is_err());
}

#[test]
fn test_create_redaction_report() {
    let security = SecurityService::new();
    let content = "Contact john@example.com or call 07123456789";
    let report = security.create_redaction_report(content);

    assert!(report.pii_found);
    assert_eq!(report.pii_count, 2);
    assert!(report.pii_types.contains(&PIIType::Email));
    assert!(report.pii_types.contains(&PIIType::PhoneNumber));
}

#[test]
fn test_multiple_pii_on_same_line() {
    let security = SecurityService::new();
    let result = security.detect_pii("Email john@example.com or jane@example.com");

    assert!(result.found);
    assert_eq!(result.locations.len(), 2);
    assert!(result.locations.iter().all(|loc| loc.pii_type == PIIType::Email));
}

#[test]
fn try_new_gives_a_service() {
    assert!(SecurityService::try_new().is_some());
}

#[test]
fn detect_reports_exactly_one_email() {
    let security = SecurityService::new();
    let result = security.detect_pii("Contact me at john@example.com");

    assert!(result.found);
    assert_eq!(result.pii_types, vec![PIIType::Email]);
    assert_eq!(result.locations.len(), 1);
    let location = &result.locations[0];
    assert_eq!(location.pii_type, PIIType::Email);
    assert_eq!(location.matched_text, "john@example.com");
    assert_eq!(location.line, 1);
    assert_eq!(location.column, 14);
}

#[test]
fn detect_numbers_lines_from_one_and_counts_columns_in_bytes() {
    let security = SecurityService::new();
    let result = security.detect_pii("clean\r\némail a@b.org\nA1234567 and https://x.org/p");

    let found: Vec<(PIIType, usize, usize, &str)> = result
        .locations
        .iter()
        .map(|l| (l.pii_type, l.line, l.column, l.matched_text.as_str()))
        .collect();
    assert_eq!(
        found,
        vec![
            (PIIType::Email, 2, 7, "a@b.org"),
            (PIIType::Url, 3, 13, "https://x.org/p"),
            (PIIType::StudentId, 3, 0, "A1234567"),
        ]
    );
    assert_eq!(result.pii_types, vec![PIIType::Email, PIIType::Url, PIIType::StudentId]);
}

#[test]
fn detect_takes_empty_and_non_ascii_text() {
    let security = SecurityService::new();
    assert!(!security.detect_pii("").found);
    assert!(!security.detect_pii("\n\n").found);
    let result = security.detect_pii("日本語のテキスト • ünïcödé");
    assert!(!result.found);
    assert!(result.pii_types.is_empty());
}

#[test]
fn sanitize_uses_one_placeholder_per_category() {
    let security = SecurityService::new();
    let text = "a@b.org 07123456789 MK7 6AA https://x.org/p A1234567";
    assert_eq!(
        security.sanitize_content(text),
        "[EMAIL_REDACTED] [PHONE_REDACTED][POSTCODE_REDACTED] [URL_REDACTED] [STUDENT_ID_REDACTED]"
    );
}

#[test]
fn sanitize_then_detect_finds_nothing_in_ordinary_text() {
    let security = SecurityService::new();
    let text = "Write to john@example.com,\nring 07123456789 or visit https://example.com/me.\nMK7 6AA, A1234567.";
    let sanitized = security.sanitize_content(text);
    let result = security.detect_pii(&sanitized);
    assert!(!result.found);
    assert!(security.validate_output(&sanitized).is_ok());
}

#[test]
fn sanitize_can_uncover_a_match() {
    // The digits are no telephone number while a letter follows them; once
    // the web address is replaced, a bracket follows and they are one.
    let security = SecurityService::new();
    let sanitized = security.sanitize_content("07123456789http://x");
    assert_eq!(sanitized, "07123456789[URL_REDACTED]");
    let result = security.detect_pii(&sanitized);
    assert!(result.found);
    assert_eq!(result.pii_types, vec![PIIType::PhoneNumber]);
}

#[test]
fn validate_output_counts_instances_and_categories() {
    let security = SecurityService::new();
    match security.validate_output("a@b.org and c@d.org, 07123456789") {
        Err(SecurityError::PiiDetected { instances, types }) => {
            assert_eq!(instances, 3);
            assert_eq!(types, 2);
        }
        other => panic!("unexpected outcome: {:?}", other),
    }
    assert_eq!(
        SecurityError::PiiDetected { instances: 3, types: 2 }.to_string(),
        "PII detected in AI output: found 3 instances of 2 types"
    );
}

#[test]
fn anonymize_is_the_hex_digest_of_the_trimmed_identifier() {
    let security = SecurityService::new();
    let plain = security.anonymize_student_id("  student123\n").unwrap();
    assert_eq!(plain.original, "student123");
    assert_eq!(plain.anonymized, academic_workflow::crypto::sha3_256_hex(b"student123"));
    assert!(plain.salt.is_none());

    let salted = security.anonymize_student_id_with_salt("student123", "pepper").unwrap();
    assert_eq!(salted.anonymized, academic_workflow::crypto::sha3_256_hex(b"pepperstudent123"));
    let other = security.anonymize_student_id_with_salt("student123", "salt").unwrap();
    assert_ne!(salted.anonymized, other.anonymized);

    assert!(matches!(
        security.anonymize_student_id_with_salt(" \t", "salt"),
        Err(SecurityError::EmptyStudentId)
    ));
}

#[test]
fn redaction_report_counts_bytes() {
    let security = SecurityService::new();
    let report = security.create_redaction_report("héllo");
    assert_eq!(report.original_length, 6);
    assert!(!report.pii_found);
    assert_eq!(report.pii_count, 0);
    assert!(report.pii_types.is_empty());
}

#[test]
fn matched_text_is_the_piece_of_its_line_at_its_column() {
    let security = SecurityService::new();
    let content = "\u{e9}t\u{e9} a@b.org\r\nring 07123456789 now\n\u{20ac} https://x.org/p A1234567";
    let lines: Vec<&str> = content.lines().collect();
    let result = security.detect_pii(content);
    assert_eq!(result.locations.len(), 4);
    for location in &result.locations {
        assert!(location.line >= 1 && location.line <= lines.len());
        let line = lines[location.line - 1];
        let end = location.column + location.matched_text.len();
        assert_eq!(&line[location.column..end], location.matched_text);
    }
}
