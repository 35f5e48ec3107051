use academic_workflow::leakage::PIIDetector;
use academic_workflow::models::Severity;

#[test]
fn pii_leakage_tests_test_detect_email() {
    let detector = PIIDetector::new();
    let text = "Contact student at john.doe@university.edu";
    let findings = detector.scan_text(text);

    assert!(findings.iter().any(|(name, _, _)| name == "Email Address"));
}

#[test]
fn test_detect_ssn() {
    let detector = PIIDetector::new();
    let text = "SSN: 123-45-6789";
    let findings = detector.scan_text(text);

    assert!(findings
        .iter()
        .any(|(name, _, severity)| name == "Social Security Number" && *severity == Severity::Critical));
}

#[test]
fn test_no_false_positives_on_hashes() {
    let detector = PIIDetector::new();
    // SHA-256 hash should not be detected as PII
    let text = "Hash: a3c5e7f9d1b2e4a6c8f0e2d4b6a8c0e2f4d6b8a0c2e4f6d8b0a2c4e6f8d0b2a4";
    let findings = detector.scan_text(text);

    // Should not detect SSN or credit card in hash
    assert!(!findings.iter().any(|(_, _, severity)| *severity == Severity::Critical));
}

#[test]
fn test_anonymized_student_id() {
    let detector = PIIDetector::new();
    // Hashed/anonymized IDs should be safe
    let text = "Student ID: sha256:9f86d081884c7d659a2feaa0c55ad015a3bf4f1b2b0b822cd15d6c15b0f00a08";
    let findings = detector.scan_text(text);

    // Should not match simple numeric pattern due to hash prefix
    // This tests that our anonymization approach works
    let high_findings: Vec<_> =
        findings.iter().filter(|(_, matched, _)| matched.contains("9f86d081")).collect();

    assert_eq!(high_findings.len(), 0, "Hashed IDs should not be detected as numeric student IDs");
}

#[test]
fn findings_come_kind_by_kind() {
    let detector = PIIDetector::try_new().unwrap();
    let text = "10.0.0.1 then 192.168.0.12, card 1234-5678-9012-3456, id 12345678";
    let findings = detector.scan_text(text);
    let seen: Vec<(&str, &str, Severity)> =
        findings.iter().map(|(n, m, s)| (n.as_str(), m.as_str(), *s)).collect();
    assert_eq!(
        seen,
        vec![
            ("Student ID (Numeric)", "12345678", Severity::High),
            ("Credit Card Number", "1234-5678-9012-3456", Severity::Critical),
            ("IP Address", "10.0.0.1", Severity::Low),
            ("IP Address", "192.168.0.12", Severity::Low),
        ]
    );
    assert!(detector.scan_text("").is_empty());
    // Ten digits in groups of three, three and four, with a dash or a dot between them.
    let phones = detector.scan_text("Call 555-123-4567 or 555.123.4567");
    let matched: Vec<&str> = phones
        .iter()
        .filter(|(name, _, _)| name == "Phone Number")
        .map(|(_, matched, _)| matched.as_str())
        .collect();
    assert_eq!(matched, vec!["555-123-4567", "555.123.4567"]);
}
