use academic_workflow::errors::{SharedError, ValidationError};
use academic_workflow::validation::{
    check_ou_module_code, check_ou_student_id, check_uk_postcode, validate_email, validate_length,
    validate_not_empty, validate_ou_module_code, validate_ou_student_id, validate_range,
    validate_uk_phone, validate_uk_postcode, validate_url,
};

#[test]
fn test_validate_email() {
    // Valid emails
    assert!(validate_email("user@example.com").is_ok());
    assert!(validate_email("john.doe@university.ac.uk").is_ok());
    assert!(validate_email("student+tag@open.ac.uk").is_ok());

    // Invalid emails
    assert!(validate_email("").is_err());
    assert!(validate_email("invalid").is_err());
    assert!(validate_email("@example.com").is_err());
    assert!(validate_email("user@").is_err());
    assert!(validate_email("user @example.com").is_err());
}

#[test]
fn test_validate_uk_phone() {
    // Valid UK phone numbers
    assert!(validate_uk_phone("02012345678").is_ok());
    assert!(validate_uk_phone("07123456789").is_ok());
    assert!(validate_uk_phone("+442012345678").is_ok());
    assert!(validate_uk_phone("020 1234 5678").is_ok());
    assert!(validate_uk_phone("+44 20 1234 5678").is_ok());

    // Invalid phone numbers
    assert!(validate_uk_phone("").is_err());
    assert!(validate_uk_phone("123").is_err());
    assert!(validate_uk_phone("invalid").is_err());
    assert!(validate_uk_phone("+1234567890").is_err());
}

#[test]
fn test_validate_ou_student_id() {
    // Valid student IDs
    assert!(validate_ou_student_id("A1234567").is_ok());
    assert!(validate_ou_student_id("B9876543").is_ok());
    assert!(validate_ou_student_id("Z0000000").is_ok());
    assert!(validate_ou_student_id("a1234567").is_ok()); // lowercase converted

    // Invalid student IDs
    assert!(validate_ou_student_id("").is_err());
    assert!(validate_ou_student_id("12345678").is_err());
    assert!(validate_ou_student_id("AB123456").is_err());
    assert!(validate_ou_student_id("A123456").is_err()); // too short
    assert!(validate_ou_student_id("A12345678").is_err()); // too long
}

#[test]
fn test_validate_ou_module_code() {
    // Valid module codes
    assert!(validate_ou_module_code("TM112").is_ok());
    assert!(validate_ou_module_code("M250").is_ok());
    assert!(validate_ou_module_code("TT284").is_ok());
    assert!(validate_ou_module_code("tm112").is_ok()); // lowercase converted

    // Invalid module codes
    assert!(validate_ou_module_code("").is_err());
    assert!(validate_ou_module_code("ABCD123").is_err()); // too many letters
    assert!(validate_ou_module_code("A12").is_err()); // too few digits
    assert!(validate_ou_module_code("A1234").is_err()); // too many digits
    assert!(validate_ou_module_code("123").is_err()); // no letters
}

#[test]
fn test_validate_uk_postcode() {
    // Valid postcodes
    assert!(validate_uk_postcode("SW1A 1AA").is_ok());
    assert!(validate_uk_postcode("M1 1AE").is_ok());
    assert!(validate_uk_postcode("CR2 6XH").is_ok());
    assert!(validate_uk_postcode("DN55 1PT").is_ok());
    assert!(validate_uk_postcode("sw1a1aa").is_ok()); // lowercase converted

    // Invalid postcodes
    assert!(validate_uk_postcode("").is_err());
    assert!(validate_uk_postcode("invalid").is_err());
    assert!(validate_uk_postcode("A").is_err());
    assert!(validate_uk_postcode("12345").is_err());
}

#[test]
fn test_validate_url() {
    // Valid URLs
    assert!(validate_url("https://www.example.com").is_ok());
    assert!(validate_url("http://localhost:8080").is_ok());
    assert!(validate_url("https://open.ac.uk/path?query=value").is_ok());

    // Invalid URLs
    assert!(validate_url("").is_err());
    assert!(validate_url("not-a-url").is_err());
    assert!(validate_url("ftp://example.com").is_err()); // wrong scheme
    assert!(validate_url("//example.com").is_err());
}

#[test]
fn test_validate_length() {
    assert!(validate_length("hello", "name", 1, 10).is_ok());
    assert!(validate_length("a", "name", 1, 10).is_ok());
    assert!(validate_length("", "name", 1, 10).is_err());
    assert!(validate_length("this is too long", "name", 1, 5).is_err());
}

#[test]
fn test_validate_not_empty() {
    assert!(validate_not_empty("hello", "name").is_ok());
    assert!(validate_not_empty("", "name").is_err());
    assert!(validate_not_empty("   ", "name").is_err());
    assert!(validate_not_empty("\t\n", "name").is_err());
}

#[test]
fn test_validate_range() {
    assert!(validate_range(50, "score", 0, 100).is_ok());
    assert!(validate_range(0, "score", 0, 100).is_ok());
    assert!(validate_range(100, "score", 0, 100).is_ok());
    assert!(validate_range(-1, "score", 0, 100).is_err());
    assert!(validate_range(101, "score", 0, 100).is_err());
}

fn phone_reason(phone: &str) -> String {
    match validate_uk_phone(phone) {
        Err(SharedError::Validation(ValidationError::InvalidPhoneNumber { value, reason })) => {
            assert_eq!(value, phone);
            reason
        }
        other => panic!("unexpected outcome: {:?}", other),
    }
}

#[test]
fn phone_reasons_in_order() {
    assert_eq!(phone_reason(" -()"), "Phone number cannot be empty");
    assert_eq!(phone_reason("+1234567890"), "UK phone numbers must start with +44 or 0");
    assert_eq!(phone_reason("0123"), "Invalid length (found 4 digits)");
    assert_eq!(phone_reason("+44 0123456789"), "Number after +44 should not start with 0");
    assert_eq!(phone_reason("0123456789012"), "UK national format should be 10 or 11 digits");
    assert_eq!(phone_reason("01234567890123"), "Invalid length (found 14 digits)");
    assert!(validate_uk_phone("(020) 1234-5678").is_ok());
    assert!(validate_uk_phone("0123456789").is_ok());
    assert!(validate_uk_phone("+44 7123 456789").is_ok());
}

#[test]
fn email_reasons() {
    let reason = |email: &str| match validate_email(email) {
        Err(SharedError::Validation(ValidationError::InvalidEmail { value, reason })) => {
            assert_eq!(value, email.trim());
            reason
        }
        other => panic!("unexpected outcome: {:?}", other),
    };
    assert_eq!(reason("   "), "Email cannot be empty");
    let long = format!("{}@example.com", "a".repeat(250));
    assert_eq!(reason(&long), "Email is too long (maximum 254 characters)");
    assert_eq!(reason("invalid"), "Invalid email format");
    assert!(validate_email("  user@example.com  ").is_ok());
}

#[test]
fn url_reasons() {
    let reason = |url: &str| match validate_url(url) {
        Err(SharedError::Validation(ValidationError::InvalidUrl { value, reason })) => {
            assert_eq!(value, url.trim());
            reason
        }
        other => panic!("unexpected outcome: {:?}", other),
    };
    assert_eq!(reason(" "), "URL cannot be empty");
    assert_eq!(reason("ftp://example.com"), "URL must use http or https scheme, not 'ftp'");
    assert!(reason("not-a-url").starts_with("Invalid URL: "));
    assert!(validate_url(" https://open.ac.uk ").is_ok());
}

#[test]
fn identifier_code_and_postcode_reasons() {
    match validate_ou_student_id(" ab123456 ") {
        Err(SharedError::Validation(ValidationError::InvalidStudentId { value, reason })) => {
            assert_eq!(value, "AB123456");
            assert_eq!(
                reason,
                "Student ID must be one uppercase letter followed by 7 digits (e.g., A1234567)"
            );
        }
        other => panic!("unexpected outcome: {:?}", other),
    }
    match validate_ou_student_id("  ") {
        Err(SharedError::Validation(ValidationError::InvalidStudentId { value, reason })) => {
            assert_eq!(value, "");
            assert_eq!(reason, "Student ID cannot be empty");
        }
        other => panic!("unexpected outcome: {:?}", other),
    }
    match validate_ou_module_code("abcd123") {
        Err(SharedError::Validation(ValidationError::InvalidModuleCode { value, reason })) => {
            assert_eq!(value, "ABCD123");
            assert_eq!(
                reason,
                "Module code must be 1-3 uppercase letters followed by 3 digits (e.g., TM112, M250)"
            );
        }
        other => panic!("unexpected outcome: {:?}", other),
    }
    match validate_uk_postcode("A") {
        Err(SharedError::Validation(ValidationError::InvalidPostcode { value, reason })) => {
            assert_eq!(value, "A");
            assert_eq!(reason, "Postcode length is invalid");
        }
        other => panic!("unexpected outcome: {:?}", other),
    }
    match validate_uk_postcode("12345") {
        Err(SharedError::Validation(ValidationError::InvalidPostcode { reason, .. })) => {
            assert_eq!(reason, "Invalid UK postcode format");
        }
        other => panic!("unexpected outcome: {:?}", other),
    }
}

#[test]
fn checked_variants_find_their_patterns() {
    assert!(matches!(check_ou_student_id("A1234567"), Some(Ok(()))));
    assert!(matches!(check_ou_student_id("12345678"), Some(Err(_))));
    assert!(matches!(check_ou_module_code("TM112"), Some(Ok(()))));
    assert!(matches!(check_ou_module_code("A12"), Some(Err(_))));
    assert!(matches!(check_uk_postcode("SW1A 1AA"), Some(Ok(()))));
    assert!(matches!(check_uk_postcode("invalid"), Some(Err(_))));
}

#[test]
fn length_is_counted_in_bytes() {
    match validate_length("é", "name", 3, 10) {
        Err(SharedError::Validation(ValidationError::TooShort {
            field,
            min_length,
            actual_length,
        })) => {
            assert_eq!(field, "name");
            assert_eq!(min_length, 3);
            assert_eq!(actual_length, 2);
        }
        other => panic!("unexpected outcome: {:?}", other),
    }
    match validate_length("ééé", "name", 0, 5) {
        Err(SharedError::Validation(ValidationError::TooLong {
            field,
            max_length,
            actual_length,
        })) => {
            assert_eq!(field, "name");
            assert_eq!(max_length, 5);
            assert_eq!(actual_length, 6);
        }
        other => panic!("unexpected outcome: {:?}", other),
    }
    // Where the least length is above the greatest, too short is reported first.
    assert!(matches!(
        validate_length("abc", "name", 5, 2),
        Err(SharedError::Validation(ValidationError::TooShort { .. }))
    ));
}

#[test]
fn range_and_presence_errors_carry_their_values() {
    match validate_range(101, "score", 0, 100) {
        Err(SharedError::Validation(ValidationError::OutOfRange { field, min, max, actual })) => {
            assert_eq!((field.as_str(), min, max, actual), ("score", 0, 100, 101));
        }
        other => panic!("unexpected outcome: {:?}", other),
    }
    match validate_not_empty(" \u{3000} ", "title") {
        Err(SharedError::Validation(ValidationError::Missing { field })) => {
            assert_eq!(field, "title")
        }
        other => panic!("unexpected outcome: {:?}", other),
    }
}
