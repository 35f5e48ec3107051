//! Validation of addresses, telephone numbers, identifiers and codes.
//!
//! What counts as an e-mail address is the `email_address` crate's to say, what
//! parses as a web address the `url` crate's, and what matches a pattern the
//! `regex` crate's. The order of the checks and the reasons given are proved.

use crate::errors::{SharedError, ValidationError};
use crate::pattern::{compile, compiles, is_match, pattern_compiles, pattern_is_match};
use crate::text::{
    byte_len, join_texts, count_digits, decimal, digits_in, from_chars, is_blank, owned, push_decimal,
    push_str, replace_char, replace_char_in, starts_with, str_equal, str_is_blank, to_chars, trim,
    trim_str, uppercase, utf8_len,
};
use vstd::prelude::*;

verus! {

/// Pattern of a student identifier: a capital letter and seven digits.
pub const OU_STUDENT_ID_PATTERN: &'static str = r"^[A-Z]\d{7}$";

/// Pattern of a module code: one to three capital letters and three digits.
pub const OU_MODULE_CODE_PATTERN: &'static str = r"^[A-Z]{1,3}\d{3}$";

/// Pattern of a UK postcode.
pub const UK_POSTCODE_PATTERN: &'static str = r"^([A-Z]{1,2}\d{1,2}[A-Z]?)\s?(\d[A-Z]{2})$";

/// Whether a text is an e-mail address.
pub uninterp spec fn email_is_valid(address: Seq<char>) -> bool;

/// What parsing a text as an absolute web address gives: its scheme, or the
/// message of the failure.
pub uninterp spec fn url_parse_outcome(input: Seq<char>) -> Result<Seq<char>, Seq<char>>;

/// `email_address::EmailAddress::is_valid` tells whether a text parses as an
/// e-mail address.
#[verifier::external_body]
fn is_email(address: &str) -> (r: bool)
    ensures
        r == email_is_valid(address@),
{
    email_address::EmailAddress::is_valid(address)
}

/// Parses with `url::Url::parse` and hands out the scheme of the address, or
/// the text of the error.
#[verifier::external_body]
fn parse_url_scheme(input: &str) -> (r: Result<String, String>)
    ensures
        match r {
            Ok(scheme) => url_parse_outcome(input@) == Ok::<Seq<char>, Seq<char>>(scheme@),
            Err(message) => url_parse_outcome(input@) == Err::<Seq<char>, Seq<char>>(message@),
        },
{
    match url::Url::parse(input) {
        Ok(parsed) => Ok(parsed.scheme().to_string()),
        Err(e) => Err(e.to_string()),
    }
}

// ---------------------------------------------------------------------------
// E-mail addresses
// ---------------------------------------------------------------------------

/// Why a text is no acceptable e-mail address, if it is none: it is empty
/// once trimmed, it takes more than 254 bytes, or it does not parse.
pub open spec fn email_problem(email: Seq<char>) -> Option<Seq<char>> {
    let e = trim(email);
    if e.len() == 0 {
        Some("Email cannot be empty"@)
    } else if utf8_len(e) > 254 {
        Some("Email is too long (maximum 254 characters)"@)
    } else if !email_is_valid(e) {
        Some("Invalid email format"@)
    } else {
        None
    }
}

/// Checks an e-mail address.
pub fn validate_email(email: &str) -> (r: Result<(), SharedError>)
    ensures
        r is Ok <==> email_problem(email@) is None,
        r matches Err(e) ==> e matches SharedError::Validation(
            ValidationError::InvalidEmail { value, reason },
        ) && value@ == trim(email@) && Some(reason@) == email_problem(email@),
{
    let trimmed = trim_str(email);
    let reason = if trimmed.as_str().unicode_len() == 0 {
        "Email cannot be empty"
    } else if byte_len(trimmed.as_str()) > 254 {
        "Email is too long (maximum 254 characters)"
    } else if !is_email(trimmed.as_str()) {
        "Invalid email format"
    } else {
        return Ok(());
    };
    Err(
        SharedError::Validation(
            ValidationError::InvalidEmail { value: trimmed, reason: owned(reason) },
        ),
    )
}

// ---------------------------------------------------------------------------
// Telephone numbers
// ---------------------------------------------------------------------------

/// A telephone number without spaces, hyphens and brackets.
pub open spec fn phone_digits(phone: Seq<char>) -> Seq<char> {
    replace_char(
        replace_char(
            replace_char(replace_char(phone, ' ', Seq::empty()), '-', Seq::empty()),
            '(',
            Seq::empty(),
        ),
        ')',
        Seq::empty(),
    )
}

/// Why a text is no UK telephone number, if it is none. Without its
/// separators it must not be empty, must start with `+44` or `0`, and must
/// hold 10 to 13 digits. After `+44` no `0` may follow; a number that starts
/// with `0` takes 10 or 11 bytes.
pub open spec fn phone_problem(phone: Seq<char>) -> Option<Seq<char>> {
    let n = phone_digits(phone);
    let international = starts_with(n, "+44"@);
    let national = starts_with(n, "0"@);
    if n.len() == 0 {
        Some("Phone number cannot be empty"@)
    } else if !international && !national {
        Some("UK phone numbers must start with +44 or 0"@)
    } else if count_digits(n) < 10 || count_digits(n) > 13 {
        Some("Invalid length (found "@ + decimal(count_digits(n)) + " digits)"@)
    } else if international && (n.len() == 3 || n[3] == '0') {
        Some("Number after +44 should not start with 0"@)
    } else if !international && utf8_len(n) != 10 && utf8_len(n) != 11 {
        Some("UK national format should be 10 or 11 digits"@)
    } else {
        None
    }
}

fn phone_error(phone: &str, reason: String) -> (e: SharedError)
    ensures
        e matches SharedError::Validation(ValidationError::InvalidPhoneNumber { value, reason: r })
            && value@ == phone@ && r@ == reason@,
{
    SharedError::Validation(ValidationError::InvalidPhoneNumber { value: owned(phone), reason })
}

/// Checks a UK telephone number.
pub fn validate_uk_phone(phone: &str) -> (r: Result<(), SharedError>)
    ensures
        r is Ok <==> phone_problem(phone@) is None,
        r matches Err(e) ==> e matches SharedError::Validation(
            ValidationError::InvalidPhoneNumber { value, reason },
        ) && value@ == phone@ && Some(reason@) == phone_problem(phone@),
{
    let empty: Vec<char> = Vec::new();
    let v = to_chars(phone);
    let a = replace_char_in(&v, ' ', &empty);
    let b = replace_char_in(&a, '-', &empty);
    let c = replace_char_in(&b, '(', &empty);
    let n = replace_char_in(&c, ')', &empty);
    assert(n@ == phone_digits(phone@));
    proof {
        reveal_strlit("+44");
        reveal_strlit("0");
    }
    if n.len() == 0 {
        return Err(phone_error(phone, owned("Phone number cannot be empty")));
    }
    let international = n.len() >= 3 && n[0] == '+' && n[1] == '4' && n[2] == '4';
    let national = n[0] == '0';
    proof {
        if n.len() >= 3 {
            assert(n@.subrange(0, 3) =~= seq![n@[0], n@[1], n@[2]]);
        }
        assert(n@.subrange(0, 1) =~= seq![n@[0]]);
        assert("+44"@ =~= seq!['+', '4', '4']);
        assert("0"@ =~= seq!['0']);
        if !national {
            assert(n@.subrange(0, 1)[0] != "0"@[0]);
        }
        if n.len() >= 3 && !international {
            assert(n@.subrange(0, 3)[0] != "+44"@[0] || n@.subrange(0, 3)[1] != "+44"@[1]
                || n@.subrange(0, 3)[2] != "+44"@[2]);
        }
        assert(international == starts_with(n@, "+44"@));
        assert(national == starts_with(n@, "0"@));
    }
    if !international && !national {
        return Err(phone_error(phone, owned("UK phone numbers must start with +44 or 0")));
    }
    let digit_count = digits_in(&n);
    if digit_count < 10 || digit_count > 13 {
        let mut text: Vec<char> = Vec::new();
        push_str(&mut text, "Invalid length (found ");
        push_decimal(&mut text, digit_count as u64);
        push_str(&mut text, " digits)");
        assert(text@ == "Invalid length (found "@ + decimal(count_digits(n@)) + " digits)"@);
        return Err(phone_error(phone, from_chars(&text)));
    }
    if international {
        if n.len() == 3 || n[3] == '0' {
            return Err(phone_error(phone, owned("Number after +44 should not start with 0")));
        }
    } else {
        let normalized = from_chars(&n);
        let bytes = byte_len(normalized.as_str());
        if bytes != 10 && bytes != 11 {
            return Err(
                phone_error(phone, owned("UK national format should be 10 or 11 digits")),
            );
        }
    }
    Ok(())
}

// ---------------------------------------------------------------------------
// Student identifiers, module codes, postcodes
// ---------------------------------------------------------------------------

/// Why a text is no student identifier, if it is none: trimmed and in upper
/// case, it is empty or does not match the pattern.
pub open spec fn student_id_problem(student_id: Seq<char>) -> Option<Seq<char>> {
    let id = uppercase(trim(student_id));
    if id.len() == 0 {
        Some("Student ID cannot be empty"@)
    } else if !pattern_is_match(OU_STUDENT_ID_PATTERN@, id) {
        Some(
            "Student ID must be one uppercase letter followed by 7 digits (e.g., A1234567)"@,
        )
    } else {
        None
    }
}

/// Checks an Open University student identifier.
pub fn validate_ou_student_id(student_id: &str) -> (r: Result<(), SharedError>)
    requires
        pattern_compiles(OU_STUDENT_ID_PATTERN@),
    ensures
        r is Ok <==> student_id_problem(student_id@) is None,
        r matches Err(e) ==> e matches SharedError::Validation(
            ValidationError::InvalidStudentId { value, reason },
        ) && value@ == uppercase(trim(student_id@)) && Some(reason@) == student_id_problem(
            student_id@,
        ),
{
    let id = trim_str(student_id).as_str().to_uppercase();
    if id.as_str().unicode_len() == 0 {
        return Err(
            SharedError::Validation(
                ValidationError::InvalidStudentId {
                    value: id,
                    reason: owned("Student ID cannot be empty"),
                },
            ),
        );
    }
    let re = compile(OU_STUDENT_ID_PATTERN).unwrap();
    if !is_match(&re, id.as_str()) {
        return Err(
            SharedError::Validation(
                ValidationError::InvalidStudentId {
                    value: id,
                    reason: owned(
                        "Student ID must be one uppercase letter followed by 7 digits (e.g., A1234567)",
                    ),
                },
            ),
        );
    }
    Ok(())
}

/// Checks a student identifier where the pattern for it compiles, and
/// reports that it does not where it does not.
pub fn check_ou_student_id(student_id: &str) -> (r: Option<Result<(), SharedError>>)
    ensures
        r is Some <==> pattern_compiles(OU_STUDENT_ID_PATTERN@),
        r matches Some(outcome) ==> (outcome is Ok <==> student_id_problem(student_id@) is None),
{
    if compiles(OU_STUDENT_ID_PATTERN) {
        Some(validate_ou_student_id(student_id))
    } else {
        None
    }
}

/// Why a text is no module code, if it is none: trimmed and in upper case, it
/// is empty or does not match the pattern.
pub open spec fn module_code_problem(module_code: Seq<char>) -> Option<Seq<char>> {
    let code = uppercase(trim(module_code));
    if code.len() == 0 {
        Some("Module code cannot be empty"@)
    } else if !pattern_is_match(OU_MODULE_CODE_PATTERN@, code) {
        Some(
            "Module code must be 1-3 uppercase letters followed by 3 digits (e.g., TM112, M250)"@,
        )
    } else {
        None
    }
}

/// Checks an Open University module code.
pub fn validate_ou_module_code(module_code: &str) -> (r: Result<(), SharedError>)
    requires
        pattern_compiles(OU_MODULE_CODE_PATTERN@),
    ensures
        r is Ok <==> module_code_problem(module_code@) is None,
        r matches Err(e) ==> e matches SharedError::Validation(
            ValidationError::InvalidModuleCode { value, reason },
        ) && value@ == uppercase(trim(module_code@)) && Some(reason@) == module_code_problem(
            module_code@,
        ),
{
    let code = trim_str(module_code).as_str().to_uppercase();
    if code.as_str().unicode_len() == 0 {
        return Err(
            SharedError::Validation(
                ValidationError::InvalidModuleCode {
                    value: code,
                    reason: owned("Module code cannot be empty"),
                },
            ),
        );
    }
    let re = compile(OU_MODULE_CODE_PATTERN).unwrap();
    if !is_match(&re, code.as_str()) {
        return Err(
            SharedError::Validation(
                ValidationError::InvalidModuleCode {
                    value: code,
                    reason: owned(
                        "Module code must be 1-3 uppercase letters followed by 3 digits (e.g., TM112, M250)",
                    ),
                },
            ),
        );
    }
    Ok(())
}

/// Checks a module code where the pattern for it compiles, and reports that
/// it does not where it does not.
pub fn check_ou_module_code(module_code: &str) -> (r: Option<Result<(), SharedError>>)
    ensures
        r is Some <==> pattern_compiles(OU_MODULE_CODE_PATTERN@),
        r matches Some(outcome) ==> (outcome is Ok <==> module_code_problem(module_code@) is None),
{
    if compiles(OU_MODULE_CODE_PATTERN) {
        Some(validate_ou_module_code(module_code))
    } else {
        None
    }
}

/// Why a text is no UK postcode, if it is none: trimmed and in upper case, it
/// is empty, takes fewer than 5 or more than 8 bytes without its spaces, or
/// does not match the pattern.
pub open spec fn postcode_problem(postcode: Seq<char>) -> Option<Seq<char>> {
    let code = uppercase(trim(postcode));
    let bare = replace_char(code, ' ', Seq::empty());
    if code.len() == 0 {
        Some("Postcode cannot be empty"@)
    } else if utf8_len(bare) < 5 || utf8_len(bare) > 8 {
        Some("Postcode length is invalid"@)
    } else if !pattern_is_match(UK_POSTCODE_PATTERN@, code) {
        Some("Invalid UK postcode format"@)
    } else {
        None
    }
}

fn postcode_error(value: String, reason: &str) -> (e: SharedError)
    ensures
        e matches SharedError::Validation(ValidationError::InvalidPostcode { value: v, reason: r })
            && v@ == value@ && r@ == reason@,
{
    SharedError::Validation(ValidationError::InvalidPostcode { value, reason: owned(reason) })
}

/// Checks a UK postcode.
pub fn validate_uk_postcode(postcode: &str) -> (r: Result<(), SharedError>)
    requires
        pattern_compiles(UK_POSTCODE_PATTERN@),
    ensures
        r is Ok <==> postcode_problem(postcode@) is None,
        r matches Err(e) ==> e matches SharedError::Validation(
            ValidationError::InvalidPostcode { value, reason },
        ) && value@ == uppercase(trim(postcode@)) && Some(reason@) == postcode_problem(postcode@),
{
    let code = trim_str(postcode).as_str().to_uppercase();
    if code.as_str().unicode_len() == 0 {
        return Err(postcode_error(code, "Postcode cannot be empty"));
    }
    let empty: Vec<char> = Vec::new();
    let bare = from_chars(&replace_char_in(&to_chars(code.as_str()), ' ', &empty));
    let bytes = byte_len(bare.as_str());
    if bytes < 5 || bytes > 8 {
        return Err(postcode_error(code, "Postcode length is invalid"));
    }
    let re = compile(UK_POSTCODE_PATTERN).unwrap();
    if !is_match(&re, code.as_str()) {
        return Err(postcode_error(code, "Invalid UK postcode format"));
    }
    Ok(())
}

/// Checks a postcode where the pattern for it compiles, and reports that it
/// does not where it does not.
pub fn check_uk_postcode(postcode: &str) -> (r: Option<Result<(), SharedError>>)
    ensures
        r is Some <==> pattern_compiles(UK_POSTCODE_PATTERN@),
        r matches Some(outcome) ==> (outcome is Ok <==> postcode_problem(postcode@) is None),
{
    if compiles(UK_POSTCODE_PATTERN) {
        Some(validate_uk_postcode(postcode))
    } else {
        None
    }
}

// ---------------------------------------------------------------------------
// Web addresses
// ---------------------------------------------------------------------------

/// Why a text is no acceptable web address, if it is none: it is empty once
/// trimmed, it does not parse as an absolute address, or its scheme is
/// neither `http` nor `https`.
pub open spec fn url_problem(url: Seq<char>) -> Option<Seq<char>> {
    let u = trim(url);
    if u.len() == 0 {
        Some("URL cannot be empty"@)
    } else {
        match url_parse_outcome(u) {
            Ok(scheme) => if scheme != "http"@ && scheme != "https"@ {
                Some("URL must use http or https scheme, not '"@ + scheme + "'"@)
            } else {
                None
            },
            Err(message) => Some("Invalid URL: "@ + message),
        }
    }
}

fn url_error(value: String, reason: String) -> (e: SharedError)
    ensures
        e matches SharedError::Validation(ValidationError::InvalidUrl { value: v, reason: r })
            && v@ == value@ && r@ == reason@,
{
    SharedError::Validation(ValidationError::InvalidUrl { value, reason })
}

/// Checks a web address.
pub fn validate_url(url: &str) -> (r: Result<(), SharedError>)
    ensures
        r is Ok <==> url_problem(url@) is None,
        r matches Err(e) ==> e matches SharedError::Validation(
            ValidationError::InvalidUrl { value, reason },
        ) && value@ == trim(url@) && Some(reason@) == url_problem(url@),
{
    let trimmed = trim_str(url);
    if trimmed.as_str().unicode_len() == 0 {
        return Err(url_error(trimmed, owned("URL cannot be empty")));
    }
    match parse_url_scheme(trimmed.as_str()) {
        Ok(scheme) => {
            if !str_equal(scheme.as_str(), "http") && !str_equal(scheme.as_str(), "https") {
                let mut text: Vec<char> = Vec::new();
                push_str(&mut text, "URL must use http or https scheme, not '");
                push_str(&mut text, scheme.as_str());
                push_str(&mut text, "'");
                assert(text@ == "URL must use http or https scheme, not '"@ + scheme@ + "'"@);
                return Err(url_error(trimmed, from_chars(&text)));
            }
            Ok(())
        },
        Err(message) => Err(url_error(trimmed, join_texts("Invalid URL: ", message.as_str()))),
    }
}

// ---------------------------------------------------------------------------
// Lengths and ranges
// ---------------------------------------------------------------------------

/// Checks that a text takes at least `min` and at most `max` bytes. Too short
/// is reported before too long.
pub fn validate_length(value: &str, field: &str, min: usize, max: usize) -> (r: Result<
    (),
    SharedError,
>)
    ensures
        r is Ok <==> min <= utf8_len(value@) <= max,
        utf8_len(value@) < min ==> (r matches Err(
            SharedError::Validation(ValidationError::TooShort { field: f, min_length, actual_length }),
        ) && f@ == field@ && min_length == min && actual_length == utf8_len(value@)),
        utf8_len(value@) >= min && utf8_len(value@) > max ==> (r matches Err(
            SharedError::Validation(ValidationError::TooLong { field: f, max_length, actual_length }),
        ) && f@ == field@ && max_length == max && actual_length == utf8_len(value@)),
{
    let len = byte_len(value);
    if len < min {
        return Err(
            SharedError::Validation(
                ValidationError::TooShort {
                    field: owned(field),
                    min_length: min,
                    actual_length: len,
                },
            ),
        );
    }
    if len > max {
        return Err(
            SharedError::Validation(
                ValidationError::TooLong { field: owned(field), max_length: max, actual_length: len },
            ),
        );
    }
    Ok(())
}

/// Checks that a text holds more than whitespace.
pub fn validate_not_empty(value: &str, field: &str) -> (r: Result<(), SharedError>)
    ensures
        r is Ok <==> !is_blank(value@),
        r matches Err(e) ==> e matches SharedError::Validation(ValidationError::Missing { field: f })
            && f@ == field@,
{
    if str_is_blank(value) {
        return Err(SharedError::Validation(ValidationError::Missing { field: owned(field) }));
    }
    Ok(())
}

/// Checks that a number lies between `min` and `max`, both included.
pub fn validate_range(value: i64, field: &str, min: i64, max: i64) -> (r: Result<(), SharedError>)
    ensures
        r is Ok <==> min <= value <= max,
        r matches Err(e) ==> e matches SharedError::Validation(
            ValidationError::OutOfRange { field: f, min: lo, max: hi, actual },
        ) && f@ == field@ && lo == min && hi == max && actual == value,
{
    if value < min || value > max {
        return Err(
            SharedError::Validation(
                ValidationError::OutOfRange { field: owned(field), min, max, actual: value },
            ),
        );
    }
    Ok(())
}

} // verus!
