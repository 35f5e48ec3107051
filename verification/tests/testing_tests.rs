use academic_workflow::testing::{
    assert_contains, assert_in_range, assert_not_contains, days_after, days_before,
    mock_academic_date, mock_datetime_future, mock_datetime_past, mock_email, mock_module_code,
    mock_student_id, mock_uk_phone, mock_uk_postcode, random_alphanumeric, random_int,
    random_string, student_id_from, MockModule, MockUser,
};
use academic_workflow::time::{now_utc, Timestamp, CLOCK_RANGE_SECS};

#[test]
fn test_mock_email() {
    let email = mock_email();
    assert!(email.contains("@test.example.com"));
    assert!(email.starts_with("test-"));
}

#[test]
fn test_mock_student_id() {
    let id = mock_student_id();
    assert_eq!(id.len(), 8);
    assert!(id.chars().next().unwrap().is_ascii_uppercase());
    assert!(id[1..].chars().all(|c| c.is_ascii_digit()));
}

#[test]
fn test_mock_module_code() {
    let code = mock_module_code();
    assert!(code.len() >= 4 && code.len() <= 6);

    // Should start with letters
    let first_char = code.chars().next().unwrap();
    assert!(first_char.is_ascii_uppercase());

    // Should end with digits
    let last_three: String = code.chars().rev().take(3).collect();
    assert!(last_three.chars().all(|c| c.is_ascii_digit()));
}

#[test]
fn test_mock_uk_phone() {
    let phone = mock_uk_phone();
    assert!(phone.starts_with('0'));
    // Should be 11 digits total
    assert_eq!(phone.len(), 11);
}

#[test]
fn test_mock_uk_postcode() {
    let postcode = mock_uk_postcode();
    assert!(postcode.contains(' '));
    assert!(postcode.len() >= 6 && postcode.len() <= 8);
}

#[test]
fn test_mock_user() {
    let user = MockUser::new();
    assert!(!user.id.is_empty());
    assert!(!user.student_id.is_empty());
    assert!(!user.email.is_empty());
    assert!(!user.phone.is_empty());
    assert!(!user.postcode.is_empty());
}

#[test]
fn test_mock_user_with_student_id() {
    let user = MockUser::with_student_id("A1234567");
    assert_eq!(user.student_id, "A1234567");
}

#[test]
fn test_mock_module() {
    let module = MockModule::new();
    assert!(!module.id.is_empty());
    assert!(!module.code.is_empty());
    assert!(!module.title.is_empty());
}

#[test]
fn test_mock_module_with_code() {
    let module = MockModule::with_code("TM112");
    assert_eq!(module.code, "TM112");
}

#[test]
fn test_assert_contains() {
    assert_contains("Hello, World!", "World");
    assert_contains("test string", "test");
}

#[test]
fn test_assert_not_contains() {
    assert_not_contains("Hello, World!", "Goodbye");
    assert_not_contains("test", "xyz");
}

#[test]
fn test_assert_in_range() {
    assert_in_range(5, 0, 10);
    assert_in_range(0, 0, 10);
    assert_in_range(10, 0, 10);
}

#[test]
fn test_random_string() {
    let s = random_string(10);
    assert_eq!(s.len(), 10);
    assert!(s.chars().all(|c| c.is_alphanumeric()));
}

#[test]
fn test_random_alphanumeric() {
    let s = random_alphanumeric(8);
    assert_eq!(s.len(), 8);
    assert!(s.chars().all(|c| c.is_alphanumeric()));
}

#[test]
fn test_random_int() {
    for _ in 0..100 {
        let n = random_int(1, 10);
        assert!(n >= 1 && n <= 10);
    }
}

#[test]
fn student_id_from_letter_and_number() {
    assert_eq!(student_id_from(0, 1_000_000), "A1000000");
    assert_eq!(student_id_from(25, 9_999_998), "Z9999998");
    assert_eq!(student_id_from(12, 1_234_567), "M1234567");
}

#[test]
fn mock_values_keep_their_shape() {
    for _ in 0..200 {
        let id = mock_student_id();
        assert_eq!(id.len(), 8);
        assert!(id.starts_with(|c: char| c.is_ascii_uppercase()));
        assert!(id[1..].chars().all(|c| c.is_ascii_digit()));

        let code = mock_module_code();
        let letters = code.len() - 3;
        assert!((1..=3).contains(&letters));
        assert!(code[..letters].chars().all(|c| c.is_ascii_uppercase()));
        assert!(code[letters..].chars().all(|c| c.is_ascii_digit()));

        let phone = mock_uk_phone();
        assert!(phone.starts_with("07") || phone.starts_with("02"));
        assert!(phone.chars().all(|c| c.is_ascii_digit()));

        let postcode = mock_uk_postcode();
        let (outward, inward) = postcode.split_once(' ').unwrap();
        assert!((2..=4).contains(&outward.len()));
        assert_eq!(inward.len(), 3);
        assert!(inward.starts_with(|c: char| c.is_ascii_digit()));
        assert!(inward[1..].chars().all(|c| c.is_ascii_uppercase()));

        let email = mock_email();
        assert_eq!(email.len(), 5 + 21 + 17);
    }
}

#[test]
fn mock_user_and_module_variants() {
    let user = MockUser::with_email("a@b.org");
    assert_eq!(user.email, "a@b.org");
    assert_eq!(user.id.len(), 36);
    let user = MockUser::default();
    assert_eq!(user.student_id.len(), 8);
    let module = MockModule::with_year(2030);
    assert_eq!(module.academic_year, 2030);
    assert_eq!(module.credits, 30);
    assert_eq!(module.title, "Introduction to Test Module");
    let module = MockModule::default();
    assert_eq!(module.academic_year, 2024);
}

#[test]
fn random_values_stay_in_range() {
    assert_eq!(random_int(7, 7), 7);
    assert_eq!(random_string(0), "");
    for _ in 0..100 {
        let n = random_int(-3, 3);
        assert!((-3..=3).contains(&n));
        assert!(random_string(5).chars().all(|c| c.is_ascii_alphanumeric()));
    }
}

#[test]
fn test_mock_datetime_past() {
    let dt = mock_datetime_past(30).unwrap();
    assert!(dt.not_after(&now_utc()));
    assert!(dt != now_utc());
}

#[test]
fn test_mock_datetime_future() {
    let dt = mock_datetime_future(30).unwrap();
    assert!(now_utc().not_after(&dt));
}

#[test]
fn test_mock_academic_date() {
    let date = mock_academic_date(2024);
    let year = date.year;
    assert!(year == 2024 || year == 2025);
}

#[test]
fn mock_times_lie_whole_days_away() {
    let now = Timestamp { secs: 1_700_000_000, nanos: 42 };
    assert_eq!(days_before(now, 3), Timestamp { secs: 1_700_000_000 - 259_200, nanos: 42 });
    assert_eq!(days_after(now, 1), Timestamp { secs: 1_700_086_400, nanos: 42 });
    for _ in 0..50 {
        let before = now_utc();
        let past = mock_datetime_past(1).unwrap();
        assert!(past.secs >= before.secs - 86400 && past.secs <= before.secs - 86399 + 1);
        let date = mock_academic_date(2024);
        assert!((1..=12).contains(&date.month) && (1..=31).contains(&date.day));
        assert_eq!(date.year, if date.month >= 10 { 2024 } else { 2025 });
    }
}

#[test]
fn mock_times_are_always_there() {
    let now = now_utc();
    assert!(-CLOCK_RANGE_SECS <= now.secs && now.secs <= CLOCK_RANGE_SECS);
    for max in [1u32, 30, u32::MAX] {
        let past = mock_datetime_past(max).unwrap();
        let future = mock_datetime_future(max).unwrap();
        assert!(past.secs < now.secs && now.secs < future.secs);
        assert!(past.secs >= now.secs - (max as i64) * 86400);
        assert!(future.secs <= now_utc().secs + (max as i64) * 86400);
    }
}
