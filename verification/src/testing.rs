//! Helpers for tests: made-up users, modules and identifiers, and checks that
//! stop a test.
//!
//! The random numbers come from the `rand` crate. Of a made-up value only its
//! shape is promised, and the shape is proved for every number drawn.

use crate::crypto::{
    drawn_from, generate_nanoid, generate_uuid, is_nanoid_default_char, url_safe_alphabet,
};
use crate::text::{
    contains, decimal, digit_of, from_chars, is_ascii_digit, is_ascii_uppercase, owned,
    push_decimal, push_str, str_contains, to_chars,
};
use crate::time::{days_in_month, now_utc, Date, Timestamp, CLOCK_RANGE_SECS};
use vstd::pervasive::runtime_assert;
use vstd::prelude::*;

verus! {

/// A number drawn with `rand::Rng::gen_range` from the thread's generator:
/// any number from `low` to `high`, both included.
#[verifier::external_body]
fn draw(low: i64, high: i64) -> (r: i64)
    requires
        low <= high,
    ensures
        low <= r <= high,
{
    rand::Rng::gen_range(&mut rand::thread_rng(), low..=high)
}

/// A random number from `min` to `max`, both included.
pub fn random_int(min: i64, max: i64) -> (r: i64)
    requires
        min <= max,
    ensures
        min <= r <= max,
{
    draw(min, max)
}

/// The capital letter at position `i` of the alphabet, from 0.
pub open spec fn capital(i: int) -> char {
    ((65 + i) as u8) as char
}

fn capital_at(i: u8) -> (c: char)
    requires
        i < 26,
    ensures
        c == capital(i as int),
        is_ascii_uppercase(c),
{
    (65u8 + i) as char
}

fn random_capital() -> (c: char)
    ensures
        is_ascii_uppercase(c),
{
    capital_at(draw(0, 25) as u8)
}

fn random_digit() -> (c: char)
    ensures
        is_ascii_digit(c),
{
    digit_of(draw(0, 9) as u8)
}

/// Ten to the power of `k`.
pub open spec fn pow10(k: nat) -> nat
    decreases k,
{
    if k == 0 {
        1
    } else {
        10 * pow10((k - 1) as nat)
    }
}

/// A numeral holds digits only, and a number of `k` digits has a numeral of
/// `k` characters.
pub proof fn lemma_decimal_shape(n: nat, k: nat)
    requires
        k >= 1,
        n < pow10(k),
        k > 1 ==> pow10((k - 1) as nat) <= n,
    ensures
        decimal(n).len() == k,
        forall|i: int| 0 <= i < k ==> is_ascii_digit(#[trigger] decimal(n)[i]),
    decreases k,
{
    if k == 1 {
        assert(pow10(1) == 10 * pow10(0));
    } else {
        assert(pow10(k) == 10 * pow10((k - 1) as nat));
        assert(pow10((k - 1) as nat) >= 10) by {
            if k - 1 == 1 {
                assert(pow10(1) == 10 * pow10(0));
            } else {
                assert(pow10((k - 1) as nat) == 10 * pow10((k - 2) as nat));
                lemma_pow10_positive((k - 2) as nat);
            }
        }
        if k > 2 {
            assert(pow10((k - 1) as nat) == 10 * pow10((k - 2) as nat));
        }
        lemma_decimal_shape(n / 10, (k - 1) as nat);
    }
}

proof fn lemma_pow10_positive(k: nat)
    ensures
        pow10(k) >= 1,
    decreases k,
{
    if k > 0 {
        lemma_pow10_positive((k - 1) as nat);
    }
}

// ---------------------------------------------------------------------------
// Made-up values
// ---------------------------------------------------------------------------

/// A capital letter and seven digits.
pub open spec fn is_student_id_shaped(s: Seq<char>) -> bool {
    &&& s.len() == 8
    &&& is_ascii_uppercase(s[0])
    &&& forall|i: int| 1 <= i < 8 ==> is_ascii_digit(#[trigger] s[i])
}

/// The student identifier with the given letter and number.
pub fn student_id_from(letter: u8, number: u32) -> (r: String)
    requires
        letter < 26,
        1_000_000 <= number < 10_000_000,
    ensures
        r@ == seq![capital(letter as int)] + decimal(number as nat),
        is_student_id_shaped(r@),
{
    let mut out: Vec<char> = Vec::new();
    out.push(capital_at(letter));
    push_decimal(&mut out, number as u64);
    proof {
        assert(pow10(7) == 10_000_000 && pow10(6) == 1_000_000) by {
            reveal_with_fuel(pow10, 8);
        }
        lemma_decimal_shape(number as nat, 7);
        assert forall|i: int| 1 <= i < 8 implies is_ascii_digit(#[trigger] out@[i]) by {
            assert(out@[i] == decimal(number as nat)[i - 1]);
        }
    }
    from_chars(&out)
}

/// A random student identifier.
pub fn mock_student_id() -> (r: String)
    ensures
        is_student_id_shaped(r@),
{
    let letter = draw(0, 25) as u8;
    let number = draw(1_000_000, 9_999_998) as u32;
    student_id_from(letter, number)
}

/// One to three capital letters and three digits.
pub open spec fn is_module_code_shaped(s: Seq<char>) -> bool {
    &&& 4 <= s.len() <= 6
    &&& forall|i: int| 0 <= i < s.len() - 3 ==> is_ascii_uppercase(#[trigger] s[i])
    &&& forall|i: int| s.len() - 3 <= i < s.len() ==> is_ascii_digit(#[trigger] s[i])
}

/// A random module code.
pub fn mock_module_code() -> (r: String)
    ensures
        is_module_code_shaped(r@),
{
    let letter_count = draw(1, 3) as usize;
    let mut out: Vec<char> = Vec::new();
    let mut i: usize = 0;
    while i < letter_count
        invariant
            i <= letter_count,
            out@.len() == i,
            forall|j: int| 0 <= j < i ==> is_ascii_uppercase(#[trigger] out@[j]),
        decreases letter_count - i,
    {
        out.push(random_capital());
        i += 1;
    }
    let number = draw(100, 998) as u64;
    let ghost letters = out@;
    push_decimal(&mut out, number);
    proof {
        assert(pow10(3) == 1000 && pow10(2) == 100) by {
            reveal_with_fuel(pow10, 4);
        }
        lemma_decimal_shape(number as nat, 3);
        assert forall|j: int| out@.len() - 3 <= j < out@.len() implies is_ascii_digit(
            #[trigger] out@[j],
        ) by {
            assert(out@[j] == decimal(number as nat)[j - letters.len()]);
        }
        assert forall|j: int| 0 <= j < out@.len() - 3 implies is_ascii_uppercase(
            #[trigger] out@[j],
        ) by {
            assert(out@[j] == letters[j]);
        }
    }
    from_chars(&out)
}

/// Eleven digits that start with `07` or `02`.
pub open spec fn is_uk_phone_shaped(s: Seq<char>) -> bool {
    &&& s.len() == 11
    &&& s[0] == '0'
    &&& (s[1] == '7' || s[1] == '2')
    &&& forall|i: int| 0 <= i < 11 ==> is_ascii_digit(#[trigger] s[i])
}

/// A random UK telephone number, mobile or landline.
pub fn mock_uk_phone() -> (r: String)
    ensures
        is_uk_phone_shaped(r@),
{
    let mobile = draw(0, 1) == 0;
    let mut out: Vec<char> = Vec::new();
    out.push('0');
    if mobile {
        out.push('7');
    } else {
        out.push('2');
    }
    let mut i: usize = 0;
    while i < 9
        invariant
            i <= 9,
            out@.len() == 2 + i,
            out@[0] == '0',
            out@[1] == '7' || out@[1] == '2',
            forall|j: int| 0 <= j < out@.len() ==> is_ascii_digit(#[trigger] out@[j]),
        decreases 9 - i,
    {
        out.push(random_digit());
        i += 1;
    }
    from_chars(&out)
}

/// First `letters` capital letters, then `digits` digits, a space, a digit
/// and two capital letters.
pub open spec fn has_postcode_parts(s: Seq<char>, letters: int, digits: int) -> bool {
    &&& s.len() == letters + digits + 4
    &&& forall|i: int| 0 <= i < letters ==> is_ascii_uppercase(#[trigger] s[i])
    &&& forall|i: int| letters <= i < letters + digits ==> is_ascii_digit(#[trigger] s[i])
    &&& s[letters + digits] == ' '
    &&& is_ascii_digit(s[letters + digits + 1])
    &&& is_ascii_uppercase(s[letters + digits + 2])
    &&& is_ascii_uppercase(s[letters + digits + 3])
}

/// One or two capital letters, one or two digits, a space, a digit and two
/// capital letters.
pub open spec fn is_postcode_shaped(s: Seq<char>) -> bool {
    has_postcode_parts(s, 1, 1) || has_postcode_parts(s, 1, 2) || has_postcode_parts(s, 2, 1)
        || has_postcode_parts(s, 2, 2)
}

/// A random UK postcode.
pub fn mock_uk_postcode() -> (r: String)
    ensures
        is_postcode_shaped(r@),
{
    let letters = draw(1, 2) as usize;
    let mut out: Vec<char> = Vec::new();
    let mut i: usize = 0;
    while i < letters
        invariant
            i <= letters,
            out@.len() == i,
            forall|j: int| 0 <= j < i ==> is_ascii_uppercase(#[trigger] out@[j]),
        decreases letters - i,
    {
        out.push(random_capital());
        i += 1;
    }
    let digits = draw(1, 2) as usize;
    let mut k: usize = 0;
    while k < digits
        invariant
            k <= digits,
            out@.len() == letters + k,
            forall|j: int| 0 <= j < letters ==> is_ascii_uppercase(#[trigger] out@[j]),
            forall|j: int| letters <= j < letters + k ==> is_ascii_digit(#[trigger] out@[j]),
        decreases digits - k,
    {
        out.push(random_digit());
        k += 1;
    }
    out.push(' ');
    out.push(random_digit());
    out.push(random_capital());
    out.push(random_capital());
    proof {
        let s = out@;
        let l = letters as int;
        let d = digits as int;
        assert(s.len() == l + d + 4);
        assert(s[l + d] == ' ');
        assert(has_postcode_parts(s, l, d));
    }
    from_chars(&out)
}

/// `test-`, a random identifier of 21 characters, and `@test.example.com`.
pub open spec fn is_mock_email(s: Seq<char>) -> bool {
    exists|id: Seq<char>|
        {
            &&& id.len() == 21
            &&& forall|i: int| 0 <= i < 21 ==> is_nanoid_default_char(#[trigger] id[i])
            &&& s == "test-"@ + id + "@test.example.com"@
        }
}

/// A random e-mail address in a test domain.
pub fn mock_email() -> (r: String)
    ensures
        is_mock_email(r@),
{
    let id = generate_nanoid();
    let mut out: Vec<char> = Vec::new();
    push_str(&mut out, "test-");
    push_str(&mut out, id.as_str());
    push_str(&mut out, "@test.example.com");
    assert(out@ == "test-"@ + id@ + "@test.example.com"@);
    from_chars(&out)
}

/// The point in time `days` whole days before or after `now`.
pub open spec fn shifted_by_days(now: Timestamp, days: int) -> Timestamp {
    Timestamp { secs: (now.secs + days * 86400) as i64, nanos: now.nanos }
}

/// The point in time a number of days before `now`.
pub fn days_before(now: Timestamp, days: u32) -> (t: Timestamp)
    requires
        now.secs - days * 86400 >= i64::MIN,
    ensures
        t == shifted_by_days(now, -(days as int)),
{
    Timestamp { secs: now.secs - (days as i64) * 86400, nanos: now.nanos }
}

/// The point in time a number of days after `now`.
pub fn days_after(now: Timestamp, days: u32) -> (t: Timestamp)
    requires
        now.secs + days * 86400 <= i64::MAX,
    ensures
        t == shifted_by_days(now, days as int),
{
    Timestamp { secs: now.secs + (days as i64) * 86400, nanos: now.nanos }
}

/// A point in time from one to `max_days_ago` whole days before now. There
/// always is one: no time that the clock can show lies so near the limits of
/// the count of seconds that going back would pass them.
pub fn mock_datetime_past(max_days_ago: u32) -> (r: Option<Timestamp>)
    requires
        max_days_ago >= 1,
    ensures
        r is Some,
        exists|now: Timestamp, days: int|
            {
                &&& 1 <= days <= max_days_ago
                &&& -CLOCK_RANGE_SECS <= now.secs <= CLOCK_RANGE_SECS
                &&& r == Some(#[trigger] shifted_by_days(now, -days))
            },
{
    let now = now_utc();
    let days = draw(1, max_days_ago as i64) as u32;
    let t = days_before(now, days);
    assert(t == shifted_by_days(now, -(days as int)));
    Some(t)
}

/// A point in time from one to `max_days_ahead` whole days after now. There
/// always is one: no time that the clock can show lies so near the limits of
/// the count of seconds that going on would pass them.
pub fn mock_datetime_future(max_days_ahead: u32) -> (r: Option<Timestamp>)
    requires
        max_days_ahead >= 1,
    ensures
        r is Some,
        exists|now: Timestamp, days: int|
            {
                &&& 1 <= days <= max_days_ahead
                &&& -CLOCK_RANGE_SECS <= now.secs <= CLOCK_RANGE_SECS
                &&& r == Some(#[trigger] shifted_by_days(now, days))
            },
{
    let now = now_utc();
    let days = draw(1, max_days_ahead as i64) as u32;
    let t = days_after(now, days);
    assert(t == shifted_by_days(now, days as int));
    Some(t)
}

/// A random date of an academic year: from October of the year to September
/// of the next. February has 28 days here.
pub fn mock_academic_date(academic_year: i32) -> (d: Date)
    requires
        academic_year < i32::MAX,
    ensures
        1 <= d.month <= 12,
        d.month >= 10 ==> d.year == academic_year,
        d.month < 10 ==> d.year == academic_year + 1,
        1 <= d.day <= days_in_month(d.year as int, d.month as int),
{
    let month = draw(1, 12) as u32;
    let year = if month >= 10 {
        academic_year
    } else {
        academic_year + 1
    };
    let last: i64 = if month == 2 {
        28
    } else if month == 4 || month == 6 || month == 9 || month == 11 {
        30
    } else {
        31
    };
    let day = draw(1, last) as u32;
    Date { year, month, day }
}

/// A made-up user.
#[derive(Debug, Clone)]
pub struct MockUser {
    /// A UUID.
    pub id: String,
    pub student_id: String,
    pub email: String,
    pub phone: String,
    pub postcode: String,
}

impl MockUser {
    /// A user with random data.
    pub fn new() -> (u: Self)
        ensures
            u.id@.len() == 36,
            is_student_id_shaped(u.student_id@),
            is_mock_email(u.email@),
            is_uk_phone_shaped(u.phone@),
            is_postcode_shaped(u.postcode@),
    {
        MockUser {
            id: generate_uuid(),
            student_id: mock_student_id(),
            email: mock_email(),
            phone: mock_uk_phone(),
            postcode: mock_uk_postcode(),
        }
    }

    /// A user with the given student identifier and otherwise random data.
    pub fn with_student_id(student_id: &str) -> (u: Self)
        ensures
            u.student_id@ == student_id@,
            u.id@.len() == 36,
            is_mock_email(u.email@),
            is_uk_phone_shaped(u.phone@),
            is_postcode_shaped(u.postcode@),
    {
        let base = Self::new();
        MockUser {
            id: base.id,
            student_id: owned(student_id),
            email: base.email,
            phone: base.phone,
            postcode: base.postcode,
        }
    }

    /// A user with the given e-mail address and otherwise random data.
    pub fn with_email(email: &str) -> (u: Self)
        ensures
            u.email@ == email@,
            u.id@.len() == 36,
            is_student_id_shaped(u.student_id@),
            is_uk_phone_shaped(u.phone@),
            is_postcode_shaped(u.postcode@),
    {
        let base = Self::new();
        MockUser {
            id: base.id,
            student_id: base.student_id,
            email: owned(email),
            phone: base.phone,
            postcode: base.postcode,
        }
    }
}

impl Default for MockUser {
    fn default() -> (u: Self)
        ensures
            u.id@.len() == 36,
            is_student_id_shaped(u.student_id@),
    {
        Self::new()
    }
}

/// A made-up module.
#[derive(Debug, Clone)]
pub struct MockModule {
    /// A UUID.
    pub id: String,
    pub code: String,
    pub title: String,
    pub academic_year: i32,
    pub credits: u32,
}

impl MockModule {
    /// A module with a random code, in the year 2024, worth 30 credits.
    pub fn new() -> (m: Self)
        ensures
            m.id@.len() == 36,
            is_module_code_shaped(m.code@),
            m.title@ == "Introduction to Test Module"@,
            m.academic_year == 2024,
            m.credits == 30,
    {
        MockModule {
            id: generate_uuid(),
            code: mock_module_code(),
            title: owned("Introduction to Test Module"),
            academic_year: 2024,
            credits: 30,
        }
    }

    /// A module with the given code.
    pub fn with_code(code: &str) -> (m: Self)
        ensures
            m.code@ == code@,
            m.id@.len() == 36,
            m.title@ == "Introduction to Test Module"@,
            m.academic_year == 2024,
            m.credits == 30,
    {
        let base = Self::new();
        MockModule {
            id: base.id,
            code: owned(code),
            title: base.title,
            academic_year: base.academic_year,
            credits: base.credits,
        }
    }

    /// A module in the given year.
    pub fn with_year(year: i32) -> (m: Self)
        ensures
            m.academic_year == year,
            m.id@.len() == 36,
            is_module_code_shaped(m.code@),
            m.title@ == "Introduction to Test Module"@,
            m.credits == 30,
    {
        let base = Self::new();
        MockModule {
            id: base.id,
            code: base.code,
            title: base.title,
            academic_year: year,
            credits: base.credits,
        }
    }
}

impl Default for MockModule {
    fn default() -> (m: Self)
        ensures
            m.id@.len() == 36,
            is_module_code_shaped(m.code@),
    {
        Self::new()
    }
}

// ---------------------------------------------------------------------------
// Random texts
// ---------------------------------------------------------------------------

/// A random text of `length` characters, each an ASCII letter or digit.
pub fn random_string(length: usize) -> (r: String)
    ensures
        r@.len() == length,
        drawn_from(r@, url_safe_alphabet()),
{
    let charset = to_chars("0123456789ABCDEFGHIJKLMNOPQRSTUVWXYZabcdefghijklmnopqrstuvwxyz");
    proof {
        reveal_strlit("0123456789ABCDEFGHIJKLMNOPQRSTUVWXYZabcdefghijklmnopqrstuvwxyz");
    }
    assert(charset@.len() == 62);
    let mut out: Vec<char> = Vec::new();
    let mut i: usize = 0;
    while i < length
        invariant
            i <= length,
            out@.len() == i,
            charset@ == url_safe_alphabet(),
            charset@.len() == 62,
            drawn_from(out@, url_safe_alphabet()),
        decreases length - i,
    {
        let index = draw(0, 61) as usize;
        let c = charset[index];
        assert(charset@.contains(c));
        out.push(c);
        i += 1;
    }
    from_chars(&out)
}

/// A random text of `length` characters, each an ASCII letter or digit.
pub fn random_alphanumeric(length: usize) -> (r: String)
    ensures
        r@.len() == length,
        drawn_from(r@, url_safe_alphabet()),
{
    random_string(length)
}

// ---------------------------------------------------------------------------
// Checks that stop a test
// ---------------------------------------------------------------------------

/// Stops unless `needle` occurs in `haystack`.
pub fn assert_contains(haystack: &str, needle: &str)
    requires
        contains(haystack@, needle@),
{
    runtime_assert(str_contains(haystack, needle));
}

/// Stops if `needle` occurs in `haystack`.
pub fn assert_not_contains(haystack: &str, needle: &str)
    requires
        !contains(haystack@, needle@),
{
    runtime_assert(!str_contains(haystack, needle));
}

/// Stops unless `value` lies between `min` and `max`, both included.
pub fn assert_in_range(value: i64, min: i64, max: i64)
    requires
        min <= value <= max,
{
    runtime_assert(value >= min && value <= max);
}

} // verus!
