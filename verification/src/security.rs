//! Privacy: one-way anonymization of student identifiers, and the
//! detection and removal of personal data in free text.
//!
//! Five categories of personal data are recognised, each by a fixed pattern.
//! What a pattern matches is the `regex` crate's to say; this module proves
//! how matches become locations, categories and verdicts.

use crate::crypto::{hex_lower, lemma_hex_injective, sha3_256_digest, sha3_256_hex};
use crate::pattern::{
    compile, compiles, find_all, is_slice, lemma_slice_is_part, match_views, pattern_compiles,
    pattern_matches, pattern_of, pattern_replace_all, replace_all, MatchView,
};
use crate::text::{
    byte_len, contains, decimal, from_chars, is_blank, lines, owned, push_decimal, push_str,
    split_lines, to_chars, trim, trim_str, utf8_len, views,
};
use crate::time::{now_utc, Timestamp};
use vstd::prelude::*;
use vstd::utf8::encode_utf8;

verus! {

/// Pattern for e-mail addresses.
pub const EMAIL_PATTERN: &'static str = r"\b[A-Za-z0-9._%+-]+@[A-Za-z0-9.-]+\.[A-Z|a-z]{2,}\b";

/// Pattern for UK telephone numbers.
pub const PHONE_PATTERN: &'static str = r"\b(?:(?:\+44\s?|0)(?:\d\s?){9,10})\b";

/// Pattern for UK postal codes.
pub const POSTCODE_PATTERN: &'static str = r"\b[A-Z]{1,2}\d{1,2}\s?\d[A-Z]{2}\b";

/// Pattern for web addresses.
pub const URL_PATTERN: &'static str = r"https?://[^\s]+";

/// Pattern for student identifiers: a capital letter and seven digits.
pub const STUDENT_ID_PATTERN: &'static str = r"\b[A-Z]\d{7}\b";

/// A category of personal data.
#[derive(Debug, Clone, Copy, PartialEq, Eq, Hash, Structural)]
pub enum PIIType {
    Email,
    PhoneNumber,
    Name,
    StudentId,
    PostalCode,
    Url,
}

/// Why the service refused.
#[derive(Debug)]
pub enum SecurityError {
    /// The student identifier holds nothing but whitespace.
    EmptyStudentId,
    /// Personal data was found: how many instances, of how many categories.
    PiiDetected { instances: usize, types: usize },
}

/// The text shown for a refusal.
pub open spec fn refusal_text(e: SecurityError) -> Seq<char> {
    match e {
        SecurityError::EmptyStudentId => "Student ID cannot be empty"@,
        SecurityError::PiiDetected { instances, types } => "PII detected in AI output: found "@
            + decimal(instances as nat) + " instances of "@ + decimal(types as nat) + " types"@,
    }
}

impl SecurityError {
    /// The text shown for this refusal.
    pub fn to_string(&self) -> (r: String)
        ensures
            r@ == refusal_text(*self),
    {
        match self {
            SecurityError::EmptyStudentId => owned("Student ID cannot be empty"),
            SecurityError::PiiDetected { instances, types } => {
                let mut out: Vec<char> = Vec::new();
                push_str(&mut out, "PII detected in AI output: found ");
                push_decimal(&mut out, *instances as u64);
                push_str(&mut out, " instances of ");
                push_decimal(&mut out, *types as u64);
                push_str(&mut out, " types");
                assert(out@ == refusal_text(*self));
                from_chars(&out)
            },
        }
    }
}

/// An anonymized identifier with what it was computed from.
#[derive(Debug, Clone)]
pub struct AnonymizationResult {
    /// The trimmed identifier. For the local audit trail only.
    pub original: String,
    /// The digest, in hexadecimal.
    pub anonymized: String,
    /// The salt, if one was used.
    pub salt: Option<String>,
}

/// Where personal data was found.
#[derive(Debug, Clone)]
pub struct PIILocation {
    pub pii_type: PIIType,
    /// Line number, from 1.
    pub line: usize,
    /// Byte offset in the line, from 0.
    pub column: usize,
    pub matched_text: String,
}

/// A location, as contracts speak of it.
pub struct LocationView {
    pub pii_type: PIIType,
    pub line: nat,
    pub column: nat,
    pub matched_text: Seq<char>,
}

impl View for PIILocation {
    type V = LocationView;

    open spec fn view(&self) -> LocationView {
        LocationView {
            pii_type: self.pii_type,
            line: self.line as nat,
            column: self.column as nat,
            matched_text: self.matched_text@,
        }
    }
}

/// What a scan found.
#[derive(Debug, Clone)]
pub struct PIIDetectionResult {
    /// Whether anything was found.
    pub found: bool,
    /// The categories found, each once, in the order of their first location.
    pub pii_types: Vec<PIIType>,
    /// Every location, line by line.
    pub locations: Vec<PIILocation>,
}

/// A summary of a scan for the audit trail.
#[derive(Debug, Clone)]
pub struct RedactionReport {
    pub original_length: usize,
    pub pii_found: bool,
    pub pii_count: usize,
    pub pii_types: Vec<PIIType>,
    pub timestamp: Timestamp,
}

/// The views of a vector of locations.
pub open spec fn location_views(v: Seq<PIILocation>) -> Seq<LocationView> {
    v.map_values(|l: PIILocation| l@)
}

/// The pattern of a category. `Name` has none, so nothing is ever found for it.
pub open spec fn category_pattern(t: PIIType) -> Seq<char> {
    match t {
        PIIType::Email => EMAIL_PATTERN@,
        PIIType::PhoneNumber => PHONE_PATTERN@,
        PIIType::PostalCode => POSTCODE_PATTERN@,
        PIIType::Url => URL_PATTERN@,
        PIIType::StudentId => STUDENT_ID_PATTERN@,
        PIIType::Name => Seq::empty(),
    }
}

/// The token that stands in for removed data of a category.
pub open spec fn placeholder(t: PIIType) -> Seq<char> {
    match t {
        PIIType::Email => "[EMAIL_REDACTED]"@,
        PIIType::PhoneNumber => "[PHONE_REDACTED]"@,
        PIIType::PostalCode => "[POSTCODE_REDACTED]"@,
        PIIType::Url => "[URL_REDACTED]"@,
        PIIType::StudentId => "[STUDENT_ID_REDACTED]"@,
        PIIType::Name => Seq::empty(),
    }
}

/// Whether all five patterns compile.
pub open spec fn patterns_compile() -> bool {
    &&& pattern_compiles(EMAIL_PATTERN@)
    &&& pattern_compiles(PHONE_PATTERN@)
    &&& pattern_compiles(POSTCODE_PATTERN@)
    &&& pattern_compiles(URL_PATTERN@)
    &&& pattern_compiles(STUDENT_ID_PATTERN@)
}

/// The location that a match of category `t` in line `line_no` becomes.
pub open spec fn location_of(t: PIIType, line_no: nat, m: MatchView) -> LocationView {
    LocationView { pii_type: t, line: line_no, column: m.start as nat, matched_text: m.text }
}

/// The locations of category `t` in one line, from left to right.
pub open spec fn category_locations(t: PIIType, line: Seq<char>, line_no: nat) -> Seq<
    LocationView,
> {
    pattern_matches(category_pattern(t), line).map_values(|m: MatchView| location_of(t, line_no, m))
}

/// The locations in one line: e-mail addresses first, then telephone numbers,
/// postal codes, web addresses and student identifiers.
pub open spec fn line_locations(line: Seq<char>, line_no: nat) -> Seq<LocationView> {
    category_locations(PIIType::Email, line, line_no) + category_locations(
        PIIType::PhoneNumber,
        line,
        line_no,
    ) + category_locations(PIIType::PostalCode, line, line_no) + category_locations(
        PIIType::Url,
        line,
        line_no,
    ) + category_locations(PIIType::StudentId, line, line_no)
}

/// The locations in the given lines, numbered from 1.
pub open spec fn text_locations(ls: Seq<Seq<char>>) -> Seq<LocationView>
    decreases ls.len(),
{
    if ls.len() == 0 {
        seq![]
    } else {
        text_locations(ls.drop_last()) + line_locations(ls.last(), ls.len())
    }
}

/// Every location of personal data in a text.
pub open spec fn detected(content: Seq<char>) -> Seq<LocationView> {
    text_locations(lines(content))
}

/// `types` followed by the categories of `locs` that are new, each once, in
/// the order in which they first occur.
pub open spec fn extend_types(types: Seq<PIIType>, locs: Seq<LocationView>) -> Seq<PIIType>
    decreases locs.len(),
{
    if locs.len() == 0 {
        types
    } else {
        let rest = extend_types(types, locs.drop_last());
        if rest.contains(locs.last().pii_type) {
            rest
        } else {
            rest.push(locs.last().pii_type)
        }
    }
}

/// The categories of a sequence of locations, each once, in the order of
/// their first occurrence.
pub open spec fn distinct_types(locs: Seq<LocationView>) -> Seq<PIIType> {
    extend_types(seq![], locs)
}

/// A text is free of personal data when no pattern matches in any line.
pub open spec fn pii_free(content: Seq<char>) -> bool {
    detected(content).len() == 0
}

/// The text with the matches of one category replaced by its placeholder.
pub open spec fn without_category(t: PIIType, content: Seq<char>) -> Seq<char> {
    pattern_replace_all(category_pattern(t), content, placeholder(t))
}

/// The sanitized text: the categories are replaced one after the other,
/// e-mail addresses first, then telephone numbers, postal codes, web
/// addresses and student identifiers.
pub open spec fn sanitized(content: Seq<char>) -> Seq<char> {
    without_category(
        PIIType::StudentId,
        without_category(
            PIIType::Url,
            without_category(
                PIIType::PostalCode,
                without_category(PIIType::PhoneNumber, without_category(PIIType::Email, content)),
            ),
        ),
    )
}

/// The anonymized form of an identifier: the SHA3-256 digest, in hexadecimal,
/// of the UTF-8 bytes of the salt followed by the trimmed identifier.
pub open spec fn anonymized(student_id: Seq<char>, salt: Seq<char>) -> Seq<char> {
    hex_lower(sha3_256_digest(encode_utf8(salt + trim(student_id))))
}

pub proof fn lemma_extend_types_concat(
    types: Seq<PIIType>,
    a: Seq<LocationView>,
    b: Seq<LocationView>,
)
    ensures
        extend_types(types, a + b) == extend_types(extend_types(types, a), b),
    decreases b.len(),
{
    if b.len() == 0 {
        assert(a + b =~= a);
    } else {
        assert((a + b).drop_last() =~= a + b.drop_last());
        assert((a + b).last() == b.last());
        lemma_extend_types_concat(types, a, b.drop_last());
    }
}

/// Nothing found means no category found.
pub proof fn lemma_no_locations_no_types(locs: Seq<LocationView>)
    ensures
        locs.len() == 0 ==> distinct_types(locs).len() == 0,
        locs.len() > 0 ==> distinct_types(locs).len() > 0,
    decreases locs.len(),
{
    if locs.len() > 0 {
        lemma_extend_types_grows(seq![], locs.drop_last());
        let rest = extend_types(seq![], locs.drop_last());
        if rest.contains(locs.last().pii_type) {
            assert(rest.len() > 0);
        }
    }
}

proof fn lemma_extend_types_grows(types: Seq<PIIType>, locs: Seq<LocationView>)
    ensures
        extend_types(types, locs).len() >= types.len(),
    decreases locs.len(),
{
    if locs.len() > 0 {
        lemma_extend_types_grows(types, locs.drop_last());
    }
}

/// The patterns that a service scans with, in the order of its scan.
pub open spec fn category_sources() -> Seq<Seq<char>> {
    seq![
        category_pattern(PIIType::Email),
        category_pattern(PIIType::PhoneNumber),
        category_pattern(PIIType::PostalCode),
        category_pattern(PIIType::Url),
        category_pattern(PIIType::StudentId),
    ]
}

fn has_type(types: &Vec<PIIType>, t: PIIType) -> (b: bool)
    ensures
        b == types@.contains(t),
{
    let mut i: usize = 0;
    while i < types.len()
        invariant
            i <= types.len(),
            forall|j: int| 0 <= j < i ==> types@[j] != t,
        decreases types.len() - i,
    {
        if types[i] == t {
            return true;
        }
        i += 1;
    }
    false
}

/// Whether a location lies in the given lines: its line is one of them, and
/// its text is the piece of that line that starts at its column.
pub open spec fn is_placed(l: LocationView, ls: Seq<Seq<char>>) -> bool {
    &&& 1 <= l.line <= ls.len()
    &&& is_slice(
        ls[l.line - 1],
        l.column as int,
        (l.column + utf8_len(l.matched_text)) as int,
        l.matched_text,
    )
}

/// Whether every location lies in the given lines.
pub open spec fn all_placed(locs: Seq<LocationView>, ls: Seq<Seq<char>>) -> bool {
    forall|j: int| 0 <= j < locs.len() ==> is_placed(#[trigger] locs[j], ls)
}

/// The text of a location that lies in the lines occurs in its line.
pub proof fn lemma_placed_text_is_in_line(l: LocationView, ls: Seq<Seq<char>>)
    requires
        is_placed(l, ls),
    ensures
        contains(ls[l.line - 1], l.matched_text),
        l.column + utf8_len(l.matched_text) <= utf8_len(ls[l.line - 1]),
{
    lemma_slice_is_part(
        ls[l.line - 1],
        l.column as int,
        (l.column + utf8_len(l.matched_text)) as int,
        l.matched_text,
    );
}

/// Appends the locations of one category in one line, and the category if it
/// is new.
fn scan_category(
    re: &regex::Regex,
    t: PIIType,
    line: &str,
    line_no: usize,
    locations: &mut Vec<PIILocation>,
    types: &mut Vec<PIIType>,
    Ghost(ls): Ghost<Seq<Seq<char>>>,
)
    requires
        pattern_of(*re) == category_pattern(t),
        1 <= line_no <= ls.len(),
        ls[line_no - 1] == line@,
        all_placed(location_views(old(locations)@), ls),
    ensures
        all_placed(location_views(final(locations)@), ls),
        location_views(final(locations)@) == location_views(old(locations)@) + category_locations(
            t,
            line@,
            line_no as nat,
        ),
        final(types)@ == extend_types(old(types)@, category_locations(t, line@, line_no as nat)),
{
    let found = find_all(re, line);
    let ghost all = category_locations(t, line@, line_no as nat);
    let mut k: usize = 0;
    proof {
        assert(all.take(0) =~= seq![]);
        assert(location_views(locations@) + all.take(0) =~= location_views(locations@));
    }
    while k < found.len()
        invariant
            k <= found.len(),
            all == category_locations(t, line@, line_no as nat),
            match_views(found@) == pattern_matches(category_pattern(t), line@),
            all.len() == found.len(),
            location_views(locations@) == location_views(old(locations)@) + all.take(k as int),
            types@ == extend_types(old(types)@, all.take(k as int)),
            1 <= line_no <= ls.len(),
            ls[line_no - 1] == line@,
            all_placed(location_views(locations@), ls),
            forall|j: int|
                0 <= j < found@.len() ==> is_slice(
                    line@,
                    (#[trigger] found@[j]).start as int,
                    found@[j].end as int,
                    found@[j].text@,
                ),
        decreases found.len() - k,
    {
        if !has_type(types, t) {
            types.push(t);
        }
        let location = PIILocation {
            pii_type: t,
            line: line_no,
            column: found[k].start,
            matched_text: found[k].text.clone(),
        };
        proof {
            assert(match_views(found@)[k as int] == found@[k as int]@);
            assert(location@ == all[k as int]);
            assert(all.take(k + 1).drop_last() =~= all.take(k as int));
            assert(all.take(k + 1).last() == all[k as int]);
            assert(location_views(locations@.push(location)) =~= location_views(locations@).push(
                location@,
            ));
            assert(location_views(old(locations)@) + all.take(k + 1) =~= (location_views(
                old(locations)@,
            ) + all.take(k as int)).push(all[k as int]));
            let m = found@[k as int];
            assert(is_slice(line@, m.start as int, m.end as int, m.text@));
            let at = choose|at: int|
                {
                    &&& 0 <= at
                    &&& at + m.text@.len() <= line@.len()
                    &&& utf8_len(#[trigger] line@.take(at)) == m.start
                    &&& line@.subrange(at, at + m.text@.len()) == m.text@
                    &&& m.end == m.start + utf8_len(m.text@)
                };
            assert(utf8_len(line@.take(at)) == m.start);
            assert(is_placed(location@, ls));
            let grown = location_views(locations@).push(location@);
            assert forall|j: int| 0 <= j < grown.len() implies is_placed(#[trigger] grown[j], ls) by {
                if j < locations@.len() {
                    assert(grown[j] == location_views(locations@)[j]);
                }
            }
        }
        locations.push(location);
        k += 1;
    }
    proof {
        assert(all.take(found.len() as int) =~= all);
    }
}

/// Anonymizes identifiers and finds, removes and refuses personal data.
pub struct SecurityService {
    email: regex::Regex,
    phone: regex::Regex,
    postcode: regex::Regex,
    url: regex::Regex,
    student_id: regex::Regex,
}

impl SecurityService {
    #[verifier::type_invariant]
    spec fn holds_the_patterns(self) -> bool {
        &&& pattern_of(self.email) == category_pattern(PIIType::Email)
        &&& pattern_of(self.phone) == category_pattern(PIIType::PhoneNumber)
        &&& pattern_of(self.postcode) == category_pattern(PIIType::PostalCode)
        &&& pattern_of(self.url) == category_pattern(PIIType::Url)
        &&& pattern_of(self.student_id) == category_pattern(PIIType::StudentId)
    }

    /// The sources of the patterns that this service holds compiled, in the
    /// order of its scan.
    pub closed spec fn pattern_sources(&self) -> Seq<Seq<char>> {
        seq![
            pattern_of(self.email),
            pattern_of(self.phone),
            pattern_of(self.postcode),
            pattern_of(self.url),
            pattern_of(self.student_id),
        ]
    }

    /// A service with the five patterns compiled.
    pub fn new() -> (s: Self)
        requires
            patterns_compile(),
        ensures
            s.pattern_sources() == category_sources(),
    {
        let email = compile(EMAIL_PATTERN);
        let phone = compile(PHONE_PATTERN);
        let postcode = compile(POSTCODE_PATTERN);
        let url = compile(URL_PATTERN);
        let student_id = compile(STUDENT_ID_PATTERN);
        SecurityService {
            email: email.unwrap(),
            phone: phone.unwrap(),
            postcode: postcode.unwrap(),
            url: url.unwrap(),
            student_id: student_id.unwrap(),
        }
    }

    /// A service, if the five patterns compile.
    pub fn try_new() -> (r: Option<Self>)
        ensures
            r is Some <==> patterns_compile(),
            r matches Some(s) ==> s.pattern_sources() == category_sources(),
    {
        if compiles(EMAIL_PATTERN) && compiles(PHONE_PATTERN) && compiles(POSTCODE_PATTERN)
            && compiles(URL_PATTERN) && compiles(STUDENT_ID_PATTERN) {
            Some(Self::new())
        } else {
            None
        }
    }

    /// Anonymizes a student identifier without a salt.
    pub fn anonymize_student_id(&self, student_id: &str) -> (r: Result<
        AnonymizationResult,
        SecurityError,
    >)
        ensures
            r is Err <==> is_blank(student_id@),
            r matches Err(e) ==> e == SecurityError::EmptyStudentId,
            r matches Ok(a) ==> {
                &&& a.original@ == trim(student_id@)
                &&& a.anonymized@ == anonymized(student_id@, Seq::empty())
                &&& a.anonymized@.len() == 64
                &&& a.salt is None
            },
    {
        let trimmed = trim_str(student_id);
        if trimmed.as_str().unicode_len() == 0 {
            return Err(SecurityError::EmptyStudentId);
        }
        assert(Seq::<char>::empty() + trim(student_id@) =~= trim(student_id@));
        let hash = sha3_256_hex(trimmed.as_str().as_bytes());
        Ok(AnonymizationResult { original: trimmed, anonymized: hash, salt: None })
    }

    /// Anonymizes a student identifier under a salt.
    pub fn anonymize_student_id_with_salt(&self, student_id: &str, salt: &str) -> (r: Result<
        AnonymizationResult,
        SecurityError,
    >)
        ensures
            r is Err <==> is_blank(student_id@),
            r matches Err(e) ==> e == SecurityError::EmptyStudentId,
            r matches Ok(a) ==> {
                &&& a.original@ == trim(student_id@)
                &&& a.anonymized@ == anonymized(student_id@, salt@)
                &&& a.anonymized@.len() == 64
                &&& a.salt matches Some(s) && s@ == salt@
            },
    {
        let trimmed = trim_str(student_id);
        if trimmed.as_str().unicode_len() == 0 {
            return Err(SecurityError::EmptyStudentId);
        }
        let mut salted_chars: Vec<char> = Vec::new();
        push_str(&mut salted_chars, salt);
        push_str(&mut salted_chars, trimmed.as_str());
        assert(salted_chars@ == salt@ + trim(student_id@));
        let salted = from_chars(&salted_chars);
        let hash = sha3_256_hex(salted.as_str().as_bytes());
        Ok(AnonymizationResult { original: trimmed, anonymized: hash, salt: Some(owned(salt)) })
    }

    /// Scans a text line by line for personal data.
    pub fn detect_pii(&self, content: &str) -> (r: PIIDetectionResult)
        ensures
            location_views(r.locations@) == detected(content@),
            r.pii_types@ == distinct_types(detected(content@)),
            r.found == !pii_free(content@),
            all_placed(location_views(r.locations@), lines(content@)),
    {
        proof {
            use_type_invariant(self);
        }
        let chars = to_chars(content);
        let ls = split_lines(&chars);
        let mut locations: Vec<PIILocation> = Vec::new();
        let mut types: Vec<PIIType> = Vec::new();
        let mut i: usize = 0;
        proof {
            assert(views(ls@).take(0) =~= seq![]);
            assert(location_views(locations@) =~= seq![]);
        }
        while i < ls.len()
            invariant
                i <= ls.len(),
                pattern_of(self.email) == category_pattern(PIIType::Email),
                pattern_of(self.phone) == category_pattern(PIIType::PhoneNumber),
                pattern_of(self.postcode) == category_pattern(PIIType::PostalCode),
                pattern_of(self.url) == category_pattern(PIIType::Url),
                pattern_of(self.student_id) == category_pattern(PIIType::StudentId),
                location_views(locations@) == text_locations(views(ls@).take(i as int)),
                types@ == distinct_types(text_locations(views(ls@).take(i as int))),
                all_placed(location_views(locations@), views(ls@)),
            decreases ls.len() - i,
        {
            let line = from_chars(&ls[i]);
            let line_no = i + 1;
            let ghost whole = views(ls@);
            assert(whole[line_no - 1] == line@);
            let ghost seen = text_locations(views(ls@).take(i as int));
            let ghost c1 = category_locations(PIIType::Email, line@, line_no as nat);
            let ghost c2 = category_locations(PIIType::PhoneNumber, line@, line_no as nat);
            let ghost c3 = category_locations(PIIType::PostalCode, line@, line_no as nat);
            let ghost c4 = category_locations(PIIType::Url, line@, line_no as nat);
            let ghost c5 = category_locations(PIIType::StudentId, line@, line_no as nat);
            scan_category(
                &self.email,
                PIIType::Email,
                line.as_str(),
                line_no,
                &mut locations,
                &mut types,
                Ghost(whole),
            );
            scan_category(
                &self.phone,
                PIIType::PhoneNumber,
                line.as_str(),
                line_no,
                &mut locations,
                &mut types,
                Ghost(whole),
            );
            scan_category(
                &self.postcode,
                PIIType::PostalCode,
                line.as_str(),
                line_no,
                &mut locations,
                &mut types,
                Ghost(whole),
            );
            scan_category(
                &self.url,
                PIIType::Url,
                line.as_str(),
                line_no,
                &mut locations,
                &mut types,
                Ghost(whole),
            );
            scan_category(
                &self.student_id,
                PIIType::StudentId,
                line.as_str(),
                line_no,
                &mut locations,
                &mut types,
                Ghost(whole),
            );
            proof {
                let prefix = views(ls@).take(i + 1);
                assert(prefix.drop_last() =~= views(ls@).take(i as int));
                assert(prefix.last() == line@);
                assert(prefix.len() == line_no);
                assert(line_locations(line@, line_no as nat) == c1 + c2 + c3 + c4 + c5);
                assert(location_views(locations@) =~= seen + (c1 + c2 + c3 + c4 + c5));
                lemma_extend_types_concat(seq![], seen, c1);
                lemma_extend_types_concat(seq![], seen + c1, c2);
                lemma_extend_types_concat(seq![], seen + c1 + c2, c3);
                lemma_extend_types_concat(seq![], seen + c1 + c2 + c3, c4);
                lemma_extend_types_concat(seq![], seen + c1 + c2 + c3 + c4, c5);
                assert(seen + c1 + c2 + c3 + c4 + c5 =~= seen + (c1 + c2 + c3 + c4 + c5));
            }
            i += 1;
        }
        proof {
            assert(views(ls@).take(ls@.len() as int) =~= views(ls@));
        }
        PIIDetectionResult { found: locations.len() > 0, pii_types: types, locations }
    }

    /// Replaces every match of each category by the category's placeholder.
    pub fn sanitize_content(&self, content: &str) -> (r: String)
        ensures
            r@ == sanitized(content@),
    {
        proof {
            use_type_invariant(self);
        }
        let s1 = replace_all(&self.email, content, "[EMAIL_REDACTED]");
        let s2 = replace_all(&self.phone, s1.as_str(), "[PHONE_REDACTED]");
        let s3 = replace_all(&self.postcode, s2.as_str(), "[POSTCODE_REDACTED]");
        let s4 = replace_all(&self.url, s3.as_str(), "[URL_REDACTED]");
        replace_all(&self.student_id, s4.as_str(), "[STUDENT_ID_REDACTED]")
    }

    /// Refuses a text that holds personal data. The same check guards what
    /// leaves for the isolated transport and what comes back from it.
    pub fn validate_output(&self, output: &str) -> (r: Result<(), SecurityError>)
        ensures
            r is Ok <==> pii_free(output@),
            r matches Err(e) ==> e matches SecurityError::PiiDetected { instances, types }
                && instances == detected(output@).len() && types == distinct_types(
                detected(output@),
            ).len(),
    {
        let detection = self.detect_pii(output);
        if detection.found {
            return Err(
                SecurityError::PiiDetected {
                    instances: detection.locations.len(),
                    types: detection.pii_types.len(),
                },
            );
        }
        Ok(())
    }

    /// Summarises a scan of `content` for the audit trail, stamped with the
    /// current time.
    pub fn create_redaction_report(&self, content: &str) -> (r: RedactionReport)
        ensures
            r.original_length == utf8_len(content@),
            r.pii_found == !pii_free(content@),
            r.pii_count == detected(content@).len(),
            r.pii_types@ == distinct_types(detected(content@)),
    {
        let detection = self.detect_pii(content);
        RedactionReport {
            original_length: byte_len(content),
            pii_found: detection.found,
            pii_count: detection.locations.len(),
            pii_types: detection.pii_types,
            timestamp: now_utc(),
        }
    }
}

/// No pattern of the five categories matches in the line.
pub open spec fn matches_nothing(line: Seq<char>) -> bool {
    &&& pattern_matches(category_pattern(PIIType::Email), line).len() == 0
    &&& pattern_matches(category_pattern(PIIType::PhoneNumber), line).len() == 0
    &&& pattern_matches(category_pattern(PIIType::PostalCode), line).len() == 0
    &&& pattern_matches(category_pattern(PIIType::Url), line).len() == 0
    &&& pattern_matches(category_pattern(PIIType::StudentId), line).len() == 0
}

/// A text is free of personal data exactly when no pattern matches in any of
/// its lines.
pub proof fn lemma_pii_free_by_lines(content: Seq<char>)
    ensures
        pii_free(content) <==> forall|k: int|
            0 <= k < lines(content).len() ==> matches_nothing(#[trigger] lines(content)[k]),
{
    lemma_clean_lines(lines(content));
}

/// What passes the filter holds no e-mail address, no telephone number and
/// nothing else that a category's pattern matches: in a text that is free of
/// personal data, no pattern of any category matches in any line. Nothing is
/// sent to the isolated process, and nothing it sent is released, but such a
/// text.
pub proof fn lemma_clean_text_has_no_match(content: Seq<char>, t: PIIType, k: int)
    requires
        pii_free(content),
        0 <= k < lines(content).len(),
        t != PIIType::Name,
    ensures
        pattern_matches(category_pattern(t), lines(content)[k]).len() == 0,
{
    lemma_pii_free_by_lines(content);
    assert(matches_nothing(lines(content)[k]));
}

/// Sanitizing and scanning agree: where no pattern matches in
/// any line of the sanitized text, a scan of it finds nothing, of no category.
/// Replacing one category can uncover a match of another, so the premise does
/// not hold of every text.
pub proof fn lemma_sanitized_then_clean(content: Seq<char>)
    requires
        forall|k: int|
            0 <= k < lines(sanitized(content)).len() ==> matches_nothing(
                #[trigger] lines(sanitized(content))[k],
            ),
    ensures
        pii_free(sanitized(content)),
        distinct_types(detected(sanitized(content))).len() == 0,
{
    lemma_clean_lines(lines(sanitized(content)));
    lemma_no_locations_no_types(detected(sanitized(content)));
}

proof fn lemma_clean_lines(ls: Seq<Seq<char>>)
    ensures
        text_locations(ls).len() == 0 <==> forall|k: int|
            0 <= k < ls.len() ==> matches_nothing(#[trigger] ls[k]),
    decreases ls.len(),
{
    if ls.len() > 0 {
        lemma_clean_lines(ls.drop_last());
        let line = ls.last();
        assert(line == ls[ls.len() - 1]);
        assert(line_locations(line, ls.len()).len() == 0 <==> matches_nothing(line));
        if text_locations(ls).len() == 0 {
            assert forall|k: int| 0 <= k < ls.len() implies matches_nothing(#[trigger] ls[k]) by {
                if k < ls.len() - 1 {
                    assert(ls[k] == ls.drop_last()[k]);
                }
            }
        }
        if forall|k: int| 0 <= k < ls.len() ==> matches_nothing(#[trigger] ls[k]) {
            assert forall|k: int| 0 <= k < ls.drop_last().len() implies matches_nothing(
                #[trigger] ls.drop_last()[k],
            ) by {
                assert(ls.drop_last()[k] == ls[k]);
            }
        }
    }
}

/// Anonymization is a function of the trimmed identifier and the salt: equal
/// inputs give equal results.
pub proof fn lemma_anonymized_deterministic(a: Seq<char>, b: Seq<char>, salt: Seq<char>)
    requires
        trim(a) == trim(b),
    ensures
        anonymized(a, salt) == anonymized(b, salt),
{
}

/// Two salts give the same anonymized identifier only where the digest takes
/// the same value on two different byte sequences.
pub proof fn lemma_salts_collide_only_in_digest(
    student_id: Seq<char>,
    salt1: Seq<char>,
    salt2: Seq<char>,
)
    requires
        salt1 != salt2,
        anonymized(student_id, salt1) == anonymized(student_id, salt2),
    ensures
        encode_utf8(salt1 + trim(student_id)) != encode_utf8(salt2 + trim(student_id)),
        sha3_256_digest(encode_utf8(salt1 + trim(student_id))) == sha3_256_digest(
            encode_utf8(salt2 + trim(student_id)),
        ),
{
    let t = trim(student_id);
    let x = salt1 + t;
    let y = salt2 + t;
    lemma_hex_injective(sha3_256_digest(encode_utf8(x)), sha3_256_digest(encode_utf8(y)));
    if encode_utf8(x) == encode_utf8(y) {
        vstd::utf8::encode_utf8_decode_utf8(x);
        vstd::utf8::encode_utf8_decode_utf8(y);
        assert(x == y);
        assert(x.len() == y.len());
        assert(salt1.len() == salt2.len());
        assert(salt1 =~= x.take(salt1.len() as int));
        assert(salt2 =~= y.take(salt2.len() as int));
        assert(false);
    }
}

} // verus!
