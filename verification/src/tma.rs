//! Tutor-marked assignments: the submission record, its validation and the
//! structure read out of its rubric.

use crate::crypto::generate_uuid;
use crate::text::{
    byte_len, char_is_ascii_alphabetic, char_is_ascii_digit, decimal, from_chars, is_ascii_alphabetic,
    is_ascii_digit, is_blank, lines, owned, push_decimal, push_str, split_lines, str_is_blank,
    to_chars, trim, trim_chars, trim_str, uppercase, utf8_len, views,
};
use vstd::prelude::*;

verus! {

/// Why a submission was rejected.
#[derive(Debug)]
pub enum ValidationError {
    EmptyStudentId,
    EmptyModuleCode,
    InvalidModuleCode(String),
    InvalidQuestionNumber,
    EmptyContent,
    ContentTooLong { max: usize, actual: usize },
    EmptyRubric,
}

/// The text shown for a rejected submission.
pub open spec fn rejection_text(e: ValidationError) -> Seq<char> {
    match e {
        ValidationError::EmptyStudentId => "Student ID cannot be empty"@,
        ValidationError::EmptyModuleCode => "Module code cannot be empty"@,
        ValidationError::InvalidModuleCode(code) => "Invalid module code format: "@ + code@,
        ValidationError::InvalidQuestionNumber => "Question number must be greater than 0"@,
        ValidationError::EmptyContent => "TMA content cannot be empty"@,
        ValidationError::ContentTooLong { max, actual } => "TMA content exceeds maximum length of "@
            + decimal(max as nat) + " characters (got "@ + decimal(actual as nat) + ")"@,
        ValidationError::EmptyRubric => "Rubric cannot be empty"@,
    }
}

impl ValidationError {
    /// The text shown for this error.
    pub fn to_string(&self) -> (r: String)
        ensures
            r@ == rejection_text(*self),
    {
        match self {
            ValidationError::EmptyStudentId => owned("Student ID cannot be empty"),
            ValidationError::EmptyModuleCode => owned("Module code cannot be empty"),
            ValidationError::InvalidModuleCode(code) => {
                let mut out: Vec<char> = Vec::new();
                push_str(&mut out, "Invalid module code format: ");
                push_str(&mut out, code.as_str());
                assert(out@ == rejection_text(*self));
                from_chars(&out)
            },
            ValidationError::InvalidQuestionNumber => owned(
                "Question number must be greater than 0",
            ),
            ValidationError::EmptyContent => owned("TMA content cannot be empty"),
            ValidationError::ContentTooLong { max, actual } => {
                let mut out: Vec<char> = Vec::new();
                push_str(&mut out, "TMA content exceeds maximum length of ");
                push_decimal(&mut out, *max as u64);
                push_str(&mut out, " characters (got ");
                push_decimal(&mut out, *actual as u64);
                push_str(&mut out, ")");
                assert(out@ == rejection_text(*self));
                from_chars(&out)
            },
            ValidationError::EmptyRubric => owned("Rubric cannot be empty"),
        }
    }
}

/// Where a submission stands in the pipeline. It starts as `Submitted` and is
/// meant to advance to `Anonymizing`, `Processing`, `FeedbackGenerated` and
/// `Graded` in this order, or to `Failed` from any state but `Graded`.
#[derive(Debug, Clone, Copy, PartialEq, Eq, Structural)]
pub enum TMAStatus {
    Submitted,
    Anonymizing,
    Processing,
    FeedbackGenerated,
    Graded,
    Failed,
}

impl TMAStatus {
    /// No transition leaves a terminal state.
    pub open spec fn is_terminal(self) -> bool {
        self == TMAStatus::Graded || self == TMAStatus::Failed
    }

    /// The transitions of the lifecycle.
    pub open spec fn may_become(self, next: TMAStatus) -> bool {
        match (self, next) {
            (TMAStatus::Submitted, TMAStatus::Anonymizing) => true,
            (TMAStatus::Anonymizing, TMAStatus::Processing) => true,
            (TMAStatus::Processing, TMAStatus::FeedbackGenerated) => true,
            (TMAStatus::FeedbackGenerated, TMAStatus::Graded) => true,
            (from, TMAStatus::Failed) => !from.is_terminal(),
            _ => false,
        }
    }

    /// Whether the lifecycle has a transition from this state to `next`.
    pub fn can_become(self, next: TMAStatus) -> (b: bool)
        ensures
            b == self.may_become(next),
    {
        match (self, next) {
            (TMAStatus::Submitted, TMAStatus::Anonymizing) => true,
            (TMAStatus::Anonymizing, TMAStatus::Processing) => true,
            (TMAStatus::Processing, TMAStatus::FeedbackGenerated) => true,
            (TMAStatus::FeedbackGenerated, TMAStatus::Graded) => true,
            (TMAStatus::Graded, TMAStatus::Failed) => false,
            (TMAStatus::Failed, TMAStatus::Failed) => false,
            (_, TMAStatus::Failed) => true,
            _ => false,
        }
    }
}

/// The shape of the lifecycle: nothing leaves `Graded` or `Failed`, every
/// other state can fail, and every state but `Failed` is reached from at most
/// one state.
pub proof fn lemma_lifecycle(from: TMAStatus, other: TMAStatus, next: TMAStatus)
    ensures
        from.is_terminal() ==> !from.may_become(next),
        !from.is_terminal() ==> from.may_become(TMAStatus::Failed),
        !from.may_become(TMAStatus::Submitted),
        from.may_become(next) && other.may_become(next) && next != TMAStatus::Failed ==> from
            == other,
{
}

/// One numbered item of a rubric. `max_marks` holds the bits of a
/// single-precision number where marks are known.
#[derive(Debug, Clone)]
pub struct RubricCriterion {
    pub number: u32,
    pub description: String,
    pub max_marks: Option<u32>,
}

/// A submission for one question.
#[derive(Debug, Clone)]
pub struct TMA {
    /// Identifier of this submission, a UUID in its hyphenated form.
    pub id: String,
    /// The student's identifier as submitted.
    pub student_id: String,
    /// Module code, such as `TM112`.
    pub module_code: String,
    /// Number of the question, from 1.
    pub question_number: u32,
    /// The student's answer.
    pub content: String,
    /// The marking criteria for the question.
    pub rubric: String,
    /// Where the submission stands.
    pub status: TMAStatus,
    /// The anonymized student identifier, once computed.
    pub anonymized_id: Option<String>,
}

/// `code` is letters up to index `k` and digits from there on.
pub open spec fn letters_then_digits(code: Seq<char>, k: int) -> bool {
    &&& forall|i: int| 0 <= i < k ==> is_ascii_alphabetic(#[trigger] code[i])
    &&& forall|i: int| k <= i < code.len() ==> is_ascii_digit(#[trigger] code[i])
}

/// Four to seven characters: one or more ASCII letters, then one or more
/// ASCII digits.
pub open spec fn module_code_shape(code: Seq<char>) -> bool {
    &&& 4 <= code.len() <= 7
    &&& exists|k: int| 0 < k < code.len() && letters_then_digits(code, k)
}

/// A module code is valid when its trimmed, upper-cased form has the shape.
pub open spec fn valid_module_code(code: Seq<char>) -> bool {
    module_code_shape(uppercase(trim(code)))
}

/// A trimmed line opens a criterion when it starts with a digit or a bullet.
pub open spec fn is_criterion_text(t: Seq<char>) -> bool {
    t.len() > 0 && (is_ascii_digit(t[0]) || t[0] == '•' || t[0] == '-' || t[0] == '*')
}

/// The trimmed lines, among `ls`, that open a criterion, in order.
pub open spec fn criterion_texts(ls: Seq<Seq<char>>) -> Seq<Seq<char>>
    decreases ls.len(),
{
    if ls.len() == 0 {
        seq![]
    } else {
        let rest = criterion_texts(ls.drop_last());
        let t = trim(ls.last());
        if is_criterion_text(t) {
            rest.push(t)
        } else {
            rest
        }
    }
}

/// `out` is the structure of `rubric`: one criterion for each line that opens
/// one, numbered from 1 in order, or the whole rubric as criterion 1 where no
/// line does. Marks are never read out of the text.
pub open spec fn is_criteria_of(out: Seq<RubricCriterion>, rubric: Seq<char>) -> bool {
    let texts = criterion_texts(lines(rubric));
    if texts.len() == 0 {
        &&& out.len() == 1
        &&& out[0].number == 1
        &&& out[0].description@ == rubric
        &&& out[0].max_marks is None
    } else {
        &&& out.len() == texts.len()
        &&& forall|i: int|
            0 <= i < out.len() ==> {
                &&& (#[trigger] out[i]).number == i + 1
                &&& out[i].description@ == texts[i]
                &&& out[i].max_marks is None
            }
    }
}

pub proof fn lemma_criterion_texts_len(ls: Seq<Seq<char>>)
    ensures
        criterion_texts(ls).len() <= ls.len(),
    decreases ls.len(),
{
    if ls.len() > 0 {
        lemma_criterion_texts_len(ls.drop_last());
    }
}

/// A text has no more lines than characters.
pub proof fn lemma_lines_len(s: Seq<char>)
    ensures
        lines(s).len() <= s.len(),
    decreases s.len(),
{
    if s.len() > 0 {
        let i = crate::text::first_newline(s);
        if 0 <= i < s.len() {
            lemma_lines_len(s.skip(i + 1));
        }
    }
}

impl TMA {
    /// Greatest length of the content, in bytes.
    pub const MAX_CONTENT_LENGTH: usize = 100 * 1024;

    /// The first rule that the submission breaks, checked in this order:
    /// student identifier, module code, question number, content, rubric.
    pub open spec fn first_violation(&self) -> Option<ValidationError> {
        if is_blank(self.student_id@) {
            Some(ValidationError::EmptyStudentId)
        } else if is_blank(self.module_code@) {
            Some(ValidationError::EmptyModuleCode)
        } else if !valid_module_code(self.module_code@) {
            Some(ValidationError::InvalidModuleCode(self.module_code))
        } else if self.question_number == 0 {
            Some(ValidationError::InvalidQuestionNumber)
        } else if is_blank(self.content@) {
            Some(ValidationError::EmptyContent)
        } else if utf8_len(self.content@) > Self::MAX_CONTENT_LENGTH {
            Some(
                ValidationError::ContentTooLong {
                    max: Self::MAX_CONTENT_LENGTH,
                    actual: utf8_len(self.content@) as usize,
                },
            )
        } else if is_blank(self.rubric@) {
            Some(ValidationError::EmptyRubric)
        } else {
            None
        }
    }

    /// Whether `found` is the first rule that the submission breaks.
    pub open spec fn is_first_violation(&self, found: ValidationError) -> bool {
        match (found, self.first_violation()) {
            (
                ValidationError::InvalidModuleCode(a),
                Some(ValidationError::InvalidModuleCode(b)),
            ) => a@ == b@,
            (found, Some(expected)) => found == expected,
            (_, None) => false,
        }
    }

    /// A submission is valid when it breaks no rule.
    pub open spec fn is_valid(&self) -> bool {
        self.first_violation() is None
    }

    /// A new submission, in state `Submitted`, under a fresh identifier.
    pub fn new(
        student_id: String,
        module_code: String,
        question_number: u32,
        content: String,
        rubric: String,
    ) -> (tma: Self)
        ensures
            tma.student_id == student_id,
            tma.module_code == module_code,
            tma.question_number == question_number,
            tma.content == content,
            tma.rubric == rubric,
            tma.status == TMAStatus::Submitted,
            tma.anonymized_id is None,
            tma.id@.len() == 36,
    {
        TMA {
            id: generate_uuid(),
            student_id,
            module_code,
            question_number,
            content,
            rubric,
            status: TMAStatus::Submitted,
            anonymized_id: None,
        }
    }

    /// Checks the submission and reports the first rule that it breaks.
    pub fn validate(&self) -> (r: Result<(), ValidationError>)
        ensures
            r is Ok <==> self.is_valid(),
            r matches Err(e) ==> self.is_first_violation(e),
    {
        if str_is_blank(self.student_id.as_str()) {
            return Err(ValidationError::EmptyStudentId);
        }
        if str_is_blank(self.module_code.as_str()) {
            return Err(ValidationError::EmptyModuleCode);
        }
        if !Self::is_valid_module_code(self.module_code.as_str()) {
            return Err(ValidationError::InvalidModuleCode(self.module_code.clone()));
        }
        if self.question_number == 0 {
            return Err(ValidationError::InvalidQuestionNumber);
        }
        if str_is_blank(self.content.as_str()) {
            return Err(ValidationError::EmptyContent);
        }
        let actual = byte_len(self.content.as_str());
        if actual > Self::MAX_CONTENT_LENGTH {
            return Err(ValidationError::ContentTooLong { max: Self::MAX_CONTENT_LENGTH, actual });
        }
        if str_is_blank(self.rubric.as_str()) {
            return Err(ValidationError::EmptyRubric);
        }
        Ok(())
    }

    /// Whether a module code has the shape of an Open University code.
    pub fn is_valid_module_code(code: &str) -> (b: bool)
        ensures
            b == valid_module_code(code@),
    {
        let trimmed = trim_str(code);
        let upper = trimmed.as_str().to_uppercase();
        Self::has_module_code_shape(upper.as_str())
    }

    /// Whether a text, taken as it is, has the shape of a module code: four
    /// to seven characters, letters first and digits after them.
    pub fn has_module_code_shape(code: &str) -> (b: bool)
        ensures
            b == module_code_shape(code@),
    {
        let v = to_chars(code);
        let n = v.len();
        if n < 4 || n > 7 {
            return false;
        }
        let mut k: usize = 0;
        while k < n && char_is_ascii_alphabetic(v[k])
            invariant
                k <= n,
                n == v.len(),
                forall|i: int| 0 <= i < k ==> is_ascii_alphabetic(#[trigger] v@[i]),
            decreases n - k,
        {
            k += 1;
        }
        let mut j: usize = k;
        while j < n && char_is_ascii_digit(v[j])
            invariant
                k <= j <= n,
                n == v.len(),
                forall|i: int| k <= i < j ==> is_ascii_digit(#[trigger] v@[i]),
            decreases n - j,
        {
            j += 1;
        }
        let ok = 0 < k && k < n && j == n;
        proof {
            if ok {
                assert(letters_then_digits(v@, k as int));
            } else {
                assert forall|w: int| 0 < w < v@.len() implies !letters_then_digits(v@, w) by {
                    if letters_then_digits(v@, w) {
                        if w > k {
                            assert(is_ascii_alphabetic(v@[k as int]));
                        }
                        if w < k {
                            assert(is_ascii_digit(v@[w]));
                            assert(is_ascii_alphabetic(v@[w]));
                        }
                        assert(w == k);
                        assert(j < n);
                        assert(is_ascii_digit(v@[j as int]));
                    }
                }
            }
        }
        ok
    }

    /// Sets where the submission stands. The lifecycle is the caller's to keep.
    pub fn set_status(&mut self, status: TMAStatus)
        ensures
            *final(self) == (TMA { status, ..*old(self) }),
    {
        self.status = status;
    }

    /// Records the anonymized student identifier.
    pub fn set_anonymized_id(&mut self, anonymized_id: String)
        ensures
            *final(self) == (TMA { anonymized_id: Some(anonymized_id), ..*old(self) }),
    {
        self.anonymized_id = Some(anonymized_id);
    }

    /// Reads the criteria out of the rubric.
    pub fn parse_rubric_criteria(&self) -> (out: Vec<RubricCriterion>)
        requires
            self.rubric@.len() < u32::MAX,
        ensures
            is_criteria_of(out@, self.rubric@),
    {
        let chars = to_chars(self.rubric.as_str());
        let ls = split_lines(&chars);
        let mut out: Vec<RubricCriterion> = Vec::new();
        let mut i: usize = 0;
        proof {
            lemma_lines_len(self.rubric@);
            assert(views(ls@).take(0) =~= seq![]);
        }
        while i < ls.len()
            invariant
                i <= ls.len(),
                ls@.len() < u32::MAX,
                out@.len() == criterion_texts(views(ls@).take(i as int)).len(),
                forall|j: int|
                    0 <= j < out@.len() ==> {
                        &&& (#[trigger] out@[j]).number == j + 1
                        &&& out@[j].description@ == criterion_texts(views(ls@).take(i as int))[j]
                        &&& out@[j].max_marks is None
                    },
            decreases ls.len() - i,
        {
            let t = trim_chars(&ls[i]);
            proof {
                let prefix = views(ls@).take(i + 1);
                assert(prefix.drop_last() =~= views(ls@).take(i as int));
                assert(prefix.last() == ls@[i as int]@);
                lemma_criterion_texts_len(views(ls@).take(i as int));
            }
            if t.len() > 0 && (char_is_ascii_digit(t[0]) || t[0] == '•' || t[0] == '-' || t[0]
                == '*') {
                let number: u32 = (out.len() + 1) as u32;
                out.push(RubricCriterion { number, description: from_chars(&t), max_marks: None });
            }
            i += 1;
        }
        proof {
            assert(views(ls@).take(ls@.len() as int) =~= views(ls@));
        }
        if out.len() == 0 {
            out.push(
                RubricCriterion { number: 1, description: self.rubric.clone(), max_marks: None },
            );
        }
        out
    }

    /// The content without leading and trailing whitespace.
    pub fn sanitized_content(&self) -> (r: String)
        ensures
            r@ == trim(self.content@),
    {
        trim_str(self.content.as_str())
    }
}

} // verus!
