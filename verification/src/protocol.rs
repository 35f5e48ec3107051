//! What the isolated inference process reports when it fails, and the prompt
//! it builds from a request.

use crate::text::{
    byte_len, chars_find, contains, decimal, from_chars, is_blank, lowercase, owned, push_decimal,
    push_str, split_words, to_chars, trim, trim_str, utf8_len, views, words,
};
use vstd::prelude::*;

verus! {

/// A failure reported by the inference process.
#[derive(Debug, Clone)]
pub struct ErrorResponse {
    /// Kind of the failure.
    pub error_type: String,
    /// Message for a reader.
    pub message: String,
    /// Further detail, if any.
    pub details: Option<String>,
}

/// What the inference process answers with. Confidence and alignment are
/// numbers from 0 to 1, held by their bits in single precision.
#[derive(Debug, Clone)]
pub struct InferenceResponse {
    pub feedback: String,
    pub confidence: u32,
    pub rubric_alignment: u32,
    pub tokens_generated: usize,
    pub inference_time_ms: u64,
}

/// An answer of the inference process: feedback or a failure.
#[derive(Debug, Clone)]
pub enum Response {
    Success(InferenceResponse),
    Error(ErrorResponse),
}

/// The bits of the temperature used where a request names none: 0.7.
pub fn default_temperature() -> (bits: u64)
    ensures
        bits == 0x3FE6_6666_6666_6666,
{
    0x3FE6_6666_6666_6666
}

/// The bits of the threshold used where a request names none: 0.9.
pub fn default_top_p() -> (bits: u64)
    ensures
        bits == 0x3FEC_CCCC_CCCC_CCCD,
{
    0x3FEC_CCCC_CCCC_CCCD
}

/// Number of tokens generated where a request names none.
pub fn default_max_tokens() -> (n: usize)
    ensures
        n == 512,
{
    512
}

/// The prompt for a question: the system's instructions, the question with
/// its context and rubric, the student's answer if there is one, and the
/// opening of the assistant's turn.
pub open spec fn prompt_text(
    question_number: u32,
    tma_content: Seq<char>,
    rubric: Seq<char>,
    student_answer: Option<Seq<char>>,
) -> Seq<char> {
    "<|im_start|>system\n"@ + "You are an expert academic grader assistant. "@
        + "Your task is to provide constructive feedback on student answers "@
        + "based on the provided rubric. Be objective, specific, and helpful.\n"@
        + "<|im_end|>\n"@ + "<|im_start|>user\n"@ + "Question "@ + decimal(question_number as nat)
        + "\n\n"@ + "TMA Context:\n"@ + tma_content + "\n\nGrading Rubric:\n"@ + rubric + (
    match student_answer {
        Some(answer) => "\n\nStudent Answer:\n"@ + answer,
        None => Seq::empty(),
    }) + "\n\nProvide detailed feedback based on the rubric:\n"@ + "<|im_end|>\n"@
        + "<|im_start|>assistant\n"@
}

/// Builds the prompt for a question.
pub fn to_prompt(
    question_number: u32,
    tma_content: &str,
    rubric: &str,
    student_answer: Option<&str>,
) -> (r: String)
    ensures
        r@ == prompt_text(
            question_number,
            tma_content@,
            rubric@,
            match student_answer {
                Some(a) => Some(a@),
                None => None,
            },
        ),
{
    let mut out: Vec<char> = Vec::new();
    push_str(&mut out, "<|im_start|>system\n");
    push_str(&mut out, "You are an expert academic grader assistant. ");
    push_str(&mut out, "Your task is to provide constructive feedback on student answers ");
    push_str(&mut out, "based on the provided rubric. Be objective, specific, and helpful.\n");
    push_str(&mut out, "<|im_end|>\n");
    push_str(&mut out, "<|im_start|>user\n");
    push_str(&mut out, "Question ");
    push_decimal(&mut out, question_number as u64);
    push_str(&mut out, "\n\n");
    push_str(&mut out, "TMA Context:\n");
    push_str(&mut out, tma_content);
    push_str(&mut out, "\n\nGrading Rubric:\n");
    push_str(&mut out, rubric);
    let ghost before = out@;
    match student_answer {
        Some(answer) => {
            push_str(&mut out, "\n\nStudent Answer:\n");
            push_str(&mut out, answer);
            assert(out@ == before + ("\n\nStudent Answer:\n"@ + answer@));
        },
        None => {
            assert(out@ == before + Seq::<char>::empty());
        },
    }
    push_str(&mut out, "\n\nProvide detailed feedback based on the rubric:\n");
    push_str(&mut out, "<|im_end|>\n");
    push_str(&mut out, "<|im_start|>assistant\n");
    from_chars(&out)
}

/// The bits of 2 in double precision.
pub const TWO: u64 = 0x4000_0000_0000_0000;

/// The bits of 1 in double precision.
pub const ONE: u64 = 0x3FF0_0000_0000_0000;

/// The bits of positive infinity in double precision.
pub const INFINITY: u64 = 0x7FF0_0000_0000_0000;

/// The bit that makes a number negative.
pub const SIGN: u64 = 0x8000_0000_0000_0000;

/// Whether the double-precision number with the given bits is below zero:
/// its sign is set, and it is neither negative zero nor a pattern that
/// stands for no number.
pub open spec fn is_below_zero(bits: u64) -> bool {
    SIGN < bits <= SIGN + INFINITY
}

/// Whether the double-precision number with the given bits is above the
/// number with the bits `limit`, which is positive: among the positive
/// numbers up to infinity the bits rise with the number.
pub open spec fn is_above(bits: u64, limit: u64) -> bool {
    limit < bits <= INFINITY
}

/// A request to the inference process. Temperature and threshold are held by
/// their bits in double precision.
#[derive(Debug, Clone)]
pub struct InferenceRequest {
    pub tma_content: String,
    pub rubric: String,
    pub question_number: u32,
    pub student_answer: Option<String>,
    pub max_tokens: usize,
    pub temperature: u64,
    pub top_p: u64,
}

impl InferenceRequest {
    /// Why the request cannot be served, if it cannot: no content, no rubric,
    /// a temperature below 0 or above 2, a threshold below 0 or above 1, or
    /// a number of tokens that is 0 or above 4096. The first in this order is
    /// reported.
    pub open spec fn problem(&self) -> Option<Seq<char>> {
        if self.tma_content@.len() == 0 {
            Some("TMA content cannot be empty"@)
        } else if self.rubric@.len() == 0 {
            Some("Rubric cannot be empty"@)
        } else if is_below_zero(self.temperature) || is_above(self.temperature, TWO) {
            Some("Temperature must be between 0.0 and 2.0"@)
        } else if is_below_zero(self.top_p) || is_above(self.top_p, ONE) {
            Some("Top-p must be between 0.0 and 1.0"@)
        } else if self.max_tokens == 0 || self.max_tokens > 4096 {
            Some("Max tokens must be between 1 and 4096"@)
        } else {
            None
        }
    }

    /// Checks the request and reports the first reason against it.
    pub fn validate(&self) -> (r: Result<(), String>)
        ensures
            r is Ok <==> self.problem() is None,
            r matches Err(reason) ==> Some(reason@) == self.problem(),
    {
        if self.tma_content.as_str().unicode_len() == 0 {
            return Err(owned("TMA content cannot be empty"));
        }
        if self.rubric.as_str().unicode_len() == 0 {
            return Err(owned("Rubric cannot be empty"));
        }
        if below_zero(self.temperature) || above(self.temperature, TWO) {
            return Err(owned("Temperature must be between 0.0 and 2.0"));
        }
        if below_zero(self.top_p) || above(self.top_p, ONE) {
            return Err(owned("Top-p must be between 0.0 and 1.0"));
        }
        if self.max_tokens == 0 || self.max_tokens > 4096 {
            return Err(owned("Max tokens must be between 1 and 4096"));
        }
        Ok(())
    }

    /// The prompt for this request.
    pub fn to_prompt(&self) -> (r: String)
        ensures
            r@ == prompt_text(
                self.question_number,
                self.tma_content@,
                self.rubric@,
                match self.student_answer {
                    Some(a) => Some(a@),
                    None => None,
                },
            ),
    {
        let answer = match &self.student_answer {
            Some(a) => Some(a.as_str()),
            None => None,
        };
        to_prompt(self.question_number, self.tma_content.as_str(), self.rubric.as_str(), answer)
    }
}

fn below_zero(bits: u64) -> (r: bool)
    ensures
        r == is_below_zero(bits),
{
    SIGN < bits && bits - SIGN <= INFINITY
}

fn above(bits: u64, limit: u64) -> (r: bool)
    ensures
        r == is_above(bits, limit),
{
    limit < bits && bits <= INFINITY
}

// ---------------------------------------------------------------------------
// The loop of the inference process
// ---------------------------------------------------------------------------

/// What a line read from the orchestrator holds: nothing, where it is blank,
/// or else a request, which is the line without the whitespace around it.
pub fn request_line(line: &str) -> (r: Option<String>)
    ensures
        r is None <==> is_blank(line@),
        r matches Some(request) ==> request@ == trim(line@),
{
    let trimmed = trim_str(line);
    if trimmed.as_str().unicode_len() == 0 {
        None
    } else {
        Some(trimmed)
    }
}

/// The failure reported when the process could not start.
pub fn initialization_error(message: String, details: String) -> (e: ErrorResponse)
    ensures
        e.error_type@ == "initialization_error"@,
        e.message == message,
        e.details == Some(details),
{
    ErrorResponse { error_type: owned("initialization_error"), message, details: Some(details) }
}

/// The failure reported when a request could not be served.
pub fn processing_error(message: String, details: String) -> (e: ErrorResponse)
    ensures
        e.error_type@ == "processing_error"@,
        e.message == message,
        e.details == Some(details),
{
    ErrorResponse { error_type: owned("processing_error"), message, details: Some(details) }
}

// ---------------------------------------------------------------------------
// Alignment of feedback with a rubric
// ---------------------------------------------------------------------------

/// The words of at least five bytes among `ws`, in order.
pub open spec fn key_terms_among(ws: Seq<Seq<char>>) -> Seq<Seq<char>>
    decreases ws.len(),
{
    if ws.len() == 0 {
        seq![]
    } else if utf8_len(ws.last()) > 4 {
        key_terms_among(ws.drop_last()).push(ws.last())
    } else {
        key_terms_among(ws.drop_last())
    }
}

/// The key terms of a rubric: its words of at least five bytes, in lower
/// case.
pub open spec fn key_terms(rubric: Seq<char>) -> Seq<Seq<char>> {
    key_terms_among(words(lowercase(rubric)))
}

/// How many of `terms` occur in `text`.
pub open spec fn terms_found(terms: Seq<Seq<char>>, text: Seq<char>) -> nat
    decreases terms.len(),
{
    if terms.len() == 0 {
        0
    } else {
        terms_found(terms.drop_last(), text) + if contains(text, terms.last()) {
            1nat
        } else {
            0nat
        }
    }
}

/// How well feedback follows a rubric, in two counts: how many key terms of
/// the rubric occur in the feedback, whatever the case, and how many key
/// terms there are. The alignment is the quotient of the two, or a half where
/// the rubric has no key term.
pub fn alignment_counts(feedback: &str, rubric: &str) -> (r: (usize, usize))
    ensures
        r.0 == terms_found(key_terms(rubric@), lowercase(feedback@)),
        r.1 == key_terms(rubric@).len(),
        r.0 <= r.1,
{
    let rubric_lower = rubric.to_lowercase();
    let feedback_lower = to_chars(feedback.to_lowercase().as_str());
    let ws = split_words(&to_chars(rubric_lower.as_str()));
    let mut found: usize = 0;
    let mut total: usize = 0;
    let mut i: usize = 0;
    proof {
        assert(views(ws@).take(0) =~= Seq::<Seq<char>>::empty());
    }
    while i < ws.len()
        invariant
            i <= ws.len(),
            found <= total <= i,
            total == key_terms_among(views(ws@).take(i as int)).len(),
            found == terms_found(key_terms_among(views(ws@).take(i as int)), feedback_lower@),
        decreases ws.len() - i,
    {
        proof {
            let prefix = views(ws@).take(i + 1);
            assert(prefix.drop_last() =~= views(ws@).take(i as int));
            assert(prefix.last() == ws@[i as int]@);
        }
        let word = from_chars(&ws[i]);
        if byte_len(word.as_str()) > 4 {
            proof {
                let before = key_terms_among(views(ws@).take(i as int));
                assert(before.push(word@).drop_last() =~= before);
            }
            total += 1;
            if chars_find(&feedback_lower, &ws[i]).is_some() {
                found += 1;
            }
        }
        i += 1;
    }
    proof {
        assert(views(ws@).take(ws@.len() as int) =~= views(ws@));
    }
    (found, total)
}

} // verus!
