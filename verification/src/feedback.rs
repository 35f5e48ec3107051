//! The steps around one request for feedback: what is sent to the isolated
//! process, what its answer means, and what counts as usable feedback.
//!
//! Numbers with a fraction are held by their bits in single precision.

use crate::ipc::{IPCError, IPCMessage};
use crate::security::{
    detected, distinct_types, pii_free, refusal_text, sanitized, SecurityError, SecurityService,
};
use crate::text::{
    chars_occur_at, join_texts, decimal, from_chars, is_blank, lines, owned, push_decimal,
    push_str, split_lines, starts_with, str_is_blank, to_chars, trim, trim_chars, views,
};
use crate::tma::{is_criteria_of, rejection_text, RubricCriterion, ValidationError, TMA};
use vstd::prelude::*;

verus! {

/// The bits of 70.
pub const SEVENTY: u32 = 0x428C_0000;

/// The bits of 100.
pub const HUNDRED: u32 = 0x42C8_0000;

/// The bits of negative zero.
pub const NEGATIVE_ZERO: u32 = 0x8000_0000;

/// Seconds to wait for an answer where the caller names none.
pub const DEFAULT_TIMEOUT_SECS: u64 = 120;

/// Least number of characters that usable feedback has.
pub const MIN_FEEDBACK_LENGTH: usize = 50;

/// Whether the number with the given bits lies between 0 and 100, both
/// included. From positive zero up to 100 the bits rise with the number.
/// Negative zero is zero. Every other pattern is a negative number, a number
/// above 100, an infinity or no number at all.
pub open spec fn is_percentage(bits: u32) -> bool {
    bits <= HUNDRED || bits == NEGATIVE_ZERO
}

/// The score given for one criterion.
#[derive(Debug, Clone)]
pub struct CriterionScore {
    pub criterion_number: u32,
    pub criterion_text: String,
    pub score: u32,
    pub max_score: u32,
    pub feedback: String,
}

/// What is sent for one submission.
#[derive(Debug, Clone)]
pub struct FeedbackRequest {
    /// Identifier of the submission.
    pub tma_id: String,
    /// The sanitized answer.
    pub content: String,
    /// The rubric as text.
    pub rubric: String,
    /// The rubric as criteria.
    pub criteria: Vec<RubricCriterion>,
    /// Seconds to wait for the answer.
    pub timeout_secs: u64,
}

/// The feedback for one submission.
#[derive(Debug, Clone)]
pub struct FeedbackResponse {
    pub tma_id: String,
    pub feedback: String,
    pub criterion_scores: Vec<CriterionScore>,
    pub overall_grade: u32,
    pub suggestions: Vec<String>,
    pub strengths: Vec<String>,
}

/// Why no feedback was produced.
#[derive(Debug)]
pub enum FeedbackError {
    /// The submission breaks a rule. Nothing was sent.
    Validation(ValidationError),
    /// The answer still holds personal data after sanitizing. Nothing was sent.
    ContentNotClean(SecurityError),
    /// The transport failed.
    Transport(IPCError),
    /// No answer came in time. The request may or may not have been served.
    Timeout,
    /// The isolated process reported an error.
    Processing(String),
    /// The isolated process answered with something that is no feedback.
    UnexpectedReply,
    /// The feedback holds personal data. It is withheld.
    ResponseNotClean(SecurityError),
}

/// The kinds of failure that a caller tells apart.
#[derive(Debug, Clone, Copy, PartialEq, Eq, Structural)]
pub enum FailureKind {
    /// The submission was refused before anything else happened.
    ValidationFailure,
    /// Personal data was found before sending or after receiving.
    SecurityRejection,
    /// The exchange with the isolated process did not give feedback.
    TransportFailure,
}

impl FeedbackError {
    /// The kind of a failure.
    pub open spec fn failure_kind(self) -> FailureKind {
        match self {
            FeedbackError::Validation(_) => FailureKind::ValidationFailure,
            FeedbackError::ContentNotClean(_) => FailureKind::SecurityRejection,
            FeedbackError::ResponseNotClean(_) => FailureKind::SecurityRejection,
            FeedbackError::Transport(_) => FailureKind::TransportFailure,
            FeedbackError::Timeout => FailureKind::TransportFailure,
            FeedbackError::Processing(_) => FailureKind::TransportFailure,
            FeedbackError::UnexpectedReply => FailureKind::TransportFailure,
        }
    }

    /// The reason of a failure for a reader.
    pub open spec fn text(self) -> Seq<char> {
        match self {
            FeedbackError::Validation(e) => rejection_text(e),
            FeedbackError::ContentNotClean(e) => "Content still contains PII after sanitization: "@
                + refusal_text(e),
            FeedbackError::ResponseNotClean(e) => "AI response contains PII: "@ + refusal_text(e),
            FeedbackError::Transport(e) => e.text(),
            FeedbackError::Timeout => "Timeout waiting for AI response"@,
            FeedbackError::Processing(m) => "AI processing error: "@ + m@,
            FeedbackError::UnexpectedReply => "Unexpected response type from AI jail"@,
        }
    }

    /// Whether a failure leaves open what became of the request: after a
    /// timeout or a crash of the process, the request may or may not have
    /// been served.
    pub open spec fn leaves_outcome_open(self) -> bool {
        self is Timeout || self matches FeedbackError::Transport(IPCError::ProcessCrashed)
    }

    /// Whether this failure leaves open what became of the request, so that
    /// the caller has to reconcile before it tries again.
    pub fn outcome_is_unknown(&self) -> (b: bool)
        ensures
            b == self.leaves_outcome_open(),
    {
        match self {
            FeedbackError::Timeout => true,
            FeedbackError::Transport(IPCError::ProcessCrashed) => true,
            _ => false,
        }
    }

    /// The kind of this failure.
    pub fn kind(&self) -> (k: FailureKind)
        ensures
            k == self.failure_kind(),
    {
        match self {
            FeedbackError::Validation(_) => FailureKind::ValidationFailure,
            FeedbackError::ContentNotClean(_) => FailureKind::SecurityRejection,
            FeedbackError::ResponseNotClean(_) => FailureKind::SecurityRejection,
            FeedbackError::Transport(_) => FailureKind::TransportFailure,
            FeedbackError::Timeout => FailureKind::TransportFailure,
            FeedbackError::Processing(_) => FailureKind::TransportFailure,
            FeedbackError::UnexpectedReply => FailureKind::TransportFailure,
        }
    }

    /// The reason of this failure for a reader.
    pub fn to_string(&self) -> (r: String)
        ensures
            r@ == self.text(),
    {
        match self {
            FeedbackError::Validation(e) => e.to_string(),
            FeedbackError::ContentNotClean(e) => join_texts(
                "Content still contains PII after sanitization: ",
                e.to_string().as_str(),
            ),
            FeedbackError::ResponseNotClean(e) => join_texts(
                "AI response contains PII: ",
                e.to_string().as_str(),
            ),
            FeedbackError::Transport(e) => e.to_string(),
            FeedbackError::Timeout => owned("Timeout waiting for AI response"),
            FeedbackError::Processing(m) => join_texts("AI processing error: ", m.as_str()),
            FeedbackError::UnexpectedReply => owned("Unexpected response type from AI jail"),
        }
    }
}

/// Why feedback is not usable.
#[derive(Debug, Clone, Copy, PartialEq, Eq, Structural)]
pub enum QualityError {
    Empty,
    TooShort,
    NoScores,
    GradeOutOfRange,
}

impl QualityError {
    /// The text shown for feedback that is not usable.
    pub open spec fn text(self) -> Seq<char> {
        match self {
            QualityError::Empty => "Feedback is empty"@,
            QualityError::TooShort => "Feedback is too short"@,
            QualityError::NoScores => "No criterion scores provided"@,
            QualityError::GradeOutOfRange => "Overall grade out of range"@,
        }
    }

    /// The text shown for this finding.
    pub fn to_string(&self) -> (r: String)
        ensures
            r@ == self.text(),
    {
        match self {
            QualityError::Empty => owned("Feedback is empty"),
            QualityError::TooShort => owned("Feedback is too short"),
            QualityError::NoScores => owned("No criterion scores provided"),
            QualityError::GradeOutOfRange => owned("Overall grade out of range"),
        }
    }
}

/// Whether two lists of criteria hold the same criteria: each has the number,
/// the description and the marks of the one in its place.
pub open spec fn same_criteria(a: Seq<RubricCriterion>, b: Seq<RubricCriterion>) -> bool {
    &&& a.len() == b.len()
    &&& forall|i: int|
        0 <= i < a.len() ==> {
            &&& (#[trigger] a[i]).number == b[i].number
            &&& a[i].description@ == b[i].description@
            &&& a[i].max_marks == b[i].max_marks
        }
}

/// What is to be done for a request once it is prepared.
#[derive(Debug)]
pub enum Action {
    /// Send the message, then wait for one reply for at most so many seconds.
    Exchange { message: IPCMessage, timeout_secs: u64 },
    /// No transport is configured: answer with placeholder feedback.
    UsePlaceholder,
}

/// What came of waiting for the answer to a request.
#[derive(Debug)]
pub enum ReplyEvent {
    /// A message arrived.
    Message(IPCMessage),
    /// Sending or receiving failed.
    Failed(IPCError),
    /// The time allowed ran out.
    TimedOut,
}

// ---------------------------------------------------------------------------
// Lines that open with a phrase
// ---------------------------------------------------------------------------

/// The phrases that open a suggestion.
pub open spec fn suggestion_leads() -> Seq<Seq<char>> {
    seq!["Consider"@, "Try"@, "You could"@, "Suggestion:"@]
}

/// The phrases that open a strength.
pub open spec fn strength_leads() -> Seq<Seq<char>> {
    seq!["Good"@, "Excellent"@, "Well done"@, "Strong"@, "Strength:"@]
}

/// Whether `t` starts with one of `leads`.
pub open spec fn opens_with(t: Seq<char>, leads: Seq<Seq<char>>) -> bool {
    exists|k: int| 0 <= k < leads.len() && starts_with(t, #[trigger] leads[k])
}

/// The trimmed lines, among `ls`, that start with one of `leads`, in order.
pub open spec fn led_lines(ls: Seq<Seq<char>>, leads: Seq<Seq<char>>) -> Seq<Seq<char>>
    decreases ls.len(),
{
    if ls.len() == 0 {
        seq![]
    } else {
        let rest = led_lines(ls.drop_last(), leads);
        let t = trim(ls.last());
        if opens_with(t, leads) {
            rest.push(t)
        } else {
            rest
        }
    }
}

/// The suggestions in a feedback text.
pub open spec fn suggestions_in(feedback: Seq<char>) -> Seq<Seq<char>> {
    led_lines(lines(feedback), suggestion_leads())
}

/// The strengths in a feedback text.
pub open spec fn strengths_in(feedback: Seq<char>) -> Seq<Seq<char>> {
    led_lines(lines(feedback), strength_leads())
}

/// The views of a vector of strings.
pub open spec fn texts(v: Seq<String>) -> Seq<Seq<char>> {
    v.map_values(|s: String| s@)
}

fn line_opens_with(t: &Vec<char>, leads: &Vec<Vec<char>>) -> (b: bool)
    ensures
        b == opens_with(t@, views(leads@)),
{
    let mut k: usize = 0;
    while k < leads.len()
        invariant
            k <= leads.len(),
            forall|j: int| 0 <= j < k ==> !starts_with(t@, #[trigger] views(leads@)[j]),
        decreases leads.len() - k,
    {
        if chars_occur_at(t, 0, &leads[k]) {
            assert(views(leads@)[k as int] == leads@[k as int]@);
            return true;
        }
        assert(views(leads@)[k as int] == leads@[k as int]@);
        k += 1;
    }
    false
}

fn collect_led_lines(feedback: &str, leads: &Vec<Vec<char>>) -> (out: Vec<String>)
    ensures
        texts(out@) == led_lines(lines(feedback@), views(leads@)),
{
    let chars = to_chars(feedback);
    let ls = split_lines(&chars);
    let mut out: Vec<String> = Vec::new();
    let mut i: usize = 0;
    proof {
        assert(views(ls@).take(0) =~= seq![]);
        assert(texts(out@) =~= seq![]);
    }
    while i < ls.len()
        invariant
            i <= ls.len(),
            texts(out@) == led_lines(views(ls@).take(i as int), views(leads@)),
        decreases ls.len() - i,
    {
        let t = trim_chars(&ls[i]);
        proof {
            let prefix = views(ls@).take(i + 1);
            assert(prefix.drop_last() =~= views(ls@).take(i as int));
            assert(prefix.last() == ls@[i as int]@);
        }
        if line_opens_with(&t, leads) {
            let line = from_chars(&t);
            assert(texts(out@.push(line)) =~= texts(out@).push(line@));
            out.push(line);
        }
        i += 1;
    }
    proof {
        assert(views(ls@).take(ls@.len() as int) =~= views(ls@));
    }
    out
}

// ---------------------------------------------------------------------------
// Requests
// ---------------------------------------------------------------------------

impl FeedbackRequest {
    /// The request for a submission: the sanitized answer, the rubric and its
    /// criteria, and the default time to wait. An answer that still holds
    /// personal data after sanitizing is refused.
    pub fn from_tma(tma: &TMA, security: &SecurityService) -> (r: Result<Self, FeedbackError>)
        requires
            tma.rubric@.len() < u32::MAX,
        ensures
            r is Ok <==> pii_free(sanitized(tma.content@)),
            r matches Ok(request) ==> {
                &&& request.tma_id@ == tma.id@
                &&& request.content@ == sanitized(tma.content@)
                &&& pii_free(request.content@)
                &&& request.rubric@ == tma.rubric@
                &&& is_criteria_of(request.criteria@, tma.rubric@)
                &&& request.timeout_secs == DEFAULT_TIMEOUT_SECS
            },
            r matches Err(e) ==> e matches FeedbackError::ContentNotClean(
                SecurityError::PiiDetected { instances, types },
            ) && instances == detected(sanitized(tma.content@)).len() && types == distinct_types(
                detected(sanitized(tma.content@)),
            ).len(),
    {
        let sanitized_content = security.sanitize_content(tma.content.as_str());
        match security.validate_output(sanitized_content.as_str()) {
            Ok(()) => {},
            Err(e) => {
                return Err(FeedbackError::ContentNotClean(e));
            },
        }
        let criteria = tma.parse_rubric_criteria();
        Ok(
            FeedbackRequest {
                tma_id: tma.id.clone(),
                content: sanitized_content,
                rubric: tma.rubric.clone(),
                criteria,
                timeout_secs: DEFAULT_TIMEOUT_SECS,
            },
        )
    }

    /// The same request with another time to wait.
    pub fn with_timeout(self, timeout_secs: u64) -> (r: Self)
        ensures
            r == (FeedbackRequest { timeout_secs, ..self }),
    {
        FeedbackRequest {
            tma_id: self.tma_id,
            content: self.content,
            rubric: self.rubric,
            criteria: self.criteria,
            timeout_secs,
        }
    }

    /// The message that carries this request under the given identifier. It
    /// holds the sanitized answer, the rubric and the criteria, and nothing
    /// else of the submission.
    pub fn to_message(&self, request_id: String) -> (m: IPCMessage)
        ensures
            m matches IPCMessage::FeedbackRequest { request_id: id, content, rubric, criteria }
                && id == request_id && content@ == self.content@ && rubric@ == self.rubric@
                && same_criteria(criteria@, self.criteria@),
    {
        let mut criteria: Vec<RubricCriterion> = Vec::new();
        let mut i: usize = 0;
        while i < self.criteria.len()
            invariant
                i <= self.criteria.len(),
                criteria@.len() == i,
                forall|j: int|
                    0 <= j < i ==> {
                        &&& (#[trigger] criteria@[j]).number == self.criteria@[j].number
                        &&& criteria@[j].description@ == self.criteria@[j].description@
                        &&& criteria@[j].max_marks == self.criteria@[j].max_marks
                    },
            decreases self.criteria.len() - i,
        {
            let c = &self.criteria[i];
            criteria.push(
                RubricCriterion {
                    number: c.number,
                    description: c.description.clone(),
                    max_marks: c.max_marks,
                },
            );
            i += 1;
        }
        IPCMessage::FeedbackRequest {
            request_id,
            content: self.content.clone(),
            rubric: self.rubric.clone(),
            criteria,
        }
    }
}

// ---------------------------------------------------------------------------
// The service
// ---------------------------------------------------------------------------

/// Why feedback is not usable, if it is not: the text is blank, has fewer
/// than 50 characters, comes without scores, or the overall grade is no
/// number from 0 to 100. The first finding in this order is reported.
pub open spec fn quality_problem(response: FeedbackResponse) -> Option<QualityError> {
    if is_blank(response.feedback@) {
        Some(QualityError::Empty)
    } else if response.feedback@.len() < MIN_FEEDBACK_LENGTH {
        Some(QualityError::TooShort)
    } else if response.criterion_scores@.len() == 0 {
        Some(QualityError::NoScores)
    } else if !is_percentage(response.overall_grade) {
        Some(QualityError::GradeOutOfRange)
    } else {
        None
    }
}

/// Feedback of fewer than 50 characters is never usable, whatever its scores
/// and its grade.
pub proof fn lemma_short_feedback_is_refused(response: FeedbackResponse)
    requires
        response.feedback@.len() < MIN_FEEDBACK_LENGTH,
    ensures
        quality_problem(response) is Some,
        quality_problem(response) == Some(QualityError::Empty) || quality_problem(response)
            == Some(QualityError::TooShort),
{
}

/// Feedback is usable exactly when its text is not blank and has 50
/// characters or more, it comes with scores, and its grade is a number from
/// 0 to 100.
pub proof fn lemma_usable_feedback(response: FeedbackResponse)
    ensures
        quality_problem(response) is None <==> {
            &&& !is_blank(response.feedback@)
            &&& response.feedback@.len() >= MIN_FEEDBACK_LENGTH
            &&& response.criterion_scores@.len() > 0
            &&& is_percentage(response.overall_grade)
        },
{
}

/// The placeholder feedback for a request, used where no transport is
/// configured: a fixed text, and for each criterion a score of 70 out of the
/// criterion's marks, or out of 100 where it has none.
pub open spec fn is_placeholder_for(
    response: FeedbackResponse,
    request: FeedbackRequest,
    overall_grade: u32,
) -> bool {
    &&& response.tma_id@ == request.tma_id@
    &&& response.feedback@ == "This is mock feedback. Your answer shows good understanding."@
    &&& response.overall_grade == overall_grade
    &&& texts(response.suggestions@) == seq!["Consider providing more examples"@]
    &&& texts(response.strengths@) == seq!["Clear explanation of concepts"@]
    &&& response.criterion_scores@.len() == request.criteria@.len()
    &&& forall|i: int|
        0 <= i < request.criteria@.len() ==> {
            let score = #[trigger] response.criterion_scores@[i];
            let criterion = request.criteria@[i];
            &&& score.criterion_number == criterion.number
            &&& score.criterion_text@ == criterion.description@
            &&& score.score == SEVENTY
            &&& score.max_score == match criterion.max_marks {
                Some(marks) => marks,
                None => HUNDRED,
            }
            &&& score.feedback@ == "Good attempt at criterion "@ + decimal(criterion.number as nat)
        }
}

/// Produces feedback for submissions through an isolated process.
pub struct FeedbackService {
    security: SecurityService,
}

impl FeedbackService {
    /// The security service that this service filters with.
    pub closed spec fn security_service(&self) -> SecurityService {
        self.security
    }

    /// A service that filters with the given security service.
    pub fn new(security: SecurityService) -> (s: Self)
        ensures
            s.security_service() == security,
    {
        FeedbackService { security }
    }

    /// The first part of producing feedback: the submission is checked, its
    /// answer sanitized and checked again, and its rubric read. Nothing is
    /// sent unless this succeeds.
    pub fn prepare(&self, tma: &TMA) -> (r: Result<FeedbackRequest, FeedbackError>)
        requires
            tma.rubric@.len() < u32::MAX,
        ensures
            r is Ok <==> tma.is_valid() && pii_free(sanitized(tma.content@)),
            r matches Ok(request) ==> {
                &&& request.tma_id@ == tma.id@
                &&& request.content@ == sanitized(tma.content@)
                &&& pii_free(request.content@)
                &&& request.rubric@ == tma.rubric@
                &&& is_criteria_of(request.criteria@, tma.rubric@)
                &&& request.timeout_secs == DEFAULT_TIMEOUT_SECS
            },
            r matches Err(e) ==> match e {
                FeedbackError::Validation(v) => tma.is_first_violation(v),
                FeedbackError::ContentNotClean(SecurityError::PiiDetected { instances, types }) => {
                    &&& tma.is_valid()
                    &&& instances == detected(sanitized(tma.content@)).len()
                    &&& types == distinct_types(detected(sanitized(tma.content@))).len()
                },
                _ => false,
            },
    {
        match tma.validate() {
            Ok(()) => {},
            Err(e) => {
                return Err(FeedbackError::Validation(e));
            },
        }
        FeedbackRequest::from_tma(tma, &self.security)
    }

    /// The first step for a submission: the request, and what is to be done
    /// with it. With a transport, that is the exchange of one message, which
    /// carries the request under the given identifier; without one, it is the
    /// placeholder. A submission that breaks a rule, or whose answer is not
    /// clean after sanitizing, gets no request and nothing is sent.
    pub fn start(&self, tma: &TMA, request_id: String, transport_configured: bool) -> (r: Result<
        (FeedbackRequest, Action),
        FeedbackError,
    >)
        requires
            tma.rubric@.len() < u32::MAX,
        ensures
            r is Ok <==> tma.is_valid() && pii_free(sanitized(tma.content@)),
            r matches Ok((request, action)) ==> {
                &&& request.tma_id@ == tma.id@
                &&& request.content@ == sanitized(tma.content@)
                &&& pii_free(request.content@)
                &&& request.rubric@ == tma.rubric@
                &&& is_criteria_of(request.criteria@, tma.rubric@)
                &&& request.timeout_secs == DEFAULT_TIMEOUT_SECS
                &&& transport_configured == (action is Exchange)
                &&& action matches Action::Exchange {
                    message: IPCMessage::FeedbackRequest { request_id: id, content, rubric, criteria },
                    timeout_secs,
                } ==> {
                    &&& id == request_id
                    &&& content@ == request.content@
                    &&& rubric@ == request.rubric@
                    &&& same_criteria(criteria@, request.criteria@)
                    &&& timeout_secs == request.timeout_secs
                }
                &&& action matches Action::Exchange { message, .. } ==> message is FeedbackRequest
            },
            r matches Err(e) ==> match e {
                FeedbackError::Validation(v) => tma.is_first_violation(v),
                FeedbackError::ContentNotClean(_) => tma.is_valid(),
                _ => false,
            },
    {
        let request = match self.prepare(tma) {
            Ok(request) => request,
            Err(e) => {
                return Err(e);
            },
        };
        let action = if transport_configured {
            Action::Exchange {
                message: request.to_message(request_id),
                timeout_secs: request.timeout_secs,
            }
        } else {
            Action::UsePlaceholder
        };
        Ok((request, action))
    }

    /// What a message from the isolated process means as the answer to a
    /// request: feedback with the suggestions and strengths read out of its
    /// text, an error of the process, or something unexpected.
    pub fn interpret_reply(request: &FeedbackRequest, reply: IPCMessage) -> (r: Result<
        FeedbackResponse,
        FeedbackError,
    >)
        ensures
            match reply {
                IPCMessage::FeedbackResponse { request_id, feedback, scores, overall_grade } => {
                    r matches Ok(response) && response.tma_id@ == request.tma_id@
                        && response.feedback@ == feedback@ && response.criterion_scores == scores
                        && response.overall_grade == overall_grade && texts(response.suggestions@)
                        == suggestions_in(feedback@) && texts(response.strengths@) == strengths_in(
                        feedback@,
                    )
                },
                IPCMessage::Error { message } => r matches Err(FeedbackError::Processing(m)) && m@
                    == message@,
                _ => r matches Err(FeedbackError::UnexpectedReply),
            },
    {
        match reply {
            IPCMessage::FeedbackResponse { request_id: _, feedback, scores, overall_grade } => {
                let suggestions = Self::extract_suggestions(feedback.as_str());
                let strengths = Self::extract_strengths(feedback.as_str());
                Ok(
                    FeedbackResponse {
                        tma_id: request.tma_id.clone(),
                        feedback,
                        criterion_scores: scores,
                        overall_grade,
                        suggestions,
                        strengths,
                    },
                )
            },
            IPCMessage::Error { message } => Err(FeedbackError::Processing(message)),
            _ => Err(FeedbackError::UnexpectedReply),
        }
    }

    /// The last part of producing feedback: a response whose text holds
    /// personal data is withheld.
    pub fn release(&self, response: FeedbackResponse) -> (r: Result<
        FeedbackResponse,
        FeedbackError,
    >)
        ensures
            r is Ok <==> pii_free(response.feedback@),
            r matches Ok(released) ==> released == response,
            r matches Err(e) ==> e matches FeedbackError::ResponseNotClean(
                SecurityError::PiiDetected { instances, types },
            ) && instances == detected(response.feedback@).len() && types == distinct_types(
                detected(response.feedback@),
            ).len(),
    {
        match self.security.validate_output(response.feedback.as_str()) {
            Ok(()) => Ok(response),
            Err(e) => Err(FeedbackError::ResponseNotClean(e)),
        }
    }

    /// What the outcome of one exchange means for the request. A timeout and
    /// a failure of the transport are reported as such. A message is
    /// interpreted, and feedback is released only if it holds no personal
    /// data.
    pub fn complete(&self, request: &FeedbackRequest, event: ReplyEvent) -> (r: Result<
        FeedbackResponse,
        FeedbackError,
    >)
        ensures
            match event {
                ReplyEvent::TimedOut => r matches Err(FeedbackError::Timeout),
                ReplyEvent::Failed(cause) => r == Err::<FeedbackResponse, FeedbackError>(
                    FeedbackError::Transport(cause),
                ),
                ReplyEvent::Message(
                    IPCMessage::FeedbackResponse { request_id, feedback, scores, overall_grade },
                ) => if pii_free(feedback@) {
                    r matches Ok(response) && response.tma_id@ == request.tma_id@
                        && response.feedback@ == feedback@ && response.criterion_scores == scores
                        && response.overall_grade == overall_grade && texts(response.suggestions@)
                        == suggestions_in(feedback@) && texts(response.strengths@) == strengths_in(
                        feedback@,
                    )
                } else {
                    r matches Err(
                        FeedbackError::ResponseNotClean(
                            SecurityError::PiiDetected { instances, types },
                        ),
                    ) && instances == detected(feedback@).len() && types == distinct_types(
                        detected(feedback@),
                    ).len()
                },
                ReplyEvent::Message(IPCMessage::Error { message }) => r matches Err(
                    FeedbackError::Processing(m),
                ) && m@ == message@,
                ReplyEvent::Message(_) => r matches Err(FeedbackError::UnexpectedReply),
            },
    {
        match event {
            ReplyEvent::TimedOut => Err(FeedbackError::Timeout),
            ReplyEvent::Failed(cause) => Err(FeedbackError::Transport(cause)),
            ReplyEvent::Message(message) => {
                match Self::interpret_reply(request, message) {
                    Ok(response) => self.release(response),
                    Err(e) => Err(e),
                }
            },
        }
    }

    /// The placeholder feedback for a request, with the overall grade that
    /// the caller computed from the scores.
    pub fn generate_mock_feedback(request: &FeedbackRequest, overall_grade: u32) -> (r:
        FeedbackResponse)
        ensures
            is_placeholder_for(r, *request, overall_grade),
    {
        let mut scores: Vec<CriterionScore> = Vec::new();
        let mut i: usize = 0;
        while i < request.criteria.len()
            invariant
                i <= request.criteria.len(),
                scores@.len() == i,
                forall|j: int|
                    0 <= j < i ==> {
                        let score = #[trigger] scores@[j];
                        let criterion = request.criteria@[j];
                        &&& score.criterion_number == criterion.number
                        &&& score.criterion_text@ == criterion.description@
                        &&& score.score == SEVENTY
                        &&& score.max_score == match criterion.max_marks {
                            Some(marks) => marks,
                            None => HUNDRED,
                        }
                        &&& score.feedback@ == "Good attempt at criterion "@ + decimal(
                            criterion.number as nat,
                        )
                    },
            decreases request.criteria.len() - i,
        {
            let criterion = &request.criteria[i];
            let mut note: Vec<char> = Vec::new();
            push_str(&mut note, "Good attempt at criterion ");
            push_decimal(&mut note, criterion.number as u64);
            let max_score = match criterion.max_marks {
                Some(marks) => marks,
                None => HUNDRED,
            };
            scores.push(
                CriterionScore {
                    criterion_number: criterion.number,
                    criterion_text: criterion.description.clone(),
                    score: SEVENTY,
                    max_score,
                    feedback: from_chars(&note),
                },
            );
            i += 1;
        }
        let mut suggestions: Vec<String> = Vec::new();
        suggestions.push(owned("Consider providing more examples"));
        let mut strengths: Vec<String> = Vec::new();
        strengths.push(owned("Clear explanation of concepts"));
        proof {
            assert(texts(suggestions@) =~= seq!["Consider providing more examples"@]);
            assert(texts(strengths@) =~= seq!["Clear explanation of concepts"@]);
        }
        FeedbackResponse {
            tma_id: request.tma_id.clone(),
            feedback: owned("This is mock feedback. Your answer shows good understanding."),
            criterion_scores: scores,
            overall_grade,
            suggestions,
            strengths,
        }
    }

    /// The lines of a feedback text that open with `Consider`, `Try`,
    /// `You could` or `Suggestion:`, trimmed.
    pub fn extract_suggestions(feedback: &str) -> (out: Vec<String>)
        ensures
            texts(out@) == suggestions_in(feedback@),
    {
        let mut leads: Vec<Vec<char>> = Vec::new();
        leads.push(to_chars("Consider"));
        leads.push(to_chars("Try"));
        leads.push(to_chars("You could"));
        leads.push(to_chars("Suggestion:"));
        assert(views(leads@) =~= suggestion_leads());
        collect_led_lines(feedback, &leads)
    }

    /// The lines of a feedback text that open with `Good`, `Excellent`,
    /// `Well done`, `Strong` or `Strength:`, trimmed.
    pub fn extract_strengths(feedback: &str) -> (out: Vec<String>)
        ensures
            texts(out@) == strengths_in(feedback@),
    {
        let mut leads: Vec<Vec<char>> = Vec::new();
        leads.push(to_chars("Good"));
        leads.push(to_chars("Excellent"));
        leads.push(to_chars("Well done"));
        leads.push(to_chars("Strong"));
        leads.push(to_chars("Strength:"));
        assert(views(leads@) =~= strength_leads());
        collect_led_lines(feedback, &leads)
    }

    /// Checks that feedback is usable and reports the first finding.
    pub fn validate_feedback(&self, response: &FeedbackResponse) -> (r: Result<(), QualityError>)
        ensures
            r is Ok <==> quality_problem(*response) is None,
            r matches Err(e) ==> quality_problem(*response) == Some(e),
    {
        if str_is_blank(response.feedback.as_str()) {
            return Err(QualityError::Empty);
        }
        if response.feedback.as_str().unicode_len() < MIN_FEEDBACK_LENGTH {
            return Err(QualityError::TooShort);
        }
        if response.criterion_scores.len() == 0 {
            return Err(QualityError::NoScores);
        }
        if !(response.overall_grade <= HUNDRED || response.overall_grade == NEGATIVE_ZERO) {
            return Err(QualityError::GradeOutOfRange);
        }
        Ok(())
    }
}

} // verus!
