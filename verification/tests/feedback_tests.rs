use academic_workflow::feedback::{
    Action, CriterionScore, FailureKind, FeedbackError, FeedbackRequest, FeedbackResponse,
    FeedbackService, QualityError, ReplyEvent,
};
use academic_workflow::security::SecurityError;
use academic_workflow::ipc::{IPCError, IPCMessage};
use academic_workflow::security::SecurityService;
use academic_workflow::tma::{RubricCriterion, TMAStatus, ValidationError, TMA};

fn create_test_tma() -> TMA {
    TMA {
        id: academic_workflow::crypto::generate_uuid(),
        student_id: "student123".to_string(),
        module_code: "TM112".to_string(),
        question_number: 1,
        content: "This is my answer to the question.".to_string(),
        rubric: "1. Understanding\n2. Application\n3. Analysis".to_string(),
        status: TMAStatus::Submitted,
        anonymized_id: None,
    }
}

fn response_with(feedback: &str, scores: Vec<CriterionScore>, grade: f32) -> FeedbackResponse {
    FeedbackResponse {
        tma_id: "test".to_string(),
        feedback: feedback.to_string(),
        criterion_scores: scores,
        overall_grade: grade.to_bits(),
        suggestions: vec![],
        strengths: vec![],
    }
}

fn one_score() -> Vec<CriterionScore> {
    vec![CriterionScore {
        criterion_number: 1,
        criterion_text: "Test".to_string(),
        score: 80.0f32.to_bits(),
        max_score: 100.0f32.to_bits(),
        feedback: "Good".to_string(),
    }]
}

const LONG_ENOUGH: &str = "This is valid feedback with sufficient content to be meaningful.";

#[test]
fn test_feedback_request_from_tma() {
    let tma = create_test_tma();
    let security = SecurityService::new();
    let request = FeedbackRequest::from_tma(&tma, &security).unwrap();

    assert_eq!(request.tma_id, tma.id.to_string());
    assert_eq!(request.criteria.len(), 3);
    assert_eq!(request.timeout_secs, 120);
}

#[test]
fn test_feedback_request_with_timeout() {
    let tma = create_test_tma();
    let security = SecurityService::new();
    let request = FeedbackRequest::from_tma(&tma, &security).unwrap().with_timeout(60);

    assert_eq!(request.timeout_secs, 60);
}

#[test]
fn test_generate_mock_feedback() {
    let security = SecurityService::new();
    let service = FeedbackService::new(security);
    let tma = create_test_tma();

    let request = service.prepare(&tma).unwrap();
    let grade: f32 = 70.0;
    let response =
        service.release(FeedbackService::generate_mock_feedback(&request, grade.to_bits())).unwrap();

    assert_eq!(response.tma_id, tma.id.to_string());
    assert!(!response.feedback.is_empty());
    assert_eq!(response.criterion_scores.len(), 3);
    assert!(f32::from_bits(response.overall_grade) > 0.0);
}

#[test]
fn test_extract_suggestions() {
    let feedback =
        "Good work on your answer.\nConsider adding more examples.\nTry to explain in more detail.";
    let suggestions = FeedbackService::extract_suggestions(feedback);

    assert_eq!(suggestions.len(), 2);
    assert!(suggestions[0].contains("Consider"));
    assert!(suggestions[1].contains("Try"));
}

#[test]
fn test_extract_strengths() {
    let feedback =
        "Good explanation of the concepts.\nExcellent use of examples.\nWell done on structure.";
    let strengths = FeedbackService::extract_strengths(feedback);

    assert_eq!(strengths.len(), 3);
}

#[test]
fn test_validate_feedback_valid() {
    let response = response_with(LONG_ENOUGH, one_score(), 80.0);

    let security = SecurityService::new();
    let service = FeedbackService::new(security);
    assert!(service.validate_feedback(&response).is_ok());
}

#[test]
fn test_validate_feedback_empty() {
    let response = response_with("", vec![], 0.0);

    let security = SecurityService::new();
    let service = FeedbackService::new(security);
    assert!(service.validate_feedback(&response).is_err());
}

#[test]
fn test_validate_feedback_too_short() {
    let response = response_with("Too short", vec![], 0.0);

    let security = SecurityService::new();
    let service = FeedbackService::new(security);
    assert!(service.validate_feedback(&response).is_err());
}

#[test]
fn test_validate_feedback_invalid_grade() {
    let response = response_with(LONG_ENOUGH, vec![], 150.0); // Invalid

    let security = SecurityService::new();
    let service = FeedbackService::new(security);
    assert!(service.validate_feedback(&response).is_err());
}

#[test]
fn feedback_findings_in_order() {
    let service = FeedbackService::new(SecurityService::new());
    let check = |r: FeedbackResponse| service.validate_feedback(&r);
    assert_eq!(check(response_with(" \n\t", vec![], 150.0)), Err(QualityError::Empty));
    assert_eq!(check(response_with("Too short", one_score(), 80.0)), Err(QualityError::TooShort));
    // Thirty characters that take sixty bytes are still too few.
    let thirty = "\u{e9}".repeat(30);
    assert_eq!(thirty.len(), 60);
    assert_eq!(check(response_with(&thirty, one_score(), 80.0)), Err(QualityError::TooShort));
    let fifty_wide = "\u{e9}".repeat(50);
    assert_eq!(check(response_with(&fifty_wide, one_score(), 80.0)), Ok(()));
    let forty_nine = "x".repeat(49);
    assert_eq!(check(response_with(&forty_nine, one_score(), 80.0)), Err(QualityError::TooShort));
    let fifty = "x".repeat(50);
    assert_eq!(check(response_with(&fifty, one_score(), 80.0)), Ok(()));
    assert_eq!(check(response_with(&fifty, vec![], 80.0)), Err(QualityError::NoScores));
    assert_eq!(check(response_with(&fifty, one_score(), 150.0)), Err(QualityError::GradeOutOfRange));
}

#[test]
fn grades_from_0_to_100_pass_and_no_others() {
    let service = FeedbackService::new(SecurityService::new());
    let check = |grade: f32| service.validate_feedback(&response_with(LONG_ENOUGH, one_score(), grade));
    for ok in [0.0f32, -0.0, f32::MIN_POSITIVE, 1.0e-40, 0.5, 50.0, 99.99999, 100.0] {
        assert_eq!(check(ok), Ok(()), "{}", ok);
    }
    for bad in [-1.0e-40f32, -0.5, -100.0, 100.00001, 150.0, f32::INFINITY, f32::NEG_INFINITY, f32::NAN] {
        assert_eq!(check(bad), Err(QualityError::GradeOutOfRange), "{}", bad);
    }
}

#[test]
fn prepare_checks_the_submission_first() {
    let service = FeedbackService::new(SecurityService::new());
    let mut tma = create_test_tma();
    tma.student_id = String::new();
    tma.content = "mail me: john@example.com".to_string();
    assert!(matches!(
        service.prepare(&tma),
        Err(FeedbackError::Validation(ValidationError::EmptyStudentId))
    ));
}

#[test]
fn an_email_address_never_reaches_the_request() {
    let service = FeedbackService::new(SecurityService::new());
    let mut tma = create_test_tma();
    tma.content = "My answer. Write to john@example.com or ring 07123456789.".to_string();
    let request = service.prepare(&tma).unwrap();
    assert!(!request.content.contains("john@example.com"));
    assert!(!request.content.contains("07123456789"));
    assert_eq!(request.content, "My answer. Write to [EMAIL_REDACTED] or ring [PHONE_REDACTED].");
    match request.to_message("req-1".to_string()) {
        IPCMessage::FeedbackRequest { request_id, content, rubric, criteria } => {
            assert_eq!(request_id, "req-1");
            assert_eq!(content, request.content);
            assert_eq!(rubric, tma.rubric);
            assert_eq!(criteria.len(), 3);
            assert_eq!(criteria[2].number, 3);
            assert_eq!(criteria[2].description, "3. Analysis");
        }
        other => panic!("unexpected message: {:?}", other),
    }
}

#[test]
fn content_that_stays_unclean_is_never_sent() {
    let service = FeedbackService::new(SecurityService::new());
    let mut tma = create_test_tma();
    tma.content = "07123456789http://x".to_string();
    assert!(matches!(
        service.prepare(&tma),
        Err(FeedbackError::ContentNotClean(
            academic_workflow::security::SecurityError::PiiDetected { instances: 1, types: 1 }
        ))
    ));
}

fn sample_request() -> FeedbackRequest {
    FeedbackRequest {
        tma_id: "tma-7".to_string(),
        content: "answer".to_string(),
        rubric: "rubric".to_string(),
        criteria: vec![
            RubricCriterion { number: 1, description: "first".to_string(), max_marks: None },
            RubricCriterion {
                number: 2,
                description: "second".to_string(),
                max_marks: Some(20.0f32.to_bits()),
            },
        ],
        timeout_secs: 5,
    }
}

#[test]
fn a_reply_is_interpreted() {
    let service = FeedbackService::new(SecurityService::new());
    let request = sample_request();
    let reply = IPCMessage::FeedbackResponse {
        request_id: "req".to_string(),
        feedback: "  Strong start.\nYou could cite sources.\r\nplain\nSuggestion: revise\nStrength: clarity".to_string(),
        scores: one_score(),
        overall_grade: 85.0f32.to_bits(),
    };
    let response = service.complete(&request, ReplyEvent::Message(reply)).unwrap();
    assert_eq!(response.tma_id, "tma-7");
    assert_eq!(f32::from_bits(response.overall_grade), 85.0);
    assert_eq!(response.criterion_scores.len(), 1);
    assert_eq!(response.suggestions, vec!["You could cite sources.", "Suggestion: revise"]);
    assert_eq!(response.strengths, vec!["Strong start.", "Strength: clarity"]);
}

#[test]
fn other_outcomes_of_an_exchange() {
    let service = FeedbackService::new(SecurityService::new());
    let request = sample_request();
    assert!(matches!(service.complete(&request, ReplyEvent::TimedOut), Err(FeedbackError::Timeout)));
    assert!(matches!(
        service.complete(&request, ReplyEvent::Failed(IPCError::ProcessCrashed)),
        Err(FeedbackError::Transport(IPCError::ProcessCrashed))
    ));
    assert!(matches!(
        service.complete(
            &request,
            ReplyEvent::Message(IPCMessage::Error { message: "out of memory".to_string() })
        ),
        Err(FeedbackError::Processing(m)) if m == "out of memory"
    ));
    assert!(matches!(
        service.complete(&request, ReplyEvent::Message(IPCMessage::Pong { timestamp: 1 })),
        Err(FeedbackError::UnexpectedReply)
    ));
    let leaking = IPCMessage::FeedbackResponse {
        request_id: "req".to_string(),
        feedback: "Good work! Email me at john@example.com".to_string(),
        scores: vec![],
        overall_grade: 50.0f32.to_bits(),
    };
    assert!(matches!(
        service.complete(&request, ReplyEvent::Message(leaking)),
        Err(FeedbackError::ResponseNotClean(
            academic_workflow::security::SecurityError::PiiDetected { instances: 1, types: 1 }
        ))
    ));
}

#[test]
fn placeholder_feedback_scores_each_criterion() {
    let request = sample_request();
    let response = FeedbackService::generate_mock_feedback(&request, 210.0f32.to_bits());
    assert_eq!(response.tma_id, "tma-7");
    assert_eq!(response.feedback, "This is mock feedback. Your answer shows good understanding.");
    assert_eq!(f32::from_bits(response.overall_grade), 210.0);
    assert_eq!(response.suggestions, vec!["Consider providing more examples"]);
    assert_eq!(response.strengths, vec!["Clear explanation of concepts"]);
    let scores: Vec<(u32, &str, f32, f32, &str)> = response
        .criterion_scores
        .iter()
        .map(|s| {
            (
                s.criterion_number,
                s.criterion_text.as_str(),
                f32::from_bits(s.score),
                f32::from_bits(s.max_score),
                s.feedback.as_str(),
            )
        })
        .collect();
    assert_eq!(
        scores,
        vec![
            (1, "first", 70.0, 100.0, "Good attempt at criterion 1"),
            (2, "second", 70.0, 20.0, "Good attempt at criterion 2"),
        ]
    );
}

#[test]
fn quality_texts() {
    assert_eq!(QualityError::Empty.to_string(), "Feedback is empty");
    assert_eq!(QualityError::TooShort.to_string(), "Feedback is too short");
    assert_eq!(QualityError::NoScores.to_string(), "No criterion scores provided");
    assert_eq!(QualityError::GradeOutOfRange.to_string(), "Overall grade out of range");
}

#[test]
fn failures_have_a_kind_and_a_reason() {
    let cases = vec![
        (
            FeedbackError::Validation(ValidationError::EmptyRubric),
            FailureKind::ValidationFailure,
            "Rubric cannot be empty",
        ),
        (
            FeedbackError::ContentNotClean(SecurityError::PiiDetected { instances: 2, types: 1 }),
            FailureKind::SecurityRejection,
            "Content still contains PII after sanitization: PII detected in AI output: found 2 instances of 1 types",
        ),
        (
            FeedbackError::ResponseNotClean(SecurityError::PiiDetected { instances: 1, types: 1 }),
            FailureKind::SecurityRejection,
            "AI response contains PII: PII detected in AI output: found 1 instances of 1 types",
        ),
        (
            FeedbackError::Transport(IPCError::ProcessCrashed),
            FailureKind::TransportFailure,
            "AI jail process crashed",
        ),
        (FeedbackError::Timeout, FailureKind::TransportFailure, "Timeout waiting for AI response"),
        (
            FeedbackError::Processing("no model".to_string()),
            FailureKind::TransportFailure,
            "AI processing error: no model",
        ),
        (
            FeedbackError::UnexpectedReply,
            FailureKind::TransportFailure,
            "Unexpected response type from AI jail",
        ),
    ];
    for (error, kind, reason) in cases {
        assert_eq!(error.kind(), kind);
        assert_eq!(error.to_string(), reason);
    }
}

#[test]
fn the_first_step_sends_only_what_is_clean() {
    let service = FeedbackService::new(SecurityService::new());
    let mut tma = create_test_tma();
    tma.content = "See https://example.com/me or john@example.com".to_string();

    let (request, action) = service.start(&tma, "req-9".to_string(), true).unwrap();
    match action {
        Action::Exchange {
            message: IPCMessage::FeedbackRequest { request_id, content, rubric, criteria },
            timeout_secs,
        } => {
            assert_eq!(request_id, "req-9");
            assert_eq!(content, "See [URL_REDACTED] or [EMAIL_REDACTED]");
            assert_eq!(content, request.content);
            assert_eq!(rubric, tma.rubric);
            assert_eq!(criteria.len(), 3);
            let sent: Vec<(u32, &str, Option<u32>)> =
                criteria.iter().map(|c| (c.number, c.description.as_str(), c.max_marks)).collect();
            assert_eq!(
                sent,
                vec![(1, "1. Understanding", None), (2, "2. Application", None), (3, "3. Analysis", None)]
            );
            assert_eq!(timeout_secs, 120);
        }
        other => panic!("unexpected action: {:?}", other),
    }

    let (_, action) = service.start(&tma, "req-10".to_string(), false).unwrap();
    assert!(matches!(action, Action::UsePlaceholder));

    tma.question_number = 0;
    assert!(matches!(
        service.start(&tma, "req-11".to_string(), true),
        Err(FeedbackError::Validation(ValidationError::InvalidQuestionNumber))
    ));
}

#[test]
fn a_timeout_and_a_crash_leave_the_outcome_open() {
    assert!(FeedbackError::Timeout.outcome_is_unknown());
    assert!(FeedbackError::Transport(IPCError::ProcessCrashed).outcome_is_unknown());
    assert!(!FeedbackError::Transport(IPCError::Timeout).outcome_is_unknown());
    assert!(!FeedbackError::Transport(IPCError::WriteError("w".to_string())).outcome_is_unknown());
    assert!(!FeedbackError::UnexpectedReply.outcome_is_unknown());
    assert!(!FeedbackError::Processing("p".to_string()).outcome_is_unknown());
    assert!(!FeedbackError::Validation(ValidationError::EmptyRubric).outcome_is_unknown());
}
