//! Records that the command-line client and the backend exchange.

use crate::text::owned;
use crate::time::Timestamp;
use vstd::prelude::*;

verus! {

/// What the backend says of its health.
#[derive(Debug, Clone)]
pub struct HealthResponse {
    pub status: String,
    pub version: Option<String>,
    pub uptime: Option<String>,
    pub database: bool,
}

/// The backend's answer to an upload.
#[derive(Debug, Clone)]
pub struct UploadResponse {
    pub id: String,
    pub status: String,
    pub message: String,
}

/// The backend's answer to a marking request.
#[derive(Debug, Clone)]
pub struct MarkingResponse {
    pub id: String,
    pub grade: u32,
    pub feedback: Option<String>,
    pub student_id: Option<String>,
    pub assignment_id: Option<String>,
}

/// The backend's answer to a login.
#[derive(Debug, Clone)]
pub struct AuthResponse {
    pub token: String,
    pub username: String,
    pub full_name: Option<String>,
}

/// One submission listed for an assignment.
#[derive(Debug, Clone)]
pub struct Submission {
    pub student_id: String,
    pub url: String,
}

/// What is known of a submitted file.
#[derive(Debug, Clone)]
pub struct SubmissionMetadata {
    pub submitted_at: Option<Timestamp>,
    pub file_size: Option<u64>,
    pub file_type: Option<String>,
    pub checksum: Option<String>,
}

impl Default for SubmissionMetadata {
    fn default() -> (m: Self)
        ensures
            m.submitted_at is None,
            m.file_size is None,
            m.file_type is None,
            m.checksum is None,
    {
        SubmissionMetadata { submitted_at: None, file_size: None, file_type: None, checksum: None }
    }
}

/// A file handed in for marking.
#[derive(Debug, Clone)]
pub struct TmaSubmission {
    pub student_id: Option<String>,
    pub assignment_id: Option<String>,
    pub file_path: String,
    pub rubric_path: Option<String>,
    pub metadata: SubmissionMetadata,
}

impl Default for TmaSubmission {
    fn default() -> (s: Self)
        ensures
            s.student_id is None,
            s.assignment_id is None,
            s.file_path@.len() == 0,
            s.rubric_path is None,
            s.metadata.submitted_at is None,
            s.metadata.file_size is None,
            s.metadata.file_type is None,
            s.metadata.checksum is None,
    {
        TmaSubmission {
            student_id: None,
            assignment_id: None,
            file_path: String::new(),
            rubric_path: None,
            metadata: SubmissionMetadata::default(),
        }
    }
}

/// Counts that the backend keeps. The average grade is held by its bits in
/// single precision.
#[derive(Debug, Clone)]
pub struct Statistics {
    pub total_marked: u32,
    pub pending_reviews: u32,
    pub average_grade: u32,
    pub last_sync: Option<String>,
}

/// An assignment as the learning platform lists it.
#[derive(Debug, Clone)]
pub struct ListedAssignment {
    pub id: String,
    pub name: String,
    pub due_date: Option<String>,
    pub submissions: Vec<Submission>,
}

/// Feedback as the backend stores it.
#[derive(Debug, Clone)]
pub struct Feedback {
    pub id: String,
    pub tma_id: String,
    pub content: String,
    pub grade: u32,
    pub created_at: Timestamp,
    pub updated_at: Option<Timestamp>,
    pub sections: Vec<FeedbackSection>,
}

/// An assignment of a course.
#[derive(Debug, Clone)]
pub struct Assignment {
    pub id: String,
    pub name: String,
    pub description: Option<String>,
    pub due_date: Option<Timestamp>,
    pub max_grade: u32,
    pub course_id: String,
    pub status: AssignmentStatus,
}

/// The score for one criterion of a marked submission.
#[derive(Debug, Clone)]
pub struct RubricScore {
    pub criterion: String,
    pub score: u32,
    pub max_score: u32,
    pub comment: Option<String>,
}

/// The outcome of marking one submission.
#[derive(Debug, Clone)]
pub struct MarkingResult {
    pub id: String,
    pub tma_id: String,
    pub grade: u32,
    pub feedback: String,
    pub rubric_scores: Vec<RubricScore>,
    pub marked_at: Timestamp,
    pub marker: Option<String>,
}

/// A course.
#[derive(Debug, Clone)]
pub struct Course {
    pub id: String,
    pub name: String,
    pub code: String,
    pub description: Option<String>,
    pub start_date: Option<Timestamp>,
    pub end_date: Option<Timestamp>,
}

/// How the last synchronization with the learning platform went.
#[derive(Debug, Clone)]
pub struct SyncStatus {
    pub last_sync: Option<Timestamp>,
    pub sync_status: String,
    pub items_synced: u32,
    pub errors: Vec<String>,
}

/// One titled part of a feedback text.
#[derive(Debug, Clone)]
pub struct FeedbackSection {
    pub title: String,
    pub content: String,
    pub score: Option<u32>,
    pub max_score: Option<u32>,
}

/// Whether an assignment takes submissions.
#[derive(Debug, Clone, Copy, PartialEq, Eq, Structural)]
pub enum AssignmentStatus {
    Open,
    Closed,
    Draft,
}

/// A student on a course.
#[derive(Debug, Clone)]
pub struct Student {
    pub id: String,
    pub name: String,
    pub email: Option<String>,
    pub course_id: String,
}

/// Whether a service runs.
#[derive(Debug, Clone, Copy, PartialEq, Eq, Structural)]
pub enum ServiceState {
    Running,
    Stopped,
    Starting,
    Error,
}

/// How well a service runs.
#[derive(Debug, Clone, Copy, PartialEq, Eq, Structural)]
pub enum HealthStatus {
    Healthy,
    Unhealthy,
    Degraded,
    Unknown,
}

/// A service and its state.
#[derive(Debug, Clone)]
pub struct ServiceStatus {
    pub name: String,
    pub status: ServiceState,
    pub uptime: Option<u64>,
    pub version: Option<String>,
    pub health: HealthStatus,
}

/// How the command-line client presents itself.
#[derive(Debug, Clone)]
pub struct CliConfig {
    pub output_format: String,
    pub color_enabled: bool,
    pub verbose: bool,
    pub api_timeout: u64,
}

impl Default for CliConfig {
    fn default() -> (c: Self)
        ensures
            c.output_format@ == "text"@,
            c.color_enabled,
            !c.verbose,
            c.api_timeout == 30,
    {
        CliConfig {
            output_format: owned("text"),
            color_enabled: true,
            verbose: false,
            api_timeout: 30,
        }
    }
}

/// A text produced by the model, as the privacy checks see it.
#[derive(Debug, Clone)]
pub struct AIOutput {
    pub content: String,
    pub source: String,
    pub timestamp: String,
}

/// The verdict of a privacy check on one output.
#[derive(Debug, PartialEq)]
pub enum ValidationResult {
    Pass,
    Fail(Vec<String>),
}

/// How grave a finding is.
#[derive(Debug, Clone, Copy, PartialEq, Eq, Structural)]
pub enum Severity {
    Critical,
    High,
    Medium,
    Low,
}

} // verus!
