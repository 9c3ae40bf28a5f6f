//! Task records as the backend reports them, and the records handed to the
//! host. The host's records carry every status as text and every count as
//! a 32-bit number.

use vstd::prelude::*;

verus! {

/// State of a task.
#[derive(Debug, Clone, Copy, PartialEq, Eq)]
pub enum TaskStatus {
    Pending,
    Ready,
    Applied,
    Error,
}

/// How applying a diff ended.
#[derive(Debug, Clone, Copy, PartialEq, Eq)]
pub enum ApplyStatus {
    Success,
    Partial,
    Error,
}

/// State of one attempt at a turn.
#[derive(Debug, Clone, Copy, PartialEq, Eq)]
pub enum AttemptStatus {
    Pending,
    InProgress,
    Completed,
    Failed,
    Cancelled,
    Unknown,
}

/// Size of a diff, as the backend counts it.
#[derive(Debug, Clone, Copy, PartialEq, Eq)]
pub struct DiffSummary {
    pub files_changed: usize,
    pub lines_added: usize,
    pub lines_removed: usize,
}

/// A task in the backend's list. `updated_at` is a time in RFC 3339 form.
#[derive(Debug, Clone, PartialEq, Eq)]
pub struct TaskSummary {
    pub id: String,
    pub title: String,
    pub status: TaskStatus,
    pub updated_at: String,
    pub environment_id: Option<String>,
    pub environment_label: Option<String>,
    pub summary: DiffSummary,
    pub is_review: bool,
    pub attempt_total: Option<usize>,
}

/// What the backend reports after applying a diff.
#[derive(Debug, Clone, PartialEq, Eq)]
pub struct ApplyOutcome {
    pub applied: bool,
    pub status: ApplyStatus,
    pub message: String,
    pub skipped_paths: Vec<String>,
    pub conflict_paths: Vec<String>,
}

/// The texts of a task.
#[derive(Debug, Clone, PartialEq, Eq)]
pub struct TaskText {
    pub prompt: Option<String>,
    pub messages: Vec<String>,
    pub turn_id: Option<String>,
    pub sibling_turn_ids: Vec<String>,
    pub attempt_placement: Option<i64>,
    pub attempt_status: AttemptStatus,
}

/// One attempt at a turn. `created_at` is a time in RFC 3339 form.
#[derive(Debug, Clone, PartialEq, Eq)]
pub struct TurnAttempt {
    pub turn_id: String,
    pub attempt_placement: Option<i64>,
    pub created_at: Option<String>,
    pub status: AttemptStatus,
    pub diff: Option<String>,
    pub messages: Vec<String>,
}

/// Size of a diff, for the host.
#[derive(Debug, Clone, Copy, PartialEq, Eq)]
pub struct DiffSummaryNapi {
    pub files_changed: u32,
    pub lines_added: u32,
    pub lines_removed: u32,
}

/// A pull request, for the host.
#[derive(Debug, Clone, PartialEq, Eq)]
pub struct PullRequestNapi {
    pub number: Option<u32>,
    pub url: Option<String>,
    pub state: Option<String>,
    pub merged: Option<bool>,
    pub title: Option<String>,
    pub body: Option<String>,
    pub base_branch: Option<String>,
    pub head_branch: Option<String>,
    pub base_sha: Option<String>,
    pub head_sha: Option<String>,
    pub merge_commit_sha: Option<String>,
}

/// A task in a list, for the host.
#[derive(Debug, Clone, PartialEq, Eq)]
pub struct TaskSummaryNapi {
    pub id: String,
    pub title: String,
    pub status: String,
    pub updated_at: String,
    pub created_at: Option<String>,
    pub has_generated_title: Option<bool>,
    pub environment_id: Option<String>,
    pub environment_label: Option<String>,
    pub summary: DiffSummaryNapi,
    pub is_review: bool,
    pub attempt_total: Option<u32>,
    pub archived: Option<bool>,
    pub has_unread_turn: Option<bool>,
    pub branch_name: Option<String>,
    pub turn_id: Option<String>,
    pub turn_status: Option<String>,
    pub sibling_turn_ids: Option<Vec<String>>,
    pub intent: Option<String>,
    pub initial_intent: Option<String>,
    pub fix_task_id: Option<String>,
    pub pull_requests: Option<Vec<PullRequestNapi>>,
}

/// What the host passes to create a task.
#[derive(Debug, Clone, PartialEq, Eq)]
pub struct CreateTaskOptionsNapi {
    pub environment_id: String,
    pub prompt: String,
    pub git_ref: String,
    pub qa_mode: Option<bool>,
    pub best_of_n: Option<u32>,
}

/// What the backend is asked when a task is created.
#[derive(Debug, Clone, PartialEq, Eq)]
pub struct CreateTaskRequest {
    pub environment_id: String,
    pub prompt: String,
    pub git_ref: String,
    pub qa_mode: bool,
    pub best_of_n: usize,
}

/// The outcome of applying a diff, for the host.
#[derive(Debug, Clone, PartialEq, Eq)]
pub struct ApplyOutcomeNapi {
    pub applied: bool,
    pub status: String,
    pub message: String,
    pub skipped_paths: Vec<String>,
    pub conflict_paths: Vec<String>,
}

/// The texts of a task, for the host.
#[derive(Debug, Clone, PartialEq, Eq)]
pub struct TaskTextNapi {
    pub prompt: Option<String>,
    pub messages: Vec<String>,
    pub turn_id: Option<String>,
    pub sibling_turn_ids: Vec<String>,
    pub attempt_placement: Option<u32>,
    pub attempt_status: Option<String>,
}

/// One attempt at a turn, for the host.
#[derive(Debug, Clone, PartialEq, Eq)]
pub struct TurnAttemptNapi {
    pub turn_id: String,
    pub attempt_placement: Option<u32>,
    pub created_at: Option<String>,
    pub status: String,
    pub diff: Option<String>,
    pub messages: Vec<String>,
}

/// The text for a task status.
pub open spec fn task_status_text(status: TaskStatus) -> Seq<char> {
    match status {
        TaskStatus::Pending => "pending"@,
        TaskStatus::Ready => "ready"@,
        TaskStatus::Applied => "applied"@,
        TaskStatus::Error => "error"@,
    }
}

/// The text for an apply status.
pub open spec fn apply_status_text(status: ApplyStatus) -> Seq<char> {
    match status {
        ApplyStatus::Success => "success"@,
        ApplyStatus::Partial => "partial"@,
        ApplyStatus::Error => "error"@,
    }
}

/// The text for an attempt status.
pub open spec fn attempt_status_text(status: AttemptStatus) -> Seq<char> {
    match status {
        AttemptStatus::Pending => "pending"@,
        AttemptStatus::InProgress => "in-progress"@,
        AttemptStatus::Completed => "completed"@,
        AttemptStatus::Failed => "failed"@,
        AttemptStatus::Cancelled => "cancelled"@,
        AttemptStatus::Unknown => "unknown"@,
    }
}

/// The count handed to the host for a count of the backend: its low 32 bits.
pub open spec fn host_count(count: Option<usize>) -> Option<u32> {
    match count {
        Some(n) => Some(n as u32),
        None => None,
    }
}

/// The placement handed to the host for a placement of the backend: its low
/// 32 bits.
pub open spec fn host_placement(placement: Option<i64>) -> Option<u32> {
    match placement {
        Some(n) => Some(n as u32),
        None => None,
    }
}

/// A task status as text.
pub fn status_to_string(status: &TaskStatus) -> (text: String)
    ensures
        text@ == task_status_text(*status),
{
    match status {
        TaskStatus::Pending => "pending".to_owned(),
        TaskStatus::Ready => "ready".to_owned(),
        TaskStatus::Applied => "applied".to_owned(),
        TaskStatus::Error => "error".to_owned(),
    }
}

/// An apply status as text.
pub fn apply_status_to_string(status: &ApplyStatus) -> (text: String)
    ensures
        text@ == apply_status_text(*status),
{
    match status {
        ApplyStatus::Success => "success".to_owned(),
        ApplyStatus::Partial => "partial".to_owned(),
        ApplyStatus::Error => "error".to_owned(),
    }
}

/// An attempt status as text.
pub fn attempt_status_to_string(status: &AttemptStatus) -> (text: String)
    ensures
        text@ == attempt_status_text(*status),
{
    match status {
        AttemptStatus::Pending => "pending".to_owned(),
        AttemptStatus::InProgress => "in-progress".to_owned(),
        AttemptStatus::Completed => "completed".to_owned(),
        AttemptStatus::Failed => "failed".to_owned(),
        AttemptStatus::Cancelled => "cancelled".to_owned(),
        AttemptStatus::Unknown => "unknown".to_owned(),
    }
}

/// The low 32 bits of a count.
fn count_to_host(count: Option<usize>) -> (out: Option<u32>)
    ensures
        out == host_count(count),
{
    match count {
        Some(n) => Some(#[verifier::truncate] (n as u32)),
        None => None,
    }
}

/// The low 32 bits of a placement.
fn placement_to_host(placement: Option<i64>) -> (out: Option<u32>)
    ensures
        out == host_placement(placement),
{
    match placement {
        Some(n) => Some(#[verifier::truncate] (n as u32)),
        None => None,
    }
}

/// The record of a task for the host. What the backend's list does not
/// report is left unset.
pub fn to_task_summary_napi(task: TaskSummary) -> (out: TaskSummaryNapi)
    ensures
        out.id == task.id,
        out.title == task.title,
        out.status@ == task_status_text(task.status),
        out.updated_at == task.updated_at,
        out.environment_id == task.environment_id,
        out.environment_label == task.environment_label,
        out.summary.files_changed == task.summary.files_changed as u32,
        out.summary.lines_added == task.summary.lines_added as u32,
        out.summary.lines_removed == task.summary.lines_removed as u32,
        out.is_review == task.is_review,
        out.attempt_total == host_count(task.attempt_total),
        out.created_at is None,
        out.has_generated_title is None,
        out.archived is None,
        out.has_unread_turn is None,
        out.branch_name is None,
        out.turn_id is None,
        out.turn_status is None,
        out.sibling_turn_ids is None,
        out.intent is None,
        out.initial_intent is None,
        out.fix_task_id is None,
        out.pull_requests is None,
{
    TaskSummaryNapi {
        id: task.id,
        title: task.title,
        status: status_to_string(&task.status),
        updated_at: task.updated_at,
        created_at: None,
        has_generated_title: None,
        environment_id: task.environment_id,
        environment_label: task.environment_label,
        summary: DiffSummaryNapi {
            files_changed: #[verifier::truncate] (task.summary.files_changed as u32),
            lines_added: #[verifier::truncate] (task.summary.lines_added as u32),
            lines_removed: #[verifier::truncate] (task.summary.lines_removed as u32),
        },
        is_review: task.is_review,
        attempt_total: count_to_host(task.attempt_total),
        archived: None,
        has_unread_turn: None,
        branch_name: None,
        turn_id: None,
        turn_status: None,
        sibling_turn_ids: None,
        intent: None,
        initial_intent: None,
        fix_task_id: None,
        pull_requests: None,
    }
}

/// The outcome of applying a diff, for the host.
pub fn to_apply_outcome_napi(outcome: ApplyOutcome) -> (out: ApplyOutcomeNapi)
    ensures
        out.applied == outcome.applied,
        out.status@ == apply_status_text(outcome.status),
        out.message == outcome.message,
        out.skipped_paths == outcome.skipped_paths,
        out.conflict_paths == outcome.conflict_paths,
{
    ApplyOutcomeNapi {
        applied: outcome.applied,
        status: apply_status_to_string(&outcome.status),
        message: outcome.message,
        skipped_paths: outcome.skipped_paths,
        conflict_paths: outcome.conflict_paths,
    }
}

/// The texts of a task, for the host.
pub fn to_task_text_napi(text: TaskText) -> (out: TaskTextNapi)
    ensures
        out.prompt == text.prompt,
        out.messages == text.messages,
        out.turn_id == text.turn_id,
        out.sibling_turn_ids == text.sibling_turn_ids,
        out.attempt_placement == host_placement(text.attempt_placement),
        out.attempt_status.deep_view() == Some(attempt_status_text(text.attempt_status)),
{
    TaskTextNapi {
        prompt: text.prompt,
        messages: text.messages,
        turn_id: text.turn_id,
        sibling_turn_ids: text.sibling_turn_ids,
        attempt_placement: placement_to_host(text.attempt_placement),
        attempt_status: Some(attempt_status_to_string(&text.attempt_status)),
    }
}

/// One attempt at a turn, for the host.
pub fn to_turn_attempt_napi(attempt: TurnAttempt) -> (out: TurnAttemptNapi)
    ensures
        out.turn_id == attempt.turn_id,
        out.attempt_placement == host_placement(attempt.attempt_placement),
        out.created_at == attempt.created_at,
        out.status@ == attempt_status_text(attempt.status),
        out.diff == attempt.diff,
        out.messages == attempt.messages,
{
    TurnAttemptNapi {
        turn_id: attempt.turn_id,
        attempt_placement: placement_to_host(attempt.attempt_placement),
        created_at: attempt.created_at,
        status: attempt_status_to_string(&attempt.status),
        diff: attempt.diff,
        messages: attempt.messages,
    }
}

/// What to ask of the backend for the host's options: a task is not in QA
/// mode and is attempted once unless the options say otherwise.
pub fn create_task_request(options: CreateTaskOptionsNapi) -> (request: CreateTaskRequest)
    ensures
        request.environment_id == options.environment_id,
        request.prompt == options.prompt,
        request.git_ref == options.git_ref,
        request.qa_mode == (options.qa_mode == Some(true)),
        request.best_of_n == match options.best_of_n {
            Some(n) => n as usize,
            None => 1usize,
        },
{
    CreateTaskRequest {
        environment_id: options.environment_id,
        prompt: options.prompt,
        git_ref: options.git_ref,
        qa_mode: match options.qa_mode {
            Some(flag) => flag,
            None => false,
        },
        best_of_n: match options.best_of_n {
            Some(n) => n as usize,
            None => 1,
        },
    }
}

} // verus!
