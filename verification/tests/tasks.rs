use codex_napi::backend::{create_backend, wants_mock, BackendPlan, HttpBackend};
use codex_napi::config::CloudTasksConfig;
use codex_napi::credential::{Credential, CredentialSource};
use codex_napi::tasks::{
    apply_status_to_string, attempt_status_to_string, create_task_request, status_to_string,
    to_apply_outcome_napi, to_task_summary_napi, to_task_text_napi, to_turn_attempt_napi,
    ApplyOutcome, ApplyOutcomeNapi, ApplyStatus, AttemptStatus, CreateTaskOptionsNapi,
    CreateTaskRequest, DiffSummary, DiffSummaryNapi, TaskStatus, TaskSummary, TaskText,
    TaskTextNapi, TurnAttempt, TurnAttemptNapi,
};

#[test]
fn statuses_have_their_texts() {
    assert_eq!(status_to_string(&TaskStatus::Pending), "pending");
    assert_eq!(status_to_string(&TaskStatus::Ready), "ready");
    assert_eq!(status_to_string(&TaskStatus::Applied), "applied");
    assert_eq!(status_to_string(&TaskStatus::Error), "error");
    assert_eq!(apply_status_to_string(&ApplyStatus::Success), "success");
    assert_eq!(apply_status_to_string(&ApplyStatus::Partial), "partial");
    assert_eq!(apply_status_to_string(&ApplyStatus::Error), "error");
    assert_eq!(attempt_status_to_string(&AttemptStatus::Pending), "pending");
    assert_eq!(attempt_status_to_string(&AttemptStatus::InProgress), "in-progress");
    assert_eq!(attempt_status_to_string(&AttemptStatus::Completed), "completed");
    assert_eq!(attempt_status_to_string(&AttemptStatus::Failed), "failed");
    assert_eq!(attempt_status_to_string(&AttemptStatus::Cancelled), "cancelled");
    assert_eq!(attempt_status_to_string(&AttemptStatus::Unknown), "unknown");
}

#[test]
fn task_summary_is_mapped_field_by_field() {
    let out = to_task_summary_napi(TaskSummary {
        id: "t1".to_string(),
        title: "Title".to_string(),
        status: TaskStatus::Ready,
        updated_at: "2024-01-02T03:04:05+00:00".to_string(),
        environment_id: Some("env".to_string()),
        environment_label: None,
        summary: DiffSummary { files_changed: 3, lines_added: 10, lines_removed: 2 },
        is_review: true,
        attempt_total: Some(4),
    });
    assert_eq!(out.id, "t1");
    assert_eq!(out.title, "Title");
    assert_eq!(out.status, "ready");
    assert_eq!(out.updated_at, "2024-01-02T03:04:05+00:00");
    assert_eq!(out.environment_id, Some("env".to_string()));
    assert_eq!(out.environment_label, None);
    assert_eq!(out.summary, DiffSummaryNapi { files_changed: 3, lines_added: 10, lines_removed: 2 });
    assert!(out.is_review);
    assert_eq!(out.attempt_total, Some(4));
    assert_eq!(out.created_at, None);
    assert_eq!(out.pull_requests, None);
    assert_eq!(out.sibling_turn_ids, None);
}

#[test]
fn counts_keep_their_low_32_bits() {
    let out = to_task_summary_napi(TaskSummary {
        id: String::new(),
        title: String::new(),
        status: TaskStatus::Pending,
        updated_at: String::new(),
        environment_id: None,
        environment_label: None,
        summary: DiffSummary { files_changed: u32::MAX as usize, lines_added: 0, lines_removed: 1 },
        is_review: false,
        attempt_total: None,
    });
    assert_eq!(out.summary.files_changed, u32::MAX);
    assert_eq!(out.attempt_total, None);
    let text = to_task_text_napi(TaskText {
        prompt: None,
        messages: Vec::new(),
        turn_id: None,
        sibling_turn_ids: Vec::new(),
        attempt_placement: Some(-1),
        attempt_status: AttemptStatus::Unknown,
    });
    assert_eq!(text.attempt_placement, Some(u32::MAX));
    let wide = to_turn_attempt_napi(TurnAttempt {
        turn_id: String::new(),
        attempt_placement: Some((1i64 << 32) + 7),
        created_at: None,
        status: AttemptStatus::Failed,
        diff: None,
        messages: Vec::new(),
    });
    assert_eq!(wide.attempt_placement, Some(7));
}

#[test]
fn outcome_text_and_attempt_are_mapped() {
    assert_eq!(
        to_apply_outcome_napi(ApplyOutcome {
            applied: true,
            status: ApplyStatus::Partial,
            message: "m".to_string(),
            skipped_paths: vec!["a".to_string()],
            conflict_paths: vec!["b".to_string(), "c".to_string()],
        }),
        ApplyOutcomeNapi {
            applied: true,
            status: "partial".to_string(),
            message: "m".to_string(),
            skipped_paths: vec!["a".to_string()],
            conflict_paths: vec!["b".to_string(), "c".to_string()],
        }
    );
    assert_eq!(
        to_task_text_napi(TaskText {
            prompt: Some("p".to_string()),
            messages: vec!["one".to_string()],
            turn_id: Some("turn".to_string()),
            sibling_turn_ids: vec!["s".to_string()],
            attempt_placement: Some(2),
            attempt_status: AttemptStatus::InProgress,
        }),
        TaskTextNapi {
            prompt: Some("p".to_string()),
            messages: vec!["one".to_string()],
            turn_id: Some("turn".to_string()),
            sibling_turn_ids: vec!["s".to_string()],
            attempt_placement: Some(2),
            attempt_status: Some("in-progress".to_string()),
        }
    );
    assert_eq!(
        to_turn_attempt_napi(TurnAttempt {
            turn_id: "t".to_string(),
            attempt_placement: None,
            created_at: Some("2024-01-01T00:00:00+00:00".to_string()),
            status: AttemptStatus::Completed,
            diff: Some("diff".to_string()),
            messages: vec!["x".to_string()],
        }),
        TurnAttemptNapi {
            turn_id: "t".to_string(),
            attempt_placement: None,
            created_at: Some("2024-01-01T00:00:00+00:00".to_string()),
            status: "completed".to_string(),
            diff: Some("diff".to_string()),
            messages: vec!["x".to_string()],
        }
    );
}

#[test]
fn task_request_defaults() {
    let options = CreateTaskOptionsNapi {
        environment_id: "e".to_string(),
        prompt: "p".to_string(),
        git_ref: "main".to_string(),
        qa_mode: None,
        best_of_n: None,
    };
    assert_eq!(
        create_task_request(options.clone()),
        CreateTaskRequest {
            environment_id: "e".to_string(),
            prompt: "p".to_string(),
            git_ref: "main".to_string(),
            qa_mode: false,
            best_of_n: 1,
        }
    );
    let set = create_task_request(CreateTaskOptionsNapi { qa_mode: Some(true), best_of_n: Some(4), ..options });
    assert!(set.qa_mode);
    assert_eq!(set.best_of_n, 4);
}

fn config(mock: Option<bool>) -> CloudTasksConfig {
    CloudTasksConfig {
        base_url: "https://example.com/".to_string(),
        bearer_token: None,
        chatgpt_account_id: Some("ignored".to_string()),
        user_agent: Some("agent".to_string()),
        mock,
        codex_home: None,
    }
}

#[test]
fn mock_backend_needs_nothing_else() {
    assert!(wants_mock(&config(Some(true))));
    assert!(!wants_mock(&config(Some(false))));
    assert!(!wants_mock(&config(None)));
    let credential = Some(Credential {
        bearer_token: "t".to_string(),
        account_id: None,
        source: CredentialSource::AuthFile,
    });
    assert_eq!(create_backend(config(Some(true)), credential), BackendPlan::Mock);
}

#[test]
fn http_backend_carries_credential_and_user_agent() {
    let credential = Some(Credential {
        bearer_token: "t".to_string(),
        account_id: Some("a".to_string()),
        source: CredentialSource::ManagerFallback,
    });
    assert_eq!(
        create_backend(config(None), credential),
        BackendPlan::Http(HttpBackend {
            base_url: "https://example.com/".to_string(),
            bearer_token: Some("t".to_string()),
            chatgpt_account_id: Some("a".to_string()),
            user_agent: Some("agent".to_string()),
        })
    );
    assert_eq!(
        create_backend(config(Some(false)), None),
        BackendPlan::Http(HttpBackend {
            base_url: "https://example.com/".to_string(),
            bearer_token: None,
            chatgpt_account_id: None,
            user_agent: Some("agent".to_string()),
        })
    );
}
