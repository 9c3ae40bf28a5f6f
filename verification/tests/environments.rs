use codex_napi::discovery::{
    aggregate_environments, environment_queries, EnvironmentQuery, QueryAnswer,
};
use codex_napi::environments::{
    merge_environment, merge_environments, CodeEnvironment, EnvironmentRowNapi,
};
use codex_napi::row_order::{before_by_keys, sort_environment_rows, stands_before};

fn env(id: &str, label: Option<&str>, pinned: Option<bool>) -> CodeEnvironment {
    CodeEnvironment { id: id.to_string(), label: label.map(|s| s.to_string()), is_pinned: pinned }
}

fn row(id: &str, label: Option<&str>, pinned: Option<bool>, hint: Option<&str>) -> EnvironmentRowNapi {
    EnvironmentRowNapi {
        id: id.to_string(),
        label: label.map(|s| s.to_string()),
        is_pinned: pinned,
        repo_hints: hint.map(|s| s.to_string()),
    }
}

fn ids(rows: &[EnvironmentRowNapi]) -> Vec<&str> {
    rows.iter().map(|r| r.id.as_str()).collect()
}

#[test]
fn pinned_is_the_disjunction_of_both_sources() {
    let mut rows = Vec::new();
    merge_environment(&mut rows, env("e", None, Some(false)), &Some("o/r".to_string()));
    merge_environment(&mut rows, env("e", None, Some(true)), &None);
    assert_eq!(rows, vec![row("e", None, Some(true), Some("o/r"))]);

    let mut rows = Vec::new();
    merge_environment(&mut rows, env("e", None, Some(true)), &None);
    merge_environment(&mut rows, env("e", None, Some(false)), &None);
    assert_eq!(rows[0].is_pinned, Some(true));
}

#[test]
fn pin_that_says_nothing_changes_nothing() {
    let mut rows = Vec::new();
    merge_environment(&mut rows, env("e", None, None), &None);
    assert_eq!(rows[0].is_pinned, None);
    merge_environment(&mut rows, env("e", None, None), &None);
    assert_eq!(rows[0].is_pinned, None);
    merge_environment(&mut rows, env("e", None, Some(false)), &None);
    assert_eq!(rows[0].is_pinned, Some(false));
    merge_environment(&mut rows, env("e", None, Some(true)), &None);
    merge_environment(&mut rows, env("e", None, None), &None);
    assert_eq!(rows[0].is_pinned, Some(true));
}

#[test]
fn label_is_first_write_wins() {
    let mut rows = Vec::new();
    merge_environment(&mut rows, env("e", None, None), &None);
    merge_environment(&mut rows, env("e", Some("first"), None), &None);
    merge_environment(&mut rows, env("e", Some("second"), None), &None);
    assert_eq!(rows[0].label, Some("first".to_string()));
}

#[test]
fn repo_hint_is_never_overwritten() {
    let mut rows = Vec::new();
    merge_environment(&mut rows, env("a", None, None), &Some("o/one".to_string()));
    merge_environment(&mut rows, env("a", None, None), &Some("o/two".to_string()));
    merge_environment(&mut rows, env("a", None, None), &None);
    merge_environment(&mut rows, env("b", None, None), &None);
    merge_environment(&mut rows, env("b", None, None), &Some("o/late".to_string()));
    assert_eq!(rows[0].repo_hints, Some("o/one".to_string()));
    assert_eq!(rows[1].repo_hints, None);
    assert_eq!(rows.len(), 2);
}

#[test]
fn list_is_merged_first_to_last() {
    let mut rows = vec![row("x", Some("kept"), None, None)];
    merge_environments(
        &mut rows,
        vec![env("y", Some("Y"), None), env("x", Some("late"), Some(true)), env("y", Some("Z"), Some(false))],
        &Some("o/r".to_string()),
    );
    assert_eq!(
        rows,
        vec![row("x", Some("kept"), Some(true), None), row("y", Some("Y"), Some(false), Some("o/r"))]
    );
}

#[test]
fn rows_sort_pinned_then_label_then_id() {
    let rows = vec![
        row("b", Some("Zed"), Some(false), None),
        row("a", Some("alpha"), Some(true), None),
        row("c", Some("Alpha"), Some(false), None),
    ];
    let sorted = sort_environment_rows(rows);
    assert_eq!(ids(&sorted), vec!["a", "c", "b"]);
}

#[test]
fn id_breaks_ties_and_missing_label_sorts_as_empty() {
    let rows = vec![
        row("m", Some("same"), None, None),
        row("k", Some("SAME"), Some(false), None),
        row("z", None, None, None),
        row("y", Some(""), None, None),
    ];
    let sorted = sort_environment_rows(rows);
    assert_eq!(ids(&sorted), vec!["y", "z", "k", "m"]);
}

#[test]
fn order_compares_labels_without_case() {
    assert!(stands_before(&row("2", Some("apple"), None, None), &row("1", Some("BANANA"), None, None)));
    assert!(!stands_before(&row("1", Some("BANANA"), None, None), &row("2", Some("apple"), None, None)));
    assert!(stands_before(&row("9", None, Some(true), None), &row("1", Some("a"), Some(false), None)));
    assert!(!stands_before(&row("1", Some("a"), None, None), &row("1", Some("A"), None, None)));
}

#[test]
fn rows_that_the_order_does_not_tell_apart_keep_their_order() {
    let rows = vec![
        row("same", Some("Label"), None, Some("first")),
        row("other", Some("a"), None, None),
        row("same", Some("LABEL"), Some(false), Some("second")),
        row("same", Some("label"), None, Some("third")),
    ];
    let sorted = sort_environment_rows(rows);
    let hints: Vec<Option<&str>> = sorted.iter().map(|r| r.repo_hints.as_deref()).collect();
    assert_eq!(hints, vec![None, Some("first"), Some("second"), Some("third")]);
}

#[test]
fn sorting_keeps_every_row() {
    let rows = vec![
        row("3", Some("c"), None, Some("h")),
        row("1", Some("a"), Some(true), None),
        row("2", Some("b"), None, None),
        row("1", Some("a"), Some(true), None),
    ];
    let sorted = sort_environment_rows(rows.clone());
    assert_eq!(sorted.len(), 4);
    for r in &rows {
        assert_eq!(
            sorted.iter().filter(|s| *s == r).count(),
            rows.iter().filter(|s| *s == r).count()
        );
    }
    assert_eq!(sort_environment_rows(Vec::new()), Vec::new());
}

#[test]
fn queries_follow_the_remotes_and_end_with_the_global_one() {
    let origins = vec![
        "git@github.com:openai/codex.git".to_string(),
        "https://gitlab.com/other/thing".to_string(),
    ];
    let queries = environment_queries("https://example.com/", &origins);
    assert_eq!(
        queries,
        vec![
            EnvironmentQuery {
                url: "https://example.com/api/codex/environments/by-repo/github/openai/codex".to_string(),
                repo_hint: Some("openai/codex".to_string()),
            },
            EnvironmentQuery {
                url: "https://example.com/api/codex/environments".to_string(),
                repo_hint: None,
            },
        ]
    );
}

#[test]
fn queries_use_the_backend_paths_for_chat_frontends() {
    let origins = vec!["https://github.com/o/r".to_string()];
    let queries = environment_queries("https://chatgpt.com", &origins);
    assert_eq!(
        queries,
        vec![
            EnvironmentQuery {
                url: "https://chatgpt.com/backend-api/wham/environments/by-repo/github/o/r".to_string(),
                repo_hint: Some("o/r".to_string()),
            },
            EnvironmentQuery {
                url: "https://chatgpt.com/backend-api/wham/environments".to_string(),
                repo_hint: None,
            },
        ]
    );
    let none = environment_queries("https://chatgpt.com", &Vec::new());
    assert_eq!(none.len(), 1);
}

#[test]
fn end_to_end_two_remotes_and_a_global_source() {
    let origins = vec![
        "git@github.com:openai/codex.git".to_string(),
        "https://example.org/not/github".to_string(),
    ];
    let queries = environment_queries("https://example.com", &origins);
    assert_eq!(queries.len(), 2);
    let answers = vec![
        QueryAnswer {
            repo_hint: queries[0].repo_hint.clone(),
            rows: Some(vec![env("shared", Some("Shared"), Some(false))]),
        },
        QueryAnswer {
            repo_hint: queries[1].repo_hint.clone(),
            rows: Some(vec![env("shared", Some("Other"), Some(true)), env("only-global", Some("Alpha"), None)]),
        },
    ];
    let rows = aggregate_environments(answers);
    assert_eq!(
        rows,
        vec![
            row("shared", Some("Shared"), Some(true), Some("openai/codex")),
            row("only-global", Some("Alpha"), None, None),
        ]
    );
}

#[test]
fn failed_queries_are_skipped() {
    let answers = vec![
        QueryAnswer { repo_hint: Some("o/r".to_string()), rows: None },
        QueryAnswer { repo_hint: None, rows: Some(vec![env("b", None, None), env("a", None, None)]) },
    ];
    assert_eq!(ids(&aggregate_environments(answers)), vec!["a", "b"]);
    let all_failed = vec![
        QueryAnswer { repo_hint: Some("o/r".to_string()), rows: None },
        QueryAnswer { repo_hint: None, rows: None },
    ];
    assert_eq!(aggregate_environments(all_failed), Vec::new());
    assert_eq!(aggregate_environments(Vec::new()), Vec::new());
}

#[test]
fn keys_decide_in_turn() {
    let chars = |s: &str| -> Vec<char> { s.chars().collect() };
    let before = |pa: bool, la: &str, ia: &str, pb: bool, lb: &str, ib: &str| {
        before_by_keys(pa, &chars(la), &chars(ia), pb, &chars(lb), &chars(ib))
    };
    // Pinned first, whatever label and id say.
    assert!(before(true, "zed", "z", false, "alpha", "a"));
    assert!(!before(false, "alpha", "a", true, "zed", "z"));
    // Then the label.
    assert!(before(false, "alpha", "c", false, "zed", "b"));
    assert!(!before(true, "zed", "b", true, "alpha", "c"));
    // Then the id.
    assert!(before(false, "alpha", "a", false, "alpha", "c"));
    assert!(!before(false, "alpha", "c", false, "alpha", "a"));
    assert!(!before(true, "same", "id", true, "same", "id"));
    // Labels are taken as given: an upper-case letter comes first.
    assert!(before(false, "Zed", "b", false, "alpha", "a"));
}
