use codex_napi::config::CloudTasksConfig;
use codex_napi::credential::{Credential, CredentialSource};
use codex_napi::headers::{build_chatgpt_headers, Header};

fn config(user_agent: Option<&str>) -> CloudTasksConfig {
    CloudTasksConfig {
        base_url: String::new(),
        bearer_token: None,
        chatgpt_account_id: None,
        user_agent: user_agent.map(|s| s.to_string()),
        mock: None,
        codex_home: None,
    }
}

fn header(name: &str, value: &str) -> Header {
    Header { name: name.to_string(), value: value.to_string() }
}

fn credential(token: &str, account: Option<&str>) -> Option<Credential> {
    Some(Credential {
        bearer_token: token.to_string(),
        account_id: account.map(|s| s.to_string()),
        source: CredentialSource::AuthFile,
    })
}

#[test]
fn default_user_agent_without_credential() {
    assert_eq!(build_chatgpt_headers(&config(None), &None), vec![header("user-agent", "codex-ts-sdk")]);
}

#[test]
fn configured_user_agent_is_used_when_it_can_be_carried() {
    assert_eq!(build_chatgpt_headers(&config(Some("my-agent/1.0")), &None), vec![header("user-agent", "my-agent/1.0")]);
    assert_eq!(build_chatgpt_headers(&config(Some("bad\nagent")), &None), vec![header("user-agent", "codex-ts-sdk")]);
    assert_eq!(build_chatgpt_headers(&config(Some("del\u{7f}")), &None), vec![header("user-agent", "codex-ts-sdk")]);
    assert_eq!(build_chatgpt_headers(&config(Some("tab\tok \u{e9}")), &None), vec![header("user-agent", "tab\tok \u{e9}")]);
}

#[test]
fn credential_gives_authorization_and_account() {
    assert_eq!(
        build_chatgpt_headers(&config(None), &credential("tok", Some("acct"))),
        vec![
            header("user-agent", "codex-ts-sdk"),
            header("authorization", "Bearer tok"),
            header("chatgpt-account-id", "acct"),
        ]
    );
    assert_eq!(
        build_chatgpt_headers(&config(None), &credential("tok", None)),
        vec![header("user-agent", "codex-ts-sdk"), header("authorization", "Bearer tok")]
    );
}

#[test]
fn values_that_cannot_be_carried_are_left_out() {
    assert_eq!(
        build_chatgpt_headers(&config(None), &credential("to\rk", Some("acct"))),
        vec![header("user-agent", "codex-ts-sdk"), header("chatgpt-account-id", "acct")]
    );
    assert_eq!(
        build_chatgpt_headers(&config(None), &credential("tok", Some("ac\u{0}ct"))),
        vec![header("user-agent", "codex-ts-sdk"), header("authorization", "Bearer tok")]
    );
}
