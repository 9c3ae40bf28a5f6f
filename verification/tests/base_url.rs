use codex_napi::config::normalize_base_url;

#[test]
fn normalize_strips_trailing_slashes() {
    assert_eq!(normalize_base_url("https://example.com/api///"), "https://example.com/api");
}

#[test]
fn normalize_appends_backend_segment_for_chat_frontends() {
    assert_eq!(normalize_base_url("https://chatgpt.com/"), "https://chatgpt.com/backend-api");
    assert_eq!(
        normalize_base_url("https://chat.openai.com"),
        "https://chat.openai.com/backend-api"
    );
}

#[test]
fn normalize_keeps_existing_backend_segment() {
    assert_eq!(
        normalize_base_url("https://chatgpt.com/backend-api/"),
        "https://chatgpt.com/backend-api"
    );
}

#[test]
fn lookalike_host_is_no_chat_frontend() {
    assert_eq!(
        normalize_base_url("https://chatgpt.com.example.org"),
        "https://chatgpt.com.example.org"
    );
    assert_eq!(
        normalize_base_url("https://chat.openai.com.evil.test/"),
        "https://chat.openai.com.evil.test"
    );
    assert_eq!(normalize_base_url("https://chatgpt.community"), "https://chatgpt.community");
    assert_eq!(normalize_base_url("https://user@chatgpt.com"), "https://user@chatgpt.com");
}

#[test]
fn host_ends_at_port_path_query_or_fragment() {
    assert_eq!(
        normalize_base_url("https://chatgpt.com:443"),
        "https://chatgpt.com:443/backend-api"
    );
    assert_eq!(
        normalize_base_url("https://chatgpt.com/some/path/"),
        "https://chatgpt.com/some/path/backend-api"
    );
    assert_eq!(
        normalize_base_url("https://chat.openai.com:8443/backend-api/v1"),
        "https://chat.openai.com:8443/backend-api/v1"
    );
}

#[test]
fn backend_segment_counts_in_the_path_only() {
    assert_eq!(
        normalize_base_url("https://chatgpt.com/x?next=/backend-api"),
        "https://chatgpt.com/x?next=/backend-api/backend-api"
    );
    assert_eq!(
        normalize_base_url("https://chatgpt.com/backend-api?x=1"),
        "https://chatgpt.com/backend-api?x=1"
    );
}

#[test]
fn other_schemes_and_hosts_get_nothing_appended() {
    assert_eq!(normalize_base_url("http://chatgpt.com"), "http://chatgpt.com");
    assert_eq!(normalize_base_url("chatgpt.com"), "chatgpt.com");
    assert_eq!(normalize_base_url("https://api.openai.com/"), "https://api.openai.com");
    assert_eq!(normalize_base_url(""), "");
    assert_eq!(normalize_base_url("///"), "");
}
