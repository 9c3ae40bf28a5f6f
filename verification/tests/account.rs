use base64::Engine;
use codex_napi::account::{
    account_id_claim, account_id_from_payload, extract_chatgpt_account_id, token_payload,
};

fn token_for(payload: &str) -> String {
    let body = base64::engine::general_purpose::URL_SAFE_NO_PAD.encode(payload.as_bytes());
    format!("header.{}.signature", body)
}

#[test]
fn account_id_is_read_from_the_nested_claim() {
    let token =
        token_for("{\"https://api.openai.com/auth\":{\"chatgpt_account_id\":\"acct-123\"}}");
    assert_eq!(extract_chatgpt_account_id(&token), Some("acct-123".to_string()));
}

#[test]
fn account_id_survives_other_claims() {
    let token = token_for(
        "{\"sub\":\"u\",\"exp\":1700000000,\"https://api.openai.com/auth\":{\"plan\":\"pro\",\"chatgpt_account_id\":\"a b\"}}",
    );
    assert_eq!(extract_chatgpt_account_id(&token), Some("a b".to_string()));
}

#[test]
fn wrong_segment_count_gives_none() {
    let good = token_for("{\"https://api.openai.com/auth\":{\"chatgpt_account_id\":\"x\"}}");
    assert_eq!(extract_chatgpt_account_id("only-one"), None);
    assert_eq!(extract_chatgpt_account_id("two.parts"), None);
    assert_eq!(extract_chatgpt_account_id(""), None);
    assert_eq!(extract_chatgpt_account_id(&format!("{}.extra", good)), None);
}

#[test]
fn empty_segments_give_none() {
    let body = base64::engine::general_purpose::URL_SAFE_NO_PAD
        .encode("{\"https://api.openai.com/auth\":{\"chatgpt_account_id\":\"x\"}}");
    assert_eq!(extract_chatgpt_account_id(&format!(".{}.sig", body)), None);
    assert_eq!(extract_chatgpt_account_id(&format!("head.{}.", body)), None);
    assert_eq!(extract_chatgpt_account_id("head..sig"), None);
}

#[test]
fn invalid_base64_gives_none() {
    assert_eq!(extract_chatgpt_account_id("head.!!!not-base64!!!.sig"), None);
    // Padding is not accepted.
    let padded = base64::engine::general_purpose::URL_SAFE.encode("{\"a\":1}");
    assert!(padded.ends_with('='));
    assert_eq!(extract_chatgpt_account_id(&format!("h.{}.s", padded)), None);
}

#[test]
fn invalid_json_gives_none() {
    assert_eq!(extract_chatgpt_account_id(&token_for("not json")), None);
    assert_eq!(extract_chatgpt_account_id(&token_for("{\"unterminated\":")), None);
}

#[test]
fn missing_or_non_string_claim_gives_none() {
    assert_eq!(extract_chatgpt_account_id(&token_for("{}")), None);
    assert_eq!(extract_chatgpt_account_id(&token_for("[1,2,3]")), None);
    assert_eq!(
        extract_chatgpt_account_id(&token_for("{\"https://api.openai.com/auth\":\"flat\"}")),
        None
    );
    assert_eq!(
        extract_chatgpt_account_id(&token_for("{\"https://api.openai.com/auth\":{}}")),
        None
    );
    assert_eq!(
        extract_chatgpt_account_id(&token_for(
            "{\"https://api.openai.com/auth\":{\"chatgpt_account_id\":42}}"
        )),
        None
    );
    assert_eq!(
        extract_chatgpt_account_id(&token_for(
            "{\"https://api.openai.com/auth\":{\"chatgpt_account_id\":null}}"
        )),
        None
    );
}

#[test]
fn payload_segment_is_the_middle_one() {
    assert_eq!(token_payload("aa.bb.cc"), Some("bb".to_string()));
    assert_eq!(token_payload("aa.bb"), None);
    assert_eq!(token_payload("aa.bb.cc.dd"), None);
    assert_eq!(token_payload("aa..cc"), None);
    assert_eq!(token_payload("h\u{e9}.p\u{e9}p.s"), Some("p\u{e9}p".to_string()));
}

#[test]
fn decoded_payload_is_parsed_not_echoed() {
    // The payload is decoded before it is parsed: the encoded text itself
    // is no JSON, the decoded one is.
    let id = account_id_from_payload(
        b"{\"https://api.openai.com/auth\":{\"chatgpt_account_id\":\"acct\"}}",
    );
    assert_eq!(id, Some("acct".to_string()));
    assert_eq!(account_id_from_payload(b"e30"), None);
    assert_eq!(extract_chatgpt_account_id("h.e30.s"), None);
}

#[test]
fn claim_is_read_from_a_parsed_document() {
    let mut inner = serde_json::Map::new();
    inner.insert(
        "chatgpt_account_id".to_string(),
        serde_json::Value::String("from-value".to_string()),
    );
    let mut outer = serde_json::Map::new();
    outer.insert("https://api.openai.com/auth".to_string(), serde_json::Value::Object(inner));
    assert_eq!(
        account_id_claim(&serde_json::Value::Object(outer)),
        Some("from-value".to_string())
    );
    assert_eq!(account_id_claim(&serde_json::Value::Null), None);
    assert_eq!(
        account_id_claim(&serde_json::Value::Array(vec![serde_json::Value::Bool(true)])),
        None
    );
}
