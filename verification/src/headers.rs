//! The headers of a request for environments.
//!
//! A header is left out where its value is not one that a request can
//! carry. Whether it is, is asked of `reqwest`; the contract of that call
//! is stated from the source of `http` and is not proved here.

use vstd::prelude::*;
use vstd::string::StringExecFns;
use vstd::utf8::encode_utf8;

use crate::config::CloudTasksConfig;
use crate::credential::{Credential, CredentialModel};

verus! {

/// One header of a request.
#[derive(Debug, Clone, PartialEq, Eq)]
pub struct Header {
    pub name: String,
    pub value: String,
}

/// Mathematical model of a [`Header`].
pub struct HeaderModel {
    pub name: Seq<char>,
    pub value: Seq<char>,
}

impl DeepView for Header {
    type V = HeaderModel;

    open spec fn deep_view(&self) -> HeaderModel {
        HeaderModel { name: self.name@, value: self.value@ }
    }
}

/// Name of the header that says who asks.
pub const USER_AGENT_HEADER: &'static str = "user-agent";

/// Name of the header that carries the bearer token.
pub const AUTHORIZATION_HEADER: &'static str = "authorization";

/// Name of the header that carries the account id.
pub const ACCOUNT_ID_HEADER: &'static str = "chatgpt-account-id";

/// What this bridge calls itself where the configuration gives no name
/// that a header can carry.
pub const DEFAULT_USER_AGENT: &'static str = "codex-ts-sdk";

/// What stands before the token in the authorization header.
pub const BEARER_PREFIX: &'static str = "Bearer ";

/// A byte that the value of a header may hold: a tab, or anything from the
/// space upward but the delete character.
pub open spec fn header_byte_ok(byte: u8) -> bool {
    byte >= 32 && byte != 127 || byte == 9
}

/// A text that can be the value of a header: each byte of its UTF-8 form
/// is one that the value of a header may hold.
pub open spec fn header_value_ok(text: Seq<char>) -> bool {
    forall|i: int|
        0 <= i < encode_utf8(text).len() ==> header_byte_ok(#[trigger] encode_utf8(text)[i])
}

/// The value of the user-agent header: the configured name where there is
/// one that a header can carry, else the default name.
pub open spec fn user_agent_value(configured: Option<Seq<char>>) -> Seq<char> {
    match configured {
        Some(name) => if header_value_ok(name) {
            name
        } else {
            DEFAULT_USER_AGENT@
        },
        None => DEFAULT_USER_AGENT@,
    }
}

/// The value of the authorization header for a token.
pub open spec fn bearer_value(token: Seq<char>) -> Seq<char> {
    BEARER_PREFIX@ + token
}

/// `headers`, and behind them a header of this name and value where the
/// value is one that a header can carry.
pub open spec fn with_header(headers: Seq<HeaderModel>, name: Seq<char>, value: Seq<char>) -> Seq<
    HeaderModel,
> {
    if header_value_ok(value) {
        headers.push(HeaderModel { name, value })
    } else {
        headers
    }
}

/// The headers of a request: the user agent, then the bearer token and the
/// account id of the credential, as far as there is a credential and their
/// values can be carried.
pub open spec fn chatgpt_headers(
    user_agent: Option<Seq<char>>,
    credential: Option<CredentialModel>,
) -> Seq<HeaderModel> {
    let first = seq![
        HeaderModel { name: USER_AGENT_HEADER@, value: user_agent_value(user_agent) },
    ];
    match credential {
        Some(c) => {
            let authorized = with_header(
                first,
                AUTHORIZATION_HEADER@,
                bearer_value(c.bearer_token),
            );
            match c.account_id {
                Some(id) => with_header(authorized, ACCOUNT_ID_HEADER@, id),
                None => authorized,
            }
        },
        None => first,
    }
}

/// Calls `reqwest::header::HeaderValue::from_str` and says whether it
/// accepted the text. It accepts a text exactly where each of its bytes is
/// a tab or at least 32 and not 127.
#[verifier::external_body]
fn header_value_accepted(text: &str) -> (ok: bool)
    ensures
        ok == header_value_ok(text@),
{
    reqwest::header::HeaderValue::from_str(text).is_ok()
}

/// Puts a header behind `headers` where its value can be carried.
fn push_header(headers: &mut Vec<Header>, name: &str, value: String)
    ensures
        final(headers).deep_view() == with_header(old(headers).deep_view(), name@, value@),
{
    let ghost before = headers.deep_view();
    if header_value_accepted(value.as_str()) {
        headers.push(Header { name: name.to_owned(), value });
        assert(headers.deep_view() =~= before.push(HeaderModel { name: name@, value: value@ }));
    }
}

/// The headers of a request for environments, for a configuration and the
/// credential that was resolved for it.
pub fn build_chatgpt_headers(
    config: &CloudTasksConfig,
    credential: &Option<Credential>,
) -> (headers: Vec<Header>)
    ensures
        headers.deep_view() == chatgpt_headers(
            config.user_agent.deep_view(),
            credential.deep_view(),
        ),
{
    let user_agent = match &config.user_agent {
        Some(name) => {
            if header_value_accepted(name.as_str()) {
                name.clone()
            } else {
                DEFAULT_USER_AGENT.to_owned()
            }
        },
        None => DEFAULT_USER_AGENT.to_owned(),
    };
    let mut headers: Vec<Header> = Vec::new();
    headers.push(Header { name: USER_AGENT_HEADER.to_owned(), value: user_agent });
    assert(headers.deep_view() =~= seq![
        HeaderModel {
            name: USER_AGENT_HEADER@,
            value: user_agent_value(config.user_agent.deep_view()),
        },
    ]);
    match credential {
        Some(c) => {
            let mut bearer = BEARER_PREFIX.to_owned();
            bearer.append(c.bearer_token.as_str());
            push_header(&mut headers, AUTHORIZATION_HEADER, bearer);
            match &c.account_id {
                Some(id) => {
                    push_header(&mut headers, ACCOUNT_ID_HEADER, id.clone());
                },
                None => {},
            }
        },
        None => {},
    }
    headers
}

} // verus!
