//! Per-call configuration of the task backend, and the form its base
//! address is brought into.

use vstd::prelude::*;
use vstd::string::StringExecFns;

use crate::text::{
    chars_of, contains_text, drop_char_end, drop_trailing, find_in_window, has_prefix,
    leading_until, owned_range, skip_until, skip_until_start, window_has_at, window_is,
};

verus! {

/// What a caller passes with every call to the task backend.
#[derive(Debug, Clone, PartialEq, Eq)]
pub struct CloudTasksConfig {
    pub base_url: String,
    pub bearer_token: Option<String>,
    pub chatgpt_account_id: Option<String>,
    pub user_agent: Option<String>,
    pub mock: Option<bool>,
    pub codex_home: Option<String>,
}

/// Options of the bridge itself.
#[derive(Debug, Clone, PartialEq, Eq)]
pub struct NativeCodexOptions {
    pub codex_home: Option<String>,
}

/// The path segment under which the chat front ends serve the backend.
pub const BACKEND_API_SEGMENT: &'static str = "/backend-api";

/// The scheme of an address whose host is looked at.
pub const HTTPS_SCHEME: &'static str = "https://";

/// Host of the first of the two chat front ends.
pub const CHATGPT_HOST: &'static str = "chatgpt.com";

/// Host of the second of the two chat front ends.
pub const CHAT_OPENAI_HOST: &'static str = "chat.openai.com";

/// The characters that end the host of an address.
pub const HOST_END: &'static str = "/:?#";

/// The characters that end the path of an address.
pub const PATH_END: &'static str = "?#";

/// The character that begins the path of an address.
pub const PATH_START: &'static str = "/";

/// What follows `https://` in an address that begins with it.
pub open spec fn after_scheme(base: Seq<char>) -> Option<Seq<char>> {
    if has_prefix(base, HTTPS_SCHEME@) {
        Some(base.skip(HTTPS_SCHEME@.len() as int))
    } else {
        None
    }
}

/// The host of an `https` address: what stands between `https://` and the
/// first of `/`, `:`, `?`, `#`, or the end. `None` for any other address.
pub open spec fn https_host(base: Seq<char>) -> Option<Seq<char>> {
    match after_scheme(base) {
        Some(rest) => Some(leading_until(rest, HOST_END@)),
        None => None,
    }
}

/// The path of an `https` address: what stands behind host and port, from
/// the first `/` to the first of `?`, `#`, or the end. Empty for an
/// address without a path and for any address that is not `https`.
pub open spec fn https_path(base: Seq<char>) -> Seq<char> {
    match after_scheme(base) {
        Some(rest) => skip_until(
            leading_until(skip_until(rest, HOST_END@), PATH_END@),
            PATH_START@,
        ),
        None => Seq::empty(),
    }
}

/// `base` is an address of one of the chat front ends: an `https` address
/// whose host is one of the two.
pub open spec fn is_chat_frontend(base: Seq<char>) -> bool {
    https_host(base) == Some(CHATGPT_HOST@) || https_host(base) == Some(CHAT_OPENAI_HOST@)
}

/// The base address in the form the backend is called with: trailing
/// slashes are gone, and an address of a chat front end whose path does
/// not hold the backend segment has it at its end.
pub open spec fn normalized_base_url(input: Seq<char>) -> Seq<char> {
    let base = drop_trailing(input, '/');
    if is_chat_frontend(base) && !contains_text(https_path(base), BACKEND_API_SEGMENT@) {
        base + BACKEND_API_SEGMENT@
    } else {
        base
    }
}

/// Tests whether the window `[0, end)` is an address of a chat front end
/// whose path does not hold the backend segment.
fn lacks_backend_segment(chars: &Vec<char>, end: usize) -> (r: bool)
    requires
        end <= chars.len(),
    ensures
        r == (is_chat_frontend(chars@.subrange(0, end as int)) && !contains_text(
            https_path(chars@.subrange(0, end as int)),
            BACKEND_API_SEGMENT@,
        )),
{
    let ghost base = chars@.subrange(0, end as int);
    let scheme = chars_of(HTTPS_SCHEME);
    if !window_has_at(chars, 0, end, 0, &scheme) {
        return false;
    }
    let start = scheme.len();
    let ghost rest = base.skip(start as int);
    assert(chars@.subrange(start as int, end as int) =~= rest);
    let host_end = skip_until_start(chars, start, end, &chars_of(HOST_END));
    let ghost tail = chars@.subrange(host_end as int, end as int);
    assert(chars@.subrange(start as int, host_end as int) =~= rest.take(rest.len() - tail.len()));
    let frontend = window_is(chars, start, host_end, &chars_of(CHATGPT_HOST)) || window_is(
        chars,
        start,
        host_end,
        &chars_of(CHAT_OPENAI_HOST),
    );
    if !frontend {
        return false;
    }
    let path_end = skip_until_start(chars, host_end, end, &chars_of(PATH_END));
    assert(chars@.subrange(host_end as int, path_end as int) =~= tail.take(
        tail.len() - (end - path_end),
    ));
    let path_start = skip_until_start(chars, host_end, path_end, &chars_of(PATH_START));
    let segment = chars_of(BACKEND_API_SEGMENT);
    find_in_window(chars, path_start, path_end, &segment).is_none()
}

/// Brings a base address into the form the backend is called with.
pub fn normalize_base_url(input: &str) -> (base_url: String)
    ensures
        base_url@ == normalized_base_url(input@),
{
    let chars = chars_of(input);
    let end = drop_char_end(&chars, 0, chars.len(), '/');
    assert(chars@.subrange(0, chars.len() as int) =~= input@);
    assert(chars@.subrange(0, end as int) =~= input@.subrange(0, end as int));
    let mut base_url = owned_range(input, 0, end);
    if lacks_backend_segment(&chars, end) {
        base_url.append(BACKEND_API_SEGMENT);
    }
    base_url
}

} // verus!
