//! Reading the account id out of a bearer token.
//!
//! A token has three segments separated by dots. The middle one is
//! base64url text without padding that holds a JSON object; the account id
//! is a string two levels down in it.

use base64::Engine;
use vstd::prelude::*;
use vstd::utf8::encode_utf8;

use crate::json::{
    json_document, json_member, json_shape, json_text, member, parse_document, text, JsonShape,
};
use crate::text::{
    chars_of, find_in_window, first_occurrence, lemma_find_from, occurs_at, owned_range,
};

verus! {

/// Name of the claim object that carries the account id.
pub const AUTH_CLAIM: &'static str = "https://api.openai.com/auth";

/// Name of the account id inside the claim object.
pub const ACCOUNT_ID_CLAIM: &'static str = "chatgpt_account_id";

/// The pattern that separates the segments of a token.
pub open spec fn dot() -> Seq<char> {
    seq!['.']
}

/// The middle segment of a token made of exactly three non-empty segments
/// separated by dots; `None` for every other token.
pub open spec fn payload_segment(token: Seq<char>) -> Option<Seq<char>> {
    match first_occurrence(token, dot()) {
        None => None,
        Some(first) => {
            let rest = token.skip(first + 1);
            match first_occurrence(rest, dot()) {
                None => None,
                Some(second) => {
                    let tail = rest.skip(second + 1);
                    if first > 0 && second > 0 && tail.len() > 0 && first_occurrence(tail, dot())
                        is None {
                        Some(rest.take(second))
                    } else {
                        None
                    }
                },
            }
        },
    }
}

/// What the base64 engine `URL_SAFE_NO_PAD` decodes `input` to, or `None`
/// where it rejects the input.
pub uninterp spec fn base64url_decoded(input: Seq<u8>) -> Option<Seq<u8>>;

/// The account id held by a JSON document: the string at
/// `AUTH_CLAIM` / `ACCOUNT_ID_CLAIM`, if there is one.
pub open spec fn account_id_in(doc: JsonShape) -> Option<Seq<char>> {
    match json_member(doc, AUTH_CLAIM@) {
        Some(auth) => match json_member(auth, ACCOUNT_ID_CLAIM@) {
            Some(id) => json_text(id),
            None => None,
        },
        None => None,
    }
}

/// The account id held by the decoded payload of a token.
pub open spec fn payload_account_id(payload: Seq<u8>) -> Option<Seq<char>> {
    match json_document(payload) {
        Some(doc) => account_id_in(doc),
        None => None,
    }
}

/// The account id that a token carries.
pub open spec fn token_account_id(token: Seq<char>) -> Option<Seq<char>> {
    match payload_segment(token) {
        None => None,
        Some(segment) => match base64url_decoded(encode_utf8(segment)) {
            None => None,
            Some(payload) => payload_account_id(payload),
        },
    }
}

/// No character of `s` is a dot.
pub open spec fn dot_free(s: Seq<char>) -> bool {
    forall|i: int| 0 <= i < s.len() ==> s[i] != '.'
}

/// The first dot of a text that begins with a dot-free part and a dot
/// stands right behind that part.
proof fn lemma_first_dot(head: Seq<char>, rest: Seq<char>)
    requires
        dot_free(head),
    ensures
        first_occurrence(head + dot() + rest, dot()) == Some(head.len() as int),
{
    let s = head + dot() + rest;
    lemma_find_from(s, dot(), 0);
    assert(s.subrange(head.len() as int, head.len() as int + 1) =~= dot());
    assert(occurs_at(s, dot(), head.len() as int));
    match first_occurrence(s, dot()) {
        Some(i) => {
            if i < head.len() {
                assert(s.subrange(i, i + 1)[0] == '.');
                assert(head[i] == '.');
            }
        },
        None => {},
    }
}

/// A dot-free text holds no dot.
proof fn lemma_no_dot(s: Seq<char>)
    requires
        dot_free(s),
    ensures
        first_occurrence(s, dot()) is None,
{
    lemma_find_from(s, dot(), 0);
    match first_occurrence(s, dot()) {
        Some(i) => {
            assert(s.subrange(i, i + 1)[0] == '.');
        },
        None => {},
    }
}

/// A token made of three non-empty parts without dots, with a dot between
/// each two, has the middle part as its payload segment.
pub proof fn lemma_payload_of_three_segments(head: Seq<char>, body: Seq<char>, tail: Seq<char>)
    requires
        dot_free(head) && head.len() > 0,
        dot_free(body) && body.len() > 0,
        dot_free(tail) && tail.len() > 0,
    ensures
        payload_segment(head + dot() + body + dot() + tail) == Some(body),
{
    let token = head + dot() + body + dot() + tail;
    let rest = body + dot() + tail;
    assert(token =~= head + dot() + rest);
    lemma_first_dot(head, rest);
    assert(token.skip(head.len() as int + 1) =~= rest);
    lemma_first_dot(body, tail);
    assert(rest.skip(body.len() as int + 1) =~= tail);
    lemma_no_dot(tail);
    assert(rest.take(body.len() as int) =~= body);
}

/// A token that has a payload segment is made of three non-empty parts
/// without dots, with a dot between each two, and the segment is the
/// middle part: a token with fewer or more parts, or with an empty one,
/// has no payload segment.
pub proof fn lemma_payload_segment_shape(token: Seq<char>)
    requires
        payload_segment(token) is Some,
    ensures
        exists|head: Seq<char>, tail: Seq<char>|
            {
                &&& #[trigger] dot_free(head) && head.len() > 0
                &&& dot_free(payload_segment(token)->0) && payload_segment(token)->0.len() > 0
                &&& #[trigger] dot_free(tail) && tail.len() > 0
                &&& token == head + dot() + payload_segment(token)->0 + dot() + tail
            },
{
    let body = payload_segment(token)->0;
    lemma_find_from(token, dot(), 0);
    let first = first_occurrence(token, dot())->0;
    let rest = token.skip(first + 1);
    lemma_find_from(rest, dot(), 0);
    let second = first_occurrence(rest, dot())->0;
    let after = rest.skip(second + 1);
    lemma_find_from(after, dot(), 0);
    let head = token.take(first);
    assert(token.subrange(first, first + 1)[0] == '.');
    assert(rest.subrange(second, second + 1)[0] == '.');
    assert forall|i: int| 0 <= i < head.len() implies head[i] != '.' by {
        if token[i] == '.' {
            assert(token.subrange(i, i + 1) =~= dot());
            assert(occurs_at(token, dot(), i));
        }
    }
    assert forall|i: int| 0 <= i < body.len() implies body[i] != '.' by {
        if rest[i] == '.' {
            assert(rest.subrange(i, i + 1) =~= dot());
            assert(occurs_at(rest, dot(), i));
        }
    }
    assert forall|i: int| 0 <= i < after.len() implies after[i] != '.' by {
        if after[i] == '.' {
            assert(after.subrange(i, i + 1) =~= dot());
            assert(occurs_at(after, dot(), i));
        }
    }
    assert(token =~= head + dot() + body + dot() + after);
    assert(dot_free(head) && dot_free(after));
}

/// When a token carries an account id. It does where its payload segment
/// decodes to a JSON document that holds the claim as a string, and the id
/// is that string. It carries none where the token has no payload segment,
/// where the segment is not base64url text, where what it decodes to is
/// not JSON, and where the document does not hold the claim as a string.
pub proof fn lemma_token_account_id(token: Seq<char>)
    ensures
        payload_segment(token) is None ==> token_account_id(token) is None,
        payload_segment(token) matches Some(segment) ==> {
            &&& base64url_decoded(encode_utf8(segment)) is None ==> token_account_id(token)
                is None
            &&& base64url_decoded(encode_utf8(segment)) matches Some(payload) ==> {
                &&& json_document(payload) is None ==> token_account_id(token) is None
                &&& json_document(payload) matches Some(doc) ==> {
                    &&& token_account_id(token) == account_id_in(doc)
                    &&& json_member(doc, AUTH_CLAIM@) is None ==> token_account_id(token)
                        is None
                    &&& json_member(doc, AUTH_CLAIM@) matches Some(auth) ==> {
                        &&& json_member(auth, ACCOUNT_ID_CLAIM@) is None ==> token_account_id(
                            token,
                        ) is None
                        &&& json_member(auth, ACCOUNT_ID_CLAIM@) matches Some(id) ==> {
                            &&& id matches JsonShape::Text(text) ==> token_account_id(token)
                                == Some(text)
                            &&& !(id is Text) ==> token_account_id(token) is None
                        }
                    }
                }
            }
        },
{
}

/// Calls `decode` of the `base64` engine `URL_SAFE_NO_PAD`: the decoded
/// bytes, or `None` where the engine reports an error.
#[verifier::external_body]
fn decode_base64url(input: &[u8]) -> (out: Option<Vec<u8>>)
    ensures
        match out {
            Some(bytes) => base64url_decoded(input@) == Some(bytes@),
            None => base64url_decoded(input@) is None,
        },
{
    base64::engine::general_purpose::URL_SAFE_NO_PAD.decode(input).ok()
}

/// The middle segment of `token`, where the token has exactly three
/// non-empty segments.
pub fn token_payload(token: &str) -> (segment: Option<String>)
    ensures
        segment.deep_view() == payload_segment(token@),
{
    let chars = chars_of(token);
    let n = chars.len();
    let pat: Vec<char> = vec!['.'];
    assert(pat@ =~= dot());
    let first = match find_in_window(&chars, 0, n, &pat) {
        Some(at) => at,
        None => {
            assert(chars@.subrange(0, n as int) =~= token@);
            return None;
        },
    };
    assert(chars@.subrange(0, n as int) =~= token@);
    assert(chars@.subrange(first + 1, n as int) =~= token@.skip(first + 1));
    let second = match find_in_window(&chars, first + 1, n, &pat) {
        Some(at) => at,
        None => {
            return None;
        },
    };
    assert(chars@.subrange(second + 1, n as int) =~= token@.skip(first + 1).skip(second - first));
    let third = find_in_window(&chars, second + 1, n, &pat);
    if first > 0 && second > first + 1 && second + 1 < n && third.is_none() {
        assert(token@.subrange(first + 1, second as int) =~= token@.skip(first + 1).take(
            second - first - 1,
        ));
        Some(owned_range(token, first + 1, second))
    } else {
        None
    }
}

/// The account id held by a parsed payload.
pub fn account_id_claim(doc: &serde_json::Value) -> (id: Option<String>)
    ensures
        id.deep_view() == account_id_in(json_shape(*doc)),
{
    match member(doc, AUTH_CLAIM) {
        Some(auth) => match member(auth, ACCOUNT_ID_CLAIM) {
            Some(found) => text(found),
            None => None,
        },
        None => None,
    }
}

/// The account id held by the decoded payload of a token.
pub fn account_id_from_payload(payload: &[u8]) -> (id: Option<String>)
    ensures
        id.deep_view() == payload_account_id(payload@),
{
    match parse_document(payload) {
        Some(doc) => account_id_claim(&doc),
        None => None,
    }
}

/// The account id that `token` carries. `None` for a token that does not
/// have exactly three non-empty segments, whose middle segment is not
/// base64url text, or whose payload is not JSON with the claim as a string.
pub fn extract_chatgpt_account_id(token: &str) -> (id: Option<String>)
    ensures
        id.deep_view() == token_account_id(token@),
{
    let segment = match token_payload(token) {
        Some(segment) => segment,
        None => {
            return None;
        },
    };
    match decode_base64url(segment.as_str().as_bytes()) {
        Some(payload) => account_id_from_payload(payload.as_slice()),
        None => None,
    }
}

} // verus!
