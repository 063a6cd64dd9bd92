use vstd::prelude::*;

use crate::config::DirectMinimaxConfig;
use crate::json::{decimal, decimal_text, json_string_literal, lookup, member_value, quoted, render, rendered, Json};

verus! {

/// Who wrote a chat message.
#[derive(Clone, Copy, Debug, PartialEq, Eq, Structural)]
pub enum ChatRole {
    User,
    Assistant,
}

/// The name of a role in the API's message objects.
pub open spec fn role_name(role: ChatRole) -> Seq<char> {
    match role {
        ChatRole::User => "user"@,
        ChatRole::Assistant => "assistant"@,
    }
}

/// One message of a conversation sent to the API.
#[derive(Debug)]
pub struct ChatMessage {
    pub role: ChatRole,
    pub content: String,
}

/// A message as its role and its text.
pub open spec fn message_view(m: ChatMessage) -> (ChatRole, Seq<char>) {
    (m.role, m.content@)
}

/// The JSON object of one message. Its members come in the order in which
/// serde_json writes a map: by name.
pub open spec fn message_text(m: (ChatRole, Seq<char>)) -> Seq<char> {
    "{\"content\":"@ + quoted(m.1) + ",\"role\":"@ + quoted(role_name(m.0)) + "}"@
}

/// The JSON objects of the messages, separated by commas.
pub open spec fn messages_text(ms: Seq<(ChatRole, Seq<char>)>) -> Seq<char>
    decreases ms.len(),
{
    if ms.len() == 0 {
        seq![]
    } else if ms.len() == 1 {
        message_text(ms[0])
    } else {
        messages_text(ms.drop_last()) + ","@ + message_text(ms.last())
    }
}

/// The body of a request to the messages endpoint: the object with the
/// members `max_tokens`, `messages` and `model`, written compactly with its
/// members in name order.
pub open spec fn request_body(model: Seq<char>, max_tokens: nat, ms: Seq<(ChatRole, Seq<char>)>) -> Seq<char> {
    "{\"max_tokens\":"@ + decimal(max_tokens) + ",\"messages\":["@ + messages_text(ms) + "],\"model\":"@
        + quoted(model) + "}"@
}

/// The URL of the messages endpoint under `base_url`.
pub open spec fn messages_url(base_url: Seq<char>) -> Seq<char> {
    base_url + "/messages"@
}

/// The headers of a request: the API key, the content type and the API
/// version, in this order.
pub open spec fn request_headers(api_key: Seq<char>) -> Seq<(Seq<char>, Seq<char>)> {
    seq![
        ("x-api-key"@, api_key),
        ("Content-Type"@, "application/json"@),
        ("anthropic-version"@, "2023-06-01"@),
    ]
}

/// A POST request to the MiniMax API, ready to be sent.
#[derive(Debug)]
pub struct MinimaxRequest {
    pub url: String,
    pub headers: Vec<(String, String)>,
    pub body: String,
}

/// The headers of a request as text pairs.
pub open spec fn headers_view(headers: Seq<(String, String)>) -> Seq<(Seq<char>, Seq<char>)> {
    headers.map_values(|h: (String, String)| (h.0@, h.1@))
}

/// The URL of the messages endpoint begins with the base URL and adds
/// `/messages` to it, so different base URLs give different URLs.
pub proof fn law_messages_url_extends_base(base_url: Seq<char>, other: Seq<char>)
    ensures
        base_url.is_prefix_of(messages_url(base_url)),
        messages_url(base_url).subrange(base_url.len() as int, messages_url(base_url).len() as int) == "/messages"@,
        base_url != other ==> messages_url(base_url) != messages_url(other),
{
    let u = messages_url(base_url);
    let v = messages_url(other);
    assert(u.subrange(0, base_url.len() as int) =~= base_url);
    assert(u.subrange(base_url.len() as int, u.len() as int) =~= "/messages"@);
    if base_url != other && u == v {
        assert(base_url.len() == other.len());
        assert(u.subrange(0, base_url.len() as int) == v.subrange(0, other.len() as int));
        assert(v.subrange(0, other.len() as int) =~= other);
    }
}

/// The messages of a longer list begin with those of each shorter prefix,
/// and each message follows those before it after a comma: the text holds
/// every message, once, in order.
pub proof fn law_messages_text_in_order(ms: Seq<(ChatRole, Seq<char>)>, k: int)
    requires
        0 <= k < ms.len(),
    ensures
        messages_text(ms.take(k + 1)) == (if k == 0 {
            Seq::<char>::empty()
        } else {
            messages_text(ms.take(k)) + ","@
        }) + message_text(ms[k]),
        messages_text(ms.take(k)).is_prefix_of(messages_text(ms)),
{
    let t = ms.take(k + 1);
    assert(t.drop_last() =~= ms.take(k));
    assert(t.last() == ms[k]);
    if k == 0 {
        assert(t.len() == 1);
        assert(t[0] == ms[0]);
        assert(Seq::<char>::empty() + message_text(ms[0]) =~= message_text(ms[0]));
    }
    lemma_messages_text_prefix(ms, k);
}

/// The messages of a prefix are a prefix of the messages.
proof fn lemma_messages_text_prefix(ms: Seq<(ChatRole, Seq<char>)>, k: int)
    requires
        0 <= k <= ms.len(),
    ensures
        messages_text(ms.take(k)).is_prefix_of(messages_text(ms)),
    decreases ms.len() - k,
{
    if k == ms.len() {
        assert(ms.take(k) =~= ms);
        assert(messages_text(ms).subrange(0, messages_text(ms).len() as int) =~= messages_text(ms));
    } else {
        lemma_messages_text_prefix(ms, k + 1);
        let a = messages_text(ms.take(k));
        let b = messages_text(ms.take(k + 1));
        let t = ms.take(k + 1);
        assert(t.drop_last() =~= ms.take(k));
        if k > 0 {
            assert(b == a + ","@ + message_text(t.last()));
            assert(b.subrange(0, a.len() as int) =~= a);
        } else {
            assert(a == Seq::<char>::empty());
            assert(b.subrange(0, 0) =~= a);
        }
        assert(messages_text(ms).subrange(0, a.len() as int) =~= b.subrange(0, a.len() as int));
    }
}

/// The body sends every message given, in order: for each prefix of the
/// messages, the body begins with the token limit and that prefix's
/// messages.
pub proof fn law_request_body_sends_every_message(
    model: Seq<char>,
    max_tokens: nat,
    ms: Seq<(ChatRole, Seq<char>)>,
    k: int,
)
    requires
        0 <= k <= ms.len(),
    ensures
        ("{\"max_tokens\":"@ + decimal(max_tokens) + ",\"messages\":["@ + messages_text(ms.take(k))).is_prefix_of(
            request_body(model, max_tokens, ms),
        ),
{
    lemma_messages_text_prefix(ms, k);
    let head = "{\"max_tokens\":"@ + decimal(max_tokens) + ",\"messages\":["@;
    let a = messages_text(ms.take(k));
    let body = request_body(model, max_tokens, ms);
    assert(body.subrange(0, (head + a).len() as int) =~= head + messages_text(ms).subrange(0, a.len() as int));
}

/// Appends the JSON object of `m` to `out`.
fn append_message(m: &ChatMessage, out: &mut String)
    ensures
        final(out)@ == old(out)@ + message_text(message_view(*m)),
{
    out.append("{\"content\":");
    let content = json_string_literal(m.content.as_str());
    out.append(content.as_str());
    out.append(",\"role\":");
    let role = match m.role {
        ChatRole::User => json_string_literal("user"),
        ChatRole::Assistant => json_string_literal("assistant"),
    };
    out.append(role.as_str());
    out.append("}");
}

/// The request that asks for a reply to `messages` of at most `max_tokens`
/// tokens from the configured model.
pub fn build_request(config: &DirectMinimaxConfig, messages: &Vec<ChatMessage>, max_tokens: u32) -> (r: MinimaxRequest)
    ensures
        r.url@ == messages_url(config.base_url@),
        r.url@ == config.base_url@ + "/messages"@,
        headers_view(r.headers@) == request_headers(config.api_key@),
        r.body@ == request_body(config.model@, max_tokens as nat, messages@.map_values(|m: ChatMessage| message_view(m))),
{
    let mut url = config.base_url.clone();
    url.append("/messages");

    let mut headers: Vec<(String, String)> = Vec::new();
    headers.push((String::from_str("x-api-key"), config.api_key.clone()));
    headers.push((String::from_str("Content-Type"), String::from_str("application/json")));
    headers.push((String::from_str("anthropic-version"), String::from_str("2023-06-01")));
    assert(headers_view(headers@) =~= request_headers(config.api_key@));

    let ghost ms = messages@.map_values(|m: ChatMessage| message_view(m));
    let mut body = String::from_str("{\"max_tokens\":");
    let tokens = decimal_text(max_tokens);
    body.append(tokens.as_str());
    body.append(",\"messages\":[");
    let ghost start = body@;
    let mut i: usize = 0;
    while i < messages.len()
        invariant
            i <= messages.len(),
            ms == messages@.map_values(|m: ChatMessage| message_view(m)),
            body@ == start + messages_text(ms.take(i as int)),
        decreases messages.len() - i,
    {
        if i > 0 {
            body.append(",");
        }
        append_message(&messages[i], &mut body);
        assert(ms.take(i + 1).drop_last() =~= ms.take(i as int));
        i += 1;
    }
    assert(ms.take(i as int) =~= ms);
    body.append("],\"model\":");
    let model = json_string_literal(config.model.as_str());
    body.append(model.as_str());
    body.append("}");
    MinimaxRequest { url, headers, body }
}


/// Whether `code` is a success status (2xx).
pub open spec fn is_success_code(code: u16) -> bool {
    200 <= code < 300
}

/// Whether `code` is a success status: `reqwest::StatusCode::from_u16`
/// (the `http` crate's `StatusCode`), then `is_success`. `from_u16` accepts
/// 100..=999 and `is_success` holds for 200..300; any other code is no
/// success.
#[verifier::external_body]
fn status_code_is_success(code: u16) -> (r: bool)
    ensures
        r == is_success_code(code),
{
    match reqwest::StatusCode::from_u16(code) {
        Ok(status) => status.is_success(),
        Err(_) => false,
    }
}

/// Whether `code` is a success status (2xx).
pub fn status_is_success(code: u16) -> (r: bool)
    ensures
        r == is_success_code(code),
{
    status_code_is_success(code)
}

/// The canonical reason phrase that the `http` crate gives a status code
/// (its `canonical_reason` table), if it has one.
pub uninterp spec fn canonical_reason(code: u16) -> Option<Seq<char>>;

/// The reason phrase shown after a status code: the canonical one when the
/// code is a status code that has one, else `<unknown status code>`.
pub open spec fn reason_text(code: u16) -> Seq<char> {
    if 100 <= code <= 999 && canonical_reason(code) is Some {
        canonical_reason(code)->0
    } else {
        "<unknown status code>"@
    }
}

/// The canonical reason phrase of `code`: `reqwest::StatusCode::from_u16`,
/// then `canonical_reason`. Codes outside 100..=999 are no status codes and
/// have none; for the others the result is the `http` crate's table entry,
/// which is named here, not written out.
#[verifier::external_body]
fn status_reason(code: u16) -> (r: Option<String>)
    ensures
        100 <= code <= 999 ==> (r is Some <==> canonical_reason(code) is Some),
        100 <= code <= 999 && r is Some ==> r->0@ == canonical_reason(code)->0,
        !(100 <= code <= 999) ==> r is None,
{
    match reqwest::StatusCode::from_u16(code) {
        Ok(status) => match status.canonical_reason() {
            Some(reason) => Some(reason.to_string()),
            None => None,
        },
        Err(_) => None,
    }
}

/// Why a call to the API gave no reply.
#[derive(Debug)]
pub enum MinimaxError {
    /// The API answered with a status that is not a success; `body` is the
    /// text of its answer (empty where it could not be read).
    Status { code: u16, body: String },
    /// The request could not be sent, or the answer not read.
    Transport(String),
    /// The answer to a successful request was not JSON.
    Decode(String),
}

/// The message of an error.
pub open spec fn error_message(e: MinimaxError) -> Seq<char> {
    match e {
        MinimaxError::Status { code, body } => "MiniMax API error "@ + decimal(code as nat) + " "@
            + reason_text(code) + ": "@ + body@,
        MinimaxError::Transport(m) => m@,
        MinimaxError::Decode(m) => m@,
    }
}

impl MinimaxError {
    /// The message of this error.
    pub fn message(&self) -> (s: String)
        ensures
            s@ == error_message(*self),
    {
        match self {
            MinimaxError::Status { code, body } => {
                let mut s = String::from_str("MiniMax API error ");
                let digits = decimal_text(*code as u32);
                s.append(digits.as_str());
                s.append(" ");
                match status_reason(*code) {
                    Some(reason) => s.append(reason.as_str()),
                    None => s.append("<unknown status code>"),
                }
                s.append(": ");
                s.append(body.as_str());
                s
            },
            MinimaxError::Transport(m) => m.clone(),
            MinimaxError::Decode(m) => m.clone(),
        }
    }
}

/// The text of the first element of `items` that has a string member
/// `text`.
pub open spec fn first_text(items: Seq<Json>) -> Option<Seq<char>>
    decreases items.len(),
{
    if items.len() == 0 {
        None
    } else {
        match lookup(items[0], "text"@) {
            Some(Json::Str(t)) => Some(t@),
            _ => first_text(items.drop_first()),
        }
    }
}

/// The text of a reply: the first text block of its `content` array, or,
/// where there is none, the whole reply as compact JSON.
pub open spec fn reply_text_of(reply: Json) -> Seq<char> {
    match lookup(reply, "content"@) {
        Some(Json::Array(items)) => match first_text(items@) {
            Some(t) => t,
            None => rendered(reply),
        },
        _ => rendered(reply),
    }
}

/// The value of member `key`, looked up, is the value of the first member
/// of the object named `key`; a value that is no object has no members.
pub proof fn law_lookup_is_first_named_member(j: Json, key: Seq<char>)
    ensures
        lookup(j, key) matches Some(v) ==> (j matches Json::Object(ms) && exists|i: int|
            0 <= i < ms.len() && (#[trigger] ms@[i]).0@ == key && ms@[i].1 == v && forall|k: int|
                0 <= k < i ==> (#[trigger] ms@[k]).0@ != key),
        lookup(j, key) is None ==> (j matches Json::Object(ms) ==> forall|i: int|
            0 <= i < ms.len() ==> (#[trigger] ms@[i]).0@ != key),
{
    if let Json::Object(ms) = j {
        lemma_member_value_first(ms@, key);
    }
}

/// `member_value` finds the first member of the name, and none where no
/// member has it.
proof fn lemma_member_value_first(ms: Seq<(String, Json)>, key: Seq<char>)
    ensures
        member_value(ms, key) matches Some(v) ==> exists|i: int|
            0 <= i < ms.len() && (#[trigger] ms[i]).0@ == key && ms[i].1 == v && forall|k: int|
                0 <= k < i ==> (#[trigger] ms[k]).0@ != key,
        member_value(ms, key) is None ==> forall|i: int| 0 <= i < ms.len() ==> (#[trigger] ms[i]).0@ != key,
    decreases ms.len(),
{
    if ms.len() > 0 && ms[0].0@ != key {
        let rest = ms.drop_first();
        lemma_member_value_first(rest, key);
        if let Some(v) = member_value(ms, key) {
            let i = choose|i: int|
                0 <= i < rest.len() && (#[trigger] rest[i]).0@ == key && rest[i].1 == v && forall|k: int|
                    0 <= k < i ==> (#[trigger] rest[k]).0@ != key;
            assert(ms[i + 1] == rest[i]);
            assert forall|k: int| 0 <= k < i + 1 implies (#[trigger] ms[k]).0@ != key by {
                if k > 0 {
                    assert(ms[k] == rest[k - 1]);
                }
            }
        } else {
            assert forall|i: int| 0 <= i < ms.len() implies (#[trigger] ms[i]).0@ != key by {
                if i > 0 {
                    assert(ms[i] == rest[i - 1]);
                }
            }
        }
    } else if ms.len() > 0 {
        assert(ms[0].0@ == key);
    }
}

/// Whether `j` has a string member `text`.
pub open spec fn has_text_member(j: Json) -> bool {
    lookup(j, "text"@) matches Some(Json::Str(_))
}

/// The reply text taken from content blocks is the string `text` member of
/// the first block that has one; blocks without one are skipped whatever
/// other members they have, and where no block has one there is none.
pub proof fn law_first_text_is_first_text_member(items: Seq<Json>)
    ensures
        first_text(items) matches Some(t) ==> exists|i: int|
            0 <= i < items.len() && (lookup(#[trigger] items[i], "text"@) matches Some(Json::Str(s)) && s@ == t)
                && forall|k: int| 0 <= k < i ==> !has_text_member(#[trigger] items[k]),
        first_text(items) is None ==> forall|k: int| 0 <= k < items.len() ==> !has_text_member(#[trigger] items[k]),
    decreases items.len(),
{
    if items.len() > 0 {
        let rest = items.drop_first();
        law_first_text_is_first_text_member(rest);
        match lookup(items[0], "text"@) {
            Some(Json::Str(t)) => {
                assert(lookup(items[0], "text"@) matches Some(Json::Str(s)) && s@ == t@);
            },
            _ => {
                assert(!has_text_member(items[0]));
                if let Some(t) = first_text(items) {
                    let i = choose|i: int|
                        0 <= i < rest.len() && (lookup(#[trigger] rest[i], "text"@) matches Some(Json::Str(s)) && s@
                            == t) && forall|k: int| 0 <= k < i ==> !has_text_member(#[trigger] rest[k]);
                    assert(items[i + 1] == rest[i]);
                    assert forall|k: int| 0 <= k < i + 1 implies !has_text_member(#[trigger] items[k]) by {
                        if k > 0 {
                            assert(items[k] == rest[k - 1]);
                        }
                    }
                } else {
                    assert forall|k: int| 0 <= k < items.len() implies !has_text_member(#[trigger] items[k]) by {
                        if k > 0 {
                            assert(items[k] == rest[k - 1]);
                        }
                    }
                }
            },
        }
    }
}

/// The text of the first text block of `items`, if any.
fn first_text_block(items: &Vec<Json>) -> (r: Option<String>)
    ensures
        r is Some <==> first_text(items@) is Some,
        r is Some ==> r->0@ == first_text(items@)->0,
{
    let mut i: usize = 0;
    assert(items@.skip(0) =~= items@);
    while i < items.len()
        invariant
            i <= items.len(),
            first_text(items@) == first_text(items@.skip(i as int)),
        decreases items.len() - i,
    {
        assert(items@.skip(i as int)[0] == items@[i as int]);
        match items[i].get("text") {
            Some(Json::Str(t)) => return Some(t.clone()),
            _ => {},
        }
        assert(items@.skip(i as int).drop_first() =~= items@.skip(i + 1));
        i += 1;
    }
    None
}

/// The text of a reply of the messages endpoint.
pub fn reply_text(reply: &Json) -> (s: String)
    ensures
        s@ == reply_text_of(*reply),
{
    match reply.get("content") {
        Some(Json::Array(items)) => match first_text_block(items) {
            Some(t) => t,
            None => render(reply),
        },
        _ => render(reply),
    }
}

/// What a call to the API gives, from the status of its answer, the text of
/// the answer (what could be read of it) and that text parsed as JSON: an
/// error for a status that is no success, an error where a successful
/// answer is no JSON, and else the text of the reply.
pub fn interpret_response(code: u16, body: String, parsed: Result<Json, String>) -> (r: Result<String, MinimaxError>)
    ensures
        !is_success_code(code) ==> r == Err::<String, MinimaxError>(MinimaxError::Status { code, body }),
        is_success_code(code) ==> match parsed {
            Ok(j) => r is Ok && r->Ok_0@ == reply_text_of(j),
            Err(m) => r == Err::<String, MinimaxError>(MinimaxError::Decode(m)),
        },
{
    if !status_is_success(code) {
        return Err(MinimaxError::Status { code, body });
    }
    match parsed {
        Ok(j) => Ok(reply_text(&j)),
        Err(m) => Err(MinimaxError::Decode(m)),
    }
}

} // verus!
