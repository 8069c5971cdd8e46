//! What a request asks for: its model and its tokens, the body that is sent on
//! in its place, and what quotas and the control plane say to it.
use crate::collections::TextMap;
use crate::crypto::{fresh_uuid, uuid_text};
use crate::domain::billing::ReserveRequest;
use crate::domain::Model;
use crate::gateway::auth::Principal;
use crate::json::{
    as_array, as_bool, as_str, as_u64, boolean, document, document_bytes, document_text, elements,
    encode, get, given_twice, insert, integer, integer_json, into_object, is_given_twice, is_null,
    json_of, list_names, members_of, no_members, null, object, parse, part, part_of, part_value,
    raw_map, raw_members, read_part, remove, split_members, unsigned, write_text, Json,
};
use crate::gateway::quota::{QuotaDecision, QuotaDenial, QuotaError, QuotaReservation};
use crate::gateway::usage::{limit_bits, unsigned_limit};
use crate::gateway::{http_refusal, internal_refusal, Refusal, Why};
use crate::text::{join, listed, whitespace};
use vstd::prelude::*;

verus! {

/// The body of an inference request, as far as it is read.
pub struct ModelRequest {
    pub model: String,
    pub messages: serde_json::Value,
    pub prompt: Option<serde_json::Value>,
    pub max_tokens: Option<u64>,
    pub max_completion_tokens: Option<u64>,
    pub n: Option<u64>,
    pub stream: bool,
}

/// A field that may be left out: a null is none.
pub open spec fn stated_part(json: Json, position: int, name: Seq<char>) -> Option<Json> {
    match part_of(json, position, name) {
        Some(Json::Null) => None,
        part => part,
    }
}

/// A count that may be left out; none at all where something else stands there.
pub open spec fn count_part(json: Json, position: int, name: Seq<char>) -> Option<Option<u64>> {
    match stated_part(json, position, name) {
        None => Some(None),
        Some(part) => match unsigned(part) {
            Some(count) => Some(Some(count)),
            None => None,
        },
    }
}

/// The messages of a request, null where it has none.
pub open spec fn messages_part(json: Json) -> Json {
    match part_of(json, 1, "messages"@) {
        Some(messages) => messages,
        None => Json::Null,
    }
}

/// Whether a document is a request: an object, or an array of the fields in their
/// order of which only the last may be missing.
pub open spec fn readable(json: Json) -> bool {
    &&& json is Object || (json matches Json::Array(values) && 6 <= values.len() <= 7)
    &&& part_of(json, 0, "model"@) matches Some(model) && model is Text
    &&& count_part(json, 3, "max_tokens"@) is Some
    &&& count_part(json, 4, "max_completion_tokens"@) is Some
    &&& count_part(json, 5, "n"@) is Some
    &&& part_of(json, 6, "stream"@) matches Some(stream) ==> stream is Bool
}

/// Whether a request holds what a document says.
pub open spec fn holds_parts(request: ModelRequest, json: Json) -> bool {
    &&& part_of(json, 0, "model"@) == Some(Json::Text(request.model@))
    &&& json_of(request.messages) == messages_part(json)
    &&& match request.prompt {
        Some(prompt) => stated_part(json, 2, "prompt"@) == Some(json_of(prompt)),
        None => stated_part(json, 2, "prompt"@) is None,
    }
    &&& count_part(json, 3, "max_tokens"@) == Some(request.max_tokens)
    &&& count_part(json, 4, "max_completion_tokens"@) == Some(request.max_completion_tokens)
    &&& count_part(json, 5, "n"@) == Some(request.n)
    &&& request.stream == (part_of(json, 6, "stream"@) == Some(Json::Bool(true)))
}

/// A field that is read of a request.
pub open spec fn request_field(name: Seq<char>) -> bool {
    ||| name == "model"@
    ||| name == "messages"@
    ||| name == "prompt"@
    ||| name == "max_tokens"@
    ||| name == "max_completion_tokens"@
    ||| name == "n"@
    ||| name == "stream"@
}

/// The fields that are read can be.
pub open spec fn fields_readable(members: Map<Seq<char>, Seq<u8>>) -> bool {
    forall|name: Seq<char>| #[trigger]
        members.dom().contains(name) && request_field(name) ==> part_value(members[name]) is Some
}

/// The fields that are read, by their names.
pub open spec fn fields_of(members: Map<Seq<char>, Seq<u8>>) -> Map<Seq<char>, Json> {
    Map::new(
        |name: Seq<char>| members.dom().contains(name) && request_field(name),
        |name: Seq<char>| part_value(members[name])->0,
    )
}

/// What is read of a body: the fields of an object, or a whole array. What else an
/// object holds is passed over, whatever it is.
pub open spec fn request_document(body: Seq<u8>) -> Option<Json> {
    match raw_members(body) {
        Some(members) => if fields_readable(members) {
            Some(Json::Object(fields_of(members)))
        } else {
            None
        },
        None => match document(body) {
            Some(Json::Array(values)) => Some(Json::Array(values)),
            _ => None,
        },
    }
}

/// A body gives one of the fields twice.
pub open spec fn repeats_field(body: Seq<u8>) -> bool {
    exists|name: Seq<char>| request_field(name) && #[trigger] given_twice(body, name)
}

/// What is read of a body that gives no field twice.
pub open spec fn plain_document(body: Seq<u8>) -> Option<Json> {
    if repeats_field(body) {
        None
    } else {
        request_document(body)
    }
}

/// Whether a request is what was read from a body, if the body is one.
pub open spec fn is_read(parsed: Option<ModelRequest>, body: Seq<u8>) -> bool {
    match parsed {
        Some(request) => plain_document(body) matches Some(json) && readable(json)
            && holds_parts(request, json),
        None => !(plain_document(body) matches Some(json) && readable(json)),
    }
}

fn has_repeated_field(body: &[u8]) -> (r: bool)
    ensures
        r == repeats_field(body@),
{
    let names = list_names(body);
    let r = is_given_twice(&names, "model", Ghost(body@)) || is_given_twice(
        &names,
        "messages",
        Ghost(body@),
    ) || is_given_twice(&names, "prompt", Ghost(body@)) || is_given_twice(
        &names,
        "max_tokens",
        Ghost(body@),
    ) || is_given_twice(&names, "max_completion_tokens", Ghost(body@)) || is_given_twice(
        &names,
        "n",
        Ghost(body@),
    ) || is_given_twice(&names, "stream", Ghost(body@));
    proof {
        if r {
            assert(given_twice(body@, "model"@) || given_twice(body@, "messages"@) || given_twice(
                body@,
                "prompt"@,
            ) || given_twice(body@, "max_tokens"@) || given_twice(body@, "max_completion_tokens"@)
                || given_twice(body@, "n"@) || given_twice(body@, "stream"@));
        }
    }
    r
}

/// Takes a field over, if the object has it and it can be read.
fn take_field(
    members: &TextMap<Vec<u8>>,
    fields: &mut serde_json::Map<String, serde_json::Value>,
    name: &str,
) -> (r: bool)
    requires
        members.wf(),
    ensures
        ({
            let raw = raw_map(members.entries@);
            let found = raw.dom().contains(name@);
            &&& r == (found ==> part_value(raw[name@]) is Some)
            &&& members_of(*final(fields)) == if found && r {
                members_of(*old(fields)).insert(name@, part_value(raw[name@])->0)
            } else {
                members_of(*old(fields))
            }
        }),
{
    match members.get(name) {
        Some(bytes) => match read_part(bytes.as_slice()) {
            Some(value) => {
                insert(fields, name, value);
                true
            },
            None => false,
        },
        None => true,
    }
}

/// Reads the fields of a body.
fn read_document(body: &[u8]) -> (r: Option<serde_json::Value>)
    ensures
        match r {
            Some(value) => request_document(body@) == Some(json_of(value)),
            None => request_document(body@) is None,
        },
{
    let members = match split_members(body) {
        Some(members) => members,
        None => return match parse(body) {
            Some(value) => if as_array(&value).is_some() {
                Some(value)
            } else {
                None
            },
            None => None,
        },
    };
    let ghost raw = raw_map(members.entries@);
    let mut fields = no_members();
    let complete = take_field(&members, &mut fields, "model") && take_field(
        &members,
        &mut fields,
        "messages",
    ) && take_field(&members, &mut fields, "prompt") && take_field(
        &members,
        &mut fields,
        "max_tokens",
    ) && take_field(&members, &mut fields, "max_completion_tokens") && take_field(
        &members,
        &mut fields,
        "n",
    ) && take_field(&members, &mut fields, "stream");
    if !complete {
        return None;
    }
    assert(fields_readable(raw));
    assert(members_of(fields) =~= fields_of(raw));
    Some(object(fields))
}

/// A count that may be left out.
fn count(value: &serde_json::Value, position: usize, name: &str) -> (r: Option<Option<u64>>)
    ensures
        r == count_part(json_of(*value), position as int, name@),
{
    match part(value, position, name) {
        Some(part) => if is_null(part) {
            Some(None)
        } else {
            match as_u64(part) {
                Some(count) => Some(Some(count)),
                None => None,
            }
        },
        None => Some(None),
    }
}

impl ModelRequest {
    /// Reads a request from a document.
    pub fn from_json(value: &serde_json::Value) -> (r: Option<Self>)
        ensures
            match r {
                Some(request) => readable(json_of(*value)) && holds_parts(request, json_of(*value)),
                None => !readable(json_of(*value)),
            },
    {
        match as_array(value) {
            Some(values) => {
                assert(elements(values@).len() == values@.len());
                if values.len() < 6 || values.len() > 7 {
                    return None;
                }
            },
            None => {},
        }
        let model = match part(value, 0, "model") {
            Some(model) => match as_str(model) {
                Some(model) => model,
                None => return None,
            },
            None => return None,
        };
        let messages = match part(value, 1, "messages") {
            Some(messages) => messages.clone(),
            None => null(),
        };
        let prompt = match part(value, 2, "prompt") {
            Some(prompt) => if is_null(prompt) {
                None
            } else {
                Some(prompt.clone())
            },
            None => None,
        };
        let stream = match part(value, 6, "stream") {
            Some(stream) => match as_bool(stream) {
                Some(stream) => stream,
                None => return None,
            },
            None => false,
        };
        match (
            count(value, 3, "max_tokens"),
            count(value, 4, "max_completion_tokens"),
            count(value, 5, "n"),
        ) {
            (Some(max_tokens), Some(max_completion_tokens), Some(n)) => Some(
                ModelRequest {
                    model: model.to_owned(),
                    messages,
                    prompt,
                    max_tokens,
                    max_completion_tokens,
                    n,
                    stream,
                },
            ),
            _ => None,
        }
    }

    /// Reads a request from the bytes of a body. A body that gives one of the fields
    /// twice is no request.
    pub fn from_slice(body: &[u8]) -> (r: Option<Self>)
        ensures
            is_read(r, body@),
    {
        if has_repeated_field(body) {
            return None;
        }
        match read_document(body) {
            Some(value) => Self::from_json(&value),
            None => None,
        }
    }
}

/// A prompt that is one text with something in it.
pub open spec fn text_prompt(prompt: Option<serde_json::Value>) -> bool {
    prompt matches Some(value) && json_of(value) matches Json::Text(text) && text.len() > 0
}

/// What is wrong with a request. The two APIs keep apart: one takes a prompt,
/// the other messages.
pub open spec fn request_fault(parsed: Option<ModelRequest>, text_completion: bool) -> Option<Why> {
    match parsed {
        None => Some(Why { status: Some(400), message: "invalid request body"@ }),
        Some(request) => if text_completion {
            if !(json_of(request.messages) is Null) || request.max_completion_tokens is Some
                || !text_prompt(request.prompt) {
                Some(
                    Why {
                        status: Some(400),
                        message: "text completions require one nonempty string prompt and max_tokens"@,
                    },
                )
            } else {
                None
            }
        } else if request.prompt is Some || !(json_of(request.messages) is Array) {
            Some(Why { status: Some(400), message: "chat completions require messages array"@ })
        } else {
            None
        },
    }
}

/// Checks a request that was read from a body, where the body is one. The prompt
/// of a text completion takes the place of the messages.
pub fn checked_request(parsed: Option<ModelRequest>, text_completion: bool) -> (r: Result<
    ModelRequest,
    Refusal,
>)
    ensures
        match r {
            Ok(request) => {
                &&& request_fault(parsed, text_completion) is None
                &&& parsed is Some
                &&& request == if text_completion {
                    ModelRequest { messages: parsed->0.prompt->0, prompt: None, ..parsed->0 }
                } else {
                    parsed->0
                }
            },
            Err(refusal) => request_fault(parsed, text_completion) == Some(refusal@),
        },
{
    let request = match parsed {
        Some(request) => request,
        None => return Err(http_refusal(400, "invalid request body")),
    };
    if !text_completion {
        if request.prompt.is_some() || as_array(&request.messages).is_none() {
            return Err(http_refusal(400, "chat completions require messages array"));
        }
        return Ok(request);
    }
    let nonempty = match &request.prompt {
        Some(value) => match as_str(value) {
            Some(text) => !text.is_empty(),
            None => false,
        },
        None => false,
    };
    if !is_null(&request.messages) || request.max_completion_tokens.is_some() || !nonempty {
        return Err(
            http_refusal(
                400,
                "text completions require one nonempty string prompt and max_tokens",
            ),
        );
    }
    let ModelRequest { model, messages, prompt, max_tokens, max_completion_tokens, n, stream } =
        request;
    match prompt {
        Some(prompt) => Ok(
            ModelRequest {
                model,
                messages: prompt,
                prompt: None,
                max_tokens,
                max_completion_tokens,
                n,
                stream,
            },
        ),
        None => Err(http_refusal(400, "missing prompt")),
    }
}

/// What is wrong with a body.
pub open spec fn body_fault(body: Seq<u8>, text_completion: bool) -> Option<Why> {
    match plain_document(body) {
        Some(json) => if !readable(json) {
            Some(Why { status: Some(400), message: "invalid request body"@ })
        } else if text_completion {
            if !(messages_part(json) is Null) || count_part(json, 4, "max_completion_tokens"@)
                != Some(None::<u64>) || !(stated_part(json, 2, "prompt"@) matches Some(
                Json::Text(prompt),
            ) && prompt.len() > 0) {
                Some(
                    Why {
                        status: Some(400),
                        message: "text completions require one nonempty string prompt and max_tokens"@,
                    },
                )
            } else {
                None
            }
        } else if stated_part(json, 2, "prompt"@) is Some || !(messages_part(json) is Array) {
            Some(Why { status: Some(400), message: "chat completions require messages array"@ })
        } else {
            None
        },
        None => Some(Why { status: Some(400), message: "invalid request body"@ }),
    }
}

/// Reads and checks a request. The prompt of a text completion takes the place of
/// the messages.
pub fn parse_request(bytes: &[u8], text_completion: bool) -> (r: Result<ModelRequest, Refusal>)
    ensures
        match r {
            Ok(request) => {
                let json = request_document(bytes@)->0;
                &&& body_fault(bytes@, text_completion) is None
                &&& part_of(json, 0, "model"@) == Some(Json::Text(request.model@))
                &&& json_of(request.messages) == if text_completion {
                    stated_part(json, 2, "prompt"@)->0
                } else {
                    messages_part(json)
                }
                &&& request.prompt is None
                &&& count_part(json, 3, "max_tokens"@) == Some(request.max_tokens)
                &&& count_part(json, 4, "max_completion_tokens"@) == Some(
                    request.max_completion_tokens,
                )
                &&& count_part(json, 5, "n"@) == Some(request.n)
                &&& request.stream == (part_of(json, 6, "stream"@) == Some(Json::Bool(true)))
            },
            Err(refusal) => body_fault(bytes@, text_completion) == Some(refusal@),
        },
{
    checked_request(ModelRequest::from_slice(bytes), text_completion)
}

/// The tokens of a text, as the model family counts them.
pub uninterp spec fn token_count(text: Seq<char>) -> nat;

/// The longest row of whitespace that the tokenizer takes before a word.
pub const MAX_WHITESPACE: usize = 999_998;

/// The length of the row of whitespace that a text ends with, from its last line
/// break on.
pub open spec fn trailing_space(text: Seq<char>) -> nat
    decreases text.len(),
{
    if text.len() > 0 && whitespace(text.last()) && text.last() != '\n' && text.last() != '\r' {
        trailing_space(text.drop_last()) + 1
    } else {
        0
    }
}

/// No row of whitespace before a word is longer than the tokenizer takes.
pub open spec fn tokenizable(text: Seq<char>) -> bool {
    forall|i: int|
        0 <= i < text.len() && !whitespace(#[trigger] text[i]) ==> trailing_space(text.take(i))
            <= MAX_WHITESPACE
}

fn is_space(c: char) -> (r: bool)
    ensures
        r == whitespace(c),
{
    let v = c as u32;
    (0x9 <= v && v <= 0xd) || v == 0x20 || v == 0x85 || v == 0xa0 || v == 0x1680 || (0x2000 <= v
        && v <= 0x200a) || v == 0x2028 || v == 0x2029 || v == 0x202f || v == 0x205f || v == 0x3000
}

fn is_tokenizable(text: &str) -> (r: bool)
    ensures
        r == tokenizable(text@),
{
    broadcast use vstd::string::axiom_spec_iter;

    let mut run: usize = 0;
    for c in iter: text.chars()
        invariant
            iter.seq() == text@,
            run <= MAX_WHITESPACE + 1,
            run == trailing_space(text@.take(iter.index() as int)) || (run == MAX_WHITESPACE + 1
                && trailing_space(text@.take(iter.index() as int)) > MAX_WHITESPACE),
            forall|i: int|
                0 <= i < iter.index() && !whitespace(#[trigger] text@[i]) ==> trailing_space(
                    text@.take(i),
                ) <= MAX_WHITESPACE,
    {
        proof {
            let i = iter.index() as int;
            assert(text@.take(i + 1).drop_last() =~= text@.take(i));
            assert(text@.take(i + 1).last() == text@[i]);
        }
        if !is_space(c) {
            if run > MAX_WHITESPACE {
                assert(!whitespace(text@[iter.index() as int]));
                return false;
            }
            run = 0;
        } else if c == '\n' || c == '\r' {
            run = 0;
        } else if run <= MAX_WHITESPACE {
            run = run + 1;
        }
    }
    true
}

/// `tiktoken_rs::CoreBPE::encode_ordinary` of the encoding `cl100k_base`: how
/// many tokens it makes. It panics where its pattern has a million places to come
/// back to at once. The one part of the pattern that keeps such places is the one
/// for whitespace before a word, which keeps one for each character behind the last
/// line break and one more: whitespace up to a line break and whitespace at the end
/// of the text are matched by other parts.
#[verifier::external_body]
fn count_tokens(text: &str) -> (r: usize)
    requires
        tokenizable(text@),
    ensures
        r == token_count(text@),
{
    tiktoken_rs::cl100k_base_singleton().encode_ordinary(text).len()
}

/// The text of the messages, which is empty where they cannot be written.
pub open spec fn message_text(request: ModelRequest) -> Seq<char> {
    match document_text(json_of(request.messages)) {
        Some(text) => text,
        None => Seq::empty(),
    }
}

fn write_messages(request: &ModelRequest) -> (r: String)
    ensures
        r@ == message_text(*request),
{
    match write_text(&request.messages) {
        Some(text) => text,
        None => String::new(),
    }
}

/// The completion tokens that a request asks for.
pub open spec fn requested_output(request: ModelRequest) -> u64 {
    match request.max_completion_tokens {
        Some(n) => n,
        None => match request.max_tokens {
            Some(n) => n,
            None => 1024,
        },
    }
}

fn output_of(request: &ModelRequest) -> (r: u64)
    ensures
        r == requested_output(*request),
{
    match request.max_completion_tokens {
        Some(n) => n,
        None => match request.max_tokens {
            Some(n) => n,
            None => 1024,
        },
    }
}

/// What a request may use in all: the tokens of its messages and those that it
/// asks for, up to one more than any limit of a key.
pub open spec fn reserved_tokens(request: ModelRequest) -> u64 {
    let sum = token_count(message_text(request)) + requested_output(request);
    if sum < 10_000_000_001 {
        sum as u64
    } else {
        10_000_000_001
    }
}

/// Estimates the tokens of a request.
pub fn estimate_reserved_tokens(request: &ModelRequest) -> (r: u64)
    requires
        tokenizable(message_text(*request)),
    ensures
        r == reserved_tokens(*request),
{
    let text = write_messages(request);
    let prompt: u64 = count_tokens(text.as_str()) as u64;
    let total = prompt.saturating_add(output_of(request));
    if total < 10_000_000_001 {
        total
    } else {
        10_000_000_001
    }
}

/// Bounds that contradict each other, or that a context cannot hold.
pub open spec fn bounds_unclear(request: ModelRequest, context: i64) -> bool {
    ||| request.max_completion_tokens is Some && request.max_tokens is Some
    ||| request.n matches Some(n) && n != 1
    ||| requested_output(request) == 0
    ||| requested_output(request) >= limit_bits(context)
}

/// What is wrong with the token bounds of a request.
pub open spec fn limits_fault(request: ModelRequest, context: i64) -> Option<Why> {
    if bounds_unclear(request, context) || reserved_tokens(request) > limit_bits(context) {
        Some(Why { status: Some(400), message: "ambiguous or excessive model token bounds"@ })
    } else if requested_output(request) > i64::MAX {
        Some(Why { status: Some(400), message: "completion token bound is too large"@ })
    } else {
        None
    }
}

fn are_bounds_unclear(request: &ModelRequest, context: i64) -> (r: bool)
    ensures
        r == bounds_unclear(*request, context),
{
    let several = match request.n {
        Some(n) => n != 1,
        None => false,
    };
    let output = output_of(request);
    (request.max_completion_tokens.is_some() && request.max_tokens.is_some()) || several || output
        == 0 || output >= unsigned_limit(context)
}

/// What the output leaves of a context can be written down, wherever the bounds let it be
/// taken off. That of a context which is not negative always can.
pub open spec fn limits_in_range(request: ModelRequest, context: i64) -> bool {
    !bounds_unclear(request, context) && requested_output(request) <= i64::MAX ==> context
        - requested_output(request) >= i64::MIN
}

/// Whether the limits of a request stay in range.
pub fn are_limits_in_range(request: &ModelRequest, context: i64) -> (r: bool)
    ensures
        r == limits_in_range(*request, context),
        context >= 0 ==> r,
{
    let output = output_of(request);
    are_bounds_unclear(request, context) || output > i64::MAX as u64 || context.checked_sub(
        output as i64,
    ).is_some()
}

/// The most input and output tokens that are paid for. The input is what the
/// output leaves of the context: an estimate of a tokenizer is no ceiling.
pub fn money_token_limits(request: &ModelRequest, context: i64) -> (r: Result<(i64, i64), Refusal>)
    requires
        tokenizable(message_text(*request)),
        limits_in_range(*request, context),
    ensures
        match r {
            Ok((input, output)) => {
                &&& limits_fault(*request, context) is None
                &&& output == requested_output(*request)
                &&& input == context - output
            },
            Err(refusal) => limits_fault(*request, context) == Some(refusal@),
        },
{
    if are_bounds_unclear(request, context) || estimate_reserved_tokens(request) > unsigned_limit(
        context,
    ) {
        return Err(http_refusal(400, "ambiguous or excessive model token bounds"));
    }
    let output = output_of(request);
    if output > i64::MAX as u64 {
        return Err(http_refusal(400, "completion token bound is too large"));
    }
    let output = output as i64;
    Ok((context - output, output))
}

/// The name under which the bound on the output is sent on.
pub open spec fn bound_name(request: ModelRequest) -> Seq<char> {
    if request.max_completion_tokens is Some {
        "max_completion_tokens"@
    } else {
        "max_tokens"@
    }
}

/// A body with the one bound on its output.
pub open spec fn bounded_json(json: Json, name: Seq<char>, output: int) -> Json {
    match json {
        Json::Object(members) => Json::Object(
            members.remove("max_tokens"@).remove("max_completion_tokens"@).insert(
                name,
                integer_json(output),
            ),
        ),
        other => other,
    }
}

pub open spec fn internal(message: Seq<char>) -> Why {
    Why { status: None, message }
}

/// The body with the one bound on its output, or why there is none.
pub open spec fn bounded_body(body: Seq<u8>, name: Seq<char>, output: int) -> Result<Seq<u8>, Why> {
    match document(body) {
        None => Err(internal("cannot decode validated inference request"@)),
        Some(json) => if !(json is Object) {
            Err(internal("validated inference request is not an object"@))
        } else {
            match document_bytes(bounded_json(json, name, output)) {
                None => Err(internal("cannot encode bounded inference request"@)),
                Some(bytes) => Ok(bytes),
            }
        },
    }
}

pub open spec fn body_agrees(r: Result<Vec<u8>, Refusal>, expected: Result<Seq<u8>, Why>) -> bool {
    match (r, expected) {
        (Ok(bytes), Ok(wanted)) => bytes@ == wanted,
        (Err(refusal), Err(why)) => refusal@ == why,
        _ => false,
    }
}

/// Writes the bound on the output into a body, in place of those that are there:
/// the model is held to what is paid for.
pub fn bound_output(body: &[u8], name: &str, output: i64) -> (r: Result<Vec<u8>, Refusal>)
    ensures
        body_agrees(r, bounded_body(body@, name@, output as int)),
{
    let value = match parse(body) {
        Some(value) => value,
        None => return Err(internal_refusal("cannot decode validated inference request")),
    };
    let mut members = match into_object(value) {
        Some(members) => members,
        None => return Err(internal_refusal("validated inference request is not an object")),
    };
    let _ = remove(&mut members, "max_tokens");
    let _ = remove(&mut members, "max_completion_tokens");
    insert(&mut members, name, integer(output));
    match encode(&object(members)) {
        Some(bytes) => Ok(bytes),
        None => Err(internal_refusal("cannot encode bounded inference request")),
    }
}

/// The stream options of a body, an empty object where there are none.
pub open spec fn stream_options(members: Map<Seq<char>, Json>) -> Json {
    let name = "stream_options"@;
    if members.dom().contains(name) && !(members[name] is Null) {
        members[name]
    } else {
        Json::Object(Map::empty())
    }
}

/// The body of a stream that states its usage at the end, or why there is none.
pub open spec fn metered_body(body: Seq<u8>) -> Result<Seq<u8>, Why> {
    match document(body) {
        None => Err(Why { status: Some(400), message: "invalid request body"@ }),
        Some(Json::Object(members)) => match stream_options(members) {
            Json::Object(options) => {
                let metered = Json::Object(
                    members.insert(
                        "stream_options"@,
                        Json::Object(options.insert("include_usage"@, Json::Bool(true))),
                    ),
                );
                match document_bytes(metered) {
                    None => Err(internal("cannot encode inference request"@)),
                    Some(bytes) => Ok(bytes),
                }
            },
            _ => Err(Why { status: Some(400), message: "stream_options must be an object"@ }),
        },
        Some(_) => Err(internal("validated inference request is not an object"@)),
    }
}

/// Asks the model to state the usage of a stream.
pub fn include_usage(body: &[u8]) -> (r: Result<Vec<u8>, Refusal>)
    ensures
        body_agrees(r, metered_body(body@)),
{
    let value = match parse(body) {
        Some(value) => value,
        None => return Err(http_refusal(400, "invalid request body")),
    };
    let mut members = match into_object(value) {
        Some(members) => members,
        None => return Err(internal_refusal("validated inference request is not an object")),
    };
    let ghost all = members_of(members);
    let stated = remove(&mut members, "stream_options");
    let options_value = match stated {
        Some(stated) => if is_null(&stated) {
            object(no_members())
        } else {
            stated
        },
        None => object(no_members()),
    };
    proof {
        assert forall|m: Map<Seq<char>, Json>| #[trigger] m.dom() == Set::<Seq<char>>::empty() implies m
            =~= Map::<Seq<char>, Json>::empty() by {}
        assert(json_of(options_value) == stream_options(all));
    }
    let mut options = match into_object(options_value) {
        Some(options) => options,
        None => return Err(http_refusal(400, "stream_options must be an object")),
    };
    insert(&mut options, "include_usage", boolean(true));
    insert(&mut members, "stream_options", object(options));
    assert(members_of(members) =~= all.insert(
        "stream_options"@,
        Json::Object(members_of(options)),
    ));
    match encode(&object(members)) {
        Some(bytes) => Ok(bytes),
        None => Err(internal_refusal("cannot encode inference request")),
    }
}

/// A request that may be sent on once quotas and the control plane agree.
pub struct Admitted {
    pub body: Vec<u8>,
    pub limits: Option<(i64, i64)>,
    pub tokens: u64,
}

/// What becomes of a request: it is refused, its text is beyond the tokenizer,
/// or it may be sent on.
pub ghost enum Outcome {
    Refused(Why),
    Uncountable,
    Ready { body: Seq<u8>, limits: Option<(i64, i64)>, tokens: u64 },
}

/// The context that is paid for: that of the model, within that of the gateway.
pub open spec fn paid_context(model: Option<Model>, context: i64) -> i64 {
    match model {
        Some(m) => if m.max_context_tokens < context {
            m.max_context_tokens
        } else {
            context
        },
        None => context,
    }
}

/// The context that a request is paid for in.
pub fn context_of(model: Option<&Model>, context: i64) -> (r: i64)
    ensures
        r == paid_context(
            match model {
                Some(m) => Some(*m),
                None => None,
            },
            context,
        ),
{
    match model {
        Some(m) => if m.max_context_tokens < context {
            m.max_context_tokens
        } else {
            context
        },
        None => context,
    }
}

/// What follows once the body is bounded.
pub open spec fn streamed_outcome(
    body: Seq<u8>,
    request: ModelRequest,
    limits: Option<(i64, i64)>,
) -> Outcome {
    let sent = if request.stream {
        metered_body(body)
    } else {
        Ok(body)
    };
    match sent {
        Err(why) => Outcome::Refused(why),
        Ok(bytes) => if !tokenizable(message_text(request)) {
            Outcome::Uncountable
        } else {
            Outcome::Ready { body: bytes, limits, tokens: reserved_tokens(request) }
        },
    }
}

pub open spec fn admission_outcome(
    body: Seq<u8>,
    request: ModelRequest,
    principal: Option<&Principal>,
    model: Option<Model>,
    context: Option<i64>,
) -> Outcome {
    if principal is None {
        Outcome::Refused(Why { status: Some(401), message: "request principal is missing"@ })
    } else if !listed(principal->0.allowed_models@, request.model@) {
        Outcome::Refused(
            Why { status: Some(403), message: "API key does not allow the requested model"@ },
        )
    } else {
        match context {
            None => streamed_outcome(body, request, None),
            Some(context) => {
                let paid = paid_context(model, context);
                if bounds_unclear(request, paid) {
                    Outcome::Refused(
                        Why {
                            status: Some(400),
                            message: "ambiguous or excessive model token bounds"@,
                        },
                    )
                } else if !tokenizable(message_text(request)) {
                    Outcome::Uncountable
                } else {
                    match limits_fault(request, paid) {
                        Some(why) => Outcome::Refused(why),
                        None => {
                            let output = requested_output(request) as i64;
                            match bounded_body(body, bound_name(request), output as int) {
                                Err(why) => Outcome::Refused(why),
                                Ok(bytes) => streamed_outcome(
                                    bytes,
                                    request,
                                    Some(((paid - output) as i64, output)),
                                ),
                            }
                        },
                    }
                }
            },
        }
    }
}

pub open spec fn outcome_agrees(r: Option<Result<Admitted, Refusal>>, expected: Outcome) -> bool {
    match (r, expected) {
        (None, Outcome::Uncountable) => true,
        (Some(Err(refusal)), Outcome::Refused(why)) => refusal@ == why,
        (Some(Ok(admitted)), Outcome::Ready { body, limits, tokens }) => {
            &&& admitted.body@ == body
            &&& admitted.limits == limits
            &&& admitted.tokens == tokens
        },
        _ => false,
    }
}

/// Prepares a request: checks that its key allows the model, bounds what it can
/// cost, and writes the body that is sent on. `context` is that of the gateway,
/// where requests are paid for. Nothing is returned where the text is beyond the
/// tokenizer.
pub fn admit_request(
    body: Vec<u8>,
    request: &ModelRequest,
    principal: Option<&Principal>,
    model: Option<&Model>,
    context: Option<i64>,
) -> (r: Option<Result<Admitted, Refusal>>)
    requires
        context matches Some(context) ==> limits_in_range(
            *request,
            paid_context(
                match model {
                    Some(m) => Some(*m),
                    None => None,
                },
                context,
            ),
        ),
    ensures
        outcome_agrees(
            r,
            admission_outcome(
                body@,
                *request,
                principal,
                match model {
                    Some(m) => Some(*m),
                    None => None,
                },
                context,
            ),
        ),
{
    let principal = match principal {
        Some(principal) => principal,
        None => return Some(Err(http_refusal(401, "request principal is missing"))),
    };
    if !principal.allows_model(request.model.as_str()) {
        return Some(Err(http_refusal(403, "API key does not allow the requested model")));
    }
    let mut sent = body;
    let mut limits: Option<(i64, i64)> = None;
    if let Some(context) = context {
        let paid = context_of(model, context);
        if are_bounds_unclear(request, paid) {
            return Some(Err(http_refusal(400, "ambiguous or excessive model token bounds")));
        }
        if !is_countable(request) {
            return None;
        }
        let bounds = match money_token_limits(request, paid) {
            Ok(bounds) => bounds,
            Err(refusal) => return Some(Err(refusal)),
        };
        let name = if request.max_completion_tokens.is_some() {
            "max_completion_tokens"
        } else {
            "max_tokens"
        };
        sent =
        match bound_output(sent.as_slice(), name, bounds.1) {
            Ok(bytes) => bytes,
            Err(refusal) => return Some(Err(refusal)),
        };
        limits = Some(bounds);
    }
    if request.stream {
        sent =
        match include_usage(sent.as_slice()) {
            Ok(bytes) => bytes,
            Err(refusal) => return Some(Err(refusal)),
        };
    }
    if !is_countable(request) {
        return None;
    }
    let tokens = estimate_reserved_tokens(request);
    Some(Ok(Admitted { body: sent, limits, tokens }))
}

/// Whether the tokenizer takes the text of a request.
pub fn is_countable(request: &ModelRequest) -> (r: bool)
    ensures
        r == tokenizable(message_text(*request)),
{
    let text = write_messages(request);
    is_tokenizable(text.as_str())
}

/// What the answer of the quota store means for a request.
pub fn quota_outcome(answer: Result<Option<QuotaDecision>, QuotaError>) -> (r: Result<
    Option<QuotaReservation>,
    Refusal,
>)
    ensures
        match answer {
            Ok(Some(QuotaDecision::Allowed(reservation))) => r matches Ok(Some(taken)) && taken
                == reservation,
            Ok(Some(QuotaDecision::Denied(QuotaDenial::RequestsPerMinute))) => r is Err
                && r->Err_0@ == (Why {
                status: Some(429),
                message: "API key distributed RPM limit exceeded"@,
            }),
            Ok(Some(QuotaDecision::Denied(QuotaDenial::TokensPerMinute))) => r is Err
                && r->Err_0@ == (Why {
                status: Some(429),
                message: "API key distributed TPM limit exceeded"@,
            }),
            Ok(None) => r matches Ok(None),
            Err(_) => r is Err && r->Err_0@ == (Why {
                status: Some(503),
                message: "distributed quota service unavailable"@,
            }),
        },
{
    match answer {
        Ok(Some(QuotaDecision::Allowed(reservation))) => Ok(Some(reservation)),
        Ok(Some(QuotaDecision::Denied(QuotaDenial::RequestsPerMinute))) => Err(
            http_refusal(429, "API key distributed RPM limit exceeded"),
        ),
        Ok(Some(QuotaDecision::Denied(QuotaDenial::TokensPerMinute))) => Err(
            http_refusal(429, "API key distributed TPM limit exceeded"),
        ),
        Ok(None) => Ok(None),
        Err(_) => Err(http_refusal(503, "distributed quota service unavailable")),
    }
}

/// The hold of a request, under an identifier of the gateway: that of a client
/// is for correlation, and never for what is paid.
pub open spec fn hold_of(
    principal: Principal,
    model_id: Seq<char>,
    model_revision: Seq<char>,
    price_version: Seq<char>,
    limits: (i64, i64),
    h: ReserveRequest,
) -> bool {
    &&& h.request_id@ == h.id@
    &&& h.tenant_id == principal.tenant_id
    &&& h.project_id == principal.project_id
    &&& h.api_key_id == principal.api_key_id
    &&& h.model_id@ == model_id
    &&& h.model_revision@ == model_revision
    &&& h.price_version@ == price_version
    &&& h.input_token_limit == limits.0
    &&& h.output_token_limit == limits.1
}

/// Asks for the hold of a request. Its price is that of the model, or that of
/// the gateway where the model is not in a catalog.
pub fn reservation_with(
    principal: &Principal,
    model_id: &str,
    model_revision: &str,
    model: Option<&Model>,
    price_version: &str,
    limits: (i64, i64),
    id: String,
) -> (r: ReserveRequest)
    ensures
        r.id == id,
        hold_of(
            *principal,
            model_id@,
            model_revision@,
            match model {
                Some(m) => m.price_version@,
                None => price_version@,
            },
            limits,
            r,
        ),
{
    ReserveRequest {
        request_id: id.clone(),
        id,
        tenant_id: principal.tenant_id.clone(),
        project_id: principal.project_id.clone(),
        api_key_id: principal.api_key_id.clone(),
        model_id: model_id.to_owned(),
        model_revision: model_revision.to_owned(),
        price_version: match model {
            Some(m) => m.price_version.clone(),
            None => price_version.to_owned(),
        },
        input_token_limit: limits.0,
        output_token_limit: limits.1,
    }
}

/// Asks for the hold of a request under a fresh identifier.
pub fn reservation(
    principal: &Principal,
    model_id: &str,
    model_revision: &str,
    model: Option<&Model>,
    price_version: &str,
    limits: (i64, i64),
) -> (r: ReserveRequest)
    ensures
        "req-"@.is_prefix_of(r.id@),
        uuid_text(r.id@.skip("req-"@.len() as int)),
        hold_of(
            *principal,
            model_id@,
            model_revision@,
            match model {
                Some(m) => m.price_version@,
                None => price_version@,
            },
            limits,
            r,
        ),
{
    let uuid = fresh_uuid();
    let id = join("req-", uuid.as_str());
    proof {
        assert(id@.subrange(0, "req-"@.len() as int) =~= "req-"@);
        assert(id@.skip("req-"@.len() as int) =~= uuid@);
    }
    reservation_with(
        principal,
        model_id,
        model_revision,
        model,
        price_version,
        limits,
        id,
    )
}

/// What a client is told of a financial admission that failed.
pub fn financial_refusal(status: u16) -> (r: Refusal)
    ensures
        r@ == (Why {
            status: Some(
                if status == 400 || status == 402 || status == 403 || status == 422 {
                    status
                } else {
                    503u16
                },
            ),
            message: "financial admission rejected or unavailable"@,
        }),
{
    if status == 400 || status == 402 || status == 403 || status == 422 {
        http_refusal(status, "financial admission rejected or unavailable")
    } else {
        http_refusal(503, "financial admission rejected or unavailable")
    }
}

/// What is paid for is what the context holds: input and output together are
/// the context, and the output is positive.
pub proof fn law_limits_add_up_to_the_context(request: ModelRequest, context: i64)
    requires
        context >= 0,
        limits_fault(request, context) is None,
    ensures
        0 < requested_output(request) < context,
        (context - requested_output(request)) + requested_output(request) == context,
        context - requested_output(request) > 0,
{
}

/// The body that is sent on states one bound on the output, the one that is
/// paid for, whatever the client wrote.
pub proof fn law_the_paid_bound_is_sent(
    members: Map<Seq<char>, Json>,
    name: Seq<char>,
    output: int,
)
    requires
        name == "max_tokens"@ || name == "max_completion_tokens"@,
    ensures
        bounded_json(Json::Object(members), name, output) matches Json::Object(sent)
            && sent.dom().contains(name) && sent[name] == integer_json(output)
            && forall|other: Seq<char>|
            (other == "max_tokens"@ || other == "max_completion_tokens"@) && other != name
                ==> !#[trigger] sent.dom().contains(other),
{
}

/// Token bounds are taken only if they are clear: one bound and one choice, a positive output
/// that leaves room in the window, and messages that fit with it.
pub proof fn law_token_bounds_are_clear_and_fit(request: ModelRequest, context: i64)
    requires
        context >= 0,
        limits_fault(request, context) is None,
    ensures
        request.max_completion_tokens is None || request.max_tokens is None,
        request.n is None || request.n->0 == 1,
        request.max_completion_tokens is Some ==> 0 < request.max_completion_tokens->0 < context,
        request.max_tokens is Some ==> 0 < request.max_tokens->0 < context,
        request.max_completion_tokens is None && request.max_tokens is None ==> 1024 < context,
        context <= 10_000_000_000 ==> token_count(message_text(request)) + requested_output(request)
            <= context,
{
}

/// Bounds that are clear and fit are taken.
pub proof fn law_clear_bounds_that_fit_are_taken(request: ModelRequest, context: i64)
    requires
        context >= 0,
        request.max_completion_tokens is None || request.max_tokens is None,
        request.n is None || request.n->0 == 1,
        0 < requested_output(request) < context,
        token_count(message_text(request)) + requested_output(request) <= context,
    ensures
        limits_fault(request, context) is None,
{
}

/// The output that a request asks for is the bound that it states, under either name, or 1024
/// tokens; what is reserved for it is that and its messages, and grows with each of them.
pub proof fn law_reserved_tokens_cover_messages_and_output(request: ModelRequest)
    ensures
        request.max_completion_tokens is Some ==> requested_output(request)
            == request.max_completion_tokens->0,
        request.max_completion_tokens is None && request.max_tokens is Some ==> requested_output(
            request,
        ) == request.max_tokens->0,
        request.max_completion_tokens is None && request.max_tokens is None ==> requested_output(
            request,
        ) == 1024,
        reserved_tokens(request) <= 10_000_000_001,
        reserved_tokens(request) < 10_000_000_001 ==> reserved_tokens(request) == token_count(
            message_text(request),
        ) + requested_output(request),
        token_count(message_text(request)) + requested_output(request) > 10_000_000_000
            ==> reserved_tokens(request) > 10_000_000_000,
{
}

/// A request is admitted only with a model of its key. What is held for it covers the whole
/// window that was paid for: the smaller of the model's and the gateway's; and the output that
/// it asks for is what it is held to.
pub proof fn law_admitted_requests_are_held_for_in_whole(
    body: Seq<u8>,
    request: ModelRequest,
    principal: Option<&Principal>,
    model: Option<Model>,
    context: Option<i64>,
)
    requires
        admission_outcome(body, request, principal, model, context) is Ready,
        context is Some ==> context->0 >= 0,
        model is Some ==> model->0.max_context_tokens >= 0,
    ensures
        principal is Some,
        listed(principal->0.allowed_models@, request.model@),
        ({
            let out = admission_outcome(body, request, principal, model, context);
            &&& out->limits is Some <==> context is Some
            &&& out->tokens == reserved_tokens(request)
            &&& context is Some ==> {
                let paid = if model is Some && model->0.max_context_tokens < context->0 {
                    model->0.max_context_tokens
                } else {
                    context->0
                };
                let (input, output) = out->limits->0;
                &&& input + output == paid
                &&& output == requested_output(request)
                &&& 0 < output < paid
            }
            &&& context is None && !request.stream ==> out->body == body
        }),
{
}

/// A request without a key, or for a model that its key does not allow, is refused before
/// anything else is looked at.
pub proof fn law_foreign_models_are_refused_first(
    body: Seq<u8>,
    request: ModelRequest,
    principal: Option<&Principal>,
    model: Option<Model>,
    context: Option<i64>,
)
    ensures
        principal is None ==> admission_outcome(body, request, principal, model, context)
            == Outcome::Refused(
            Why { status: Some(401u16), message: "request principal is missing"@ },
        ),
        principal is Some && !listed(principal->0.allowed_models@, request.model@)
            ==> admission_outcome(body, request, principal, model, context) == Outcome::Refused(
            Why { status: Some(403u16), message: "API key does not allow the requested model"@ },
        ),
{
}

/// A stream is asked to state its usage, and nothing else of the request is changed.
pub proof fn law_streams_are_asked_for_their_usage(body: Seq<u8>, members: Map<Seq<char>, Json>)
    requires
        document(body) == Some(Json::Object(members)),
        !members.dom().contains("stream_options"@) || members["stream_options"@] is Null
            || members["stream_options"@] is Object,
        metered_body(body) is Ok,
    ensures
        exists|sent: Map<Seq<char>, Json>|
            {
                &&& #[trigger] document_bytes(Json::Object(sent)) == Some(metered_body(body)->Ok_0)
                &&& sent.dom().contains("stream_options"@)
                &&& sent["stream_options"@] matches Json::Object(options) && options.dom().contains(
                    "include_usage"@,
                ) && options["include_usage"@] == Json::Bool(true)
                &&& forall|name: Seq<char>|
                    name != "stream_options"@ ==> (sent.dom().contains(name)
                        <==> members.dom().contains(name)) && (members.dom().contains(name)
                        ==> #[trigger] sent[name] == members[name])
            },
{
    let options = stream_options(members)->Object_0;
    let sent = members.insert(
        "stream_options"@,
        Json::Object(options.insert("include_usage"@, Json::Bool(true))),
    );
    assert(document_bytes(Json::Object(sent)) == Some(metered_body(body)->Ok_0));
}

/// The hold of a request is in the name of its key, for the model, the revision and the price
/// that were selected, and up to the limits that it was admitted with.
pub proof fn law_holds_are_in_the_name_of_the_key(
    principal: Principal,
    model_id: Seq<char>,
    model_revision: Seq<char>,
    price_version: Seq<char>,
    limits: (i64, i64),
    h: ReserveRequest,
)
    requires
        hold_of(principal, model_id, model_revision, price_version, limits, h),
    ensures
        h.api_key_id == principal.api_key_id && h.project_id == principal.project_id && h.tenant_id
            == principal.tenant_id,
        h.model_id@ == model_id && h.model_revision@ == model_revision && h.price_version@
            == price_version,
        h.input_token_limit == limits.0,
        h.output_token_limit == limits.1,
        h.request_id@ == h.id@,
{
}

/// A chat request has messages and no prompt, and a text request a prompt that is not empty and
/// no messages; both are asked for with a body that can be read.
pub proof fn law_requests_are_of_their_own_kind(request: ModelRequest, text_completion: bool)
    ensures
        request_fault(Some(request), text_completion) is None ==> if text_completion {
            &&& json_of(request.messages) is Null
            &&& request.max_completion_tokens is None
            &&& request.prompt is Some
            &&& json_of(request.prompt->0) matches Json::Text(text) && text.len() > 0
        } else {
            &&& request.prompt is None
            &&& json_of(request.messages) is Array
        },
        !text_completion && request.prompt is None && json_of(request.messages) is Array
            ==> request_fault(Some(request), text_completion) is None,
        request_fault(None, text_completion) is Some,
{
}

/// A field that is given twice makes a body unreadable, whatever the two say.
pub proof fn law_repeated_fields_make_a_body_unreadable(
    body: Seq<u8>,
    name: Seq<char>,
    parsed: Option<ModelRequest>,
)
    requires
        name == "model"@ || name == "messages"@ || name == "prompt"@ || name == "max_tokens"@ || name
            == "max_completion_tokens"@ || name == "n"@ || name == "stream"@,
        given_twice(body, name),
        is_read(parsed, body),
    ensures
        parsed is None,
        body_fault(body, true) is Some && body_fault(body, false) is Some,
{
    assert(request_field(name) && given_twice(body, name));
}

/// A request that was read holds what was sent: the model, the bounds, the number of choices and
/// whether it streams.
pub proof fn law_read_requests_hold_what_was_sent(
    request: ModelRequest,
    body: Seq<u8>,
    members: Map<Seq<char>, Json>,
)
    requires
        is_read(Some(request), body),
        plain_document(body) == Some(Json::Object(members)),
    ensures
        members.dom().contains("model"@) && members["model"@] == Json::Text(request.model@),
        request.stream <==> members.dom().contains("stream"@) && members["stream"@] == Json::Bool(
            true,
        ),
        request.max_tokens is Some ==> members.dom().contains("max_tokens"@) && unsigned(
            members["max_tokens"@],
        ) == request.max_tokens,
        request.max_completion_tokens is Some ==> members.dom().contains("max_completion_tokens"@)
            && unsigned(members["max_completion_tokens"@]) == request.max_completion_tokens,
        request.n is Some ==> members.dom().contains("n"@) && unsigned(members["n"@]) == request.n,
        members.dom().contains("max_tokens"@) && !(members["max_tokens"@] is Null)
            ==> request.max_tokens is Some,
        members.dom().contains("max_completion_tokens"@) && !(members["max_completion_tokens"@]
            is Null) ==> request.max_completion_tokens is Some,
        members.dom().contains("n"@) && !(members["n"@] is Null) ==> request.n is Some,
        members.dom().contains("messages"@) ==> json_of(request.messages) == members["messages"@],
        members.dom().contains("prompt"@) && !(members["prompt"@] is Null) ==> request.prompt
            is Some && json_of(request.prompt->0) == members["prompt"@],
{
}

/// What is refused of a body is what is refused of the request that was read from it.
pub proof fn law_bodies_are_refused_as_they_are_read(
    parsed: Option<ModelRequest>,
    body: Seq<u8>,
    text_completion: bool,
)
    requires
        is_read(parsed, body),
    ensures
        request_fault(parsed, text_completion) == body_fault(body, text_completion),
{
}

} // verus!
