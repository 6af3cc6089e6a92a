//! One request and its response, from headers and body to what is sent.

use vstd::prelude::*;
use vstd::string::*;
use vstd::utf8::*;

use crate::anthropic::auth;
use crate::anthropic::config::Config;
use crate::anthropic::engine;
use crate::anthropic::engine::plan;
use crate::anthropic::engine::plan::ResponsePlan;
use crate::anthropic::engine::scenario;
use crate::anthropic::engine::scenario::{ScenarioScript, SuccessScript};
use crate::anthropic::logs::RequestLog;
use crate::anthropic::models;
use crate::anthropic::models::{AnthropicError, ErrorView, MessagesRequest};
use crate::anthropic::sse;
use crate::anthropic::sse::{event_response, messages_events};
use crate::anthropic::state;
use crate::anthropic::state::{AppState, NamespaceKey, SpaceView, StateView};
use crate::hash;
use crate::hash::request_hash;
use crate::headers;
use crate::headers::Headers;
use crate::json::{Json, JsonView, Members};
use crate::reply;
use crate::reply::{Body, BodyView, Reply, ReplyView};
use crate::transport;
use crate::transport::RawChunk;
use crate::{codec, json, text};

verus! {

/// The answer to a request: a response, or an error with headers of its own.
pub enum Answer {
    Sent(Reply),
    Refused { delay_ms: u64, headers: Headers, error: AnthropicError },
}

/// The answer to a request.
#[verifier::ext_equal]
pub enum AnswerView {
    Sent(ReplyView),
    Refused { delay_ms: u64, headers: Map<Seq<char>, Seq<char>>, error: ErrorView },
}

impl Answer {
    /// The answer denoted.
    pub open spec fn view(&self) -> AnswerView {
        match self {
            Answer::Sent(reply) => AnswerView::Sent(reply@),
            Answer::Refused { delay_ms, headers, error } => AnswerView::Refused {
                delay_ms: *delay_ms,
                headers: headers@,
                error: error@,
            },
        }
    }
}

/// A plain refusal.
pub open spec fn refused(error: ErrorView) -> AnswerView {
    AnswerView::Refused { delay_ms: 0, headers: Map::empty(), error }
}

/// A plain refusal.
pub fn refuse(error: AnthropicError) -> (r: Answer)
    ensures
        r@ == refused(error@),
{
    Answer::Refused { delay_ms: 0, headers: Headers::new(), error }
}

/// A request that was read but not yet decoded.
pub struct Pending {
    pub namespace: NamespaceKey,
    pub hash: Option<String>,
    pub estimated: u64,
}

/// What the first look at a request gives: an answer, or a request to decode.
pub enum Begun {
    Answered(Answer, Option<RequestLog>),
    Undecided(Pending),
}

/// The members that a count request may have.
pub open spec fn countable(k: Seq<char>) -> bool {
    ||| k == "model"@
    ||| k == "messages"@
    ||| k == "system"@
    ||| k == "tools"@
    ||| k == "tool_choice"@
    ||| k == "thinking"@
    ||| k == "cache_control"@
    ||| k == "context_management"@
}

/// Whether `k` is the first member, in order, that a count request may not have.
pub open spec fn first_uncountable(m: Map<Seq<char>, JsonView>, k: Seq<char>) -> bool {
    &&& m.contains_key(k)
    &&& !countable(k)
    &&& forall|o: Seq<char>| #[trigger]
        m.contains_key(o) && !countable(o) ==> o == k || text::precedes(k, o)
}

/// The refusal of a count request with members of a generation request.
pub open spec fn count_error(request: JsonView) -> Option<ErrorView> {
    match request {
        JsonView::Object(m) if exists|k: Seq<char>| #[trigger] first_uncountable(m, k) => Some(
            models::invalid(
                choose|k: Seq<char>| #[trigger] first_uncountable(m, k),
                "not accepted by count_tokens"@,
            ),
        ),
        _ => None,
    }
}

/// The estimate of the tokens in a text: one for every four bytes, rounded up.
pub open spec fn tokens_in(written: Seq<char>) -> nat {
    (encode_utf8(written).len() + 3) / 4
}

/// The estimate of the tokens in a text.
pub fn text_tokens(written: &str) -> (r: u64)
    ensures
        r == tokens_in(written@),
{
    let bytes: usize = written.as_bytes().len();
    let extra: usize = if bytes % 4 > 0 {
        1
    } else {
        0
    };
    (bytes / 4 + extra) as u64
}

/// The estimate of a request's tokens: that of its compact text.
pub open spec fn estimated_tokens(request: JsonView) -> nat {
    tokens_in(codec::json_text(request))
}

/// The response that a recorded exchange gives. Its events go out one chunk
/// each; its text goes out as it was.
pub open spec fn transcript_reply(script: ScenarioScript) -> ReplyView {
    match script {
        ScenarioScript::Transcript { status, content_type, body, body_text, events, headers } => {
            let (first, sent) = match events {
                Some(events) => (
                    reply::typed("text/event-stream"@),
                    BodyView::Chunks(reply::event_chunks(scenario::transcript_view(events@))),
                ),
                None => (
                    reply::typed("application/json"@),
                    BodyView::Whole(
                        match (body_text, body) {
                            (Some(t), _) => t@,
                            (None, Some(v)) => codec::json_text(v@),
                            (None, None) => codec::json_text(JsonView::Null),
                        },
                    ),
                ),
            };
            ReplyView {
                delay_ms: 0,
                status: headers::status_or_500(status),
                headers: transport::with_content_type(
                    first.union_prefer_right(headers::sent_headers(headers@)),
                    text::opt_text(content_type),
                ),
                body: sent,
            }
        },
        _ => ReplyView {
            delay_ms: 0,
            status: 500,
            headers: Map::empty(),
            body: BodyView::Whole(Seq::empty()),
        },
    }
}

/// Renders a recorded exchange as it was captured.
pub fn transcript_response(script: &ScenarioScript) -> (r: Reply)
    requires
        *script is Transcript,
    ensures
        r@ == transcript_reply(*script),
{
    match script {
        ScenarioScript::Transcript { status, content_type, body, body_text, events, headers } => {
            let mut reply = match events {
                Some(events) => {
                    let plain = SuccessScript::default();
                    proof {
                        sse::faultless_stream_sends_all(
                            scenario::transcript_view(events@),
                            plain,
                        );
                    }
                    event_response(events, &plain)
                },
                None => {
                    let whole = match (body_text, body) {
                        (Some(t), _) => t.clone(),
                        (None, Some(v)) => codec::render(v),
                        (None, None) => codec::render(&Json::Null),
                    };
                    json_reply(whole)
                },
            };
            reply.status = headers::final_status(*status);
            headers::apply_headers(&mut reply.headers, headers);
            transport::set_content_type(&mut reply.headers, content_type);
            reply
        },
        _ => Reply {
            delay_ms: 0,
            status: 500,
            headers: Headers::new(),
            body: Body::Whole(String::new()),
        },
    }
}

/// A JSON response.
pub open spec fn json_response(s: Seq<char>) -> ReplyView {
    ReplyView {
        delay_ms: 0,
        status: 200,
        headers: reply::typed("application/json"@),
        body: BodyView::Whole(s),
    }
}

/// A JSON response.
fn json_reply(whole: String) -> (r: Reply)
    ensures
        r@ == json_response(whole@),
{
    let mut headers = Headers::new();
    headers.set("content-type", "application/json");
    assert(headers@ =~= reply::typed("application/json"@));
    Reply { delay_ms: 0, status: 200, headers, body: Body::Whole(whole) }
}

/// A response with a script's wait and headers.
pub open spec fn scripted(r: ReplyView, s: SuccessScript) -> ReplyView {
    ReplyView {
        delay_ms: s.delay_before_headers_ms,
        headers: r.headers.union_prefer_right(headers::sent_headers(s.headers@)),
        ..r
    }
}

/// The document that answers a count.
pub open spec fn count_document(s: SuccessScript, estimated: u64) -> JsonView {
    JsonView::Object(
        map![
            "input_tokens"@ => json::int_view(
                match s.input_tokens {
                    Some(n) => n,
                    None => estimated,
                },
            )
        ],
    )
}

/// The response that a plan gives, streamed or not.
pub open spec fn plan_response(p: ResponsePlan, stream: bool, s: SuccessScript) -> ReplyView {
    if stream {
        sse::stream_reply(sse::as_events(sse::stream_data(p)), s)
    } else {
        json_response(codec::json_text(JsonView::Object(p.message())))
    }
}

/// Whether `a` is the answer that a scripted success gives.
pub open spec fn success_answers(
    a: AnswerView,
    s: SuccessScript,
    request: MessagesRequest,
    number: u64,
    estimated: u64,
    count: bool,
) -> bool {
    if count {
        a == AnswerView::Sent(
            scripted(json_response(codec::json_text(count_document(s, estimated))), s),
        )
    } else {
        match plan::choice_refusal(
            plan::planned_blocks(number, request, s),
            request.tool_choice@,
        ) {
            Some(e) => a == refused(e),
            None => exists|p: ResponsePlan| #[trigger]
                plan::is_plan(p, number, request, s) && a == AnswerView::Sent(
                    scripted(plan_response(p, request.stream, s), s),
                ),
        }
    }
}

/// The headers that a scripted error sends.
pub open spec fn error_headers(
    headers: Map<Seq<char>, Seq<char>>,
    retry_after: Option<String>,
) -> Map<Seq<char>, Seq<char>> {
    headers::sent_headers(
        match retry_after {
            Some(value) => headers.insert("retry-after"@, value@),
            None => headers,
        },
    )
}

/// The response that raw body actions give.
pub open spec fn raw_response_view(
    status: u16,
    content_type: Option<String>,
    headers: Map<Seq<char>, Seq<char>>,
    chunks: Seq<RawChunk>,
    delay_ms: u64,
) -> ReplyView {
    let all = transport::raw_view(chunks);
    ReplyView {
        delay_ms,
        status: headers::status_or_500(status),
        headers: transport::raw_headers(headers, text::opt_text(content_type)),
        body: BodyView::Chunks(all.take(transport::sent_count(all) as int)),
    }
}

/// Whether `a` is the answer that a script gives.
pub open spec fn script_answers(
    a: AnswerView,
    script: ScenarioScript,
    request: MessagesRequest,
    number: u64,
    estimated: u64,
    count: bool,
) -> bool {
    match script {
        ScenarioScript::Success(s) => success_answers(a, *s, request, number, estimated, count),
        ScenarioScript::Error {
            status,
            message,
            error_type,
            code,
            retry_after,
            headers,
            delay_before_headers_ms,
        } => a == (AnswerView::Refused {
            delay_ms: delay_before_headers_ms,
            headers: error_headers(headers@, retry_after),
            error: ErrorView {
                status: headers::status_or_500(status),
                kind: "error"@,
                error_type: error_type@,
                message: message@,
                code: text::opt_text(code),
            },
        }),
        ScenarioScript::Hang { delay_before_headers_ms } => a == AnswerView::Sent(
            ReplyView {
                delay_ms: delay_before_headers_ms,
                status: 200,
                headers: Map::empty(),
                body: BodyView::Never,
            },
        ),
        ScenarioScript::Raw { status, content_type, headers, chunks, delay_before_headers_ms } => a
            == AnswerView::Sent(
            raw_response_view(
                status,
                content_type,
                headers@,
                chunks@,
                delay_before_headers_ms,
            ),
        ),
        ScenarioScript::Transcript { .. } => a == AnswerView::Sent(transcript_reply(script)),
    }
}

/// Whether a member may stand in a count request.
fn is_countable(k: &str) -> (r: bool)
    ensures
        r == countable(k@),
{
    text::same(k, "model") || text::same(k, "messages") || text::same(k, "system") || text::same(
        k,
        "tools",
    ) || text::same(k, "tool_choice") || text::same(k, "thinking") || text::same(
        k,
        "cache_control",
    ) || text::same(k, "context_management")
}

/// Checks the members of a count request.
fn validate_count(request: &Json) -> (r: Result<(), AnthropicError>)
    ensures
        models::refusal(r) == count_error(request@),
{
    let members = match request {
        Json::Object(members) => members,
        _ => {
            return Ok(());
        },
    };
    let mut first: Option<&str> = None;
    for i in 0..members.entries.len()
        invariant
            request@ == JsonView::Object(members@),
            match first {
                Some(k) => members@.contains_key(k@) && !countable(k@) && forall|j: int|
                    0 <= j < i && !countable((#[trigger] members.entries@[j]).0@)
                        ==> members.entries@[j].0@ == k@ || text::precedes(
                        k@,
                        members.entries@[j].0@,
                    ),
                None => forall|j: int|
                    0 <= j < i ==> countable((#[trigger] members.entries@[j]).0@),
            },
    {
        let name = members.entries[i].0.as_str();
        proof {
            json::lemma_members_name(members.entries@, i as int);
        }
        if !is_countable(name) {
            let ghost before = first;
            let earlier = match first {
                Some(k) => text::comes_before(name, k),
                None => true,
            };
            if earlier {
                first = Some(name);
            }
            proof {
                match before {
                    Some(k) => {
                        text::precedes_is_total(k@, name@);
                        assert forall|j: int|
                            0 <= j < i + 1 && !countable(
                                (#[trigger] members.entries@[j]).0@,
                            ) implies members.entries@[j].0@ == first->0@ || text::precedes(
                            first->0@,
                            members.entries@[j].0@,
                        ) by {
                            if j < i && earlier && members.entries@[j].0@ != k@ {
                                text::precedes_is_transitive(name@, k@, members.entries@[j].0@);
                            }
                        }
                    },
                    None => {},
                }
            }
        }
    }
    match first {
        Some(k) => {
            proof {
                let m = members@;
                assert forall|o: Seq<char>| #[trigger]
                    m.contains_key(o) && !countable(o) implies o == k@ || text::precedes(
                    k@,
                    o,
                ) by {
                    let j = json::lemma_members_source(members.entries@, o);
                    assert(members.entries@[j].0@ == o);
                }
                assert(first_uncountable(m, k@));
                let c = choose|c: Seq<char>| #[trigger] first_uncountable(m, c);
                if c != k@ {
                    text::precedes_is_total(c, k@);
                }
            }
            Err(AnthropicError::invalid_request(k, "not accepted by count_tokens"))
        },
        None => {
            proof {
                let m = members@;
                assert forall|k: Seq<char>| !#[trigger] first_uncountable(m, k) by {
                    if m.contains_key(k) {
                        let j = json::lemma_members_source(members.entries@, k);
                        assert(members.entries@[j].0@ == k);
                    }
                }
            }
            Ok(())
        },
    }
}

/// The estimate of a request's tokens.
fn estimate(request: &Json) -> (r: u64)
    ensures
        r == estimated_tokens(request@),
{
    text_tokens(codec::render(request).as_str())
}

/// What the first look at a request gives. The credentials, the version and the
/// body are checked in this order; a recorded exchange answers without any more
/// checks; a count request is held to its members.
pub open spec fn begun(
    b: Begun,
    before: StateView,
    after: StateView,
    required: bool,
    contents: Map<Seq<char>, Seq<Seq<u8>>>,
    body: Seq<u8>,
    count: bool,
) -> bool {
    let key = auth::credential(contents);
    let parsed = codec::json_parse(body);
    let hash = hash::body_key(body);
    if auth::credential_error(contents, required) is Some {
        b matches Begun::Answered(a, log) && log is None && after == before && a@ == refused(
            auth::credential_refusal(),
        )
    } else if auth::version_error(contents) is Some {
        b matches Begun::Answered(a, log) && log is None && after == before && a@ == refused(
            auth::version_error(contents)->0,
        )
    } else if parsed is Err {
        b matches Begun::Answered(a, log) && log is None && after == before && a@ == refused(
            models::invalid("body"@, parsed->Err_0),
        )
    } else {
        let request = parsed->Ok_0;
        let context = engine::raw_context(request, hash, count);
        let space = before.space(key);
        let answer = state::answered(space.scenarios, context, true).0;
        let answered = engine::space_answered(space, context, true);
        match answer {
            Some(s) => {
                let logged = state::log_of(context, engine::answer_id(answer));
                b matches Begun::Answered(a, log) && engine::opt_log(log) == Some(logged) && a@
                    == AnswerView::Sent(transcript_reply(*s.script)) && after == before.with_space(
                    key,
                    engine::space_logged(answered, logged),
                )
            },
            None => after == before.with_space(key, answered) && if count && count_error(
                request,
            ) is Some {
                b matches Begun::Answered(a, log) && log is None && a@ == refused(
                    count_error(request)->0,
                )
            } else {
                b matches Begun::Undecided(p) && p.namespace@ == key && text::opt_text(p.hash)
                    == hash && p.estimated == estimated_tokens(request)
            },
        }
    }
}

/// Takes a first look at a request: answers it, or asks for it to be decoded.
pub fn begin(
    app: &mut AppState,
    headers: &axum::http::HeaderMap<axum::http::HeaderValue>,
    body: &[u8],
    count: bool,
) -> (r: Begun)
    requires
        old(app).wf(),
    ensures
        final(app).wf(),
        old(app)@.sound() ==> final(app)@.sound(),
        begun(
            r,
            old(app)@,
            final(app)@,
            old(app)@.config.require_auth,
            headers::header_contents(*headers),
            body@,
            count,
        ),
{
    let required = app.config().require_auth;
    let namespace = match auth::request_namespace(headers, required) {
        Ok(namespace) => namespace,
        Err(e) => {
            return Begun::Answered(refuse(e), None);
        },
    };
    match auth::validate_version(headers) {
        Ok(()) => {},
        Err(e) => {
            return Begun::Answered(refuse(e), None);
        },
    }
    let parsed = match codec::parse(body) {
        Ok(parsed) => parsed,
        Err(e) => {
            return Begun::Answered(
                refuse(AnthropicError::invalid_request("body", e.as_str())),
                None,
            );
        },
    };
    let hash = request_hash(body);
    let copy = text::copy_opt(&hash);
    match engine::select_recorded_transcript(app, &namespace, &parsed, copy, count) {
        Some((script, log)) => {
            return Begun::Answered(Answer::Sent(transcript_response(&*script)), Some(log));
        },
        None => {},
    }
    if count {
        match validate_count(&parsed) {
            Ok(()) => {},
            Err(e) => {
                return Begun::Answered(refuse(e), None);
            },
        }
    }
    let estimated = estimate(&parsed);
    Begun::Undecided(Pending { namespace, hash, estimated })
}

/// The answer of a scripted success.
fn answer_success(
    app: &mut AppState,
    namespace: &NamespaceKey,
    request: &MessagesRequest,
    s: &SuccessScript,
    estimated: u64,
    count: bool,
) -> (r: Answer)
    requires
        old(app).wf(),
        count || old(app)@.space(namespace@).next < u64::MAX,
    ensures
        final(app).wf(),
        old(app)@.sound() ==> final(app)@.sound(),
        success_answers(
            r@,
            *s,
            *request,
            old(app)@.space(namespace@).next,
            estimated,
            count,
        ),
        final(app)@ == (if count {
            old(app)@
        } else {
            old(app)@.with_space(namespace@, numbered(old(app)@.space(namespace@)))
        }),
{
    let mut sent = if count {
        let n: u64 = match s.input_tokens {
            Some(n) => n,
            None => estimated,
        };
        let mut m = Members::new();
        m.set("input_tokens", Json::uint(n));
        json_reply(codec::render(&Json::Object(m)))
    } else {
        let number = app.next_response_id(namespace);
        let p = match ResponsePlan::build(number, request, s) {
            Ok(p) => p,
            Err(e) => {
                return refuse(e);
            },
        };
        let made = if request.stream {
            event_response(&messages_events(&p), s)
        } else {
            json_reply(codec::render(&p.messages_json()))
        };
        assert(plan::is_plan(p, number, *request, *s) && made@ == plan_response(
            p,
            request.stream,
            *s,
        ));
        made
    };
    sent.delay_ms = s.delay_before_headers_ms;
    headers::apply_headers(&mut sent.headers, &s.headers);
    Answer::Sent(sent)
}

/// A namespace after it numbered a response.
pub open spec fn numbered(space: SpaceView) -> SpaceView {
    SpaceView { next: (space.next + 1) as u64, ..space }
}

/// The answer of a scripted error.
fn answer_error(script: &ScenarioScript) -> (r: Answer)
    requires
        *script is Error,
    ensures
        forall|request: MessagesRequest, number: u64, estimated: u64, count: bool| #[trigger]
            script_answers(r@, *script, request, number, estimated, count),
{
    match script {
        ScenarioScript::Error {
            status,
            message,
            error_type,
            code,
            retry_after,
            headers,
            delay_before_headers_ms,
        } => {
            let mut error = AnthropicError::new(
                headers::final_status(*status),
                error_type.as_str(),
                message.clone(),
            );
            error.body.error.code = text::copy_opt(code);
            let mut wanted = headers.copy();
            match retry_after {
                Some(value) => {
                    wanted.set("retry-after", value.as_str());
                },
                None => {},
            }
            let mut sent = Headers::new();
            headers::apply_headers(&mut sent, &wanted);
            assert(sent@ =~= headers::sent_headers(wanted@));
            Answer::Refused { delay_ms: *delay_before_headers_ms, headers: sent, error }
        },
        _ => refuse(AnthropicError::scenario_not_found()),
    }
}

/// The answer of raw body actions.
fn answer_raw(script: &ScenarioScript) -> (r: Answer)
    requires
        *script is Raw,
    ensures
        forall|request: MessagesRequest, number: u64, estimated: u64, count: bool| #[trigger]
            script_answers(r@, *script, request, number, estimated, count),
{
    match script {
        ScenarioScript::Raw { status, content_type, headers, chunks, delay_before_headers_ms } => {
            let outcome = scenario::raw_outcome(
                *status,
                text::copy_opt(content_type),
                headers.copy(),
                transport::copy_chunks(chunks),
                *delay_before_headers_ms,
            );
            Answer::Sent(transport::raw_response(outcome))
        },
        _ => refuse(AnthropicError::scenario_not_found()),
    }
}

/// Whether a script numbers a response.
pub open spec fn numbers(script: Option<ScenarioScript>, count: bool) -> bool {
    !count && match script {
        Some(s) => s is Success,
        None => true,
    }
}

/// The state after a decoded request: what checking and choosing leaves, and one
/// more number used where a response was planned.
pub open spec fn state_finished(
    before: StateView,
    strict: bool,
    key: Option<Seq<char>>,
    request: MessagesRequest,
    hash: Option<Seq<char>>,
    count: bool,
) -> StateView {
    let context = engine::request_context(request, hash, count);
    let space = before.space(key);
    let answer = state::answered(space.scenarios, context, false).0;
    let selected = engine::space_selected(space, context, count);
    let script = match answer {
        Some(s) => Some(*s.script),
        None => None,
    };
    if request.error(count) is Some {
        before
    } else if answer is None && !count && strict {
        before.with_space(key, selected)
    } else if numbers(script, count) {
        before.with_space(key, numbered(selected))
    } else {
        before.with_space(key, selected)
    }
}

/// Whether `a` is the answer to a decoded request.
pub open spec fn finished(
    a: AnswerView,
    before: StateView,
    strict: bool,
    key: Option<Seq<char>>,
    request: MessagesRequest,
    hash: Option<Seq<char>>,
    estimated: u64,
    count: bool,
) -> bool {
    let context = engine::request_context(request, hash, count);
    let space = before.space(key);
    match request.error(count) {
        Some(e) => a == refused(e),
        None => match state::answered(space.scenarios, context, false).0 {
            Some(s) => script_answers(a, *s.script, request, space.next, estimated, count),
            None => if !count && strict {
                a == refused(models::no_scenario())
            } else {
                exists|s: SuccessScript| #[trigger]
                    scenario::plain_success(s) && success_answers(
                        a,
                        s,
                        request,
                        space.next,
                        estimated,
                        count,
                    )
            },
        },
    }
}

/// Answers a decoded request. The second part is what was recorded.
pub fn finish(app: &mut AppState, pending: Pending, request: &MessagesRequest, count: bool) -> (r: (
    Answer,
    Option<RequestLog>,
))
    requires
        old(app).wf(),
        count || old(app)@.space(pending.namespace@).next < u64::MAX,
    ensures
        final(app).wf(),
        old(app)@.sound() ==> final(app)@.sound(),
        finished(
            r.0@,
            old(app)@,
            engine::is_strict(old(app)@.config),
            pending.namespace@,
            *request,
            text::opt_text(pending.hash),
            pending.estimated,
            count,
        ),
        final(app)@ == state_finished(
            old(app)@,
            engine::is_strict(old(app)@.config),
            pending.namespace@,
            *request,
            text::opt_text(pending.hash),
            count,
        ),
        engine::opt_log(r.1) == (if request.error(count) is Some {
            None
        } else {
            engine::selected_log(
                old(app)@.space(pending.namespace@),
                engine::request_context(*request, text::opt_text(pending.hash), count),
                count,
            )
        }),
{
    let Pending { namespace, hash, estimated } = pending;
    let ghost before = old(app)@;
    let (chosen, log) = engine::select_script(app, &namespace, request, hash, count);
    let script = match chosen {
        Ok(script) => script,
        Err(e) => {
            return (refuse(e), log);
        },
    };
    let ghost selected = app@;
    let answer = match script {
        None => {
            let plain = SuccessScript::default();
            let a = answer_success(app, &namespace, request, &plain, estimated, count);
            assert(scenario::plain_success(plain));
            a
        },
        Some(script) => match &*script {
            ScenarioScript::Success(s) => answer_success(
                app,
                &namespace,
                request,
                &**s,
                estimated,
                count,
            ),
            ScenarioScript::Error { .. } => answer_error(&*script),
            ScenarioScript::Hang { delay_before_headers_ms } => Answer::Sent(
                Reply {
                    delay_ms: *delay_before_headers_ms,
                    status: 200,
                    headers: Headers::new(),
                    body: Body::Never,
                },
            ),
            ScenarioScript::Raw { .. } => answer_raw(&*script),
            ScenarioScript::Transcript { .. } => Answer::Sent(transcript_response(&*script)),
        },
    };
    assert(app@.spaces =~= before.spaces.insert(namespace@, app@.space(namespace@)));
    (answer, log)
}

/// The model that clients discover.
pub struct ModelIdentity {
    pub id: String,
    pub display_name: String,
}

/// The one model that is listed.
pub fn listed_model() -> (r: ModelIdentity)
    ensures
        r.id@ == "twin-test"@,
        r.display_name@ == "Twin Test"@,
{
    ModelIdentity { id: "twin-test".to_owned(), display_name: "Twin Test".to_owned() }
}

/// The entry of a model.
pub open spec fn model_entry(model: ModelIdentity) -> JsonView {
    JsonView::Object(
        map![
            "id"@ => JsonView::Str(model.id@),
            "type"@ => JsonView::Str("model"@),
            "display_name"@ => JsonView::Str(model.display_name@),
            "created_at"@ => JsonView::Str("2024-01-01T00:00:00Z"@)
        ],
    )
}

/// The list of the one model.
pub open spec fn model_list(model: ModelIdentity) -> JsonView {
    JsonView::Object(
        map![
            "data"@ => JsonView::Array(seq![model_entry(model)]),
            "has_more"@ => JsonView::Bool(false),
            "first_id"@ => JsonView::Str(model.id@),
            "last_id"@ => JsonView::Str(model.id@)
        ],
    )
}

/// Lists the one model, under the same credentials and version as generation.
pub fn models(
    config: &Config,
    headers: &axum::http::HeaderMap<axum::http::HeaderValue>,
    model: &ModelIdentity,
) -> (r: Answer)
    ensures
        ({
            let contents = headers::header_contents(*headers);
            match models::first_of(
                auth::credential_error(contents, config.require_auth),
                auth::version_error(contents),
            ) {
                Some(e) => r@ == refused(e),
                None => r@ == AnswerView::Sent(
                    json_response(codec::json_text(model_list(*model))),
                ),
            }
        }),
{
    match auth::request_namespace(headers, config.require_auth) {
        Ok(_) => {},
        Err(e) => {
            return refuse(e);
        },
    }
    match auth::validate_version(headers) {
        Ok(()) => {},
        Err(e) => {
            return refuse(e);
        },
    }
    let entry = Members::new().with("id", Json::text(model.id.as_str())).with(
        "type",
        Json::text("model"),
    ).with("display_name", Json::text(model.display_name.as_str())).with(
        "created_at",
        Json::text("2024-01-01T00:00:00Z"),
    );
    let list = Members::new().with("data", json::one_item(Json::Object(entry))).with(
        "has_more",
        Json::Bool(false),
    ).with("first_id", Json::text(model.id.as_str())).with(
        "last_id",
        Json::text(model.id.as_str()),
    );
    Answer::Sent(json_reply(codec::render(&Json::Object(list))))
}

} // verus!
