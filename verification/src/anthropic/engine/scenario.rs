//! Scripted answers and the requests they answer.

use std::sync::Arc;

use vstd::prelude::*;
use vstd::string::*;

use crate::anthropic::engine::plan::TokenUsage;
use crate::headers;
use crate::headers::Headers;
use crate::json;
use crate::json::{Json, JsonView, Members};
use crate::sse::EventView;
use crate::text;
use crate::transport::{RawChunk, RawOutcome};

verus! {

/// A list of scenarios as it is loaded or posted.
pub struct ScenarioEnvelope {
    pub scenarios: Vec<Scenario>,
}

/// A scripted answer and the requests it answers.
pub struct Scenario {
    pub scenario_id: Option<String>,
    pub namespace: Option<String>,
    pub matcher: Arc<ScenarioMatcher>,
    pub script: Arc<ScenarioScript>,
    pub repeat: u32,
    pub sticky: bool,
}

/// How often a scenario answers where it does not say.
pub fn default_repeat() -> (r: u32)
    ensures
        r == 1,
{
    1
}

/// The requests that a scenario answers.
pub struct ScenarioMatcher {
    pub endpoint: String,
    pub model: Option<String>,
    pub stream: Option<bool>,
    pub metadata: Members,
    pub input_contains: Option<String>,
    pub instructions_contains: Option<String>,
    pub request_hash: Option<String>,
}

/// What a matcher sees of a request.
pub struct RequestContext {
    pub endpoint: String,
    pub model: String,
    pub stream: bool,
    pub metadata: Members,
    pub input_text: String,
    pub instructions_text: String,
    pub request_hash: Option<String>,
}

/// What a matcher sees of a request.
#[verifier::ext_equal]
pub struct ContextView {
    pub endpoint: Seq<char>,
    pub model: Seq<char>,
    pub stream: bool,
    pub metadata: Map<Seq<char>, JsonView>,
    pub input_text: Seq<char>,
    pub instructions_text: Seq<char>,
    pub request_hash: Option<Seq<char>>,
}

impl RequestContext {
    /// What a matcher sees.
    pub open spec fn view(&self) -> ContextView {
        ContextView {
            endpoint: self.endpoint@,
            model: self.model@,
            stream: self.stream,
            metadata: self.metadata@,
            input_text: self.input_text@,
            instructions_text: self.instructions_text@,
            request_hash: text::opt_text(self.request_hash),
        }
    }
}

/// A scripted success.
pub struct SuccessScript {
    pub response_text: Option<String>,
    pub reasoning: Option<Vec<String>>,
    /// Native blocks preserve thinking signatures, redactions and server tools.
    pub content: Option<Vec<Json>>,
    pub structured_output: Option<Json>,
    pub tool_calls: Vec<ToolCallTemplate>,
    pub usage: Option<TokenUsage>,
    pub stop_reason: Option<String>,
    pub finish_reason: Option<String>,
    pub stop_sequence: Option<String>,
    pub stop_details: Option<Json>,
    /// Exact count for the utility endpoint; otherwise it uses the estimate.
    pub input_tokens: Option<u64>,
    pub headers: Headers,
    pub delay_before_headers_ms: u64,
    pub inter_event_delay_ms: u64,
    pub close_after_chunks: Option<usize>,
    pub malformed_sse: bool,
}

/// A scripted tool call.
pub struct ToolCallTemplate {
    pub id: Option<String>,
    pub name: String,
    pub arguments: Json,
    pub raw_arguments: Option<String>,
}

/// A scripted answer.
pub enum ScenarioScript {
    Success(Box<SuccessScript>),
    Error {
        status: u16,
        message: String,
        error_type: String,
        code: Option<String>,
        retry_after: Option<String>,
        headers: Headers,
        delay_before_headers_ms: u64,
    },
    Hang { delay_before_headers_ms: u64 },
    Transcript {
        status: u16,
        content_type: Option<String>,
        body: Option<Json>,
        /// The JSON text as it came, when the recording contains a JSON body.
        body_text: Option<String>,
        events: Option<Vec<TranscriptEvent>>,
        headers: Headers,
    },
    Raw {
        status: u16,
        content_type: Option<String>,
        headers: Headers,
        chunks: Vec<RawChunk>,
        delay_before_headers_ms: u64,
    },
}

/// One event of a recorded stream.
#[derive(Clone, Debug)]
pub struct TranscriptEvent {
    pub event: Option<String>,
    pub data: String,
}

impl TranscriptEvent {
    /// The event denoted.
    pub open spec fn view(&self) -> EventView {
        EventView { event: text::opt_text(self.event), data: self.data@ }
    }
}

/// The events that a list holds.
pub open spec fn transcript_view(events: Seq<TranscriptEvent>) -> Seq<EventView> {
    Seq::new(events.len(), |i: int| events[i]@)
}

/// The script of a success that says nothing.
pub open spec fn plain_success(s: SuccessScript) -> bool {
    &&& s.response_text is None
    &&& s.reasoning is None
    &&& s.content is None
    &&& s.structured_output is None
    &&& s.tool_calls@.len() == 0
    &&& s.usage is None
    &&& s.stop_reason is None
    &&& s.finish_reason is None
    &&& s.stop_sequence is None
    &&& s.stop_details is None
    &&& s.input_tokens is None
    &&& s.headers@ == Map::<Seq<char>, Seq<char>>::empty()
    &&& s.delay_before_headers_ms == 0
    &&& s.inter_event_delay_ms == 0
    &&& s.close_after_chunks is None
    &&& !s.malformed_sse
}

impl Default for SuccessScript {
    fn default() -> (r: Self)
        ensures
            plain_success(r),
    {
        SuccessScript {
            response_text: None,
            reasoning: None,
            content: None,
            structured_output: None,
            tool_calls: Vec::new(),
            usage: None,
            stop_reason: None,
            finish_reason: None,
            stop_sequence: None,
            stop_details: None,
            input_tokens: None,
            headers: Headers::new(),
            delay_before_headers_ms: 0,
            inter_event_delay_ms: 0,
            close_after_chunks: None,
            malformed_sse: false,
        }
    }
}

/// `Arc::clone` shares the same value.
#[verifier::external_body]
pub(crate) fn share<T>(a: &Arc<T>) -> (r: Arc<T>)
    ensures
        r == *a,
{
    Arc::clone(a)
}

impl Scenario {
    /// Another hold on the same scenario.
    pub fn copy(&self) -> (r: Scenario)
        ensures
            r == *self,
    {
        Scenario {
            scenario_id: text::copy_opt(&self.scenario_id),
            namespace: text::copy_opt(&self.namespace),
            matcher: share(&self.matcher),
            script: share(&self.script),
            repeat: self.repeat,
            sticky: self.sticky,
        }
    }
}

impl ScenarioScript {
    /// The name of the kind of script.
    pub open spec fn kind(&self) -> Seq<char> {
        match self {
            ScenarioScript::Success(_) => "success"@,
            ScenarioScript::Error { .. } => "error"@,
            ScenarioScript::Hang { .. } => "hang"@,
            ScenarioScript::Transcript { .. } => "transcript"@,
            ScenarioScript::Raw { .. } => "raw"@,
        }
    }

    /// The name of the kind of script.
    pub fn script_kind(&self) -> (r: &str)
        ensures
            r@ == self.kind(),
    {
        match self {
            ScenarioScript::Success(_) => "success",
            ScenarioScript::Error { .. } => "error",
            ScenarioScript::Hang { .. } => "hang",
            ScenarioScript::Transcript { .. } => "transcript",
            ScenarioScript::Raw { .. } => "raw",
        }
    }
}

/// Whether a wanted piece of text, where there is one, occurs.
pub open spec fn wanted_occurs(wanted: Option<String>, in_text: Seq<char>) -> bool {
    wanted matches Some(s) ==> text::occurs(in_text, s@)
}

/// Whether every wanted member is there with an equal value.
pub open spec fn has_members(
    wanted: Map<Seq<char>, JsonView>,
    given: Map<Seq<char>, JsonView>,
) -> bool {
    forall|k: Seq<char>| #[trigger]
        wanted.contains_key(k) ==> given.contains_key(k) && json::values_equal(given[k], wanted[k])
}

impl ScenarioMatcher {
    /// Whether the matcher accepts a request: everything that it asks for holds.
    pub open spec fn accepts(&self, request: ContextView) -> bool {
        &&& self.endpoint@ == request.endpoint
        &&& self.model matches Some(m) ==> m@ == request.model
        &&& self.stream matches Some(s) ==> s == request.stream
        &&& wanted_occurs(self.input_contains, request.input_text)
        &&& wanted_occurs(self.instructions_contains, request.instructions_text)
        &&& self.request_hash matches Some(h) ==> request.request_hash == Some(h@)
        &&& has_members(self.metadata@, request.metadata)
    }
}

/// Whether a wanted piece of text, where there is one, occurs.
fn finds(wanted: &Option<String>, in_text: &str) -> (r: bool)
    ensures
        r == wanted_occurs(*wanted, in_text@),
{
    match wanted {
        Some(s) => text::contains(in_text, s.as_str()),
        None => true,
    }
}

/// Whether every wanted member is there with an equal value.
fn finds_members(wanted: &Members, given: &Members) -> (r: bool)
    ensures
        r == has_members(wanted@, given@),
{
    for i in 0..wanted.entries.len()
        invariant
            forall|j: int|
                0 <= j < i ==> given@.contains_key((#[trigger] wanted.entries@[j]).0@)
                    && json::values_equal(
                    given@[wanted.entries@[j].0@],
                    wanted@[wanted.entries@[j].0@],
                ),
    {
        let name = wanted.entries[i].0.as_str();
        proof {
            json::lemma_members_name(wanted.entries@, i as int);
        }
        match (given.get(name), wanted.get(name)) {
            (Some(g), Some(w)) => if !json::same_value(g, w) {
                assert(wanted@.contains_key(name@));
                return false;
            },
            _ => {
                assert(wanted@.contains_key(name@));
                return false;
            },
        }
    }
    proof {
        assert forall|k: Seq<char>| #[trigger] wanted@.contains_key(k) implies given@.contains_key(k)
            && json::values_equal(given@[k], wanted@[k]) by {
            let j = json::lemma_members_source(wanted.entries@, k);
            assert(wanted.entries@[j].0@ == k);
        }
    }
    true
}

impl Scenario {
    /// Whether the scenario answers a request.
    pub fn matches(&self, request: &RequestContext) -> (r: bool)
        ensures
            r == self.matcher.accepts(request@),
    {
        let matcher = &*self.matcher;
        let model = match &matcher.model {
            Some(m) => text::same(m.as_str(), request.model.as_str()),
            None => true,
        };
        let stream = match matcher.stream {
            Some(s) => s == request.stream,
            None => true,
        };
        let hash = match (&matcher.request_hash, &request.request_hash) {
            (Some(wanted), Some(given)) => text::same(wanted.as_str(), given.as_str()),
            (Some(_), None) => false,
            (None, _) => true,
        };
        text::same(matcher.endpoint.as_str(), request.endpoint.as_str()) && model && stream && finds(
            &matcher.input_contains,
            request.input_text.as_str(),
        ) && finds(&matcher.instructions_contains, request.instructions_text.as_str()) && hash
            && finds_members(&matcher.metadata, &request.metadata)
    }
}

/// The stop reasons that a script may give.
pub open spec fn known_stop(reason: Seq<char>) -> bool {
    ||| reason == "end_turn"@
    ||| reason == "max_tokens"@
    ||| reason == "stop_sequence"@
    ||| reason == "tool_use"@
    ||| reason == "pause_turn"@
    ||| reason == "refusal"@
    ||| reason == "model_context_window_exceeded"@
    ||| reason == "length"@
    ||| reason == "stop"@
}

/// Whether every header has a valid name and a valid value.
pub open spec fn headers_valid(m: Map<Seq<char>, Seq<char>>) -> bool {
    forall|k: Seq<char>| #[trigger]
        m.contains_key(k) ==> headers::valid_name(k) && headers::valid_value(m[k])
}

/// What is wrong with a scripted status line and headers.
pub open spec fn response_error(
    status: u16,
    response_headers: Map<Seq<char>, Seq<char>>,
    content_type: Option<Seq<char>>,
) -> Option<Seq<char>> {
    if !headers::valid_status(status) || status < 200 {
        Some("invalid final response status"@)
    } else if !headers_valid(response_headers) {
        Some("invalid response header"@)
    } else if content_type matches Some(s) && !headers::valid_value(s) {
        Some("invalid content type"@)
    } else {
        None
    }
}

/// The stop reason that a script gives.
pub open spec fn scripted_reason(s: SuccessScript) -> Option<Seq<char>> {
    match s.stop_reason {
        Some(reason) => Some(reason@),
        None => text::opt_text(s.finish_reason),
    }
}

/// What is wrong with a script.
pub open spec fn script_error(script: ScenarioScript) -> Option<Seq<char>> {
    match script {
        ScenarioScript::Success(s) => if scripted_reason(*s) matches Some(reason) && !known_stop(
            reason,
        ) {
            Some("unsupported stop reason: "@ + scripted_reason(*s)->0)
        } else {
            response_error(200, s.headers@, None)
        },
        ScenarioScript::Error { status, headers, retry_after, .. } => if retry_after matches Some(s)
            && !headers::valid_value(s@) {
            Some("invalid Retry-After header"@)
        } else {
            response_error(status, headers@, None)
        },
        ScenarioScript::Raw { status, headers, content_type, .. } => response_error(
            status,
            headers@,
            text::opt_text(content_type),
        ),
        ScenarioScript::Transcript { status, headers, content_type, body, body_text, events } => {
            let given: int = (if body is Some {
                1int
            } else {
                0
            }) + (if body_text is Some {
                1int
            } else {
                0
            }) + (if events is Some {
                1int
            } else {
                0
            });
            if given != 1 {
                Some("transcript requires exactly one of body, body_text, events"@)
            } else {
                response_error(status, headers@, text::opt_text(content_type))
            }
        },
        ScenarioScript::Hang { .. } => None,
    }
}

/// Whether one of the scenarios has the id.
pub open spec fn id_taken(scenarios: Seq<Scenario>, id: Seq<char>) -> bool {
    exists|i: int|
        0 <= i < scenarios.len() && text::opt_text((#[trigger] scenarios[i]).scenario_id) == Some(
            id,
        )
}

/// What is wrong with a scenario that stands behind others in a queue.
pub open spec fn scenario_error(before: Seq<Scenario>, s: Scenario) -> Option<Seq<char>> {
    match s.scenario_id {
        Some(id) if text::blank(id@) => Some("scenario_id must not be empty"@),
        Some(id) if id_taken(before, id@) => Some("duplicate scenario_id: "@ + id@),
        _ => if s.repeat == 0 {
            Some("repeat must be positive"@)
        } else if s.matcher.endpoint@ != "messages"@ && s.matcher.endpoint@
            != "messages.count_tokens"@ {
            Some("endpoint must be messages or messages.count_tokens"@)
        } else {
            script_error(*s.script)
        },
    }
}

/// The first fault in a queue of scenarios.
pub open spec fn queue_error(scenarios: Seq<Scenario>) -> Option<Seq<char>>
    decreases scenarios.len(),
{
    if scenarios.len() == 0 {
        None
    } else {
        match queue_error(scenarios.drop_last()) {
            Some(e) => Some(e),
            None => scenario_error(scenarios.drop_last(), scenarios.last()),
        }
    }
}

/// The fault that a result reports.
pub open spec fn fault(r: Result<(), String>) -> Option<Seq<char>> {
    match r {
        Ok(()) => None,
        Err(e) => Some(e@),
    }
}

/// Whether a stop reason is one that a script may give.
fn is_known_stop(reason: &str) -> (r: bool)
    ensures
        r == known_stop(reason@),
{
    text::same(reason, "end_turn") || text::same(reason, "max_tokens") || text::same(
        reason,
        "stop_sequence",
    ) || text::same(reason, "tool_use") || text::same(reason, "pause_turn") || text::same(
        reason,
        "refusal",
    ) || text::same(reason, "model_context_window_exceeded") || text::same(reason, "length")
        || text::same(reason, "stop")
}

/// Whether every header has a valid name and a valid value.
fn are_valid_headers(h: &Headers) -> (r: bool)
    ensures
        r == headers_valid(h@),
{
    for i in 0..h.entries.len()
        invariant
            forall|j: int|
                0 <= j < i ==> headers::valid_name((#[trigger] h.entries@[j]).0@)
                    && headers::valid_value(h@[h.entries@[j].0@]),
    {
        let name = h.entries[i].0.as_str();
        proof {
            headers::lemma_header_name(h.entries@, i as int);
        }
        let value = match h.get(name) {
            Some(value) => value,
            None => "",
        };
        if !headers::is_valid_name(name) || !headers::is_valid_value(value) {
            assert(h@.contains_key(name@));
            return false;
        }
    }
    proof {
        assert forall|k: Seq<char>| #[trigger] h@.contains_key(k) implies headers::valid_name(k)
            && headers::valid_value(h@[k]) by {
            let j = headers::lemma_header_source(h.entries@, k);
            assert(h.entries@[j].0@ == k);
        }
    }
    true
}

/// Checks a scripted status line and headers.
fn validate_response(status: u16, h: &Headers, content_type: &Option<String>) -> (r: Result<
    (),
    String,
>)
    ensures
        fault(r) == response_error(status, h@, text::opt_text(*content_type)),
{
    if !headers::is_valid_status(status) || status < 200 {
        return Err("invalid final response status".to_owned());
    }
    if !are_valid_headers(h) {
        return Err("invalid response header".to_owned());
    }
    match content_type {
        Some(s) => if !headers::is_valid_value(s.as_str()) {
            return Err("invalid content type".to_owned());
        },
        None => {},
    }
    Ok(())
}

/// Checks a script.
fn validate_script(script: &ScenarioScript) -> (r: Result<(), String>)
    ensures
        fault(r) == script_error(*script),
{
    match script {
        ScenarioScript::Success(s) => {
            let reason = match &s.stop_reason {
                Some(reason) => Some(reason),
                None => match &s.finish_reason {
                    Some(reason) => Some(reason),
                    None => None,
                },
            };
            match reason {
                Some(reason) => if !is_known_stop(reason.as_str()) {
                    let mut message = "unsupported stop reason: ".to_owned();
                    message.append(reason.as_str());
                    return Err(message);
                },
                None => {},
            }
            validate_response(200, &s.headers, &None)
        },
        ScenarioScript::Error { status, headers, retry_after, .. } => {
            match retry_after {
                Some(s) => if !headers::is_valid_value(s.as_str()) {
                    return Err("invalid Retry-After header".to_owned());
                },
                None => {},
            }
            validate_response(*status, headers, &None)
        },
        ScenarioScript::Raw { status, headers, content_type, .. } => validate_response(
            *status,
            headers,
            content_type,
        ),
        ScenarioScript::Transcript { status, headers, content_type, body, body_text, events } => {
            let one = match (body.is_some(), body_text.is_some(), events.is_some()) {
                (true, false, false) => true,
                (false, true, false) => true,
                (false, false, true) => true,
                _ => false,
            };
            if !one {
                return Err(
                    "transcript requires exactly one of body, body_text, events".to_owned(),
                );
            }
            validate_response(*status, headers, content_type)
        },
        ScenarioScript::Hang { .. } => Ok(()),
    }
}

/// Whether one of the first `n` scenarios has the id.
fn has_id(scenarios: &[Scenario], n: usize, id: &str) -> (r: bool)
    requires
        n <= scenarios.len(),
    ensures
        r == id_taken(scenarios@.take(n as int), id@),
{
    for i in 0..n
        invariant
            n <= scenarios.len(),
            forall|j: int|
                0 <= j < i ==> text::opt_text((#[trigger] scenarios@[j]).scenario_id) != Some(id@),
    {
        match &scenarios[i].scenario_id {
            Some(other) => if text::same(other.as_str(), id) {
                assert(text::opt_text(scenarios@.take(n as int)[i as int].scenario_id) == Some(
                    id@,
                ));
                return true;
            },
            None => {},
        }
    }
    false
}

proof fn lemma_queue_error_prefix(scenarios: Seq<Scenario>, n: int)
    requires
        0 <= n <= scenarios.len(),
        queue_error(scenarios.take(n)) is Some,
    ensures
        queue_error(scenarios) == queue_error(scenarios.take(n)),
    decreases scenarios.len(),
{
    if n == scenarios.len() {
        assert(scenarios.take(n) =~= scenarios);
    } else {
        assert(scenarios.drop_last().take(n) =~= scenarios.take(n));
        lemma_queue_error_prefix(scenarios.drop_last(), n);
    }
}

/// Checks the scenario at `i` against those before it.
fn validate_at(scenarios: &[Scenario], i: usize) -> (r: Result<(), String>)
    requires
        i < scenarios.len(),
    ensures
        fault(r) == scenario_error(scenarios@.take(i as int), scenarios@[i as int]),
{
    let s = &scenarios[i];
    match &s.scenario_id {
        Some(id) => {
            if text::is_blank(id.as_str()) {
                return Err("scenario_id must not be empty".to_owned());
            }
            if has_id(scenarios, i, id.as_str()) {
                let mut message = "duplicate scenario_id: ".to_owned();
                message.append(id.as_str());
                return Err(message);
            }
        },
        None => {},
    }
    if s.repeat == 0 {
        return Err("repeat must be positive".to_owned());
    }
    let endpoint = s.matcher.endpoint.as_str();
    if !text::same(endpoint, "messages") && !text::same(endpoint, "messages.count_tokens") {
        return Err("endpoint must be messages or messages.count_tokens".to_owned());
    }
    validate_script(&*s.script)
}

/// Checks a queue of scenarios and reports its first fault.
pub fn validate_scenario_ids(scenarios: &[Scenario]) -> (r: Result<(), String>)
    ensures
        fault(r) == queue_error(scenarios@),
{
    for i in 0..scenarios.len()
        invariant
            queue_error(scenarios@.take(i as int)) is None,
    {
        proof {
            assert(scenarios@.take(i + 1).drop_last() =~= scenarios@.take(i as int));
            if queue_error(scenarios@.take(i + 1)) is Some {
                lemma_queue_error_prefix(scenarios@, i + 1);
            }
        }
        match validate_at(scenarios, i) {
            Ok(()) => {},
            Err(e) => {
                return Err(e);
            },
        }
    }
    assert(scenarios@.take(scenarios@.len() as int) =~= scenarios@);
    Ok(())
}

/// The raw response that a script describes.
pub fn raw_outcome(
    status: u16,
    content_type: Option<String>,
    headers: Headers,
    chunks: Vec<RawChunk>,
    delay_before_headers_ms: u64,
) -> (r: RawOutcome)
    ensures
        r == (RawOutcome {
            status: headers::status_or_500(status),
            content_type,
            headers,
            chunks,
            delay_before_headers_ms,
        }),
{
    RawOutcome {
        status: headers::final_status(status),
        content_type,
        headers,
        chunks,
        delay_before_headers_ms,
    }
}

} // verus!
