//! Choosing the script that answers a request.

pub mod laws;
pub mod plan;
pub mod scenario;

use std::sync::Arc;

use vstd::prelude::*;
use vstd::string::*;

use crate::anthropic::config::Config;
use crate::anthropic::logs::{LogView, RequestLog};
use crate::anthropic::models;
use crate::anthropic::models::{content_text, AnthropicError, MessagesRequest};
use crate::anthropic::state;
use crate::anthropic::state::{is_recorded_exchange, AppState, NamespaceKey, SpaceView};
use crate::json::{Json, JsonView, Members};
use crate::{json, text};
use scenario::{ContextView, RequestContext, Scenario, ScenarioScript};

verus! {

/// The name of the endpoint as matchers know it.
pub open spec fn endpoint_name(count: bool) -> Seq<char> {
    if count {
        "messages.count_tokens"@
    } else {
        "messages"@
    }
}

/// The name of the endpoint as matchers know it.
fn endpoint_text(count: bool) -> (r: String)
    ensures
        r@ == endpoint_name(count),
{
    if count {
        "messages.count_tokens".to_owned()
    } else {
        "messages".to_owned()
    }
}

/// The text of each turn of a role, in a request that was not checked.
pub open spec fn turn_texts(turns: Seq<JsonView>, role: Seq<char>) -> Seq<Seq<char>>
    decreases turns.len(),
{
    if turns.len() == 0 {
        Seq::empty()
    } else {
        let rest = turn_texts(turns.drop_last(), role);
        if turns.last().at("role"@) == JsonView::Str(role) {
            rest.push(models::text_in(turns.last().at("content"@)))
        } else {
            rest
        }
    }
}

/// The text of a role.
pub open spec fn turn_text(request: JsonView, role: Seq<char>) -> Seq<char> {
    text::joined(turn_texts(request.at("messages"@).items(), role), seq![' '])
}

/// What a matcher sees of a request that was not checked.
pub open spec fn raw_context(
    request: JsonView,
    hash: Option<Seq<char>>,
    count: bool,
) -> ContextView {
    ContextView {
        endpoint: endpoint_name(count),
        model: request.text_at("model"@),
        stream: request.at("stream"@) == JsonView::Bool(true),
        metadata: match request.at("metadata"@) {
            JsonView::Object(m) => m,
            _ => Map::empty(),
        },
        input_text: text::normalized(turn_text(request, "user"@)),
        instructions_text: text::normalized(
            models::text_in(request.at("system"@)) + " "@ + turn_text(request, "system"@),
        ),
        request_hash: hash,
    }
}

/// What a matcher sees of a checked request.
pub open spec fn request_context(
    request: MessagesRequest,
    hash: Option<Seq<char>>,
    count: bool,
) -> ContextView {
    ContextView {
        endpoint: endpoint_name(count),
        model: request.model@,
        stream: request.stream,
        metadata: request.metadata@,
        input_text: request.user_text(),
        instructions_text: request.instruction_text(),
        request_hash: hash,
    }
}

/// A namespace after it answered a request.
pub open spec fn space_answered(
    space: SpaceView,
    context: ContextView,
    recorded_only: bool,
) -> SpaceView {
    SpaceView {
        scenarios: state::answered(space.scenarios, context, recorded_only).1,
        ..space
    }
}

/// A namespace after it recorded a request.
pub open spec fn space_logged(space: SpaceView, log: LogView) -> SpaceView {
    SpaceView { logs: space.logs.push(log), ..space }
}

/// The id of an answer's scenario.
pub open spec fn answer_id(answer: Option<scenario::Scenario>) -> Option<Seq<char>> {
    match answer {
        Some(s) => text::opt_text(s.scenario_id),
        None => None,
    }
}

/// The text of a role.
fn text_of_role(request: &Json, role: &str) -> (r: String)
    ensures
        r@ == turn_text(request@, role@),
{
    let mut found: Vec<String> = Vec::new();
    let ghost turns = request@.at("messages"@).items();
    match request.get("messages") {
        Some(Json::Array(items)) => {
            for i in 0..items.len()
                invariant
                    turns == json::items_view(items@),
                    text::texts(found@) =~= turn_texts(turns.take(i as int), role@),
            {
                assert(turns.take(i + 1).drop_last() =~= turns.take(i as int));
                assert(turns.take(i + 1).last() == items@[i as int]@);
                let ghost before = found@;
                if items[i].at_is("role", role) {
                    let piece = match items[i].get("content") {
                        Some(content) => content_text(content),
                        None => content_text(&Json::Null),
                    };
                    found.push(piece);
                    assert(text::texts(found@) =~= text::texts(before).push(piece@));
                }
            }
            assert(turns.take(turns.len() as int) =~= turns);
        },
        _ => {},
    }
    assert(text::texts(found@) =~= turn_texts(turns, role@));
    models::join_spaced(&found)
}

/// What a matcher sees of a request that was not checked.
fn make_raw_context(request: &Json, hash: Option<String>, count: bool) -> (r: RequestContext)
    ensures
        r@ == raw_context(request@, text::opt_text(hash), count),
{
    let stream = match request.get("stream") {
        Some(Json::Bool(b)) => *b,
        _ => false,
    };
    let metadata = match request.get("metadata") {
        Some(Json::Object(m)) => m.copy(),
        _ => Members::new(),
    };
    let system = match request.get("system") {
        Some(content) => content_text(content),
        None => content_text(&Json::Null),
    };
    let instructions = text::concat3(
        system.as_str(),
        " ",
        text_of_role(request, "system").as_str(),
    );
    RequestContext {
        endpoint: endpoint_text(count),
        model: request.text_at("model").to_owned(),
        stream,
        metadata,
        input_text: text::normalize(text_of_role(request, "user").as_str()),
        instructions_text: text::normalize(instructions.as_str()),
        request_hash: hash,
    }
}

/// The recorded exchange that answers a request. It does not need the schema of
/// the deterministic generator, so the request is not checked.
pub fn select_recorded_transcript(
    app: &mut AppState,
    namespace: &NamespaceKey,
    request: &Json,
    hash: Option<String>,
    count: bool,
) -> (r: Option<(Arc<ScenarioScript>, RequestLog)>)
    requires
        old(app).wf(),
    ensures
        final(app).wf(),
        old(app)@.sound() ==> final(app)@.sound(),
        ({
            let context = raw_context(request@, text::opt_text(hash), count);
            let space = old(app)@.space(namespace@);
            let answer = state::answered(space.scenarios, context, true).0;
            let after = space_answered(space, context, true);
            let log = state::log_of(context, answer_id(answer));
            match answer {
                Some(s) => r matches Some((script, logged)) && script == s.script
                    && *s.script is Transcript && logged@ == log && final(app)@ == old(app)@.with_space(
                    namespace@,
                    space_logged(after, log),
                ),
                None => r is None && final(app)@ == old(app)@.with_space(namespace@, after),
            }
        }),
{
    let context = make_raw_context(request, hash, count);
    let ghost space = old(app)@.space(namespace@);
    let recorded = |s: &Scenario| -> (b: bool)
        ensures
            b == state::is_recorded(*s),
        { is_recorded_exchange(s) };
    let answer = app.take_matching_scenario_if(namespace, &context, recorded);
    proof {
        state::lemma_answer_kind(space.scenarios, context@);
    }
    match answer {
        None => None,
        Some(s) => {
            let scenario::Scenario { scenario_id, script, .. } = s;
            let log = app.log_request(namespace, context, scenario_id);
            assert(app@.spaces =~= old(app)@.spaces.insert(
                namespace@,
                app@.space(namespace@),
            ));
            Some((script, log))
        },
    }
}

/// Whether a generation request that no scenario answers is refused.
pub open spec fn is_strict(config: Config) -> bool {
    config.scenarios_path is Some && !config.allow_unmatched
}

/// What is left of a namespace after a checked request: what answered leaves the
/// queue or counts down, and every generation, and every count that a scenario
/// answered, is recorded.
pub open spec fn space_selected(space: SpaceView, context: ContextView, count: bool) -> SpaceView {
    let answer = state::answered(space.scenarios, context, false).0;
    let after = space_answered(space, context, false);
    if !count || answer is Some {
        space_logged(after, state::log_of(context, answer_id(answer)))
    } else {
        after
    }
}

/// What is recorded of a checked request.
pub open spec fn selected_log(space: SpaceView, context: ContextView, count: bool) -> Option<
    LogView,
> {
    let answer = state::answered(space.scenarios, context, false).0;
    if !count || answer is Some {
        Some(state::log_of(context, answer_id(answer)))
    } else {
        None
    }
}

/// What is recorded, where anything is.
pub open spec fn opt_log(log: Option<RequestLog>) -> Option<LogView> {
    match log {
        Some(l) => Some(l@),
        None => None,
    }
}

/// Checks a request and chooses the script that answers it: that of the first
/// matching scenario, or none for a fallback. The second part is what was
/// recorded.
pub fn select_script(
    app: &mut AppState,
    namespace: &NamespaceKey,
    request: &MessagesRequest,
    hash: Option<String>,
    count: bool,
) -> (r: (Result<Option<Arc<ScenarioScript>>, AnthropicError>, Option<RequestLog>))
    requires
        old(app).wf(),
    ensures
        final(app).wf(),
        old(app)@.sound() ==> final(app)@.sound(),
        ({
            let context = request_context(*request, text::opt_text(hash), count);
            let space = old(app)@.space(namespace@);
            let answer = state::answered(space.scenarios, context, false).0;
            match request.error(count) {
                Some(e) => models::refusal(r.0) == Some(e) && r.1 is None && final(app)@
                    == old(app)@,
                None => {
                    &&& final(app)@ == old(app)@.with_space(
                        namespace@,
                        space_selected(space, context, count),
                    )
                    &&& opt_log(r.1) == selected_log(space, context, count)
                    &&& match answer {
                        Some(s) => r.0 matches Ok(Some(script)) && script == s.script,
                        None => if !count && is_strict(old(app)@.config) {
                            models::refusal(r.0) == Some(models::no_scenario())
                        } else {
                            r.0 matches Ok(None)
                        },
                    }
                },
            }
        }),
{
    match request.validate(count) {
        Ok(()) => {},
        Err(e) => {
            return (Err(e), None);
        },
    }
    let context = RequestContext {
        endpoint: endpoint_text(count),
        model: request.model.clone(),
        stream: request.stream,
        metadata: request.metadata.copy(),
        input_text: request.extract_user_text(),
        instructions_text: request.extract_instruction_text(),
        request_hash: hash,
    };
    assert(context@ == request_context(*request, text::opt_text(hash), count));
    let ghost space = old(app)@.space(namespace@);
    let answer = app.take_matching_scenario(namespace, &context);
    let strict = app.config().scenarios_path.is_some() && !app.config().allow_unmatched;
    let (id, script) = match answer {
        Some(s) => {
            let scenario::Scenario { scenario_id, script, .. } = s;
            (scenario_id, Some(script))
        },
        None => (None, None),
    };
    let log = if !count || script.is_some() {
        let log = app.log_request(namespace, context, id);
        assert(app@.spaces =~= old(app)@.spaces.insert(namespace@, app@.space(namespace@)));
        Some(log)
    } else {
        None
    };
    if !count && script.is_none() && strict {
        (Err(AnthropicError::scenario_not_found()), log)
    } else {
        (Ok(script), log)
    }
}

/// A count that no scenario answers leaves its namespace as it was: no scenario is
/// used up, no response is numbered, and nothing is recorded.
pub proof fn unscripted_counts_change_nothing(space: SpaceView, context: ContextView)
    requires
        state::answered(space.scenarios, context, false).0 is None,
    ensures
        space_selected(space, context, true) == space,
        selected_log(space, context, true) is None,
{
    assert(space_selected(space, context, true) =~= space);
}

} // verus!
