//! What answering requests promises.

use vstd::prelude::*;
use vstd::utf8::*;

use crate::anthropic::config::Config;
use crate::anthropic::engine;
use crate::anthropic::engine::plan;
use crate::anthropic::engine::plan::ResponsePlan;
use crate::anthropic::engine::scenario::{ContextView, Scenario, ScenarioScript, SuccessScript};
use crate::anthropic::exchange::{AnswerView, Begun, ModelIdentity};
use crate::anthropic::logs::LogView;
use crate::anthropic::models::MessagesRequest;
use crate::anthropic::state::{
    DebugSnapshot, NamespaceSnapshot, ScenarioSnapshot, SpaceView, StateView,
};
use crate::anthropic::{auth, exchange, logs, models, sse, state};
use crate::json::JsonView;
use crate::reply::{BodyView, ContentView};
use crate::{codec, credentials, hash, headers, text, transport};

verus! {

/// The answer to a request comes from the first scenario in the queue that
/// accepts it, and nothing answers where none does. Where only a recorded
/// exchange will do, the first that accepts the request has to be one.
pub proof fn first_match_answers(queue: Seq<Scenario>, request: ContextView, recorded_only: bool)
    ensures
        ({
            let (answer, after) = state::answered(queue, request, recorded_only);
            &&& answer is None ==> after == queue
            &&& answer is None && !recorded_only ==> forall|i: int|
                0 <= i < queue.len() ==> !(#[trigger] queue[i]).matcher.accepts(request)
            &&& answer is None && recorded_only ==> forall|i: int|
                {
                    &&& 0 <= i < queue.len()
                    &&& (#[trigger] queue[i]).matcher.accepts(request)
                    &&& forall|j: int|
                        0 <= j < i ==> !(#[trigger] queue[j]).matcher.accepts(request)
                } ==> queue[i].matcher.request_hash is None || !(*queue[i].script is Transcript)
            &&& answer matches Some(s) ==> exists|p: int|
                {
                    &&& 0 <= p < queue.len()
                    &&& (#[trigger] queue[p]).matcher.accepts(request)
                    &&& forall|j: int|
                        0 <= j < p ==> !(#[trigger] queue[j]).matcher.accepts(request)
                    &&& recorded_only ==> queue[p].matcher.request_hash is Some
                        && *queue[p].script is Transcript
                    &&& s.scenario_id == queue[p].scenario_id
                    &&& s.script == queue[p].script
                    &&& s.matcher == queue[p].matcher
                    &&& queue[p].sticky ==> after == queue
                    &&& !queue[p].sticky && queue[p].repeat > 1 ==> {
                        &&& after.len() == queue.len()
                        &&& after[p].repeat == queue[p].repeat - 1
                        &&& after[p].script == queue[p].script
                        &&& after[p].matcher == queue[p].matcher
                        &&& after[p].scenario_id == queue[p].scenario_id
                        &&& after[p].namespace == queue[p].namespace
                        &&& !after[p].sticky
                        &&& forall|j: int|
                            0 <= j < queue.len() && j != p ==> after[j] == #[trigger] queue[j]
                    }
                    &&& !queue[p].sticky && queue[p].repeat <= 1 ==> {
                        &&& after.len() == queue.len() - 1
                        &&& forall|j: int| 0 <= j < p ==> after[j] == #[trigger] queue[j]
                        &&& forall|j: int|
                            p < j < queue.len() ==> after[j - 1] == #[trigger] queue[j]
                    }
                }
        }),
{
    state::lemma_first_match_range(queue, request);
    if state::first_match(queue, request) is Some {
        let p = state::first_match(queue, request)->0;
        assert(queue[p].matcher.accepts(request));
    }
}

/// A namespace that is first used is seeded with the template's scenarios that
/// name no namespace or this one, in their order.
pub proof fn seeding_keeps_order(front: Seq<Scenario>, s: Scenario, key: Option<Seq<char>>)
    ensures
        state::seeds(Seq::empty(), key) == Seq::<Scenario>::empty(),
        s.namespace is None ==> state::seeds(front.push(s), key) == state::seeds(front, key).push(
            s,
        ),
        s.namespace matches Some(n) ==> (if key == Some(n@) {
            state::seeds(front.push(s), key) == state::seeds(front, key).push(s)
        } else {
            state::seeds(front.push(s), key) == state::seeds(front, key)
        }),
{
    assert(front.push(s).drop_last() =~= front);
}

/// A namespace sees no scenario that is meant for another, and every scenario of
/// the template that is meant for it or for all.
pub proof fn seeds_are_meant_for_their_namespace(
    template: Seq<Scenario>,
    key: Option<Seq<char>>,
)
    ensures
        forall|i: int|
            0 <= i < state::seeds(template, key).len() ==> {
                let s = #[trigger] state::seeds(template, key)[i];
                &&& template.contains(s)
                &&& s.namespace matches Some(n) ==> key == Some(n@)
            },
        forall|i: int|
            0 <= i < template.len() && ((#[trigger] template[i]).namespace is None || key == Some(
                template[i].namespace->0@,
            )) ==> state::seeds(template, key).contains(template[i]),
    decreases template.len(),
{
    if template.len() > 0 {
        let front = template.drop_last();
        let last = template.last();
        seeds_are_meant_for_their_namespace(front, key);
        let fewer = state::seeds(front, key);
        let all = state::seeds(template, key);
        assert forall|i: int| 0 <= i < all.len() implies ({
            let s = #[trigger] all[i];
            &&& template.contains(s)
            &&& s.namespace matches Some(n) ==> key == Some(n@)
        }) by {
            if i < fewer.len() {
                assert(all[i] == fewer[i]);
                let j = front.index_of(fewer[i]);
                assert(template[j] == fewer[i]);
            } else {
                assert(all[i] == template[template.len() - 1]);
            }
        }
        assert forall|i: int|
            0 <= i < template.len() && ((#[trigger] template[i]).namespace is None || key == Some(
                template[i].namespace->0@,
            )) implies all.contains(template[i]) by {
            if i < front.len() {
                assert(front[i] == template[i]);
                let j = fewer.index_of(front[i]);
                assert(all[j] == fewer[j]);
            } else {
                assert(all[all.len() - 1] == last);
            }
        }
    }
}

/// A namespace that is not in use yet starts with its seeds, the first number
/// and no records.
pub proof fn namespaces_start_fresh(before: StateView, key: Option<Seq<char>>)
    requires
        !before.spaces.contains_key(key),
    ensures
        before.space(key).scenarios == state::seeds(before.template, key),
        before.space(key).next == 1,
        before.space(key).logs.len() == 0,
{
}

/// A matcher sees of a request its endpoint, its model, whether it asks for a
/// stream, its metadata and its hash.
pub proof fn requests_are_seen(
    request: JsonView,
    checked: MessagesRequest,
    hash: Option<Seq<char>>,
    count: bool,
)
    ensures
        ({
            let raw = engine::raw_context(request, hash, count);
            let seen = engine::request_context(checked, hash, count);
            let endpoint = if count {
                "messages.count_tokens"@
            } else {
                "messages"@
            };
            &&& raw.endpoint == endpoint
            &&& seen.endpoint == endpoint
            &&& raw.request_hash == hash
            &&& seen.request_hash == hash
            &&& seen.model == checked.model@
            &&& request.at("model"@) matches JsonView::Str(model) ==> raw.model == model
            &&& seen.stream == checked.stream
            &&& raw.stream <==> request.at("stream"@) == JsonView::Bool(true)
            &&& seen.metadata == checked.metadata@
            &&& request.at("metadata"@) matches JsonView::Object(m) ==> raw.metadata == m
            &&& !(request.at("metadata"@) is Object) ==> raw.metadata == Map::<
                Seq<char>,
                JsonView,
            >::empty()
            &&& seen.input_text == checked.user_text()
            &&& seen.instructions_text == checked.instruction_text()
        }),
{
}

/// Whether a checked request is the one that a document describes, as far as
/// matchers see it.
pub open spec fn reads_as(checked: MessagesRequest, request: JsonView) -> bool {
    &&& request.at("model"@) == JsonView::Str(checked.model@)
    &&& checked.stream == (request.at("stream"@) == JsonView::Bool(true))
    &&& checked.metadata@ == (match request.at("metadata"@) {
        JsonView::Object(m) => m,
        _ => Map::<Seq<char>, JsonView>::empty(),
    })
    &&& checked.system@ == request.at("system"@)
    &&& checked.messages@.len() == request.at("messages"@).items().len()
    &&& forall|i: int|
        #![trigger checked.messages@[i]]
        0 <= i < checked.messages@.len() ==> {
            let turn = request.at("messages"@).items()[i];
            &&& turn.at("role"@) == JsonView::Str(checked.messages@[i].role@)
            &&& turn.at("content"@) == checked.messages@[i].content@
        }
}

proof fn lemma_turn_texts(
    turns: Seq<models::Message>,
    items: Seq<JsonView>,
    role: Seq<char>,
)
    requires
        turns.len() == items.len(),
        forall|i: int|
            #![trigger turns[i]]
            0 <= i < turns.len() ==> items[i].at("role"@) == JsonView::Str(turns[i].role@)
                && items[i].at("content"@) == turns[i].content@,
    ensures
        models::role_texts(turns, role) == engine::turn_texts(items, role),
    decreases turns.len(),
{
    if turns.len() > 0 {
        let front = turns.drop_last();
        let before = items.drop_last();
        assert forall|i: int| #![trigger front[i]] 0 <= i < front.len() implies before[i].at(
            "role"@,
        ) == JsonView::Str(front[i].role@) && before[i].at("content"@) == front[i].content@ by {
            assert(front[i] == turns[i]);
        }
        lemma_turn_texts(front, before, role);
        assert(turns.last() == turns[turns.len() - 1]);
        assert(items.last() == items[turns.len() - 1]);
    }
}

/// A request is seen alike before and after it is checked, so that a recording
/// answers what the twin would have to decide on.
pub proof fn checked_requests_are_seen_alike(
    checked: MessagesRequest,
    request: JsonView,
    hash: Option<Seq<char>>,
    count: bool,
)
    requires
        reads_as(checked, request),
    ensures
        engine::request_context(checked, hash, count) == engine::raw_context(request, hash, count),
{
    let items = request.at("messages"@).items();
    lemma_turn_texts(checked.messages@, items, "user"@);
    lemma_turn_texts(checked.messages@, items, "system"@);
    let system = models::text_in(request.at("system"@));
    let turns = engine::turn_texts(items, "system"@);
    let sep = seq![' '];
    reveal_strlit(" ");
    assert(" "@ =~= sep);
    let all = seq![system] + turns;
    if turns.len() == 0 {
        assert(all =~= seq![system]);
        assert(text::joined(all, sep) == system);
        let spaced = system + " "@ + text::joined(turns, sep);
        assert(spaced =~= system.push(' '));
        assert(spaced.drop_last() =~= system);
        assert(text::words(spaced) == text::words(system));
    } else {
        lemma_joined_front(system, turns, sep);
    }
    assert(engine::request_context(checked, hash, count) =~= engine::raw_context(
        request,
        hash,
        count,
    ));
}

proof fn lemma_joined_front(first: Seq<char>, rest: Seq<Seq<char>>, sep: Seq<char>)
    requires
        rest.len() > 0,
    ensures
        text::joined(seq![first] + rest, sep) == first + sep + text::joined(rest, sep),
    decreases rest.len(),
{
    let all = seq![first] + rest;
    if rest.len() == 1 {
        assert(all.drop_last() =~= seq![first]);
        assert(text::joined(seq![first], sep) == first);
        assert(all.last() == rest[0]);
    } else {
        lemma_joined_front(first, rest.drop_last(), sep);
        assert(all.drop_last() =~= seq![first] + rest.drop_last());
        assert(all.last() == rest.last());
        assert(text::joined(all, sep) =~= first + sep + text::joined(rest, sep));
    }
}

/// The record of a request holds what a matcher saw of it and the id of the
/// scenario that answered. Every generation is recorded, answered or not, and a
/// count where a scenario answered it; records are only ever added.
pub proof fn requests_are_recorded(space: SpaceView, request: ContextView, count: bool)
    ensures
        ({
            let answer = state::answered(space.scenarios, request, false).0;
            let after = engine::space_selected(space, request, count);
            let log = after.logs.last();
            &&& after.scenarios == state::answered(space.scenarios, request, false).1
            &&& after.next == space.next
            &&& count && answer is None ==> after.logs == space.logs
            &&& !count || answer is Some ==> {
                &&& after.logs.len() == space.logs.len() + 1
                &&& forall|i: int|
                    0 <= i < space.logs.len() ==> after.logs[i] == #[trigger] space.logs[i]
                &&& engine::selected_log(space, request, count) == Some(log)
                &&& log.endpoint == request.endpoint
                &&& log.model == request.model
                &&& log.stream == request.stream
                &&& log.input_text == request.input_text
                &&& log.instructions_text == request.instructions_text
                &&& log.metadata == request.metadata
                &&& answer is None ==> log.scenario_id is None
                &&& answer matches Some(s) ==> log.scenario_id == text::opt_text(s.scenario_id)
            }
        }),
{
}

/// The document of a record gives each of its fields under its own name, and the
/// scenario only where one answered.
pub proof fn log_documents_tell_the_record(log: LogView)
    ensures
        ({
            let document = logs::log_document(log);
            &&& document.at("endpoint"@) == JsonView::Str(log.endpoint)
            &&& document.at("model"@) == JsonView::Str(log.model)
            &&& document.at("stream"@) == JsonView::Bool(log.stream)
            &&& document.at("input_text"@) == JsonView::Str(log.input_text)
            &&& document.at("instructions_text"@) == JsonView::Str(log.instructions_text)
            &&& document.at("metadata"@) == JsonView::Object(log.metadata)
            &&& log.scenario_id matches Some(id) ==> document.get("scenario_id"@) == Some(
                JsonView::Str(id),
            )
            &&& log.scenario_id is None ==> document.get("scenario_id"@) is None
        }),
{
    reveal_strlit("endpoint");
    reveal_strlit("model");
    reveal_strlit("stream");
    reveal_strlit("input_text");
    reveal_strlit("instructions_text");
    reveal_strlit("metadata");
    reveal_strlit("scenario_id");
    assert("endpoint"@.len() == 8 && "endpoint"@[0] == 'e');
    assert("metadata"@.len() == 8 && "metadata"@[0] == 'm');
    assert("model"@.len() == 5 && "stream"@.len() == 6 && "input_text"@.len() == 10);
    assert("instructions_text"@.len() == 17 && "scenario_id"@.len() == 11);
}

/// A generation that no scenario answers is refused only where scenarios were
/// loaded and unmatched requests are not allowed.
pub proof fn strictness_needs_scenarios(config: Config)
    ensures
        config.scenarios_path is None ==> !engine::is_strict(config),
        config.allow_unmatched ==> !engine::is_strict(config),
        config.scenarios_path is Some && !config.allow_unmatched ==> engine::is_strict(config),
{
}

/// Credentials are accepted exactly where the key header and the bearer header
/// hold a token each where they are given, do not contradict each other, and one
/// of them is given where credentials are required. A refusal is a 401.
pub proof fn credentials_are_checked(contents: Map<Seq<char>, Seq<Seq<u8>>>, required: bool)
    ensures
        ({
            let key = contents.contains_key("x-api-key"@);
            let bearer = contents.contains_key("authorization"@);
            let error = auth::credential_error(contents, required);
            let token = auth::credential(contents);
            let in_key = auth::key_token(contents);
            let in_bearer = credentials::bearer_token(contents);
            &&& !key && !bearer ==> (error is None <==> !required) && token is None
            &&& key && !bearer ==> (error is None <==> in_key is Some) && token == in_key
            &&& !key && bearer ==> (error is None <==> in_bearer is Some) && token == in_bearer
            &&& key && bearer ==> (error is None <==> in_key is Some && in_key == in_bearer)
            &&& key && bearer && error is None ==> token == in_key
            &&& error matches Some(e) ==> e.status == 401 && e.kind == "error"@ && e.error_type
                == "authentication_error"@ && e.code is None && e.message
                == "missing, empty, or conflicting API credentials"@
        }),
{
}

/// The tokens in the headers: that of the key header is its text, that of the
/// bearer header what follows `Bearer `, both without the white space at their
/// ends, and neither where nothing is left.
pub proof fn tokens_are_read(contents: Map<Seq<char>, Seq<Seq<u8>>>)
    ensures
        ({
            let given = headers::value_text(contents["x-api-key"@][0]);
            let sent = headers::value_text(contents["authorization"@][0]);
            let in_key = auth::key_token(contents);
            let in_bearer = credentials::bearer_token(contents);
            &&& contents.contains_key("x-api-key"@) && given is Some ==> in_key == (
            if text::trimmed(given->0).len() > 0 {
                Some(text::trimmed(given->0))
            } else {
                None
            })
            &&& !contents.contains_key("x-api-key"@) || given is None ==> in_key is None
            &&& !contents.contains_key("authorization"@) || sent is None ==> in_bearer is None
            &&& forall|rest: Seq<char>|
                contents.contains_key("authorization"@) && sent == Some(#[trigger] (
                "Bearer "@ + rest)) ==> in_bearer == (if text::trimmed(rest).len() > 0 {
                    Some(text::trimmed(rest))
                } else {
                    None
                })
            &&& in_bearer is Some ==> exists|rest: Seq<char>|
                sent == Some(#[trigger] ("Bearer "@ + rest)) && in_bearer == Some(
                    text::trimmed(rest),
                )
        }),
{
    let sent = headers::value_text(contents["authorization"@][0]);
    assert forall|rest: Seq<char>|
        contents.contains_key("authorization"@) && sent == Some(
            #[trigger] ("Bearer "@ + rest),
        ) implies credentials::bearer_token(contents) == (if text::trimmed(rest).len() > 0 {
        Some(text::trimmed(rest))
    } else {
        None
    }) by {
        let whole = "Bearer "@ + rest;
        assert("Bearer "@.is_prefix_of(whole)) by {
            assert(whole.take("Bearer "@.len() as int) =~= "Bearer "@);
        }
        assert(whole.skip("Bearer "@.len() as int) =~= rest);
    }
    if credentials::bearer_token(contents) is Some {
        let whole = sent->0;
        let rest = whole.skip("Bearer "@.len() as int);
        assert(whole =~= "Bearer "@ + rest);
    }
}

/// Only the one protocol version is accepted, and anything else is a malformed
/// request.
pub proof fn versions_are_checked(contents: Map<Seq<char>, Seq<Seq<u8>>>)
    ensures
        auth::version_error(contents) is None <==> contents.contains_key("anthropic-version"@)
            && headers::value_text(contents["anthropic-version"@][0]) == Some("2023-06-01"@),
        auth::version_error(contents) matches Some(e) ==> e.status == 400 && e.error_type
            == "invalid_request_error"@ && e.message == "anthropic-version"@ + ": "@
            + "must be 2023-06-01"@,
{
}

/// A request with bad credentials, another version or a body that is no JSON is
/// refused, in this order, and changes nothing.
pub proof fn bad_requests_change_nothing(
    b: Begun,
    before: StateView,
    after: StateView,
    required: bool,
    contents: Map<Seq<char>, Seq<Seq<u8>>>,
    body: Seq<u8>,
    count: bool,
)
    requires
        exchange::begun(b, before, after, required, contents, body, count),
    ensures
        ({
            let e1 = auth::credential_error(contents, required);
            let e2 = auth::version_error(contents);
            let parsed = codec::json_parse(body);
            &&& e1 is Some || e2 is Some || parsed is Err ==> {
                &&& after == before
                &&& b matches Begun::Answered(a, log) && log is None && a@ is Refused && a@->delay_ms
                    == 0 && a@->Refused_headers == Map::<Seq<char>, Seq<char>>::empty()
            }
            &&& e1 is Some ==> b->Answered_0@->error == e1->0
            &&& e1 is None && e2 is Some ==> b->Answered_0@->error == e2->0
            &&& e1 is None && e2 is None && parsed is Err ==> {
                &&& b->Answered_0@->error.status == 400
                &&& b->Answered_0@->error.error_type == "invalid_request_error"@
                &&& b->Answered_0@->error.message == "body"@ + ": "@ + parsed->Err_0
            }
        }),
{
}

/// A request that is let in is answered from a recorded exchange where the first
/// scenario that accepts it is one. Otherwise it is left to be decoded, under the
/// namespace of its key and with its hash, unless it is a count with members that
/// a count may not have.
pub proof fn recorded_exchanges_answer_first(
    b: Begun,
    before: StateView,
    after: StateView,
    required: bool,
    contents: Map<Seq<char>, Seq<Seq<u8>>>,
    body: Seq<u8>,
    count: bool,
)
    requires
        exchange::begun(b, before, after, required, contents, body, count),
        auth::credential_error(contents, required) is None,
        auth::version_error(contents) is None,
        codec::json_parse(body) is Ok,
    ensures
        ({
            let key = auth::credential(contents);
            let request = codec::json_parse(body)->Ok_0;
            let context = engine::raw_context(request, hash::body_key(body), count);
            let queue = before.space(key).scenarios;
            let (answer, left) = state::answered(queue, context, true);
            &&& answer matches Some(s) ==> {
                &&& b matches Begun::Answered(a, log) && a@ == AnswerView::Sent(
                    exchange::transcript_reply(*s.script),
                ) && log is Some && log->0@.scenario_id == text::opt_text(s.scenario_id)
                    && log->0@.endpoint == context.endpoint && log->0@.model == context.model
                &&& after.space(key).logs == before.space(key).logs.push(b->Answered_1->0@)
            }
            &&& answer is None ==> after.space(key) == before.space(key)
            &&& answer is None && (!count || exchange::count_error(request) is None) ==> (
            b matches Begun::Undecided(p) && p.namespace@ == key && text::opt_text(p.hash)
                == hash::body_key(body) && p.estimated == exchange::tokens_in(
                codec::json_text(request),
            ))
            &&& answer is None && count && exchange::count_error(request) is Some ==> (
            b matches Begun::Answered(a, log) && log is None && a@ is Refused && a@->error
                == exchange::count_error(request)->0)
            &&& after.space(key).scenarios == left
            &&& after.space(key).next == before.space(key).next
            &&& forall|other: Option<Seq<char>>|
                other != key ==> #[trigger] after.space(other) == before.space(other)
        }),
{
    let key = auth::credential(contents);
    let request = codec::json_parse(body)->Ok_0;
    let context = engine::raw_context(request, hash::body_key(body), count);
    let queue = before.space(key).scenarios;
    state::lemma_first_match_range(queue, context);
}

/// A count request may have no member but those that say what is counted. Any
/// other is refused by its name, and of several the first in order.
pub proof fn counts_are_held_to_their_members(m: Map<Seq<char>, JsonView>, k: Seq<char>)
    requires
        m.contains_key(k),
        k != "model"@ && k != "messages"@ && k != "system"@ && k != "tools"@ && k
            != "tool_choice"@ && k != "thinking"@ && k != "cache_control"@ && k
            != "context_management"@,
        forall|o: Seq<char>| #[trigger]
            m.contains_key(o) ==> o == k || text::precedes(k, o) || o == "model"@ || o
                == "messages"@ || o == "system"@ || o == "tools"@ || o == "tool_choice"@ || o
                == "thinking"@ || o == "cache_control"@ || o == "context_management"@,
    ensures
        exchange::count_error(JsonView::Object(m)) matches Some(e) && e.status == 400
            && e.error_type == "invalid_request_error"@ && e.message == k + ": "@
            + "not accepted by count_tokens"@,
{
    assert(exchange::first_uncountable(m, k));
    let c = choose|c: Seq<char>| #[trigger] exchange::first_uncountable(m, c);
    assert(exchange::first_uncountable(m, c));
    if c != k {
        assert(text::precedes(k, c) && text::precedes(c, k));
        lemma_precedes_one_way(k, c);
    }
}

proof fn lemma_precedes_one_way(a: Seq<char>, b: Seq<char>)
    requires
        text::precedes(a, b),
    ensures
        !text::precedes(b, a),
    decreases a.len(),
{
    if a.len() > 0 && a[0] == b[0] {
        lemma_precedes_one_way(a.skip(1), b.skip(1));
    }
}

/// A count request with no other members than those is not refused for them.
pub proof fn plain_counts_are_let_through(m: Map<Seq<char>, JsonView>)
    requires
        forall|o: Seq<char>| #[trigger]
            m.contains_key(o) ==> o == "model"@ || o == "messages"@ || o == "system"@ || o
                == "tools"@ || o == "tool_choice"@ || o == "thinking"@ || o == "cache_control"@
                || o == "context_management"@,
    ensures
        exchange::count_error(JsonView::Object(m)) is None,
{
}

/// The estimate is the least number of tokens that four bytes each suffice for.
pub proof fn estimate_is_four_bytes_each(written: Seq<char>)
    ensures
        encode_utf8(written).len() <= 4 * exchange::tokens_in(written),
        exchange::tokens_in(written) > 0 ==> 4 * (exchange::tokens_in(written) - 1) < encode_utf8(
            written,
        ).len(),
{
}

/// A count is answered with the scripted number, else with the estimate.
pub proof fn counts_are_told(script: SuccessScript, estimated: u64)
    ensures
        script.input_tokens matches Some(n) ==> exchange::count_document(script, estimated).at(
            "input_tokens"@,
        ).as_u64() == Some(n),
        script.input_tokens is None ==> exchange::count_document(script, estimated).at(
            "input_tokens"@,
        ).as_u64() == Some(estimated),
{
}

/// The list of models holds the one model, whole: there is no more of it, and it
/// is the first and the last.
pub proof fn one_model_is_listed(model: ModelIdentity)
    ensures
        ({
            let list = exchange::model_list(model);
            let entries = list.at("data"@).items();
            &&& entries.len() == 1
            &&& entries[0].at("id"@) == JsonView::Str(model.id@)
            &&& entries[0].at("type"@) == JsonView::Str("model"@)
            &&& entries[0].at("display_name"@) == JsonView::Str(model.display_name@)
            &&& entries[0].at("created_at"@) == JsonView::Str("2024-01-01T00:00:00Z"@)
            &&& list.at("has_more"@) == JsonView::Bool(false)
            &&& list.at("first_id"@) == JsonView::Str(model.id@)
            &&& list.at("last_id"@) == JsonView::Str(model.id@)
        }),
{
    reveal_strlit("id");
    reveal_strlit("data");
    reveal_strlit("type");
    reveal_strlit("has_more");
    reveal_strlit("first_id");
    reveal_strlit("last_id");
    reveal_strlit("created_at");
    reveal_strlit("display_name");
    assert("id"@.len() == 2 && "data"@.len() == 4 && "type"@.len() == 4);
    assert("has_more"@.len() == 8 && "first_id"@.len() == 8 && "last_id"@.len() == 7);
    assert("has_more"@[0] == 'h' && "first_id"@[0] == 'f');
    assert("created_at"@.len() == 10 && "display_name"@.len() == 12);
}

/// A scripted error answers with its status, its words and its headers, after
/// its wait. A hang never sends a body.
pub proof fn scripted_faults_answer(
    a: AnswerView,
    script: ScenarioScript,
    request: MessagesRequest,
    number: u64,
    estimated: u64,
    count: bool,
)
    requires
        exchange::script_answers(a, script, request, number, estimated, count),
    ensures
        match script {
            ScenarioScript::Error {
                status,
                message,
                error_type,
                code,
                retry_after,
                headers,
                delay_before_headers_ms,
            } => {
                &&& a is Refused
                &&& a->delay_ms == delay_before_headers_ms
                &&& 100 <= status <= 999 ==> a->error.status == status
                &&& !(100 <= status <= 999) ==> a->error.status == 500
                &&& a->error.kind == "error"@
                &&& a->error.error_type == error_type@
                &&& a->error.message == message@
                &&& a->error.code == text::opt_text(code)
                &&& retry_after is None ==> a->Refused_headers == headers::sent_headers(headers@)
                &&& retry_after matches Some(value) ==> a->Refused_headers == headers::sent_headers(
                    headers@.insert("retry-after"@, value@),
                )
            },
            ScenarioScript::Hang { delay_before_headers_ms } => {
                &&& a is Sent
                &&& a->Sent_0.delay_ms == delay_before_headers_ms
                &&& a->Sent_0.body == BodyView::Never
            },
            ScenarioScript::Raw { status, content_type, headers, chunks, delay_before_headers_ms } => {
                &&& a is Sent
                &&& a->Sent_0.delay_ms == delay_before_headers_ms
                &&& 100 <= status <= 999 ==> a->Sent_0.status == status
                &&& !(100 <= status <= 999) ==> a->Sent_0.status == 500
                &&& a->Sent_0.body is Chunks
                &&& forall|i: int|
                    0 <= i < a->Sent_0.body->Chunks_0.len() ==> #[trigger] a->Sent_0.body->Chunks_0[i]
                        == chunks@[i]@
            },
            _ => true,
        },
{
    match script {
        ScenarioScript::Raw { chunks, .. } => {
            transport::nothing_follows_a_failure(transport::raw_view(chunks@));
        },
        _ => {},
    }
}

/// A scripted success is answered, after its wait and with its headers, by the
/// planned message: as events where the request asks for a stream, else as one
/// JSON text. Only a plan that goes against the tool choice is refused.
pub proof fn scripted_successes_answer(
    a: AnswerView,
    s: SuccessScript,
    request: MessagesRequest,
    number: u64,
    estimated: u64,
)
    requires
        exchange::success_answers(a, s, request, number, estimated, false),
    ensures
        ({
            let blocks = plan::planned_blocks(number, request, s);
            let refusal = plan::choice_refusal(blocks, request.tool_choice@);
            &&& refusal matches Some(e) ==> a is Refused && a->error == e
            &&& refusal is None ==> {
                &&& a is Sent
                &&& a->Sent_0.status == 200
                &&& a->Sent_0.delay_ms == s.delay_before_headers_ms
                &&& forall|name: Seq<char>| #[trigger]
                    headers::sent_headers(s.headers@).contains_key(name)
                        ==> a->Sent_0.headers.contains_key(name) && a->Sent_0.headers[name]
                        == headers::sent_headers(s.headers@)[name]
                &&& !headers::sent_headers(s.headers@).contains_key("content-type"@)
                    ==> a->Sent_0.headers["content-type"@] == (if request.stream {
                    "text/event-stream"@
                } else {
                    "application/json"@
                })
                &&& exists|p: ResponsePlan| #[trigger]
                    plan::is_plan(p, number, request, s) && if request.stream {
                        a->Sent_0.body == sse::stream_reply(
                            sse::as_events(
                                sse::stream_data(p),
                            ),
                            s,
                        ).body
                    } else {
                        a->Sent_0.body == BodyView::Whole(
                            codec::json_text(JsonView::Object(p.message())),
                        )
                    }
            }
        }),
{
}

/// A decoded request is checked first; one that is refused changes nothing. One
/// that is accepted is answered by its scenario, else refused where the twin is
/// strict, else answered by default.
pub proof fn decoded_requests_are_answered(
    a: AnswerView,
    before: StateView,
    strict: bool,
    key: Option<Seq<char>>,
    request: MessagesRequest,
    hash: Option<Seq<char>>,
    estimated: u64,
    count: bool,
)
    requires
        exchange::finished(a, before, strict, key, request, hash, estimated, count),
    ensures
        ({
            let context = engine::request_context(request, hash, count);
            let answer = state::answered(before.space(key).scenarios, context, false).0;
            let after = exchange::state_finished(before, strict, key, request, hash, count);
            let number = before.space(key).next;
            &&& request.error(count) matches Some(e) ==> {
                &&& a is Refused && a->error == e && a->delay_ms == 0
                &&& after == before
            }
            &&& request.error(count) is None ==> {
                &&& answer matches Some(s) ==> exchange::script_answers(
                    a,
                    *s.script,
                    request,
                    number,
                    estimated,
                    count,
                )
                &&& answer is None && strict && !count ==> {
                    &&& a is Refused
                    &&& a->error.code == Some("scenario_not_found"@)
                    &&& after.space(key).next == number
                }
                &&& answer is None && !(strict && !count) ==> exists|s: SuccessScript|
                    {
                        &&& #[trigger] exchange::success_answers(
                            a,
                            s,
                            request,
                            number,
                            estimated,
                            count,
                        )
                        &&& s.response_text is None && s.reasoning is None && s.content is None
                        &&& s.structured_output is None && s.tool_calls@.len() == 0
                        &&& s.usage is None && s.stop_reason is None && s.finish_reason is None
                        &&& s.stop_sequence is None && s.stop_details is None
                        &&& s.headers@ == Map::<Seq<char>, Seq<char>>::empty()
                        &&& s.input_tokens is None && s.delay_before_headers_ms == 0
                        &&& s.inter_event_delay_ms == 0
                        &&& s.close_after_chunks is None && !s.malformed_sse
                    }
                &&& after.space(key).scenarios == state::answered(
                    before.space(key).scenarios,
                    context,
                    false,
                ).1
            }
            &&& forall|other: Option<Seq<char>>|
                other != key ==> #[trigger] after.space(other) == before.space(other)
        }),
{
}

/// A response takes the next number of its namespace exactly where one is
/// planned: a generation that a success answers, scripted or by default.
pub proof fn responses_are_numbered(
    before: StateView,
    strict: bool,
    key: Option<Seq<char>>,
    request: MessagesRequest,
    hash: Option<Seq<char>>,
    count: bool,
)
    requires
        before.space(key).next < u64::MAX,
    ensures
        ({
            let context = engine::request_context(request, hash, count);
            let answer = state::answered(before.space(key).scenarios, context, false).0;
            let after = exchange::state_finished(before, strict, key, request, hash, count);
            let planned = request.error(count) is None && !count && (match answer {
                Some(s) => *s.script is Success,
                None => !strict,
            });
            after.space(key).next == before.space(key).next + (if planned {
                1int
            } else {
                0
            })
        }),
{
}

/// What is done to a namespace: a reset gives it its seeds, the first number and
/// no records; scenarios are queued behind those that are there; a number is
/// given once; records are added at the end. Nothing else of it changes, and
/// nothing of any other.
pub proof fn namespaces_change_as_told(
    before: StateView,
    key: Option<Seq<char>>,
    batch: Seq<Scenario>,
    log: LogView,
    other: Option<Seq<char>>,
)
    requires
        before.space(key).next < u64::MAX,
    ensures
        before.restarted(key).space(key).scenarios == state::seeds(before.template, key),
        before.restarted(key).space(key).next == 1,
        before.restarted(key).space(key).logs.len() == 0,
        before.enqueued(key, batch).space(key).scenarios.len() == before.space(key).scenarios.len()
            + batch.len(),
        forall|i: int|
            0 <= i < before.space(key).scenarios.len() ==> before.enqueued(key, batch).space(
                key,
            ).scenarios[i] == #[trigger] before.space(key).scenarios[i],
        forall|i: int|
            0 <= i < batch.len() ==> before.enqueued(key, batch).space(
                key,
            ).scenarios[before.space(key).scenarios.len() + i] == #[trigger] batch[i],
        before.enqueued(key, batch).space(key).next == before.space(key).next,
        before.enqueued(key, batch).space(key).logs == before.space(key).logs,
        before.numbered(key).space(key).next == before.space(key).next + 1,
        before.numbered(key).space(key).scenarios == before.space(key).scenarios,
        before.numbered(key).space(key).logs == before.space(key).logs,
        before.logged(key, log).space(key).logs == before.space(key).logs.push(log),
        before.logged(key, log).space(key).scenarios == before.space(key).scenarios,
        before.logged(key, log).space(key).next == before.space(key).next,
        other != key ==> {
            &&& before.restarted(key).space(other) == before.space(other)
            &&& before.enqueued(key, batch).space(other) == before.space(other)
            &&& before.numbered(key).space(other) == before.space(other)
            &&& before.logged(key, log).space(other) == before.space(other)
        },
        before.restarted(key).template == before.template,
        before.enqueued(key, batch).template == before.template,
        before.restarted(key).config == before.config,
        before.enqueued(key, batch).config == before.config,
{
}

/// A first match that is rejected answers nothing and stays, so that no later
/// scenario comes before it; one that is accepted answers as without the check.
pub proof fn rejected_matches_stay(queue: Seq<Scenario>, request: ContextView)
    ensures
        state::answered_if(queue, request, false) == (None::<Scenario>, queue),
        state::answered_if(queue, request, true) == state::answered(queue, request, false),
{
}

/// A snapshot shows of a scenario what it answers to and how often it still
/// will.
pub proof fn snapshots_show_scenarios(shown: ScenarioSnapshot, s: Scenario)
    requires
        state::shows_scenario(shown, s),
    ensures
        text::opt_text(shown.scenario_id) == text::opt_text(s.scenario_id),
        shown.endpoint@ == s.matcher.endpoint@,
        text::opt_text(shown.model) == text::opt_text(s.matcher.model),
        shown.stream == s.matcher.stream,
        text::opt_text(shown.input_contains) == text::opt_text(s.matcher.input_contains),
        text::opt_text(shown.instructions_contains) == text::opt_text(
            s.matcher.instructions_contains,
        ),
        shown.metadata@ == s.matcher.metadata@,
        shown.script_kind@ == s.script.kind(),
        s.sticky <==> shown.remaining is None,
        shown.remaining matches Some(n) ==> n == s.repeat,
{
}

/// Namespaces are told apart by how they are shown.
pub proof fn namespaces_are_shown_apart(a: Option<Seq<char>>, b: Option<Seq<char>>)
    ensures
        state::shown_key(None) == "Global"@,
        a matches Some(token) ==> state::shown_key(a) == "ApiKey: "@ + token,
        state::shown_key(a) == state::shown_key(b) ==> a == b,
{
    reveal_strlit("Global");
    reveal_strlit("ApiKey: ");
    assert("Global"@[0] == 'G');
    if a is Some && b is Some && state::shown_key(a) == state::shown_key(b) {
        assert(state::shown_key(a).skip(8) =~= a->0);
        assert(state::shown_key(b).skip(8) =~= b->0);
    } else if a is Some {
        assert(state::shown_key(a)[0] == 'A');
    } else if b is Some {
        assert(state::shown_key(b)[0] == 'A');
    }
}

/// A scripted count is answered with its number as JSON, after its wait and with
/// its headers, whatever else the script says.
pub proof fn scripted_counts_answer(
    a: AnswerView,
    s: SuccessScript,
    request: MessagesRequest,
    number: u64,
    estimated: u64,
)
    requires
        exchange::success_answers(a, s, request, number, estimated, true),
    ensures
        a is Sent,
        a->Sent_0.status == 200,
        a->Sent_0.delay_ms == s.delay_before_headers_ms,
        a->Sent_0.body == BodyView::Whole(codec::json_text(exchange::count_document(s, estimated))),
        forall|name: Seq<char>| #[trigger]
            headers::sent_headers(s.headers@).contains_key(name)
                ==> a->Sent_0.headers.contains_key(name) && a->Sent_0.headers[name]
                == headers::sent_headers(s.headers@)[name],
        !headers::sent_headers(s.headers@).contains_key("content-type"@)
            ==> a->Sent_0.headers["content-type"@] == "application/json"@,
{
}

/// A transcript is replayed under its own status and headers: its events one
/// chunk each, else its text as it is, else its body as JSON text. Its content
/// type is the scripted one, and without one the usual one of its kind.
pub proof fn transcripts_are_replayed(script: ScenarioScript)
    ensures
        match script {
            ScenarioScript::Transcript {
                status,
                content_type,
                body,
                body_text,
                events,
                headers,
            } => {
                let sent = exchange::transcript_reply(script);
                &&& sent.delay_ms == 0
                &&& 100 <= status <= 999 ==> sent.status == status
                &&& !(100 <= status <= 999) ==> sent.status == 500
                &&& events matches Some(e) ==> {
                    &&& sent.body is Chunks
                    &&& sent.body->Chunks_0.len() == e@.len()
                    &&& forall|i: int|
                        #![trigger e@[i]]
                        0 <= i < e@.len() ==> sent.body->Chunks_0[i].content == ContentView::Text(
                            crate::sse::rendered(e@[i]@),
                        )
                }
                &&& events is None && body_text is Some ==> sent.body == BodyView::Whole(
                    body_text->0@,
                )
                &&& events is None && body_text is None && body is Some ==> sent.body
                    == BodyView::Whole(codec::json_text(body->0@))
                &&& content_type matches Some(kind) ==> headers::valid_value(kind@)
                    ==> sent.headers["content-type"@] == kind@
                &&& content_type is None && !headers::sent_headers(headers@).contains_key(
                    "content-type"@,
                ) ==> sent.headers["content-type"@] == (if events is Some {
                    "text/event-stream"@
                } else {
                    "application/json"@
                })
                &&& forall|name: Seq<char>|
                    name != "content-type"@ && #[trigger] headers::sent_headers(
                        headers@,
                    ).contains_key(name) ==> sent.headers.contains_key(name) && sent.headers[name]
                        == headers::sent_headers(headers@)[name]
            },
            _ => true,
        },
{
}

/// A snapshot shows of a namespace its name, every scenario of its queue in order,
/// and every record, and it shows each namespace in use.
pub proof fn snapshots_show_namespaces(
    shown: NamespaceSnapshot,
    key: Option<Seq<char>>,
    space: SpaceView,
    all: DebugSnapshot,
    of: StateView,
)
    requires
        state::shows_space(shown, key, space),
        state::shows_state(all, of),
        of.spaces.contains_key(key),
    ensures
        key is None ==> shown.key@ == "Global"@,
        key matches Some(token) ==> shown.key@ == "ApiKey: "@ + token,
        shown.scenarios@.len() == space.scenarios.len(),
        forall|i: int|
            0 <= i < space.scenarios.len() ==> text::opt_text(
                (#[trigger] shown.scenarios@[i]).scenario_id,
            ) == text::opt_text(space.scenarios[i].scenario_id),
        shown.request_logs@.len() == space.logs.len(),
        forall|i: int|
            0 <= i < space.logs.len() ==> (#[trigger] shown.request_logs@[i])@ == space.logs[i],
        exists|i: int|
            0 <= i < all.namespaces@.len() && state::shows_space(
                #[trigger] all.namespaces@[i],
                key,
                of.spaces[key],
            ),
{
    assert(logs::logs_view(shown.request_logs@).len() == shown.request_logs@.len());
    assert forall|i: int| 0 <= i < space.logs.len() implies (#[trigger] shown.request_logs@[i])@
        == space.logs[i] by {
        assert(logs::logs_view(shown.request_logs@)[i] == space.logs[i]);
    }
    assert forall|i: int| 0 <= i < space.scenarios.len() implies text::opt_text(
        (#[trigger] shown.scenarios@[i]).scenario_id,
    ) == text::opt_text(space.scenarios[i].scenario_id) by {
        assert(state::shows_scenario(shown.scenarios@[i], space.scenarios[i]));
    }
    let keys = choose|keys: Seq<Option<Seq<char>>>|
        {
            &&& #[trigger] keys.no_duplicates()
            &&& keys.len() == all.namespaces@.len()
            &&& forall|k: Option<Seq<char>>|
                #![auto]
                keys.contains(k) <==> of.spaces.contains_key(k)
            &&& forall|i: int|
                0 <= i < keys.len() ==> state::shows_space(
                    #[trigger] all.namespaces@[i],
                    keys[i],
                    of.spaces[keys[i]],
                )
        };
    assert(keys.contains(key));
    let i = keys.index_of(key);
    assert(state::shows_space(all.namespaces@[i], keys[i], of.spaces[keys[i]]));
}

} // verus!
