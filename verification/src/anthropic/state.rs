//! The state of the twin: a queue of scenarios, a response counter and a request
//! log for each namespace.

use vstd::prelude::*;
use vstd::string::*;

use crate::anthropic::config::Config;
use crate::anthropic::engine::scenario;
use crate::anthropic::engine::scenario::{
    validate_scenario_ids, ContextView, RequestContext, Scenario, ScenarioScript,
};
use crate::anthropic::logs;
use crate::anthropic::logs::{LogView, RequestLog};
use crate::json::Members;
use crate::text;

verus! {

/// Whose state a request sees: that of its API key, or the global one.
pub enum NamespaceKey {
    Global,
    ApiKey(String),
}

impl NamespaceKey {
    /// The API key, where there is one.
    pub open spec fn view(&self) -> Option<Seq<char>> {
        match self {
            NamespaceKey::Global => None,
            NamespaceKey::ApiKey(token) => Some(token@),
        }
    }

    /// How the namespace is shown.
    pub fn label(&self) -> (r: String)
        ensures
            r@ == shown_key(self@),
    {
        match self {
            NamespaceKey::Global => "Global".to_owned(),
            NamespaceKey::ApiKey(token) => {
                let mut out = "ApiKey: ".to_owned();
                out.append(token.as_str());
                out
            },
        }
    }

    /// Whether two keys name the same namespace.
    pub fn same(&self, other: &NamespaceKey) -> (r: bool)
        ensures
            r == (self@ == other@),
    {
        match (self, other) {
            (NamespaceKey::Global, NamespaceKey::Global) => true,
            (NamespaceKey::ApiKey(a), NamespaceKey::ApiKey(b)) => text::same(
                a.as_str(),
                b.as_str(),
            ),
            _ => false,
        }
    }

    /// A copy of the key.
    pub fn copy(&self) -> (r: NamespaceKey)
        ensures
            r@ == self@,
    {
        match self {
            NamespaceKey::Global => NamespaceKey::Global,
            NamespaceKey::ApiKey(token) => NamespaceKey::ApiKey(token.clone()),
        }
    }
}

/// The state of one namespace.
struct NamespaceState {
    next_response_number: u64,
    scenarios: Vec<Scenario>,
    request_logs: Vec<RequestLog>,
}

/// The state of one namespace: the number of its next response, its queue of
/// scenarios, and the requests it has seen.
#[verifier::ext_equal]
pub struct SpaceView {
    pub next: u64,
    pub scenarios: Seq<Scenario>,
    pub logs: Seq<LogView>,
}

/// A namespace that has seen nothing.
pub open spec fn fresh(scenarios: Seq<Scenario>) -> SpaceView {
    SpaceView { next: 1, scenarios, logs: Seq::empty() }
}

impl NamespaceState {
    spec fn view(&self) -> SpaceView {
        SpaceView {
            next: self.next_response_number,
            scenarios: self.scenarios@,
            logs: logs::logs_view(self.request_logs@),
        }
    }

    /// A namespace that has seen nothing.
    fn with_scenarios(scenarios: Vec<Scenario>) -> (r: NamespaceState)
        ensures
            r@ == fresh(scenarios@),
    {
        let r = NamespaceState { next_response_number: 1, scenarios, request_logs: Vec::new() };
        assert(r@.logs =~= Seq::empty());
        r
    }
}

/// The scenarios that seed a namespace: those that name no namespace, and those
/// that name this one.
pub open spec fn seeds(template: Seq<Scenario>, key: Option<Seq<char>>) -> Seq<Scenario>
    decreases template.len(),
{
    if template.len() == 0 {
        Seq::empty()
    } else {
        let rest = seeds(template.drop_last(), key);
        match template.last().namespace {
            None => rest.push(template.last()),
            Some(token) => if key == Some(token@) {
                rest.push(template.last())
            } else {
                rest
            },
        }
    }
}

/// The state of the twin: its settings, the template that seeds namespaces, and
/// the namespaces in use.
#[verifier::ext_equal]
pub struct StateView {
    pub config: Config,
    pub template: Seq<Scenario>,
    pub spaces: Map<Option<Seq<char>>, SpaceView>,
}

impl StateView {
    /// The state of a namespace. One not in use is seeded from the template.
    pub open spec fn space(self, key: Option<Seq<char>>) -> SpaceView {
        if self.spaces.contains_key(key) {
            self.spaces[key]
        } else {
            fresh(seeds(self.template, key))
        }
    }

    /// The state with one namespace replaced.
    pub open spec fn with_space(self, key: Option<Seq<char>>, space: SpaceView) -> StateView {
        StateView { spaces: self.spaces.insert(key, space), ..self }
    }

    /// The state with one namespace as it starts.
    pub open spec fn restarted(self, key: Option<Seq<char>>) -> StateView {
        self.with_space(key, fresh(seeds(self.template, key)))
    }

    /// The state with scenarios behind the queue of a namespace.
    pub open spec fn enqueued(self, key: Option<Seq<char>>, batch: Seq<Scenario>) -> StateView {
        let space = self.space(key);
        self.with_space(key, SpaceView { scenarios: space.scenarios + batch, ..space })
    }

    /// The state after a namespace gave its next number away.
    pub open spec fn numbered(self, key: Option<Seq<char>>) -> StateView {
        let space = self.space(key);
        self.with_space(key, SpaceView { next: (space.next + 1) as u64, ..space })
    }

    /// The state after a namespace recorded a request.
    pub open spec fn logged(self, key: Option<Seq<char>>, log: LogView) -> StateView {
        let space = self.space(key);
        self.with_space(key, SpaceView { logs: space.logs.push(log), ..space })
    }

    /// Whether the template and every queue are free of faults.
    pub open spec fn sound(self) -> bool {
        &&& scenario::queue_error(self.template) is None
        &&& forall|k: Option<Seq<char>>| #[trigger]
            self.spaces.contains_key(k) ==> scenario::queue_error(self.spaces[k].scenarios) is None
    }
}

/// Where the first scenario that answers a request stands.
pub open spec fn first_match(queue: Seq<Scenario>, request: ContextView) -> Option<int>
    decreases queue.len(),
{
    if queue.len() == 0 {
        None
    } else if queue[0].matcher.accepts(request) {
        Some(0)
    } else {
        match first_match(queue.skip(1), request) {
            Some(i) => Some(i + 1),
            None => None,
        }
    }
}

/// Whether a scenario is a recorded exchange found by the hash of its request.
pub open spec fn is_recorded(s: Scenario) -> bool {
    s.matcher.request_hash is Some && *s.script is Transcript
}

/// What answering from a queue gives: the answer, and the queue after it. Where
/// only a recorded exchange will do, a first match of another kind will not.
pub open spec fn answered(
    queue: Seq<Scenario>,
    request: ContextView,
    recorded_only: bool,
) -> (Option<Scenario>, Seq<Scenario>) {
    answered_if(
        queue,
        request,
        !recorded_only || (first_match(queue, request) matches Some(p) && is_recorded(queue[p])),
    )
}

/// What answering from a queue gives where its first match will do or will not:
/// the answer, and the queue after it. A first match that will not do stays and
/// answers nothing. A sticky one that answers stays, one with answers left counts
/// down, any other leaves the queue.
pub open spec fn answered_if(queue: Seq<Scenario>, request: ContextView, accepted: bool) -> (
    Option<Scenario>,
    Seq<Scenario>,
) {
    match first_match(queue, request) {
        None => (None, queue),
        Some(p) => {
            let s = queue[p];
            if !accepted {
                (None, queue)
            } else if s.sticky {
                (Some(s), queue)
            } else if s.repeat > 1 {
                let less = Scenario { repeat: (s.repeat - 1) as u32, ..s };
                (Some(less), queue.update(p, less))
            } else {
                (Some(s), queue.remove(p))
            }
        },
    }
}

/// Whether `accepted` is what is said of the first match of a queue.
pub open spec fn judged<F: FnOnce(&Scenario) -> bool>(
    accept: F,
    queue: Seq<Scenario>,
    request: ContextView,
    accepted: bool,
) -> bool {
    first_match(queue, request) matches Some(p) ==> call_ensures(accept, (&queue[p],), accepted)
}

/// The record of a request.
pub open spec fn log_of(request: ContextView, scenario_id: Option<Seq<char>>) -> LogView {
    LogView {
        scenario_id,
        endpoint: request.endpoint,
        model: request.model,
        stream: request.stream,
        input_text: request.input_text,
        instructions_text: request.instructions_text,
        metadata: request.metadata,
    }
}

/// One namespace in use.
struct Namespace {
    key: NamespaceKey,
    state: NamespaceState,
}

/// The state of the twin.
pub struct AppState {
    config: Config,
    namespaces: Vec<Namespace>,
    scenario_template: Vec<Scenario>,
}

spec fn spaces_view(namespaces: Seq<Namespace>) -> Map<Option<Seq<char>>, SpaceView>
    decreases namespaces.len(),
{
    if namespaces.len() == 0 {
        Map::empty()
    } else {
        spaces_view(namespaces.drop_last()).insert(
            namespaces.last().key@,
            namespaces.last().state@,
        )
    }
}

/// Whether no two namespaces in use have the same key.
spec fn keys_differ(namespaces: Seq<Namespace>) -> bool {
    forall|i: int, j: int|
        0 <= i < j < namespaces.len() ==> (#[trigger] namespaces[i]).key@ != (
        #[trigger] namespaces[j]).key@
}

proof fn lemma_space_at(namespaces: Seq<Namespace>, i: int)
    requires
        keys_differ(namespaces),
        0 <= i < namespaces.len(),
    ensures
        spaces_view(namespaces).contains_key(namespaces[i].key@),
        spaces_view(namespaces)[namespaces[i].key@] == namespaces[i].state@,
    decreases namespaces.len(),
{
    if i < namespaces.len() - 1 {
        let front = namespaces.drop_last();
        assert(front[i] == namespaces[i]);
        assert(namespaces[i].key@ != namespaces.last().key@);
        lemma_space_at(front, i);
    }
}

proof fn lemma_space_source(namespaces: Seq<Namespace>, key: Option<Seq<char>>) -> (i: int)
    requires
        spaces_view(namespaces).contains_key(key),
    ensures
        0 <= i < namespaces.len(),
        namespaces[i].key@ == key,
    decreases namespaces.len(),
{
    if namespaces.last().key@ == key {
        namespaces.len() - 1
    } else {
        lemma_space_source(namespaces.drop_last(), key)
    }
}

proof fn lemma_space_update(namespaces: Seq<Namespace>, i: int, changed: Namespace)
    requires
        keys_differ(namespaces),
        0 <= i < namespaces.len(),
        changed.key@ == namespaces[i].key@,
    ensures
        keys_differ(namespaces.update(i, changed)),
        spaces_view(namespaces.update(i, changed)) == spaces_view(namespaces).insert(
            changed.key@,
            changed.state@,
        ),
{
    let now = namespaces.update(i, changed);
    assert forall|a: int, b: int| 0 <= a < b < now.len() implies (#[trigger] now[a]).key@ != (
    #[trigger] now[b]).key@ by {
        assert(namespaces[a].key@ != namespaces[b].key@);
    }
    let wanted = spaces_view(namespaces).insert(changed.key@, changed.state@);
    assert forall|k: Option<Seq<char>>| #[trigger] spaces_view(now).contains_key(k) implies wanted.contains_key(
    k) && wanted[k] == spaces_view(now)[k] by {
        let j = lemma_space_source(now, k);
        lemma_space_at(now, j);
        lemma_space_at(namespaces, j);
    }
    assert forall|k: Option<Seq<char>>| #[trigger] wanted.contains_key(k) implies spaces_view(
        now,
    ).contains_key(k) by {
        if k == changed.key@ {
            lemma_space_at(now, i);
        } else {
            let j = lemma_space_source(namespaces, k);
            lemma_space_at(now, j);
        }
    }
    assert(spaces_view(now) =~= wanted);
}

impl AppState {
    /// The state denoted.
    pub closed spec fn view(&self) -> StateView {
        StateView {
            config: self.config,
            template: self.scenario_template@,
            spaces: spaces_view(self.namespaces@),
        }
    }

    /// The settings.
    pub fn config(&self) -> (r: &Config)
        ensures
            *r == self@.config,
    {
        &self.config
    }

    /// Whether every namespace in use stands once.
    pub closed spec fn wf(&self) -> bool {
        keys_differ(self.namespaces@)
    }

    /// A twin whose namespaces are seeded from a template. A faulty template is
    /// refused.
    pub fn new(config: Config, scenario_template: Vec<Scenario>) -> (r: Result<AppState, String>)
        ensures
            match r {
                Ok(state) => scenario::queue_error(scenario_template@) is None && state.wf()
                    && state@.sound() && state@ == (StateView {
                    config,
                    template: scenario_template@,
                    spaces: Map::empty(),
                }),
                Err(e) => scenario::queue_error(scenario_template@) == Some(e@),
            },
    {
        match validate_scenario_ids(scenario_template.as_slice()) {
            Ok(()) => Ok(AppState { config, namespaces: Vec::new(), scenario_template }),
            Err(e) => Err(e),
        }
    }

    /// Where a namespace in use stands.
    fn find(&self, key: &NamespaceKey) -> (r: Option<usize>)
        ensures
            match r {
                Some(i) => i < self.namespaces.len() && self.namespaces@[i as int].key@ == key@,
                None => !self@.spaces.contains_key(key@),
            },
    {
        for i in 0..self.namespaces.len()
            invariant
                forall|j: int| 0 <= j < i ==> (#[trigger] self.namespaces@[j]).key@ != key@,
        {
            if self.namespaces[i].key.same(key) {
                return Some(i);
            }
        }
        proof {
            if self@.spaces.contains_key(key@) {
                let j = lemma_space_source(self.namespaces@, key@);
                assert(self.namespaces@[j].key@ == key@);
            }
        }
        None
    }

    /// The scenarios that seed a namespace.
    fn template_for(&self, key: &NamespaceKey) -> (r: Vec<Scenario>)
        ensures
            r@ == seeds(self@.template, key@),
    {
        let mut out: Vec<Scenario> = Vec::new();
        let ghost all = self.scenario_template@;
        for i in 0..self.scenario_template.len()
            invariant
                all == self.scenario_template@,
                out@ == seeds(all.take(i as int), key@),
        {
            assert(all.take(i + 1).drop_last() =~= all.take(i as int));
            let s = &self.scenario_template[i];
            let seeded = match (&s.namespace, key) {
                (None, _) => true,
                (Some(token), NamespaceKey::ApiKey(k)) => text::same(token.as_str(), k.as_str()),
                (Some(_), NamespaceKey::Global) => false,
            };
            if seeded {
                out.push(s.copy());
            }
        }
        assert(all.take(all.len() as int) =~= all);
        out
    }

    /// Takes a namespace into use, where it is not, and says where it stands.
    fn namespace_state(&mut self, key: &NamespaceKey) -> (r: usize)
        requires
            old(self).wf(),
        ensures
            final(self).wf(),
            final(self).scenario_template == old(self).scenario_template,
            r < final(self).namespaces.len(),
            final(self).namespaces@[r as int].key@ == key@,
            final(self).namespaces@[r as int].state@ == old(self)@.space(key@),
            final(self)@ == old(self)@.with_space(key@, old(self)@.space(key@)),
    {
        match self.find(key) {
            Some(i) => {
                proof {
                    lemma_space_at(self.namespaces@, i as int);
                    assert(self@.spaces.insert(key@, self@.spaces[key@]) =~= self@.spaces);
                }
                i
            },
            None => {
                let seeded = self.template_for(key);
                let made = Namespace {
                    key: key.copy(),
                    state: NamespaceState::with_scenarios(seeded),
                };
                let ghost before = self.namespaces@;
                self.namespaces.push(made);
                proof {
                    assert(self.namespaces@.drop_last() =~= before);
                    assert forall|i: int, j: int| 0 <= i < j < self.namespaces@.len() implies (
                    #[trigger] self.namespaces@[i]).key@ != (#[trigger] self.namespaces@[j]).key@ by {
                        if j == before.len() {
                            lemma_space_at(before, i);
                        }
                    }
                }
                self.namespaces.len() - 1
            },
        }
    }

    /// Replaces the state of the namespace at `i`.
    fn put(&mut self, i: usize, state: NamespaceState)
        requires
            old(self).wf(),
            i < old(self).namespaces.len(),
        ensures
            final(self).wf(),
            final(self)@ == old(self)@.with_space(old(self).namespaces@[i as int].key@, state@),
    {
        let key = self.namespaces[i].key.copy();
        let changed = Namespace { key, state };
        proof {
            lemma_space_update(self.namespaces@, i as int, changed);
        }
        self.namespaces.set(i, changed);
    }

    /// Takes the state of the namespace at `i` out, to put another in its place.
    fn hold(&mut self, i: usize) -> (r: NamespaceState)
        requires
            old(self).wf(),
            i < old(self).namespaces.len(),
        ensures
            r == old(self).namespaces@[i as int].state,
            final(self).wf(),
            final(self).namespaces.len() == old(self).namespaces.len(),
            final(self).namespaces@[i as int].key@ == old(self).namespaces@[i as int].key@,
            exists|other: SpaceView| #[trigger]
                old(self)@.with_space(old(self).namespaces@[i as int].key@, other) == final(self)@,
    {
        let key = self.namespaces[i].key.copy();
        let mut held = Namespace { key, state: NamespaceState::with_scenarios(Vec::new()) };
        proof {
            lemma_space_update(self.namespaces@, i as int, held);
            assert(self@.with_space(self.namespaces@[i as int].key@, held.state@).spaces
                == spaces_view(self.namespaces@.update(i as int, held)));
        }
        self.namespaces.set_and_swap(i, &mut held);
        held.state
    }

    /// Whether the response numbers of a namespace go on.
    pub fn can_number(&self, namespace: &NamespaceKey) -> (r: bool)
        requires
            self.wf(),
        ensures
            r == (self@.space(namespace@).next < u64::MAX),
    {
        match self.find(namespace) {
            Some(i) => {
                proof {
                    lemma_space_at(self.namespaces@, i as int);
                }
                self.namespaces[i].state.next_response_number < u64::MAX
            },
            None => true,
        }
    }

    /// The number of the next response of a namespace. Numbers start at one and
    /// are given once.
    pub fn next_response_id(&mut self, namespace: &NamespaceKey) -> (r: u64)
        requires
            old(self).wf(),
            old(self)@.space(namespace@).next < u64::MAX,
        ensures
            final(self).wf(),
            old(self)@.sound() ==> final(self)@.sound(),
            r == old(self)@.space(namespace@).next,
            final(self)@ == old(self)@.numbered(namespace@),
    {
        let i = self.namespace_state(namespace);
        let mut state = self.hold(i);
        let number: u64 = state.next_response_number;
        state.next_response_number = number + 1;
        self.put(i, state);
        assert(self@.spaces =~= old(self)@.spaces.insert(namespace@, state@));
        proof {
            lemma_space_sound(old(self)@, namespace@);
        }
        number
    }

    /// Appends scenarios to the queue of a namespace. A batch with a fault, be it
    /// in itself or with the queue, is refused and changes no queue.
    pub fn enqueue_scenarios(&mut self, namespace: &NamespaceKey, scenarios: Vec<Scenario>) -> (r:
        Result<(), String>)
        requires
            old(self).wf(),
        ensures
            final(self).wf(),
            old(self)@.sound() ==> final(self)@.sound(),
            scenario::fault(r) == scenario::queue_error(
                old(self)@.space(namespace@).scenarios + scenarios@,
            ),
            r is Ok ==> final(self)@ == old(self)@.enqueued(namespace@, scenarios@),
            r is Err ==> final(self)@ == old(self)@.with_space(
                namespace@,
                old(self)@.space(namespace@),
            ),
    {
        let i = self.namespace_state(namespace);
        let mut state = self.hold(i);
        let ghost space = old(self)@.space(namespace@);
        let kept: usize = state.scenarios.len();
        let mut scenarios = scenarios;
        let ghost added = scenarios@;
        state.scenarios.append(&mut scenarios);
        let outcome = validate_scenario_ids(state.scenarios.as_slice());
        match outcome {
            Ok(()) => {},
            Err(_) => {
                state.scenarios.truncate(kept);
                assert(state.scenarios@ =~= space.scenarios);
            },
        }
        self.put(i, state);
        assert(self@.spaces =~= old(self)@.spaces.insert(namespace@, state@));
        proof {
            lemma_space_sound(old(self)@, namespace@);
        }
        outcome
    }

    /// The first scenario in queue order that matches the request. A one-shot
    /// scenario is removed, a `repeat` scenario answers until its count is
    /// spent, and a `sticky` scenario stays until the namespace is reset.
    pub fn take_matching_scenario(
        &mut self,
        namespace: &NamespaceKey,
        request: &RequestContext,
    ) -> (r: Option<Scenario>)
        requires
            old(self).wf(),
        ensures
            final(self).wf(),
            old(self)@.sound() ==> final(self)@.sound(),
            r == answered(old(self)@.space(namespace@).scenarios, request@, false).0,
            final(self)@ == old(self)@.with_space(
                namespace@,
                SpaceView {
                    scenarios: answered(
                        old(self)@.space(namespace@).scenarios,
                        request@,
                        false,
                    ).1,
                    ..old(self)@.space(namespace@)
                },
            ),
    {
        let any = |s: &Scenario| -> (b: bool)
            ensures
                b,
            { true };
        self.take_matching_scenario_if(namespace, request, any)
    }

    /// As `take_matching_scenario`, after a check of the first match. A rejected
    /// candidate stays in place; later entries never jump ahead of it.
    pub fn take_matching_scenario_if<F: FnOnce(&Scenario) -> bool>(
        &mut self,
        namespace: &NamespaceKey,
        request: &RequestContext,
        accept: F,
    ) -> (r: Option<Scenario>)
        requires
            old(self).wf(),
            forall|s: &Scenario| call_requires(accept, (s,)),
        ensures
            final(self).wf(),
            old(self)@.sound() ==> final(self)@.sound(),
            exists|accepted: bool| #[trigger]
                judged(accept, old(self)@.space(namespace@).scenarios, request@, accepted) && {
                    let space = old(self)@.space(namespace@);
                    let (answer, rest) = answered_if(space.scenarios, request@, accepted);
                    &&& r == answer
                    &&& final(self)@ == old(self)@.with_space(
                        namespace@,
                        SpaceView { scenarios: rest, ..space },
                    )
                },
    {
        let i = self.namespace_state(namespace);
        let mut state = self.hold(i);
        let ghost space = old(self)@.space(namespace@);
        let r = answer_from(&mut state.scenarios, request, accept);
        let ghost accepted = choose|accepted: bool| #[trigger]
            judged(accept, space.scenarios, request@, accepted) && (r, state.scenarios@)
                == answered_if(space.scenarios, request@, accepted);
        self.put(i, state);
        assert(self@.spaces =~= old(self)@.spaces.insert(namespace@, state@));
        proof {
            lemma_space_sound(old(self)@, namespace@);
            if old(self)@.sound() && accepted {
                answering_keeps_queue_sound(space.scenarios, request@, false);
            }
        }
        r
    }

    /// Records a request and returns the record.
    pub fn log_request(
        &mut self,
        namespace: &NamespaceKey,
        request: RequestContext,
        scenario_id: Option<String>,
    ) -> (r: RequestLog)
        requires
            old(self).wf(),
        ensures
            final(self).wf(),
            old(self)@.sound() ==> final(self)@.sound(),
            r@ == log_of(request@, text::opt_text(scenario_id)),
            final(self)@ == old(self)@.logged(
                namespace@,
                log_of(request@, text::opt_text(scenario_id)),
            ),
    {
        let log = RequestLog {
            scenario_id,
            endpoint: request.endpoint,
            model: request.model,
            stream: request.stream,
            input_text: request.input_text,
            instructions_text: request.instructions_text,
            metadata: request.metadata,
        };
        let kept = log.copy();
        let i = self.namespace_state(namespace);
        let mut state = self.hold(i);
        let ghost space = old(self)@.space(namespace@);
        let ghost before = state.request_logs@;
        state.request_logs.push(log);
        assert(logs::logs_view(state.request_logs@) =~= logs::logs_view(before).push(log@));
        self.put(i, state);
        assert(self@.spaces =~= old(self)@.spaces.insert(namespace@, state@));
        proof {
            lemma_space_sound(old(self)@, namespace@);
        }
        kept
    }

    /// The requests that a namespace has seen.
    pub fn request_logs(&self, namespace: &NamespaceKey) -> (r: Vec<RequestLog>)
        requires
            self.wf(),
        ensures
            logs::logs_view(r@) == self@.space(namespace@).logs,
    {
        match self.find(namespace) {
            Some(i) => {
                proof {
                    lemma_space_at(self.namespaces@, i as int);
                }
                logs::copy_logs(&self.namespaces[i].state.request_logs)
            },
            None => {
                let none: Vec<RequestLog> = Vec::new();
                assert(logs::logs_view(none@) =~= Seq::empty());
                none
            },
        }
    }

    /// Restores a namespace to the template: its queue, its counter and its log.
    pub fn reset(&mut self, namespace: &NamespaceKey)
        requires
            old(self).wf(),
        ensures
            final(self).wf(),
            old(self)@.sound() ==> final(self)@.sound(),
            final(self)@ == old(self)@.restarted(namespace@),
    {
        let seeded = self.template_for(namespace);
        let i = self.namespace_state(namespace);
        let state = NamespaceState::with_scenarios(seeded);
        self.put(i, state);
        assert(self@.spaces =~= old(self)@.spaces.insert(namespace@, state@));
        proof {
            if old(self)@.sound() {
                seeding_keeps_queue_sound(old(self)@.template, namespace@);
            }
        }
    }
}

proof fn lemma_first_match(queue: Seq<Scenario>, request: ContextView, n: int)
    requires
        0 <= n <= queue.len(),
        forall|i: int| 0 <= i < n ==> !(#[trigger] queue[i]).matcher.accepts(request),
    ensures
        n < queue.len() && queue[n].matcher.accepts(request) ==> first_match(queue, request)
            == Some(n),
        n == queue.len() ==> first_match(queue, request) is None,
    decreases queue.len(),
{
    if queue.len() > 0 && n > 0 {
        let rest = queue.skip(1);
        assert(!queue[0].matcher.accepts(request));
        assert forall|i: int| 0 <= i < n - 1 implies !(#[trigger] rest[i]).matcher.accepts(
            request,
        ) by {
            assert(!queue[i + 1].matcher.accepts(request));
        }
        lemma_first_match(rest, request, n - 1);
    }
}

/// Whether a scenario is a recorded exchange.
pub fn is_recorded_exchange(s: &Scenario) -> (r: bool)
    ensures
        r == is_recorded(*s),
{
    s.matcher.request_hash.is_some() && match &*s.script {
        ScenarioScript::Transcript { .. } => true,
        _ => false,
    }
}

/// Answers a request from a queue.
fn answer_from<F: FnOnce(&Scenario) -> bool>(
    queue: &mut Vec<Scenario>,
    request: &RequestContext,
    accept: F,
) -> (r: Option<Scenario>)
    requires
        forall|s: &Scenario| call_requires(accept, (s,)),
    ensures
        exists|accepted: bool| #[trigger]
            judged(accept, old(queue)@, request@, accepted) && (r, final(queue)@) == answered_if(
                old(queue)@,
                request@,
                accepted,
            ),
{
    let mut p: usize = 0;
    while p < queue.len() && !queue[p].matches(request)
        invariant
            queue@ == old(queue)@,
            p <= queue.len(),
            forall|i: int| 0 <= i < p ==> !(#[trigger] queue@[i]).matcher.accepts(request@),
        decreases queue.len() - p,
    {
        p = p + 1;
    }
    proof {
        lemma_first_match(queue@, request@, p as int);
    }
    if p == queue.len() {
        assert(judged(accept, old(queue)@, request@, false));
        return None;
    }
    let accepted = accept(&queue[p]);
    assert(judged(accept, old(queue)@, request@, accepted));
    if !accepted {
        return None;
    }
    if queue[p].sticky {
        return Some(queue[p].copy());
    }
    if queue[p].repeat > 1 {
        let mut less = queue[p].copy();
        less.repeat = less.repeat - 1;
        let r = less.copy();
        queue.set(p, less);
        return Some(r);
    }
    Some(queue.remove(p))
}

/// Whether a scenario is free of faults of its own.
pub open spec fn faultless(s: Scenario) -> bool {
    scenario::scenario_error(Seq::empty(), s) is None
}

/// Whether no two scenarios have the same id.
pub open spec fn ids_differ(queue: Seq<Scenario>) -> bool {
    forall|i: int, j: int|
        0 <= i < j < queue.len() && (#[trigger] queue[j]).scenario_id is Some ==> text::opt_text(
            (#[trigger] queue[i]).scenario_id,
        ) != text::opt_text(queue[j].scenario_id)
}

/// A queue passes its checks exactly where every scenario is free of faults of
/// its own and no two have the same id.
pub proof fn sound_queues(queue: Seq<Scenario>)
    ensures
        scenario::queue_error(queue) is None <==> (forall|i: int|
            0 <= i < queue.len() ==> faultless(#[trigger] queue[i])) && ids_differ(queue),
    decreases queue.len(),
{
    if queue.len() > 0 {
        let front = queue.drop_last();
        let last = queue.last();
        sound_queues(front);
        let fine = (forall|i: int| 0 <= i < queue.len() ==> faultless(#[trigger] queue[i]))
            && ids_differ(queue);
        assert(!scenario::id_taken(
            Seq::empty(),
            match last.scenario_id {
                Some(id) => id@,
                None => Seq::empty(),
            },
        ));
        if scenario::queue_error(queue) is None {
            assert forall|i: int| 0 <= i < queue.len() implies faultless(#[trigger] queue[i]) by {
                if i < front.len() {
                    assert(faultless(front[i]));
                }
            }
            assert forall|i: int, j: int|
                0 <= i < j < queue.len() && (
                #[trigger] queue[j]).scenario_id is Some implies text::opt_text(
                (#[trigger] queue[i]).scenario_id,
            ) != text::opt_text(queue[j].scenario_id) by {
                if j < front.len() {
                    assert(front[i] == queue[i] && front[j] == queue[j]);
                } else {
                    let id = last.scenario_id->0;
                    assert(!scenario::id_taken(front, id@));
                    assert(front[i] == queue[i]);
                }
            }
            assert(fine);
        }
        if fine {
            assert forall|i: int| 0 <= i < front.len() implies faultless(#[trigger] front[i]) by {
                assert(faultless(queue[i]));
            }
            assert forall|i: int, j: int|
                0 <= i < j < front.len() && (
                #[trigger] front[j]).scenario_id is Some implies text::opt_text(
                (#[trigger] front[i]).scenario_id,
            ) != text::opt_text(front[j].scenario_id) by {
                assert(queue[i] == front[i] && queue[j] == front[j]);
            }
            assert(faultless(queue[queue.len() - 1]));
            match last.scenario_id {
                Some(id) => {
                    assert forall|i: int| 0 <= i < front.len() implies text::opt_text(
                        (#[trigger] front[i]).scenario_id,
                    ) != Some(id@) by {
                        assert(queue[i] == front[i]);
                        assert(queue[queue.len() - 1].scenario_id is Some);
                    }
                },
                None => {},
            }
        }
    }
}

/// Seeding a namespace from a sound template gives it a sound queue.
pub proof fn seeding_keeps_queue_sound(template: Seq<Scenario>, key: Option<Seq<char>>)
    requires
        scenario::queue_error(template) is None,
    ensures
        scenario::queue_error(seeds(template, key)) is None,
        forall|i: int|
            0 <= i < seeds(template, key).len() ==> template.contains(
                #[trigger] seeds(template, key)[i],
            ),
    decreases template.len(),
{
    if template.len() > 0 {
        let front = template.drop_last();
        seeding_keeps_queue_sound(front, key);
        sound_queues(template);
        let rest = seeds(front, key);
        let all = seeds(template, key);
        sound_queues(rest);
        assert forall|i: int| 0 <= i < all.len() implies template.contains(#[trigger] all[i]) by {
            if i < rest.len() {
                assert(front.contains(rest[i]));
                let j = front.index_of(rest[i]);
                assert(template[j] == rest[i]);
            } else {
                assert(template[template.len() - 1] == all[i]);
            }
        }
        if all.len() > rest.len() {
            assert forall|i: int| 0 <= i < all.len() implies faultless(#[trigger] all[i]) by {
                let j = template.index_of(all[i]);
                assert(template.contains(all[i]));
                assert(faultless(template[j]));
            }
            assert forall|i: int, j: int|
                0 <= i < j < all.len() && (
                #[trigger] all[j]).scenario_id is Some implies text::opt_text(
                (#[trigger] all[i]).scenario_id,
            ) != text::opt_text(all[j].scenario_id) by {
                if j < rest.len() {
                    assert(rest[i] == all[i] && rest[j] == all[j]);
                } else {
                    assert(front.contains(rest[i]));
                    let k = front.index_of(rest[i]);
                    assert(template[k] == all[i]);
                    assert(template[template.len() - 1] == all[j]);
                }
            }
            sound_queues(all);
        }
    }
}

/// Answering from a sound queue leaves a sound queue.
pub proof fn answering_keeps_queue_sound(
    queue: Seq<Scenario>,
    request: ContextView,
    recorded_only: bool,
)
    requires
        scenario::queue_error(queue) is None,
    ensures
        scenario::queue_error(answered(queue, request, recorded_only).1) is None,
{
    sound_queues(queue);
    let after = answered(queue, request, recorded_only).1;
    lemma_first_match_range(queue, request);
    match first_match(queue, request) {
        None => {},
        Some(p) => {
            let s = queue[p];
            assert(faultless(s));
            if after.len() == queue.len() {
                assert forall|i: int| 0 <= i < after.len() implies faultless(#[trigger] after[i]) by {
                    assert(faultless(queue[i]));
                }
                assert forall|i: int, j: int|
                    0 <= i < j < after.len() && (
                    #[trigger] after[j]).scenario_id is Some implies text::opt_text(
                    (#[trigger] after[i]).scenario_id,
                ) != text::opt_text(after[j].scenario_id) by {
                    assert(queue[i].scenario_id == after[i].scenario_id);
                    assert(queue[j].scenario_id == after[j].scenario_id);
                }
            } else {
                assert forall|i: int| 0 <= i < after.len() implies faultless(#[trigger] after[i]) by {
                    let o = if i < p {
                        i
                    } else {
                        i + 1
                    };
                    assert(queue[o] == after[i]);
                    assert(faultless(queue[o]));
                }
                assert forall|i: int, j: int|
                    0 <= i < j < after.len() && (
                    #[trigger] after[j]).scenario_id is Some implies text::opt_text(
                    (#[trigger] after[i]).scenario_id,
                ) != text::opt_text(after[j].scenario_id) by {
                    let a = if i < p {
                        i
                    } else {
                        i + 1
                    };
                    let b = if j < p {
                        j
                    } else {
                        j + 1
                    };
                    assert(queue[a] == after[i] && queue[b] == after[j]);
                }
            }
            sound_queues(after);
        },
    }
}

pub(crate) proof fn lemma_first_match_range(queue: Seq<Scenario>, request: ContextView)
    ensures
        first_match(queue, request) matches Some(p) ==> 0 <= p < queue.len()
            && queue[p].matcher.accepts(request) && forall|i: int|
            0 <= i < p ==> !(#[trigger] queue[i]).matcher.accepts(request),
        first_match(queue, request) is None ==> forall|i: int|
            0 <= i < queue.len() ==> !(#[trigger] queue[i]).matcher.accepts(request),
    decreases queue.len(),
{
    if queue.len() > 0 && !queue[0].matcher.accepts(request) {
        let rest = queue.skip(1);
        lemma_first_match_range(rest, request);
        assert forall|i: int|
            first_match(queue, request) is None && 0 <= i < queue.len() implies !(
        #[trigger] queue[i]).matcher.accepts(request) by {
            if i > 0 {
                assert(!rest[i - 1].matcher.accepts(request));
            }
        }
        match first_match(queue, request) {
            Some(p) => {
                assert forall|i: int| 0 <= i < p implies !(#[trigger] queue[i]).matcher.accepts(
                    request,
                ) by {
                    if i > 0 {
                        assert(!rest[i - 1].matcher.accepts(request));
                    }
                }
            },
            None => {},
        }
    }
}

/// Where only a recorded exchange will do, an answer is one.
pub(crate) proof fn lemma_answer_kind(queue: Seq<Scenario>, request: ContextView)
    ensures
        answered(queue, request, true).0 matches Some(s) ==> is_recorded(s),
{
}

proof fn lemma_space_sound(state: StateView, key: Option<Seq<char>>)
    ensures
        state.sound() ==> scenario::queue_error(state.space(key).scenarios) is None,
{
    if state.sound() && !state.spaces.contains_key(key) {
        seeding_keeps_queue_sound(state.template, key);
    }
}

/// What happens in one namespace leaves every other as it was.
pub proof fn namespaces_are_isolated(
    state: StateView,
    key: Option<Seq<char>>,
    space: SpaceView,
    other: Option<Seq<char>>,
)
    requires
        key != other,
    ensures
        state.with_space(key, space).space(other) == state.space(other),
        state.with_space(key, space).space(key) == space,
{
}

/// The queue after `n` answers to the same request.
pub open spec fn after_answers(queue: Seq<Scenario>, request: ContextView, n: nat) -> Seq<
    Scenario,
>
    decreases n,
{
    if n == 0 {
        queue
    } else {
        answered(after_answers(queue, request, (n - 1) as nat), request, false).1
    }
}

/// A scenario that repeats answers exactly as often as it says, each time with
/// its own script, and then leaves the queue; the others keep their places.
pub proof fn repeat_answers_that_often(queue: Seq<Scenario>, request: ContextView, p: int)
    requires
        first_match(queue, request) == Some(p),
        !queue[p].sticky,
        queue[p].repeat >= 1,
    ensures
        forall|n: nat|
            n < queue[p].repeat ==> (answered(
                #[trigger] after_answers(queue, request, n),
                request,
                false,
            ).0 matches Some(s) && s.script == queue[p].script && s.scenario_id
                == queue[p].scenario_id),
        after_answers(queue, request, queue[p].repeat as nat) == queue.remove(p),
{
    lemma_first_match_range(queue, request);
    assert forall|n: nat| n < queue[p].repeat implies (answered(
        #[trigger] after_answers(queue, request, n),
        request,
        false,
    ).0 matches Some(s) && s.script == queue[p].script && s.scenario_id == queue[p].scenario_id) by {
        lemma_counted_down(queue, request, p, n);
    }
    let last = (queue[p].repeat - 1) as nat;
    lemma_counted_down(queue, request, p, last);
    assert(after_answers(queue, request, last).remove(p) =~= queue.remove(p));
}

proof fn lemma_counted_down(queue: Seq<Scenario>, request: ContextView, p: int, n: nat)
    requires
        first_match(queue, request) == Some(p),
        0 <= p < queue.len(),
        !queue[p].sticky,
        n < queue[p].repeat,
    ensures
        after_answers(queue, request, n) == queue.update(
            p,
            Scenario { repeat: (queue[p].repeat - n) as u32, ..queue[p] },
        ),
        first_match(after_answers(queue, request, n), request) == Some(p),
    decreases n,
{
    lemma_first_match_range(queue, request);
    let now = queue.update(p, Scenario { repeat: (queue[p].repeat - n) as u32, ..queue[p] });
    assert forall|i: int| 0 <= i < p implies !(#[trigger] now[i]).matcher.accepts(request) by {
        assert(!queue[i].matcher.accepts(request));
    }
    lemma_first_match(now, request, p);
    if n == 0 {
        assert(now =~= queue);
    } else {
        lemma_counted_down(queue, request, p, (n - 1) as nat);
        let before = after_answers(queue, request, (n - 1) as nat);
        assert(answered(before, request, false).1 =~= now);
    }
}

/// A sticky scenario answers every match with itself and stays.
pub proof fn sticky_stays(queue: Seq<Scenario>, request: ContextView, p: int)
    requires
        first_match(queue, request) == Some(p),
        queue[p].sticky,
    ensures
        answered(queue, request, false) == (Some(queue[p]), queue),
{
}

/// Answering one request leaves the answer to another as it was, where the
/// scenario that answered does not match the other.
pub proof fn other_answers_stay(
    queue: Seq<Scenario>,
    request: ContextView,
    other: ContextView,
    recorded_only: bool,
    p: int,
)
    requires
        first_match(queue, request) == Some(p),
        !queue[p].matcher.accepts(other),
    ensures
        answered(answered(queue, request, recorded_only).1, other, recorded_only).0 == answered(
            queue,
            other,
            recorded_only,
        ).0,
{
    lemma_first_match_range(queue, request);
    lemma_first_match_range(queue, other);
    let after = answered(queue, request, recorded_only).1;
    let gone = after.len() < queue.len();
    match first_match(queue, other) {
        None => {
            assert forall|i: int| 0 <= i < after.len() implies !(
            #[trigger] after[i]).matcher.accepts(other) by {
                let o = if gone && i >= p {
                    i + 1
                } else {
                    i
                };
                assert(after[i].matcher == queue[o].matcher);
            }
            lemma_first_match(after, other, after.len() as int);
        },
        Some(q) => {
            let now = if gone && q > p {
                q - 1
            } else {
                q
            };
            assert(after[now] == queue[q]);
            assert forall|i: int| 0 <= i < now implies !(#[trigger] after[i]).matcher.accepts(
                other,
            ) by {
                let o = if gone && i >= p {
                    i + 1
                } else {
                    i
                };
                assert(after[i].matcher == queue[o].matcher);
            }
            lemma_first_match(after, other, now);
        },
    }
}

/// Recorded exchanges answer in any order: taking the one for a request leaves
/// the one for a request with another hash.
pub proof fn recorded_exchanges_answer_in_any_order(
    queue: Seq<Scenario>,
    request: ContextView,
    other: ContextView,
)
    requires
        answered(queue, request, true).0 is Some,
        request.request_hash != other.request_hash,
    ensures
        answered(answered(queue, request, true).1, other, true).0 == answered(
            queue,
            other,
            true,
        ).0,
{
    lemma_first_match_range(queue, request);
    other_answers_stay(queue, request, other, true, first_match(queue, request)->0);
}

/// What a queue answers to requests that come one after another.
pub open spec fn answers_to(queue: Seq<Scenario>, requests: Seq<ContextView>) -> Seq<
    Option<Scenario>,
>
    decreases requests.len(),
{
    if requests.len() == 0 {
        Seq::empty()
    } else {
        let (answer, rest) = answered(queue, requests[0], false);
        seq![answer] + answers_to(rest, requests.skip(1))
    }
}

/// Scenarios that answer once replay in the order of the queue: requests that
/// come in that order are answered by one scenario each.
pub proof fn queues_replay_in_order(queue: Seq<Scenario>, requests: Seq<ContextView>)
    requires
        requests.len() <= queue.len(),
        forall|i: int|
            0 <= i < requests.len() ==> !(#[trigger] queue[i]).sticky && queue[i].repeat <= 1
                && queue[i].matcher.accepts(requests[i]),
    ensures
        answers_to(queue, requests) == Seq::new(requests.len(), |i: int| Some(queue[i])),
    decreases requests.len(),
{
    if requests.len() > 0 {
        let rest = queue.skip(1);
        let later = requests.skip(1);
        assert(queue[0].matcher.accepts(requests[0]));
        assert(answered(queue, requests[0], false).1 =~= rest);
        assert forall|i: int| 0 <= i < later.len() implies !(#[trigger] rest[i]).sticky
            && rest[i].repeat <= 1 && rest[i].matcher.accepts(later[i]) by {
            assert(!queue[i + 1].sticky);
        }
        queues_replay_in_order(rest, later);
    }
    assert(answers_to(queue, requests) =~= Seq::new(
        requests.len(),
        |i: int| Some(queue[i]),
    ));
}

/// A reset restores the start: the namespace is as on its first use.
pub proof fn reset_restores_the_start(state: StateView, key: Option<Seq<char>>)
    ensures
        state.restarted(key).space(key) == (StateView {
            config: state.config,
            template: state.template,
            spaces: Map::empty(),
        }).space(key),
{
}

/// One namespace as the debug view shows it.
pub struct NamespaceSnapshot {
    pub key: String,
    pub scenarios: Vec<ScenarioSnapshot>,
    pub request_logs: Vec<RequestLog>,
}

/// Every namespace in use.
pub struct DebugSnapshot {
    pub namespaces: Vec<NamespaceSnapshot>,
}

/// One scenario as the debug view shows it.
pub struct ScenarioSnapshot {
    pub scenario_id: Option<String>,
    pub endpoint: String,
    pub model: Option<String>,
    pub stream: Option<bool>,
    pub input_contains: Option<String>,
    pub instructions_contains: Option<String>,
    pub metadata: Members,
    pub script_kind: String,
    /// Answers left before the scenario is spent, or `None` when sticky.
    pub remaining: Option<u32>,
}

/// Whether a snapshot shows a scenario.
pub open spec fn shows_scenario(shown: ScenarioSnapshot, s: Scenario) -> bool {
    &&& shown.scenario_id == s.scenario_id
    &&& shown.endpoint == s.matcher.endpoint
    &&& shown.model == s.matcher.model
    &&& shown.stream == s.matcher.stream
    &&& shown.input_contains == s.matcher.input_contains
    &&& shown.instructions_contains == s.matcher.instructions_contains
    &&& shown.metadata@ == s.matcher.metadata@
    &&& shown.script_kind@ == s.script.kind()
    &&& shown.remaining == (if s.sticky {
        None
    } else {
        Some(s.repeat)
    })
}

/// How a namespace is shown.
pub open spec fn shown_key(key: Option<Seq<char>>) -> Seq<char> {
    match key {
        None => "Global"@,
        Some(token) => "ApiKey: "@ + token,
    }
}

/// Whether a snapshot shows a namespace.
pub open spec fn shows_space(
    shown: NamespaceSnapshot,
    key: Option<Seq<char>>,
    space: SpaceView,
) -> bool {
    &&& shown.key@ == shown_key(key)
    &&& shown.scenarios@.len() == space.scenarios.len()
    &&& forall|i: int|
        0 <= i < space.scenarios.len() ==> shows_scenario(
            #[trigger] shown.scenarios@[i],
            space.scenarios[i],
        )
    &&& logs::logs_view(shown.request_logs@) == space.logs
}

/// Whether a snapshot shows every namespace in use once, in some order.
pub open spec fn shows_state(shown: DebugSnapshot, state: StateView) -> bool {
    exists|keys: Seq<Option<Seq<char>>>|
        {
            &&& #[trigger] keys.no_duplicates()
            &&& keys.len() == shown.namespaces@.len()
            &&& forall|k: Option<Seq<char>>|
                #![auto]
                keys.contains(k) <==> state.spaces.contains_key(k)
            &&& forall|i: int|
                0 <= i < keys.len() ==> shows_space(
                    #[trigger] shown.namespaces@[i],
                    keys[i],
                    state.spaces[keys[i]],
                )
        }
}

/// How a scenario is shown.
fn show_scenario(s: &Scenario) -> (r: ScenarioSnapshot)
    ensures
        shows_scenario(r, *s),
{
    ScenarioSnapshot {
        scenario_id: text::copy_opt(&s.scenario_id),
        endpoint: s.matcher.endpoint.clone(),
        model: text::copy_opt(&s.matcher.model),
        stream: s.matcher.stream,
        input_contains: text::copy_opt(&s.matcher.input_contains),
        instructions_contains: text::copy_opt(&s.matcher.instructions_contains),
        metadata: s.matcher.metadata.copy(),
        script_kind: s.script.script_kind().to_owned(),
        remaining: if s.sticky {
            None
        } else {
            Some(s.repeat)
        },
    }
}

/// How a namespace is shown.
fn show_space(namespace: &Namespace) -> (r: NamespaceSnapshot)
    ensures
        shows_space(r, namespace.key@, namespace.state@),
{
    let mut scenarios: Vec<ScenarioSnapshot> = Vec::new();
    let queue = &namespace.state.scenarios;
    for i in 0..queue.len()
        invariant
            scenarios.len() == i,
            forall|j: int| 0 <= j < i ==> shows_scenario(#[trigger] scenarios@[j], queue@[j]),
    {
        scenarios.push(show_scenario(&queue[i]));
    }
    NamespaceSnapshot {
        key: namespace.key.label(),
        scenarios,
        request_logs: logs::copy_logs(&namespace.state.request_logs),
    }
}

impl AppState {
    /// Every namespace in use.
    pub fn debug_snapshot(&self) -> (r: DebugSnapshot)
        requires
            self.wf(),
        ensures
            shows_state(r, self@),
    {
        let mut shown: Vec<NamespaceSnapshot> = Vec::new();
        let ghost keys = Seq::new(
            self.namespaces@.len(),
            |i: int| self.namespaces@[i].key@,
        );
        for i in 0..self.namespaces.len()
            invariant
                shown.len() == i,
                forall|j: int|
                    0 <= j < i ==> shows_space(
                        #[trigger] shown@[j],
                        self.namespaces@[j].key@,
                        self.namespaces@[j].state@,
                    ),
        {
            shown.push(show_space(&self.namespaces[i]));
        }
        proof {
            assert(keys.no_duplicates()) by {
                assert forall|i: int, j: int|
                    0 <= i < keys.len() && 0 <= j < keys.len() && i != j implies keys[i]
                    != keys[j] by {
                    if i < j {
                        assert(self.namespaces@[i].key@ != self.namespaces@[j].key@);
                    } else {
                        assert(self.namespaces@[j].key@ != self.namespaces@[i].key@);
                    }
                }
            }
            assert forall|k: Option<Seq<char>>|
                #![auto]
                keys.contains(k) <==> self@.spaces.contains_key(k) by {
                if keys.contains(k) {
                    let i = keys.index_of(k);
                    lemma_space_at(self.namespaces@, i);
                }
                if self@.spaces.contains_key(k) {
                    let i = lemma_space_source(self.namespaces@, k);
                    assert(keys[i] == k);
                }
            }
            assert forall|i: int| 0 <= i < keys.len() implies shows_space(
                #[trigger] shown@[i],
                keys[i],
                self@.spaces[keys[i]],
            ) by {
                lemma_space_at(self.namespaces@, i);
            }
        }
        DebugSnapshot { namespaces: shown }
    }
}

} // verus!
