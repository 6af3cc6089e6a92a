use std::sync::Arc;

use twins::anthropic::config::Config;
use twins::anthropic::engine::scenario::{
    validate_scenario_ids, RequestContext, Scenario, ScenarioMatcher, ScenarioScript,
    SuccessScript,
};
use twins::anthropic::state::{is_recorded_exchange, AppState, NamespaceKey};
use twins::codec::parse_text;
use twins::headers::Headers;
use twins::json::{Json, Members};

fn key(name: &str) -> NamespaceKey {
    NamespaceKey::ApiKey(name.to_owned())
}

fn matcher() -> ScenarioMatcher {
    ScenarioMatcher {
        endpoint: "messages".to_owned(),
        model: None,
        stream: None,
        metadata: Members::new(),
        input_contains: None,
        instructions_contains: None,
        request_hash: None,
    }
}

fn scenario(id: &str) -> Scenario {
    Scenario {
        scenario_id: Some(id.to_owned()),
        namespace: None,
        matcher: Arc::new(matcher()),
        script: Arc::new(ScenarioScript::Success(Box::new(SuccessScript::default()))),
        repeat: 1,
        sticky: false,
    }
}

fn context(text: &str) -> RequestContext {
    RequestContext {
        endpoint: "messages".to_owned(),
        model: "model-test".to_owned(),
        stream: false,
        metadata: Members::new(),
        input_text: text.to_owned(),
        instructions_text: "be terse".to_owned(),
        request_hash: None,
    }
}

fn state(template: Vec<Scenario>) -> AppState {
    match AppState::new(Config::default(), template) {
        Ok(state) => state,
        Err(error) => panic!("{error}"),
    }
}

fn next_id(state: &mut AppState, namespace: &NamespaceKey) -> Option<String> {
    state
        .take_matching_scenario(namespace, &context("hello"))
        .map(|scenario| scenario.scenario_id.expect("an id"))
}

#[test]
fn scenarios_answer_once_repeatedly_or_forever() {
    let mut app = state(Vec::new());
    let mut twice = scenario("repeat");
    twice.repeat = 2;
    let mut sticky = scenario("sticky");
    sticky.sticky = true;
    app.enqueue_scenarios(&key("a"), vec![scenario("once"), twice, sticky])
        .expect("accepted");
    for expected in ["once", "repeat", "repeat", "sticky", "sticky"] {
        assert_eq!(next_id(&mut app, &key("a")).as_deref(), Some(expected));
    }
    assert_eq!(next_id(&mut app, &key("b")), None);
    app.reset(&key("a"));
    assert_eq!(next_id(&mut app, &key("a")), None);
}

#[test]
fn templates_seed_their_namespaces_and_are_restored() {
    let mut scoped = scenario("a-first");
    scoped.namespace = Some("a".to_owned());
    let mut app = state(vec![scoped, scenario("everyone")]);
    assert_eq!(next_id(&mut app, &key("b")).as_deref(), Some("everyone"));
    assert_eq!(next_id(&mut app, &key("b")), None);
    assert_eq!(next_id(&mut app, &key("a")).as_deref(), Some("a-first"));
    assert_eq!(next_id(&mut app, &key("a")).as_deref(), Some("everyone"));
    assert_eq!(app.next_response_id(&key("a")), 1);
    assert_eq!(app.next_response_id(&key("a")), 2);
    app.log_request(&key("a"), context("hello"), None);
    app.reset(&key("a"));
    assert_eq!(app.request_logs(&key("a")).len(), 0);
    assert_eq!(app.next_response_id(&key("a")), 1);
    assert_eq!(next_id(&mut app, &key("a")).as_deref(), Some("a-first"));
    assert_eq!(
        next_id(&mut app, &NamespaceKey::Global).as_deref(),
        Some("everyone")
    );
}

fn recorded(id: &str, hash: &str) -> Scenario {
    let mut recorded = scenario(id);
    recorded.matcher = Arc::new(ScenarioMatcher {
        request_hash: Some(hash.to_owned()),
        ..matcher()
    });
    recorded.script = Arc::new(ScenarioScript::Transcript {
        status: 200,
        content_type: None,
        body: None,
        body_text: Some("{}".to_owned()),
        events: None,
        headers: Headers::new(),
    });
    recorded
}

#[test]
fn recorded_exchanges_are_found_in_any_order() {
    let queue = || vec![recorded("first", "1"), recorded("second", "2")];
    for order in [["1", "2"], ["2", "1"]] {
        let mut app = state(Vec::new());
        app.enqueue_scenarios(&key("a"), queue()).expect("accepted");
        for hash in order {
            let mut request = context("hello");
            request.request_hash = Some(hash.to_owned());
            let found = app
                .take_matching_scenario_if(&key("a"), &request, is_recorded_exchange)
                .expect("an exchange");
            let expected = if hash == "1" { "first" } else { "second" };
            assert_eq!(found.scenario_id.as_deref(), Some(expected));
        }
        assert_eq!(next_id(&mut app, &key("a")), None);
    }
}

#[test]
fn a_scenario_that_will_not_do_stays_in_front() {
    let mut app = state(Vec::new());
    app.enqueue_scenarios(&key("a"), vec![scenario("front"), recorded("behind", "1")])
        .expect("accepted");
    let mut request = context("hello");
    request.request_hash = Some("1".to_owned());
    assert!(app
        .take_matching_scenario_if(&key("a"), &request, is_recorded_exchange)
        .is_none());
    for expected in ["front", "behind"] {
        let found = app
            .take_matching_scenario(&key("a"), &request)
            .expect("a scenario");
        assert_eq!(found.scenario_id.as_deref(), Some(expected));
    }
}

#[test]
fn queues_answer_in_their_order() {
    let mut app = state(Vec::new());
    let ids = ["one", "two", "three"];
    app.enqueue_scenarios(&key("a"), ids.iter().map(|id| scenario(id)).collect())
        .expect("accepted");
    for id in ids {
        assert_eq!(next_id(&mut app, &key("a")).as_deref(), Some(id));
    }
}

#[test]
fn faulty_scenarios_leave_the_queue_as_it_was() {
    let mut app = state(Vec::new());
    app.enqueue_scenarios(&key("a"), vec![scenario("kept")])
        .expect("accepted");
    let mut unnamed = scenario(" ");
    unnamed.repeat = 1;
    let mut never = scenario("never");
    never.repeat = 0;
    let mut typo = scenario("typo");
    typo.matcher = Arc::new(ScenarioMatcher {
        endpoint: "typo".to_owned(),
        ..matcher()
    });
    let mut header = scenario("header");
    header.script = Arc::new(ScenarioScript::Error {
        status: 429,
        message: "retry".to_owned(),
        error_type: "rate_limit_error".to_owned(),
        code: None,
        retry_after: Some("bad\nheader".to_owned()),
        headers: Headers::new(),
        delay_before_headers_ms: 0,
    });
    let mut both = scenario("both");
    both.script = Arc::new(ScenarioScript::Transcript {
        status: 200,
        content_type: None,
        body: Some(Json::Null),
        body_text: None,
        events: Some(Vec::new()),
        headers: Headers::new(),
    });
    for bad in [unnamed, never, typo, header, both] {
        assert!(validate_scenario_ids(&[bad.copy()]).is_err());
        assert!(app
            .enqueue_scenarios(&key("a"), vec![scenario("lost"), bad])
            .is_err());
    }
    assert!(app
        .enqueue_scenarios(&key("a"), vec![scenario("twin"), scenario("twin")])
        .is_err());
    assert!(app
        .enqueue_scenarios(&key("a"), vec![scenario("kept")])
        .is_err());
    assert!(app
        .enqueue_scenarios(&key("b"), vec![scenario("kept")])
        .is_ok());
    assert_eq!(next_id(&mut app, &key("a")).as_deref(), Some("kept"));
    assert_eq!(next_id(&mut app, &key("a")), None);
}

#[test]
fn matchers_see_every_part_of_the_request() {
    let metadata = |text: &str| match parse_text(text).expect("JSON") {
        Json::Object(members) => members,
        _ => panic!("an object"),
    };
    let mut wanted = scenario("matched");
    wanted.matcher = Arc::new(ScenarioMatcher {
        model: Some("model-test".to_owned()),
        stream: Some(false),
        metadata: metadata(r#"{"user_id":"suite"}"#),
        input_contains: Some("tool result".to_owned()),
        instructions_contains: Some("terse".to_owned()),
        ..matcher()
    });
    let mut request = context("a tool result here");
    assert!(!wanted.matches(&request));
    request.metadata = metadata(r#"{"user_id":"suite","extra":1}"#);
    assert!(wanted.matches(&request));
    request.stream = true;
    assert!(!wanted.matches(&request));
    request.stream = false;
    request.input_text = "nothing".to_owned();
    assert!(!wanted.matches(&request));
}

#[test]
fn snapshots_show_queues_and_logs() {
    let mut app = state(Vec::new());
    app.enqueue_scenarios(&key("a"), vec![scenario("first")])
        .expect("accepted");
    app.log_request(&key("a"), context("hello"), Some("first".to_owned()));
    let snapshot = app.debug_snapshot();
    assert_eq!(snapshot.namespaces.len(), 1);
    let space = &snapshot.namespaces[0];
    assert_eq!(space.key, "ApiKey: a");
    assert_eq!(space.scenarios[0].script_kind, "success");
    assert_eq!(space.scenarios[0].remaining, Some(1));
    assert_eq!(space.request_logs[0].endpoint, "messages");
    assert_eq!(space.request_logs[0].scenario_id.as_deref(), Some("first"));
    assert_eq!(NamespaceKey::Global.label(), "Global");
    assert!(app.can_number(&key("a")));
}
