//! Recordings: scenarios numbered within their namespaces.

use vstd::prelude::*;
use vstd::string::*;
use vstd::utf8::*;

use crate::json::{Json, JsonView, Members};
use crate::{codec, json, text};

verus! {

/// What stands before and behind the last `c`, where there is one.
pub open spec fn split_last(s: Seq<char>, c: char) -> Option<(Seq<char>, Seq<char>)>
    decreases s.len(),
{
    if s.len() == 0 {
        None
    } else if s.last() == c {
        Some((s.drop_last(), Seq::empty()))
    } else {
        match split_last(s.drop_last(), c) {
            Some((a, b)) => Some((a, b.push(s.last()))),
            None => None,
        }
    }
}

/// The namespace and the number in a scenario id, where it has them.
pub open spec fn id_parts(id: Seq<char>) -> Option<(Seq<char>, u64)> {
    match split_last(id, '/') {
        Some((label, digits)) => match text::number_in(digits) {
            Some(n) => Some((label, n)),
            None => None,
        },
        None => None,
    }
}

/// The namespace and the number in the id of a recorded scenario.
pub open spec fn scenario_parts(scenario: JsonView) -> Option<(Seq<char>, u64)> {
    match scenario.at("scenario_id"@).as_str() {
        Some(id) => id_parts(id),
        None => None,
    }
}

/// The highest number used in a namespace.
pub open spec fn highest(counters: Map<Seq<char>, u64>, label: Seq<char>) -> u64 {
    if counters.contains_key(label) {
        counters[label]
    } else {
        0
    }
}

/// The counters after one more scenario was seen.
pub open spec fn counted(counters: Map<Seq<char>, u64>, scenario: JsonView) -> Map<Seq<char>, u64> {
    match scenario_parts(scenario) {
        Some((label, n)) => counters.insert(
            label,
            if n > highest(counters, label) {
                n
            } else {
                highest(counters, label)
            },
        ),
        None => counters,
    }
}

/// The counters of a list of scenarios.
pub open spec fn counters_of(scenarios: Seq<JsonView>) -> Map<Seq<char>, u64>
    decreases scenarios.len(),
{
    if scenarios.len() == 0 {
        Map::empty()
    } else {
        counted(counters_of(scenarios.drop_last()), scenarios.last())
    }
}

/// A recording: its scenarios, and the highest number used in each namespace.
#[verifier::ext_equal]
pub struct RecordingView {
    pub scenarios: Seq<JsonView>,
    pub counters: Map<Seq<char>, u64>,
}

/// The label of a namespace in scenario ids.
pub open spec fn label_of(namespace: Option<Seq<char>>) -> Seq<char> {
    match namespace {
        Some(s) => s,
        None => "global"@,
    }
}

/// The id of the `n`th scenario of a namespace.
pub open spec fn scenario_id(label: Seq<char>, n: u64) -> Seq<char> {
    label + "/"@ + text::zero_padded(n as nat, 4)
}

/// A recorded scenario.
pub open spec fn recorded_scenario(
    id: Seq<char>,
    namespace: Option<Seq<char>>,
    matcher: JsonView,
    script: JsonView,
) -> JsonView {
    let core = map![
        "scenario_id"@ => JsonView::Str(id),
        "matcher"@ => matcher,
        "script"@ => script
    ];
    JsonView::Object(
        match namespace {
            Some(s) => core.insert("namespace"@, JsonView::Str(s)),
            None => core,
        },
    )
}

impl RecordingView {
    /// The number of the next scenario of a namespace.
    pub open spec fn next(self, namespace: Option<Seq<char>>) -> int {
        highest(self.counters, label_of(namespace)) + 1
    }

    /// The recording with one more scenario, numbered in its namespace.
    pub open spec fn recorded(
        self,
        namespace: Option<Seq<char>>,
        matcher: JsonView,
        script: JsonView,
    ) -> RecordingView {
        let n = self.next(namespace) as u64;
        RecordingView {
            scenarios: self.scenarios.push(
                recorded_scenario(
                    scenario_id(label_of(namespace), n),
                    namespace,
                    matcher,
                    script,
                ),
            ),
            counters: self.counters.insert(label_of(namespace), n),
        }
    }

    /// Whether no scenario has a number above the highest of its namespace.
    pub open spec fn numbered(self) -> bool {
        forall|i: int|
            0 <= i < self.scenarios.len() ==> (scenario_parts(
                #[trigger] self.scenarios[i],
            ) matches Some((label, n)) ==> n <= highest(self.counters, label))
    }

    /// Whether the counters are those of the scenarios.
    pub open spec fn exact(self) -> bool {
        self.counters == counters_of(self.scenarios)
    }

    /// The document of the recording file.
    pub open spec fn file_document(self) -> JsonView {
        JsonView::Object(map!["scenarios"@ => JsonView::Array(self.scenarios)])
    }

    /// The text of the recording file.
    pub open spec fn file_text(self) -> Seq<char> {
        codec::json_pretty(self.file_document()).push('\n')
    }
}

/// A recording that holds nothing.
pub open spec fn no_recording() -> RecordingView {
    RecordingView { scenarios: Seq::empty(), counters: Map::empty() }
}

/// The recording that a document holds, where it lists scenarios.
pub open spec fn recording_in(document: JsonView) -> Option<RecordingView> {
    match document.get("scenarios"@) {
        Some(JsonView::Array(scenarios)) => Some(
            RecordingView { scenarios, counters: counters_of(scenarios) },
        ),
        _ => None,
    }
}

/// A recording under way.
pub struct RecorderState {
    scenarios: Vec<Json>,
    counters: Vec<(String, u64)>,
}

spec fn counters_view(entries: Seq<(String, u64)>) -> Map<Seq<char>, u64>
    decreases entries.len(),
{
    if entries.len() == 0 {
        Map::empty()
    } else {
        counters_view(entries.drop_last()).insert(entries.last().0@, entries.last().1)
    }
}

/// The highest number used in a namespace.
fn find_highest(entries: &Vec<(String, u64)>, label: &str) -> (r: u64)
    ensures
        r == highest(counters_view(entries@), label@),
{
    let mut i: usize = entries.len();
    assert(entries@.take(i as int) =~= entries@);
    while i > 0
        invariant
            i <= entries.len(),
            highest(counters_view(entries@), label@) == highest(
                counters_view(entries@.take(i as int)),
                label@,
            ),
        decreases i,
    {
        proof {
            let now = entries@.take(i as int);
            assert(now.drop_last() =~= entries@.take(i - 1));
            assert(now.last() == entries@[i - 1]);
        }
        i = i - 1;
        if text::same(entries[i].0.as_str(), label) {
            return entries[i].1;
        }
    }
    0
}

/// What stands before and behind the last `c`.
fn rsplit_once(s: &str, c: char) -> (r: Option<(String, String)>)
    ensures
        match r {
            Some((a, b)) => split_last(s@, c) == Some((a@, b@)),
            None => split_last(s@, c) is None,
        },
{
    let chars = text::chars_of(s);
    let mut i: usize = chars.len();
    assert(chars@.take(i as int) =~= chars@);
    while i > 0
        invariant
            chars@ == s@,
            i <= chars.len(),
            forall|j: int| i <= j < chars.len() ==> chars@[j] != c,
        decreases i,
    {
        if chars[i - 1] == c {
            proof {
                lemma_split_at(s@, c, i - 1);
            }
            let a = text::text_of(&chars, 0, i - 1);
            let b = text::text_of(&chars, i, chars.len());
            assert(a@ =~= s@.take(i - 1));
            assert(b@ =~= s@.skip(i as int));
            return Some((a, b));
        }
        i = i - 1;
    }
    proof {
        lemma_no_split(s@, c);
    }
    None
}

pub(crate) proof fn lemma_split_at(s: Seq<char>, c: char, at: int)
    requires
        0 <= at < s.len(),
        s[at] == c,
        forall|j: int| at < j < s.len() ==> s[j] != c,
    ensures
        split_last(s, c) == Some((s.take(at), s.skip(at + 1))),
    decreases s.len(),
{
    if at == s.len() - 1 {
        assert(s.drop_last() =~= s.take(at));
        assert(s.skip(at + 1) =~= Seq::empty());
    } else {
        assert(s.last() != c);
        lemma_split_at(s.drop_last(), c, at);
        assert(s.drop_last().take(at) =~= s.take(at));
        assert(s.drop_last().skip(at + 1).push(s.last()) =~= s.skip(at + 1));
    }
}

pub(crate) proof fn lemma_no_split(s: Seq<char>, c: char)
    requires
        forall|j: int| 0 <= j < s.len() ==> s[j] != c,
    ensures
        split_last(s, c) is None,
    decreases s.len(),
{
    if s.len() > 0 {
        lemma_no_split(s.drop_last(), c);
    }
}

impl RecorderState {
    /// The recording denoted.
    pub closed spec fn view(&self) -> RecordingView {
        RecordingView {
            scenarios: json::items_view(self.scenarios@),
            counters: counters_view(self.counters@),
        }
    }

    /// A recording that holds nothing.
    pub fn new() -> (r: RecorderState)
        ensures
            r@ == no_recording(),
            r@.numbered(),
            r@.exact(),
    {
        let r = RecorderState { scenarios: Vec::new(), counters: Vec::new() };
        assert(r@.scenarios =~= Seq::empty());
        r
    }

    /// Takes up a recording where its document left off: the scenarios are kept,
    /// and each namespace goes on behind its highest number.
    pub fn load(document: &Json) -> (r: Option<RecorderState>)
        ensures
            match r {
                Some(state) => recording_in(document@) == Some(state@) && state@.numbered()
                    && state@.exact(),
                None => recording_in(document@) is None,
            },
    {
        let items = match document.get("scenarios") {
            Some(Json::Array(items)) => items,
            _ => {
                return None;
            },
        };
        let ghost all = json::items_view(items@);
        let mut counters: Vec<(String, u64)> = Vec::new();
        for i in 0..items.len()
            invariant
                all == json::items_view(items@),
                counters_view(counters@) == counters_of(all.take(i as int)),
        {
            assert(all.take(i + 1).drop_last() =~= all.take(i as int));
            assert(all.take(i + 1).last() == items@[i as int]@);
            let parts = match items[i].str_at("scenario_id") {
                Some(id) => match rsplit_once(id, '/') {
                    Some((label, digits)) => match text::parse_u64(digits.as_str()) {
                        Some(n) => Some((label, n)),
                        None => None,
                    },
                    None => None,
                },
                None => None,
            };
            match parts {
                Some((label, n)) => {
                    let before = find_highest(&counters, label.as_str());
                    let ghost old_counters = counters@;
                    counters.push(
                        (
                            label,
                            if n > before {
                                n
                            } else {
                                before
                            },
                        ),
                    );
                    assert(counters@.drop_last() =~= old_counters);
                },
                None => {},
            }
        }
        assert(all.take(all.len() as int) =~= all);
        proof {
            loaded_recording_is_numbered(all);
        }
        Some(RecorderState { scenarios: json::copy_items(items), counters })
    }

    /// Adds a scenario under the next number of its namespace and returns its id.
    pub fn push_scenario(&mut self, namespace: Option<&str>, matcher: Json, script: Json) -> (r:
        String)
        requires
            old(self)@.next(text::opt_str(namespace)) <= u64::MAX,
        ensures
            final(self)@ == old(self)@.recorded(text::opt_str(namespace), matcher@, script@),
            r@ == scenario_id(
                label_of(text::opt_str(namespace)),
                old(self)@.next(text::opt_str(namespace)) as u64,
            ),
            old(self)@.numbered() ==> final(self)@.numbered(),
            old(self)@.exact() ==> final(self)@.exact(),
    {
        let label = match namespace {
            Some(s) => s,
            None => "global",
        };
        let n: u64 = find_highest(&self.counters, label) + 1;
        let mut id = label.to_owned();
        id.append("/");
        id.append(text::zero_padded_text(n, 4).as_str());
        let mut scenario = Members::new();
        scenario.set("scenario_id", Json::text(id.as_str()));
        scenario.set("matcher", matcher);
        scenario.set("script", script);
        match namespace {
            Some(s) => {
                scenario.set("namespace", Json::text(s));
            },
            None => {},
        }
        let ghost scenarios = self.scenarios@;
        let ghost counters = self.counters@;
        let whole = Json::Object(scenario);
        self.scenarios.push(whole);
        self.counters.push((label.to_owned(), n));
        proof {
            assert(json::items_view(self.scenarios@) =~= json::items_view(scenarios).push(whole@));
            assert(self.counters@.drop_last() =~= counters);
            if old(self)@.numbered() {
                lemma_recorded_numbered(
                    old(self)@,
                    text::opt_str(namespace),
                    matcher@,
                    script@,
                );
            }
            if old(self)@.exact() {
                recordings_stay_exact(old(self)@, text::opt_str(namespace), matcher@, script@);
            }
        }
        id
    }

    /// Whether the numbers of a namespace go on.
    pub fn has_room(&self, namespace: Option<&str>) -> (r: bool)
        ensures
            r == (self@.next(text::opt_str(namespace)) <= u64::MAX),
    {
        let label = match namespace {
            Some(s) => s,
            None => "global",
        };
        find_highest(&self.counters, label) < u64::MAX
    }

    /// The text of the recording file. A later run that takes the file up goes on
    /// with the very same recording.
    pub fn document(&self) -> (r: String)
        ensures
            r@ == self@.file_text(),
            codec::survives(self@.file_document(), 127) ==> codec::read_ok(
                codec::json_parse(encode_utf8(r@)),
                self@.file_document(),
            ),
            self@.exact() ==> recording_in(self@.file_document()) == Some(self@),
    {
        let mut whole = Members::new();
        whole.set("scenarios", Json::Array(json::copy_items(&self.scenarios)));
        assert(whole@ =~= self@.file_document()->Object_0);
        let mut out = codec::render_pretty(&Json::Object(whole));
        out.push('\n');
        out
    }
}

/// Recording keeps the counters those of the scenarios.
pub proof fn recordings_stay_exact(
    before: RecordingView,
    namespace: Option<Seq<char>>,
    matcher: JsonView,
    script: JsonView,
)
    requires
        before.exact(),
        before.next(namespace) <= u64::MAX,
    ensures
        before.recorded(namespace, matcher, script).exact(),
{
    let label = label_of(namespace);
    let n = before.next(namespace) as u64;
    let after = before.recorded(namespace, matcher, script);
    ids_split_into_their_parts(label, n);
    lemma_recorded_id(scenario_id(label, n), namespace, matcher, script);
    assert(after.scenarios.drop_last() =~= before.scenarios);
    assert(after.counters =~= counters_of(after.scenarios));
}

/// Taking up a recording counts every number in it.
pub proof fn loaded_recording_is_numbered(scenarios: Seq<JsonView>)
    ensures
        (RecordingView { scenarios, counters: counters_of(scenarios) }).numbered(),
    decreases scenarios.len(),
{
    if scenarios.len() > 0 {
        let front = scenarios.drop_last();
        loaded_recording_is_numbered(front);
        let before = RecordingView { scenarios: front, counters: counters_of(front) };
        assert forall|i: int| 0 <= i < scenarios.len() implies (scenario_parts(
            #[trigger] scenarios[i],
        ) matches Some((label, n)) ==> n <= highest(counters_of(scenarios), label)) by {
            if i < front.len() {
                assert(front[i] == scenarios[i]);
                assert(scenario_parts(before.scenarios[i]) matches Some((label, n)) ==> n <= highest(
                    before.counters,
                    label,
                ));
            }
        }
    }
}

/// The value of digits in front of which a zero stands.
pub(crate) proof fn lemma_zeros_value(k: nat, s: Seq<char>)
    requires
        text::digits_value(s) is Some,
    ensures
        text::digits_value(Seq::new(k, |i: int| '0') + s) == text::digits_value(s),
    decreases s.len(), k,
{
    let zeros = Seq::new(k, |i: int| '0');
    if s.len() == 0 {
        assert(zeros + s =~= zeros);
        if k > 0 {
            let fewer = Seq::new((k - 1) as nat, |i: int| '0');
            assert(zeros.drop_last() =~= fewer);
            lemma_zeros_value((k - 1) as nat, s);
            assert(fewer + s =~= fewer);
        }
    } else {
        assert((zeros + s).drop_last() =~= zeros + s.drop_last());
        lemma_zeros_value(k, s.drop_last());
    }
}

pub(crate) proof fn lemma_decimal_value(n: nat)
    ensures
        text::digits_value(text::decimal(n)) == Some(n),
        text::decimal(n).len() > 0,
        forall|i: int|
            0 <= i < text::decimal(n).len() ==> '0' <= #[trigger] text::decimal(n)[i] <= '9',
    decreases n,
{
    if n < 10 {
        let s = text::decimal(n);
        assert(s.drop_last() =~= Seq::empty());
        reveal_with_fuel(text::digits_value, 2);
        assert(s.last() == text::digit(n as int));
    } else {
        lemma_decimal_value(n / 10);
        let s = text::decimal(n);
        assert(s.drop_last() =~= text::decimal(n / 10));
        assert(s.last() == text::digit((n % 10) as int));
        assert(n == (n / 10) * 10 + n % 10);
        assert forall|i: int| 0 <= i < s.len() implies '0' <= #[trigger] s[i] <= '9' by {
            if i < s.len() - 1 {
                assert(s[i] == text::decimal(n / 10)[i]);
            }
        }
    }
}

/// The parts of an id are the ones that it was made from.
pub proof fn ids_split_into_their_parts(label: Seq<char>, n: u64)
    ensures
        id_parts(scenario_id(label, n)) == Some((label, n)),
{
    let digits = text::zero_padded(n as nat, 4);
    let plain = text::decimal(n as nat);
    lemma_decimal_value(n as nat);
    let k = if plain.len() >= 4 {
        0nat
    } else {
        (4 - plain.len()) as nat
    };
    lemma_zeros_value(k, plain);
    assert(digits =~= Seq::new(k, |i: int| '0') + plain);
    assert forall|i: int| 0 <= i < digits.len() implies '0' <= #[trigger] digits[i] <= '9' by {
        if i >= k {
            assert(digits[i] == plain[i - k]);
        }
    }
    assert(text::number_in(digits) == Some(n));
    reveal_strlit("/");
    let id = scenario_id(label, n);
    let at = label.len() as int;
    assert(id[at] == '/');
    assert forall|j: int| at < j < id.len() implies id[j] != '/' by {
        assert(id[j] == digits[j - at - 1]);
    }
    lemma_split_at(id, '/', at);
    assert(id.take(at) =~= label);
    assert(id.skip(at + 1) =~= digits);
}

proof fn lemma_recorded_numbered(
    before: RecordingView,
    namespace: Option<Seq<char>>,
    matcher: JsonView,
    script: JsonView,
)
    requires
        before.numbered(),
        before.next(namespace) <= u64::MAX,
    ensures
        before.recorded(namespace, matcher, script).numbered(),
{
    let label = label_of(namespace);
    let n = before.next(namespace) as u64;
    let after = before.recorded(namespace, matcher, script);
    ids_split_into_their_parts(label, n);
    lemma_recorded_id(scenario_id(label, n), namespace, matcher, script);
    assert forall|i: int| 0 <= i < after.scenarios.len() implies (scenario_parts(
        #[trigger] after.scenarios[i],
    ) matches Some((l, m)) ==> m <= highest(after.counters, l)) by {
        if i < before.scenarios.len() {
            assert(before.scenarios[i] == after.scenarios[i]);
            assert(scenario_parts(before.scenarios[i]) matches Some((l, m)) ==> m <= highest(
                before.counters,
                l,
            ));
        }
    }
}

proof fn lemma_recorded_id(
    id: Seq<char>,
    namespace: Option<Seq<char>>,
    matcher: JsonView,
    script: JsonView,
)
    ensures
        recorded_scenario(id, namespace, matcher, script).at("scenario_id"@) == JsonView::Str(id),
{
    reveal_strlit("scenario_id");
    reveal_strlit("matcher");
    reveal_strlit("script");
    reveal_strlit("namespace");
    assert("scenario_id"@.len() == 11);
    assert("matcher"@.len() == 7);
    assert("script"@.len() == 6);
    assert("namespace"@.len() == 9);
}

/// A new scenario gets an id that no scenario of the recording has.
pub proof fn new_ids_are_new(
    recording: RecordingView,
    namespace: Option<Seq<char>>,
    matcher: JsonView,
    script: JsonView,
)
    requires
        recording.numbered(),
        recording.next(namespace) <= u64::MAX,
    ensures
        ({
            let after = recording.recorded(namespace, matcher, script);
            forall|i: int|
                0 <= i < recording.scenarios.len() ==> (#[trigger] after.scenarios[i]).at(
                    "scenario_id"@,
                ) != after.scenarios.last().at("scenario_id"@)
        }),
{
    let label = label_of(namespace);
    let n = recording.next(namespace) as u64;
    let after = recording.recorded(namespace, matcher, script);
    ids_split_into_their_parts(label, n);
    lemma_recorded_id(scenario_id(label, n), namespace, matcher, script);
    assert forall|i: int| 0 <= i < recording.scenarios.len() implies (
    #[trigger] after.scenarios[i]).at("scenario_id"@) != after.scenarios.last().at(
        "scenario_id"@,
    ) by {
        assert(recording.scenarios[i] == after.scenarios[i]);
        assert(scenario_parts(recording.scenarios[i]) matches Some((l, m)) ==> m <= highest(
            recording.counters,
            l,
        ));
    }
}

/// Recording in one namespace leaves the numbers of every other as they were.
pub proof fn numbering_is_per_namespace(
    recording: RecordingView,
    namespace: Option<Seq<char>>,
    matcher: JsonView,
    script: JsonView,
    other: Option<Seq<char>>,
)
    requires
        label_of(namespace) != label_of(other),
    ensures
        recording.recorded(namespace, matcher, script).next(other) == recording.next(other),
{
}

} // verus!
