//! HTTP headers and statuses: what is valid, what a request carries, and what a
//! response ends up with.

use vstd::prelude::*;
use vstd::string::*;
use vstd::utf8::*;

use crate::text;

verus! {

/// `axum::http::HeaderMap`: the headers of a message.
#[verifier::external_type_specification]
#[verifier::external_body]
#[verifier::reject_recursive_types(T)]
pub struct ExHeaderMap<T>(axum::http::HeaderMap<T>);

/// `axum::http::HeaderValue`: the value of a header.
#[verifier::external_type_specification]
#[verifier::external_body]
pub struct ExHeaderValue(axum::http::HeaderValue);

/// What a header map holds: for each name, in lower case, its values in order.
pub uninterp spec fn header_contents(
    h: axum::http::HeaderMap<axum::http::HeaderValue>,
) -> Map<Seq<char>, Seq<Seq<u8>>>;

/// A character that may stand in a header name.
pub open spec fn name_char(c: char) -> bool {
    ||| 'a' <= c <= 'z'
    ||| 'A' <= c <= 'Z'
    ||| '0' <= c <= '9'
    ||| c == '!' || c == '#' || c == '$' || c == '%' || c == '&' || c == '\'' || c == '*' || c
        == '+' || c == '-' || c == '.' || c == '^' || c == '_' || c == '`' || c == '|' || c == '~'
}

/// A valid header name.
pub open spec fn valid_name(s: Seq<char>) -> bool {
    &&& 1 <= s.len() <= 65535
    &&& forall|i: int| 0 <= i < s.len() ==> name_char(#[trigger] s[i])
}

/// A valid header value: no control character but the tab.
pub open spec fn valid_value(s: Seq<char>) -> bool {
    forall|i: int|
        0 <= i < s.len() ==> (#[trigger] s[i] >= ' ' && s[i] != '\u{7f}') || s[i] == '\t'
}

/// A valid HTTP status code.
pub open spec fn valid_status(status: u16) -> bool {
    100 <= status <= 999
}

/// The status sent for a scripted one: an invalid one becomes 500.
pub open spec fn status_or_500(status: u16) -> u16 {
    if valid_status(status) {
        status
    } else {
        500
    }
}

/// `axum::http::HeaderName::try_from` accepts the valid names.
#[verifier::external_body]
pub(crate) fn is_valid_name(name: &str) -> (r: bool)
    ensures
        r == valid_name(name@),
{
    axum::http::HeaderName::try_from(name).is_ok()
}

/// `axum::http::HeaderValue::try_from` accepts the valid values.
#[verifier::external_body]
pub(crate) fn is_valid_value(value: &str) -> (r: bool)
    ensures
        r == valid_value(value@),
{
    axum::http::HeaderValue::try_from(value).is_ok()
}

/// `axum::http::StatusCode::from_u16` accepts the codes from 100 to 999.
#[verifier::external_body]
pub(crate) fn is_valid_status(status: u16) -> (r: bool)
    ensures
        r == valid_status(status),
{
    axum::http::StatusCode::from_u16(status).is_ok()
}

/// The status sent for a scripted one.
pub fn final_status(status: u16) -> (r: u16)
    ensures
        r == status_or_500(status),
{
    if is_valid_status(status) {
        status
    } else {
        500
    }
}

/// The lower-case form of a letter; other characters stay.
pub open spec fn lower_char(c: char) -> char {
    if 'A' <= c <= 'Z' {
        (c as u32 + 32) as char
    } else {
        c
    }
}

/// A header name in lower case.
pub open spec fn lower(s: Seq<char>) -> Seq<char> {
    Seq::new(s.len(), |i: int| lower_char(s[i]))
}

/// `axum::http::HeaderMap::get`, for a name in lower case: the first value of
/// that name.
#[verifier::external_body]
pub(crate) fn first_value(
    h: &axum::http::HeaderMap<axum::http::HeaderValue>,
    name: &str,
) -> (r: Option<Vec<u8>>)
    requires
        lower(name@) == name@,
    ensures
        r is Some <==> header_contents(*h).contains_key(name@),
        r matches Some(v) ==> header_contents(*h)[name@].len() > 0 && v@ == header_contents(
            *h,
        )[name@][0],
{
    h.get(name).map(|v| v.as_bytes().to_vec())
}

/// The values that a list of headers gives to a name, in order.
pub open spec fn values_of(pairs: Seq<(String, Vec<u8>)>, name: Seq<char>) -> Seq<Seq<u8>>
    decreases pairs.len(),
{
    if pairs.len() == 0 {
        Seq::empty()
    } else {
        let rest = values_of(pairs.drop_last(), name);
        if pairs.last().0@ == name {
            rest.push(pairs.last().1@)
        } else {
            rest
        }
    }
}

/// Whether a list of headers is what a header map holds.
pub open spec fn lists(
    pairs: Seq<(String, Vec<u8>)>,
    contents: Map<Seq<char>, Seq<Seq<u8>>>,
) -> bool {
    forall|name: Seq<char>| #[trigger]
        values_of(pairs, name) == (if contents.contains_key(name) {
            contents[name]
        } else {
            Seq::empty()
        })
}

/// `axum::http::HeaderMap::iter`: every header once per value, names in lower
/// case, the values of a name in their order. The order of the names is open.
#[verifier::external_body]
pub(crate) fn all_headers(
    h: &axum::http::HeaderMap<axum::http::HeaderValue>,
) -> (r: Vec<(String, Vec<u8>)>)
    ensures
        lists(r@, header_contents(*h)),
{
    h.iter().map(|(k, v)| (k.as_str().to_owned(), v.as_bytes().to_vec())).collect()
}

/// The text of a header value, where all of it is visible ASCII or a tab.
pub open spec fn value_text(bytes: Seq<u8>) -> Option<Seq<char>> {
    if forall|i: int|
        0 <= i < bytes.len() ==> (32 <= #[trigger] bytes[i] < 127 || bytes[i] == 9) {
        Some(Seq::new(bytes.len(), |i: int| bytes[i] as char))
    } else {
        None
    }
}

/// The text of the first value of a header.
pub open spec fn first_text(contents: Map<Seq<char>, Seq<Seq<u8>>>, name: Seq<char>) -> Option<
    Seq<char>,
> {
    if contents.contains_key(name) {
        value_text(contents[name][0])
    } else {
        None
    }
}

/// The text of a header value.
pub fn text_of_value(bytes: &Vec<u8>) -> (r: Option<String>)
    ensures
        text::opt_text(r) == value_text(bytes@),
{
    let mut out = String::new();
    for i in 0..bytes.len()
        invariant
            forall|j: int| 0 <= j < i ==> (32 <= #[trigger] bytes@[j] < 127 || bytes@[j] == 9),
            out@ =~= Seq::new(i as nat, |j: int| bytes@[j] as char),
    {
        let b: u8 = bytes[i];
        if !((32 <= b && b < 127) || b == 9) {
            assert(!(32 <= bytes@[i as int] < 127 || bytes@[i as int] == 9));
            return None;
        }
        out.push(b as char);
    }
    Some(out)
}

/// The text of the first value of a header.
pub(crate) fn header_text(
    h: &axum::http::HeaderMap<axum::http::HeaderValue>,
    name: &str,
) -> (r: Option<String>)
    requires
        lower(name@) == name@,
    ensures
        text::opt_text(r) == first_text(header_contents(*h), name@),
{
    match first_value(h, name) {
        Some(bytes) => text_of_value(&bytes),
        None => None,
    }
}

/// Headers by name. A later entry replaces an earlier one of the same name.
pub struct Headers {
    pub entries: Vec<(String, String)>,
}

/// The map that a list of headers stands for.
pub open spec fn headers_view(entries: Seq<(String, String)>) -> Map<Seq<char>, Seq<char>>
    decreases entries.len(),
{
    if entries.len() == 0 {
        Map::empty()
    } else {
        headers_view(entries.drop_last()).insert(entries.last().0@, entries.last().1@)
    }
}

impl Headers {
    /// The map denoted.
    pub open spec fn view(&self) -> Map<Seq<char>, Seq<char>> {
        headers_view(self.entries@)
    }

    /// No headers.
    pub fn new() -> (r: Headers)
        ensures
            r@ == Map::<Seq<char>, Seq<char>>::empty(),
    {
        Headers { entries: Vec::new() }
    }

    /// Sets a header.
    pub fn set(&mut self, name: &str, value: &str)
        ensures
            final(self)@ == old(self)@.insert(name@, value@),
    {
        let ghost before = self.entries@;
        self.entries.push((name.to_owned(), value.to_owned()));
        assert(self.entries@.drop_last() =~= before);
    }

    /// The value of a header.
    pub fn get(&self, name: &str) -> (r: Option<&str>)
        ensures
            text::opt_str(r) == (if self@.contains_key(name@) {
                Some(self@[name@])
            } else {
                None
            }),
    {
        let mut i: usize = self.entries.len();
        assert(self.entries@.take(i as int) =~= self.entries@);
        while i > 0
            invariant
                i <= self.entries.len(),
                self@.contains_key(name@) == headers_view(self.entries@.take(i as int)).contains_key(
                    name@,
                ),
                self@.contains_key(name@) ==> self@[name@] == headers_view(
                    self.entries@.take(i as int),
                )[name@],
            decreases i,
        {
            proof {
                let now = self.entries@.take(i as int);
                assert(now.drop_last() =~= self.entries@.take(i - 1));
                assert(now.last() == self.entries@[i - 1]);
            }
            i = i - 1;
            if text::same(self.entries[i].0.as_str(), name) {
                return Some(self.entries[i].1.as_str());
            }
        }
        None
    }

    /// A copy of the headers.
    pub fn copy(&self) -> (r: Headers)
        ensures
            r@ == self@,
    {
        let mut out = Headers::new();
        for i in 0..self.entries.len()
            invariant
                out@ == headers_view(self.entries@.take(i as int)),
        {
            assert(self.entries@.take(i + 1).drop_last() =~= self.entries@.take(i as int));
            out.set(self.entries[i].0.as_str(), self.entries[i].1.as_str());
        }
        assert(self.entries@.take(self.entries@.len() as int) =~= self.entries@);
        out
    }
}

pub(crate) proof fn lemma_header_name(entries: Seq<(String, String)>, i: int)
    requires
        0 <= i < entries.len(),
    ensures
        headers_view(entries).contains_key(entries[i].0@),
    decreases entries.len(),
{
    if i < entries.len() - 1 {
        lemma_header_name(entries.drop_last(), i);
    }
}

pub(crate) proof fn lemma_header_source(entries: Seq<(String, String)>, k: Seq<char>) -> (i: int)
    requires
        headers_view(entries).contains_key(k),
    ensures
        0 <= i < entries.len(),
        entries[i].0@ == k,
    decreases entries.len(),
{
    if entries.last().0@ == k {
        entries.len() - 1
    } else {
        lemma_header_source(entries.drop_last(), k)
    }
}

/// Whether the scripted header `n` can be sent under the name `k`.
pub open spec fn sends(m: Map<Seq<char>, Seq<char>>, n: Seq<char>, k: Seq<char>) -> bool {
    m.contains_key(n) && valid_name(n) && valid_value(m[n]) && lower(n) == k
}

/// Whether the scripted header `n` is the one sent under the name `k`: of names
/// that differ in case only, the last in order.
pub open spec fn carries(m: Map<Seq<char>, Seq<char>>, n: Seq<char>, k: Seq<char>) -> bool {
    sends(m, n, k) && forall|o: Seq<char>| #[trigger]
        sends(m, o, k) ==> o == n || text::precedes(o, n)
}

/// What scripted headers add to a response: those with valid names and values,
/// under their names in lower case.
pub open spec fn sent_headers(m: Map<Seq<char>, Seq<char>>) -> Map<Seq<char>, Seq<char>> {
    Map::new(
        |k: Seq<char>| exists|n: Seq<char>| #[trigger] carries(m, n, k),
        |k: Seq<char>| m[choose|n: Seq<char>| #[trigger] carries(m, n, k)],
    )
}

/// A header name in lower case.
fn lower_text(s: &str) -> (r: String)
    ensures
        r@ == lower(s@),
{
    let chars = text::chars_of(s);
    let mut out = String::new();
    for i in 0..chars.len()
        invariant
            chars@ == s@,
            out@ =~= lower(s@).take(i as int),
    {
        let c = chars[i];
        let l: char = if 'A' <= c && c <= 'Z' {
            (c as u8 + 32) as char
        } else {
            c
        };
        out.push(l);
    }
    out
}

proof fn lemma_carrier_unique(
    m: Map<Seq<char>, Seq<char>>,
    n: Seq<char>,
    o: Seq<char>,
    k: Seq<char>,
)
    requires
        carries(m, n, k),
        carries(m, o, k),
    ensures
        n == o,
{
    if n != o {
        text::precedes_is_total(n, o);
    }
}

/// Applies scripted headers to the headers of a response, whose names are in
/// lower case: invalid ones are passed over, the others replace what was there.
pub fn apply_headers(response: &mut Headers, headers: &Headers)
    ensures
        final(response)@ == old(response)@.union_prefer_right(sent_headers(headers@)),
{
    let ghost m = headers@;
    let ghost entries = headers.entries@;
    // Each name in lower case, with the scripted name that carries it so far.
    let mut carriers = Headers::new();
    for i in 0..headers.entries.len()
        invariant
            m == headers@,
            entries == headers.entries@,
            forall|k: Seq<char>| #[trigger]
                carriers@.contains_key(k) ==> sends(m, carriers@[k], k),
            forall|j: int, k: Seq<char>|
                0 <= j < i && #[trigger] sends(m, (#[trigger] entries[j]).0@, k)
                    ==> carriers@.contains_key(k) && (carriers@[k] == entries[j].0@
                    || text::precedes(entries[j].0@, carriers@[k])),
    {
        let name = headers.entries[i].0.as_str();
        proof {
            lemma_header_name(entries, i as int);
        }
        let value = match headers.get(name) {
            Some(value) => value,
            None => "",
        };
        if is_valid_name(name) && is_valid_value(value) {
            let key = lower_text(name);
            let wins = match carriers.get(key.as_str()) {
                Some(other) => text::comes_before(other, name),
                None => true,
            };
            let ghost before = carriers@;
            if wins {
                carriers.set(key.as_str(), name);
            }
            proof {
                assert forall|j: int, k: Seq<char>|
                    0 <= j < i + 1 && #[trigger] sends(m, (#[trigger] entries[j]).0@, k) implies carriers@.contains_key(
                k) && (carriers@[k] == entries[j].0@ || text::precedes(entries[j].0@, carriers@[k]))
                    by {
                    if before.contains_key(key@) {
                        text::precedes_is_total(before[key@], name@);
                        if j < i && wins && k == key@ && before[key@] != entries[j].0@ {
                            text::precedes_is_transitive(entries[j].0@, before[key@], name@);
                        }
                    }
                }
            }
        } else {
            assert(forall|k: Seq<char>| !#[trigger] sends(m, name@, k));
        }
    }
    let ghost first = response@;
    let ghost sent = sent_headers(m);
    proof {
        assert forall|k: Seq<char>| #[trigger] carriers@.contains_key(k) implies carries(
            m,
            carriers@[k],
            k,
        ) by {
            assert forall|o: Seq<char>| #[trigger] sends(m, o, k) implies o == carriers@[k]
                || text::precedes(o, carriers@[k]) by {
                let j = lemma_header_source(entries, o);
                assert(sends(m, entries[j].0@, k));
            }
        }
        assert forall|k: Seq<char>| #[trigger] sent.contains_key(k) implies carriers@.contains_key(
            k,
        ) by {
            let n = choose|n: Seq<char>| #[trigger] carries(m, n, k);
            let j = lemma_header_source(entries, n);
            assert(sends(m, entries[j].0@, k));
        }
        assert forall|k: Seq<char>| #[trigger] carriers@.contains_key(k) implies sent.contains_key(k)
            && sent[k] == m[carriers@[k]] by {
            assert(carries(m, carriers@[k], k));
            let n = choose|n: Seq<char>| #[trigger] carries(m, n, k);
            lemma_carrier_unique(m, n, carriers@[k], k);
        }
    }
    let ghost carried = carriers.entries@;
    for i in 0..carriers.entries.len()
        invariant
            m == headers@,
            sent == sent_headers(m),
            carried == carriers.entries@,
            forall|k: Seq<char>| #[trigger]
                carriers@.contains_key(k) ==> sends(m, carriers@[k], k) && sent.contains_key(k)
                    && sent[k] == m[carriers@[k]],
            forall|k: Seq<char>| #[trigger]
                response@.contains_key(k) ==> (sent.contains_key(k) && response@[k] == sent[k]) || (
                first.contains_key(k) && response@[k] == first[k]),
            forall|k: Seq<char>| #[trigger] first.contains_key(k) ==> response@.contains_key(k),
            forall|j: int|
                0 <= j < i ==> response@.contains_key((#[trigger] carried[j]).0@)
                    && response@[carried[j].0@] == sent[carried[j].0@],
    {
        let key = carriers.entries[i].0.as_str();
        proof {
            lemma_header_name(carried, i as int);
        }
        let name = match carriers.get(key) {
            Some(name) => name,
            None => "",
        };
        let value = match headers.get(name) {
            Some(value) => value,
            None => "",
        };
        response.set(key, value);
    }
    proof {
        let whole = first.union_prefer_right(sent);
        assert forall|k: Seq<char>| #[trigger] sent.contains_key(k) implies response@.contains_key(k)
            && response@[k] == sent[k] by {
            assert(carriers@.contains_key(k));
            let j = lemma_header_source(carried, k);
            assert(carried[j].0@ == k);
        }
        assert(response@ =~= whole);
    }
}

/// Whether a response is a stream: its content type says so, or, where it has no
/// readable one, the request asked for it.
pub open spec fn responds_stream(
    contents: Map<Seq<char>, Seq<Seq<u8>>>,
    requested: bool,
) -> bool {
    match first_text(contents, "content-type"@) {
        Some(s) => text::occurs(s, "text/event-stream"@),
        None => requested,
    }
}

/// Whether a response is a stream.
pub fn is_event_stream(
    response: &axum::http::HeaderMap<axum::http::HeaderValue>,
    requested: bool,
) -> (r: bool)
    ensures
        r == responds_stream(header_contents(*response), requested),
{
    proof {
        reveal_strlit("content-type");
        assert(lower("content-type"@) =~= "content-type"@);
    }
    match header_text(response, "content-type") {
        Some(s) => text::contains(s.as_str(), "text/event-stream"),
        None => requested,
    }
}

/// Headers as names and bytes.
pub open spec fn pairs_view(pairs: Seq<(String, Vec<u8>)>) -> Seq<(Seq<char>, Seq<u8>)> {
    Seq::new(pairs.len(), |i: int| (pairs[i].0@, pairs[i].1@))
}

/// A header with a value of text.
pub open spec fn text_pair(name: Seq<char>, value: Seq<char>) -> (Seq<char>, Seq<u8>) {
    (name, encode_utf8(value))
}

/// The first value of each named header that is given, in the order of the names.
pub open spec fn passed_on(
    contents: Map<Seq<char>, Seq<Seq<u8>>>,
    names: Seq<Seq<char>>,
) -> Seq<(Seq<char>, Seq<u8>)>
    decreases names.len(),
{
    if names.len() == 0 {
        Seq::empty()
    } else {
        let rest = passed_on(contents, names.drop_last());
        if contents.contains_key(names.last()) {
            rest.push((names.last(), contents[names.last()][0]))
        } else {
            rest
        }
    }
}

/// What is passed on has the given names.
pub(crate) proof fn lemma_passed_names(
    contents: Map<Seq<char>, Seq<Seq<u8>>>,
    names: Seq<Seq<char>>,
)
    ensures
        forall|i: int|
            0 <= i < passed_on(contents, names).len() ==> names.contains(
                (#[trigger] passed_on(contents, names)[i]).0,
            ),
    decreases names.len(),
{
    if names.len() > 0 {
        let fewer = names.drop_last();
        lemma_passed_names(contents, fewer);
        let passed = passed_on(contents, names);
        assert forall|i: int| 0 <= i < passed.len() implies names.contains(
            (#[trigger] passed[i]).0,
        ) by {
            if i < passed_on(contents, fewer).len() {
                assert(passed[i] == passed_on(contents, fewer)[i]);
                assert(fewer.contains(passed[i].0));
                let j = fewer.index_of(passed[i].0);
                assert(names[j] == passed[i].0);
            } else {
                assert(names[names.len() - 1] == passed[i].0);
            }
        }
    }
}

/// The bytes of a text.
fn bytes_of(s: &str) -> (r: Vec<u8>)
    ensures
        r@ == encode_utf8(s@),
{
    let bytes = s.as_bytes();
    let mut out: Vec<u8> = Vec::new();
    for i in 0..bytes.len()
        invariant
            bytes@ == encode_utf8(s@),
            out@ =~= bytes@.take(i as int),
    {
        out.push(bytes[i]);
    }
    out
}

/// Adds a header with a value of text.
pub(crate) fn push_text(pairs: &mut Vec<(String, Vec<u8>)>, name: &str, value: &str)
    ensures
        pairs_view(final(pairs)@) == pairs_view(old(pairs)@).push(text_pair(name@, value@)),
{
    let ghost before = pairs@;
    pairs.push((name.to_owned(), bytes_of(value)));
    assert(pairs_view(pairs@) =~= pairs_view(before).push(text_pair(name@, value@)));
}

/// Adds the first value of each named header that is given.
pub(crate) fn push_passed_on(
    pairs: &mut Vec<(String, Vec<u8>)>,
    h: &axum::http::HeaderMap<axum::http::HeaderValue>,
    names: &Vec<String>,
)
    requires
        forall|i: int|
            0 <= i < names@.len() ==> lower((#[trigger] text::texts(names@)[i])) == text::texts(
                names@,
            )[i],
    ensures
        pairs_view(final(pairs)@) == pairs_view(old(pairs)@) + passed_on(
            header_contents(*h),
            text::texts(names@),
        ),
{
    let ghost first = pairs_view(pairs@);
    let ghost all = text::texts(names@);
    let ghost contents = header_contents(*h);
    assert(first + passed_on(contents, all.take(0)) =~= first);
    for i in 0..names.len()
        invariant
            all == text::texts(names@),
            contents == header_contents(*h),
            forall|i: int| 0 <= i < names@.len() ==> lower((#[trigger] all[i])) == all[i],
            pairs_view(pairs@) =~= first + passed_on(contents, all.take(i as int)),
    {
        assert(all.take(i + 1).drop_last() =~= all.take(i as int));
        assert(all[i as int] == names@[i as int]@);
        let ghost before = pairs@;
        match first_value(h, names[i].as_str()) {
            Some(value) => {
                pairs.push((names[i].clone(), value));
                assert(pairs_view(pairs@) =~= pairs_view(before).push(
                    (all[i as int], contents[all[i as int]][0]),
                ));
            },
            None => {},
        }
    }
    assert(all.take(all.len() as int) =~= all);
}

/// Every named header that is given is passed on, and nothing else is.
pub(crate) proof fn lemma_passed_whole(contents: Map<Seq<char>, Seq<Seq<u8>>>, names: Seq<Seq<char>>)
    ensures
        forall|i: int|
            0 <= i < names.len() && contents.contains_key(#[trigger] names[i])
                ==> passed_on(contents, names).contains(
                (names[i], contents[names[i]][0]),
            ),
        forall|j: int|
            0 <= j < passed_on(contents, names).len() ==> {
                let pair = #[trigger] passed_on(contents, names)[j];
                names.contains(pair.0) && contents.contains_key(pair.0) && pair.1
                    == contents[pair.0][0]
            },
    decreases names.len(),
{
    if names.len() > 0 {
        let fewer = names.drop_last();
        lemma_passed_whole(contents, fewer);
        let passed = passed_on(contents, names);
        let before = passed_on(contents, fewer);
        assert forall|i: int| 0 <= i < names.len() && contents.contains_key(
            #[trigger] names[i],
        ) implies passed.contains((names[i], contents[names[i]][0])) by {
            if i < fewer.len() {
                assert(fewer[i] == names[i]);
                let j = before.index_of((names[i], contents[names[i]][0]));
                assert(passed[j] == before[j]);
            } else {
                assert(passed[passed.len() - 1] == (names[i], contents[names[i]][0]));
            }
        }
        assert forall|j: int| 0 <= j < passed.len() implies ({
            let pair = #[trigger] passed[j];
            names.contains(pair.0) && contents.contains_key(pair.0) && pair.1
                == contents[pair.0][0]
        }) by {
            if j < before.len() {
                assert(passed[j] == before[j]);
                let i = fewer.index_of(passed[j].0);
                assert(names[i] == passed[j].0);
            } else {
                assert(names[names.len() - 1] == passed[j].0);
            }
        }
    }
}

} // verus!
