//! What the parts that both twins share promise.

use vstd::arithmetic::power::pow;
use vstd::prelude::*;
use vstd::utf8::*;

use crate::json::{Json, JsonView, NumberView};
use crate::recorder::RecordingView;
use crate::reply::ContentView;
use crate::settings::{Mode, RecordFormat};
use crate::sse::EventView;
use crate::transport::RawOutcome;
use crate::{
    codec, hash, headers, json, recorder, reply, settings, sse, text, transport,
};

verus! {

/// Blanks, tabs and line ends are white space, and no visible ASCII character
/// is.
pub proof fn white_space_is_blank(c: char)
    ensures
        c == ' ' || c == '\t' || c == '\n' || c == '\r' || c == '\u{b}' || c == '\u{c}'
            ==> text::white_space(c),
        c == '\u{85}' || c == '\u{a0}' || c == '\u{1680}' || c == '\u{2028}' || c == '\u{2029}'
            || c == '\u{202f}' || c == '\u{205f}' || c == '\u{3000}' ==> text::white_space(c),
        '\u{2000}' <= c <= '\u{200a}' ==> text::white_space(c),
        '!' <= c <= '~' ==> !text::white_space(c),
        c < '\t' ==> !text::white_space(c),
        '\u{e}' <= c < ' ' ==> !text::white_space(c),
        c > '\u{3000}' ==> !text::white_space(c),
{
}

/// The words on both sides of white space are the words of the whole.
pub proof fn words_on_both_sides(a: Seq<char>, c: char, b: Seq<char>)
    requires
        text::white_space(c),
    ensures
        text::words(a.push(c) + b) == text::words(a) + text::words(b),
    decreases b.len(),
{
    let s = a.push(c) + b;
    if b.len() == 0 {
        assert(s =~= a.push(c));
        assert(s.drop_last() =~= a);
        assert(text::words(b) =~= Seq::empty());
        assert(text::words(a) + text::words(b) =~= text::words(a));
    } else {
        let front = b.drop_last();
        words_on_both_sides(a, c, front);
        assert(s.drop_last() =~= a.push(c) + front);
        assert(s.last() == b.last());
        let rest = text::words(front);
        let whole = text::words(a) + rest;
        if text::white_space(b.last()) {
        } else if b.len() == 1 {
            assert(s[s.len() - 2] == c);
            assert(front =~= Seq::empty());
            assert(whole.push(seq![b.last()]) =~= text::words(a) + text::words(b));
        } else if text::white_space(b[b.len() - 2]) {
            assert(s[s.len() - 2] == b[b.len() - 2]);
            assert(whole.push(seq![b.last()]) =~= text::words(a) + text::words(b));
        } else {
            assert(s[s.len() - 2] == b[b.len() - 2]);
            assert(front.last() == b[b.len() - 2]);
            text::lemma_words_nonempty(front);
            assert(whole.last() == rest.last());
            assert(whole.drop_last() =~= text::words(a) + rest.drop_last());
            assert(text::words(s) =~= text::words(a) + text::words(b));
        }
    }
}

/// A text without white space is one word, unless it is empty.
pub proof fn solid_text_is_one_word(w: Seq<char>)
    requires
        w.len() > 0,
        forall|i: int| 0 <= i < w.len() ==> !text::white_space(#[trigger] w[i]),
    ensures
        text::words(w) == seq![w],
{
    text::lemma_next_word(Seq::empty(), w);
    assert(Seq::<char>::empty() + w =~= w);
    assert(text::words(Seq::empty()) =~= Seq::empty());
    assert(text::words(w) =~= seq![w]);
}

/// Collapsing white space keeps the words and nothing else: the words of the
/// result are the words of the text, and they are one blank apart.
pub proof fn normalizing_keeps_words(s: Seq<char>)
    ensures
        text::words(text::normalized(s)) == text::words(s),
        text::words(s).len() == 1 ==> text::normalized(s) == text::words(s)[0],
        text::words(s).len() == 2 ==> text::normalized(s) == text::words(s)[0].push(' ')
            + text::words(s)[1],
{
    text::lemma_words_are_words(s);
    text::lemma_words_of_joined(text::words(s));
    if text::words(s).len() == 2 {
        let two = text::words(s);
        assert(two.drop_last() =~= seq![two[0]]);
        assert(text::joined(seq![two[0]], seq![' ']) == two[0]);
        assert(text::normalized(s) =~= two[0].push(' ') + two[1]);
    }
}

/// Joined parts stand behind each other with the separator between each two.
pub proof fn parts_are_joined(parts: Seq<Seq<char>>, last: Seq<char>, sep: Seq<char>)
    ensures
        text::joined(Seq::empty(), sep).len() == 0,
        parts.len() == 0 ==> text::joined(parts.push(last), sep) == last,
        parts.len() > 0 ==> text::joined(parts.push(last), sep) == text::joined(parts, sep) + sep
            + last,
{
    assert(parts.push(last).drop_last() =~= parts);
}

/// Trimming takes white space off both ends and nothing else.
pub proof fn trimming_takes_white_space(s: Seq<char>)
    ensures
        text::trimmed(s).len() > 0 ==> !text::white_space(text::trimmed(s)[0])
            && !text::white_space(text::trimmed(s).last()),
        text::trimmed(s).len() == 0 <==> text::blank(s),
        exists|front: Seq<char>, back: Seq<char>|
            text::blank(front) && text::blank(back) && s == #[trigger] (front + text::trimmed(s)
                + back),
{
    lemma_trimmed_front(s);
    let t = text::trimmed_front(s);
    lemma_trimmed_back(t);
    let u = text::trimmed_back(t);
    let front = choose|front: Seq<char>| text::blank(front) && s == #[trigger] (front + t);
    let back = choose|back: Seq<char>| text::blank(back) && t == #[trigger] (u + back);
    assert(s =~= front + u + back);
    if u.len() > 0 {
        assert(u[0] == t[0]);
        assert(s[front.len() as int] == t[0]);
    } else {
        assert(s =~= front + back);
        assert forall|i: int| 0 <= i < s.len() implies text::white_space(#[trigger] s[i]) by {
            if i < front.len() {
                assert(s[i] == front[i]);
            } else {
                assert(s[i] == back[i - front.len()]);
            }
        }
    }
}

proof fn lemma_trimmed_front(s: Seq<char>)
    ensures
        text::trimmed_front(s).len() > 0 ==> !text::white_space(text::trimmed_front(s)[0]),
        exists|front: Seq<char>|
            text::blank(front) && s == #[trigger] (front + text::trimmed_front(s)),
    decreases s.len(),
{
    if s.len() > 0 && text::white_space(s[0]) {
        let rest = s.skip(1);
        lemma_trimmed_front(rest);
        let t = text::trimmed_front(rest);
        let front = choose|front: Seq<char>| text::blank(front) && rest == #[trigger] (front + t);
        let longer = seq![s[0]] + front;
        assert forall|i: int| 0 <= i < longer.len() implies text::white_space(
            #[trigger] longer[i],
        ) by {
            if i > 0 {
                assert(longer[i] == front[i - 1]);
            }
        }
        assert(s =~= seq![s[0]] + rest);
        assert(seq![s[0]] + (front + t) =~= longer + t);
        assert(text::blank(longer) && s == longer + text::trimmed_front(s));
    } else {
        let none = Seq::<char>::empty();
        assert(s =~= none + s);
        assert(text::blank(none) && s == none + text::trimmed_front(s));
    }
}

proof fn lemma_trimmed_back(s: Seq<char>)
    ensures
        text::trimmed_back(s).len() > 0 ==> !text::white_space(text::trimmed_back(s).last()),
        exists|back: Seq<char>|
            text::blank(back) && s == #[trigger] (text::trimmed_back(s) + back),
    decreases s.len(),
{
    if s.len() > 0 && text::white_space(s.last()) {
        let rest = s.drop_last();
        lemma_trimmed_back(rest);
        let t = text::trimmed_back(rest);
        let back = choose|back: Seq<char>| text::blank(back) && rest == #[trigger] (t + back);
        let longer = back.push(s.last());
        assert forall|i: int| 0 <= i < longer.len() implies text::white_space(
            #[trigger] longer[i],
        ) by {
            if i < back.len() {
                assert(longer[i] == back[i]);
            }
        }
        assert(s =~= rest.push(s.last()));
        assert((t + back).push(s.last()) =~= t + longer);
        assert(text::blank(longer) && s == text::trimmed_back(s) + longer);
    } else {
        let none = Seq::<char>::empty();
        assert(s =~= s + none);
        assert(text::blank(none) && s == text::trimmed_back(s) + none);
    }
}

/// Texts are ordered as a dictionary orders words: what comes first decides, and
/// a text comes before whatever continues it.
pub proof fn order_is_that_of_a_dictionary(
    front: Seq<char>,
    x: char,
    a: Seq<char>,
    y: char,
    b: Seq<char>,
)
    ensures
        x != y ==> (text::precedes(front + seq![x] + a, front + seq![y] + b) <==> x < y),
        text::precedes(front, front + seq![x] + a),
        !text::precedes(front + seq![x] + a, front),
        !text::precedes(front, front),
    decreases front.len(),
{
    let p = front + seq![x] + a;
    let q = front + seq![y] + b;
    if front.len() == 0 {
        assert(p[0] == x && q[0] == y);
    } else {
        let rest = front.skip(1);
        order_is_that_of_a_dictionary(rest, x, a, y, b);
        assert(p.skip(1) =~= rest + seq![x] + a);
        assert(q.skip(1) =~= rest + seq![y] + b);
        assert(p[0] == front[0] && q[0] == front[0]);
    }
}

/// A number in decimal reads back as itself, and has no zeros in front.
pub proof fn decimals_read_back(n: nat)
    ensures
        text::digits_value(text::decimal(n)) == Some(n),
        n <= u64::MAX ==> text::number_in(text::decimal(n)) == Some(n as u64),
        n > 0 ==> text::decimal(n)[0] != '0',
{
    recorder::lemma_decimal_value(n);
    lemma_leading_digit(n);
    assert('0' <= text::decimal(n)[0]);
}

proof fn lemma_leading_digit(n: nat)
    ensures
        n > 0 ==> text::decimal(n)[0] != '0',
        text::decimal(n).len() > 0,
    decreases n,
{
    if n >= 10 {
        lemma_leading_digit(n / 10);
        assert(text::decimal(n)[0] == text::decimal(n / 10)[0]);
    } else {
        assert(text::decimal(n)[0] == text::digit(n as int));
    }
}

/// A padded number is the number in decimal with as many zeros in front as its
/// width asks for.
pub proof fn padding_is_zeros(n: nat, width: nat)
    ensures
        text::zero_padded(n, width).len() == (if text::decimal(n).len() > width {
            text::decimal(n).len()
        } else {
            width
        }),
        text::digits_value(text::zero_padded(n, width)) == Some(n),
{
    recorder::lemma_decimal_value(n);
    let plain = text::decimal(n);
    if plain.len() < width {
        recorder::lemma_zeros_value((width - plain.len()) as nat, plain);
    }
}

/// Hexadecimal digits tell numbers apart: of numbers that fit in the width, no
/// two are written alike. Every digit is one of `0` to `9` and `a` to `f`.
pub proof fn hexadecimals_differ(a: nat, b: nat, width: nat)
    requires
        a < pow(16, width),
        b < pow(16, width),
        text::hexadecimal(a, width) == text::hexadecimal(b, width),
    ensures
        a == b,
    decreases width,
{
    if width == 0 {
        vstd::arithmetic::power::lemma_pow0(16);
    } else {
        let less = (width - 1) as nat;
        let x = text::hexadecimal(a, width);
        let y = text::hexadecimal(b, width);
        assert(x.last() == y.last());
        assert(x.drop_last() =~= text::hexadecimal(a / 16, less));
        assert(y.drop_last() =~= text::hexadecimal(b / 16, less));
        lemma_digits_differ((a % 16) as int, (b % 16) as int);
        vstd::arithmetic::power::lemma_pow_adds(16, 1, less);
        vstd::arithmetic::power::lemma_pow1(16);
        assert(pow(16, width) == 16 * pow(16, less));
        assert(a / 16 < pow(16, less)) by (nonlinear_arith)
            requires
                a < 16 * pow(16, less),
        {}
        assert(b / 16 < pow(16, less)) by (nonlinear_arith)
            requires
                b < 16 * pow(16, less),
        {}
        hexadecimals_differ(a / 16, b / 16, less);
    }
}

proof fn lemma_digits_differ(a: int, b: int)
    requires
        0 <= a < 16,
        0 <= b < 16,
        text::digit(a) == text::digit(b),
    ensures
        a == b,
{
}

/// The digits of a number's last place: the first ten are figures, the others
/// the letters that follow.
pub proof fn digits_are_figures_then_letters(d: int)
    requires
        0 <= d < 16,
    ensures
        d < 10 ==> text::digit(d) as int == '0' as int + d,
        d >= 10 ==> text::digit(d) as int == 'a' as int + (d - 10),
{
}

/// The key of a request is 16 hexadecimal digits of a hash that takes in the
/// bytes of its canonical text one by one, as FNV-1a does. Only a body that is
/// JSON has one.
pub proof fn keys_are_hashes(body: Seq<u8>, front: Seq<u8>, byte: u8)
    ensures
        hash::body_key(body) is Some <==> codec::json_parse(body) is Ok,
        codec::json_parse(body) matches Ok(v) ==> hash::body_key(body) == Some(
            text::hexadecimal(hash::fnv1a(encode_utf8(codec::json_text(v))) as nat, 16),
        ),
        hash::fnv1a(Seq::empty()) == 14695981039346656037u64,
        hash::fnv1a(front.push(byte)) == (hash::fnv1a(front) ^ (byte as u64)).wrapping_mul(
            1099511628211u64,
        ),
{
    assert(front.push(byte).drop_last() =~= front);
    assert(0xcbf2_9ce4_8422_2325u64 == 14695981039346656037u64);
    assert(0x0000_0100_0000_01b3u64 == 1099511628211u64);
}

proof fn lemma_hexadecimal_len(n: nat, width: nat)
    ensures
        text::hexadecimal(n, width).len() == width,
    decreases width,
{
    if width > 0 {
        lemma_hexadecimal_len(n / 16, (width - 1) as nat);
    }
}

/// Every key has the same length.
pub proof fn keys_are_equally_long(canonical: Seq<char>)
    ensures
        hash::key_of(canonical).len() == 16,
{
    lemma_hexadecimal_len(hash::fnv1a(encode_utf8(canonical)) as nat, 16);
}

/// The values of a boolean setting, a mode and a record format, and what holds
/// without one.
pub proof fn settings_have_these_values(value: Seq<char>, default: bool)
    ensures
        settings::flag(Some(value), default) == Some(true) <==> value == "true"@ || value == "1"@,
        settings::flag(Some(value), default) == Some(false) <==> value == "false"@ || value
            == "0"@,
        settings::flag(None, default) == Some(default),
        settings::mode_value(Some(value)) == Some(Mode::Twin) <==> value == "twin"@,
        settings::mode_value(Some(value)) == Some(Mode::ProxyRecord) <==> value
            == "proxy-record"@,
        settings::mode_value(None) == Some(Mode::Twin),
        settings::format_value(Some(value)) == Some(RecordFormat::Semantic) <==> value
            == "semantic"@,
        settings::format_value(Some(value)) == Some(RecordFormat::Transcript) <==> value
            == "transcript"@,
        settings::format_value(None) == Some(RecordFormat::Semantic),
        settings::non_empty(Some(value)) == (if value.len() > 0 {
            Some(value)
        } else {
            None
        }),
        settings::non_empty(None) is None,
{
    reveal_strlit("true");
    reveal_strlit("false");
    reveal_strlit("1");
    reveal_strlit("0");
    reveal_strlit("twin");
    reveal_strlit("proxy-record");
    reveal_strlit("semantic");
    reveal_strlit("transcript");
    assert("true"@.len() == 4 && "false"@.len() == 5 && "1"@.len() == 1 && "0"@.len() == 1);
    assert("1"@[0] == '1' && "0"@[0] == '0');
    assert("twin"@.len() == 4 && "proxy-record"@.len() == 12);
    assert("semantic"@.len() == 8 && "transcript"@.len() == 10);
}

/// The upstream is the given one without the slashes at its end, so that a path
/// can follow it; without one it is the default.
pub proof fn upstreams_end_without_slash(value: Seq<char>, default: Seq<char>, slashes: Seq<char>)
    requires
        value.len() > 0,
        value.last() != '/',
        forall|i: int| 0 <= i < slashes.len() ==> #[trigger] slashes[i] == '/',
    ensures
        settings::upstream_value(Some(value + slashes), default) == value,
        settings::upstream_value(None, default) == default,
        settings::upstream_value(Some(Seq::empty()), default) == default,
    decreases slashes.len(),
{
    if slashes.len() == 0 {
        assert(value + slashes =~= value);
    } else {
        let fewer = slashes.drop_last();
        assert forall|i: int| 0 <= i < fewer.len() implies #[trigger] fewer[i] == '/' by {
            assert(fewer[i] == slashes[i]);
        }
        upstreams_end_without_slash(value, default, fewer);
        assert((value + slashes).drop_last() =~= value + fewer);
        assert((value + slashes).last() == slashes[slashes.len() - 1]);
    }
}

/// A response is a stream where its content type says so, and without a readable
/// content type where the request asked for one.
pub proof fn streams_are_told_by_their_type(
    contents: Map<Seq<char>, Seq<Seq<u8>>>,
    requested: bool,
)
    ensures
        ({
            let kind = headers::value_text(contents["content-type"@][0]);
            let given = contents.contains_key("content-type"@) && kind is Some;
            &&& !given ==> headers::responds_stream(contents, requested) == requested
            &&& given ==> headers::responds_stream(contents, requested) == text::occurs(
                kind->0,
                "text/event-stream"@,
            )
        }),
{
}

/// A header value is readable where all its bytes are visible ASCII, blanks or
/// tabs, and then reads as those characters.
pub proof fn ascii_values_are_readable(bytes: Seq<u8>)
    ensures
        headers::value_text(bytes) is Some <==> forall|i: int|
            0 <= i < bytes.len() ==> (' ' as u8 <= #[trigger] bytes[i] && bytes[i] <= '~' as u8)
                || bytes[i] == '\t' as u8,
        headers::value_text(bytes) matches Some(s) ==> s.len() == bytes.len() && forall|i: int|
            0 <= i < s.len() ==> #[trigger] s[i] as int == bytes[i] as int,
{
}

/// A scripted header is sent under its name in lower case where its name and its
/// value are valid and no other name differs from it in case only; nothing is
/// sent that was not scripted.
pub proof fn scripted_headers_are_sent(m: Map<Seq<char>, Seq<char>>, n: Seq<char>)
    ensures
        m.contains_key(n) && headers::valid_name(n) && headers::valid_value(m[n]) && (forall|
            o: Seq<char>,
        | #[trigger]
            m.contains_key(o) && headers::lower(o) == headers::lower(n) ==> o == n)
            ==> headers::sent_headers(m).contains_key(headers::lower(n)) && headers::sent_headers(
            m,
        )[headers::lower(n)] == m[n],
        headers::sent_headers(m).contains_key(n) ==> exists|o: Seq<char>| #[trigger]
            m.contains_key(o) && headers::lower(o) == n && headers::valid_name(o)
                && headers::valid_value(m[o]) && headers::sent_headers(m)[n] == m[o],
{
    let k = headers::lower(n);
    if m.contains_key(n) && headers::valid_name(n) && headers::valid_value(m[n]) && (forall|
        o: Seq<char>,
    | #[trigger]
        m.contains_key(o) && headers::lower(o) == k ==> o == n) {
        assert(headers::sends(m, n, k));
        assert(headers::carries(m, n, k)) by {
            assert forall|o: Seq<char>| #[trigger] headers::sends(m, o, k) implies o == n
                || text::precedes(o, n) by {
                assert(m.contains_key(o));
            }
        }
        let c = choose|c: Seq<char>| #[trigger] headers::carries(m, c, k);
        assert(headers::sends(m, c, k));
        assert(m.contains_key(c));
    }
    if headers::sent_headers(m).contains_key(n) {
        let c = choose|c: Seq<char>| #[trigger] headers::carries(m, c, n);
        assert(m.contains_key(c));
    }
}

/// Lower case changes capital letters of ASCII into small ones and nothing else.
pub proof fn lower_case_changes_capitals(s: Seq<char>)
    ensures
        headers::lower(s).len() == s.len(),
        forall|i: int|
            0 <= i < s.len() ==> {
                &&& 'A' <= s[i] <= 'Z' ==> (#[trigger] headers::lower(s)[i]) as int == s[i] as int
                    + ('a' as int - 'A' as int)
                &&& !('A' <= s[i] <= 'Z') ==> headers::lower(s)[i] == s[i]
            },
{
}

/// A raw response is sent under its own status and headers, after its wait. A
/// valid content type overrides a scripted one.
pub proof fn raw_responses_are_sent(outcome: RawOutcome)
    ensures
        ({
            let sent = transport::raw_reply(outcome);
            let scripted = headers::sent_headers(outcome.headers@);
            &&& sent.status == outcome.status
            &&& sent.delay_ms == outcome.delay_before_headers_ms
            &&& forall|k: Seq<char>|
                k != "content-type"@ ==> #[trigger] sent.headers.contains_key(k)
                    == scripted.contains_key(k) && (scripted.contains_key(k) ==> sent.headers[k]
                    == scripted[k])
            &&& outcome.content_type matches Some(kind) ==> headers::valid_value(kind@)
                ==> sent.headers["content-type"@] == kind@
            &&& outcome.content_type is None ==> sent.headers == scripted
            &&& sent.body is Chunks
            &&& sent.body->Chunks_0.len() <= outcome.chunks@.len()
            &&& forall|i: int|
                0 <= i < sent.body->Chunks_0.len() ==> #[trigger] sent.body->Chunks_0[i]
                    == outcome.chunks@[i]@
        }),
{
    transport::nothing_follows_a_failure(transport::raw_view(outcome.chunks@));
}

/// A recording numbers its scenarios within each namespace, from one on. An id is
/// the namespace, or `global` without one, and the number in at least four
/// digits. The file lists every scenario, and reading the list takes the
/// recording up again.
pub proof fn recordings_are_numbered(
    recording: RecordingView,
    namespace: Option<Seq<char>>,
    matcher: JsonView,
    script: JsonView,
)
    requires
        recording.next(namespace) <= u64::MAX,
    ensures
        ({
            let label = if namespace is Some {
                namespace->0
            } else {
                "global"@
            };
            let after = recording.recorded(namespace, matcher, script);
            let made = after.scenarios.last();
            let n = recording.next(namespace);
            &&& !recording.counters.contains_key(label) ==> n == 1
            &&& recording.counters.contains_key(label) ==> n == recording.counters[label] + 1
            &&& made.at("scenario_id"@) == JsonView::Str(
                label + "/"@ + text::zero_padded(n as nat, 4),
            )
            &&& made.at("matcher"@) == matcher
            &&& made.at("script"@) == script
            &&& after.scenarios.drop_last() == recording.scenarios
            &&& after.counters.contains_key(label) && after.counters[label] == n
            &&& after.file_document().at("scenarios"@) == JsonView::Array(after.scenarios)
            &&& recorder::recording_in(after.file_document()) matches Some(read) && read.scenarios
                == after.scenarios
            &&& after.exact() ==> recorder::recording_in(after.file_document()) == Some(after)
        }),
{
    reveal_strlit("scenario_id");
    reveal_strlit("matcher");
    reveal_strlit("script");
    reveal_strlit("namespace");
    assert("scenario_id"@.len() == 11 && "matcher"@.len() == 7 && "script"@.len() == 6
        && "namespace"@.len() == 9);
    let after = recording.recorded(namespace, matcher, script);
    assert(after.scenarios.drop_last() =~= recording.scenarios);
}

/// Values are equal exactly where they are alike: texts letter for letter, whole
/// numbers by their value, arrays item for item and objects member for member.
pub proof fn equal_values_are_alike(a: JsonView, b: JsonView)
    ensures
        json::values_equal(a, b) ==> {
            &&& a is Str || b is Str || a is Bool || b is Bool || a is Null || b is Null ==> a == b
            &&& a.as_u64() is Some ==> a == b
            &&& a is Array <==> b is Array
            &&& a is Object <==> b is Object
            &&& a.items().len() == b.items().len()
        },
        a is Str || a is Bool || a is Null ==> (json::values_equal(a, b) <==> a == b),
        a is Array && b is Array ==> (json::values_equal(a, b) <==> a.items().len()
            == b.items().len() && forall|i: int|
            0 <= i < a.items().len() ==> json::values_equal(#[trigger] a.items()[i], b.items()[i])),
        a is Object && b is Object ==> (json::values_equal(a, b) <==> forall|k: Seq<char>|
            {
                &&& (#[trigger] a.get(k)) is Some <==> b.get(k) is Some
                &&& a.get(k) is Some ==> json::values_equal(a.at(k), b.at(k))
            }),
{
    if a is Object && b is Object {
        let x = a->Object_0;
        let y = b->Object_0;
        assert forall|k: Seq<char>| x.contains_key(k) == (#[trigger] a.get(k) is Some) by {}
        if json::values_equal(a, b) {
            assert forall|k: Seq<char>|
                ((#[trigger] a.get(k)) is Some <==> b.get(k) is Some) && (a.get(k) is Some
                    ==> json::values_equal(a.at(k), b.at(k))) by {
                assert(x.dom().contains(k) == y.dom().contains(k));
            }
        }
        if forall|k: Seq<char>|
            ((#[trigger] a.get(k)) is Some <==> b.get(k) is Some) && (a.get(k) is Some
                ==> json::values_equal(a.at(k), b.at(k))) {
            assert forall|k: Seq<char>| #[trigger] x.contains_key(k) implies json::values_equal(
                x[k],
                y[k],
            ) by {
                assert(a.get(k) is Some);
            }
            assert forall|k: Seq<char>| x.dom().contains(k) == y.dom().contains(k) by {
                assert(a.get(k) is Some <==> b.get(k) is Some);
            }
            assert(x.dom() =~= y.dom());
        }
    }
}

/// Every value is equal to itself.
pub proof fn values_equal_themselves(a: JsonView)
    ensures
        json::values_equal(a, a),
    decreases a,
{
    match a {
        JsonView::Array(items) => {
            assert forall|i: int| 0 <= i < items.len() implies json::values_equal(
                #[trigger] items[i],
                items[i],
            ) by {
                json::item_is_smaller(a, i);
                values_equal_themselves(items[i]);
            }
        },
        JsonView::Object(m) => {
            assert forall|k: Seq<char>| #[trigger] m.contains_key(k) implies json::values_equal(
                m[k],
                m[k],
            ) by {
                json::member_is_smaller(a, k);
                values_equal_themselves(m[k]);
            }
        },
        _ => {},
    }
}

/// A value is read by its kind: a member by its name, a text as itself, a whole
/// number that fits by its value, an array by its items. Anything else reads as
/// nothing.
pub proof fn values_are_read_by_kind(v: JsonView, key: Seq<char>, n: u64)
    ensures
        v matches JsonView::Object(m) ==> v.get(key) == (if m.contains_key(key) {
            Some(m[key])
        } else {
            None
        }),
        !(v is Object) ==> v.get(key) is None,
        v.get(key) matches Some(w) ==> v.at(key) == w,
        v.get(key) is None ==> v.at(key) is Null,
        v.at(key) matches JsonView::Str(s) ==> v.text_at(key) == s,
        !(v.at(key) is Str) ==> v.text_at(key).len() == 0,
        v matches JsonView::Str(s) ==> v.as_str() == Some(s),
        !(v is Str) ==> v.as_str() is None,
        v matches JsonView::Bool(b) ==> v.as_bool() == Some(b),
        !(v is Bool) ==> v.as_bool() is None,
        v matches JsonView::Array(items) ==> v.items() == items,
        !(v is Array) ==> v.items().len() == 0,
        v.as_u64() == Some(n) <==> v == JsonView::Num(NumberView::Int(n as int)),
        json::int_view(n) == JsonView::Num(NumberView::Int(n as int)),
{
}

/// A later member replaces an earlier one of the same name, and so does a later
/// header; items keep their order.
pub proof fn later_entries_replace_earlier(
    members: Seq<(String, Json)>,
    member: (String, Json),
    entries: Seq<(String, String)>,
    entry: (String, String),
    items: Seq<Json>,
    texts: Seq<Seq<char>>,
)
    ensures
        json::members_view(members.push(member)) == json::members_view(members).insert(
            member.0@,
            member.1@,
        ),
        json::members_view(Seq::empty()) == Map::<Seq<char>, JsonView>::empty(),
        headers::headers_view(entries.push(entry)) == headers::headers_view(entries).insert(
            entry.0@,
            entry.1@,
        ),
        headers::headers_view(Seq::empty()) == Map::<Seq<char>, Seq<char>>::empty(),
        json::items_view(items).len() == items.len(),
        forall|i: int|
            0 <= i < items.len() ==> json::items_view(items)[i] == (#[trigger] items[i])@,
        json::texts_json(texts).items().len() == texts.len(),
        forall|i: int|
            0 <= i < texts.len() ==> json::texts_json(texts).items()[i] == JsonView::Str(
                #[trigger] texts[i],
            ),
{
    assert(members.push(member).drop_last() =~= members);
    assert(entries.push(entry).drop_last() =~= entries);
}

/// Numbers are equal by their value; of floating-point numbers the two zeros are
/// equal too, and nothing else that is written apart.
pub proof fn equal_numbers_are_alike(a: NumberView, b: NumberView)
    ensures
        json::values_equal(JsonView::Num(a), JsonView::Num(b)) <==> a == b || ((a
            == NumberView::Float("0.0"@) || a == NumberView::Float("-0.0"@)) && (b
            == NumberView::Float("0.0"@) || b == NumberView::Float("-0.0"@))),
{
}

/// A number may be written with a plus in front. Text with anything but digits,
/// or without any, is no number, and neither is one that does not fit.
pub proof fn numbers_are_read_from_digits(s: Seq<char>, i: int)
    ensures
        text::number_in(Seq::empty()) is None,
        s.len() > 0 && s[0] != '+' ==> text::number_in(seq!['+'] + s) == text::number_in(s),
        0 < i < s.len() && !('0' <= s[i] <= '9') ==> text::number_in(s) is None,
        s.len() > 0 && s[0] != '+' && !('0' <= s[0] <= '9') ==> text::number_in(s) is None,
        text::digits_value(s) matches Some(n) ==> n > u64::MAX ==> text::number_in(s) is None,
{
    if s.len() > 0 && s[0] != '+' {
        assert((seq!['+'] + s).skip(1) =~= s);
    }
    if 0 < i < s.len() && !('0' <= s[i] <= '9') {
        lemma_no_digit(s, i);
        if s[0] == '+' {
            assert(s.skip(1)[i - 1] == s[i]);
            lemma_no_digit(s.skip(1), i - 1);
        }
    }
    if s.len() > 0 && !('0' <= s[0] <= '9') {
        lemma_no_digit(s, 0);
    }
}

proof fn lemma_no_digit(s: Seq<char>, i: int)
    requires
        0 <= i < s.len(),
        !('0' <= s[i] <= '9'),
    ensures
        text::digits_value(s) is None,
    decreases s.len(),
{
    if i < s.len() - 1 {
        assert(s.drop_last()[i] == s[i]);
        lemma_no_digit(s.drop_last(), i);
    }
}

/// A recording that is taken up goes on behind the highest number of each
/// namespace: no scenario has a higher one, and one has it, unless there is none.
pub proof fn recordings_go_on_behind_the_highest(scenarios: Seq<JsonView>, label: Seq<char>)
    ensures
        ({
            let top = recorder::highest(recorder::counters_of(scenarios), label);
            &&& forall|i: int|
                0 <= i < scenarios.len() ==> (recorder::scenario_parts(
                    #[trigger] scenarios[i],
                ) matches Some((l, n)) ==> l == label ==> n <= top)
            &&& top > 0 ==> exists|i: int|
                0 <= i < scenarios.len() && recorder::scenario_parts(#[trigger] scenarios[i])
                    == Some((label, top))
        }),
    decreases scenarios.len(),
{
    if scenarios.len() > 0 {
        let front = scenarios.drop_last();
        recordings_go_on_behind_the_highest(front, label);
        let before = recorder::highest(recorder::counters_of(front), label);
        let top = recorder::highest(recorder::counters_of(scenarios), label);
        assert forall|i: int| 0 <= i < front.len() implies #[trigger] front[i] == scenarios[i] by {}
        assert forall|i: int| 0 <= i < scenarios.len() implies (recorder::scenario_parts(
            #[trigger] scenarios[i],
        ) matches Some((l, n)) ==> l == label ==> n <= top) by {
            if i < front.len() {
                assert(front[i] == scenarios[i]);
            }
        }
        if top > 0 {
            if top == before {
                let i = choose|i: int|
                    0 <= i < front.len() && recorder::scenario_parts(#[trigger] front[i]) == Some(
                        (label, top),
                    );
                assert(scenarios[i] == front[i]);
            } else {
                assert(recorder::scenario_parts(scenarios[scenarios.len() - 1]) == Some(
                    (label, top),
                ));
            }
        }
    }
}

/// The number of a scenario stands behind the last slash of its id, and its
/// namespace before it.
pub proof fn ids_are_read_from_their_end(label: Seq<char>, digits: Seq<char>)
    requires
        !digits.contains('/'),
    ensures
        recorder::id_parts(label + seq!['/'] + digits) == (match text::number_in(digits) {
            Some(n) => Some((label, n)),
            None => None,
        }),
        recorder::id_parts(digits) is None,
{
    let id = label + seq!['/'] + digits;
    let at = label.len() as int;
    assert forall|j: int| at < j < id.len() implies id[j] != '/' by {
        assert(id[j] == digits[j - at - 1]);
        assert(digits.contains(digits[j - at - 1]));
    }
    recorder::lemma_split_at(id, '/', at);
    assert(id.take(at) =~= label);
    assert(id.skip(at + 1) =~= digits);
    recorder::lemma_no_split(digits, '/');
}

/// Events are sent in order, one chunk each and without waiting.
pub proof fn events_are_sent_one_chunk_each(events: Seq<EventView>)
    ensures
        reply::event_chunks(events).len() == events.len(),
        forall|i: int|
            0 <= i < events.len() ==> reply::event_chunks(events)[i].content == ContentView::Text(
                sse::rendered(#[trigger] events[i]),
            ) && reply::event_chunks(events)[i].delay_ms == 0,
{
}

} // verus!
