//! Server-sent events: reading a captured body, writing events, and the law
//! that what is written reads back.

use vstd::prelude::*;
use vstd::string::*;
use vstd::utf8::*;

use crate::text;

verus! {

/// One event: its name, where it has one, and its data.
#[verifier::ext_equal]
pub struct EventView {
    pub event: Option<Seq<char>>,
    pub data: Seq<char>,
}

/// One event as read from a body.
pub struct Event {
    pub event: Option<String>,
    pub data: String,
}

impl Event {
    /// The event denoted.
    pub open spec fn view(&self) -> EventView {
        EventView { event: text::opt_text(self.event), data: self.data@ }
    }
}

/// The events that a list holds.
pub open spec fn events_view(events: Seq<Event>) -> Seq<EventView> {
    Seq::new(events.len(), |i: int| events[i]@)
}

/// `s` with every line ending, be it CR LF, CR or LF, written as one LF.
pub open spec fn with_lf(s: Seq<char>) -> Seq<char>
    decreases s.len(),
{
    if s.len() == 0 {
        s
    } else {
        let rest = with_lf(s.drop_last());
        if s.last() == '\r' {
            rest.push('\n')
        } else if s.last() == '\n' && s.len() > 1 && s[s.len() - 2] == '\r' {
            rest
        } else {
            rest.push(s.last())
        }
    }
}

/// `s` without a byte order mark in front.
pub open spec fn without_mark(s: Seq<char>) -> Seq<char> {
    if s.len() > 0 && s[0] == '\u{feff}' {
        s.skip(1)
    } else {
        s
    }
}

/// Where the first colon of a line stands, or the line's length.
pub open spec fn colon(line: Seq<char>) -> int
    decreases line.len(),
{
    if line.len() == 0 {
        0
    } else if line[0] == ':' {
        0
    } else {
        1 + colon(line.skip(1))
    }
}

/// The field that a line names.
pub open spec fn field_name(line: Seq<char>) -> Seq<char> {
    line.take(colon(line))
}

/// The value that a line gives its field: what follows the colon, less one
/// space.
pub open spec fn field_value(line: Seq<char>) -> Seq<char> {
    if colon(line) == line.len() {
        Seq::empty()
    } else {
        let value = line.skip(colon(line) + 1);
        if value.len() > 0 && value[0] == ' ' {
            value.skip(1)
        } else {
            value
        }
    }
}

/// What a reader knows between two lines: the name and the data lines of the
/// event it is in, and the events before it.
#[verifier::ext_equal]
pub struct Scan {
    pub event: Option<Seq<char>>,
    pub data: Seq<Seq<char>>,
    pub out: Seq<EventView>,
}

/// Reading one line. An empty line ends an event, which counts where it has
/// data; a line that starts with a colon is a comment.
pub open spec fn step(scan: Scan, line: Seq<char>) -> Scan {
    if line.len() == 0 {
        Scan {
            event: None,
            data: Seq::empty(),
            out: if scan.data.len() > 0 {
                scan.out.push(
                    EventView { event: scan.event, data: text::joined(scan.data, seq!['\n']) },
                )
            } else {
                scan.out
            },
        }
    } else if line[0] == ':' {
        scan
    } else if field_name(line) == "event"@ {
        Scan { event: Some(field_value(line)), ..scan }
    } else if field_name(line) == "data"@ {
        Scan { data: scan.data.push(field_value(line)), ..scan }
    } else {
        scan
    }
}

/// Reading lines one after another.
pub open spec fn scan_from(start: Scan, lines: Seq<Seq<char>>) -> Scan
    decreases lines.len(),
{
    if lines.len() == 0 {
        start
    } else {
        step(scan_from(start, lines.drop_last()), lines.last())
    }
}

/// A reader that has read nothing.
pub open spec fn no_scan() -> Scan {
    Scan { event: None, data: Seq::empty(), out: Seq::empty() }
}

/// The events in a text. The end of the text ends an event too.
pub open spec fn events_in(s: Seq<char>) -> Seq<EventView> {
    step(
        scan_from(no_scan(), text::pieces(with_lf(without_mark(s)), '\n')),
        Seq::empty(),
    ).out
}

/// The events in a body; nothing where the body is no text.
pub open spec fn sse_events(body: Seq<u8>) -> Option<Seq<EventView>> {
    if valid_utf8(body) {
        Some(events_in(decode_utf8(body)))
    } else {
        None
    }
}

/// One `data:` line for each line of the data.
pub open spec fn data_lines(lines: Seq<Seq<char>>) -> Seq<char>
    decreases lines.len(),
{
    if lines.len() == 0 {
        Seq::empty()
    } else {
        data_lines(lines.drop_last()) + "data: "@ + lines.last() + seq!['\n']
    }
}

/// The text that sends an event.
pub open spec fn rendered(e: EventView) -> Seq<char> {
    let name = match e.event {
        Some(n) => "event: "@ + n + seq!['\n'],
        None => Seq::empty(),
    };
    name + data_lines(text::pieces(e.data, '\n')) + seq!['\n']
}

/// The text that sends events one after another.
pub open spec fn rendered_all(events: Seq<EventView>) -> Seq<char>
    decreases events.len(),
{
    if events.len() == 0 {
        Seq::empty()
    } else {
        rendered_all(events.drop_last()) + rendered(events.last())
    }
}

/// An event that its text can carry: no line ending in its name, and no
/// carriage return in its data.
pub open spec fn sendable(e: EventView) -> bool {
    &&& e.event matches Some(n) ==> !n.contains('\n') && !n.contains('\r')
    &&& !e.data.contains('\r')
}

/// Writes every line ending as one LF.
fn unify_line_endings(s: &Vec<char>, from: usize) -> (r: Vec<char>)
    requires
        from <= s.len(),
    ensures
        r@ == with_lf(s@.skip(from as int)),
{
    let mut out: Vec<char> = Vec::new();
    let ghost rest = s@.skip(from as int);
    for i in from..s.len()
        invariant
            from <= s.len(),
            rest == s@.skip(from as int),
            out@ == with_lf(rest.take(i - from)),
    {
        let c = s[i];
        proof {
            let now = rest.take(i + 1 - from);
            assert(now.drop_last() =~= rest.take(i - from));
            assert(now.last() == c);
            assert(now.len() > 1 ==> now[now.len() - 2] == s@[i - 1]);
        }
        if c == '\r' {
            out.push('\n');
        } else if c == '\n' && i > from && s[i - 1] == '\r' {
        } else {
            out.push(c);
        }
    }
    assert(rest.take(rest.len() as int) =~= rest);
    out
}

/// Where the first colon of a line stands, or the line's length.
fn find_colon(line: &Vec<char>) -> (r: usize)
    ensures
        r == colon(line@),
        r <= line.len(),
{
    let mut i: usize = 0;
    assert(line@.skip(0) =~= line@);
    while i < line.len() && line[i] != ':'
        invariant
            i <= line.len(),
            colon(line@) == i + colon(line@.skip(i as int)),
        decreases line.len() - i,
    {
        assert(line@.skip(i as int).skip(1) =~= line@.skip(i + 1));
        i = i + 1;
    }
    i
}

/// Reads a captured body. Line endings may be LF, CRLF or CR, the space after a
/// field's colon is optional, comments and other fields are passed over, and
/// the last event needs no blank line after it.
pub fn parse_events(body: &[u8]) -> (r: Option<Vec<Event>>)
    ensures
        r is Some <==> sse_events(body@) is Some,
        r matches Some(events) ==> sse_events(body@) == Some(events_view(events@)),
{
    let whole = match text::utf8_text(body) {
        Some(s) => text::chars_of(s),
        None => {
            return None;
        },
    };
    let from: usize = if whole.len() > 0 && whole[0] == '\u{feff}' {
        1
    } else {
        0
    };
    assert(whole@.skip(0) =~= whole@);
    let unified = unify_line_endings(&whole, from);
    let mut lines = text::split(&unified, '\n');
    let ghost all = text::pieces(with_lf(without_mark(decode_utf8(body@))), '\n');
    assert(text::texts(lines@) == all);
    lines.push(String::new());
    assert(text::texts(lines@) =~= all.push(Seq::empty()));
    let mut events: Vec<Event> = Vec::new();
    let mut event: Option<String> = None;
    let mut data: Vec<String> = Vec::new();
    for i in 0..lines.len()
        invariant
            text::texts(lines@) == all.push(Seq::empty()),
            scan_from(no_scan(), all.push(Seq::empty()).take(i as int)) == (Scan {
                event: text::opt_text(event),
                data: text::texts(data@),
                out: events_view(events@),
            }),
    {
        let ghost before = all.push(Seq::empty()).take(i as int);
        proof {
            let now = all.push(Seq::empty()).take(i + 1);
            assert(now.drop_last() =~= before);
            assert(now.last() == lines@[i as int]@);
            reveal_strlit("event");
            reveal_strlit("data");
            reveal_strlit("\n");
            assert("\n"@ =~= seq!['\n']);
        }
        let ghost scan = scan_from(no_scan(), before);
        let line = text::chars_of(lines[i].as_str());
        if line.len() == 0 {
            if data.len() > 0 {
                let joined = text::join(&data, "\n");
                let ghost old_events = events@;
                events.push(Event { event, data: joined });
                assert(events_view(events@) =~= events_view(old_events).push(
                    events@[events@.len() - 1]@,
                ));
            }
            event = None;
            data = Vec::new();
            assert(text::texts(data@) =~= Seq::empty());
        } else if line[0] == ':' {
        } else {
            let at = find_colon(&line);
            let name = text::text_of(&line, 0, at);
            assert(name@ =~= field_name(line@));
            let value = if at == line.len() {
                text::text_of(&line, at, at)
            } else if at + 1 < line.len() && line[at + 1] == ' ' {
                text::text_of(&line, at + 2, line.len())
            } else {
                text::text_of(&line, at + 1, line.len())
            };
            assert(value@ =~= field_value(line@));
            if text::same(name.as_str(), "event") {
                event = Some(value);
            } else if text::same(name.as_str(), "data") {
                let ghost old_data = data@;
                data.push(value);
                assert(text::texts(data@) =~= text::texts(old_data).push(value@));
            }
        }
    }
    proof {
        let now = all.push(Seq::empty());
        assert(now.take(now.len() as int) =~= now);
        assert(now.drop_last() =~= all);
    }
    Some(events)
}

/// Writes an event with the given name and data.
pub fn render(event: Option<&str>, data: &str) -> (r: String)
    ensures
        r@ == rendered(EventView { event: text::opt_str(event), data: data@ }),
{
    let mut out = String::new();
    match event {
        Some(name) => {
            out.append("event: ");
            out.append(name);
            out.push('\n');
        },
        None => {},
    }
    let ghost head = out@;
    proof {
        match event {
            Some(name) => {
                assert(head =~= "event: "@ + name@ + seq!['\n']);
            },
            None => {
                assert(head =~= Seq::empty());
            },
        }
    }
    let chars = text::chars_of(data);
    let lines = text::split(&chars, '\n');
    let ghost all = text::texts(lines@);
    assert(head + data_lines(all.take(0)) =~= head);
    for i in 0..lines.len()
        invariant
            all == text::texts(lines@),
            out@ == head + data_lines(all.take(i as int)),
    {
        out.append("data: ");
        out.append(lines[i].as_str());
        out.push('\n');
        assert(all.take(i + 1).drop_last() =~= all.take(i as int));
        assert(out@ =~= head + data_lines(all.take(i + 1)));
    }
    assert(all.take(all.len() as int) =~= all);
    out.push('\n');
    assert(out@ =~= head + data_lines(all) + seq!['\n']);
    out
}

/// Lines, each with a line feed after it.
spec fn unlines(lines: Seq<Seq<char>>) -> Seq<char>
    decreases lines.len(),
{
    if lines.len() == 0 {
        Seq::empty()
    } else {
        unlines(lines.drop_last()) + lines.last() + seq!['\n']
    }
}

/// The lines that send an event.
spec fn event_lines(e: EventView) -> Seq<Seq<char>> {
    name_lines(e) + value_lines(text::pieces(e.data, '\n')) + seq![Seq::empty()]
}

spec fn name_lines(e: EventView) -> Seq<Seq<char>> {
    match e.event {
        Some(n) => seq!["event: "@ + n],
        None => Seq::empty(),
    }
}

spec fn value_lines(values: Seq<Seq<char>>) -> Seq<Seq<char>> {
    Seq::new(values.len(), |i: int| "data: "@ + values[i])
}

spec fn all_lines(events: Seq<EventView>) -> Seq<Seq<char>>
    decreases events.len(),
{
    if events.len() == 0 {
        Seq::empty()
    } else {
        all_lines(events.drop_last()) + event_lines(events.last())
    }
}

proof fn lemma_unlines_concat(a: Seq<Seq<char>>, b: Seq<Seq<char>>)
    ensures
        unlines(a + b) == unlines(a) + unlines(b),
    decreases b.len(),
{
    if b.len() == 0 {
        assert(a + b =~= a);
        assert(unlines(a) + unlines(b) =~= unlines(a));
    } else {
        lemma_unlines_concat(a, b.drop_last());
        assert((a + b).drop_last() =~= a + b.drop_last());
        assert(unlines(a + b) =~= unlines(a) + unlines(b));
    }
}

proof fn lemma_value_lines(values: Seq<Seq<char>>)
    ensures
        unlines(value_lines(values)) == data_lines(values),
    decreases values.len(),
{
    if values.len() > 0 {
        lemma_value_lines(values.drop_last());
        assert(value_lines(values).drop_last() =~= value_lines(values.drop_last()));
        assert(unlines(value_lines(values)) =~= data_lines(values));
    }
}

proof fn lemma_event_lines(e: EventView)
    ensures
        unlines(event_lines(e)) == rendered(e),
{
    reveal_with_fuel(unlines, 2);
    let values = text::pieces(e.data, '\n');
    lemma_unlines_concat(name_lines(e) + value_lines(values), seq![Seq::empty()]);
    lemma_unlines_concat(name_lines(e), value_lines(values));
    lemma_value_lines(values);
    let end: Seq<Seq<char>> = seq![Seq::empty()];
    assert(end.drop_last() =~= Seq::empty());
    assert(unlines(end) =~= seq!['\n']);
    match e.event {
        Some(n) => {
            assert(name_lines(e).drop_last() =~= Seq::empty());
            assert(unlines(name_lines(e)) =~= "event: "@ + n + seq!['\n']);
        },
        None => {},
    }
    assert(unlines(event_lines(e)) =~= rendered(e));
}

proof fn lemma_all_lines(events: Seq<EventView>)
    ensures
        unlines(all_lines(events)) == rendered_all(events),
    decreases events.len(),
{
    if events.len() > 0 {
        lemma_all_lines(events.drop_last());
        lemma_event_lines(events.last());
        lemma_unlines_concat(all_lines(events.drop_last()), event_lines(events.last()));
    }
}

/// Lines that hold no line ending.
spec fn clean(lines: Seq<Seq<char>>) -> bool {
    forall|i: int|
        0 <= i < lines.len() ==> !(#[trigger] lines[i]).contains('\n') && !lines[i].contains('\r')
}

proof fn lemma_prefixed_clean(prefix: Seq<char>, l: Seq<char>)
    requires
        !prefix.contains('\n'),
        !prefix.contains('\r'),
        !l.contains('\n'),
        !l.contains('\r'),
    ensures
        !(prefix + l).contains('\n'),
        !(prefix + l).contains('\r'),
{
    let both = prefix + l;
    assert forall|i: int| 0 <= i < both.len() implies both[i] != '\n' && both[i] != '\r' by {
        if i < prefix.len() {
            assert(prefix.contains(both[i]));
        } else {
            assert(l.contains(l[i - prefix.len()]));
        }
    }
}

proof fn lemma_event_lines_clean(e: EventView)
    requires
        sendable(e),
    ensures
        clean(event_lines(e)),
{
    reveal_strlit("event: ");
    reveal_strlit("data: ");
    let values = text::pieces(e.data, '\n');
    text::lemma_pieces_clean(e.data, '\n', '\r');
    let lines = event_lines(e);
    assert forall|i: int| 0 <= i < lines.len() implies !(#[trigger] lines[i]).contains('\n')
        && !lines[i].contains('\r') by {
        let n = name_lines(e).len();
        if i < n {
            lemma_prefixed_clean("event: "@, e.event->0);
        } else if i < n + values.len() {
            assert(!values[i - n].contains('\n'));
            lemma_prefixed_clean("data: "@, values[i - n]);
        } else {
            assert(lines[i] =~= Seq::empty());
        }
    }
}

proof fn lemma_all_lines_clean(events: Seq<EventView>)
    requires
        forall|i: int| 0 <= i < events.len() ==> sendable(#[trigger] events[i]),
    ensures
        clean(all_lines(events)),
    decreases events.len(),
{
    if events.len() > 0 {
        let before = events.drop_last();
        assert forall|i: int| 0 <= i < before.len() implies sendable(#[trigger] before[i]) by {
            assert(sendable(events[i]));
        }
        lemma_all_lines_clean(before);
        assert(sendable(events.last()));
        lemma_event_lines_clean(events.last());
        let a = all_lines(before);
        let b = event_lines(events.last());
        assert forall|i: int| 0 <= i < (a + b).len() implies !(#[trigger] (a + b)[i]).contains('\n')
            && !(a + b)[i].contains('\r') by {
            if i < a.len() {
                assert(!a[i].contains('\n'));
            } else {
                assert(!b[i - a.len()].contains('\n'));
            }
        }
    }
}

/// Splitting lines with a line feed after each gives the lines and an empty
/// rest.
proof fn lemma_split_unlines(lines: Seq<Seq<char>>)
    requires
        clean(lines),
    ensures
        text::pieces(unlines(lines), '\n') == lines.push(Seq::empty()),
        with_lf(unlines(lines)) == unlines(lines),
        !unlines(lines).contains('\r'),
    decreases lines.len(),
{
    if lines.len() == 0 {
        assert(text::pieces(unlines(lines), '\n') =~= lines.push(Seq::empty()));
    } else {
        let before = lines.drop_last();
        assert forall|i: int| 0 <= i < before.len() implies !(#[trigger] before[i]).contains('\n')
            && !before[i].contains('\r') by {
            assert(!lines[i].contains('\n'));
        }
        lemma_split_unlines(before);
        let l = lines.last();
        assert(!lines[lines.len() - 1].contains('\n'));
        text::lemma_pieces_extend(unlines(before), l, '\n');
        let head = unlines(before) + l;
        assert(before.push(Seq::empty()).drop_last() =~= before);
        assert(Seq::<char>::empty() + l =~= l);
        assert(text::pieces(head, '\n') =~= lines);
        assert(unlines(lines).drop_last() =~= head);
        assert(text::pieces(unlines(lines), '\n') =~= lines.push(Seq::empty()));
        let whole = unlines(lines);
        assert forall|i: int| 0 <= i < whole.len() implies whole[i] != '\r' by {
            if i < unlines(before).len() {
                assert(unlines(before)[i] == whole[i]);
            } else if i < head.len() {
                assert(l[i - unlines(before).len()] == whole[i]);
            }
        }
        lemma_no_cr(whole);
    }
}

proof fn lemma_no_cr(s: Seq<char>)
    requires
        !s.contains('\r'),
    ensures
        with_lf(s) == s,
    decreases s.len(),
{
    if s.len() > 0 {
        let before = s.drop_last();
        assert forall|i: int| 0 <= i < before.len() implies before[i] != '\r' by {
            assert(s[i] != '\r');
        }
        lemma_no_cr(before);
        assert(s.last() != '\r');
        assert(s.len() > 1 ==> s[s.len() - 2] != '\r');
        assert(before.push(s.last()) =~= s);
    }
}

proof fn lemma_scan_concat(start: Scan, a: Seq<Seq<char>>, b: Seq<Seq<char>>)
    ensures
        scan_from(start, a + b) == scan_from(scan_from(start, a), b),
    decreases b.len(),
{
    if b.len() == 0 {
        assert(a + b =~= a);
    } else {
        lemma_scan_concat(start, a, b.drop_last());
        assert((a + b).drop_last() =~= a + b.drop_last());
    }
}

/// A line that names a field and gives it a value after a colon and a space.
proof fn lemma_field_line(name: Seq<char>, value: Seq<char>)
    requires
        !name.contains(':'),
    ensures
        field_name(name + seq![':', ' '] + value) == name,
        field_value(name + seq![':', ' '] + value) == value,
    decreases name.len(),
{
    let line = name + seq![':', ' '] + value;
    lemma_colon_at(line, name.len() as int);
    assert(line.take(name.len() as int) =~= name);
    assert(line.skip(name.len() as int + 1).skip(1) =~= value);
}

proof fn lemma_colon_at(line: Seq<char>, at: int)
    requires
        0 <= at < line.len(),
        line[at] == ':',
        forall|i: int| 0 <= i < at ==> line[i] != ':',
    ensures
        colon(line) == at,
    decreases line.len(),
{
    if at > 0 {
        assert(line[0] != ':');
        lemma_colon_at(line.skip(1), at - 1);
    }
}

proof fn lemma_scan_values(start: Scan, values: Seq<Seq<char>>)
    requires
        start.data.len() == 0,
    ensures
        scan_from(start, value_lines(values)) == (Scan { data: values, ..start }),
    decreases values.len(),
{
    if values.len() == 0 {
        assert(start.data =~= values);
    } else {
        let before = values.drop_last();
        lemma_scan_values(start, before);
        assert(value_lines(values).drop_last() =~= value_lines(before));
        reveal_strlit("data: ");
        reveal_strlit("data");
        reveal_strlit("event");
        let line = "data: "@ + values.last();
        assert(line =~= "data"@ + seq![':', ' '] + values.last());
        lemma_field_line("data"@, values.last());
        assert("data"@.len() != "event"@.len());
        assert(before.push(values.last()) =~= values);
    }
}

proof fn lemma_scan_event(start: Scan, e: EventView)
    requires
        start.data.len() == 0,
        start.event is None,
    ensures
        scan_from(start, event_lines(e)) == (Scan {
            event: None,
            data: Seq::empty(),
            out: start.out.push(e),
        }),
{
    reveal_with_fuel(scan_from, 2);
    let values = text::pieces(e.data, '\n');
    text::lemma_pieces_len(e.data, '\n');
    text::pieces_rejoin(e.data, '\n');
    let end: Seq<Seq<char>> = seq![Seq::empty()];
    lemma_scan_concat(start, name_lines(e) + value_lines(values), end);
    lemma_scan_concat(start, name_lines(e), value_lines(values));
    let named = scan_from(start, name_lines(e));
    assert(named == (Scan { event: e.event, ..start })) by {
        match e.event {
            Some(n) => {
                reveal_strlit("event: ");
                reveal_strlit("event");
                let line = "event: "@ + n;
                assert(line =~= "event"@ + seq![':', ' '] + n);
                lemma_field_line("event"@, n);
                assert(name_lines(e).drop_last() =~= Seq::empty());
                assert(name_lines(e).last() == line);
            },
            None => {},
        }
    }
    lemma_scan_values(named, values);
    let full = scan_from(named, value_lines(values));
    assert(end.drop_last() =~= Seq::empty());
    assert(scan_from(full, end) == step(full, Seq::empty()));
    assert(EventView { event: e.event, data: e.data } == e);
}

proof fn lemma_scan_all(events: Seq<EventView>)
    ensures
        scan_from(no_scan(), all_lines(events)) == (Scan {
            event: None,
            data: Seq::empty(),
            out: events,
        }),
    decreases events.len(),
{
    if events.len() == 0 {
        assert(events =~= Seq::empty());
    } else {
        let before = events.drop_last();
        lemma_scan_all(before);
        lemma_scan_concat(no_scan(), all_lines(before), event_lines(events.last()));
        lemma_scan_event(scan_from(no_scan(), all_lines(before)), events.last());
        assert(before.push(events.last()) =~= events);
    }
}

/// Events sent one after another read back as the same events, in the same
/// order.
pub proof fn sent_events_read_back(events: Seq<EventView>)
    requires
        forall|i: int| 0 <= i < events.len() ==> sendable(#[trigger] events[i]),
    ensures
        events_in(rendered_all(events)) == events,
        sse_events(encode_utf8(rendered_all(events))) == Some(events),
{
    let sent = rendered_all(events);
    let lines = all_lines(events);
    lemma_all_lines(events);
    lemma_all_lines_clean(events);
    lemma_split_unlines(lines);
    lemma_no_mark(events);
    lemma_scan_all(events);
    let end: Seq<Seq<char>> = seq![Seq::empty()];
    assert(lines.push(Seq::empty()).drop_last() =~= lines);
    let read = scan_from(no_scan(), lines);
    assert(scan_from(no_scan(), lines.push(Seq::empty())) == step(read, Seq::empty()));
    encode_utf8_valid_utf8(sent);
    encode_utf8_decode_utf8(sent);
}

/// Sent text starts with a field name, not with a byte order mark.
proof fn lemma_no_mark(events: Seq<EventView>)
    ensures
        without_mark(rendered_all(events)) == rendered_all(events),
    decreases events.len(),
{
    if events.len() > 0 {
        let before = events.drop_last();
        lemma_no_mark(before);
        if rendered_all(before).len() == 0 {
            reveal_strlit("event: ");
            reveal_strlit("data: ");
            let e = events.last();
            let values = text::pieces(e.data, '\n');
            text::lemma_pieces_len(e.data, '\n');
            lemma_data_first(values);
            assert(rendered_all(events) =~= rendered(e));
            match e.event {
                Some(n) => {
                    assert(rendered(e)[0] == 'e');
                },
                None => {
                    assert(rendered(e)[0] == 'd');
                },
            }
        } else {
            assert(rendered_all(events)[0] == rendered_all(before)[0]);
        }
    }
}

proof fn lemma_data_first(values: Seq<Seq<char>>)
    requires
        values.len() > 0,
    ensures
        data_lines(values).len() > 0,
        data_lines(values)[0] == 'd',
    decreases values.len(),
{
    reveal_strlit("data: ");
    if values.len() > 1 {
        lemma_data_first(values.drop_last());
    } else {
        assert(data_lines(values.drop_last()) =~= Seq::empty());
    }
}

proof fn lemma_with_lf_clean(s: Seq<char>)
    ensures
        !with_lf(s).contains('\r'),
    decreases s.len(),
{
    if s.len() > 0 {
        let rest = with_lf(s.drop_last());
        lemma_with_lf_clean(s.drop_last());
        let whole = with_lf(s);
        assert forall|i: int| 0 <= i < whole.len() implies whole[i] != '\r' by {
            if i < rest.len() {
                assert(rest[i] == whole[i]);
            }
        }
    }
}

/// A reader whose events so far could be sent.
spec fn scan_clean(scan: Scan) -> bool {
    &&& scan.event matches Some(n) ==> !n.contains('\n') && !n.contains('\r')
    &&& forall|i: int| 0 <= i < scan.data.len() ==> !(#[trigger] scan.data[i]).contains('\r')
    &&& forall|i: int| 0 <= i < scan.out.len() ==> sendable(#[trigger] scan.out[i])
}

proof fn lemma_joined_clean(parts: Seq<Seq<char>>)
    requires
        forall|i: int| 0 <= i < parts.len() ==> !(#[trigger] parts[i]).contains('\r'),
    ensures
        !text::joined(parts, seq!['\n']).contains('\r'),
    decreases parts.len(),
{
    if parts.len() > 1 {
        let front = parts.drop_last();
        assert forall|i: int| 0 <= i < front.len() implies !(#[trigger] front[i]).contains('\r') by {
            assert(!parts[i].contains('\r'));
        }
        lemma_joined_clean(front);
        let a = text::joined(front, seq!['\n']);
        let b = parts[parts.len() - 1];
        let whole = text::joined(parts, seq!['\n']);
        assert forall|i: int| 0 <= i < whole.len() implies whole[i] != '\r' by {
            if i < a.len() {
                assert(a[i] == whole[i]);
            } else if i > a.len() {
                assert(b[i - a.len() - 1] == whole[i]);
            }
        }
    } else if parts.len() == 1 {
        assert(!parts[0].contains('\r'));
    }
}

proof fn lemma_value_clean(line: Seq<char>, c: char)
    requires
        !line.contains(c),
    ensures
        !field_value(line).contains(c),
{
    let value = field_value(line);
    lemma_colon_range(line);
    assert forall|i: int| 0 <= i < value.len() implies value[i] != c by {
        let rest = line.skip(colon(line) + 1);
        let j = if rest.len() > 0 && rest[0] == ' ' {
            i + 1
        } else {
            i
        };
        assert(value[i] == line[colon(line) + 1 + j]);
    }
}

proof fn lemma_colon_range(line: Seq<char>)
    ensures
        0 <= colon(line) <= line.len(),
    decreases line.len(),
{
    if line.len() > 0 && line[0] != ':' {
        lemma_colon_range(line.skip(1));
    }
}

proof fn lemma_step_clean(scan: Scan, line: Seq<char>)
    requires
        scan_clean(scan),
        !line.contains('\n'),
        !line.contains('\r'),
    ensures
        scan_clean(step(scan, line)),
{
    lemma_value_clean(line, '\n');
    lemma_value_clean(line, '\r');
    lemma_joined_clean(scan.data);
    let after = step(scan, line);
    assert forall|i: int| 0 <= i < after.data.len() implies !(#[trigger] after.data[i]).contains(
        '\r',
    ) by {
        if i < scan.data.len() {
            assert(!scan.data[i].contains('\r'));
        }
    }
    assert forall|i: int| 0 <= i < after.out.len() implies sendable(#[trigger] after.out[i]) by {
        if i < scan.out.len() {
            assert(sendable(scan.out[i]));
        }
    }
}

proof fn lemma_scan_clean(lines: Seq<Seq<char>>)
    requires
        clean(lines),
    ensures
        scan_clean(scan_from(no_scan(), lines)),
    decreases lines.len(),
{
    if lines.len() > 0 {
        let front = lines.drop_last();
        assert forall|i: int| 0 <= i < front.len() implies !(#[trigger] front[i]).contains('\n')
            && !front[i].contains('\r') by {
            assert(!lines[i].contains('\n'));
        }
        lemma_scan_clean(front);
        assert(!lines[lines.len() - 1].contains('\n'));
        lemma_step_clean(scan_from(no_scan(), front), lines.last());
    }
}

/// The events read from any body can be sent: sending them and reading what was
/// sent gives the same events again.
pub proof fn read_events_send_back(body: Seq<u8>)
    requires
        valid_utf8(body),
    ensures
        ({
            let events = sse_events(body)->0;
            &&& forall|i: int| 0 <= i < events.len() ==> sendable(#[trigger] events[i])
            &&& sse_events(encode_utf8(rendered_all(events))) == Some(events)
        }),
{
    let s = with_lf(without_mark(decode_utf8(body)));
    let lines = text::pieces(s, '\n');
    lemma_with_lf_clean(without_mark(decode_utf8(body)));
    text::lemma_pieces_clean(s, '\n', '\r');
    assert(clean(lines));
    lemma_scan_clean(lines);
    lemma_step_clean(scan_from(no_scan(), lines), Seq::empty());
    let events = sse_events(body)->0;
    assert forall|i: int| 0 <= i < events.len() implies sendable(#[trigger] events[i]) by {}
    sent_events_read_back(events);
}

/// An event is written as a line with its name, where it has one, a line for each
/// line of its data, and an empty line.
pub proof fn events_are_written_in_lines(name: Seq<char>, a: Seq<char>, b: Seq<char>)
    requires
        !a.contains('\n'),
        !b.contains('\n'),
    ensures
        rendered(EventView { event: Some(name), data: a }) == "event: "@ + name + "\ndata: "@ + a
            + "\n\n"@,
        rendered(EventView { event: None, data: a }) == "data: "@ + a + "\n\n"@,
        rendered(EventView { event: None, data: a + seq!['\n'] + b }) == "data: "@ + a
            + "\ndata: "@ + b + "\n\n"@,
{
    reveal_strlit("data: ");
    reveal_strlit("\ndata: ");
    reveal_strlit("\n\n");
    lemma_one_piece(a);
    lemma_one_piece(b);
    reveal_with_fuel(data_lines, 3);
    let one = seq![a];
    assert(one.drop_last() =~= Seq::empty());
    assert(data_lines(one) =~= "data: "@ + a + seq!['\n']);
    assert("\ndata: "@ =~= seq!['\n'] + "data: "@);
    assert("\n\n"@ =~= seq!['\n', '\n']);
    assert(rendered(EventView { event: Some(name), data: a }) =~= "event: "@ + name + "\ndata: "@
        + a + "\n\n"@);
    assert(rendered(EventView { event: None, data: a }) =~= "data: "@ + a + "\n\n"@);
    let both = a + seq!['\n'] + b;
    lemma_two_pieces(a, b);
    let two = seq![a, b];
    assert(two.drop_last() =~= one);
    assert(data_lines(two) =~= "data: "@ + a + seq!['\n'] + "data: "@ + b + seq!['\n']);
    assert(rendered(EventView { event: None, data: both }) =~= "data: "@ + a + "\ndata: "@ + b
        + "\n\n"@);
}

proof fn lemma_one_piece(a: Seq<char>)
    requires
        !a.contains('\n'),
    ensures
        text::pieces(a, '\n') == seq![a],
    decreases a.len(),
{
    if a.len() > 0 {
        let front = a.drop_last();
        assert(a.last() != '\n') by {
            assert(a[a.len() - 1] == a.last());
        }
        assert forall|i: int| 0 <= i < front.len() implies front[i] != '\n' by {
            assert(a[i] == front[i]);
        }
        lemma_one_piece(front);
        assert(front.push(a.last()) =~= a);
        assert(seq![front].drop_last() =~= Seq::empty());
        assert(text::pieces(a, '\n') =~= seq![a]);
    } else {
        assert(a =~= Seq::empty());
    }
}

proof fn lemma_two_pieces(a: Seq<char>, b: Seq<char>)
    requires
        !a.contains('\n'),
        !b.contains('\n'),
    ensures
        text::pieces(a + seq!['\n'] + b, '\n') == seq![a, b],
    decreases b.len(),
{
    let s = a + seq!['\n'] + b;
    lemma_one_piece(a);
    if b.len() == 0 {
        assert(s.drop_last() =~= a);
        assert(s.last() == '\n');
        assert(b =~= Seq::empty());
        assert(text::pieces(s, '\n') =~= seq![a, b]);
    } else {
        let front = b.drop_last();
        assert(b.last() != '\n') by {
            assert(b[b.len() - 1] == b.last());
        }
        assert forall|i: int| 0 <= i < front.len() implies front[i] != '\n' by {
            assert(b[i] == front[i]);
        }
        lemma_two_pieces(a, front);
        assert(s.drop_last() =~= a + seq!['\n'] + front);
        assert(s.last() == b.last());
        assert(seq![a, front].drop_last() =~= seq![a]);
        assert(front.push(b.last()) =~= b);
        assert(text::pieces(s, '\n') =~= seq![a, b]);
    }
}

/// What a line does to the event that is read: a data line adds to its data, an
/// event line names it, an empty line ends it, and a comment or any other field
/// leaves it as it was. One blank behind the colon is not part of the value.
pub proof fn lines_are_read(scan: Scan, name: Seq<char>, value: Seq<char>)
    ensures
        step(scan, "data: "@ + value) == (Scan { data: scan.data.push(value), ..scan }),
        step(scan, "event: "@ + value) == (Scan { event: Some(value), ..scan }),
        value.len() == 0 || value[0] != ' ' ==> step(scan, "data:"@ + value) == (Scan {
            data: scan.data.push(value),
            ..scan
        }),
        step(scan, seq![':'] + value) == scan,
        !name.contains(':') && name.len() > 0 && name != "data"@ && name != "event"@ ==> step(
            scan,
            name + seq![':', ' '] + value,
        ) == scan,
        scan.data.len() == 0 ==> step(scan, Seq::empty()) == (Scan {
            event: None,
            data: Seq::empty(),
            out: scan.out,
        }),
        scan.data.len() == 1 ==> step(scan, Seq::empty()) == (Scan {
            event: None,
            data: Seq::empty(),
            out: scan.out.push(EventView { event: scan.event, data: scan.data[0] }),
        }),
        scan.data.len() == 2 ==> step(scan, Seq::empty()) == (Scan {
            event: None,
            data: Seq::empty(),
            out: scan.out.push(
                EventView {
                    event: scan.event,
                    data: scan.data[0] + seq!['\n'] + scan.data[1],
                },
            ),
        }),
{
    reveal_strlit("data");
    reveal_strlit("event");
    reveal_strlit("data:");
    reveal_strlit("data: ");
    reveal_strlit("event: ");
    assert("data"@.len() == 4 && "event"@.len() == 5);
    assert(!"data"@.contains(':'));
    assert(!"event"@.contains(':'));
    lemma_field_line("data"@, value);
    lemma_field_line("event"@, value);
    assert("data: "@ + value =~= "data"@ + seq![':', ' '] + value);
    assert("event: "@ + value =~= "event"@ + seq![':', ' '] + value);
    if value.len() == 0 || value[0] != ' ' {
        let line = "data:"@ + value;
        lemma_colon_at(line, 4);
        assert(line.take(4) =~= "data"@);
        assert(line.skip(5) =~= value);
    }
    if !name.contains(':') && name.len() > 0 {
        lemma_field_line(name, value);
        let line = name + seq![':', ' '] + value;
        assert(line[0] == name[0]);
        assert(name[0] != ':');
    }
    if scan.data.len() == 2 {
        assert(scan.data.drop_last() =~= seq![scan.data[0]]);
        assert(text::joined(seq![scan.data[0]], seq!['\n']) == scan.data[0]);
    }
}

proof fn lemma_with_lf_concat(p: Seq<char>, q: Seq<char>)
    requires
        p.len() == 0 || p.last() != '\r' || q.len() == 0 || q[0] != '\n',
    ensures
        with_lf(p + q) == with_lf(p) + with_lf(q),
    decreases q.len(),
{
    if q.len() == 0 {
        assert(p + q =~= p);
        assert(with_lf(p) + with_lf(q) =~= with_lf(p));
    } else {
        let front = q.drop_last();
        assert(front.len() > 0 ==> front[0] == q[0]);
        lemma_with_lf_concat(p, front);
        let s = p + q;
        assert(s.drop_last() =~= p + front);
        assert(s.last() == q.last());
        if s.len() > 1 && q.len() > 1 {
            assert(s[s.len() - 2] == q[q.len() - 2]);
        } else if s.len() > 1 {
            assert(s[s.len() - 2] == p.last());
        }
        assert(with_lf(s) =~= with_lf(p) + with_lf(q));
    }
}

/// How a body ends its lines does not matter: a carriage return with a line feed
/// behind it, and a carriage return alone, read as a line feed.
pub proof fn line_endings_do_not_matter(a: Seq<char>, b: Seq<char>)
    requires
        a.len() == 0 || a.last() != '\r',
        b.len() == 0 || b[0] != '\n',
    ensures
        events_in(a + seq!['\r', '\n'] + b) == events_in(a + seq!['\n'] + b),
        events_in(a + seq!['\r'] + b) == events_in(a + seq!['\n'] + b),
{
    let lf = seq!['\n'];
    let cr = seq!['\r'];
    let both = seq!['\r', '\n'];
    reveal_with_fuel(with_lf, 3);
    assert(lf.drop_last() =~= Seq::empty());
    assert(cr.drop_last() =~= Seq::empty());
    assert(both.drop_last() =~= cr);
    assert(with_lf(lf) =~= lf);
    assert(with_lf(cr) =~= lf);
    assert(with_lf(both) =~= lf);
    let c = if a.len() > 0 && a[0] == '\u{feff}' {
        a.skip(1)
    } else {
        a
    };
    assert(without_mark(a + lf + b) =~= c + lf + b);
    assert(without_mark(a + cr + b) =~= c + cr + b);
    assert(without_mark(a + both + b) =~= c + both + b);
    lemma_with_lf_concat(c, lf);
    lemma_with_lf_concat(c, cr);
    lemma_with_lf_concat(c, both);
    lemma_with_lf_concat(c + lf, b);
    lemma_with_lf_concat(c + cr, b);
    lemma_with_lf_concat(c + both, b);
}

/// A byte order mark in front of a body is passed over.
pub proof fn byte_order_mark_is_passed_over(s: Seq<char>)
    requires
        s.len() == 0 || s[0] != '\u{feff}',
    ensures
        events_in(seq!['\u{feff}'] + s) == events_in(s),
{
    assert((seq!['\u{feff}'] + s).skip(1) =~= s);
}

/// A body is read line by line, and its end ends an event as an empty line does.
pub proof fn bodies_are_read_line_by_line(s: Seq<char>)
    requires
        !s.contains('\r'),
        s.len() == 0 || s[0] != '\u{feff}',
    ensures
        events_in(s) == events_in(s + seq!['\n']),
{
    let lf = seq!['\n'];
    let t = s + lf;
    lemma_no_cr(s);
    assert(!t.contains('\r')) by {
        assert forall|i: int| 0 <= i < t.len() implies t[i] != '\r' by {
            if i < s.len() {
                assert(t[i] == s[i]);
                assert(s.contains(s[i]));
            }
        }
    }
    lemma_no_cr(t);
    assert(t.drop_last() =~= s);
    let lines = text::pieces(s, '\n');
    assert(text::pieces(t, '\n') == lines.push(Seq::empty()));
    assert(lines.push(Seq::<char>::empty()).drop_last() =~= lines);
    let read = scan_from(no_scan(), lines);
    let ended = step(read, Seq::empty());
    assert(step(ended, Seq::empty()).out == ended.out);
}

} // verus!
