//! Reading and writing JSON text through `serde_json`.

use vstd::prelude::*;
use vstd::utf8::*;

use crate::json;
use crate::json::{copy_number, Json, JsonView, Members, NumberView};
use crate::text;
use crate::text::same;

verus! {

/// `serde_json::Value`: a JSON value.
#[verifier::external_type_specification]
#[verifier::external_body]
pub struct ExValue(serde_json::Value);

/// The value that a `serde_json::Value` holds. Without the crate's
/// `preserve_order` feature its objects are sorted maps, so member order is no
/// part of a value.
pub uninterp spec fn value_contents(v: serde_json::Value) -> JsonView;

/// What `serde_json::from_slice` reads: the value, or the error's text.
pub uninterp spec fn json_parse(bytes: Seq<u8>) -> Result<JsonView, Seq<char>>;

/// The compact text that renders a value.
pub uninterp spec fn json_text(v: JsonView) -> Seq<char>;

/// The indented text that renders a value.
pub uninterp spec fn json_pretty(v: JsonView) -> Seq<char>;

/// One level of a `serde_json::Value`.
pub enum Layer {
    Null,
    Bool(bool),
    Num(serde_json::Number),
    Str(String),
    Array(Vec<serde_json::Value>),
    Object(Vec<(String, serde_json::Value)>),
}

/// The values that a list of `serde_json` values holds.
pub open spec fn values_view(items: Seq<serde_json::Value>) -> Seq<JsonView> {
    Seq::new(items.len(), |i: int| value_contents(items[i]))
}

/// The map that a list of entries stands for.
pub open spec fn entries_view(entries: Seq<(String, serde_json::Value)>) -> Map<
    Seq<char>,
    JsonView,
>
    decreases entries.len(),
{
    if entries.len() == 0 {
        Map::empty()
    } else {
        entries_view(entries.drop_last()).insert(
            entries.last().0@,
            value_contents(entries.last().1),
        )
    }
}

/// Whether no two entries have the same name.
pub open spec fn names_differ(entries: Seq<(String, serde_json::Value)>) -> bool {
    forall|i: int, j: int|
        0 <= i < j < entries.len() ==> (#[trigger] entries[i]).0@ != (#[trigger] entries[j]).0@
}

/// The value that one level stands for.
pub open spec fn layer_value(layer: Layer) -> JsonView {
    match layer {
        Layer::Null => JsonView::Null,
        Layer::Bool(b) => JsonView::Bool(b),
        Layer::Num(n) => JsonView::Num(json::number_value(n)),
        Layer::Str(s) => JsonView::Str(s@),
        Layer::Array(items) => JsonView::Array(values_view(items@)),
        Layer::Object(entries) => JsonView::Object(entries_view(entries@)),
    }
}

/// Whether an object's first member, in sorted order, has the name that
/// `serde_json` keeps for raw text.
pub open spec fn marks_raw(m: Map<Seq<char>, JsonView>) -> bool {
    &&& m.contains_key("$serde_json::private::RawValue"@)
    &&& forall|k: Seq<char>| #[trigger]
        m.contains_key(k) && k != "$serde_json::private::RawValue"@ ==> text::precedes(
            "$serde_json::private::RawValue"@,
            k,
        )
}

/// Whether a value nests at most `levels` arrays and objects, its floating-point
/// numbers each read back from their own text, and no object in it is marked as
/// raw text: such a value survives being written and read.
pub open spec fn survives(v: JsonView, levels: nat) -> bool
    decreases v,
{
    match v {
        JsonView::Num(NumberView::Int(i)) => i64::MIN <= i <= u64::MAX,
        JsonView::Num(NumberView::Float(t)) => json::number_in_text(t) == Some(
            NumberView::Float(t),
        ),
        JsonView::Array(items) => levels > 0 && forall|i: int|
            0 <= i < items.len() ==> survives(#[trigger] items[i], (levels - 1) as nat),
        JsonView::Object(m) => levels > 0 && m.dom().finite() && !marks_raw(m) && forall|
            k: Seq<char>,
        | #[trigger]
            m.contains_key(k) ==> survives(m[k], (levels - 1) as nat),
        _ => true,
    }
}

/// An object whose member names are short survives where its members do.
pub(crate) proof fn lemma_object_survives(m: Map<Seq<char>, JsonView>, levels: nat)
    requires
        levels > 0,
        m.dom().finite(),
        forall|k: Seq<char>| #[trigger]
            m.contains_key(k) ==> k.len() < 30 && survives(m[k], (levels - 1) as nat),
    ensures
        survives(JsonView::Object(m), levels),
{
    reveal_strlit("$serde_json::private::RawValue");
    assert("$serde_json::private::RawValue"@.len() == 30);
    assert(!m.contains_key("$serde_json::private::RawValue"@));
}

/// Reading gave the value `v`.
pub open spec fn read_ok(outcome: Result<JsonView, Seq<char>>, v: JsonView) -> bool {
    outcome == Ok::<JsonView, Seq<char>>(v)
}

/// Reading failed with the error text `e`.
pub open spec fn read_err(outcome: Result<JsonView, Seq<char>>, e: Seq<char>) -> bool {
    outcome == Err::<JsonView, Seq<char>>(e)
}

/// Matching on a `serde_json::Value`, one level deep. The names in an object
/// differ.
#[verifier::external_body]
fn open_value(v: serde_json::Value) -> (r: Layer)
    ensures
        value_contents(v) == layer_value(r),
        r matches Layer::Object(entries) ==> names_differ(entries@),
{
    match v {
        serde_json::Value::Null => Layer::Null,
        serde_json::Value::Bool(b) => Layer::Bool(b),
        serde_json::Value::Number(n) => Layer::Num(n),
        serde_json::Value::String(s) => Layer::Str(s),
        serde_json::Value::Array(items) => Layer::Array(items),
        serde_json::Value::Object(members) => Layer::Object(members.into_iter().collect()),
    }
}

/// Building a `serde_json::Value` from one level.
#[verifier::external_body]
fn close_value(layer: Layer) -> (r: serde_json::Value)
    requires
        layer matches Layer::Object(entries) ==> names_differ(entries@),
    ensures
        value_contents(r) == layer_value(layer),
{
    match layer {
        Layer::Null => serde_json::Value::Null,
        Layer::Bool(b) => serde_json::Value::Bool(b),
        Layer::Num(n) => serde_json::Value::Number(n),
        Layer::Str(s) => serde_json::Value::String(s),
        Layer::Array(items) => serde_json::Value::Array(items),
        Layer::Object(entries) => serde_json::Value::Object(entries.into_iter().collect()),
    }
}

/// `serde_json::from_slice` into a `Value`, with the error as its text. It reads
/// no value from an empty slice.
#[verifier::external_body]
fn read_value(bytes: &[u8]) -> (r: Result<serde_json::Value, String>)
    ensures
        match r {
            Ok(v) => read_ok(json_parse(bytes@), value_contents(v)),
            Err(e) => read_err(json_parse(bytes@), e@),
        },
        bytes@.len() == 0 ==> r is Err,
{
    serde_json::from_slice(bytes).map_err(|e| e.to_string())
}

/// `serde_json::Value::to_string` writes compact text. It is not empty, no
/// character below the space is in it, since control characters in strings are
/// escaped, and the text of an object starts with a brace. Reading the text gives
/// the value back, where the value is within the reader's limit of nested levels,
/// names no first member as the crate marks raw text, and holds only such
/// floating-point numbers as `serde_json::Number::from_str` reads back from the
/// text that renders them: the reader rounds some, and reads a number in a
/// document as it reads it alone.
#[verifier::external_body]
fn write_value(v: &serde_json::Value) -> (r: String)
    ensures
        r@ == json_text(value_contents(*v)),
        forall|i: int| 0 <= i < r@.len() ==> #[trigger] r@[i] >= ' ',
        r@.len() > 0,
        value_contents(*v) is Object ==> r@[0] == '{',
        survives(value_contents(*v), 127) ==> read_ok(
            json_parse(encode_utf8(r@)),
            value_contents(*v),
        ),
{
    v.to_string()
}

/// `serde_json::to_string_pretty` of a `Value` writes indented text; it has no
/// failing case for such a value. Reading the text with a line feed behind it gives
/// the value back, where the compact text would.
#[verifier::external_body]
fn write_pretty(v: &serde_json::Value) -> (r: String)
    ensures
        r@ == json_pretty(value_contents(*v)),
        survives(value_contents(*v), 127) ==> read_ok(
            json_parse(encode_utf8(r@.push('\n'))),
            value_contents(*v),
        ),
{
    serde_json::to_string_pretty(v).unwrap_or_default()
}

/// `serde_json::Value::sort_all_objects` reorders members and keeps the value.
#[verifier::external_body]
fn sort_members(v: &mut serde_json::Value)
    ensures
        value_contents(*final(v)) == value_contents(*old(v)),
{
    v.sort_all_objects()
}

proof fn lemma_entry(entries: Seq<(String, serde_json::Value)>, i: int)
    requires
        names_differ(entries),
        0 <= i < entries.len(),
    ensures
        entries_view(entries).contains_key(entries[i].0@),
        entries_view(entries)[entries[i].0@] == value_contents(entries[i].1),
    decreases entries.len(),
{
    if i < entries.len() - 1 {
        lemma_entry(entries.drop_last(), i);
        assert(entries.drop_last()[i] == entries[i]);
        assert(entries[i].0@ != entries.last().0@);
    }
}

proof fn lemma_entries_finite(entries: Seq<(String, serde_json::Value)>)
    ensures
        entries_view(entries).dom().finite(),
    decreases entries.len(),
{
    if entries.len() > 0 {
        lemma_entries_finite(entries.drop_last());
    }
}

/// The library's own form of a `serde_json` value.
fn json_of(v: serde_json::Value) -> (r: Json)
    ensures
        r@ == value_contents(v),
    decreases value_contents(v),
{
    match open_value(v) {
        Layer::Null => Json::Null,
        Layer::Bool(b) => Json::Bool(b),
        Layer::Num(n) => Json::Num(n),
        Layer::Str(s) => Json::Str(s),
        Layer::Array(items) => {
            let ghost all = items@;
            let mut out: Vec<Json> = Vec::new();
            for item in it: items
                invariant
                    it.seq() == all,
                    value_contents(v) == JsonView::Array(values_view(all)),
                    json::items_view(out@) =~= values_view(all).take(it.index() as int),
            {
                proof {
                    let whole = value_contents(v);
                    assert(whole->Array_0 == values_view(all));
                    assert(values_view(all)[it.index() as int] == value_contents(item));
                    assert(decreases_to!(whole => whole->Array_0));
                    assert(decreases_to!(whole->Array_0 => whole->Array_0[it.index() as int]));
                }
                let ghost before = out@;
                out.push(json_of(item));
                assert(json::items_view(out@) =~= json::items_view(before).push(value_contents(item)));
            }
            assert(json::items_view(out@) =~= values_view(all));
            Json::Array(out)
        },
        Layer::Object(entries) => {
            let ghost all = entries@;
            let mut out = Members { entries: Vec::new() };
            for entry in it: entries
                invariant
                    it.seq() == all,
                    names_differ(all),
                    value_contents(v) == JsonView::Object(entries_view(all)),
                    json::members_view(out.entries@) == entries_view(all.take(it.index() as int)),
            {
                proof {
                    lemma_entry(all, it.index() as int);
                    lemma_entries_finite(all);
                    let whole = value_contents(v);
                    let name = all[it.index() as int].0@;
                    assert(whole->Object_0 == entries_view(all));
                    assert(decreases_to!(whole => whole->Object_0));
                    assert(decreases_to!(whole->Object_0 => whole->Object_0[name]));
                    assert(all.take(it.index() as int + 1).drop_last() =~= all.take(
                        it.index() as int,
                    ));
                }
                let (name, value) = entry;
                let child = json_of(value);
                let ghost before = out.entries@;
                out.entries.push((name, child));
                assert(out.entries@.drop_last() =~= before);
            }
            assert(all.take(all.len() as int) =~= all);
            Json::Object(out)
        },
    }
}

/// Whether an entry is named `name`.
fn has_entry(entries: &Vec<(String, serde_json::Value)>, name: &str) -> (r: bool)
    ensures
        r == entries_view(entries@).contains_key(name@),
{
    for i in 0..entries.len()
        invariant
            !entries_view(entries@.take(i as int)).contains_key(name@),
    {
        assert(entries@.take(i + 1).drop_last() =~= entries@.take(i as int));
        if same(entries[i].0.as_str(), name) {
            proof {
                lemma_entries_name(entries@, i as int);
            }
            return true;
        }
    }
    assert(entries@.take(entries@.len() as int) =~= entries@);
    false
}

proof fn lemma_entries_name(entries: Seq<(String, serde_json::Value)>, i: int)
    requires
        0 <= i < entries.len(),
    ensures
        entries_view(entries).contains_key(entries[i].0@),
    decreases entries.len(),
{
    if i < entries.len() - 1 {
        lemma_entries_name(entries.drop_last(), i);
    }
}

/// The `serde_json` form of a value.
fn value_of(j: &Json) -> (r: serde_json::Value)
    ensures
        value_contents(r) == j@,
    decreases j@,
{
    match j {
        Json::Null => close_value(Layer::Null),
        Json::Bool(b) => close_value(Layer::Bool(*b)),
        Json::Num(n) => close_value(Layer::Num(copy_number(n))),
        Json::Str(s) => close_value(Layer::Str(s.clone())),
        Json::Array(items) => {
            let mut out: Vec<serde_json::Value> = Vec::new();
            for i in 0..items.len()
                invariant
                    j@ == JsonView::Array(json::items_view(items@)),
                    values_view(out@) =~= json::items_view(items@).take(i as int),
            {
                proof {
                    let whole = j@;
                    assert(json::items_view(items@)[i as int] == items@[i as int]@);
                    assert(decreases_to!(whole => whole->Array_0));
                    assert(decreases_to!(whole->Array_0 => whole->Array_0[i as int]));
                }
                let ghost before = out@;
                out.push(value_of(&items[i]));
                assert(values_view(out@) =~= values_view(before).push(items@[i as int]@));
            }
            assert(values_view(out@) =~= json::items_view(items@));
            close_value(Layer::Array(out))
        },
        Json::Object(members) => {
            let mut out: Vec<(String, serde_json::Value)> = Vec::new();
            for i in 0..members.entries.len()
                invariant
                    j@ == JsonView::Object(members@),
                    names_differ(out@),
                    forall|k: Seq<char>| #[trigger]
                        entries_view(out@).contains_key(k) ==> members@.contains_key(k)
                            && members@[k] == entries_view(out@)[k],
                    forall|n: int|
                        0 <= n < i ==> entries_view(out@).contains_key(
                            (#[trigger] members.entries@[n]).0@,
                        ),
            {
                let name = &members.entries[i].0;
                if !has_entry(&out, name.as_str()) {
                    proof {
                        json::lemma_members_name(members.entries@, i as int);
                        json::lemma_members_finite(members.entries@);
                        let whole = j@;
                        assert(decreases_to!(whole => whole->Object_0));
                        assert(decreases_to!(whole->Object_0 => whole->Object_0[name@]));
                    }
                    match members.get(name.as_str()) {
                        Some(child) => {
                            let value = value_of(child);
                            let ghost before = out@;
                            proof {
                                assert forall|n: int| 0 <= n < before.len() implies (
                                #[trigger] before[n]).0@ != name@ by {
                                    lemma_entries_name(before, n);
                                }
                            }
                            out.push((name.clone(), value));
                            assert(out@.drop_last() =~= before);
                        },
                        None => {},
                    }
                }
            }
            proof {
                assert forall|k: Seq<char>| #[trigger] members@.contains_key(k) implies entries_view(
                    out@,
                ).contains_key(k) by {
                    let n = json::lemma_members_source(members.entries@, k);
                    assert(members.entries@[n].0@ == k);
                }
                assert(entries_view(out@) =~= members@);
            }
            close_value(Layer::Object(out))
        },
    }
}

/// Reads a JSON value; the error is the reader's own text.
pub fn parse(bytes: &[u8]) -> (r: Result<Json, String>)
    ensures
        match r {
            Ok(j) => read_ok(json_parse(bytes@), j@),
            Err(e) => read_err(json_parse(bytes@), e@),
        },
        bytes@.len() == 0 ==> r is Err,
{
    match read_value(bytes) {
        Ok(v) => Ok(json_of(v)),
        Err(e) => Err(e),
    }
}

/// Reads a JSON value from text.
pub fn parse_text(text: &str) -> (r: Result<Json, String>)
    ensures
        match r {
            Ok(j) => read_ok(json_parse(encode_utf8(text@)), j@),
            Err(e) => read_err(json_parse(encode_utf8(text@)), e@),
        },
        text@.len() == 0 ==> r is Err,
{
    assert(text@.len() == 0 ==> encode_utf8(text@) =~= Seq::<u8>::empty());
    parse(text.as_bytes())
}

/// What is known of the text of a value that was written: it stands on one
/// line and is not empty, that of an object starts with a brace, and it reads back where the
/// value survives that.
pub open spec fn legible(v: JsonView) -> bool {
    &&& forall|i: int| 0 <= i < json_text(v).len() ==> #[trigger] json_text(v)[i] >= ' '
    &&& json_text(v).len() > 0
    &&& v is Object ==> json_text(v)[0] == '{'
    &&& survives(v, 127) ==> read_ok(json_parse(encode_utf8(json_text(v))), v)
}

/// Writes a JSON value as compact text; what is written reads back.
pub fn render(j: &Json) -> (r: String)
    ensures
        r@ == json_text(j@),
        legible(j@),
{
    write_value(&value_of(j))
}

/// Writes a JSON value as indented text; with a line feed behind it, it reads
/// back.
pub fn render_pretty(j: &Json) -> (r: String)
    ensures
        r@ == json_pretty(j@),
        survives(j@, 127) ==> read_ok(json_parse(encode_utf8(r@.push('\n'))), j@),
{
    write_pretty(&value_of(j))
}

/// Reads a JSON value and writes it back with its members in sorted order.
pub fn canonical_text(bytes: &[u8]) -> (r: Result<String, String>)
    ensures
        match r {
            Ok(t) => json_parse(bytes@) is Ok && t@ == json_text(json_parse(bytes@)->Ok_0)
                && legible(json_parse(bytes@)->Ok_0),
            Err(e) => read_err(json_parse(bytes@), e@),
        },
{
    match read_value(bytes) {
        Ok(v) => {
            let mut sorted = v;
            sort_members(&mut sorted);
            Ok(write_value(&sorted))
        },
        Err(e) => Err(e),
    }
}

} // verus!
