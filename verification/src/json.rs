//! JSON values as plain data, with the mathematical value each of them denotes.

use vstd::prelude::*;

use crate::text;
use crate::text::same;

verus! {

/// `serde_json::Number`: an integer or a finite floating-point number.
#[verifier::external_type_specification]
#[verifier::external_body]
pub struct ExNumber(serde_json::Number);

/// A JSON number: an integer between the bounds of `i64` and `u64`, or a
/// floating-point number, known by the text that renders it.
pub enum NumberView {
    Int(int),
    Float(Seq<char>),
}

/// A JSON value. Objects are maps: member order carries no meaning.
#[verifier::ext_equal]
pub enum JsonView {
    Null,
    Bool(bool),
    Num(NumberView),
    Str(Seq<char>),
    Array(Seq<JsonView>),
    Object(Map<Seq<char>, JsonView>),
}

/// What a `serde_json::Number` denotes.
pub uninterp spec fn number_value(n: serde_json::Number) -> NumberView;

/// What `serde_json::Number` reads from a text, where it reads a number.
pub uninterp spec fn number_in_text(text: Seq<char>) -> Option<NumberView>;

/// A JSON value in memory.
#[derive(Debug)]
pub enum Json {
    Null,
    Bool(bool),
    Num(serde_json::Number),
    Str(String),
    Array(Vec<Json>),
    Object(Members),
}

/// The members of a JSON object. A later entry replaces an earlier one of the
/// same name.
#[derive(Debug)]
pub struct Members {
    pub entries: Vec<(String, Json)>,
}

/// The map that a list of members stands for.
pub open spec fn members_view(entries: Seq<(String, Json)>) -> Map<Seq<char>, JsonView>
    decreases entries,
{
    if entries.len() == 0 {
        Map::empty()
    } else {
        members_view(entries.drop_last()).insert(entries.last().0@, entries.last().1.view())
    }
}

/// The values that a list of JSON values denotes.
pub open spec fn items_view(items: Seq<Json>) -> Seq<JsonView>
    decreases items,
{
    Seq::new(
        items.len(),
        |i: int|
            if 0 <= i < items.len() {
                items[i].view()
            } else {
                JsonView::Null
            },
    )
}

impl Json {
    /// The value denoted.
    pub open spec fn view(&self) -> JsonView
        decreases self,
    {
        match self {
            Json::Null => JsonView::Null,
            Json::Bool(b) => JsonView::Bool(*b),
            Json::Num(n) => JsonView::Num(number_value(*n)),
            Json::Str(s) => JsonView::Str(s@),
            Json::Array(items) => JsonView::Array(items_view(items@)),
            Json::Object(members) => JsonView::Object(members_view(members.entries@)),
        }
    }
}

impl Members {
    /// The map denoted.
    pub open spec fn view(&self) -> Map<Seq<char>, JsonView> {
        members_view(self.entries@)
    }
}

impl JsonView {
    /// The member `key`, where this is an object that has it.
    pub open spec fn get(self, key: Seq<char>) -> Option<JsonView> {
        match self {
            JsonView::Object(m) if m.contains_key(key) => Some(m[key]),
            _ => None,
        }
    }

    /// The member `key`, or null.
    pub open spec fn at(self, key: Seq<char>) -> JsonView {
        match self.get(key) {
            Some(v) => v,
            None => JsonView::Null,
        }
    }

    /// The text of a string.
    pub open spec fn as_str(self) -> Option<Seq<char>> {
        match self {
            JsonView::Str(s) => Some(s),
            _ => None,
        }
    }

    /// The text of a string member, or no text at all.
    pub open spec fn text_at(self, key: Seq<char>) -> Seq<char> {
        match self.at(key) {
            JsonView::Str(s) => s,
            _ => Seq::empty(),
        }
    }

    /// A boolean.
    pub open spec fn as_bool(self) -> Option<bool> {
        match self {
            JsonView::Bool(b) => Some(b),
            _ => None,
        }
    }

    /// An integer that fits in a `u64`.
    pub open spec fn as_u64(self) -> Option<u64> {
        match self {
            JsonView::Num(NumberView::Int(n)) if 0 <= n <= u64::MAX => Some(n as u64),
            _ => None,
        }
    }

    /// The items of an array; none where it is no array.
    pub open spec fn items(self) -> Seq<JsonView> {
        match self {
            JsonView::Array(items) => items,
            _ => Seq::empty(),
        }
    }
}

/// Whether two numbers compare equal: the two floating-point zeros do.
pub open spec fn numbers_equal(a: NumberView, b: NumberView) -> bool {
    a == b || (float_zero(a) && float_zero(b))
}

/// A floating-point zero of either sign.
pub open spec fn float_zero(n: NumberView) -> bool {
    n == NumberView::Float("0.0"@) || n == NumberView::Float("-0.0"@)
}

/// `serde_json::Number::from(u64)` is that integer.
#[verifier::external_body]
pub(crate) fn number_of(n: u64) -> (r: serde_json::Number)
    ensures
        number_value(r) == NumberView::Int(n as int),
{
    serde_json::Number::from(n)
}

/// `serde_json::Number::as_u64` gives the integers that fit, and nothing for a
/// negative or floating-point number.
#[verifier::external_body]
pub(crate) fn number_as_u64(n: &serde_json::Number) -> (r: Option<u64>)
    ensures
        r == JsonView::Num(number_value(*n)).as_u64(),
{
    n.as_u64()
}

/// `serde_json::Number::eq`: integers compare by value, floating-point numbers
/// by value with the two zeros equal, and an integer equals no such number.
#[verifier::external_body]
pub(crate) fn same_number(a: &serde_json::Number, b: &serde_json::Number) -> (r: bool)
    ensures
        r == numbers_equal(number_value(*a), number_value(*b)),
{
    a.eq(b)
}

/// `serde_json::Number::clone` is the same number.
#[verifier::external_body]
pub(crate) fn copy_number(n: &serde_json::Number) -> (r: serde_json::Number)
    ensures
        number_value(r) == number_value(*n),
{
    n.clone()
}

/// `serde_json::Number::from_str` reads a text as a JSON number. What it reads from
/// `1.0` is the floating-point number that renders so.
#[verifier::external_body]
pub(crate) fn number_from_text(text: &str) -> (r: Option<serde_json::Number>)
    ensures
        r is Some <==> number_in_text(text@) is Some,
        r matches Some(n) ==> number_in_text(text@) == Some(number_value(n)),
        text@ == "1.0"@ ==> r is Some && number_value(r->0) == NumberView::Float("1.0"@),
{
    text.parse().ok()
}

/// What an optional reference to a JSON value denotes.
pub open spec fn opt_json(v: Option<&Json>) -> Option<JsonView> {
    match v {
        Some(j) => Some(j@),
        None => None,
    }
}

proof fn lemma_members_push(entries: Seq<(String, Json)>, e: (String, Json))
    ensures
        members_view(entries.push(e)) == members_view(entries).insert(e.0@, e.1@),
{
    assert(entries.push(e).drop_last() =~= entries);
}

pub(crate) proof fn lemma_members_name(entries: Seq<(String, Json)>, i: int)
    requires
        0 <= i < entries.len(),
    ensures
        members_view(entries).contains_key(entries[i].0@),
    decreases entries.len(),
{
    if i < entries.len() - 1 {
        lemma_members_name(entries.drop_last(), i);
    }
}

pub(crate) proof fn lemma_members_source(entries: Seq<(String, Json)>, k: Seq<char>) -> (i: int)
    requires
        members_view(entries).contains_key(k),
    ensures
        0 <= i < entries.len(),
        entries[i].0@ == k,
    decreases entries.len(),
{
    if entries.last().0@ == k {
        entries.len() - 1
    } else {
        lemma_members_source(entries.drop_last(), k)
    }
}

pub(crate) proof fn lemma_members_finite(entries: Seq<(String, Json)>)
    ensures
        members_view(entries).dom().finite(),
    decreases entries.len(),
{
    if entries.len() > 0 {
        lemma_members_finite(entries.drop_last());
    }
}

impl Members {
    /// An object without members.
    pub fn new() -> (r: Members)
        ensures
            r@ == Map::<Seq<char>, JsonView>::empty(),
    {
        Members { entries: Vec::new() }
    }

    /// Sets the member `key`.
    pub fn set(&mut self, key: &str, value: Json)
        ensures
            final(self)@ == old(self)@.insert(key@, value@),
    {
        let name = key.to_owned();
        proof {
            lemma_members_push(self.entries@, (name, value));
        }
        self.entries.push((name, value));
    }

    /// The object with the member `key` set.
    pub fn with(self, key: &str, value: Json) -> (r: Members)
        ensures
            r@ == self@.insert(key@, value@),
    {
        let mut members = self;
        members.set(key, value);
        members
    }

    /// The member `key`.
    pub fn get(&self, key: &str) -> (r: Option<&Json>)
        ensures
            opt_json(r) == (if self@.contains_key(key@) {
                Some(self@[key@])
            } else {
                None
            }),
    {
        let mut i: usize = self.entries.len();
        assert(self.entries@.take(i as int) =~= self.entries@);
        while i > 0
            invariant
                i <= self.entries.len(),
                self@.contains_key(key@) == members_view(self.entries@.take(i as int)).contains_key(
                    key@,
                ),
                self@.contains_key(key@) ==> self@[key@] == members_view(
                    self.entries@.take(i as int),
                )[key@],
            decreases i,
        {
            proof {
                let now = self.entries@.take(i as int);
                assert(now.drop_last() =~= self.entries@.take(i - 1));
                assert(now.last() == self.entries@[i - 1]);
            }
            i = i - 1;
            if same(self.entries[i].0.as_str(), key) {
                return Some(&self.entries[i].1);
            }
        }
        None
    }
}

impl Json {
    /// A string.
    pub fn text(s: &str) -> (r: Json)
        ensures
            r@ == JsonView::Str(s@),
    {
        Json::Str(s.to_owned())
    }

    /// An integer.
    pub fn uint(n: u64) -> (r: Json)
        ensures
            r@ == JsonView::Num(NumberView::Int(n as int)),
    {
        Json::Num(number_of(n))
    }

    /// The member `key`, where this is an object that has it.
    pub fn get(&self, key: &str) -> (r: Option<&Json>)
        ensures
            opt_json(r) == self@.get(key@),
    {
        match self {
            Json::Object(members) => members.get(key),
            _ => None,
        }
    }

    /// The text of a string.
    pub fn as_str(&self) -> (r: Option<&str>)
        ensures
            text::opt_str(r) == self@.as_str(),
    {
        match self {
            Json::Str(s) => Some(s.as_str()),
            _ => None,
        }
    }

    /// An integer that fits.
    pub fn as_u64(&self) -> (r: Option<u64>)
        ensures
            r == self@.as_u64(),
    {
        match self {
            Json::Num(n) => number_as_u64(n),
            _ => None,
        }
    }

    /// A boolean.
    pub fn as_bool(&self) -> (r: Option<bool>)
        ensures
            r == self@.as_bool(),
    {
        match self {
            Json::Bool(b) => Some(*b),
            _ => None,
        }
    }

    /// The text of the string member `key`.
    pub fn str_at(&self, key: &str) -> (r: Option<&str>)
        ensures
            text::opt_str(r) == self@.at(key@).as_str(),
    {
        match self.get(key) {
            Some(v) => v.as_str(),
            None => None,
        }
    }

    /// The text of the string member `key`, or no text at all.
    pub fn text_at(&self, key: &str) -> (r: &str)
        ensures
            r@ == self@.text_at(key@),
    {
        proof {
            reveal_strlit("");
        }
        match self.str_at(key) {
            Some(s) => s,
            None => {
                assert(""@ =~= Seq::empty());
                ""
            },
        }
    }

    /// Whether this is the given string.
    pub fn is_text(&self, s: &str) -> (r: bool)
        ensures
            r == (self@ == JsonView::Str(s@)),
    {
        match self.as_str() {
            Some(t) => same(t, s),
            None => false,
        }
    }

    /// Whether the member `key` is the given string.
    pub fn at_is(&self, key: &str, s: &str) -> (r: bool)
        ensures
            r == (self@.at(key@) == JsonView::Str(s@)),
    {
        match self.get(key) {
            Some(v) => v.is_text(s),
            None => false,
        }
    }

    /// A copy of the value.
    pub fn copy(&self) -> (r: Json)
        ensures
            r@ == self@,
        decreases self,
    {
        match self {
            Json::Null => Json::Null,
            Json::Bool(b) => Json::Bool(*b),
            Json::Num(n) => Json::Num(copy_number(n)),
            Json::Str(s) => Json::Str(s.clone()),
            Json::Array(items) => Json::Array(copy_items(items)),
            Json::Object(members) => Json::Object(members.copy()),
        }
    }

    /// A copy of the member `key`, or null.
    pub fn copy_at(&self, key: &str) -> (r: Json)
        ensures
            r@ == self@.at(key@),
    {
        match self.get(key) {
            Some(v) => v.copy(),
            None => Json::Null,
        }
    }
}

/// A copy of a list of values.
pub fn copy_items(items: &Vec<Json>) -> (r: Vec<Json>)
    ensures
        items_view(r@) == items_view(items@),
    decreases items,
{
    let mut out: Vec<Json> = Vec::new();
    for i in 0..items.len()
        invariant
            items_view(out@) =~= items_view(items@).take(i as int),
    {
        let ghost before = out@;
        out.push(items[i].copy());
        assert(items_view(out@) =~= items_view(before).push(items@[i as int]@));
    }
    assert(items_view(out@) =~= items_view(items@));
    out
}

impl Members {
    /// A copy of the members.
    pub fn copy(&self) -> (r: Members)
        ensures
            r@ == self@,
        decreases self,
    {
        let mut out: Vec<(String, Json)> = Vec::new();
        for i in 0..self.entries.len()
            invariant
                members_view(out@) == members_view(self.entries@.take(i as int)),
        {
            let name = self.entries[i].0.clone();
            let value = self.entries[i].1.copy();
            proof {
                lemma_members_push(out@, (name, value));
                assert(self.entries@.take(i + 1).drop_last() =~= self.entries@.take(i as int));
            }
            out.push((name, value));
        }
        assert(self.entries@.take(self.entries@.len() as int) =~= self.entries@);
        Members { entries: out }
    }

    /// Drops the member `key`.
    pub fn remove(&mut self, key: &str)
        ensures
            final(self)@ == old(self)@.remove(key@),
    {
        let mut kept: Vec<(String, Json)> = Vec::new();
        for i in 0..self.entries.len()
            invariant
                self.entries@ == old(self).entries@,
                members_view(kept@) == members_view(self.entries@.take(i as int)).remove(key@),
        {
            assert(self.entries@.take(i + 1).drop_last() =~= self.entries@.take(i as int));
            let name = &self.entries[i].0;
            let ghost whole = members_view(self.entries@.take(i + 1)).remove(key@);
            if !same(name.as_str(), key) {
                let entry = (name.clone(), self.entries[i].1.copy());
                proof {
                    lemma_members_push(kept@, entry);
                }
                kept.push(entry);
                assert(members_view(kept@) =~= whole);
            } else {
                assert(members_view(kept@) =~= whole);
            }
        }
        assert(self.entries@.take(self.entries@.len() as int) =~= self.entries@);
        self.entries = kept;
    }
}

/// A later list of members replaces an earlier one, member by member.
pub(crate) proof fn lemma_members_concat(a: Seq<(String, Json)>, b: Seq<(String, Json)>)
    ensures
        members_view(a + b) == members_view(a).union_prefer_right(members_view(b)),
    decreases b.len(),
{
    if b.len() == 0 {
        assert(a + b =~= a);
        assert(members_view(a).union_prefer_right(members_view(b)) =~= members_view(a));
    } else {
        lemma_members_concat(a, b.drop_last());
        assert((a + b).drop_last() =~= a + b.drop_last());
        assert(members_view(a + b) =~= members_view(a).union_prefer_right(members_view(b)));
    }
}

impl Members {
    /// Takes over every member of `other`.
    pub fn extend(&mut self, other: &Members)
        ensures
            final(self)@ == old(self)@.union_prefer_right(other@),
    {
        let mut copied = other.copy();
        proof {
            lemma_members_concat(self.entries@, copied.entries@);
        }
        self.entries.append(&mut copied.entries);
    }
}

/// A member is smaller than its object.
pub proof fn member_is_smaller(v: JsonView, key: Seq<char>)
    requires
        v.get(key) is Some,
    ensures
        decreases_to!(v => v.get(key)->0),
{
    assert(decreases_to!(v => v->Object_0[key]));
}

/// An item is smaller than its array.
pub proof fn item_is_smaller(v: JsonView, i: int)
    requires
        v is Array,
        0 <= i < v->Array_0.len(),
    ensures
        decreases_to!(v => v->Array_0[i]),
{
    assert(decreases_to!(v => v->Array_0));
    assert(decreases_to!(v->Array_0 => v->Array_0[i]));
}

/// Whether two values compare equal: they are the same but for the two
/// floating-point zeros.
pub open spec fn values_equal(a: JsonView, b: JsonView) -> bool
    decreases a,
{
    match (a, b) {
        (JsonView::Num(x), JsonView::Num(y)) => numbers_equal(x, y),
        (JsonView::Array(x), JsonView::Array(y)) => x.len() == y.len() && forall|i: int|
            0 <= i < x.len() ==> values_equal(#[trigger] x[i], y[i]),
        (JsonView::Object(x), JsonView::Object(y)) => x.dom() == y.dom() && forall|k: Seq<char>|
            #[trigger] x.contains_key(k) ==> values_equal(x[k], y[k]),
        _ => a == b,
    }
}

/// Whether two values compare equal.
pub fn same_value(a: &Json, b: &Json) -> (r: bool)
    ensures
        r == values_equal(a@, b@),
    decreases a@,
{
    match (a, b) {
        (Json::Null, Json::Null) => true,
        (Json::Bool(x), Json::Bool(y)) => *x == *y,
        (Json::Num(x), Json::Num(y)) => same_number(x, y),
        (Json::Str(x), Json::Str(y)) => same(x.as_str(), y.as_str()),
        (Json::Array(x), Json::Array(y)) => {
            if x.len() != y.len() {
                return false;
            }
            for i in 0..x.len()
                invariant
                    a@ == JsonView::Array(items_view(x@)),
                    b@ == JsonView::Array(items_view(y@)),
                    x.len() == y.len(),
                    forall|j: int|
                        0 <= j < i ==> values_equal(
                            #[trigger] items_view(x@)[j],
                            items_view(y@)[j],
                        ),
            {
                proof {
                    item_is_smaller(a@, i as int);
                }
                if !same_value(&x[i], &y[i]) {
                    assert(!values_equal(items_view(x@)[i as int], items_view(y@)[i as int]));
                    return false;
                }
            }
            true
        },
        (Json::Object(x), Json::Object(y)) => {
            for i in 0..x.entries.len()
                invariant
                    a@ == JsonView::Object(x@),
                    b@ == JsonView::Object(y@),
                    forall|j: int|
                        0 <= j < i ==> y@.contains_key((#[trigger] x.entries@[j]).0@)
                            && values_equal(x@[x.entries@[j].0@], y@[x.entries@[j].0@]),
            {
                let name = &x.entries[i].0;
                proof {
                    lemma_members_name(x.entries@, i as int);
                    member_is_smaller(a@, name@);
                }
                match (x.get(name.as_str()), y.get(name.as_str())) {
                    (Some(v), Some(w)) => if !same_value(v, w) {
                        assert(x@.contains_key(name@));
                        return false;
                    },
                    _ => {
                        assert(x@.dom().contains(name@) && !y@.dom().contains(name@));
                        return false;
                    },
                }
            }
            for i in 0..y.entries.len()
                invariant
                    a@ == JsonView::Object(x@),
                    b@ == JsonView::Object(y@),
                    forall|j: int|
                        0 <= j < i ==> x@.contains_key((#[trigger] y.entries@[j]).0@),
            {
                let name = &y.entries[i].0;
                proof {
                    lemma_members_name(y.entries@, i as int);
                }
                if x.get(name.as_str()).is_none() {
                    assert(y@.dom().contains(name@) && !x@.dom().contains(name@));
                    return false;
                }
            }
            proof {
                assert forall|k: Seq<char>| #[trigger] x@.contains_key(k) implies y@.contains_key(k)
                    && values_equal(x@[k], y@[k]) by {
                    let j = lemma_members_source(x.entries@, k);
                    assert(x.entries@[j].0@ == k);
                }
                assert forall|k: Seq<char>| #[trigger] y@.contains_key(k) implies x@.contains_key(
                    k,
                ) by {
                    let j = lemma_members_source(y.entries@, k);
                    assert(y.entries@[j].0@ == k);
                }
                assert(x@.dom() =~= y@.dom());
            }
            true
        },
        _ => false,
    }
}

/// An integer as a JSON value.
pub open spec fn int_view(n: u64) -> JsonView {
    JsonView::Num(NumberView::Int(n as int))
}

/// Texts as a JSON array.
pub open spec fn texts_json(texts: Seq<Seq<char>>) -> JsonView {
    JsonView::Array(Seq::new(texts.len(), |i: int| JsonView::Str(texts[i])))
}

/// Texts as a JSON array.
pub fn texts_value(texts: &Vec<String>) -> (r: Json)
    ensures
        r@ == texts_json(text::texts(texts@)),
{
    let ghost wanted = texts_json(text::texts(texts@))->Array_0;
    let mut items: Vec<Json> = Vec::new();
    for i in 0..texts.len()
        invariant
            wanted == texts_json(text::texts(texts@))->Array_0,
            items_view(items@) =~= wanted.take(i as int),
    {
        let ghost before = items@;
        let item = Json::text(texts[i].as_str());
        items.push(item);
        assert(items_view(items@) =~= items_view(before).push(item@));
    }
    assert(items_view(items@) =~= wanted);
    Json::Array(items)
}

/// A list of one value.
pub fn one_item(value: Json) -> (r: Json)
    ensures
        r@ == JsonView::Array(seq![value@]),
{
    let mut items: Vec<Json> = Vec::new();
    items.push(value);
    assert(items_view(items@) =~= seq![value@]);
    Json::Array(items)
}

/// An empty list.
pub fn no_items() -> (r: Json)
    ensures
        r@ == JsonView::Array(Seq::empty()),
{
    let items: Vec<Json> = Vec::new();
    assert(items_view(items@) =~= Seq::empty());
    Json::Array(items)
}

} // verus!
