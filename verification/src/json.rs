//! JSON values as the gateway reads and builds them.

use vstd::prelude::*;

use crate::text::same_text;

verus! {

/// What a JSON number holds: an integer, or a float known by the text that it prints as.
pub enum NumberView {
    Int(int),
    Float(Seq<char>),
}

/// The mathematical model of a JSON value. An object has no order.
pub enum JsonView {
    Null,
    Bool(bool),
    Number(NumberView),
    Str(Seq<char>),
    Array(Seq<JsonView>),
    Object(Map<Seq<char>, JsonView>),
}

#[verifier::external_type_specification]
#[verifier::external_body]
pub struct ExNumber(serde_json::Number);

/// What a `serde_json::Number` holds.
pub uninterp spec fn number_view(n: serde_json::Number) -> NumberView;

/// Calls `serde_json::Number::from` on an unsigned integer: the number holds that integer.
#[verifier::external_body]
fn number_from_u64(n: u64) -> (r: serde_json::Number)
    ensures
        number_view(r) == NumberView::Int(n as int),
{
    serde_json::Number::from(n)
}

/// Calls `serde_json::Number::as_u64`: the result is there exactly when the number holds an
/// integer of the range of `u64`, and is that integer.
#[verifier::external_body]
fn number_as_u64(n: &serde_json::Number) -> (r: Option<u64>)
    ensures
        r == number_uint(number_view(*n)),
{
    n.as_u64()
}

/// Calls `serde_json::Number::clone`: the copy holds what the number holds.
#[verifier::external_body]
fn number_clone(n: &serde_json::Number) -> (r: serde_json::Number)
    ensures
        number_view(r) == number_view(*n),
{
    n.clone()
}

/// The number as an unsigned integer, where it is one.
pub open spec fn number_uint(n: NumberView) -> Option<u64> {
    match n {
        NumberView::Int(i) => if 0 <= i <= u64::MAX {
            Some(i as u64)
        } else {
            None
        },
        NumberView::Float(_) => None,
    }
}

/// A JSON number. Floats are carried, never computed with.
#[derive(Debug, PartialEq)]
pub struct JsonNumber {
    pub value: serde_json::Number,
}

impl View for JsonNumber {
    type V = NumberView;

    open spec fn view(&self) -> NumberView {
        number_view(self.value)
    }
}

impl DeepView for JsonNumber {
    type V = NumberView;

    open spec fn deep_view(&self) -> NumberView {
        self@
    }
}

impl Clone for JsonNumber {
    fn clone(&self) -> (r: JsonNumber)
        ensures
            r@ == self@,
    {
        JsonNumber { value: number_clone(&self.value) }
    }
}

impl JsonNumber {
    /// The number that holds an unsigned integer.
    pub fn from_u64(n: u64) -> (r: JsonNumber)
        ensures
            r@ == NumberView::Int(n as int),
    {
        JsonNumber { value: number_from_u64(n) }
    }

    /// The number as an unsigned integer, where it is one.
    pub fn as_u64(&self) -> (r: Option<u64>)
        ensures
            r == number_uint(self@),
    {
        number_as_u64(&self.value)
    }
}

/// A copy of an optional number.
pub fn copy_number(n: &Option<JsonNumber>) -> (r: Option<JsonNumber>)
    ensures
        r.deep_view() == n.deep_view(),
{
    match n {
        Some(x) => Some(x.clone()),
        None => None,
    }
}

/// A JSON value. Of two entries of an object with one key, the later one counts.
#[derive(Debug, PartialEq)]
pub enum Json {
    Null,
    Bool(bool),
    Number(JsonNumber),
    Str(String),
    Array(Vec<Json>),
    Object(Vec<(String, Json)>),
}

/// The model of a JSON value.
pub open spec fn json_view(j: Json) -> JsonView
    decreases j,
{
    match j {
        Json::Null => JsonView::Null,
        Json::Bool(b) => JsonView::Bool(b),
        Json::Number(n) => JsonView::Number(n@),
        Json::Str(s) => JsonView::Str(s@),
        Json::Array(items) => JsonView::Array(items_view(items@)),
        Json::Object(entries) => JsonView::Object(entries_view(entries@)),
    }
}

/// The models of a run of values.
pub open spec fn items_view(items: Seq<Json>) -> Seq<JsonView>
    decreases items,
{
    if items.len() == 0 {
        Seq::empty()
    } else {
        items_view(items.drop_last()).push(json_view(items.last()))
    }
}

/// The model of an object's entries.
pub open spec fn entries_view(entries: Seq<(String, Json)>) -> Map<Seq<char>, JsonView>
    decreases entries,
{
    if entries.len() == 0 {
        Map::empty()
    } else {
        entries_view(entries.drop_last()).insert(entries.last().0@, json_view(entries.last().1))
    }
}

impl View for Json {
    type V = JsonView;

    open spec fn view(&self) -> JsonView {
        json_view(*self)
    }
}

impl DeepView for Json {
    type V = JsonView;

    open spec fn deep_view(&self) -> JsonView {
        self@
    }
}

/// The member of an object under a key.
pub open spec fn field(v: JsonView, key: Seq<char>) -> Option<JsonView> {
    match v {
        JsonView::Object(m) => if m.contains_key(key) {
            Some(m[key])
        } else {
            None
        },
        _ => None,
    }
}

/// The text of a string value.
pub open spec fn str_of(v: JsonView) -> Option<Seq<char>> {
    match v {
        JsonView::Str(s) => Some(s),
        _ => None,
    }
}

/// The items of an array value.
pub open spec fn array_of(v: JsonView) -> Option<Seq<JsonView>> {
    match v {
        JsonView::Array(items) => Some(items),
        _ => None,
    }
}

/// The value as an unsigned integer, where it is one.
pub open spec fn uint_of(v: JsonView) -> Option<u64> {
    match v {
        JsonView::Number(n) => number_uint(n),
        _ => None,
    }
}

/// The text of the string member under a key.
pub open spec fn str_field(v: JsonView, key: Seq<char>) -> Option<Seq<char>> {
    match field(v, key) {
        Some(x) => str_of(x),
        None => None,
    }
}

/// The text of the string member under a key, or `default` where there is none.
pub open spec fn str_field_or(v: JsonView, key: Seq<char>, default: Seq<char>) -> Seq<char> {
    match str_field(v, key) {
        Some(s) => s,
        None => default,
    }
}

/// The unsigned integer member under a key.
pub open spec fn uint_field(v: JsonView, key: Seq<char>) -> Option<u64> {
    match field(v, key) {
        Some(x) => uint_of(x),
        None => None,
    }
}

/// The object with the member under a key set, where there is a value for it. A value that is no
/// object stays as it is.
pub open spec fn put_some(v: JsonView, key: Seq<char>, value: Option<JsonView>) -> JsonView {
    match (v, value) {
        (JsonView::Object(m), Some(x)) => JsonView::Object(m.insert(key, x)),
        _ => v,
    }
}

/// A number as JSON, where there is one.
pub open spec fn opt_number_json(n: Option<NumberView>) -> Option<JsonView> {
    match n {
        Some(x) => Some(JsonView::Number(x)),
        None => None,
    }
}

/// The texts as string values.
pub open spec fn strings(texts: Seq<Seq<char>>) -> Seq<JsonView> {
    texts.map_values(|t: Seq<char>| JsonView::Str(t))
}

/// The models of a run of values stand where the values stand.
pub proof fn lemma_items_view(items: Seq<Json>)
    ensures
        items_view(items).len() == items.len(),
        forall|i: int| 0 <= i < items.len() ==> #[trigger] items_view(items)[i] == items[i]@,
    decreases items.len(),
{
    if items.len() > 0 {
        let front = items.drop_last();
        lemma_items_view(front);
        assert forall|i: int| 0 <= i < items.len() implies #[trigger] items_view(items)[i]
            == items[i]@ by {
            if i < items.len() - 1 {
                assert(front[i] == items[i]);
            }
        }
    }
}

/// The last entry with a key gives the member under it.
proof fn lemma_entries_last(entries: Seq<(String, Json)>, key: Seq<char>, at: int)
    requires
        -1 <= at < entries.len(),
        forall|i: int| at < i < entries.len() ==> (#[trigger] entries[i]).0@ != key,
        at >= 0 ==> entries[at].0@ == key,
    ensures
        entries_view(entries).contains_key(key) == (at >= 0),
        at >= 0 ==> entries_view(entries)[key] == entries[at].1@,
    decreases entries.len(),
{
    if entries.len() > 0 && at < entries.len() - 1 {
        let front = entries.drop_last();
        assert(entries[entries.len() - 1].0@ != key);
        assert forall|i: int| at < i < front.len() implies (#[trigger] front[i]).0@ != key by {
            assert(front[i] == entries[i]);
        }
        lemma_entries_last(front, key, at);
    }
}

impl Clone for Json {
    fn clone(&self) -> (r: Json)
        ensures
            r@ == self@,
        decreases self,
    {
        match self {
            Json::Null => Json::Null,
            Json::Bool(b) => Json::Bool(*b),
            Json::Number(n) => Json::Number(n.clone()),
            Json::Str(s) => Json::Str(s.clone()),
            Json::Array(items) => {
                let mut out: Vec<Json> = Vec::new();
                let mut i: usize = 0;
                while i < items.len()
                    invariant
                        i <= items.len(),
                        self == Json::Array(*items),
                        items_view(out@) == items_view(items@.take(i as int)),
                    decreases items.len() - i,
                {
                    let ghost before = out@;
                    assert(decreases_to!(self => self->Array_0));
                    assert(decreases_to!(items => items@));
                    assert(decreases_to!(items@ => items@[i as int]));
                    out.push(items[i].clone());
                    assert(out@.drop_last() =~= before);
                    assert(items@.take(i + 1).drop_last() =~= items@.take(i as int));
                    i += 1;
                }
                assert(items@.take(i as int) =~= items@);
                Json::Array(out)
            },
            Json::Object(entries) => {
                let mut out: Vec<(String, Json)> = Vec::new();
                let mut i: usize = 0;
                while i < entries.len()
                    invariant
                        i <= entries.len(),
                        self == Json::Object(*entries),
                        entries_view(out@) == entries_view(entries@.take(i as int)),
                    decreases entries.len() - i,
                {
                    let ghost before = out@;
                    assert(decreases_to!(self => self->Object_0));
                    assert(decreases_to!(entries => entries@));
                    assert(decreases_to!(entries@ => entries@[i as int]));
                    assert(decreases_to!(entries@[i as int] => entries@[i as int].1));
                    out.push((entries[i].0.clone(), entries[i].1.clone()));
                    assert(out@.drop_last() =~= before);
                    assert(entries@.take(i + 1).drop_last() =~= entries@.take(i as int));
                    i += 1;
                }
                assert(entries@.take(i as int) =~= entries@);
                Json::Object(out)
            },
        }
    }
}

impl Json {
    /// A string value.
    pub fn text(s: &str) -> (r: Json)
        ensures
            r@ == JsonView::Str(s@),
    {
        Json::Str(s.to_owned())
    }

    /// A number value that holds an unsigned integer.
    pub fn uint(n: u64) -> (r: Json)
        ensures
            r@ == JsonView::Number(NumberView::Int(n as int)),
    {
        Json::Number(JsonNumber::from_u64(n))
    }

    /// An object without members.
    pub fn object() -> (r: Json)
        ensures
            r@ == JsonView::Object(Map::empty()),
    {
        Json::Object(Vec::new())
    }

    /// An array of the items.
    pub fn array(items: Vec<Json>) -> (r: Json)
        ensures
            r@ == JsonView::Array(items.deep_view()),
    {
        proof {
            lemma_items_view(items@);
            assert(items_view(items@) =~= items.deep_view());
        }
        Json::Array(items)
    }

    /// The object with the member under `key` set to `value`. A value that is no object stays as
    /// it is.
    pub fn with(self, key: &str, value: Json) -> (r: Json)
        ensures
            match self@ {
                JsonView::Object(m) => r@ == JsonView::Object(m.insert(key@, value@)),
                _ => r@ == self@,
            },
    {
        match self {
            Json::Object(entries) => {
                let mut longer = entries;
                longer.push((key.to_owned(), value));
                assert(longer@.drop_last() =~= entries@);
                Json::Object(longer)
            },
            other => other,
        }
    }

    /// The object with the member under `key` set, where there is a value for it.
    pub fn with_some(self, key: &str, value: Option<Json>) -> (r: Json)
        ensures
            r@ == put_some(self@, key@, value.deep_view()),
    {
        match value {
            Some(x) => self.with(key, x),
            None => self,
        }
    }

    /// An array of string values.
    pub fn strings(texts: &Vec<String>) -> (r: Json)
        ensures
            r@ == JsonView::Array(strings(texts.deep_view())),
    {
        let mut out: Vec<Json> = Vec::new();
        let mut i: usize = 0;
        while i < texts.len()
            invariant
                i <= texts.len(),
                out.len() == i,
                forall|k: int| 0 <= k < i ==> (#[trigger] out@[k])@ == JsonView::Str(texts@[k]@),
            decreases texts.len() - i,
        {
            out.push(Json::text(texts[i].as_str()));
            i += 1;
        }
        assert(out.deep_view() =~= strings(texts.deep_view()));
        Json::array(out)
    }

    /// The member of an object under a key.
    pub fn get(&self, key: &str) -> (r: Option<&Json>)
        ensures
            match r {
                Some(x) => field(self@, key@) == Some(x@),
                None => field(self@, key@) is None,
            },
    {
        match self {
            Json::Object(entries) => {
                let mut i: usize = entries.len();
                while i > 0
                    invariant
                        i <= entries.len(),
                        self == Json::Object(*entries),
                        forall|k: int|
                            i <= k < entries.len() ==> (#[trigger] entries@[k]).0@ != key@,
                    decreases i,
                {
                    i -= 1;
                    if same_text(entries[i].0.as_str(), key) {
                        proof {
                            lemma_entries_last(entries@, key@, i as int);
                        }
                        return Some(&entries[i].1);
                    }
                }
                proof {
                    lemma_entries_last(entries@, key@, -1);
                }
                None
            },
            _ => None,
        }
    }

    /// The text of a string value.
    pub fn as_str(&self) -> (r: Option<&str>)
        ensures
            r.deep_view() == str_of(self@),
    {
        match self {
            Json::Str(s) => Some(s.as_str()),
            _ => None,
        }
    }

    /// The items of an array value.
    pub fn as_array(&self) -> (r: Option<&Vec<Json>>)
        ensures
            r.deep_view() == array_of(self@),
    {
        match self {
            Json::Array(items) => {
                proof {
                    lemma_items_view(items@);
                    assert(items_view(items@) =~= items.deep_view());
                }
                Some(items)
            },
            _ => None,
        }
    }

    /// The value as an unsigned integer, where it is one.
    pub fn as_u64(&self) -> (r: Option<u64>)
        ensures
            r == uint_of(self@),
    {
        match self {
            Json::Number(n) => n.as_u64(),
            _ => None,
        }
    }

    /// The text of the string member under a key.
    pub fn str_field(&self, key: &str) -> (r: Option<&str>)
        ensures
            r.deep_view() == str_field(self@, key@),
    {
        match self.get(key) {
            Some(x) => x.as_str(),
            None => None,
        }
    }

    /// The text of the string member under a key, or `default` where there is none.
    pub fn str_field_or(&self, key: &str, default: &str) -> (r: String)
        ensures
            r@ == str_field_or(self@, key@, default@),
    {
        match self.str_field(key) {
            Some(s) => s.to_owned(),
            None => default.to_owned(),
        }
    }

    /// The unsigned integer member under a key.
    pub fn uint_field(&self, key: &str) -> (r: Option<u64>)
        ensures
            r == uint_field(self@, key@),
    {
        match self.get(key) {
            Some(x) => x.as_u64(),
            None => None,
        }
    }
}

} // verus!
