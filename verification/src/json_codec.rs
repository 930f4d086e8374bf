//! Reading and writing JSON text with `serde_json`.

use vstd::prelude::*;

use crate::json::{
    entries_view, items_view, number_view, Json, JsonNumber, JsonView, NumberView,
};
use crate::text::same_text;

verus! {

#[verifier::external_type_specification]
#[verifier::external_body]
pub struct ExValue(serde_json::Value);

/// The JSON value that a `serde_json::Value` holds.
pub uninterp spec fn value_json(v: serde_json::Value) -> JsonView;

/// The value that `serde_json` reads a text as, where it accepts the text.
pub uninterp spec fn json_parse(text: Seq<char>) -> Option<JsonView>;

/// The compact text that `serde_json` writes a value as.
pub uninterp spec fn json_text(v: JsonView) -> Seq<char>;

/// The key that `serde_json` keeps for itself: with its feature `raw_value`, an object that starts
/// with this key is read as the JSON in the member's text.
pub open spec fn raw_key() -> Seq<char> {
    "$serde_json::private::RawValue"@
}

/// Whether a value is one whose text is read back as it was: each float in it is read back from
/// the text that it prints as, no object has the key that `serde_json` keeps for itself, and
/// arrays and objects are nested at most `depth` deep.
pub open spec fn plain_json(v: JsonView, depth: nat) -> bool
    decreases depth,
{
    match v {
        JsonView::Number(NumberView::Float(text)) => json_parse(text) == Some(v),
        JsonView::Array(items) => depth > 0 && forall|i: int|
            0 <= i < items.len() ==> plain_json(#[trigger] items[i], (depth - 1) as nat),
        JsonView::Object(m) => depth > 0 && !m.contains_key(raw_key()) && forall|k: Seq<char>|
            m.contains_key(k) ==> plain_json(#[trigger] m[k], (depth - 1) as nat),
        _ => true,
    }
}

/// How deep a value may be nested for its text to be read back: `serde_json` reads no deeper.
pub open spec fn read_back_depth() -> nat {
    127
}

/// One layer of a value: what stands below it is still in the form of `serde_json`.
pub enum JsonLayer {
    Null,
    Bool(bool),
    Number(serde_json::Number),
    Str(String),
    Array(Vec<serde_json::Value>),
    Object(Vec<(String, serde_json::Value)>),
}

/// What a run of values holds.
pub open spec fn values_view(items: Seq<serde_json::Value>) -> Seq<JsonView> {
    items.map_values(|v: serde_json::Value| value_json(v))
}

/// What a run of members holds. Of two members with one key, the later one counts.
pub open spec fn members_view(members: Seq<(String, serde_json::Value)>) -> Map<Seq<char>, JsonView>
    decreases members.len(),
{
    if members.len() == 0 {
        Map::empty()
    } else {
        members_view(members.drop_last()).insert(members.last().0@, value_json(members.last().1))
    }
}

/// No key occurs twice.
pub open spec fn distinct_keys(members: Seq<(String, serde_json::Value)>) -> bool {
    forall|i: int, j: int|
        0 <= i < j < members.len() ==> (#[trigger] members[i]).0@ != (#[trigger] members[j]).0@
}

impl View for JsonLayer {
    type V = JsonView;

    open spec fn view(&self) -> JsonView {
        match *self {
            JsonLayer::Null => JsonView::Null,
            JsonLayer::Bool(b) => JsonView::Bool(b),
            JsonLayer::Number(n) => JsonView::Number(number_view(n)),
            JsonLayer::Str(s) => JsonView::Str(s@),
            JsonLayer::Array(items) => JsonView::Array(values_view(items@)),
            JsonLayer::Object(members) => JsonView::Object(members_view(members@)),
        }
    }
}

/// Calls `serde_json::from_str` for a `serde_json::Value`. What it accepts, and as which value,
/// depends on the text alone and is named `json_parse`.
#[verifier::external_body]
fn value_from_text(text: &str) -> (r: Option<serde_json::Value>)
    ensures
        match r {
            Some(v) => json_parse(text@) == Some(value_json(v)),
            None => json_parse(text@) is None,
        },
{
    serde_json::from_str::<serde_json::Value>(text).ok()
}

/// Calls `serde_json::Value::to_string`. The text depends on what the value holds alone and is
/// named `json_text`: the members of an object are written in the order of their keys. A value
/// that `plain_json` admits is read back by `serde_json::from_str` as it was: a number is read by
/// its own characters, wherever it stands, so a float that is read back alone is read back inside
/// a value. Nothing is said of floats whose reading is off by a last digit, of objects with the
/// key of `raw_key`, nor of values nested deeper than the reader goes.
#[verifier::external_body]
fn value_to_text(value: &serde_json::Value) -> (r: String)
    ensures
        r@ == json_text(value_json(*value)),
        plain_json(value_json(*value), read_back_depth()) ==> json_parse(r@) == Some(
            value_json(*value),
        ),
{
    value.to_string()
}

/// Takes a `serde_json::Value` apart into its variant: the layer holds what the value holds. The
/// members come from `serde_json::Map`, which holds each key once.
#[verifier::external_body]
fn open_value(value: serde_json::Value) -> (layer: JsonLayer)
    ensures
        layer@ == value_json(value),
        layer matches JsonLayer::Object(members) ==> distinct_keys(members@),
{
    match value {
        serde_json::Value::Null => JsonLayer::Null,
        serde_json::Value::Bool(b) => JsonLayer::Bool(b),
        serde_json::Value::Number(n) => JsonLayer::Number(n),
        serde_json::Value::String(s) => JsonLayer::Str(s),
        serde_json::Value::Array(items) => JsonLayer::Array(items),
        serde_json::Value::Object(members) => JsonLayer::Object(members.into_iter().collect()),
    }
}

/// Builds the variant of `serde_json::Value` for a layer: the value holds what the layer holds.
/// The members, none of which share a key, are collected into a `serde_json::Map`.
#[verifier::external_body]
fn seal_value(layer: JsonLayer) -> (value: serde_json::Value)
    requires
        layer matches JsonLayer::Object(members) ==> distinct_keys(members@),
    ensures
        value_json(value) == layer@,
{
    match layer {
        JsonLayer::Null => serde_json::Value::Null,
        JsonLayer::Bool(b) => serde_json::Value::Bool(b),
        JsonLayer::Number(n) => serde_json::Value::Number(n),
        JsonLayer::Str(s) => serde_json::Value::String(s),
        JsonLayer::Array(items) => serde_json::Value::Array(items),
        JsonLayer::Object(members) => serde_json::Value::Object(members.into_iter().collect()),
    }
}

/// Members with distinct keys are found under their keys, and are finitely many.
proof fn lemma_members(members: Seq<(String, serde_json::Value)>)
    requires
        distinct_keys(members),
    ensures
        members_view(members).dom().finite(),
        forall|i: int|
            0 <= i < members.len() ==> members_view(members).contains_key(
                (#[trigger] members[i]).0@,
            ) && members_view(members)[members[i].0@] == value_json(members[i].1),
    decreases members.len(),
{
    if members.len() > 0 {
        let front = members.drop_last();
        assert forall|i: int, j: int| 0 <= i < j < front.len() implies (#[trigger] front[i]).0@ != (
        #[trigger] front[j]).0@ by {
            assert(members[i] == front[i] && members[j] == front[j]);
        }
        lemma_members(front);
        assert forall|i: int| 0 <= i < members.len() implies members_view(members).contains_key(
            (#[trigger] members[i]).0@,
        ) && members_view(members)[members[i].0@] == value_json(members[i].1) by {
            if i < members.len() - 1 {
                assert(front[i] == members[i]);
            }
        }
    }
}

/// A member that takes the place of one with the same key is the one found under that key, where
/// no other member has it.
proof fn lemma_members_update(
    members: Seq<(String, serde_json::Value)>,
    at: int,
    member: (String, serde_json::Value),
)
    requires
        distinct_keys(members),
        0 <= at < members.len(),
        member.0@ == members[at].0@,
    ensures
        members_view(members.update(at, member)) == members_view(members).insert(
            member.0@,
            value_json(member.1),
        ),
    decreases members.len(),
{
    let front = members.drop_last();
    let updated = members.update(at, member);
    if at == members.len() - 1 {
        assert(updated.drop_last() =~= front);
        assert(members_view(updated) =~= members_view(members).insert(
            member.0@,
            value_json(member.1),
        ));
    } else {
        assert forall|i: int, j: int| 0 <= i < j < front.len() implies (#[trigger] front[i]).0@ != (
        #[trigger] front[j]).0@ by {
            assert(members[i] == front[i] && members[j] == front[j]);
        }
        assert(updated.drop_last() =~= front.update(at, member));
        lemma_members_update(front, at, member);
        assert(members[at].0@ != members[members.len() - 1].0@);
        assert(members_view(updated) =~= members_view(members).insert(
            member.0@,
            value_json(member.1),
        ));
    }
}

/// The position of the member with a key.
fn member_position(members: &Vec<(String, serde_json::Value)>, key: &str) -> (r: Option<usize>)
    ensures
        match r {
            Some(i) => i < members.len() && members@[i as int].0@ == key@,
            None => forall|i: int|
                0 <= i < members.len() ==> (#[trigger] members@[i]).0@ != key@,
        },
{
    let mut i: usize = 0;
    while i < members.len()
        invariant
            i <= members.len(),
            forall|k: int| 0 <= k < i ==> (#[trigger] members@[k]).0@ != key@,
        decreases members.len() - i,
    {
        if same_text(members[i].0.as_str(), key) {
            return Some(i);
        }
        i += 1;
    }
    None
}

/// Puts a value under a key, in place of an earlier one.
fn put_member(
    members: &mut Vec<(String, serde_json::Value)>,
    key: String,
    value: serde_json::Value,
)
    requires
        distinct_keys(old(members)@),
    ensures
        distinct_keys(final(members)@),
        members_view(final(members)@) == members_view(old(members)@).insert(
            key@,
            value_json(value),
        ),
{
    let ghost before = members@;
    match member_position(members, key.as_str()) {
        Some(i) => {
            proof {
                lemma_members_update(before, i as int, (key, value));
            }
            members.set(i, (key, value));
        },
        None => {
            members.push((key, value));
            assert(members@.drop_last() =~= before);
        },
    }
}

/// The gateway's form of a `serde_json` value.
pub fn json_from_value(value: serde_json::Value) -> (j: Json)
    ensures
        j@ == value_json(value),
    decreases value_json(value),
{
    match open_value(value) {
        JsonLayer::Null => Json::Null,
        JsonLayer::Bool(b) => Json::Bool(b),
        JsonLayer::Number(n) => Json::Number(JsonNumber { value: n }),
        JsonLayer::Str(s) => Json::Str(s),
        JsonLayer::Array(items) => {
            let ghost whole = items@;
            let ghost all = values_view(whole);
            let mut out: Vec<Json> = Vec::new();
            for v in it: items
                invariant
                    it.seq() == whole,
                    all == values_view(whole),
                    value_json(value) == JsonView::Array(all),
                    items_view(out@) == all.take(it.index() as int),
            {
                let ghost before = out@;
                proof {
                    let i = it.index() as int;
                    assert(v == whole[i]);
                    assert(decreases_to!(value_json(value) => value_json(value)->Array_0));
                    assert(decreases_to!(all => all[i]));
                    assert(all.take(i + 1) =~= all.take(i).push(all[i]));
                }
                out.push(json_from_value(v));
                assert(out@.drop_last() =~= before);
            }
            assert(all.take(whole.len() as int) =~= all);
            Json::Array(out)
        },
        JsonLayer::Object(members) => {
            let ghost whole = members@;
            let ghost all = members_view(whole);
            let mut out: Vec<(String, Json)> = Vec::new();
            for member in it: members
                invariant
                    it.seq() == whole,
                    all == members_view(whole),
                    distinct_keys(whole),
                    value_json(value) == JsonView::Object(all),
                    entries_view(out@) == members_view(whole.take(it.index() as int)),
            {
                let ghost before = out@;
                let ghost i = it.index() as int;
                let (key, v) = member;
                proof {
                    lemma_members(whole);
                    assert(member == whole[i]);
                    assert(decreases_to!(value_json(value) => value_json(value)->Object_0));
                    assert(decreases_to!(all => all[key@]));
                    assert(whole.take(i + 1).drop_last() =~= whole.take(i));
                }
                out.push((key, json_from_value(v)));
                assert(out@.drop_last() =~= before);
            }
            assert(whole.take(whole.len() as int) =~= whole);
            Json::Object(out)
        },
    }
}

/// The `serde_json` form of a value.
pub fn json_to_value(json: &Json) -> (value: serde_json::Value)
    ensures
        value_json(value) == json@,
    decreases json,
{
    match json {
        Json::Null => seal_value(JsonLayer::Null),
        Json::Bool(b) => seal_value(JsonLayer::Bool(*b)),
        Json::Number(n) => seal_value(JsonLayer::Number(n.clone().value)),
        Json::Str(s) => seal_value(JsonLayer::Str(s.clone())),
        Json::Array(items) => {
            let mut out: Vec<serde_json::Value> = Vec::new();
            let mut i: usize = 0;
            assert(values_view(out@) =~= items_view(items@.take(0)));
            while i < items.len()
                invariant
                    i <= items.len(),
                    json == Json::Array(*items),
                    values_view(out@) == items_view(items@.take(i as int)),
                decreases items.len() - i,
            {
                let ghost before = out@;
                assert(decreases_to!(json => json->Array_0));
                assert(decreases_to!(items => items@));
                assert(decreases_to!(items@ => items@[i as int]));
                out.push(json_to_value(&items[i]));
                assert(items@.take(i + 1).drop_last() =~= items@.take(i as int));
                assert(values_view(out@) =~= values_view(before).push(items@[i as int]@));
                i += 1;
            }
            assert(items@.take(i as int) =~= items@);
            seal_value(JsonLayer::Array(out))
        },
        Json::Object(entries) => {
            let mut out: Vec<(String, serde_json::Value)> = Vec::new();
            let mut i: usize = 0;
            while i < entries.len()
                invariant
                    i <= entries.len(),
                    json == Json::Object(*entries),
                    distinct_keys(out@),
                    members_view(out@) == entries_view(entries@.take(i as int)),
                decreases entries.len() - i,
            {
                assert(decreases_to!(json => json->Object_0));
                assert(decreases_to!(entries => entries@));
                assert(decreases_to!(entries@ => entries@[i as int]));
                assert(decreases_to!(entries@[i as int] => entries@[i as int].1));
                let v = json_to_value(&entries[i].1);
                put_member(&mut out, entries[i].0.clone(), v);
                assert(entries@.take(i + 1).drop_last() =~= entries@.take(i as int));
                i += 1;
            }
            assert(entries@.take(i as int) =~= entries@);
            seal_value(JsonLayer::Object(out))
        },
    }
}

/// Reads a text as JSON.
pub fn parse_json(text: &str) -> (r: Option<Json>)
    ensures
        r.deep_view() == json_parse(text@),
{
    match value_from_text(text) {
        Some(v) => Some(json_from_value(v)),
        None => None,
    }
}

/// Writes a value as compact JSON text.
pub fn render_json(json: &Json) -> (r: String)
    ensures
        r@ == json_text(json@),
        plain_json(json@, read_back_depth()) ==> json_parse(r@) == Some(json@),
{
    let value = json_to_value(json);
    value_to_text(&value)
}

} // verus!
