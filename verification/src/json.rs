//! JSON values as plain data, and their exchange with `serde_json`.
use vstd::prelude::*;

use crate::text::{option_view, same_text};

verus! {

/// `serde_json::Value`: any JSON value.
#[verifier::external_type_specification]
#[verifier::external_body]
pub struct ExValue(serde_json::Value);

/// `serde_json::Number`: any JSON number.
#[verifier::external_type_specification]
#[verifier::external_body]
pub struct ExNumber(serde_json::Number);

/// A JSON value. Of an object's entries with one key, the last one counts.
#[derive(Debug, PartialEq, Eq)]
pub enum Json {
    Null,
    Bool(bool),
    Number(serde_json::Number),
    Text(String),
    Array(Vec<Json>),
    Object(Vec<(String, Json)>),
}

/// The mathematical model of a JSON value: a text is a sequence of characters, an object is a map
/// from its keys.
pub enum JsonView {
    Null,
    Bool(bool),
    Number(serde_json::Number),
    Text(Seq<char>),
    Array(Seq<JsonView>),
    Object(Map<Seq<char>, JsonView>),
}

/// The outermost layer of a JSON value, with the values inside it still in `serde_json`'s form.
pub enum JsonLayer {
    Null,
    Bool(bool),
    Number(serde_json::Number),
    Text(String),
    Array(Vec<serde_json::Value>),
    Object(Vec<(String, serde_json::Value)>),
}

/// What a value of `serde_json` holds.
pub uninterp spec fn json_model(value: serde_json::Value) -> JsonView;

/// The value that `serde_json::from_str` reads from a text, if it reads one.
pub uninterp spec fn parsed_json(text: Seq<char>) -> Option<JsonView>;

/// The text that `serde_json::to_string_pretty` makes of a value, if it makes one.
pub uninterp spec fn pretty_json(value: JsonView) -> Option<Seq<char>>;

/// The text as which `serde_json` displays a value.
pub uninterp spec fn compact_json(value: JsonView) -> Seq<char>;

/// The number that `serde_json` makes of a whole number.
pub uninterp spec fn json_number(value: u64) -> serde_json::Number;

/// The map that a list of entries stands for: a later entry replaces one with the same key.
pub open spec fn entry_map(entries: Seq<(Seq<char>, JsonView)>) -> Map<Seq<char>, JsonView>
    decreases entries.len(),
{
    if entries.len() == 0 {
        Map::empty()
    } else {
        entry_map(entries.drop_last()).insert(entries.last().0, entries.last().1)
    }
}

/// The object with the given entries.
pub open spec fn object_of(entries: Seq<(Seq<char>, JsonView)>) -> JsonView {
    JsonView::Object(entry_map(entries))
}

impl JsonView {
    /// What stands in an object under `key`.
    pub open spec fn field(self, key: Seq<char>) -> Option<JsonView> {
        match self {
            JsonView::Object(entries) => if entries.contains_key(key) {
                Some(entries[key])
            } else {
                None
            },
            _ => None,
        }
    }

    /// The text that a value is, if it is one.
    pub open spec fn text(self) -> Option<Seq<char>> {
        match self {
            JsonView::Text(text) => Some(text),
            _ => None,
        }
    }

    /// The text that stands in an object under `key`, if one does.
    pub open spec fn text_field(self, key: Seq<char>) -> Option<Seq<char>> {
        match self.field(key) {
            Some(value) => value.text(),
            None => None,
        }
    }
}

impl Json {
    /// What the value holds.
    pub open spec fn model(self) -> JsonView
        decreases self, 1int,
    {
        match self {
            Json::Null => JsonView::Null,
            Json::Bool(value) => JsonView::Bool(value),
            Json::Number(value) => JsonView::Number(value),
            Json::Text(text) => JsonView::Text(text@),
            Json::Array(items) => JsonView::Array(
                Seq::new(
                    items@.len(),
                    |i: int|
                        if 0 <= i < items@.len() {
                            items@[i].model()
                        } else {
                            JsonView::Null
                        },
                ),
            ),
            Json::Object(_) => object_of(self.entries_model()),
        }
    }

    /// What the entries of an object hold.
    pub open spec fn entries_model(self) -> Seq<(Seq<char>, JsonView)>
        decreases self, 0int,
    {
        match self {
            Json::Object(entries) => Seq::new(
                entries@.len(),
                |i: int|
                    if 0 <= i < entries@.len() {
                        (entries@[i].0@, entries@[i].1.model())
                    } else {
                        (Seq::empty(), JsonView::Null)
                    },
            ),
            _ => Seq::empty(),
        }
    }
}

impl View for Json {
    type V = JsonView;

    open spec fn view(&self) -> JsonView {
        self.model()
    }
}

/// What the values of a list hold.
pub open spec fn item_views(items: Seq<Json>) -> Seq<JsonView> {
    items.map_values(|item: Json| item@)
}

/// What the entries of an object hold.
pub open spec fn entry_views(entries: Seq<(String, Json)>) -> Seq<(Seq<char>, JsonView)> {
    entries.map_values(|entry: (String, Json)| (entry.0@, entry.1@))
}

/// What the values of a list in `serde_json`'s form hold.
pub open spec fn item_models(items: Seq<serde_json::Value>) -> Seq<JsonView> {
    items.map_values(|item: serde_json::Value| json_model(item))
}

/// What the entries of an object in `serde_json`'s form hold.
pub open spec fn entry_models(entries: Seq<(String, serde_json::Value)>) -> Seq<
    (Seq<char>, JsonView),
> {
    entries.map_values(|entry: (String, serde_json::Value)| (entry.0@, json_model(entry.1)))
}

/// A value as indented text, or as `serde_json` displays it where it has no such text.
pub open spec fn pretty_text(value: JsonView) -> Seq<char> {
    match pretty_json(value) {
        Some(text) => text,
        None => compact_json(value),
    }
}

/// Whether no key occurs twice.
pub open spec fn distinct_keys(entries: Seq<(Seq<char>, JsonView)>) -> bool {
    forall|i: int, j: int|
        0 <= i < j < entries.len() ==> #[trigger] entries[i].0 != #[trigger] entries[j].0
}

/// What a layer holds.
pub open spec fn layer_model(layer: JsonLayer) -> JsonView {
    match layer {
        JsonLayer::Null => JsonView::Null,
        JsonLayer::Bool(value) => JsonView::Bool(value),
        JsonLayer::Number(value) => JsonView::Number(value),
        JsonLayer::Text(text) => JsonView::Text(text@),
        JsonLayer::Array(items) => JsonView::Array(item_models(items@)),
        JsonLayer::Object(entries) => object_of(entry_models(entries@)),
    }
}

/// `serde_json::Number` derives `Clone`: the copy is the same number.
pub assume_specification[ <serde_json::Number as Clone>::clone ](
    number: &serde_json::Number,
) -> (copy: serde_json::Number)
    ensures
        copy == *number,
;

/// `From<u64>` of `serde_json::Number`: the number depends on the whole number alone.
#[verifier::external_body]
fn number_from(value: u64) -> (number: serde_json::Number)
    ensures
        number == json_number(value),
{
    serde_json::Number::from(value)
}

/// `serde_json::from_str`: whether a value can be read, and which one, depends on the text alone.
#[verifier::external_body]
fn read_value(text: &str) -> (value: Option<serde_json::Value>)
    ensures
        match value {
            Some(value) => parsed_json(text@) == Some(json_model(value)),
            None => parsed_json(text@) is None,
        },
{
    serde_json::from_str(text).ok()
}

/// The variants of `serde_json::Value`: the layer holds what the value held. An object's map holds
/// each key once.
#[verifier::external_body]
fn open_value(value: serde_json::Value) -> (layer: JsonLayer)
    ensures
        layer_model(layer) == json_model(value),
        layer matches JsonLayer::Object(entries) ==> distinct_keys(entry_models(entries@)),
{
    match value {
        serde_json::Value::Null => JsonLayer::Null,
        serde_json::Value::Bool(value) => JsonLayer::Bool(value),
        serde_json::Value::Number(value) => JsonLayer::Number(value),
        serde_json::Value::String(text) => JsonLayer::Text(text),
        serde_json::Value::Array(items) => JsonLayer::Array(items),
        serde_json::Value::Object(map) => JsonLayer::Object(map.into_iter().collect()),
    }
}

/// The variants of `serde_json::Value`: the value holds what the layer held. The map of an object is
/// collected from entries of which no two have one key.
#[verifier::external_body]
fn close_value(layer: JsonLayer) -> (value: serde_json::Value)
    requires
        layer matches JsonLayer::Object(entries) ==> distinct_keys(entry_models(entries@)),
    ensures
        json_model(value) == layer_model(layer),
{
    match layer {
        JsonLayer::Null => serde_json::Value::Null,
        JsonLayer::Bool(value) => serde_json::Value::Bool(value),
        JsonLayer::Number(value) => serde_json::Value::Number(value),
        JsonLayer::Text(text) => serde_json::Value::String(text),
        JsonLayer::Array(items) => serde_json::Value::Array(items),
        JsonLayer::Object(entries) => serde_json::Value::Object(entries.into_iter().collect()),
    }
}

/// `serde_json::to_string_pretty`: whether there is a text, and which one, depends on what the
/// value holds alone. An object's map keeps its entries in the order of their keys.
#[verifier::external_body]
fn write_pretty(value: &serde_json::Value) -> (text: Option<String>)
    ensures
        match text {
            Some(text) => pretty_json(json_model(*value)) == Some(text@),
            None => pretty_json(json_model(*value)) is None,
        },
{
    serde_json::to_string_pretty(value).ok()
}

/// `Display` of `serde_json::Value`: the text depends on what the value holds alone.
#[verifier::external_body]
fn write_compact(value: &serde_json::Value) -> (text: String)
    ensures
        text@ == compact_json(json_model(*value)),
{
    value.to_string()
}

/// A list holds what its items hold.
proof fn array_view(items: Vec<Json>)
    ensures
        Json::Array(items)@ == JsonView::Array(item_views(items@)),
{
    reveal_with_fuel(Json::model, 2);
    assert(Json::Array(items)@->Array_0 =~= item_views(items@));
}

/// An object holds what its entries hold.
proof fn object_view(entries: Vec<(String, Json)>)
    ensures
        Json::Object(entries)@ == object_of(entry_views(entries@)),
{
    reveal_with_fuel(Json::model, 2);
    reveal_with_fuel(Json::entries_model, 2);
    assert(Json::Object(entries).entries_model() =~= entry_views(entries@));
}

/// Of entries without `key` at the end, what stands under `key` does not depend.
proof fn entry_map_step(entries: Seq<(Seq<char>, JsonView)>, key: Seq<char>)
    requires
        entries.len() > 0,
        entries.last().0 != key,
    ensures
        object_of(entries).field(key) == object_of(entries.drop_last()).field(key),
{
}

/// The map of a list of entries is finite, and each entry of a list with distinct keys is in it.
proof fn entry_map_holds(entries: Seq<(Seq<char>, JsonView)>)
    ensures
        entry_map(entries).dom().finite(),
        distinct_keys(entries) ==> forall|i: int|
            0 <= i < entries.len() ==> entry_map(entries).contains_key(#[trigger] entries[i].0)
                && entry_map(entries)[entries[i].0] == entries[i].1,
    decreases entries.len(),
{
    if entries.len() > 0 {
        let before = entries.drop_last();
        entry_map_holds(before);
        if distinct_keys(entries) {
            assert forall|i: int, j: int| 0 <= i < j < before.len() implies #[trigger] before[i].0
                != #[trigger] before[j].0 by {
                assert(entries[i].0 != entries[j].0);
            }
            assert forall|i: int| 0 <= i < entries.len() implies entry_map(entries).contains_key(
                #[trigger] entries[i].0,
            ) && entry_map(entries)[entries[i].0] == entries[i].1 by {
                if i < entries.len() - 1 {
                    assert(before[i] == entries[i]);
                    assert(entries[i].0 != entries[entries.len() - 1].0);
                }
            }
        }
    }
}

/// What stands under a key of a list of entries stands at some place in the list.
proof fn entry_map_place(entries: Seq<(Seq<char>, JsonView)>, key: Seq<char>)
    ensures
        entry_map(entries).contains_key(key) <==> exists|i: int|
            0 <= i < entries.len() && #[trigger] entries[i].0 == key,
    decreases entries.len(),
{
    if entries.len() > 0 {
        let before = entries.drop_last();
        entry_map_place(before, key);
        if entry_map(entries).contains_key(key) {
            if entries.last().0 == key {
                assert(entries[entries.len() - 1].0 == key);
            } else {
                let i = choose|i: int| 0 <= i < before.len() && #[trigger] before[i].0 == key;
                assert(entries[i].0 == key);
            }
        }
        if exists|i: int| 0 <= i < entries.len() && #[trigger] entries[i].0 == key {
            let i = choose|i: int| 0 <= i < entries.len() && #[trigger] entries[i].0 == key;
            if i < before.len() {
                assert(before[i].0 == key);
            }
        }
    }
}

/// In a list without a key twice, giving an entry another value is putting that value in.
proof fn entry_map_update(
    entries: Seq<(Seq<char>, JsonView)>,
    at: int,
    value: JsonView,
)
    requires
        distinct_keys(entries),
        0 <= at < entries.len(),
    ensures
        distinct_keys(entries.update(at, (entries[at].0, value))),
        entry_map(entries.update(at, (entries[at].0, value))) == entry_map(entries).insert(
            entries[at].0,
            value,
        ),
{
    let key = entries[at].0;
    let after = entries.update(at, (key, value));
    assert forall|i: int, j: int| 0 <= i < j < after.len() implies #[trigger] after[i].0
        != #[trigger] after[j].0 by {
        assert(entries[i].0 != entries[j].0);
    }
    entry_map_holds(entries);
    entry_map_holds(after);
    let map = entry_map(after);
    let expected = entry_map(entries).insert(key, value);
    assert forall|other: Seq<char>| #[trigger] map.contains_key(other) <==> expected.contains_key(
        other,
    ) by {
        entry_map_place(entries, other);
        entry_map_place(after, other);
        if map.contains_key(other) {
            let i = choose|i: int| 0 <= i < after.len() && #[trigger] after[i].0 == other;
            assert(entries[i].0 == other);
        }
        if expected.contains_key(other) {
            if other == key {
                assert(after[at].0 == other);
            } else {
                let i = choose|i: int| 0 <= i < entries.len() && #[trigger] entries[i].0 == other;
                assert(after[i].0 == other);
            }
        }
    }
    assert forall|other: Seq<char>| map.contains_key(other) implies #[trigger] map[other]
        == expected[other] by {
        entry_map_place(after, other);
        let i = choose|i: int| 0 <= i < after.len() && #[trigger] after[i].0 == other;
        assert(after[i].0 == other);
        assert(entries[i].0 == other);
    }
    assert(map =~= expected);
}

/// Puts an entry into a list without a key twice: it takes the place of one with the same key, or
/// comes last.
fn put_entry(
    entries: &mut Vec<(String, serde_json::Value)>,
    key: &String,
    value: serde_json::Value,
)
    requires
        distinct_keys(entry_models(old(entries)@)),
    ensures
        distinct_keys(entry_models(final(entries)@)),
        entry_map(entry_models(final(entries)@)) == entry_map(entry_models(old(entries)@)).insert(
            key@,
            json_model(value),
        ),
{
    let ghost before = entry_models(entries@);
    let mut i: usize = 0;
    while i < entries.len()
        invariant
            i <= entries@.len(),
            entry_models(entries@) == before,
            before == entry_models(old(entries)@),
            distinct_keys(before),
            forall|j: int| 0 <= j < i ==> (#[trigger] before[j]).0 != key@,
        decreases entries@.len() - i,
    {
        assert(before[i as int] == (entries@[i as int].0@, json_model(entries@[i as int].1)));
        if same_text(entries[i].0.as_str(), key.as_str()) {
            proof {
                entry_map_update(before, i as int, json_model(value));
            }
            entries.set(i, (key.clone(), value));
            assert(entry_models(entries@) =~= before.update(i as int, (key@, json_model(value))));
            return;
        }
        i += 1;
    }
    entries.push((key.clone(), value));
    let ghost added = before.push((key@, json_model(value)));
    assert(entry_models(entries@) =~= added);
    assert(added.drop_last() =~= before);
    assert forall|i: int, j: int| 0 <= i < j < added.len() implies #[trigger] added[i].0
        != #[trigger] added[j].0 by {
        assert(added[i] == before[i]);
        if j < before.len() {
            assert(before[i].0 != before[j].0);
        }
    }
}

/// The value in plain form.
fn json_from_value(value: serde_json::Value) -> (json: Json)
    ensures
        json@ == json_model(value),
    decreases json_model(value),
{
    let ghost model = json_model(value);
    match open_value(value) {
        JsonLayer::Null => Json::Null,
        JsonLayer::Bool(value) => Json::Bool(value),
        JsonLayer::Number(value) => Json::Number(value),
        JsonLayer::Text(text) => Json::Text(text),
        JsonLayer::Array(items) => {
            let mut plain: Vec<Json> = Vec::new();
            let ghost all = items@;
            for item in it: items
                invariant
                    it.seq() == all,
                    model == json_model(value),
                    model == JsonView::Array(item_models(all)),
                    item_views(plain@) == item_models(all).take(it.index()),
            {
                proof {
                    assert(item_models(all)[it.index()] == json_model(item));
                    assert(decreases_to!(model => model->Array_0));
                    assert(decreases_to!(item_models(all) => item_models(all)[it.index()]));
                }
                let ghost before = item_views(plain@);
                plain.push(json_from_value(item));
                assert(item_views(plain@) =~= before.push(json_model(item)));
            }
            assert(item_models(all).take(all.len() as int) =~= item_models(all));
            proof {
                array_view(plain);
            }
            Json::Array(plain)
        },
        JsonLayer::Object(entries) => {
            let mut plain: Vec<(String, Json)> = Vec::new();
            let ghost all = entries@;
            proof {
                entry_map_holds(entry_models(all));
            }
            for entry in it: entries
                invariant
                    it.seq() == all,
                    model == json_model(value),
                    model == object_of(entry_models(all)),
                    distinct_keys(entry_models(all)),
                    entry_views(plain@) == entry_models(all).take(it.index()),
            {
                proof {
                    entry_map_holds(entry_models(all));
                    let at = entry_models(all)[it.index()];
                    assert(at == (entry.0@, json_model(entry.1)));
                    let map = entry_map(entry_models(all));
                    assert(map.contains_key(at.0) && map[at.0] == at.1);
                    assert(decreases_to!(map => map[at.0]));
                    assert(decreases_to!(model => model->Object_0));
                }
                let ghost before = entry_views(plain@);
                let (key, item) = entry;
                plain.push((key, json_from_value(item)));
                assert(entry_views(plain@) =~= before.push((key@, json_model(item))));
            }
            assert(entry_models(all).take(all.len() as int) =~= entry_models(all));
            proof {
                object_view(plain);
            }
            Json::Object(plain)
        },
    }
}

/// The value in `serde_json`'s form.
fn value_from_json(json: &Json) -> (value: serde_json::Value)
    ensures
        json_model(value) == json@,
    decreases json,
{
    match json {
        Json::Null => close_value(JsonLayer::Null),
        Json::Bool(value) => close_value(JsonLayer::Bool(*value)),
        Json::Number(value) => close_value(JsonLayer::Number(value.clone())),
        Json::Text(text) => close_value(JsonLayer::Text(text.clone())),
        Json::Array(items) => {
            let mut values: Vec<serde_json::Value> = Vec::new();
            let mut i: usize = 0;
            while i < items.len()
                invariant
                    i <= items@.len(),
                    *json == Json::Array(*items),
                    item_models(values@) == item_views(items@).take(i as int),
                decreases items@.len() - i,
            {
                assert(decreases_to!(*json => json->Array_0));
                assert(decreases_to!(items@ => items@[i as int]));
                let ghost before = item_models(values@);
                values.push(value_from_json(&items[i]));
                assert(item_models(values@) =~= before.push(items@[i as int]@));
                assert(item_views(items@).take(i + 1) =~= before.push(items@[i as int]@));
                i += 1;
            }
            assert(item_views(items@).take(i as int) =~= item_views(items@));
            proof {
                array_view(*items);
            }
            close_value(JsonLayer::Array(values))
        },
        Json::Object(entries) => {
            let mut values: Vec<(String, serde_json::Value)> = Vec::new();
            let mut i: usize = 0;
            assert(entry_models(values@) =~= Seq::empty());
            assert(entry_views(entries@).take(0) =~= Seq::empty());
            while i < entries.len()
                invariant
                    i <= entries@.len(),
                    *json == Json::Object(*entries),
                    distinct_keys(entry_models(values@)),
                    entry_map(entry_models(values@)) == entry_map(
                        entry_views(entries@).take(i as int),
                    ),
                decreases entries@.len() - i,
            {
                assert(decreases_to!(*json => json->Object_0));
                assert(decreases_to!(entries@ => entries@[i as int]));
                assert(decreases_to!(entries@[i as int] => entries@[i as int].1));
                let ghost so_far = entry_views(entries@).take(i + 1);
                assert(so_far.drop_last() =~= entry_views(entries@).take(i as int));
                assert(so_far.last() == (entries@[i as int].0@, entries@[i as int].1@));
                let value = value_from_json(&entries[i].1);
                put_entry(&mut values, &entries[i].0, value);
                i += 1;
            }
            assert(entry_views(entries@).take(i as int) =~= entry_views(entries@));
            proof {
                object_view(*entries);
            }
            close_value(JsonLayer::Object(values))
        },
    }
}

impl Clone for Json {
    fn clone(&self) -> (copy: Self)
        ensures
            copy@ == self@,
        decreases self,
    {
        match self {
            Json::Null => Json::Null,
            Json::Bool(value) => Json::Bool(*value),
            Json::Number(value) => Json::Number(value.clone()),
            Json::Text(text) => Json::Text(text.clone()),
            Json::Array(items) => {
                let mut copies: Vec<Json> = Vec::new();
                let mut i: usize = 0;
                while i < items.len()
                    invariant
                        i <= items@.len(),
                        *self == Json::Array(*items),
                        item_views(copies@) == item_views(items@).take(i as int),
                    decreases items@.len() - i,
                {
                    assert(decreases_to!(*self => self->Array_0));
                    assert(decreases_to!(items@ => items@[i as int]));
                    let ghost before = item_views(copies@);
                    copies.push(items[i].clone());
                    assert(item_views(copies@) =~= before.push(items@[i as int]@));
                    assert(item_views(items@).take(i + 1) =~= before.push(items@[i as int]@));
                    i += 1;
                }
                assert(item_views(items@).take(i as int) =~= item_views(items@));
                proof {
                    array_view(*items);
                    array_view(copies);
                }
                Json::Array(copies)
            },
            Json::Object(entries) => {
                let mut copies: Vec<(String, Json)> = Vec::new();
                let mut i: usize = 0;
                while i < entries.len()
                    invariant
                        i <= entries@.len(),
                        *self == Json::Object(*entries),
                        entry_views(copies@) == entry_views(entries@).take(i as int),
                    decreases entries@.len() - i,
                {
                    assert(decreases_to!(*self => self->Object_0));
                    assert(decreases_to!(entries@ => entries@[i as int]));
                    assert(decreases_to!(entries@[i as int] => entries@[i as int].1));
                    let ghost before = entry_views(copies@);
                    let ghost added = (entries@[i as int].0@, entries@[i as int].1@);
                    copies.push((entries[i].0.clone(), entries[i].1.clone()));
                    assert(entry_views(copies@) =~= before.push(added));
                    assert(entry_views(entries@).take(i + 1) =~= before.push(added));
                    i += 1;
                }
                assert(entry_views(entries@).take(i as int) =~= entry_views(entries@));
                proof {
                    object_view(*entries);
                    object_view(copies);
                }
                Json::Object(copies)
            },
        }
    }
}

/// The entry of an object.
pub fn entry(key: &str, value: Json) -> (entry: (String, Json))
    ensures
        entry.0@ == key@,
        entry.1@ == value@,
{
    (key.to_owned(), value)
}

impl Json {
    /// The value that `text` holds, if it is JSON.
    pub fn parse(text: &str) -> (json: Option<Json>)
        ensures
            match json {
                Some(json) => parsed_json(text@) == Some(json@),
                None => parsed_json(text@) is None,
            },
    {
        match read_value(text) {
            Some(value) => Some(json_from_value(value)),
            None => None,
        }
    }

    /// The value as indented text.
    pub fn to_pretty_text(&self) -> (text: String)
        ensures
            text@ == pretty_text(self@),
    {
        let value = value_from_json(self);
        match write_pretty(&value) {
            Some(text) => text,
            None => write_compact(&value),
        }
    }

    /// The value that is the given text.
    pub fn from_text(text: &str) -> (json: Json)
        ensures
            json@ == JsonView::Text(text@),
    {
        Json::Text(text.to_owned())
    }

    /// The value that is the given whole number.
    pub fn from_number(value: u64) -> (json: Json)
        ensures
            json@ == JsonView::Number(json_number(value)),
    {
        Json::Number(number_from(value))
    }

    /// The object with the given entries.
    pub fn from_entries(entries: Vec<(String, Json)>) -> (json: Json)
        ensures
            json@ == object_of(entry_views(entries@)),
    {
        proof {
            object_view(entries);
        }
        Json::Object(entries)
    }

    /// The list of the given values.
    pub fn from_items(items: Vec<Json>) -> (json: Json)
        ensures
            json@ == JsonView::Array(item_views(items@)),
    {
        proof {
            array_view(items);
        }
        Json::Array(items)
    }

    /// What stands in an object under `key`.
    pub fn get(&self, key: &str) -> (value: Option<&Json>)
        ensures
            match value {
                Some(value) => self@.field(key@) == Some(value@),
                None => self@.field(key@) is None,
            },
    {
        match self {
            Json::Object(entries) => {
                let ghost all = entry_views(entries@);
                proof {
                    object_view(*entries);
                    assert(all.take(entries@.len() as int) =~= all);
                }
                let mut i: usize = entries.len();
                while i > 0
                    invariant
                        i <= entries@.len(),
                        all == entry_views(entries@),
                        self@ == object_of(all),
                        object_of(all).field(key@) == object_of(all.take(i as int)).field(key@),
                    decreases i,
                {
                    i -= 1;
                    assert(all.take(i + 1).drop_last() =~= all.take(i as int));
                    if same_text(entries[i].0.as_str(), key) {
                        return Some(&entries[i].1);
                    }
                    proof {
                        entry_map_step(all.take(i + 1), key@);
                    }
                }
                assert(all.take(0) =~= Seq::empty());
                None
            },
            _ => None,
        }
    }

    /// The text that the value is, if it is one.
    pub fn as_str(&self) -> (text: Option<&str>)
        ensures
            option_view(text) == self@.text(),
    {
        match self {
            Json::Text(text) => Some(text.as_str()),
            _ => None,
        }
    }

    /// The text that stands in an object under `key`, if one does.
    pub fn get_str(&self, key: &str) -> (text: Option<&str>)
        ensures
            option_view(text) == self@.text_field(key@),
    {
        match self.get(key) {
            Some(value) => value.as_str(),
            None => None,
        }
    }
}

/// An object holds each of its entries, unless a later one has the same key.
pub proof fn entries_are_found(entries: Seq<(Seq<char>, JsonView)>, i: int)
    requires
        0 <= i < entries.len(),
        forall|j: int| i < j < entries.len() ==> (#[trigger] entries[j]).0 != entries[i].0,
    ensures
        object_of(entries).field(entries[i].0) == Some(entries[i].1),
    decreases entries.len(),
{
    if i < entries.len() - 1 {
        let before = entries.drop_last();
        assert(before[i] == entries[i]);
        assert forall|j: int| i < j < before.len() implies (#[trigger] before[j]).0
            != before[i].0 by {
            assert(before[j] == entries[j]);
        }
        assert(entries[entries.len() - 1].0 != entries[i].0);
        entries_are_found(before, i);
    }
}

/// An object holds nothing but its entries.
pub proof fn nothing_else_is_found(entries: Seq<(Seq<char>, JsonView)>, key: Seq<char>)
    requires
        forall|i: int| 0 <= i < entries.len() ==> (#[trigger] entries[i]).0 != key,
    ensures
        object_of(entries).field(key) is None,
    decreases entries.len(),
{
    if entries.len() > 0 {
        let before = entries.drop_last();
        assert forall|i: int| 0 <= i < before.len() implies (#[trigger] before[i]).0 != key by {
            assert(before[i] == entries[i]);
        }
        assert(entries[entries.len() - 1].0 != key);
        nothing_else_is_found(before, key);
    }
}

/// Only an object has fields, and only a text is one.
pub proof fn only_objects_have_fields(value: JsonView, key: Seq<char>)
    ensures
        value.field(key) is Some <==> (value matches JsonView::Object(entries)
            && entries.contains_key(key)),
        value.text_field(key) matches Some(text) ==> value.field(key) == Some(JsonView::Text(text)),
        value.field(key) matches Some(JsonView::Text(text)) ==> value.text_field(key) == Some(text),
{
}

/// A value is shown indented where it can be, and else as it is displayed.
pub proof fn values_are_shown_indented(value: JsonView)
    ensures
        pretty_json(value) matches Some(text) ==> pretty_text(value) == text,
        pretty_json(value) is None ==> pretty_text(value) == compact_json(value),
{
}

} // verus!
