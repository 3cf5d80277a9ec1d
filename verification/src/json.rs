//! JSON values, and reading them from text.
use crate::text::{opt_view, same};
use vstd::prelude::*;
use vstd::string::*;

verus! {

/// A JSON number: its value where it is an unsigned integer, and its numeral.
#[derive(Debug, PartialEq, Eq)]
pub struct JsonNumber {
    pub unsigned: Option<u64>,
    pub text: String,
}

/// A JSON value.
#[derive(Debug, PartialEq, Eq)]
pub enum JsonValue {
    Null,
    Bool(bool),
    Number(JsonNumber),
    Text(String),
    Array(Vec<JsonValue>),
    Object(Vec<JsonField>),
}

/// One field of a JSON object.
#[derive(Debug, PartialEq, Eq)]
pub struct JsonField {
    pub key: String,
    pub value: JsonValue,
}

/// The model of a JSON value.
pub enum JsonView {
    Null,
    Bool(bool),
    Number { unsigned: Option<u64>, text: Seq<char> },
    Text(Seq<char>),
    Array(Seq<JsonView>),
    Object(Seq<(Seq<char>, JsonView)>),
}

pub open spec fn json_views(items: Seq<JsonValue>) -> Seq<JsonView>
    decreases items,
{
    Seq::new(
        items.len(),
        |i: int|
            if 0 <= i < items.len() {
                json_view(items[i])
            } else {
                JsonView::Null
            },
    )
}

pub open spec fn field_views(fields: Seq<JsonField>) -> Seq<(Seq<char>, JsonView)>
    decreases fields,
{
    Seq::new(
        fields.len(),
        |i: int|
            if 0 <= i < fields.len() {
                (fields[i].key@, json_view(fields[i].value))
            } else {
                arbitrary()
            },
    )
}

pub open spec fn json_view(value: JsonValue) -> JsonView
    decreases value,
{
    match value {
        JsonValue::Null => JsonView::Null,
        JsonValue::Bool(b) => JsonView::Bool(b),
        JsonValue::Number(n) => JsonView::Number { unsigned: n.unsigned, text: n.text@ },
        JsonValue::Text(s) => JsonView::Text(s@),
        JsonValue::Array(items) => JsonView::Array(json_views(items@)),
        JsonValue::Object(fields) => JsonView::Object(field_views(fields@)),
    }
}

impl View for JsonValue {
    type V = JsonView;

    open spec fn view(&self) -> JsonView {
        json_view(*self)
    }
}

pub open spec fn opt_json(o: Option<JsonValue>) -> Option<JsonView> {
    match o {
        Some(v) => Some(v@),
        None => None,
    }
}

/// The first value listed under `key`.
pub open spec fn listed_field(fields: Seq<(Seq<char>, JsonView)>, key: Seq<char>) -> Option<
    JsonView,
>
    decreases fields.len(),
{
    if fields.len() == 0 {
        None
    } else if fields[0].0 == key {
        Some(fields[0].1)
    } else {
        listed_field(fields.drop_first(), key)
    }
}

/// The field of an object; no other value has one.
pub open spec fn field_of(value: JsonView, key: Seq<char>) -> Option<JsonView> {
    match value {
        JsonView::Object(fields) => listed_field(fields, key),
        _ => None,
    }
}

pub open spec fn text_of(value: Option<JsonView>) -> Option<Seq<char>> {
    match value {
        Some(JsonView::Text(s)) => Some(s),
        _ => None,
    }
}

pub open spec fn unsigned_of(value: Option<JsonView>) -> Option<u64> {
    match value {
        Some(JsonView::Number { unsigned, text: _ }) => unsigned,
        _ => None,
    }
}

pub open spec fn bool_of(value: Option<JsonView>) -> Option<bool> {
    match value {
        Some(JsonView::Bool(b)) => Some(b),
        _ => None,
    }
}

/// The items of an array; no other value has any.
pub open spec fn items_of(value: Option<JsonView>) -> Option<Seq<JsonView>> {
    match value {
        Some(JsonView::Array(items)) => Some(items),
        _ => None,
    }
}

pub open spec fn opt_ref(o: Option<&JsonValue>) -> Option<JsonView> {
    match o {
        Some(v) => Some(v@),
        None => None,
    }
}

pub open spec fn opt_str(o: Option<&str>) -> Option<Seq<char>> {
    match o {
        Some(s) => Some(s@),
        None => None,
    }
}

impl JsonValue {
    /// The field under `key`, where the value is an object that has it.
    pub fn get(&self, key: &str) -> (r: Option<&JsonValue>)
        ensures
            opt_ref(r) == field_of(self@, key@),
    {
        match self {
            JsonValue::Object(fields) => {
                let ghost all = field_views(fields@);
                let mut i: usize = 0;
                assert(all.skip(0) =~= all);
                while i < fields.len()
                    invariant
                        i <= fields.len(),
                        all == field_views(fields@),
                        listed_field(all, key@) == listed_field(all.skip(i as int), key@),
                        self@ == JsonView::Object(all),
                    decreases fields.len() - i,
                {
                    assert(all.skip(i as int)[0] == (
                        fields@[i as int].key@,
                        fields@[i as int].value@,
                    ));
                    if same(fields[i].key.as_str(), key) {
                        return Some(&fields[i].value);
                    }
                    assert(all.skip(i as int).drop_first() =~= all.skip(i + 1));
                    i += 1;
                }
                None
            },
            _ => None,
        }
    }

    /// The text of a string.
    pub fn as_str(&self) -> (r: Option<&str>)
        ensures
            opt_str(r) == text_of(Some(self@)),
    {
        match self {
            JsonValue::Text(s) => Some(s.as_str()),
            _ => None,
        }
    }

    /// The string under `key`.
    pub fn get_str(&self, key: &str) -> (r: Option<&str>)
        ensures
            opt_str(r) == text_of(field_of(self@, key@)),
    {
        match self.get(key) {
            Some(value) => value.as_str(),
            None => None,
        }
    }

    /// The unsigned integer under `key`.
    pub fn get_u64(&self, key: &str) -> (r: Option<u64>)
        ensures
            r == unsigned_of(field_of(self@, key@)),
    {
        match self.get(key) {
            Some(JsonValue::Number(n)) => n.unsigned,
            _ => None,
        }
    }

    /// The boolean under `key`.
    pub fn get_bool(&self, key: &str) -> (r: Option<bool>)
        ensures
            r == bool_of(field_of(self@, key@)),
    {
        match self.get(key) {
            Some(JsonValue::Bool(b)) => Some(*b),
            _ => None,
        }
    }

    /// The array under `key`.
    pub fn get_array(&self, key: &str) -> (r: Option<&Vec<JsonValue>>)
        ensures
            r matches Some(items) ==> items_of(field_of(self@, key@)) == Some(json_views(items@)),
            r is None ==> items_of(field_of(self@, key@)) is None,
    {
        match self.get(key) {
            Some(JsonValue::Array(items)) => Some(items),
            _ => None,
        }
    }

    /// The object under `key`.
    pub fn get_object(&self, key: &str) -> (r: Option<&Vec<JsonField>>)
        ensures
            r matches Some(fields) ==> field_of(self@, key@) == Some(
                JsonView::Object(field_views(fields@)),
            ),
            r is None ==> !(field_of(self@, key@) matches Some(JsonView::Object(_))),
    {
        match self.get(key) {
            Some(JsonValue::Object(fields)) => Some(fields),
            _ => None,
        }
    }
}

// ---------------------------------------------------------------------------
// Copying
// ---------------------------------------------------------------------------

fn duplicate_values(items: &Vec<JsonValue>) -> (r: Vec<JsonValue>)
    ensures
        json_views(r@) == json_views(items@),
    decreases items,
{
    let mut out: Vec<JsonValue> = Vec::new();
    let mut i: usize = 0;
    while i < items.len()
        invariant
            i <= items.len(),
            out.len() == i,
            forall|k: int| 0 <= k < i ==> #[trigger] out@[k]@ == items@[k]@,
        decreases items.len() - i,
    {
        out.push(items[i].duplicate());
        i += 1;
    }
    assert(json_views(out@) =~= json_views(items@)) by {
        assert forall|k: int| 0 <= k < out@.len() implies json_views(out@)[k]
            == #[trigger] json_views(items@)[k] by {
            assert(out@[k]@ == items@[k]@);
        }
    }
    out
}

fn duplicate_fields(fields: &Vec<JsonField>) -> (r: Vec<JsonField>)
    ensures
        field_views(r@) == field_views(fields@),
    decreases fields,
{
    let mut out: Vec<JsonField> = Vec::new();
    let mut i: usize = 0;
    while i < fields.len()
        invariant
            i <= fields.len(),
            out.len() == i,
            forall|k: int|
                0 <= k < i ==> (#[trigger] out@[k]).key@ == fields@[k].key@ && out@[k].value@
                    == fields@[k].value@,
        decreases fields.len() - i,
    {
        let value = fields[i].value.duplicate();
        out.push(JsonField { key: fields[i].key.clone(), value });
        i += 1;
    }
    assert(field_views(out@) =~= field_views(fields@)) by {
        assert forall|k: int| 0 <= k < out@.len() implies field_views(out@)[k]
            == #[trigger] field_views(fields@)[k] by {
            assert(out@[k].key@ == fields@[k].key@);
        }
    }
    out
}

impl JsonValue {
    /// A copy of the value.
    pub fn duplicate(&self) -> (r: JsonValue)
        ensures
            r@ == self@,
        decreases self,
    {
        match self {
            JsonValue::Null => JsonValue::Null,
            JsonValue::Bool(b) => JsonValue::Bool(*b),
            JsonValue::Number(n) => JsonValue::Number(
                JsonNumber { unsigned: n.unsigned, text: n.text.clone() },
            ),
            JsonValue::Text(s) => JsonValue::Text(s.clone()),
            JsonValue::Array(items) => JsonValue::Array(duplicate_values(items)),
            JsonValue::Object(fields) => JsonValue::Object(duplicate_fields(fields)),
        }
    }
}

// ---------------------------------------------------------------------------
// Building
// ---------------------------------------------------------------------------

/// A string value.
pub fn json_string(s: &str) -> (r: JsonValue)
    ensures
        r@ == JsonView::Text(s@),
{
    JsonValue::Text(s.to_owned())
}

/// Appends a field to the fields of an object.
pub fn add_field(fields: &mut Vec<JsonField>, key: &str, value: JsonValue)
    ensures
        field_views(final(fields)@) == field_views(old(fields)@).push((key@, value@)),
{
    fields.push(JsonField { key: key.to_owned(), value });
    assert(field_views(fields@) =~= field_views(old(fields)@).push((key@, value@)));
}

/// Appends an item to the items of an array.
pub fn add_value(items: &mut Vec<JsonValue>, value: JsonValue)
    ensures
        json_views(final(items)@) == json_views(old(items)@).push(value@),
{
    items.push(value);
    assert(json_views(items@) =~= json_views(old(items)@).push(value@));
}

/// No fields yet.
pub fn no_fields() -> (r: Vec<JsonField>)
    ensures
        field_views(r@) == Seq::<(Seq<char>, JsonView)>::empty(),
{
    let r: Vec<JsonField> = Vec::new();
    assert(field_views(r@) =~= Seq::empty());
    r
}

/// No items yet.
pub fn no_values() -> (r: Vec<JsonValue>)
    ensures
        json_views(r@) == Seq::<JsonView>::empty(),
{
    let r: Vec<JsonValue> = Vec::new();
    assert(json_views(r@) =~= Seq::empty());
    r
}

/// The fields with the first one under `key` given another value.
pub open spec fn fields_with(
    fields: Seq<(Seq<char>, JsonView)>,
    key: Seq<char>,
    value: JsonView,
) -> Seq<(Seq<char>, JsonView)>
    decreases fields.len(),
{
    if fields.len() == 0 {
        fields
    } else if fields[0].0 == key {
        fields.update(0, (key, value))
    } else {
        seq![fields[0]] + fields_with(fields.drop_first(), key, value)
    }
}

/// The value with the field under `key`, where it has one, given another value.
pub open spec fn value_with(object: JsonView, key: Seq<char>, value: JsonView) -> JsonView {
    match object {
        JsonView::Object(fields) => JsonView::Object(fields_with(fields, key, value)),
        _ => object,
    }
}

proof fn lemma_fields_with(
    fields: Seq<(Seq<char>, JsonView)>,
    key: Seq<char>,
    value: JsonView,
    at: int,
)
    requires
        0 <= at <= fields.len(),
        forall|k: int| 0 <= k < at ==> (#[trigger] fields[k]).0 != key,
        at < fields.len() ==> fields[at].0 == key,
    ensures
        fields_with(fields, key, value) == if at < fields.len() {
            fields.update(at, (key, value))
        } else {
            fields
        },
    decreases fields.len(),
{
    if fields.len() > 0 && at > 0 {
        let rest = fields.drop_first();
        assert(fields[0].0 != key);
        assert forall|k: int| 0 <= k < at - 1 implies (#[trigger] rest[k]).0 != key by {
            assert(rest[k] == fields[k + 1]);
        }
        lemma_fields_with(rest, key, value, at - 1);
        if at < fields.len() {
            assert(seq![fields[0]] + rest.update(at - 1, (key, value)) =~= fields.update(
                at,
                (key, value),
            ));
        } else {
            assert(seq![fields[0]] + rest =~= fields);
        }
    }
}

/// What is read back under a key is what was put there; the other keys keep
/// their values.
pub proof fn value_with_reads_back(
    fields: Seq<(Seq<char>, JsonView)>,
    key: Seq<char>,
    value: JsonView,
    other: Seq<char>,
)
    ensures
        listed_field(fields, key) is Some ==> listed_field(
            fields_with(fields, key, value),
            key,
        ) == Some(value),
        other != key ==> listed_field(fields_with(fields, key, value), other) == listed_field(
            fields,
            other,
        ),
    decreases fields.len(),
{
    if fields.len() > 0 {
        let after = fields_with(fields, key, value);
        if fields[0].0 == key {
            assert(after.drop_first() =~= fields.drop_first());
        } else {
            value_with_reads_back(fields.drop_first(), key, value, other);
            assert(after.drop_first() =~= fields_with(fields.drop_first(), key, value));
        }
    }
}

impl JsonValue {
    /// The value with the field under `key`, where it has one, replaced.
    pub fn replace_field(self, key: &str, value: JsonValue) -> (r: JsonValue)
        ensures
            r@ == value_with(self@, key@, value@),
    {
        match self {
            JsonValue::Object(list) => {
                let mut fields = list;
                let ghost all = field_views(fields@);
                let mut i: usize = 0;
                while i < fields.len() && !same(fields[i].key.as_str(), key)
                    invariant
                        i <= fields.len(),
                        all == field_views(fields@),
                        forall|k: int| 0 <= k < i ==> (#[trigger] all[k]).0 != key@,
                    decreases fields.len() - i,
                {
                    i += 1;
                }
                proof {
                    lemma_fields_with(all, key@, value@, i as int);
                }
                if i < fields.len() {
                    fields.set(i, JsonField { key: key.to_owned(), value });
                    assert(field_views(fields@) =~= all.update(i as int, (key@, value@)));
                }
                JsonValue::Object(fields)
            },
            other => other,
        }
    }
}

// ---------------------------------------------------------------------------
// Reading and writing
// ---------------------------------------------------------------------------

/// A JSON value of `serde_json`.
#[verifier::external_type_specification]
#[verifier::external_body]
pub struct ExValue(serde_json::Value);

/// What a value of `serde_json` holds.
pub uninterp spec fn json_contents(value: serde_json::Value) -> JsonView;

/// What `serde_json::from_str` reads from a text; nothing where it rejects it.
pub uninterp spec fn json_document(text: Seq<char>) -> Option<JsonView>;

/// How `serde_json::to_string_pretty` prints a value; nothing where it fails.
pub uninterp spec fn json_pretty(value: JsonView) -> Option<Seq<char>>;

/// Reads a document with `serde_json::from_str`. What comes back is a function
/// of the text: a value with these contents, or nothing. The grammar that
/// decides is not restated.
#[verifier::external_body]
fn read_value(text: &str) -> (r: Option<serde_json::Value>)
    ensures
        r matches Some(v) ==> json_document(text@) == Some(json_contents(v)),
        r is None ==> json_document(text@) is None,
{
    serde_json::from_str::<serde_json::Value>(text).ok()
}

/// Takes a value of `serde_json` apart, variant by variant, into the value of
/// this crate with the same contents. A number keeps what `Number::as_u64` and
/// its `Display` give for it.
#[verifier::external_body]
fn open_value(value: serde_json::Value) -> (r: JsonValue)
    ensures
        r@ == json_contents(value),
{
    match value {
        serde_json::Value::Null => JsonValue::Null,
        serde_json::Value::Bool(b) => JsonValue::Bool(b),
        serde_json::Value::Number(n) => JsonValue::Number(
            JsonNumber { unsigned: n.as_u64(), text: n.to_string() },
        ),
        serde_json::Value::String(s) => JsonValue::Text(s),
        serde_json::Value::Array(a) => JsonValue::Array(a.into_iter().map(open_value).collect()),
        serde_json::Value::Object(m) => JsonValue::Object(
            m.into_iter().map(|(key, v)| JsonField { key, value: open_value(v) }).collect(),
        ),
    }
}

/// Prints a value with `serde_json::to_string_pretty`: a function of what the
/// value holds. The layout is not restated.
#[verifier::external_body]
fn print_value(value: &serde_json::Value) -> (r: Option<String>)
    ensures
        opt_view(r) == json_pretty(json_contents(*value)),
{
    serde_json::to_string_pretty(value).ok()
}

/// Reads a JSON document.
pub fn parse_json(text: &str) -> (r: Option<JsonValue>)
    ensures
        opt_json(r) == json_document(text@),
{
    match read_value(text) {
        Some(value) => Some(open_value(value)),
        None => None,
    }
}

/// Whether a text is a JSON document.
pub fn is_json(text: &str) -> (r: bool)
    ensures
        r == (json_document(text@) is Some),
{
    match read_value(text) {
        Some(_) => true,
        None => false,
    }
}

/// A document printed with indentation; the text itself where printing fails,
/// and nothing where the text is no document.
pub fn prettify_json(text: &str) -> (r: Option<String>)
    ensures
        opt_view(r) == match json_document(text@) {
            Some(value) => Some(
                match json_pretty(value) {
                    Some(printed) => printed,
                    None => text@,
                },
            ),
            None => None,
        },
{
    match read_value(text) {
        Some(value) => match print_value(&value) {
            Some(printed) => Some(printed),
            None => Some(text.to_owned()),
        },
        None => None,
    }
}

} // verus!
