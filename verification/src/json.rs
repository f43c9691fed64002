//! JSON documents: a tree that the rest of the library reads, and the flat
//! objects that it writes. Text is parsed and written by `serde_json`.

use crate::text::same_text;
use serde_json::Value;
use vstd::prelude::*;

verus! {

/// `serde_json::Value`, carried from the parser to the tree.
#[verifier::external_type_specification]
#[verifier::external_body]
pub struct ExValue(Value);

/// A JSON value. Of a number only its value as an unsigned integer is kept.
pub enum Json {
    Null,
    Bool(bool),
    Number(Option<u64>),
    Text(String),
    List(Vec<Json>),
    Object(Vec<(String, Json)>),
}

/// The model of a JSON value.
pub ghost enum JsonView {
    Null,
    Bool(bool),
    Number(Option<u64>),
    Text(Seq<char>),
    List(Seq<JsonView>),
    Object(Seq<(Seq<char>, JsonView)>),
}

impl Json {
    /// The model of this value.
    pub open spec fn view(self) -> JsonView
        decreases self,
    {
        match self {
            Json::Null => JsonView::Null,
            Json::Bool(b) => JsonView::Bool(b),
            Json::Number(n) => JsonView::Number(n),
            Json::Text(s) => JsonView::Text(s@),
            Json::List(items) => JsonView::List(list_view(items@)),
            Json::Object(fields) => JsonView::Object(fields_view(fields@)),
        }
    }
}

/// The models of a run of values.
pub open spec fn list_view(items: Seq<Json>) -> Seq<JsonView>
    decreases items,
{
    if items.len() == 0 {
        Seq::empty()
    } else {
        list_view(items.drop_last()).push(items.last().view())
    }
}

/// The models of a run of fields.
pub open spec fn fields_view(fields: Seq<(String, Json)>) -> Seq<(Seq<char>, JsonView)>
    decreases fields,
{
    if fields.len() == 0 {
        Seq::empty()
    } else {
        fields_view(fields.drop_last()).push((fields.last().0@, fields.last().1.view()))
    }
}

proof fn lemma_list_view(items: Seq<Json>)
    ensures
        list_view(items).len() == items.len(),
        forall|i: int| 0 <= i < items.len() ==> #[trigger] list_view(items)[i] == items[i].view(),
    decreases items.len(),
{
    if items.len() > 0 {
        lemma_list_view(items.drop_last());
    }
}

proof fn lemma_fields_view(fields: Seq<(String, Json)>)
    ensures
        fields_view(fields).len() == fields.len(),
        forall|i: int|
            0 <= i < fields.len() ==> #[trigger] fields_view(fields)[i] == (
                fields[i].0@,
                fields[i].1.view(),
            ),
    decreases fields.len(),
{
    if fields.len() > 0 {
        lemma_fields_view(fields.drop_last());
    }
}

// -------------------------------------------------------------------- reading

/// The first field called `key`.
pub open spec fn field_in(fields: Seq<(Seq<char>, JsonView)>, key: Seq<char>) -> Option<JsonView>
    decreases fields.len(),
{
    if fields.len() == 0 {
        None
    } else if fields[0].0 == key {
        Some(fields[0].1)
    } else {
        field_in(fields.skip(1), key)
    }
}

proof fn lemma_field_in(fields: Seq<(Seq<char>, JsonView)>, key: Seq<char>, k: int)
    requires
        0 <= k <= fields.len(),
        forall|j: int| 0 <= j < k ==> (#[trigger] fields[j]).0 != key,
        k < fields.len() ==> fields[k].0 == key,
    ensures
        k < fields.len() ==> field_in(fields, key) == Some(fields[k].1),
        k == fields.len() ==> field_in(fields, key) is None,
    decreases fields.len(),
{
    if fields.len() > 0 && fields[0].0 != key {
        let rest = fields.skip(1);
        assert forall|j: int| 0 <= j < k - 1 implies (#[trigger] rest[j]).0 != key by {
            assert(rest[j] == fields[j + 1]);
        }
        lemma_field_in(rest, key, k - 1);
    }
}

impl JsonView {
    /// The field called `key`, where this is an object that has one.
    pub open spec fn field(self, key: Seq<char>) -> Option<JsonView> {
        match self {
            JsonView::Object(fields) => field_in(fields, key),
            _ => None,
        }
    }

    /// The text, where this is one.
    pub open spec fn text(self) -> Option<Seq<char>> {
        match self {
            JsonView::Text(s) => Some(s),
            _ => None,
        }
    }

    /// The number, where this is an unsigned integer.
    pub open spec fn number(self) -> Option<u64> {
        match self {
            JsonView::Number(n) => n,
            _ => None,
        }
    }

    /// The truth value, where this is one.
    pub open spec fn flag(self) -> Option<bool> {
        match self {
            JsonView::Bool(b) => Some(b),
            _ => None,
        }
    }

    /// The items, where this is a list.
    pub open spec fn items(self) -> Option<Seq<JsonView>> {
        match self {
            JsonView::List(items) => Some(items),
            _ => None,
        }
    }

    /// The text of the field called `key`.
    pub open spec fn text_field(self, key: Seq<char>) -> Option<Seq<char>> {
        match self.field(key) {
            Some(v) => v.text(),
            None => None,
        }
    }

    /// The number of the field called `key`.
    pub open spec fn number_field(self, key: Seq<char>) -> Option<u64> {
        match self.field(key) {
            Some(v) => v.number(),
            None => None,
        }
    }

    /// The items of the field called `key`; none when it is not a list.
    pub open spec fn list_field(self, key: Seq<char>) -> Option<Seq<JsonView>> {
        match self.field(key) {
            Some(v) => v.items(),
            None => None,
        }
    }
}

/// The model of the `i`-th of a run of items.
pub proof fn lemma_item(items: Seq<Json>, i: int)
    requires
        0 <= i < items.len(),
    ensures
        list_view(items).len() == items.len(),
        list_view(items)[i] == items[i].view(),
{
    lemma_list_view(items);
}

impl Json {
    /// The field called `key`, where this is an object that has one.
    pub fn get(&self, key: &str) -> (out: Option<&Json>)
        ensures
            match out {
                Some(v) => self@.field(key@) == Some(v@),
                None => self@.field(key@) is None,
            },
    {
        match self {
            Json::Object(fields) => {
                proof {
                    lemma_fields_view(fields@);
                }
                let mut i: usize = 0;
                while i < fields.len()
                    invariant
                        i <= fields@.len(),
                        fields_view(fields@).len() == fields@.len(),
                        forall|j: int|
                            0 <= j < fields@.len() ==> #[trigger] fields_view(fields@)[j] == (
                                fields@[j].0@,
                                fields@[j].1.view(),
                            ),
                        forall|j: int| 0 <= j < i ==> (#[trigger] fields_view(fields@)[j]).0 != key@,
                        self@ == JsonView::Object(fields_view(fields@)),
                    decreases fields@.len() - i,
                {
                    if same_text(fields[i].0.as_str(), key) {
                        proof {
                            lemma_field_in(fields_view(fields@), key@, i as int);
                        }
                        return Some(&fields[i].1);
                    }
                    i += 1;
                }
                proof {
                    lemma_field_in(fields_view(fields@), key@, i as int);
                }
                None
            },
            _ => None,
        }
    }

    /// The text, where this is one.
    pub fn as_text(&self) -> (out: Option<&String>)
        ensures
            match out {
                Some(s) => self@.text() == Some(s@),
                None => self@.text() is None,
            },
    {
        match self {
            Json::Text(s) => Some(s),
            _ => None,
        }
    }

    /// The number, where this is an unsigned integer.
    pub fn as_number(&self) -> (out: Option<u64>)
        ensures
            out == self@.number(),
    {
        match self {
            Json::Number(n) => *n,
            _ => None,
        }
    }

    /// The items, where this is a list.
    pub fn as_list(&self) -> (out: Option<&Vec<Json>>)
        ensures
            match out {
                Some(items) => {
                    &&& self@.items() == Some(list_view(items@))
                    &&& list_view(items@).len() == items@.len()
                    &&& forall|i: int|
                        0 <= i < items@.len() ==> #[trigger] list_view(items@)[i] == items@[i]@
                },
                None => self@.items() is None,
            },
    {
        match self {
            Json::List(items) => {
                proof {
                    lemma_list_view(items@);
                }
                Some(items)
            },
            _ => None,
        }
    }

    /// The text of the field called `key`.
    pub fn text_field(&self, key: &str) -> (out: Option<&String>)
        ensures
            match out {
                Some(s) => self@.text_field(key@) == Some(s@),
                None => self@.text_field(key@) is None,
            },
    {
        match self.get(key) {
            Some(v) => v.as_text(),
            None => None,
        }
    }

    /// The number of the field called `key`.
    pub fn number_field(&self, key: &str) -> (out: Option<u64>)
        ensures
            out == self@.number_field(key@),
    {
        match self.get(key) {
            Some(v) => v.as_number(),
            None => None,
        }
    }

    /// The items of the field called `key`.
    pub fn list_field(&self, key: &str) -> (out: Option<&Vec<Json>>)
        ensures
            match out {
                Some(items) => {
                    &&& self@.list_field(key@) == Some(list_view(items@))
                    &&& list_view(items@).len() == items@.len()
                    &&& forall|i: int|
                        0 <= i < items@.len() ==> #[trigger] list_view(items@)[i] == items@[i]@
                },
                None => self@.list_field(key@) is None,
            },
    {
        match self.get(key) {
            Some(v) => v.as_list(),
            None => None,
        }
    }
}

// -------------------------------------------------------------------- parsing

/// The document that `text` holds, where `serde_json` accepts it.
pub uninterp spec fn json_document(text: Seq<char>) -> Option<JsonView>;

/// A `serde_json::Value` as a tree of the library's own, variant by variant.
#[verifier::external_body]
fn tree(value: Value) -> (json: Json) {
    match value {
        Value::Null => Json::Null,
        Value::Bool(b) => Json::Bool(b),
        Value::Number(n) => Json::Number(n.as_u64()),
        Value::String(s) => Json::Text(s),
        Value::Array(items) => Json::List(items.into_iter().map(tree).collect()),
        Value::Object(fields) => {
            Json::Object(fields.into_iter().map(|(key, v)| (key, tree(v))).collect())
        },
    }
}

/// `serde_json::from_str::<serde_json::Value>`, as a tree.
///
/// Whether the text is accepted, and the document it then holds, depend on the
/// text alone. An error is the parser's own, in its own words.
#[verifier::external_body]
fn from_str(text: &str) -> (out: Result<Json, String>)
    ensures
        match out {
            Ok(json) => json_document(text@) == Some(json@),
            Err(_) => json_document(text@) is None,
        },
{
    match serde_json::from_str::<Value>(text) {
        Ok(value) => Ok(tree(value)),
        Err(e) => Err(e.to_string()),
    }
}

/// Parse a JSON document.
pub fn parse(text: &str) -> (out: Result<Json, String>)
    ensures
        match out {
            Ok(json) => json_document(text@) == Some(json@),
            Err(_) => json_document(text@) is None,
        },
{
    from_str(text)
}

// -------------------------------------------------------------------- writing

/// The value of a field in an object that the library writes.
pub enum Field {
    Flag(bool),
    Text(String),
    Texts(Vec<String>),
}

/// The texts in a vector.
pub open spec fn texts(list: Seq<String>) -> Seq<Seq<char>> {
    list.map_values(|s: String| s@)
}

/// The model of a field's value.
pub ghost enum FieldView {
    Flag(bool),
    Text(Seq<char>),
    Texts(Seq<Seq<char>>),
}

impl Field {
    /// The model of this value.
    pub open spec fn view(self) -> FieldView {
        match self {
            Field::Flag(b) => FieldView::Flag(b),
            Field::Text(s) => FieldView::Text(s@),
            Field::Texts(l) => FieldView::Texts(texts(l@)),
        }
    }
}

/// The models of the fields of an object.
pub open spec fn object_view(fields: Seq<(String, Field)>) -> Seq<(Seq<char>, FieldView)> {
    fields.map_values(|f: (String, Field)| (f.0@, f.1.view()))
}

/// What a written value reads back as.
pub open spec fn as_json(v: FieldView) -> JsonView {
    match v {
        FieldView::Flag(b) => JsonView::Bool(b),
        FieldView::Text(s) => JsonView::Text(s),
        FieldView::Texts(l) => JsonView::List(l.map_values(|s: Seq<char>| JsonView::Text(s))),
    }
}

/// Whether no two of the fields have the same name.
pub open spec fn names_distinct(fields: Seq<(Seq<char>, FieldView)>) -> bool {
    forall|i: int, j: int|
        0 <= i < j < fields.len() ==> (#[trigger] fields[i]).0 != (#[trigger] fields[j]).0
}

/// Whether `doc` is an object that has each of `fields`.
pub open spec fn holds_fields(doc: JsonView, fields: Seq<(Seq<char>, FieldView)>) -> bool {
    &&& doc is Object
    &&& forall|i: int|
        0 <= i < fields.len() ==> doc.field((#[trigger] fields[i]).0) == Some(
            as_json(fields[i].1),
        )
}

/// Whether parsing `text` gives an object with these fields, provided that no
/// two of them have the same name.
pub open spec fn reads_back(text: Seq<char>, fields: Seq<(Seq<char>, FieldView)>) -> bool {
    names_distinct(fields) ==> match json_document(text) {
        Some(doc) => holds_fields(doc, fields),
        None => false,
    }
}

/// The text that `serde_json` writes for an object with these fields.
pub uninterp spec fn json_text(fields: Seq<(Seq<char>, FieldView)>) -> Seq<char>;

/// `serde_json::Value::to_string` on an object built field by field.
///
/// The text depends on the fields alone, and parsing it gives an object with
/// the same fields, where no two of them have the same name.
#[verifier::external_body]
fn to_string(fields: &Vec<(String, Field)>) -> (text: String)
    ensures
        text@ == json_text(object_view(fields@)),
        reads_back(text@, object_view(fields@)),
{
    let mut object = serde_json::Map::new();
    for (name, value) in fields {
        let value = match value {
            Field::Flag(b) => Value::from(*b),
            Field::Text(s) => Value::from(s.as_str()),
            Field::Texts(l) => Value::from(l.clone()),
        };
        object.insert(name.clone(), value);
    }
    Value::Object(object).to_string()
}

/// Write a flat object as JSON text.
pub fn object_text(fields: &Vec<(String, Field)>) -> (text: String)
    ensures
        text@ == json_text(object_view(fields@)),
        reads_back(text@, object_view(fields@)),
{
    to_string(fields)
}

// ----------------------------------------------------------------------- laws

/// The first field of a name is the one that is read, wherever it stands and
/// whatever stands behind it; a name that no field has reads as nothing.
pub proof fn law_a_field_is_found_by_its_name(
    before: Seq<(Seq<char>, JsonView)>,
    key: Seq<char>,
    value: JsonView,
    after: Seq<(Seq<char>, JsonView)>,
)
    requires
        forall|i: int| 0 <= i < before.len() ==> (#[trigger] before[i]).0 != key,
    ensures
        JsonView::Object(before + seq![(key, value)] + after).field(key) == Some(value),
        JsonView::Object(before).field(key) is None,
{
    let fields = before + seq![(key, value)] + after;
    let n = before.len() as int;
    assert forall|j: int| 0 <= j < n implies (#[trigger] fields[j]).0 != key by {
        assert(fields[j] == before[j]);
    }
    lemma_field_in(fields, key, n);
    lemma_field_in(before, key, n);
}

/// A field is read as what it is, and as nothing else.
pub proof fn law_a_field_is_read_as_what_it_is(doc: JsonView, key: Seq<char>, value: JsonView)
    requires
        doc.field(key) == Some(value),
    ensures
        doc.text_field(key) matches Some(s) ==> value == JsonView::Text(s),
        value matches JsonView::Text(s) ==> doc.text_field(key) == Some(s),
        doc.number_field(key) matches Some(n) ==> value == JsonView::Number(Some(n)),
        value matches JsonView::Number(n) ==> doc.number_field(key) == n,
        doc.list_field(key) matches Some(l) ==> value == JsonView::List(l),
        value matches JsonView::List(l) ==> doc.list_field(key) == Some(l),
{
}

/// The texts of a vector are modelled one by one.
pub proof fn law_texts_are_modelled_one_by_one(list: Seq<String>, i: int)
    requires
        0 <= i < list.len(),
    ensures
        texts(list).len() == list.len(),
        texts(list)[i] == list[i]@,
{
}

/// What is modelled of a document is what it holds: each value as what it is,
/// the items of a list and the fields of an object in their order.
pub proof fn law_a_document_is_modelled_whole(doc: Json, i: int)
    ensures
        match doc {
            Json::Null => doc.view() is Null,
            Json::Bool(b) => doc.view() == JsonView::Bool(b),
            Json::Number(n) => doc.view() == JsonView::Number(n),
            Json::Text(s) => doc.view() == JsonView::Text(s@),
            Json::List(items) => {
                &&& doc.view() matches JsonView::List(list)
                &&& list.len() == items@.len()
                &&& 0 <= i < items@.len() ==> list[i] == items@[i].view()
            },
            Json::Object(fields) => {
                &&& doc.view() matches JsonView::Object(list)
                &&& list.len() == fields@.len()
                &&& 0 <= i < fields@.len() ==> list[i].0 == fields@[i].0@ && list[i].1
                    == fields@[i].1.view()
            },
        },
{
    match doc {
        Json::List(items) => lemma_list_view(items@),
        Json::Object(fields) => lemma_fields_view(fields@),
        _ => {},
    }
}

/// A value is read as what it is, and as nothing else.
pub proof fn law_a_value_is_read_as_what_it_is(v: JsonView, key: Seq<char>)
    ensures
        v.flag() matches Some(b) ==> v == JsonView::Bool(b),
        v matches JsonView::Bool(b) ==> v.flag() == Some(b),
        v.items() matches Some(l) ==> v == JsonView::List(l),
        v matches JsonView::List(l) ==> v.items() == Some(l),
        !(v is Object) ==> v.field(key) is None,
        v.field(key) is None ==> v.text_field(key) is None && v.number_field(key) is None
            && v.list_field(key) is None,
{
}

/// What is modelled of an object that is to be written is what it holds, and it
/// is read back as just that.
pub proof fn law_a_written_object_is_modelled_whole(fields: Seq<(String, Field)>, i: int)
    requires
        0 <= i < fields.len(),
    ensures
        object_view(fields).len() == fields.len(),
        object_view(fields)[i].0 == fields[i].0@,
        ({
            let read = as_json(object_view(fields)[i].1);
            match fields[i].1 {
                Field::Flag(b) => read == JsonView::Bool(b),
                Field::Text(s) => read == JsonView::Text(s@),
                Field::Texts(l) => {
                    &&& read matches JsonView::List(items)
                    &&& items.len() == l@.len()
                    &&& forall|k: int|
                        0 <= k < l@.len() ==> #[trigger] items[k] == JsonView::Text(l@[k]@)
                },
            }
        }),
{
}

/// What is written is read back: where no two fields have the same name, the text
/// holds an object, and each of its fields is what was written.
pub proof fn law_what_is_written_is_read_back(
    text: Seq<char>,
    fields: Seq<(Seq<char>, FieldView)>,
    i: int,
)
    requires
        reads_back(text, fields),
        forall|a: int, b: int|
            0 <= a < b < fields.len() ==> (#[trigger] fields[a]).0 != (#[trigger] fields[b]).0,
        0 <= i < fields.len(),
    ensures
        match json_document(text) {
            Some(doc) => {
                &&& doc is Object
                &&& match fields[i].1 {
                    FieldView::Flag(b) => doc.field(fields[i].0) == Some(JsonView::Bool(b)),
                    FieldView::Text(s) => doc.text_field(fields[i].0) == Some(s),
                    FieldView::Texts(l) => {
                        &&& doc.list_field(fields[i].0) matches Some(items)
                        &&& items.len() == l.len()
                        &&& forall|k: int|
                            0 <= k < l.len() ==> #[trigger] items[k] == JsonView::Text(l[k])
                    },
                }
            },
            None => false,
        },
{
    assert(names_distinct(fields));
}

} // verus!
