//! JSON values as the routing logic reads them.

use vstd::prelude::*;

use crate::text::text_eq;

verus! {

/// Numbers, of which only the integers are read.
#[verifier::external_type_specification]
#[verifier::external_body]
pub struct ExNumber(serde_json::Number);

/// Parsed JSON documents, converted to and from [`Json`].
#[verifier::external_type_specification]
#[verifier::external_body]
pub struct ExValue(serde_json::Value);

/// A JSON value.
#[derive(Debug, PartialEq)]
pub enum Json {
    Null,
    Bool(bool),
    Number(serde_json::Number),
    Text(String),
    Array(Vec<Json>),
    Object(Vec<Field>),
}

/// One member of a JSON object.
#[derive(Debug, PartialEq)]
pub struct Field {
    pub name: String,
    pub value: Json,
}

/// Mathematical object member.
pub struct Member {
    pub name: Seq<char>,
    pub value: JsonTree,
}

/// Mathematical JSON value.
pub enum JsonTree {
    Null,
    Bool(bool),
    Number(serde_json::Number),
    Text(Seq<char>),
    Array(Seq<JsonTree>),
    Object(Seq<Member>),
}

impl View for Json {
    type V = JsonTree;

    open spec fn view(&self) -> JsonTree
        decreases self,
    {
        match self {
            Json::Null => JsonTree::Null,
            Json::Bool(flag) => JsonTree::Bool(*flag),
            Json::Number(number) => JsonTree::Number(*number),
            Json::Text(text) => JsonTree::Text(text@),
            Json::Array(items) => JsonTree::Array(
                Seq::new(
                    items@.len(),
                    |i: int|
                        if 0 <= i < items@.len() {
                            items@[i].view()
                        } else {
                            JsonTree::Null
                        },
                ),
            ),
            Json::Object(fields) => JsonTree::Object(
                Seq::new(
                    fields@.len(),
                    |i: int|
                        if 0 <= i < fields@.len() {
                            Member { name: fields@[i].name@, value: fields@[i].value.view() }
                        } else {
                            Member { name: Seq::empty(), value: JsonTree::Null }
                        },
                ),
            ),
        }
    }
}

/// A field name that `serde_json` gives a meaning of its own when it parses.
pub const RAW_VALUE_NAME: &'static str = "$serde_json::private::RawValue";

/// Value of the first field called `name`.
pub open spec fn find_field(fields: Seq<Member>, name: Seq<char>) -> Option<JsonTree>
    decreases fields.len(),
{
    if fields.len() == 0 {
        None
    } else if fields[0].name == name {
        Some(fields[0].value)
    } else {
        find_field(fields.skip(1), name)
    }
}

/// No two fields share a name.
pub open spec fn unique_names(fields: Seq<Member>) -> bool {
    forall|i: int, j: int|
        0 <= i < j < fields.len() ==> #[trigger] fields[i].name != #[trigger] fields[j].name
}

/// `fields` with `name` set to `value`: in place where the name occurs, else at the end.
pub open spec fn with_field(
    fields: Seq<Member>,
    name: Seq<char>,
    value: JsonTree,
) -> Seq<Member>
    decreases fields.len(),
{
    if fields.len() == 0 {
        seq![Member { name, value }]
    } else if fields[0].name == name {
        fields.update(0, Member { name, value })
    } else {
        seq![fields[0]] + with_field(fields.skip(1), name, value)
    }
}

impl JsonTree {
    /// Field of an object; other values have none.
    pub open spec fn field(self, name: Seq<char>) -> Option<JsonTree> {
        match self {
            JsonTree::Object(fields) => find_field(fields, name),
            _ => None,
        }
    }

    /// Text of a string value.
    pub open spec fn text(self) -> Option<Seq<char>> {
        match self {
            JsonTree::Text(text) => Some(text),
            _ => None,
        }
    }

    /// Value of an integer.
    pub open spec fn integer(self) -> Option<i128> {
        match self {
            JsonTree::Number(number) => integer_value(number),
            _ => None,
        }
    }

    /// Text of the field `name`, where there is such a field and it is a string.
    pub open spec fn text_field(self, name: Seq<char>) -> Option<Seq<char>> {
        match self.field(name) {
            Some(value) => value.text(),
            None => None,
        }
    }

    /// Whether no object in this value holds a name twice.
    pub open spec fn has_unique_names(self) -> bool
        decreases self,
    {
        match self {
            JsonTree::Array(items) => forall|i: int|
                0 <= i < items.len() ==> (#[trigger] items[i]).has_unique_names(),
            JsonTree::Object(fields) => unique_names(fields) && forall|i: int|
                0 <= i < fields.len() ==> (#[trigger] fields[i]).value.has_unique_names(),
            _ => true,
        }
    }

    /// Whether no object in this value holds [`RAW_VALUE_NAME`].
    pub open spec fn lacks_raw_values(self) -> bool
        decreases self,
    {
        match self {
            JsonTree::Array(items) => forall|i: int|
                0 <= i < items.len() ==> (#[trigger] items[i]).lacks_raw_values(),
            JsonTree::Object(fields) => forall|i: int|
                0 <= i < fields.len() ==> (#[trigger] fields[i]).name != RAW_VALUE_NAME@
                    && fields[i].value.lacks_raw_values(),
            _ => true,
        }
    }

    /// Whether this value is what its rendering reads back as.
    pub open spec fn is_plain(self) -> bool {
        self.has_unique_names() && self.lacks_raw_values()
    }

    /// Whether `other` reads the same: the same texts, flags and integers, item by
    /// item in arrays and name by name in objects. Of a number that is no integer
    /// only that it is a number counts.
    pub open spec fn reads_as(self, other: JsonTree) -> bool
        decreases self,
    {
        match self {
            JsonTree::Number(number) => other matches JsonTree::Number(again) && (integer_value(
                number,
            ) is Some ==> integer_value(again) == integer_value(number)),
            JsonTree::Array(items) => other matches JsonTree::Array(others) && items.len()
                == others.len() && forall|i: int|
                0 <= i < items.len() ==> (#[trigger] items[i]).reads_as(others[i]),
            JsonTree::Object(fields) => {
                &&& other is Object
                &&& forall|name: Seq<char>| #[trigger]
                    other.field(name) is Some <==> self.field(name) is Some
                &&& forall|i: int|
                    0 <= i < fields.len() ==> (other.field((#[trigger] fields[i]).name) matches Some(
                        found,
                    ) && fields[i].value.reads_as(found))
            },
            _ => self == other,
        }
    }
}

/// Views of a slice of values.
pub open spec fn trees(items: Seq<Json>) -> Seq<JsonTree> {
    Seq::new(items.len(), |i: int| items[i]@)
}

/// Views of the fields of an object.
pub open spec fn field_trees(fields: Seq<Field>) -> Seq<Member> {
    Seq::new(fields.len(), |i: int| Member { name: fields[i].name@, value: fields[i].value@ })
}

/// The view of an array lists the views of its items.
pub proof fn lemma_array_view(items: Vec<Json>)
    ensures
        Json::Array(items)@ == JsonTree::Array(trees(items@)),
{
    let shown = Json::Array(items)@;
    assert(shown->Array_0 =~= trees(items@));
}

/// The view of an object lists its names with the views of its values.
pub proof fn lemma_object_view(fields: Vec<Field>)
    ensures
        Json::Object(fields)@ == JsonTree::Object(field_trees(fields@)),
{
    let shown = Json::Object(fields)@;
    assert(shown->Object_0 =~= field_trees(fields@));
}

impl Json {
    /// The text of a string value.
    pub fn as_text(&self) -> (text: Option<&str>)
        ensures
            match text {
                Some(text) => self@.text() == Some(text@),
                None => self@.text() is None,
            },
    {
        match self {
            Json::Text(text) => Some(text.as_str()),
            _ => None,
        }
    }

    /// The value of an integer; fractions and other values have none.
    pub fn as_integer(&self) -> (integer: Option<i128>)
        ensures
            integer == self@.integer(),
    {
        match self {
            Json::Number(number) => number_integer(number),
            _ => None,
        }
    }

    /// The items of an array.
    pub fn as_array(&self) -> (items: Option<&Vec<Json>>)
        ensures
            match items {
                Some(items) => self@ == JsonTree::Array(trees(items@)),
                None => !(self@ is Array),
            },
    {
        match self {
            Json::Array(items) => {
                proof {
                    lemma_array_view(*items);
                }
                Some(items)
            },
            _ => None,
        }
    }

    /// The field of an object; other values have none.
    pub fn get(&self, name: &str) -> (value: Option<&Json>)
        ensures
            match value {
                Some(value) => self@.field(name@) == Some(value@),
                None => self@.field(name@) is None,
            },
    {
        match self {
            Json::Object(fields) => {
                proof {
                    lemma_object_view(*fields);
                }
                let ghost all = field_trees(fields@);
                assert(all.skip(0) =~= all);
                let mut i: usize = 0;
                while i < fields.len()
                    invariant
                        i <= fields.len(),
                        all == field_trees(fields@),
                        self@ == JsonTree::Object(all),
                        find_field(all, name@) == find_field(all.skip(i as int), name@),
                    decreases fields.len() - i,
                {
                    assert(all.skip(i as int)[0] == all[i as int]);
                    if text_eq(fields[i].name.as_str(), name) {
                        return Some(&fields[i].value);
                    }
                    assert(all.skip(i as int).skip(1) =~= all.skip(i + 1));
                    i = i + 1;
                }
                None
            },
            _ => None,
        }
    }

    /// The text of a string field.
    pub fn get_text(&self, name: &str) -> (text: Option<&str>)
        ensures
            match text {
                Some(text) => self@.text_field(name@) == Some(text@),
                None => self@.text_field(name@) is None,
            },
    {
        match self.get(name) {
            Some(value) => value.as_text(),
            None => None,
        }
    }
}

/// Sets a string field of an object: in place where the name occurs, else at the end.
pub fn set_text_field(fields: &mut Vec<Field>, name: &str, text: &str)
    ensures
        field_trees(final(fields)@) == with_field(
            field_trees(old(fields)@),
            name@,
            JsonTree::Text(text@),
        ),
{
    let ghost all = field_trees(fields@);
    let ghost value = JsonTree::Text(text@);
    assert(all.skip(0) =~= all);
    assert(all.take(0) + with_field(all.skip(0), name@, value) =~= with_field(all, name@, value));
    let mut i: usize = 0;
    while i < fields.len()
        invariant
            i <= fields.len(),
            fields@ == old(fields)@,
            all == field_trees(fields@),
            value == JsonTree::Text(text@),
            with_field(all, name@, value) == all.take(i as int) + with_field(
                all.skip(i as int),
                name@,
                value,
            ),
        decreases fields.len() - i,
    {
        let ghost rest = all.skip(i as int);
        assert(rest[0] == all[i as int]);
        if text_eq(fields[i].name.as_str(), name) {
            let field = Field { name: name.to_owned(), value: Json::Text(text.to_owned()) };
            fields.set(i, field);
            proof {
                assert(field_trees(fields@) =~= all.update(i as int, Member { name: name@, value }));
                assert(all.update(i as int, Member { name: name@, value }) =~= all.take(i as int)
                    + rest.update(0, Member { name: name@, value }));
            }
            return;
        }
        proof {
            assert(rest.skip(1) =~= all.skip(i + 1));
            assert(all.take(i as int) + (seq![rest[0]] + with_field(rest.skip(1), name@, value))
                =~= all.take(i + 1) + with_field(all.skip(i + 1), name@, value));
        }
        i = i + 1;
    }
    fields.push(Field { name: name.to_owned(), value: Json::Text(text.to_owned()) });
    proof {
        assert(all.skip(i as int) =~= Seq::empty());
        assert(field_trees(fields@) =~= all.push(Member { name: name@, value }));
        assert(all.take(i as int) =~= all);
        assert(all + seq![Member { name: name@, value }] =~= all.push(Member { name: name@, value }));
    }
}

/// View of a parse outcome.
pub open spec fn json_outcome(parsed: Result<Json, String>) -> Result<JsonTree, Seq<char>> {
    match parsed {
        Ok(value) => Ok(value@),
        Err(text) => Err(text@),
    }
}

/// What `serde_json::from_slice` makes of a byte string: the document it holds,
/// or the rendered parse error.
pub uninterp spec fn parsed_json(bytes: Seq<u8>) -> Result<JsonTree, Seq<char>>;

/// The compact rendering that `serde_json::to_vec` gives a document.
pub uninterp spec fn json_bytes(tree: JsonTree) -> Seq<u8>;

/// The integer that a `serde_json::Number` holds; a fraction holds none.
pub uninterp spec fn integer_value(number: serde_json::Number) -> Option<i128>;

/// Calls `serde_json::Number::as_i128`: the value of a number that is held as an
/// integer. The result is a function of the number.
#[verifier::external_body]
fn number_integer(number: &serde_json::Number) -> (integer: Option<i128>)
    ensures
        integer == integer_value(*number),
{
    number.as_i128()
}

/// Converts a parsed `serde_json::Value`, member for member.
#[verifier::external_body]
fn json_from_value(value: serde_json::Value) -> Json {
    match value {
        serde_json::Value::Null => Json::Null,
        serde_json::Value::Bool(flag) => Json::Bool(flag),
        serde_json::Value::Number(number) => Json::Number(number),
        serde_json::Value::String(text) => Json::Text(text),
        serde_json::Value::Array(items) => {
            Json::Array(items.into_iter().map(json_from_value).collect())
        },
        serde_json::Value::Object(map) => Json::Object(
            map.into_iter().map(|(name, value)| Field { name, value: json_from_value(value) }).collect(),
        ),
    }
}

/// Converts to a `serde_json::Value`, member for member.
#[verifier::external_body]
fn json_to_value(value: &Json) -> serde_json::Value {
    match value {
        Json::Null => serde_json::Value::Null,
        Json::Bool(flag) => serde_json::Value::Bool(*flag),
        Json::Number(number) => serde_json::Value::Number(number.clone()),
        Json::Text(text) => serde_json::Value::String(text.clone()),
        Json::Array(items) => serde_json::Value::Array(items.iter().map(json_to_value).collect()),
        Json::Object(fields) => serde_json::Value::Object(
            fields.iter().map(|field| (field.name.clone(), json_to_value(&field.value))).collect(),
        ),
    }
}

/// Calls `serde_json::from_slice` for a `serde_json::Value`. The result is a
/// function of the bytes; every object it returns holds each name once, because
/// it comes out of a `serde_json::Map`.
#[verifier::external_body]
pub(crate) fn json_from_slice(bytes: &[u8]) -> (parsed: Result<Json, String>)
    ensures
        json_outcome(parsed) == parsed_json(bytes@),
        parsed matches Ok(value) ==> value@.has_unique_names(),
{
    serde_json::from_slice::<serde_json::Value>(bytes)
        .map(json_from_value)
        .map_err(|err| err.to_string())
}

/// Calls `serde_json::to_vec` on a `serde_json::Value`, which has no way to
/// fail: its keys are strings and the writer is a vector. Where the rendering of
/// a plain document parses again, it reads as it was written, integers included.
/// The value of a fraction is left unsaid: the reader may round its last digit.
/// So is whether it parses again: the reader limits nesting.
#[verifier::external_body]
pub(crate) fn json_to_vec(value: &Json) -> (bytes: Result<Vec<u8>, String>)
    ensures
        bytes matches Ok(bytes) && bytes@ == json_bytes(value@) && (value@.is_plain() ==> (
        parsed_json(bytes@) matches Ok(again) ==> value@.reads_as(again))),
{
    serde_json::to_vec(&json_to_value(value)).map_err(|err| err.to_string())
}

/// Setting a field makes that name read as the new value, leaves every other
/// name as it was, and keeps names distinct.
pub proof fn law_set_field(fields: Seq<Member>, name: Seq<char>, value: JsonTree, other: Seq<char>)
    ensures
        find_field(with_field(fields, name, value), name) == Some(value),
        other != name ==> find_field(with_field(fields, name, value), other) == find_field(
            fields,
            other,
        ),
        unique_names(fields) ==> unique_names(with_field(fields, name, value)),
        forall|m: Member| #[trigger]
            with_field(fields, name, value).contains(m) ==> fields.contains(m) || m == (Member {
                name,
                value,
            }),
    decreases fields.len(),
{
    let set = with_field(fields, name, value);
    let new = Member { name, value };
    if fields.len() == 0 {
        assert(set.skip(1) =~= fields);
        assert(find_field(set, other) == if other == name {
            Some(value)
        } else {
            find_field(set.skip(1), other)
        });
    } else if fields[0].name == name {
        assert(set.skip(1) =~= fields.skip(1));
        assert forall|m: Member| #[trigger] set.contains(m) implies fields.contains(m) || m
            == new by {
            let i = choose|i: int| 0 <= i < set.len() && set[i] == m;
            if i > 0 {
                assert(fields[i] == m);
            }
        }
    } else {
        let rest = fields.skip(1);
        let rest_set = with_field(rest, name, value);
        law_set_field(rest, name, value, other);
        assert(set.skip(1) =~= rest_set);
        assert(set[0] == fields[0]);
        assert forall|m: Member| #[trigger] set.contains(m) implies fields.contains(m) || m
            == new by {
            let i = choose|i: int| 0 <= i < set.len() && set[i] == m;
            if i == 0 {
                assert(fields[0] == m);
            } else {
                assert(rest_set[i - 1] == m);
                assert(rest_set.contains(m));
                if rest.contains(m) {
                    let j = choose|j: int| 0 <= j < rest.len() && rest[j] == m;
                    assert(fields[j + 1] == m);
                }
            }
        }
        if unique_names(fields) {
            assert(unique_names(rest)) by {
                assert forall|i: int, j: int| 0 <= i < j < rest.len() implies #[trigger] rest[i].name
                    != #[trigger] rest[j].name by {
                    assert(rest[i] == fields[i + 1] && rest[j] == fields[j + 1]);
                }
            }
            assert forall|i: int, j: int| 0 <= i < j < set.len() implies #[trigger] set[i].name
                != #[trigger] set[j].name by {
                assert(set[j] == rest_set[j - 1]);
                if i == 0 {
                    assert(rest_set.contains(rest_set[j - 1]));
                    if rest.contains(rest_set[j - 1]) {
                        let k = choose|k: int| 0 <= k < rest.len() && rest[k] == rest_set[j - 1];
                        assert(fields[k + 1] == rest_set[j - 1]);
                    }
                } else {
                    assert(set[i] == rest_set[i - 1]);
                }
            }
        }
    }
}

/// A found value is the value of some field with that name.
pub proof fn lemma_find_field_at(fields: Seq<Member>, name: Seq<char>) -> (at: int)
    requires
        find_field(fields, name) is Some,
    ensures
        0 <= at < fields.len(),
        fields[at] == (Member { name, value: find_field(fields, name)->0 }),
    decreases fields.len(),
{
    if fields[0].name == name {
        0
    } else {
        let rest = fields.skip(1);
        let at = lemma_find_field_at(rest, name);
        assert(fields[at + 1] == rest[at]);
        at + 1
    }
}

/// Setting a plain text field of a plain object keeps it plain.
pub proof fn lemma_set_field_keeps_plain(fields: Seq<Member>, name: Seq<char>, text: Seq<char>)
    requires
        JsonTree::Object(fields).is_plain(),
        name != RAW_VALUE_NAME@,
    ensures
        JsonTree::Object(with_field(fields, name, JsonTree::Text(text))).is_plain(),
{
    let value = JsonTree::Text(text);
    let set = with_field(fields, name, value);
    law_set_field(fields, name, value, name);
    assert forall|i: int| 0 <= i < set.len() implies (#[trigger] set[i]).name != RAW_VALUE_NAME@
        && set[i].value.lacks_raw_values() && set[i].value.has_unique_names() by {
        assert(set.contains(set[i]));
        if fields.contains(set[i]) {
            let k = choose|k: int| 0 <= k < fields.len() && fields[k] == set[i];
            assert(fields[k].value.has_unique_names());
        }
    }
}

/// A name reads as the first field that has it, and as nothing where no field
/// has it.
pub proof fn law_first_field_is_read(fields: Seq<Member>, name: Seq<char>, first: int)
    ensures
        (forall|i: int| 0 <= i < fields.len() ==> (#[trigger] fields[i]).name != name)
            ==> find_field(fields, name) is None,
        0 <= first < fields.len() && fields[first].name == name && (forall|i: int|
            0 <= i < first ==> (#[trigger] fields[i]).name != name) ==> find_field(fields, name)
            == Some(fields[first].value),
    decreases fields.len(),
{
    if fields.len() > 0 && fields[0].name != name {
        let rest = fields.skip(1);
        law_first_field_is_read(rest, name, first - 1);
        if forall|i: int| 0 <= i < fields.len() ==> (#[trigger] fields[i]).name != name {
            assert forall|i: int| 0 <= i < rest.len() implies (#[trigger] rest[i]).name
                != name by {
                assert(fields[i + 1].name != name);
            }
        }
        if 0 < first < fields.len() && (forall|i: int|
            0 <= i < first ==> (#[trigger] fields[i]).name != name) {
            assert forall|i: int| 0 <= i < first - 1 implies (#[trigger] rest[i]).name
                != name by {
                assert(fields[i + 1].name != name);
            }
        }
    } else if fields.len() > 0 {
        assert(fields[0].name == name);
    }
}

/// Setting a field touches one place: the first field with the name takes the
/// value, a new field at the end does where there is none, and every other field
/// stays where and what it is.
pub proof fn law_setting_touches_one_place(fields: Seq<Member>, name: Seq<char>, value: JsonTree)
    ensures
        find_field(fields, name) is None ==> with_field(fields, name, value) == fields.push(
            Member { name, value },
        ),
        find_field(fields, name) is Some ==> with_field(fields, name, value).len() == fields.len(),
        forall|i: int|
            0 <= i < fields.len() ==> #[trigger] with_field(fields, name, value)[i] == if fields[i].name
                == name && (forall|j: int| 0 <= j < i ==> (#[trigger] fields[j]).name != name) {
                Member { name, value }
            } else {
                fields[i]
            },
    decreases fields.len(),
{
    let set = with_field(fields, name, value);
    if fields.len() > 0 {
        let rest = fields.skip(1);
        law_setting_touches_one_place(rest, name, value);
        if fields[0].name == name {
            assert forall|i: int| 0 <= i < fields.len() implies #[trigger] set[i] == if fields[i].name
                == name && (forall|j: int| 0 <= j < i ==> (#[trigger] fields[j]).name != name) {
                Member { name, value }
            } else {
                fields[i]
            } by {
                if i > 0 {
                    assert(fields[0].name == name);
                }
            }
        } else {
            let rest_set = with_field(rest, name, value);
            assert(set =~= seq![fields[0]] + rest_set);
            if find_field(fields, name) is None {
                assert(set =~= fields.push(Member { name, value }));
            }
            assert forall|i: int| 0 <= i < fields.len() implies #[trigger] set[i] == if fields[i].name
                == name && (forall|j: int| 0 <= j < i ==> (#[trigger] fields[j]).name != name) {
                Member { name, value }
            } else {
                fields[i]
            } by {
                if i > 0 {
                    assert(rest[i - 1] == fields[i]);
                    assert(set[i] == rest_set[i - 1]);
                    if forall|j: int| 0 <= j < i ==> (#[trigger] fields[j]).name != name {
                        assert forall|j: int| 0 <= j < i - 1 implies (
                        #[trigger] rest[j]).name != name by {
                            assert(fields[j + 1] == rest[j]);
                        }
                    } else {
                        let j = choose|j: int| 0 <= j < i && !((#[trigger] fields[j]).name != name);
                        assert(rest[j - 1] == fields[j]);
                    }
                }
            }
        }
    } else {
        assert(set =~= fields.push(Member { name, value }));
    }
}

/// Only a string has a text, and it is the whole string; only an object has
/// fields; a text field is a field that is a string.
pub proof fn law_values_are_read_whole(tree: JsonTree, name: Seq<char>, text: Seq<char>)
    ensures
        tree.text() == Some(text) <==> tree == JsonTree::Text(text),
        !(tree is Text) ==> tree.text() is None,
        tree.field(name) is Some ==> tree is Object,
        tree matches JsonTree::Object(fields) ==> tree.field(name) == find_field(fields, name),
        tree.text_field(name) == Some(text) <==> tree.field(name) == Some(JsonTree::Text(text)),
        tree.integer() is Some ==> tree is Number,
        tree matches JsonTree::Number(number) ==> tree.integer() == integer_value(number),
{
}

/// A value shows itself whole: its text, flag or number, every item in its
/// place, and every field under its name.
pub proof fn law_views_show_everything(
    text: String,
    flag: bool,
    number: serde_json::Number,
    items: Vec<Json>,
    fields: Vec<Field>,
)
    ensures
        Json::Null@ == JsonTree::Null,
        Json::Text(text)@ == JsonTree::Text(text@),
        Json::Bool(flag)@ == JsonTree::Bool(flag),
        Json::Number(number)@ == JsonTree::Number(number),
        Json::Array(items)@ matches JsonTree::Array(shown) && shown.len() == items@.len() && forall|
            i: int,
        |
            0 <= i < items@.len() ==> #[trigger] shown[i] == items@[i]@,
        Json::Object(fields)@ matches JsonTree::Object(shown) && shown.len() == fields@.len()
            && forall|i: int|
            0 <= i < fields@.len() ==> (#[trigger] shown[i]).name == fields@[i].name@
                && shown[i].value == fields@[i].value@,
{
    lemma_array_view(items);
    lemma_object_view(fields);
}

/// What reads the same has the same texts, flags and integers, as many array
/// items, and the same object names, and so on inside.
pub proof fn law_reading_the_same_goes_deep(
    left: JsonTree,
    right: JsonTree,
    i: int,
    name: Seq<char>,
)
    requires
        left.reads_as(right),
    ensures
        left.text() == right.text(),
        left is Null <==> right is Null,
        left is Bool <==> right is Bool,
        left is Number <==> right is Number,
        left matches JsonTree::Bool(flag) ==> right == JsonTree::Bool(flag),
        left.integer() is Some ==> right.integer() == left.integer(),
        left matches JsonTree::Array(items) ==> (right matches JsonTree::Array(others)
            && items.len() == others.len() && (0 <= i < items.len() ==> items[i].reads_as(
            others[i],
        ))),
        left is Object <==> right is Object,
        left.field(name) is Some <==> right.field(name) is Some,
        left.field(name) matches Some(inner) ==> inner.reads_as(right.field(name)->0),
{
    if let JsonTree::Object(fields) = left {
        assert(right.field(name) is Some <==> left.field(name) is Some);
        if left.field(name) is Some {
            let at = lemma_find_field_at(fields, name);
            assert(fields[at].value.reads_as(right.field(fields[at].name)->0));
        }
    }
}

/// A value is plain where no object in it holds a name twice or the name that the
/// parser gives a meaning of its own: scalars always are, an array where its
/// items are, and an object where its names and its values are.
pub proof fn law_plain_values(items: Seq<JsonTree>, fields: Seq<Member>, scalar: JsonTree)
    ensures
        !(scalar is Array) && !(scalar is Object) ==> scalar.is_plain(),
        JsonTree::Array(items).is_plain() <==> forall|i: int|
            0 <= i < items.len() ==> (#[trigger] items[i]).is_plain(),
        JsonTree::Object(fields).is_plain() <==> (forall|i: int, j: int|
            0 <= i < j < fields.len() ==> (#[trigger] fields[i]).name != (
            #[trigger] fields[j]).name) && (forall|i: int|
            0 <= i < fields.len() ==> (#[trigger] fields[i]).name
                != "$serde_json::private::RawValue"@ && fields[i].value.is_plain()),
{
    let array = JsonTree::Array(items);
    if array.is_plain() {
        assert(array.has_unique_names());
        assert(array.lacks_raw_values());
        assert(array->Array_0 == items);
        assert forall|i: int| 0 <= i < items.len() implies (#[trigger] items[i]).is_plain() by {
            assert(array->Array_0[i].has_unique_names());
            assert(array->Array_0[i].lacks_raw_values());
        }
    }
    if forall|i: int| 0 <= i < items.len() ==> (#[trigger] items[i]).is_plain() {
        assert forall|i: int| 0 <= i < items.len() implies (#[trigger] items[i]).has_unique_names()
            && items[i].lacks_raw_values() by {
            assert(items[i].is_plain());
        }
        assert(array.has_unique_names());
        assert(array.lacks_raw_values());
    }
    if forall|i: int|
        0 <= i < fields.len() ==> (#[trigger] fields[i]).name != "$serde_json::private::RawValue"@
            && fields[i].value.is_plain() {
        assert forall|i: int| 0 <= i < fields.len() implies (
        #[trigger] fields[i]).value.has_unique_names() && fields[i].value.lacks_raw_values() by {
            assert(fields[i].value.is_plain());
        }
    }
}

} // verus!
