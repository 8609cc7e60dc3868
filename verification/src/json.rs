//! JSON documents, as a tree that the library reads and as the values of `serde_json`
//! that it carries.

use serde_json::Value;
use vstd::prelude::*;
use vstd::utf8::*;

use crate::text::same_text;

verus! {

/// What a JSON document says.
///
/// A number is an unsigned integer, a signed integer, both or (with a fraction or an
/// exponent, or out of range) neither; `text` is how it is written.
#[verifier::ext_equal]
pub enum JsonView {
    Null,
    Bool(bool),
    Number { unsigned: Option<u64>, signed: Option<i64>, text: Seq<char> },
    Text(Seq<char>),
    Array(Seq<JsonView>),
    Object(Map<Seq<char>, JsonView>),
}

impl JsonView {
    /// The member `key`, if this is an object that has one.
    pub open spec fn member(self, key: Seq<char>) -> Option<JsonView> {
        match self {
            JsonView::Object(fields) => if fields.contains_key(key) {
                Some(fields[key])
            } else {
                None
            },
            _ => None,
        }
    }

    /// The characters of a string.
    pub open spec fn text(self) -> Option<Seq<char>> {
        match self {
            JsonView::Text(text) => Some(text),
            _ => None,
        }
    }

    /// The value of an integer that is not negative.
    pub open spec fn natural(self) -> Option<u64> {
        match self {
            JsonView::Number { unsigned, .. } => unsigned,
            _ => None,
        }
    }

    /// The truth value of a boolean.
    pub open spec fn truth(self) -> Option<bool> {
        match self {
            JsonView::Bool(b) => Some(b),
            _ => None,
        }
    }

    /// The string under `key`, if this is an object that has one there.
    pub open spec fn text_member(self, key: Seq<char>) -> Option<Seq<char>> {
        match self.member(key) {
            Some(value) => value.text(),
            None => None,
        }
    }

    /// The number `n`.
    pub open spec fn of_natural(n: u64) -> JsonView {
        JsonView::Number {
            unsigned: Some(n),
            signed: if n <= i64::MAX {
                Some(n as i64)
            } else {
                None
            },
            text: crate::text::decimal(n as nat),
        }
    }

    /// Arrays and objects nest at most `depth` deep, and every number is an integer.
    pub open spec fn exact_within(self, depth: nat) -> bool
        decreases depth,
    {
        match self {
            JsonView::Number { unsigned, signed, .. } => unsigned is Some || signed is Some,
            JsonView::Array(items) => depth > 0 && forall|i: int|
                0 <= i < items.len() ==> (#[trigger] items[i]).exact_within((depth - 1) as nat),
            JsonView::Object(fields) => depth > 0 && forall|key: Seq<char>|
                fields.contains_key(key) ==> (#[trigger] fields[key]).exact_within(
                    (depth - 1) as nat,
                ),
            _ => true,
        }
    }

    /// Arrays and objects nest at most `depth` deep, and every number is an integer or is written
    /// without an exponent.
    pub open spec fn plain_within(self, depth: nat) -> bool
        decreases depth,
    {
        match self {
            JsonView::Number { unsigned, signed, text } => unsigned is Some || signed is Some
                || !text.contains('e'),
            JsonView::Array(items) => depth > 0 && forall|i: int|
                0 <= i < items.len() ==> (#[trigger] items[i]).plain_within((depth - 1) as nat),
            JsonView::Object(fields) => depth > 0 && forall|key: Seq<char>|
                fields.contains_key(key) ==> (#[trigger] fields[key]).plain_within(
                    (depth - 1) as nat,
                ),
            _ => true,
        }
    }

    /// The documents nest at most `depth` deep and are the same, except that a number that is no
    /// integer may be another one that is no integer.
    pub open spec fn alike_within(self, other: JsonView, depth: nat) -> bool
        decreases depth,
    {
        match (self, other) {
            (
                JsonView::Number { unsigned: None, signed: None, .. },
                JsonView::Number { unsigned, signed, .. },
            ) => unsigned is None && signed is None,
            (JsonView::Array(items), JsonView::Array(others)) => depth > 0 && items.len()
                == others.len() && forall|i: int|
                0 <= i < items.len() ==> (#[trigger] items[i]).alike_within(
                    others[i],
                    (depth - 1) as nat,
                ),
            (JsonView::Object(fields), JsonView::Object(others)) => depth > 0 && fields.dom()
                == others.dom() && forall|key: Seq<char>|
                fields.contains_key(key) ==> (#[trigger] fields[key]).alike_within(
                    others[key],
                    (depth - 1) as nat,
                ),
            _ => self == other,
        }
    }
}

/// The fields of an object that result from entering the pairs one after the other.
pub open spec fn entered(pairs: Seq<(Seq<char>, JsonView)>) -> Map<Seq<char>, JsonView>
    decreases pairs.len(),
{
    if pairs.len() == 0 {
        Map::empty()
    } else {
        entered(pairs.drop_last()).insert(pairs.last().0, pairs.last().1)
    }
}

/// No key occurs twice.
pub open spec fn distinct_keys(pairs: Seq<(Seq<char>, JsonView)>) -> bool {
    forall|i: int, j: int|
        0 <= i < j < pairs.len() ==> (#[trigger] pairs[i]).0 != (#[trigger] pairs[j]).0
}

/// How deep arrays and objects may nest for the parser.
pub open spec fn max_depth() -> nat {
    127
}

/// A key that none of the pairs has is not a field.
pub proof fn lemma_entered_absent(pairs: Seq<(Seq<char>, JsonView)>, key: Seq<char>)
    requires
        forall|i: int| 0 <= i < pairs.len() ==> (#[trigger] pairs[i]).0 != key,
    ensures
        !entered(pairs).contains_key(key),
    decreases pairs.len(),
{
    if pairs.len() > 0 {
        let front = pairs.drop_last();
        assert forall|i: int| 0 <= i < front.len() implies (#[trigger] front[i]).0 != key by {
            assert(front[i] == pairs[i]);
        }
        lemma_entered_absent(front, key);
        assert(pairs.last() == pairs[pairs.len() - 1]);
    }
}

/// The last pair with a key gives the field its value.
pub proof fn lemma_entered_present(pairs: Seq<(Seq<char>, JsonView)>, at: int)
    requires
        0 <= at < pairs.len(),
        forall|i: int| at < i < pairs.len() ==> (#[trigger] pairs[i]).0 != pairs[at].0,
    ensures
        entered(pairs).contains_key(pairs[at].0),
        entered(pairs)[pairs[at].0] == pairs[at].1,
    decreases pairs.len(),
{
    if at < pairs.len() - 1 {
        let front = pairs.drop_last();
        assert forall|i: int| at < i < front.len() implies (#[trigger] front[i]).0
            != front[at].0 by {
            assert(front[i] == pairs[i]);
        }
        lemma_entered_present(front, at);
        assert(pairs.last() == pairs[pairs.len() - 1]);
    }
}

/// Entering pairs makes finitely many fields.
pub proof fn lemma_entered_finite(pairs: Seq<(Seq<char>, JsonView)>)
    ensures
        entered(pairs).dom().finite(),
    decreases pairs.len(),
{
    if pairs.len() > 0 {
        lemma_entered_finite(pairs.drop_last());
    }
}

/// The fields of an exact object are exact one level further down.
pub proof fn lemma_field_is_exact(object: JsonView, key: Seq<char>, depth: nat)
    requires
        object is Object,
        object.exact_within(depth + 1),
        object->Object_0.contains_key(key),
    ensures
        object->Object_0[key].exact_within(depth),
{
}

/// Pairs that are exact one by one make an object that is exact one level further up.
pub proof fn lemma_entered_exact(pairs: Seq<(Seq<char>, JsonView)>, depth: nat)
    requires
        forall|i: int| 0 <= i < pairs.len() ==> (#[trigger] pairs[i]).1.exact_within(depth),
    ensures
        JsonView::Object(entered(pairs)).exact_within(depth + 1),
    decreases pairs.len(),
{
    if pairs.len() > 0 {
        let front = pairs.drop_last();
        assert forall|i: int| 0 <= i < front.len() implies (#[trigger] front[i]).1.exact_within(
            depth,
        ) by {
            assert(front[i] == pairs[i]);
        }
        lemma_entered_exact(front, depth);
        assert(pairs[pairs.len() - 1].1.exact_within(depth));
        assert forall|key: Seq<char>| entered(pairs).contains_key(key) implies (#[trigger] entered(
            pairs,
        )[key]).exact_within(depth) by {
            if key != pairs.last().0 {
                lemma_field_is_exact(JsonView::Object(entered(front)), key, depth);
            }
        }
    }
}

/// The fields of a plain object are plain one level further down.
pub proof fn lemma_field_is_plain(object: JsonView, key: Seq<char>, depth: nat)
    requires
        object is Object,
        object.plain_within(depth + 1),
        object->Object_0.contains_key(key),
    ensures
        object->Object_0[key].plain_within(depth),
{
}

/// Pairs that are plain one by one make an object that is plain one level further up.
pub proof fn lemma_entered_plain(pairs: Seq<(Seq<char>, JsonView)>, depth: nat)
    requires
        forall|i: int| 0 <= i < pairs.len() ==> (#[trigger] pairs[i]).1.plain_within(depth),
    ensures
        JsonView::Object(entered(pairs)).plain_within(depth + 1),
    decreases pairs.len(),
{
    if pairs.len() > 0 {
        let front = pairs.drop_last();
        assert forall|i: int| 0 <= i < front.len() implies (#[trigger] front[i]).1.plain_within(
            depth,
        ) by {
            assert(front[i] == pairs[i]);
        }
        lemma_entered_plain(front, depth);
        assert(pairs[pairs.len() - 1].1.plain_within(depth));
        assert forall|key: Seq<char>| entered(pairs).contains_key(key) implies (#[trigger] entered(
            pairs,
        )[key]).plain_within(depth) by {
            if key != pairs.last().0 {
                lemma_field_is_plain(JsonView::Object(entered(front)), key, depth);
            }
        }
    }
}

/// A document whose numbers are integers is plain.
pub proof fn lemma_exact_is_plain(document: JsonView, depth: nat)
    requires
        document.exact_within(depth),
    ensures
        document.plain_within(depth),
    decreases depth,
{
    match document {
        JsonView::Array(items) => {
            assert forall|i: int| 0 <= i < items.len() implies (#[trigger] items[i]).plain_within(
                (depth - 1) as nat,
            ) by {
                lemma_exact_is_plain(items[i], (depth - 1) as nat);
            }
        },
        JsonView::Object(fields) => {
            assert forall|key: Seq<char>| fields.contains_key(key) implies (
            #[trigger] fields[key]).plain_within((depth - 1) as nat) by {
                lemma_exact_is_plain(fields[key], (depth - 1) as nat);
            }
        },
        _ => {},
    }
}

/// What is like a document whose numbers are integers is that document.
pub proof fn lemma_alike_to_exact(document: JsonView, other: JsonView, depth: nat)
    requires
        document.exact_within(depth),
        document.alike_within(other, depth),
    ensures
        other == document,
    decreases depth,
{
    match (document, other) {
        (JsonView::Array(items), JsonView::Array(others)) => {
            assert forall|i: int| 0 <= i < items.len() implies others[i] == #[trigger] items[i] by {
                lemma_alike_to_exact(items[i], others[i], (depth - 1) as nat);
            }
            assert(others =~= items);
        },
        (JsonView::Object(fields), JsonView::Object(others)) => {
            assert forall|key: Seq<char>| fields.contains_key(key) implies others[key]
                == #[trigger] fields[key] by {
                lemma_alike_to_exact(fields[key], others[key], (depth - 1) as nat);
            }
            assert(others =~= fields);
        },
        _ => {},
    }
}

/// What is like an object has the same members, each like the one that it stands for; a member
/// whose numbers are integers is there as it was.
pub proof fn lemma_alike_member(object: JsonView, other: JsonView, key: Seq<char>, depth: nat)
    requires
        object is Object,
        object.alike_within(other, depth + 1),
    ensures
        other is Object,
        other.member(key) is Some <==> object.member(key) is Some,
        object.member(key) matches Some(part) ==> part.alike_within(other.member(key)->0, depth),
        object.member(key) matches Some(part) ==> (part.exact_within(depth) ==> other.member(key)
            == Some(part)),
{
    let fields = object->Object_0;
    assert(other->Object_0.contains_key(key) <==> other->Object_0.dom().contains(key));
    assert(fields.contains_key(key) <==> fields.dom().contains(key));
    if fields.contains_key(key) {
        assert(fields[key].alike_within(other->Object_0[key], depth));
        if fields[key].exact_within(depth) {
            lemma_alike_to_exact(fields[key], other->Object_0[key], depth);
        }
    }
}

/// Text that spells a document whose numbers are integers denotes it.
pub proof fn lemma_exact_is_denoted(text: Seq<char>, document: JsonView)
    requires
        spells(text, document),
        document.exact_within(max_depth()),
    ensures
        denotes(text, document),
{
    lemma_exact_is_plain(document, max_depth());
    if let Ok(read) = parsed_document(text) {
        lemma_alike_to_exact(document, read, max_depth());
    }
}

/// A JSON value of `serde_json`, carried as it is.
#[verifier::external_type_specification]
#[verifier::external_body]
pub struct ExValue(serde_json::Value);

/// The document that a `serde_json::Value` holds.
pub uninterp spec fn document(value: Value) -> JsonView;

/// What `serde_json::from_str` makes of JSON text: the document, or the error's wording.
pub uninterp spec fn parsed_document(text: Seq<char>) -> Result<JsonView, Seq<char>>;

/// The compact text that `serde_json` displays for a value.
pub uninterp spec fn compact_text(document: JsonView) -> Seq<char>;

/// The indented text that `serde_json::to_string_pretty` writes for a value.
pub uninterp spec fn pretty_text(document: JsonView) -> Seq<char>;

/// The bytes that the compact serializer of `serde_json` writes for an object whose
/// members come in the given order.
pub uninterp spec fn encoded_members(pairs: Seq<(Seq<char>, JsonView)>) -> Seq<u8>;

/// The text is JSON and says what `document` says.
pub open spec fn denotes(text: Seq<char>, document: JsonView) -> bool {
    parsed_document(text) == Ok::<JsonView, Seq<char>>(document)
}

/// The text is what the document is written as. Read again it gives a like document, and it can be
/// read again if the document is plain and nests no deeper than the parser goes.
pub open spec fn spells(text: Seq<char>, document: JsonView) -> bool {
    match parsed_document(text) {
        Ok(read) => document.alike_within(read, max_depth()),
        Err(_) => !document.plain_within(max_depth()),
    }
}

/// The documents under the names of an object's members.
pub open spec fn member_documents(members: Seq<(String, Value)>) -> Seq<(Seq<char>, JsonView)> {
    members.map_values(|m: (String, Value)| (m.0@, document(m.1)))
}

/// The outermost level of a value: what it is, and the values right under it.
pub enum JsonLayer {
    Null,
    Bool(bool),
    Number { unsigned: Option<u64>, signed: Option<i64>, text: String },
    Text(String),
    Array(Vec<Value>),
    Object(Vec<(String, Value)>),
}

impl JsonLayer {
    /// The document whose outermost level this is.
    pub open spec fn document(self) -> JsonView {
        match self {
            JsonLayer::Null => JsonView::Null,
            JsonLayer::Bool(b) => JsonView::Bool(b),
            JsonLayer::Number { unsigned, signed, text } => JsonView::Number {
                unsigned,
                signed,
                text: text@,
            },
            JsonLayer::Text(text) => JsonView::Text(text@),
            JsonLayer::Array(items) => JsonView::Array(
                items@.map_values(|value: Value| document(value)),
            ),
            JsonLayer::Object(members) => JsonView::Object(entered(member_documents(members@))),
        }
    }
}

/// `serde_json::from_str` to a `Value`: the value holds the document that the text denotes,
/// and where the text denotes none, the error is handed out in its own words.
#[verifier::external_body]
pub(crate) fn parse_value(text: &str) -> (r: Result<Value, String>)
    ensures
        match r {
            Ok(value) => denotes(text@, document(value)),
            Err(wording) => parsed_document(text@) == Err::<JsonView, Seq<char>>(wording@),
        },
{
    match serde_json::from_str::<Value>(text) {
        Ok(value) => Ok(value),
        Err(error) => Err(error.to_string()),
    }
}

/// The variants of `serde_json::Value`, a number by `Number::as_u64`, `Number::as_i64` and its
/// text, an object by the pairs that its `Map` yields: taken apart, a value holds the same
/// document as before, and an object has each key once.
#[verifier::external_body]
pub(crate) fn open_value(value: Value) -> (layer: JsonLayer)
    ensures
        layer.document() == document(value),
        layer matches JsonLayer::Object(members) ==> distinct_keys(member_documents(members@)),
{
    match value {
        Value::Null => JsonLayer::Null,
        Value::Bool(b) => JsonLayer::Bool(b),
        Value::Number(n) => JsonLayer::Number {
            unsigned: n.as_u64(),
            signed: n.as_i64(),
            text: n.to_string(),
        },
        Value::String(text) => JsonLayer::Text(text),
        Value::Array(items) => JsonLayer::Array(items),
        Value::Object(members) => JsonLayer::Object(members.into_iter().collect()),
    }
}

/// `serde_json::Value::from` a string: a JSON string of the same characters.
#[verifier::external_body]
pub(crate) fn text_value(text: &str) -> (value: Value)
    ensures
        document(value) == JsonView::Text(text@),
{
    Value::from(text)
}

/// `serde_json::Value::from` an unsigned integer: the JSON number with that value, written
/// in decimal.
#[verifier::external_body]
pub(crate) fn natural_value(n: u64) -> (value: Value)
    ensures
        document(value) == JsonView::of_natural(n),
{
    Value::from(n)
}

/// `serde_json::Map` collected from pairs, as a `Value`: an object with these members.
#[verifier::external_body]
pub(crate) fn object_value(members: Vec<(String, Value)>) -> (value: Value)
    requires
        distinct_keys(member_documents(members@)),
    ensures
        document(value) == JsonView::Object(entered(member_documents(members@))),
{
    Value::Object(members.into_iter().collect())
}

/// `serde_json::Value::get` with a string: the value of the member of that name, if this is an
/// object that has one.
#[verifier::external_body]
pub(crate) fn value_member<'a>(value: &'a Value, key: &str) -> (member: Option<&'a Value>)
    ensures
        match member {
            Some(inner) => document(*value).member(key@) == Some(document(*inner)),
            None => document(*value).member(key@) is None,
        },
{
    value.get(key)
}

/// `serde_json::Value::as_u64`: the value of an integer that is not negative.
#[verifier::external_body]
pub(crate) fn value_natural(value: &Value) -> (natural: Option<u64>)
    ensures
        natural == document(*value).natural(),
{
    value.as_u64()
}

/// `Clone` of `serde_json::Value`: another value that holds the same document.
pub assume_specification[ <serde_json::Value as std::clone::Clone>::clone ](
    value: &serde_json::Value,
) -> (copy: serde_json::Value)
    ensures
        document(copy) == document(*value),
;

/// The `Display` of `serde_json::Value`: the document's compact text.
#[verifier::external_body]
pub(crate) fn value_text(value: &Value) -> (text: String)
    ensures
        text@ == compact_text(document(*value)),
{
    value.to_string()
}

/// `serde_json::to_string_pretty` on a `Value`. It fails for a `Serialize` that fails or for a
/// map with keys that are not strings; a `Value` has neither.
#[verifier::external_body]
pub(crate) fn pretty_value_text(value: &Value) -> (r: Result<String, String>)
    ensures
        r is Ok,
        r->Ok_0@ == pretty_text(document(*value)),
{
    match serde_json::to_string_pretty(value) {
        Ok(text) => Ok(text),
        Err(error) => Err(error.to_string()),
    }
}

/// `collect_map` of the compact `serde_json::Serializer`, into memory: an object with the
/// members in their order. Keys are strings and the values' `Serialize` does not fail, so it
/// succeeds. The bytes are UTF-8 text that holds no line feed, since strings are escaped and
/// nothing is written between the tokens. Where no key occurs twice, the text is read again as an
/// object like the one written: a number that is no integer is written with a point or an exponent
/// and read as a number that is no integer, though perhaps a neighbouring one; all else is the
/// same. Reading fails only where it nests deeper than the parser goes, or for a number with an
/// exponent, which may come out as too large.
#[verifier::external_body]
pub(crate) fn encode_members(members: &Vec<(String, Value)>) -> (r: Result<Vec<u8>, String>)
    ensures
        r is Ok,
        r->Ok_0@ == encoded_members(member_documents(members@)),
        !r->Ok_0@.contains(0x0au8),
        valid_utf8(r->Ok_0@),
        distinct_keys(member_documents(members@)) ==> spells(
            decode_utf8(r->Ok_0@),
            JsonView::Object(entered(member_documents(members@))),
        ),
{
    let mut bytes: Vec<u8> = Vec::new();
    let mut out = serde_json::Serializer::new(&mut bytes);
    match serde::Serializer::collect_map(&mut out, members.iter().map(|m| (&m.0, &m.1))) {
        Ok(()) => Ok(bytes),
        Err(error) => Err(error.to_string()),
    }
}

/// A JSON document as a tree.
///
/// An object lists its members; of two under one key the later counts.
#[derive(Debug)]
pub enum Json {
    Null,
    Bool(bool),
    Number { unsigned: Option<u64>, signed: Option<i64>, text: String },
    Text(String),
    Array(Vec<Json>),
    Object(Vec<(String, Json)>),
}

impl View for Json {
    type V = JsonView;

    open spec fn view(&self) -> JsonView {
        self.tree()
    }
}

impl Json {
    /// The document that the tree spells out.
    pub open spec fn tree(&self) -> JsonView
        decreases self,
    {
        match self {
            Json::Null => JsonView::Null,
            Json::Bool(b) => JsonView::Bool(*b),
            Json::Number { unsigned, signed, text } => JsonView::Number {
                unsigned: *unsigned,
                signed: *signed,
                text: text@,
            },
            Json::Text(text) => JsonView::Text(text@),
            Json::Array(items) => JsonView::Array(Json::item_trees(items@)),
            Json::Object(members) => JsonView::Object(entered(Json::member_trees(members@))),
        }
    }

    /// The documents of an array's items.
    pub open spec fn item_trees(items: Seq<Json>) -> Seq<JsonView>
        decreases items,
    {
        Seq::new(
            items.len(),
            |i: int|
                if 0 <= i < items.len() {
                    items[i].tree()
                } else {
                    JsonView::Null
                },
        )
    }

    /// The documents under the names of an object's members.
    pub open spec fn member_trees(members: Seq<(String, Json)>) -> Seq<(Seq<char>, JsonView)>
        decreases members,
    {
        Seq::new(
            members.len(),
            |i: int|
                if 0 <= i < members.len() {
                    (members[i].0@, members[i].1.tree())
                } else {
                    (Seq::empty(), JsonView::Null)
                },
        )
    }

    /// Reads a document from text.
    pub fn parse(text: &str) -> (r: Result<Json, String>)
        ensures
            match r {
                Ok(json) => denotes(text@, json@),
                Err(wording) => parsed_document(text@) == Err::<JsonView, Seq<char>>(wording@),
            },
    {
        match parse_value(text) {
            Ok(value) => Ok(Json::from_value(value)),
            Err(wording) => Err(wording),
        }
    }

    /// The tree of the document that `value` holds.
    pub fn from_value(value: Value) -> (json: Json)
        ensures
            json@ == document(value),
        decreases document(value),
    {
        let ghost whole = document(value);
        match open_value(value) {
            JsonLayer::Null => Json::Null,
            JsonLayer::Bool(b) => Json::Bool(b),
            JsonLayer::Number { unsigned, signed, text } => Json::Number { unsigned, signed, text },
            JsonLayer::Text(text) => Json::Text(text),
            JsonLayer::Array(items) => {
                let ghost given = items@;
                let mut trees: Vec<Json> = Vec::new();
                for item in it: items
                    invariant
                        it.seq() == given,
                        document(value) == JsonView::Array(
                            given.map_values(|v: Value| document(v)),
                        ),
                        trees@.len() == it.index(),
                        forall|i: int|
                            0 <= i < trees@.len() ==> (#[trigger] trees@[i])@ == document(given[i]),
                {
                    proof {
                        let inner = document(value)->Array_0;
                        assert(document(item) == inner[it.index() as int]);
                        assert(decreases_to!(document(value) => inner));
                        assert(decreases_to!(inner => inner[it.index() as int]));
                    }
                    trees.push(Json::from_value(item));
                }
                let json = Json::Array(trees);
                assert(json@->Array_0 =~= whole->Array_0);
                json
            },
            JsonLayer::Object(members) => {
                let ghost given = members@;
                let mut trees: Vec<(String, Json)> = Vec::new();
                for member in it: members
                    invariant
                        it.seq() == given,
                        document(value) == JsonView::Object(entered(member_documents(given))),
                        distinct_keys(member_documents(given)),
                        trees@.len() == it.index(),
                        forall|i: int|
                            0 <= i < trees@.len() ==> (#[trigger] trees@[i]).0@ == given[i].0@
                                && trees@[i].1@ == document(given[i].1),
                {
                    let (key, inner) = member;
                    proof {
                        let pairs = member_documents(given);
                        let at = it.index() as int;
                        assert(pairs[at] == (key@, document(inner)));
                        lemma_entered_present(pairs, at);
                        lemma_entered_finite(pairs);
                        let fields = document(value)->Object_0;
                        assert(decreases_to!(document(value) => fields));
                        assert(decreases_to!(fields => fields[key@]));
                    }
                    trees.push((key, Json::from_value(inner)));
                }
                let json = Json::Object(trees);
                assert(Json::member_trees(json->Object_0@) =~= member_documents(given));
                json
            },
        }
    }

    /// The member `key`, if this is an object that has one.
    pub fn get(&self, key: &str) -> (member: Option<&Json>)
        ensures
            match member {
                Some(value) => self@.member(key@) == Some(value@),
                None => self@.member(key@) is None,
            },
    {
        match self {
            Json::Object(members) => {
                let ghost pairs = Json::member_trees(members@);
                let mut i: usize = members.len();
                while i > 0
                    invariant
                        i <= members@.len(),
                        pairs == Json::member_trees(members@),
                        self@ == JsonView::Object(entered(pairs)),
                        forall|j: int| i <= j < pairs.len() ==> (#[trigger] pairs[j]).0 != key@,
                    decreases i,
                {
                    i = i - 1;
                    if same_text(members[i].0.as_str(), key) {
                        proof {
                            assert(pairs[i as int] == (key@, members@[i as int].1@));
                            lemma_entered_present(pairs, i as int);
                        }
                        return Some(&members[i].1);
                    }
                    assert(pairs[i as int].0 != key@);
                }
                proof {
                    lemma_entered_absent(pairs, key@);
                }
                None
            },
            _ => None,
        }
    }

    /// The characters of a string.
    pub fn as_str(&self) -> (text: Option<&str>)
        ensures
            match text {
                Some(t) => self@.text() == Some(t@),
                None => self@.text() is None,
            },
    {
        match self {
            Json::Text(text) => Some(text.as_str()),
            _ => None,
        }
    }

    /// The truth value of a boolean.
    pub fn as_bool(&self) -> (truth: Option<bool>)
        ensures
            truth == self@.truth(),
    {
        match self {
            Json::Bool(b) => Some(*b),
            _ => None,
        }
    }

    /// The items of an array.
    pub fn as_array(&self) -> (items: Option<&Vec<Json>>)
        ensures
            match items {
                Some(list) => self@ == JsonView::Array(list@.map_values(|item: Json| item@)),
                None => !(self@ is Array),
            },
    {
        match self {
            Json::Array(items) => {
                assert(Json::item_trees(items@) =~= items@.map_values(|item: Json| item@));
                Some(items)
            },
            _ => None,
        }
    }

    /// The string under `key`, if this is an object that has one there.
    pub fn get_str(&self, key: &str) -> (text: Option<&str>)
        ensures
            match text {
                Some(t) => self@.text_member(key@) == Some(t@),
                None => self@.text_member(key@) is None,
            },
    {
        match self.get(key) {
            Some(value) => value.as_str(),
            None => None,
        }
    }
}

/// The member of an object is what stands under its name, whatever else the object holds, and
/// nothing but an object has members.
pub proof fn law_members_are_found_by_name(document: JsonView, key: Seq<char>)
    ensures
        document matches JsonView::Object(fields) ==> (document.member(key) is Some
            <==> fields.dom().contains(key)),
        document matches JsonView::Object(fields) ==> (fields.dom().contains(key)
            ==> document.member(key) == Some(fields[key])),
        !(document is Object) ==> document.member(key) is None,
{
}

/// A tree gives under a name what the last member of that name holds.
pub proof fn law_tree_finds_the_last_member(
    json: &Json,
    members: Vec<(String, Json)>,
    key: &str,
    r: Option<&Json>,
    at: int,
)
    requires
        call_ensures(Json::get, (json, key), r),
        *json == Json::Object(members),
        0 <= at < members@.len(),
        members@[at].0@ == key@,
        forall|i: int| at < i < members@.len() ==> (#[trigger] members@[i]).0@ != key@,
    ensures
        r matches Some(found) && found@ == members@[at].1@,
{
    let pairs = Json::member_trees(members@);
    assert(json@ == JsonView::Object(entered(pairs)));
    assert(pairs[at] == (key@, members@[at].1@));
    assert forall|i: int| at < i < pairs.len() implies (#[trigger] pairs[i]).0 != pairs[at].0 by {
        assert(pairs[i].0 == members@[i].0@);
    }
    lemma_entered_present(pairs, at);
}

/// A tree gives nothing under a name that none of its members has, and a tree that is no object
/// has no members.
pub proof fn law_tree_finds_nothing_else(json: &Json, key: &str, r: Option<&Json>)
    requires
        call_ensures(Json::get, (json, key), r),
        *json matches Json::Object(members) ==> forall|i: int|
            0 <= i < members@.len() ==> (#[trigger] members@[i]).0@ != key@,
    ensures
        r is None,
{
    if let Json::Object(members) = *json {
        let pairs = Json::member_trees(members@);
        assert(json@ == JsonView::Object(entered(pairs)));
        assert forall|i: int| 0 <= i < pairs.len() implies (#[trigger] pairs[i]).0 != key@ by {
            assert(pairs[i].0 == members@[i].0@);
        }
        lemma_entered_absent(pairs, key@);
    }
}

/// A tree is a string, a boolean or an array just if it says so, and gives the characters, the
/// truth value or the items that it holds.
pub proof fn law_tree_gives_what_it_holds(
    json: &Json,
    text: Option<&str>,
    truth: Option<bool>,
    items: Option<&Vec<Json>>,
)
    requires
        call_ensures(Json::as_str, (json,), text),
        call_ensures(Json::as_bool, (json,), truth),
        call_ensures(Json::as_array, (json,), items),
    ensures
        match *json {
            Json::Text(said) => text matches Some(t) && t@ == said@,
            _ => text is None,
        },
        match *json {
            Json::Bool(b) => truth == Some(b),
            _ => truth is None,
        },
        match *json {
            Json::Array(list) => items matches Some(given) && given@.len() == list@.len()
                && forall|i: int|
                0 <= i < list@.len() ==> (#[trigger] given@[i])@ == list@[i]@,
            _ => items is None,
        },
{
    if let Json::Array(list) = *json {
        let given = items->0;
        let views = given@.map_values(|item: Json| item@);
        assert(json@ == JsonView::Array(Json::item_trees(list@)));
        assert(views == Json::item_trees(list@));
        assert(views.len() == given@.len());
        assert forall|i: int| 0 <= i < list@.len() implies (#[trigger] given@[i])@ == list@[i]@ by {
            assert(views[i] == given@[i]@);
        }
    }
}

/// A tree gives the string under a name just if the member of that name is a string.
pub proof fn law_tree_gives_strings_by_name(
    json: &Json,
    key: &str,
    member: Option<&Json>,
    text: Option<&str>,
)
    requires
        call_ensures(Json::get, (json, key), member),
        call_ensures(Json::get_str, (json, key), text),
    ensures
        match member {
            Some(found) => match found@ {
                JsonView::Text(said) => text matches Some(t) && t@ == said,
                _ => text is None,
            },
            None => text is None,
        },
{
}

/// Documents without arrays and objects are exact if they are no fractions, however little they
/// may nest; an array or an object is exact just if what it holds is, one level further down.
pub proof fn law_exact_means_integers_not_too_deep(document: JsonView, depth: nat)
    ensures
        match document {
            JsonView::Number { unsigned, signed, .. } => document.exact_within(depth) <==> (unsigned
                is Some || signed is Some),
            JsonView::Array(items) => document.exact_within(depth + 1) <==> forall|i: int|
                0 <= i < items.len() ==> (#[trigger] items[i]).exact_within(depth),
            JsonView::Object(fields) => document.exact_within(depth + 1) <==> forall|
                key: Seq<char>,
            |
                fields.dom().contains(key) ==> (#[trigger] fields[key]).exact_within(depth),
            _ => document.exact_within(depth),
        },
{
}

} // verus!
