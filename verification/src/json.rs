//! JSON documents as trees of plain values, and the one place where text is
//! turned into such a tree.

use vstd::prelude::*;

verus! {

/// A JSON value. Numbers keep their decimal text; objects keep their members
/// in the order in which they are listed.
#[derive(Debug)]
pub enum Json {
    Null,
    Bool(bool),
    Number(String),
    Text(String),
    Array(Vec<Json>),
    Object(Vec<Member>),
}

/// One member of a JSON object.
#[derive(Debug)]
pub struct Member {
    pub key: String,
    pub value: Json,
}

/// The mathematical value of a [`Json`].
pub enum JsonValue {
    Null,
    Bool(bool),
    Number(Seq<char>),
    Text(Seq<char>),
    Array(Seq<JsonValue>),
    Object(Seq<MemberValue>),
}

/// The mathematical value of a [`Member`].
pub struct MemberValue {
    pub key: Seq<char>,
    pub value: JsonValue,
}

impl View for Json {
    type V = JsonValue;

    open spec fn view(&self) -> JsonValue
        decreases self,
    {
        match self {
            Json::Null => JsonValue::Null,
            Json::Bool(b) => JsonValue::Bool(*b),
            Json::Number(n) => JsonValue::Number(n@),
            Json::Text(s) => JsonValue::Text(s@),
            Json::Array(items) => JsonValue::Array(
                Seq::new(
                    items.len() as nat,
                    |i: int|
                        if 0 <= i < items.len() {
                            items[i].view()
                        } else {
                            JsonValue::Null
                        },
                ),
            ),
            Json::Object(members) => JsonValue::Object(
                Seq::new(
                    members.len() as nat,
                    |i: int|
                        if 0 <= i < members.len() {
                            MemberValue { key: members[i].key@, value: members[i].value.view() }
                        } else {
                            MemberValue { key: Seq::empty(), value: JsonValue::Null }
                        },
                ),
            ),
        }
    }
}

/// The last member of `members` that is listed under `key`, if there is one.
pub open spec fn member_of(members: Seq<MemberValue>, key: Seq<char>) -> Option<
    JsonValue,
>
    decreases members.len(),
{
    if members.len() == 0 {
        None
    } else if members.last().key == key {
        Some(members.last().value)
    } else {
        member_of(members.drop_last(), key)
    }
}

impl JsonValue {
    /// What an object lists under `key`; `None` for anything but an object and
    /// for an object without that key.
    pub open spec fn member(self, key: Seq<char>) -> Option<JsonValue> {
        match self {
            JsonValue::Object(members) => member_of(members, key),
            _ => None,
        }
    }

    /// The characters of a string value.
    pub open spec fn text(self) -> Option<Seq<char>> {
        match self {
            JsonValue::Text(s) => Some(s),
            _ => None,
        }
    }

    /// The elements of an array value.
    pub open spec fn items(self) -> Option<Seq<JsonValue>> {
        match self {
            JsonValue::Array(items) => Some(items),
            _ => None,
        }
    }
}

impl Json {
    /// Looks `key` up in an object.
    pub fn member(&self, key: &str) -> (found: Option<&Json>)
        ensures
            match found {
                Some(j) => self@.member(key@) == Some(j@),
                None => self@.member(key@).is_none(),
            },
    {
        match self {
            Json::Object(members) => {
                let wanted = key.to_owned();
                let mut found: Option<&Json> = None;
                let mut i: usize = 0;
                while i < members.len()
                    invariant
                        i <= members.len(),
                        wanted@ == key@,
                        self@ matches JsonValue::Object(all) && all.len() == members.len() && (
                        forall|k: int|
                            0 <= k < members.len() ==> #[trigger] all[k] == (MemberValue {
                                key: members[k].key@,
                                value: members[k].value@,
                            })),
                        match found {
                            Some(j) => member_of(self@->Object_0.take(i as int), key@) == Some(
                                j@,
                            ),
                            None => member_of(self@->Object_0.take(i as int), key@).is_none(),
                        },
                    decreases members.len() - i,
                {
                    proof {
                        let all = self@->Object_0;
                        assert(all.take(i + 1).drop_last() == all.take(i as int));
                    }
                    if members[i].key == wanted {
                        found = Some(&members[i].value);
                    }
                    i += 1;
                }
                proof {
                    let all = self@->Object_0;
                    assert(all.take(i as int) == all);
                }
                found
            },
            _ => None,
        }
    }

    /// The string that a string value holds.
    pub fn text(&self) -> (found: Option<&String>)
        ensures
            match found {
                Some(s) => self@.text() == Some(s@),
                None => self@.text().is_none(),
            },
    {
        match self {
            Json::Text(s) => Some(s),
            _ => None,
        }
    }

    /// The elements that an array value holds.
    pub fn items(&self) -> (found: Option<&Vec<Json>>)
        ensures
            match found {
                Some(v) => self@.items() == Some(v.deep_view()),
                None => self@.items().is_none(),
            },
    {
        match self {
            Json::Array(items) => {
                assert(self@->Array_0 =~= items.deep_view());
                Some(items)
            },
            _ => None,
        }
    }
}

impl DeepView for Json {
    type V = JsonValue;

    open spec fn deep_view(&self) -> JsonValue {
        self@
    }
}

/// `serde_json::Value`, the tree that the parser builds. Nothing is known of
/// a value of it here; it is only handed on to be rewritten as a [`Json`].
#[verifier::external_type_specification]
#[verifier::external_body]
pub struct ExValue(serde_json::Value);

/// What `serde_json::from_str` makes of `text` when asked for a
/// `serde_json::Value`: the tree that the text denotes, or `None` where the
/// parser refuses the text. Nothing is stated of which tree that is; the name
/// only says that it depends on the text alone.
pub uninterp spec fn json_document(text: Seq<char>) -> Option<JsonValue>;

/// Rewrites a `serde_json::Value` as a [`Json`], variant by variant: a number
/// by `serde_json::Number`'s `to_string`, the members of an object in the
/// order in which `serde_json::Map` hands them out. Nothing is claimed of the
/// result here; the claim is made where the value is parsed. The parser
/// refuses text that nests deeper than 128 levels, so the values that come
/// from it are not deeper than that.
#[verifier::external_body]
fn json_of_value(value: serde_json::Value) -> Json {
    match value {
        serde_json::Value::Null => Json::Null,
        serde_json::Value::Bool(b) => Json::Bool(b),
        serde_json::Value::Number(n) => Json::Number(n.to_string()),
        serde_json::Value::String(s) => Json::Text(s),
        serde_json::Value::Array(items) => Json::Array(
            items.into_iter().map(json_of_value).collect(),
        ),
        serde_json::Value::Object(members) => Json::Object(
            members
                .into_iter()
                .map(|(key, value)| Member { key, value: json_of_value(value) })
                .collect(),
        ),
    }
}

/// Calls `serde_json::from_str` for a `serde_json::Value` and rewrites the
/// value as a [`Json`]. The contract only gives the outcome its name: the same
/// text always yields the same tree, and an error of the parser shows as
/// `None`. That the tree is the one that the text denotes is not proved here;
/// it rests on the parser.
#[verifier::external_body]
fn parse_text(text: &str) -> (parsed: Option<Json>)
    ensures
        parsed.deep_view() == json_document(text@),
{
    match serde_json::from_str::<serde_json::Value>(text) {
        Ok(value) => Some(json_of_value(value)),
        Err(_) => None,
    }
}

/// A document as it arrives from outside: not there at all, there but not
/// JSON, or a JSON tree.
#[derive(Debug)]
pub enum Document {
    Missing,
    Malformed,
    Parsed(Json),
}

/// The mathematical value of a [`Document`].
pub enum DocumentValue {
    Missing,
    Malformed,
    Parsed(JsonValue),
}

impl View for Document {
    type V = DocumentValue;

    open spec fn view(&self) -> DocumentValue {
        match self {
            Document::Missing => DocumentValue::Missing,
            Document::Malformed => DocumentValue::Malformed,
            Document::Parsed(j) => DocumentValue::Parsed(j@),
        }
    }
}

/// The document that a retrieved text stands for.
pub open spec fn document_of(text: Option<Seq<char>>) -> DocumentValue {
    match text {
        None => DocumentValue::Missing,
        Some(t) => match json_document(t) {
            None => DocumentValue::Malformed,
            Some(j) => DocumentValue::Parsed(j),
        },
    }
}

/// Reads what was retrieved, if anything was, as a JSON document.
pub fn read_document(text: &Option<String>) -> (document: Document)
    ensures
        document@ == document_of(text.deep_view()),
{
    match text {
        None => Document::Missing,
        Some(t) => match parse_text(t.as_str()) {
            None => Document::Malformed,
            Some(j) => Document::Parsed(j),
        },
    }
}

} // verus!
