//! JSON values as the replies of the models are read, and the one outside
//! call that parses them.

use vstd::prelude::*;
use crate::text::str_equal;

verus! {

#[verifier::external_type_specification]
#[verifier::external_body]
pub struct ExSerdeJsonValue(serde_json::Value);

/// A parsed JSON value. Numbers keep the text serde_json writes for them;
/// an object keeps its entries, each key once.
#[derive(Debug)]
pub enum JsonValue {
    Null,
    Bool(bool),
    Number(String),
    Str(String),
    Array(Vec<JsonValue>),
    Object(Vec<(String, JsonValue)>),
}

/// What `serde_json::from_str::<serde_json::Value>` makes of a text: the
/// value, or the text of its error.
pub uninterp spec fn parsed_json(text: Seq<char>) -> Result<JsonValue, Seq<char>>;

/// The view of a parse outcome: the error taken as its text.
pub open spec fn parse_view(r: Result<JsonValue, String>) -> Result<JsonValue, Seq<char>> {
    match r {
        Ok(v) => Ok(v),
        Err(e) => Err(e@),
    }
}

/// Parses `text` with `serde_json::from_str` into a `serde_json::Value` and
/// carries the value over one for one; an error becomes its `Display` text.
/// The contract names the outcome (`parsed_json`): what serde_json accepts
/// and what it builds are not stated.
#[verifier::external_body]
pub(crate) fn parse_json(text: &str) -> (r: Result<JsonValue, String>)
    ensures
        parse_view(r) == parsed_json(text@),
{
    serde_json::from_str::<serde_json::Value>(text).map(json_value_of).map_err(|e| e.to_string())
}

/// Carries a `serde_json::Value` over into a `JsonValue`, variant by variant;
/// a number becomes its `Display` text. Only `parse_json` calls it.
#[verifier::external_body]
fn json_value_of(value: serde_json::Value) -> JsonValue {
    match value {
        serde_json::Value::Null => JsonValue::Null,
        serde_json::Value::Bool(b) => JsonValue::Bool(b),
        serde_json::Value::Number(n) => JsonValue::Number(n.to_string()),
        serde_json::Value::String(s) => JsonValue::Str(s),
        serde_json::Value::Array(items) => JsonValue::Array(items.into_iter().map(json_value_of).collect()),
        serde_json::Value::Object(entries) => JsonValue::Object(
            entries.into_iter().map(|(k, v)| (k, json_value_of(v))).collect(),
        ),
    }
}

/// The value of the first entry with the key.
pub open spec fn entry_value(entries: Seq<(String, JsonValue)>, key: Seq<char>) -> Option<JsonValue>
    decreases entries.len(),
{
    if entries.len() == 0 {
        None
    } else if entries[0].0@ == key {
        Some(entries[0].1)
    } else {
        entry_value(entries.drop_first(), key)
    }
}

/// The member `key` of an object; `None` for a value that is no object.
pub open spec fn json_get(v: JsonValue, key: Seq<char>) -> Option<JsonValue> {
    match v {
        JsonValue::Object(entries) => entry_value(entries@, key),
        _ => None,
    }
}

/// The member `key` when it is a string.
pub open spec fn json_str_field(v: JsonValue, key: Seq<char>) -> Option<Seq<char>> {
    match json_get(v, key) {
        Some(JsonValue::Str(s)) => Some(s@),
        _ => None,
    }
}

/// The member `key` when it is a string, else the empty text.
pub open spec fn json_text(v: JsonValue, key: Seq<char>) -> Seq<char> {
    match json_str_field(v, key) {
        Some(s) => s,
        None => seq![],
    }
}

proof fn lemma_entry_value_skip(entries: Seq<(String, JsonValue)>, key: Seq<char>, i: int)
    requires
        0 <= i <= entries.len(),
        forall|j: int| 0 <= j < i ==> (#[trigger] entries[j]).0@ != key,
    ensures
        entry_value(entries, key) == entry_value(entries.skip(i), key),
    decreases i,
{
    if i > 0 {
        assert(entries[0].0@ != key);
        let rest = entries.drop_first();
        assert forall|j: int| 0 <= j < i - 1 implies (#[trigger] rest[j]).0@ != key by {
            assert(rest[j] == entries[j + 1]);
        }
        lemma_entry_value_skip(rest, key, i - 1);
        assert(rest.skip(i - 1) =~= entries.skip(i));
        assert(entry_value(entries, key) == entry_value(rest, key));
    } else {
        assert(entries.skip(0) =~= entries);
    }
}

impl JsonValue {
    /// The member `key` of an object (see `json_get`).
    pub fn get(&self, key: &str) -> (r: Option<&JsonValue>)
        ensures
            match r {
                Some(v) => json_get(*self, key@) == Some(*v),
                None => json_get(*self, key@) is None,
            },
    {
        match self {
            JsonValue::Object(entries) => {
                let mut i: usize = 0;
                while i < entries.len()
                    invariant
                        i <= entries@.len(),
                        json_get(*self, key@) == entry_value(entries@, key@),
                        forall|j: int| 0 <= j < i ==> (#[trigger] entries@[j]).0@ != key@,
                    decreases entries.len() - i,
                {
                    if str_equal(entries[i].0.as_str(), key) {
                        proof {
                            lemma_entry_value_skip(entries@, key@, i as int);
                            let rest = entries@.skip(i as int);
                            assert(rest[0] == entries@[i as int]);
                            assert(entry_value(rest, key@) == Some(entries@[i as int].1));
                        }
                        let found = &entries[i].1;
                        assert(*found == entries@[i as int].1);
                        return Some(found);
                    }
                    i = i + 1;
                }
                proof {
                    lemma_entry_value_skip(entries@, key@, i as int);
                }
                None
            },
            _ => None,
        }
    }

    /// The text of a member that is a string, else the empty text.
    pub fn text_field(&self, key: &str) -> (r: String)
        ensures
            r@ == json_text(*self, key@),
    {
        match self.get(key) {
            Some(v) => match v {
                JsonValue::Str(s) => s.clone(),
                _ => String::new(),
            },
            None => String::new(),
        }
    }
}

} // verus!
