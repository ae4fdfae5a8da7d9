use vstd::prelude::*;

verus! {

/// A JSON value.
#[derive(Debug, PartialEq, Eq)]
pub enum Json {
    Null,
    Bool(bool),
    /// A number, as the text that JSON writes for it.
    Number(String),
    /// A string.
    Text(String),
    Array(Vec<Json>),
    /// The members of an object, each with its key, in the order in which
    /// they were given.
    Object(Vec<(String, Json)>),
}

/// What a `Json` stands for: the value, with its strings and lists as
/// sequences.
pub enum JsonValue {
    Null,
    Bool(bool),
    Number(Seq<char>),
    Text(Seq<char>),
    Array(Seq<JsonValue>),
    Object(Seq<(Seq<char>, JsonValue)>),
}

impl View for Json {
    type V = JsonValue;

    open spec fn view(&self) -> JsonValue
        decreases self,
    {
        match *self {
            Json::Null => JsonValue::Null,
            Json::Bool(flag) => JsonValue::Bool(flag),
            Json::Number(text) => JsonValue::Number(text@),
            Json::Text(text) => JsonValue::Text(text@),
            Json::Array(items) => JsonValue::Array(
                Seq::new(
                    items@.len(),
                    |i: int|
                        if 0 <= i < items@.len() {
                            items@[i]@
                        } else {
                            JsonValue::Null
                        },
                ),
            ),
            Json::Object(members) => JsonValue::Object(
                Seq::new(
                    members@.len(),
                    |i: int|
                        if 0 <= i < members@.len() {
                            (members@[i].0@, members@[i].1@)
                        } else {
                            (Seq::empty(), JsonValue::Null)
                        },
                ),
            ),
        }
    }
}

impl Clone for Json {
    fn clone(&self) -> (copy: Self)
        ensures
            copy@ == self@,
        decreases self,
    {
        match self {
            Json::Null => Json::Null,
            Json::Bool(flag) => Json::Bool(*flag),
            Json::Number(text) => Json::Number(text.clone()),
            Json::Text(text) => Json::Text(text.clone()),
            Json::Array(items) => {
                let copy = Json::Array(Self::clone_items(items));
                proof {
                    assert(copy@->Array_0 =~= self@->Array_0);
                }
                copy
            },
            Json::Object(members) => {
                let copy = Json::Object(Self::clone_members(members));
                proof {
                    assert(copy@->Object_0 =~= self@->Object_0);
                }
                copy
            },
        }
    }
}

impl Json {
    /// Copies of `items`, in their order.
    fn clone_items(items: &Vec<Json>) -> (copies: Vec<Json>)
        ensures
            copies@.len() == items@.len(),
            forall|k: int| 0 <= k < items@.len() ==> copies@[k]@ == items@[k]@,
        decreases items,
    {
        let mut copies: Vec<Json> = Vec::new();
        let mut i: usize = 0;
        while i < items.len()
            invariant
                i <= items.len(),
                copies@.len() == i,
                forall|k: int| 0 <= k < i ==> copies@[k]@ == items@[k]@,
            decreases items.len() - i,
        {
            copies.push(items[i].clone());
            i += 1;
        }
        copies
    }

    /// Copies of `members`, in their order.
    fn clone_members(members: &Vec<(String, Json)>) -> (copies: Vec<(String, Json)>)
        ensures
            copies@.len() == members@.len(),
            forall|k: int|
                0 <= k < members@.len() ==> copies@[k].0@ == members@[k].0@ && copies@[k].1@
                    == members@[k].1@,
        decreases members,
    {
        let mut copies: Vec<(String, Json)> = Vec::new();
        let mut i: usize = 0;
        while i < members.len()
            invariant
                i <= members.len(),
                copies@.len() == i,
                forall|k: int|
                    0 <= k < i ==> copies@[k].0@ == members@[k].0@ && copies@[k].1@
                        == members@[k].1@,
            decreases members.len() - i,
        {
            copies.push((members[i].0.clone(), members[i].1.clone()));
            i += 1;
        }
        copies
    }
}

/// `serde_json::Value`, of which nothing is known here but that it is a
/// type.
#[verifier::external_type_specification]
#[verifier::external_body]
pub struct ExValue(serde_json::Value);

/// The `serde_json::Value` that `json` stands for. A number is parsed from
/// its text by `serde_json`, and is `null` where the text is no JSON. The
/// members of an object are collected into a `serde_json::Map`, which keeps
/// one member for each key. Nothing is claimed of the result.
#[verifier::external_body]
pub(crate) fn to_value(json: &Json) -> serde_json::Value {
    match json {
        Json::Null => serde_json::Value::Null,
        Json::Bool(flag) => serde_json::Value::Bool(*flag),
        Json::Number(text) => text.parse().unwrap_or(serde_json::Value::Null),
        Json::Text(text) => serde_json::Value::String(text.clone()),
        Json::Array(items) => serde_json::Value::Array(items.iter().map(to_value).collect()),
        Json::Object(members) => serde_json::Value::Object(
            members.iter().map(|member| (member.0.clone(), to_value(&member.1))).collect(),
        ),
    }
}

/// The value that stands for a `serde_json::Value`. A number comes with the
/// text that `serde_json` writes for it, the members of an object in the
/// order in which the `serde_json::Map` gives them. Nothing is claimed of the
/// result.
#[verifier::external_body]
pub(crate) fn from_value(value: &serde_json::Value) -> Json {
    match value {
        serde_json::Value::Null => Json::Null,
        serde_json::Value::Bool(flag) => Json::Bool(*flag),
        serde_json::Value::Number(number) => Json::Number(number.to_string()),
        serde_json::Value::String(text) => Json::Text(text.clone()),
        serde_json::Value::Array(items) => Json::Array(items.iter().map(from_value).collect()),
        serde_json::Value::Object(members) => Json::Object(
            members.iter().map(|(key, member)| (key.clone(), from_value(member))).collect(),
        ),
    }
}

/// The text that stands for `value` where a template names it: that of a
/// string, of a number or of a truth value. An array, an object and `null`
/// have none.
pub open spec fn scalar_text(value: JsonValue) -> Option<Seq<char>> {
    match value {
        JsonValue::Text(text) => Some(text),
        JsonValue::Number(text) => Some(text),
        JsonValue::Bool(flag) => Some(
            if flag {
                "true"@
            } else {
                "false"@
            },
        ),
        _ => None,
    }
}

/// The texts of those of `values` that have one, in the order of `values`.
pub open spec fn scalar_texts(values: Seq<JsonValue>) -> Seq<Seq<char>>
    decreases values.len(),
{
    if values.len() == 0 {
        Seq::empty()
    } else {
        let before = scalar_texts(values.drop_last());
        match scalar_text(values.last()) {
            Some(text) => before.push(text),
            None => before,
        }
    }
}

/// What `values` stand for, in their order.
pub open spec fn values_view(values: Seq<Json>) -> Seq<JsonValue> {
    values.map_values(|value: Json| value@)
}

/// The texts of strings, as a sequence of sequences of characters.
pub open spec fn texts_view(texts: Seq<String>) -> Seq<Seq<char>> {
    texts.map_values(|text: String| text@)
}

impl Json {
    /// An object without members.
    pub fn empty_object() -> (object: Json)
        ensures
            object@ == JsonValue::Object(Seq::empty()),
    {
        let object = Json::Object(Vec::new());
        proof {
            assert(object@ matches JsonValue::Object(members) && members =~= Seq::empty());
        }
        object
    }

    /// The text that stands for the value, if it has one.
    pub fn scalar(&self) -> (text: Option<String>)
        ensures
            match text {
                Some(text) => scalar_text(self@) == Some(text@),
                None => scalar_text(self@) is None,
            },
    {
        match self {
            Json::Text(text) => Some(text.clone()),
            Json::Number(text) => Some(text.clone()),
            Json::Bool(flag) => Some(
                if *flag {
                    "true".to_owned()
                } else {
                    "false".to_owned()
                },
            ),
            _ => None,
        }
    }
}

/// The texts of the scalars among `values`, in their order.
pub fn scalars(values: &Vec<Json>) -> (texts: Vec<String>)
    ensures
        texts_view(texts@) == scalar_texts(values_view(values@)),
{
    let mut texts: Vec<String> = Vec::new();
    let mut i: usize = 0;
    while i < values.len()
        invariant
            i <= values.len(),
            texts_view(texts@) == scalar_texts(values_view(values@).take(i as int)),
        decreases values.len() - i,
    {
        proof {
            assert(values_view(values@).take(i as int + 1).drop_last() == values_view(values@).take(
                i as int,
            ));
        }
        match values[i].scalar() {
            Some(text) => {
                texts.push(text);
            },
            None => {},
        }
        i += 1;
    }
    proof {
        assert(values_view(values@).take(i as int) == values_view(values@));
    }
    texts
}

} // verus!
