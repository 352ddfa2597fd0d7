//! JSON documents as plain values.
//!
//! The key manager answers in JSON.  Parsing is left to `serde_json`; what it
//! returns is copied into [`Json`], a tree of strings and vectors that the
//! rest of the crate can read.

use vstd::prelude::*;

verus! {

/// What a JSON document is.  A number is kept as the text that stands for
/// it; the members of an object are kept in the order in which the parsed
/// document yields them.
pub enum JsonView {
    Null,
    Bool(bool),
    Number(Seq<char>),
    Text(Seq<char>),
    Array(Seq<JsonView>),
    Object(Seq<(Seq<char>, JsonView)>),
}

/// One member of a JSON object.
#[derive(Debug, PartialEq, Eq)]
pub struct JsonMember {
    pub name: String,
    pub value: Json,
}

/// A JSON document.
#[derive(Debug, PartialEq, Eq)]
pub enum Json {
    Null,
    Bool(bool),
    Number(String),
    Text(String),
    Array(Vec<Json>),
    Object(Vec<JsonMember>),
}

/// The document that a [`Json`] holds.
pub open spec fn json_view(j: Json) -> JsonView
    decreases j,
{
    match j {
        Json::Null => JsonView::Null,
        Json::Bool(b) => JsonView::Bool(b),
        Json::Number(n) => JsonView::Number(n@),
        Json::Text(s) => JsonView::Text(s@),
        Json::Array(items) => JsonView::Array(
            Seq::new(
                items@.len(),
                |i: int|
                    if 0 <= i < items@.len() {
                        json_view(items@[i])
                    } else {
                        JsonView::Null
                    },
            ),
        ),
        Json::Object(members) => JsonView::Object(
            Seq::new(
                members@.len(),
                |i: int|
                    if 0 <= i < members@.len() {
                        (members@[i].name@, json_view(members@[i].value))
                    } else {
                        (Seq::empty(), JsonView::Null)
                    },
            ),
        ),
    }
}

impl View for Json {
    type V = JsonView;

    open spec fn view(&self) -> JsonView {
        json_view(*self)
    }
}

/// The value of the first member called `name` among `members`.
pub open spec fn find_member(members: Seq<(Seq<char>, JsonView)>, name: Seq<char>) -> Option<
    JsonView,
>
    decreases members.len(),
{
    if members.len() == 0 {
        None
    } else if members[0].0 == name {
        Some(members[0].1)
    } else {
        find_member(members.drop_first(), name)
    }
}

impl JsonView {
    /// The member called `name`, where the document is an object that has
    /// one.
    pub open spec fn member(self, name: Seq<char>) -> Option<JsonView> {
        match self {
            JsonView::Object(members) => find_member(members, name),
            _ => None,
        }
    }

    /// The elements, where the document is an array.
    pub open spec fn items(self) -> Option<Seq<JsonView>> {
        match self {
            JsonView::Array(items) => Some(items),
            _ => None,
        }
    }

    /// The members in order, where the document is an object.
    pub open spec fn members(self) -> Option<Seq<(Seq<char>, JsonView)>> {
        match self {
            JsonView::Object(members) => Some(members),
            _ => None,
        }
    }

    /// The text, where the document is a string.
    pub open spec fn text(self) -> Option<Seq<char>> {
        match self {
            JsonView::Text(s) => Some(s),
            _ => None,
        }
    }
}

/// `serde_json::Value`, carried from the parser to the copy below; nothing is
/// read out of it in between.
#[verifier::external_type_specification]
#[verifier::external_body]
pub struct ExValue(serde_json::Value);

/// `serde_json::Error`, of which only its presence is used.
#[verifier::external_type_specification]
#[verifier::external_body]
pub struct ExJsonError(serde_json::Error);

/// The document that a `serde_json::Value` holds.
pub uninterp spec fn value_model(value: serde_json::Value) -> JsonView;

/// The document that `serde_json` reads from a text, or `None` where it
/// refuses the text.
pub uninterp spec fn json_document(text: Seq<char>) -> Option<JsonView>;

/// `serde_json::from_str` at type `Value`: the text parses exactly when
/// `json_document` has a document for it, and the value then holds that
/// document.
#[verifier::external_body]
fn parse_value(text: &str) -> (r: Result<serde_json::Value, serde_json::Error>)
    ensures
        match r {
            Ok(value) => json_document(text@) == Some(value_model(value)),
            Err(_) => json_document(text@) is None,
        },
{
    serde_json::from_str::<serde_json::Value>(text)
}

/// Copies a `serde_json::Value` into a [`Json`], variant by variant: a number
/// as `serde_json` prints it, the elements of an array and the members of an
/// object in the order in which `serde_json` walks them.
#[verifier::external_body]
fn json_of_value(value: &serde_json::Value) -> (j: Json)
    ensures
        j@ == value_model(*value),
{
    match value {
        serde_json::Value::Null => Json::Null,
        serde_json::Value::Bool(b) => Json::Bool(*b),
        serde_json::Value::Number(n) => Json::Number(n.to_string()),
        serde_json::Value::String(s) => Json::Text(s.clone()),
        serde_json::Value::Array(a) => Json::Array(a.iter().map(json_of_value).collect()),
        serde_json::Value::Object(m) => Json::Object(
            m.iter().map(|(k, v)| JsonMember { name: k.clone(), value: json_of_value(v) }).collect(),
        ),
    }
}

/// Reads a JSON document from `text`; `None` where the text is no JSON.
pub fn parse_json(text: &str) -> (r: Option<Json>)
    ensures
        match json_document(text@) {
            Some(document) => r is Some && r->Some_0@ == document,
            None => r is None,
        },
{
    match parse_value(text) {
        Ok(value) => Some(json_of_value(&value)),
        Err(_) => None,
    }
}

impl Json {
    /// The members as the view has them: names by their text, values by
    /// their view.
    proof fn lemma_object_view(&self)
        requires
            self is Object,
        ensures
            self@ is Object,
            self@->Object_0.len() == self->Object_0@.len(),
            forall|i: int|
                0 <= i < self->Object_0@.len() ==> (#[trigger] self@->Object_0[i]) == (
                    self->Object_0@[i].name@,
                    self->Object_0@[i].value@,
                ),
    {
    }

    /// The elements as the view has them.
    proof fn lemma_array_view(&self)
        requires
            self is Array,
        ensures
            self@ is Array,
            self@->Array_0.len() == self->Array_0@.len(),
            forall|i: int|
                0 <= i < self->Array_0@.len() ==> (#[trigger] self@->Array_0[i])
                    == self->Array_0@[i]@,
    {
    }

    /// The member called `name`, where the document is an object that has
    /// one: the first such member.
    pub fn get(&self, name: &str) -> (r: Option<&Json>)
        ensures
            match self@.member(name@) {
                Some(value) => r is Some && r->Some_0@ == value,
                None => r is None,
            },
    {
        match self {
            Json::Object(members) => {
                proof {
                    self.lemma_object_view();
                }
                let wanted = String::from_str(name);
                let ghost all = self@->Object_0;
                let mut i: usize = 0;
                assert(all.subrange(0, all.len() as int) =~= all);
                while i < members.len()
                    invariant
                        i <= members@.len(),
                        self@ == JsonView::Object(all),
                        all.len() == members@.len(),
                        wanted@ == name@,
                        forall|j: int|
                            0 <= j < members@.len() ==> (#[trigger] all[j]) == (
                                members@[j].name@,
                                members@[j].value@,
                            ),
                        find_member(all, name@) == find_member(
                            all.subrange(i as int, all.len() as int),
                            name@,
                        ),
                    decreases members@.len() - i,
                {
                    let ghost rest = all.subrange(i as int, all.len() as int);
                    assert(rest.drop_first() =~= all.subrange(i + 1, all.len() as int));
                    if members[i].name == wanted {
                        return Some(&members[i].value);
                    }
                    i += 1;
                }
                None
            },
            _ => None,
        }
    }

    /// The elements, where the document is an array.
    pub fn as_array(&self) -> (r: Option<&Vec<Json>>)
        ensures
            match self@.items() {
                Some(items) => r is Some && r->Some_0@.len() == items.len() && forall|i: int|
                    0 <= i < items.len() ==> (#[trigger] r->Some_0@[i])@ == items[i],
                None => r is None,
            },
    {
        match self {
            Json::Array(items) => {
                proof {
                    self.lemma_array_view();
                }
                Some(items)
            },
            _ => None,
        }
    }

    /// The members in order, where the document is an object.
    pub fn as_object(&self) -> (r: Option<&Vec<JsonMember>>)
        ensures
            match self@.members() {
                Some(members) => r is Some && r->Some_0@.len() == members.len() && forall|i: int|
                    0 <= i < members.len() ==> members[i] == (
                        (#[trigger] r->Some_0@[i]).name@,
                        r->Some_0@[i].value@,
                    ),
                None => r is None,
            },
    {
        match self {
            Json::Object(members) => {
                proof {
                    self.lemma_object_view();
                }
                Some(members)
            },
            _ => None,
        }
    }

    /// The text, where the document is a string.
    pub fn as_str(&self) -> (r: Option<&str>)
        ensures
            match self@.text() {
                Some(text) => r is Some && r->Some_0@ == text,
                None => r is None,
            },
    {
        match self {
            Json::Text(s) => Some(s.as_str()),
            _ => None,
        }
    }
}

} // verus!
