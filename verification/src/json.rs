//! JSON documents as plain values, and their reading from text.

use vstd::prelude::*;

use crate::text::{str_eq, texts};

verus! {

/// A JSON document.
///
/// A number is either an integer, exact, or a float given by its IEEE 754
/// binary64 bits. The members of an object keep the order they are written in.
pub enum Json {
    Null,
    Bool(bool),
    Integer(i128),
    Float(u64),
    Text(String),
    Array(Vec<Json>),
    Object(Vec<(String, Json)>),
}

/// What a JSON document says.
pub enum JsonTree {
    Null,
    Bool(bool),
    Integer(int),
    Float(u64),
    Text(Seq<char>),
    Array(Seq<JsonTree>),
    Object(Seq<(Seq<char>, JsonTree)>),
}

impl Json {
    /// What the document says.
    pub open spec fn tree(self) -> JsonTree
        decreases self,
    {
        match self {
            Json::Null => JsonTree::Null,
            Json::Bool(b) => JsonTree::Bool(b),
            Json::Integer(n) => JsonTree::Integer(n as int),
            Json::Float(bits) => JsonTree::Float(bits),
            Json::Text(s) => JsonTree::Text(s@),
            Json::Array(items) => JsonTree::Array(
                Seq::new(
                    items@.len(),
                    |i: int|
                        if 0 <= i < items@.len() {
                            items@[i].tree()
                        } else {
                            JsonTree::Null
                        },
                ),
            ),
            Json::Object(members) => JsonTree::Object(
                Seq::new(
                    members@.len(),
                    |i: int|
                        if 0 <= i < members@.len() {
                            (members@[i].0@, members@[i].1.tree())
                        } else {
                            (Seq::empty(), JsonTree::Null)
                        },
                ),
            ),
        }
    }
}

impl View for Json {
    type V = JsonTree;

    open spec fn view(&self) -> JsonTree {
        self.tree()
    }
}

// ---------------------------------------------------------------------------
// Reading members
// ---------------------------------------------------------------------------

/// The value of the first member named `key`.
pub open spec fn member(members: Seq<(Seq<char>, JsonTree)>, key: Seq<char>) -> Option<JsonTree>
    decreases members.len(),
{
    if members.len() == 0 {
        None
    } else if members[0].0 == key {
        Some(members[0].1)
    } else {
        member(members.skip(1), key)
    }
}

/// A member is found under its name, unless one of the same name comes before it.
pub proof fn law_first_member_counts(members: Seq<(Seq<char>, JsonTree)>, i: int)
    requires
        0 <= i < members.len(),
        forall|j: int| 0 <= j < i ==> (#[trigger] members[j]).0 != members[i].0,
    ensures
        member(members, members[i].0) == Some(members[i].1),
    decreases i,
{
    if i > 0 {
        let rest = members.skip(1);
        assert(members[0].0 != members[i].0);
        assert(rest[i - 1] == members[i]);
        assert forall|j: int| 0 <= j < i - 1 implies (#[trigger] rest[j]).0 != rest[i - 1].0 by {
            assert(rest[j] == members[j + 1]);
        }
        law_first_member_counts(rest, i - 1);
    }
}

impl JsonTree {
    /// The member `key` of an object; no other document has members.
    pub open spec fn field(self, key: Seq<char>) -> Option<JsonTree> {
        match self {
            JsonTree::Object(members) => member(members, key),
            _ => None,
        }
    }
}

/// The view of an optional borrowed document.
pub open spec fn option_tree(v: Option<&Json>) -> Option<JsonTree> {
    match v {
        Some(j) => Some(j@),
        None => None,
    }
}

impl Json {
    /// The member `key` of an object; no other document has members.
    pub fn get(&self, key: &str) -> (r: Option<&Json>)
        ensures
            option_tree(r) == self@.field(key@),
            r matches Some(j) ==> decreases_to!(*self => *j),
    {
        match self {
            Json::Object(members) => {
                let ghost all = self@->Object_0;
                assert(all.skip(0) =~= all);
                let mut i: usize = 0;
                while i < members.len()
                    invariant
                        i <= members@.len(),
                        *self == Json::Object(*members),
                        all == self@->Object_0,
                        all.len() == members@.len(),
                        member(all, key@) == member(all.skip(i as int), key@),
                    decreases members.len() - i,
                {
                    assert(all[i as int] == (members@[i as int].0@, members@[i as int].1@));
                    assert(all.skip(i as int)[0] == all[i as int]);
                    if str_eq(members[i].0.as_str(), key) {
                        let found = &members[i].1;
                        assert(decreases_to!(*self => *members));
                        assert(decreases_to!(*members => members@));
                        assert(decreases_to!(members@ => members@[i as int]));
                        assert(decreases_to!(members@[i as int] => members@[i as int].1));
                        return Some(found);
                    }
                    assert(all.skip(i as int).skip(1) =~= all.skip(i + 1));
                    i = i + 1;
                }
                None
            },
            _ => None,
        }
    }
}

// ---------------------------------------------------------------------------
// Building documents
// ---------------------------------------------------------------------------

impl Json {
    /// The document of a text.
    pub fn text(s: &str) -> (r: Json)
        ensures
            r@ == JsonTree::Text(s@),
    {
        Json::Text(s.to_owned())
    }

    /// The document of a number.
    pub fn number(n: u64) -> (r: Json)
        ensures
            r@ == JsonTree::Integer(n as int),
    {
        Json::Integer(n as i128)
    }

    /// The document of a list of documents.
    pub fn array(items: Vec<Json>) -> (r: Json)
        ensures
            r@ == JsonTree::Array(trees(items@)),
    {
        let r = Json::Array(items);
        assert(r@->Array_0 =~= trees(items@));
        r
    }

    /// The document of a list of texts.
    pub fn texts(items: &Vec<String>) -> (r: Json)
        ensures
            r@ == text_array(texts(items@)),
    {
        let mut out: Vec<Json> = Vec::new();
        let mut i: usize = 0;
        while i < items.len()
            invariant
                i <= items@.len(),
                out@.len() == i,
                forall|j: int| 0 <= j < i ==> (#[trigger] out@[j])@ == JsonTree::Text(items@[j]@),
            decreases items.len() - i,
        {
            out.push(Json::text(items[i].as_str()));
            i = i + 1;
        }
        let ghost made = out@;
        let r = Json::array(out);
        assert(trees(made) =~= text_array(texts(items@))->Array_0);
        r
    }
}

/// What a list of documents says.
pub open spec fn trees(items: Seq<Json>) -> Seq<JsonTree> {
    items.map_values(|j: Json| j@)
}

/// The document of a list of texts.
pub open spec fn text_array(items: Seq<Seq<char>>) -> JsonTree {
    JsonTree::Array(items.map_values(|s: Seq<char>| JsonTree::Text(s)))
}

/// The members of an object under construction.
pub struct Members {
    items: Vec<(String, Json)>,
}

impl View for Members {
    type V = Seq<(Seq<char>, JsonTree)>;

    closed spec fn view(&self) -> Seq<(Seq<char>, JsonTree)> {
        self.items@.map_values(|m: (String, Json)| (m.0@, m.1@))
    }
}

impl Members {
    /// No members.
    pub fn new() -> (r: Members)
        ensures
            r@ == Seq::<(Seq<char>, JsonTree)>::empty(),
    {
        let r = Members { items: Vec::new() };
        assert(r@ =~= Seq::<(Seq<char>, JsonTree)>::empty());
        r
    }

    /// Adds a member.
    pub fn with(self, key: &str, value: Json) -> (r: Members)
        ensures
            r@ == self@.push((key@, value@)),
    {
        let ghost before = self@;
        let mut items = self.items;
        let ghost v = value@;
        items.push((key.to_owned(), value));
        let r = Members { items };
        assert(r@ =~= before.push((key@, v)));
        r
    }

    /// Adds a member that is a text.
    pub fn with_text(self, key: &str, value: &str) -> (r: Members)
        ensures
            r@ == self@.push((key@, JsonTree::Text(value@))),
    {
        self.with(key, Json::text(value))
    }

    /// Adds a member that is a number.
    pub fn with_number(self, key: &str, value: u64) -> (r: Members)
        ensures
            r@ == self@.push((key@, JsonTree::Integer(value as int))),
    {
        self.with(key, Json::number(value))
    }

    /// Adds a member that is a truth value.
    pub fn with_bool(self, key: &str, value: bool) -> (r: Members)
        ensures
            r@ == self@.push((key@, JsonTree::Bool(value))),
    {
        self.with(key, Json::Bool(value))
    }

    /// The finished object.
    pub fn finish(self) -> (r: Json)
        ensures
            r@ == JsonTree::Object(self@),
    {
        let ghost before = self@;
        let r = Json::Object(self.items);
        assert(r@->Object_0 =~= before);
        r
    }
}

// ---------------------------------------------------------------------------
// serde_json
// ---------------------------------------------------------------------------

/// A parsed document of `serde_json`.
#[verifier::external_type_specification]
#[verifier::external_body]
pub struct ExJsonValue(serde_json::Value);

/// The document that a `serde_json::Value` holds.
pub uninterp spec fn json_content(value: serde_json::Value) -> JsonTree;

/// What `serde_json::from_str` makes of a text: the document, or the text of
/// its error.
pub uninterp spec fn json_parse(text: Seq<char>) -> Result<JsonTree, Seq<char>>;

/// One level of a `serde_json::Value`.
pub enum JsonNode<'a> {
    Null,
    Bool(bool),
    Integer(i128),
    Float(u64),
    Text(&'a String),
    Array(Vec<&'a serde_json::Value>),
    Object(Vec<(&'a String, &'a serde_json::Value)>),
}

/// The document whose outermost level is `node`.
pub open spec fn node_tree(node: JsonNode) -> JsonTree {
    match node {
        JsonNode::Null => JsonTree::Null,
        JsonNode::Bool(b) => JsonTree::Bool(b),
        JsonNode::Integer(n) => JsonTree::Integer(n as int),
        JsonNode::Float(bits) => JsonTree::Float(bits),
        JsonNode::Text(s) => JsonTree::Text(s@),
        JsonNode::Array(items) => JsonTree::Array(
            Seq::new(items@.len(), |i: int| json_content(*items@[i])),
        ),
        JsonNode::Object(members) => JsonTree::Object(
            Seq::new(members@.len(), |i: int| (members@[i].0@, json_content(*members@[i].1))),
        ),
    }
}

/// `serde_json::from_str` parses a text into a `serde_json::Value`. The claim
/// is that the outcome depends on the text alone; what it is has a name.
#[verifier::external_body]
pub(crate) fn parse_value(text: &str) -> (r: Result<serde_json::Value, String>)
    ensures
        match r {
            Ok(v) => json_parse(text@) == Ok::<JsonTree, Seq<char>>(json_content(v)),
            Err(e) => json_parse(text@) == Err::<JsonTree, Seq<char>>(e@),
        },
{
    serde_json::from_str(text).map_err(|e| e.to_string())
}

/// The variants of a `serde_json::Value`, told apart one for one. An integer is
/// read with `Number::as_i128`, any other number with `Number::as_f64`, which
/// this build of the crate answers for every number.
#[verifier::external_body]
pub(crate) fn node_of<'a>(value: &'a serde_json::Value) -> (node: JsonNode<'a>)
    ensures
        node_tree(node) == json_content(*value),
{
    match value {
        serde_json::Value::Null => JsonNode::Null,
        serde_json::Value::Bool(b) => JsonNode::Bool(*b),
        serde_json::Value::Number(n) => match n.as_i128() {
            Some(i) => JsonNode::Integer(i),
            None => JsonNode::Float(n.as_f64().map(|x| x.to_bits()).unwrap_or_default()),
        },
        serde_json::Value::String(s) => JsonNode::Text(s),
        serde_json::Value::Array(items) => JsonNode::Array(items.iter().collect()),
        serde_json::Value::Object(members) => JsonNode::Object(members.iter().collect()),
    }
}

/// The document that `value` holds, as a plain value.
pub fn document(value: &serde_json::Value) -> (r: Json)
    ensures
        r@ == json_content(*value),
    decreases json_content(*value),
{
    let ghost tree = json_content(*value);
    match node_of(value) {
        JsonNode::Null => Json::Null,
        JsonNode::Bool(b) => Json::Bool(b),
        JsonNode::Integer(n) => Json::Integer(n),
        JsonNode::Float(bits) => Json::Float(bits),
        JsonNode::Text(s) => Json::Text(s.clone()),
        JsonNode::Array(items) => {
            let mut out: Vec<Json> = Vec::new();
            let mut i: usize = 0;
            while i < items.len()
                invariant
                    i <= items@.len(),
                    out@.len() == i,
                    tree == json_content(*value),
                    tree == node_tree(JsonNode::Array(items)),
                    forall|j: int| 0 <= j < i ==> (#[trigger] out@[j])@ == tree->Array_0[j],
                decreases items.len() - i,
            {
                assert(tree->Array_0[i as int] == json_content(*items@[i as int]));
                assert(decreases_to!(tree => tree->Array_0));
                assert(decreases_to!(tree->Array_0 => tree->Array_0[i as int]));
                let item = document(items[i]);
                out.push(item);
                i = i + 1;
            }
            let r = Json::Array(out);
            assert(r@->Array_0 =~= tree->Array_0);
            r
        },
        JsonNode::Object(members) => {
            let mut out: Vec<(String, Json)> = Vec::new();
            let mut i: usize = 0;
            while i < members.len()
                invariant
                    i <= members@.len(),
                    out@.len() == i,
                    tree == json_content(*value),
                    tree == node_tree(JsonNode::Object(members)),
                    forall|j: int|
                        0 <= j < i ==> (#[trigger] out@[j]).0@ == tree->Object_0[j].0
                            && out@[j].1@ == tree->Object_0[j].1,
                decreases members.len() - i,
            {
                assert(tree->Object_0[i as int] == (
                    members@[i as int].0@,
                    json_content(*members@[i as int].1),
                ));
                assert(decreases_to!(tree => tree->Object_0));
                assert(decreases_to!(tree->Object_0 => tree->Object_0[i as int]));
                assert(decreases_to!(tree->Object_0[i as int] => tree->Object_0[i as int].1));
                let item = document(members[i].1);
                out.push((members[i].0.clone(), item));
                i = i + 1;
            }
            let r = Json::Object(out);
            assert(r@->Object_0 =~= tree->Object_0);
            r
        },
    }
}

/// Parses a JSON text.
pub fn parse(text: &str) -> (r: Result<Json, String>)
    ensures
        match r {
            Ok(j) => json_parse(text@) == Ok::<JsonTree, Seq<char>>(j@),
            Err(e) => json_parse(text@) == Err::<JsonTree, Seq<char>>(e@),
        },
{
    match parse_value(text) {
        Ok(v) => Ok(document(&v)),
        Err(e) => Err(e),
    }
}


} // verus!
