//! Cypher values, their parameters and their JSON form.

use base64::Engine;
use vstd::prelude::*;

use crate::json::{trees, text_array, Json, JsonTree, Members};
use crate::text::{decimal_of_u128, signed_decimal, texts};

verus! {

/// A Cypher value.
///
/// A float is given by its IEEE 754 binary64 bits, and so is every component of
/// a vector. The entries of a map keep the order they are given in.
pub enum RuntimeValue {
    Null,
    Bool(bool),
    Integer(i64),
    Float(u64),
    Text(String),
    Bytes(Vec<u8>),
    Vector(Vec<u64>),
    List(Vec<RuntimeValue>),
    Dict(Vec<(String, RuntimeValue)>),
    /// A calendar date, as it is written.
    Date(String),
    /// Microseconds since the Unix epoch.
    DateTime(i64),
    Node(NodeValue),
    Rel(RelValue),
    Path(Vec<RuntimeValue>),
}

/// A node: its labels are a set, given in order.
pub struct NodeValue {
    pub id: String,
    pub labels: Vec<String>,
    pub properties: Vec<(String, RuntimeValue)>,
}

/// A relationship.
pub struct RelValue {
    pub edge_type: String,
    pub src: String,
    pub dst: String,
    pub properties: Vec<(String, RuntimeValue)>,
}

/// What a Cypher value says.
pub enum ValueTree {
    Null,
    Bool(bool),
    Integer(int),
    Float(u64),
    Text(Seq<char>),
    Bytes(Seq<u8>),
    Vector(Seq<u64>),
    List(Seq<ValueTree>),
    Dict(Seq<(Seq<char>, ValueTree)>),
    Date(Seq<char>),
    DateTime(int),
    Node { id: Seq<char>, labels: Seq<Seq<char>>, properties: Seq<(Seq<char>, ValueTree)> },
    Rel {
        edge_type: Seq<char>,
        src: Seq<char>,
        dst: Seq<char>,
        properties: Seq<(Seq<char>, ValueTree)>,
    },
    Path(Seq<ValueTree>),
}

/// What a list of values says.
pub open spec fn value_trees(items: Seq<RuntimeValue>) -> Seq<ValueTree>
    decreases items,
{
    Seq::new(
        items.len(),
        |i: int|
            if 0 <= i < items.len() {
                items[i].tree()
            } else {
                ValueTree::Null
            },
    )
}

/// What a list of named values says.
pub open spec fn entry_trees(items: Seq<(String, RuntimeValue)>) -> Seq<(Seq<char>, ValueTree)>
    decreases items,
{
    Seq::new(
        items.len(),
        |i: int|
            if 0 <= i < items.len() {
                (items[i].0@, items[i].1.tree())
            } else {
                (Seq::empty(), ValueTree::Null)
            },
    )
}

impl RuntimeValue {
    /// What the value says.
    pub open spec fn tree(self) -> ValueTree
        decreases self,
    {
        match self {
            RuntimeValue::Null => ValueTree::Null,
            RuntimeValue::Bool(b) => ValueTree::Bool(b),
            RuntimeValue::Integer(n) => ValueTree::Integer(n as int),
            RuntimeValue::Float(bits) => ValueTree::Float(bits),
            RuntimeValue::Text(s) => ValueTree::Text(s@),
            RuntimeValue::Bytes(b) => ValueTree::Bytes(b@),
            RuntimeValue::Vector(v) => ValueTree::Vector(v@),
            RuntimeValue::List(items) => ValueTree::List(value_trees(items@)),
            RuntimeValue::Dict(entries) => ValueTree::Dict(entry_trees(entries@)),
            RuntimeValue::Date(s) => ValueTree::Date(s@),
            RuntimeValue::DateTime(n) => ValueTree::DateTime(n as int),
            RuntimeValue::Node(n) => ValueTree::Node {
                id: n.id@,
                labels: texts(n.labels@),
                properties: entry_trees(n.properties@),
            },
            RuntimeValue::Rel(r) => ValueTree::Rel {
                edge_type: r.edge_type@,
                src: r.src@,
                dst: r.dst@,
                properties: entry_trees(r.properties@),
            },
            RuntimeValue::Path(items) => ValueTree::Path(value_trees(items@)),
        }
    }
}

impl View for RuntimeValue {
    type V = ValueTree;

    open spec fn view(&self) -> ValueTree {
        self.tree()
    }
}

// ---------------------------------------------------------------------------
// JSON parameters to values
// ---------------------------------------------------------------------------

/// The value of a JSON parameter. Cypher integers are 64-bit signed, so a wider
/// one is refused; the first refusal, in document order, decides.
pub open spec fn param_value(tree: JsonTree) -> Result<ValueTree, Seq<char>>
    decreases tree, 0nat,
{
    match tree {
        JsonTree::Null => Ok(ValueTree::Null),
        JsonTree::Bool(b) => Ok(ValueTree::Bool(b)),
        JsonTree::Integer(n) => if i64::MIN <= n <= i64::MAX {
            Ok(ValueTree::Integer(n))
        } else if n > i64::MAX {
            Err("integer param "@ + signed_decimal(n) + " exceeds the 64-bit signed range"@)
        } else {
            Err("unsupported numeric param: "@ + signed_decimal(n))
        },
        JsonTree::Float(bits) => Ok(ValueTree::Float(bits)),
        JsonTree::Text(s) => Ok(ValueTree::Text(s)),
        JsonTree::Array(items) => match param_items(items, items.len()) {
            Ok(values) => Ok(ValueTree::List(values)),
            Err(e) => Err(e),
        },
        JsonTree::Object(members) => match param_members(members, members.len()) {
            Ok(values) => Ok(ValueTree::Dict(values)),
            Err(e) => Err(e),
        },
    }
}

/// The values of the first `n` items.
pub open spec fn param_items(items: Seq<JsonTree>, n: nat) -> Result<Seq<ValueTree>, Seq<char>>
    decreases items, n,
{
    if n == 0 || n > items.len() {
        Ok(Seq::empty())
    } else {
        match param_items(items, (n - 1) as nat) {
            Err(e) => Err(e),
            Ok(before) => match param_value(items[n - 1]) {
                Err(e) => Err(e),
                Ok(v) => Ok(before.push(v)),
            },
        }
    }
}

/// The values of the first `n` members.
pub open spec fn param_members(members: Seq<(Seq<char>, JsonTree)>, n: nat) -> Result<
    Seq<(Seq<char>, ValueTree)>,
    Seq<char>,
>
    decreases members, n,
{
    if n == 0 || n > members.len() {
        Ok(Seq::empty())
    } else {
        match param_members(members, (n - 1) as nat) {
            Err(e) => Err(e),
            Ok(before) => {
                let member = members[n - 1];
                match param_value(member.1) {
                    Err(e) => Err(e),
                    Ok(v) => Ok(before.push((member.0, v))),
                }
            },
        }
    }
}

/// A refused item refuses the list.
proof fn lemma_items_refused(items: Seq<JsonTree>, m: nat, n: nat)
    requires
        m <= n <= items.len(),
        param_items(items, m) is Err,
    ensures
        param_items(items, n) == param_items(items, m),
    decreases n - m,
{
    if m < n {
        lemma_items_refused(items, m, (n - 1) as nat);
    }
}

/// A refused member refuses the object.
proof fn lemma_members_refused(members: Seq<(Seq<char>, JsonTree)>, m: nat, n: nat)
    requires
        m <= n <= members.len(),
        param_members(members, m) is Err,
    ensures
        param_members(members, n) == param_members(members, m),
    decreases n - m,
{
    if m < n {
        lemma_members_refused(members, m, (n - 1) as nat);
    }
}

/// What a conversion came to.
pub open spec fn outcome_tree(r: Result<RuntimeValue, String>) -> Result<ValueTree, Seq<char>> {
    match r {
        Ok(v) => Ok(v@),
        Err(e) => Err(e@),
    }
}

/// The value of a JSON parameter.
pub fn json_to_runtime(v: &Json) -> (r: Result<RuntimeValue, String>)
    ensures
        outcome_tree(r) == param_value(v@),
    decreases v,
{
    match v {
        Json::Null => Ok(RuntimeValue::Null),
        Json::Bool(b) => Ok(RuntimeValue::Bool(*b)),
        Json::Integer(n) => {
            if *n >= i64::MIN as i128 && *n <= i64::MAX as i128 {
                Ok(RuntimeValue::Integer(*n as i64))
            } else if *n > i64::MAX as i128 {
                let mut out = "integer param ".to_owned();
                let digits = decimal_of_u128(*n as u128);
                out.append(digits.as_str());
                out.append(" exceeds the 64-bit signed range");
                Err(out)
            } else {
                let mut out = "unsupported numeric param: ".to_owned();
                let below: u128 = (-(*n + 1)) as u128;
                let digits = decimal_of_u128(below + 1);
                let mut signed = "-".to_owned();
                signed.append(digits.as_str());
                out.append(signed.as_str());
                Err(out)
            }
        },
        Json::Float(bits) => Ok(RuntimeValue::Float(*bits)),
        Json::Text(s) => Ok(RuntimeValue::Text(s.clone())),
        Json::Array(items) => {
            let ghost all = v@->Array_0;
            let mut out: Vec<RuntimeValue> = Vec::new();
            let mut i: usize = 0;
            assert(value_trees(out@) =~= Seq::<ValueTree>::empty());
            while i < items.len()
                invariant
                    i <= items@.len(),
                    *v == Json::Array(*items),
                    all == v@->Array_0,
                    all.len() == items@.len(),
                    param_items(all, i as nat) == Ok::<Seq<ValueTree>, Seq<char>>(
                        value_trees(out@),
                    ),
                decreases items.len() - i,
            {
                proof {
                    assert(all[i as int] == items@[i as int]@);
                    assert(decreases_to!(*v => *items));
                    assert(decreases_to!(*items => items@));
                    assert(decreases_to!(items@ => items@[i as int]));
                }
                match json_to_runtime(&items[i]) {
                    Ok(value) => {
                        let ghost before = value_trees(out@);
                        let ghost made = value@;
                        out.push(value);
                        assert(value_trees(out@) =~= before.push(made));
                    },
                    Err(e) => {
                        proof {
                            lemma_items_refused(all, (i + 1) as nat, all.len());
                        }
                        return Err(e);
                    },
                }
                i = i + 1;
            }
            Ok(RuntimeValue::List(out))
        },
        Json::Object(members) => {
            let ghost all = v@->Object_0;
            let mut out: Vec<(String, RuntimeValue)> = Vec::new();
            let mut i: usize = 0;
            assert(entry_trees(out@) =~= Seq::<(Seq<char>, ValueTree)>::empty());
            while i < members.len()
                invariant
                    i <= members@.len(),
                    *v == Json::Object(*members),
                    all == v@->Object_0,
                    all.len() == members@.len(),
                    param_members(all, i as nat) == Ok::<Seq<(Seq<char>, ValueTree)>, Seq<char>>(
                        entry_trees(out@),
                    ),
                decreases members.len() - i,
            {
                proof {
                    assert(all[i as int] == (members@[i as int].0@, members@[i as int].1@));
                    assert(decreases_to!(*v => *members));
                    assert(decreases_to!(*members => members@));
                    assert(decreases_to!(members@ => members@[i as int]));
                    assert(decreases_to!(members@[i as int] => members@[i as int].1));
                }
                match json_to_runtime(&members[i].1) {
                    Ok(value) => {
                        let ghost before = entry_trees(out@);
                        let ghost made = (members@[i as int].0@, value@);
                        out.push((members[i].0.clone(), value));
                        assert(entry_trees(out@) =~= before.push(made));
                    },
                    Err(e) => {
                        proof {
                            lemma_members_refused(all, (i + 1) as nat, all.len());
                        }
                        return Err(e);
                    },
                }
                i = i + 1;
            }
            Ok(RuntimeValue::Dict(out))
        },
    }
}

/// The parameters of a request: every member of the object, by its name. What
/// is no object has none.
pub fn params_from_json(params: &Json) -> (r: Result<Vec<(String, RuntimeValue)>, String>)
    ensures
        match params@ {
            JsonTree::Object(members) => match r {
                Ok(entries) => param_members(members, members.len()) == Ok::<
                    Seq<(Seq<char>, ValueTree)>,
                    Seq<char>,
                >(entry_trees(entries@)),
                Err(e) => param_members(members, members.len()) == Err::<
                    Seq<(Seq<char>, ValueTree)>,
                    Seq<char>,
                >(e@),
            },
            _ => r is Ok && r->Ok_0@.len() == 0,
        },
{
    match params {
        Json::Object(_) => match json_to_runtime(params) {
            Ok(RuntimeValue::Dict(entries)) => Ok(entries),
            Ok(_) => {
                assert(false);
                Ok(Vec::new())
            },
            Err(e) => Err(e),
        },
        _ => Ok(Vec::new()),
    }
}

// ---------------------------------------------------------------------------
// Values to JSON
// ---------------------------------------------------------------------------

/// The character of the standard base64 alphabet for a number below 64.
pub open spec fn base64_char(n: nat) -> char {
    if n < 26 {
        ('A' as nat + n) as char
    } else if n < 52 {
        ('a' as nat + n - 26) as char
    } else if n < 62 {
        ('0' as nat + n - 52) as char
    } else if n == 62 {
        '+'
    } else {
        '/'
    }
}

/// The standard, padded base64 text of a byte string: four characters of six bits
/// for every three bytes, and what a last group lacks is padded.
pub open spec fn base64_text(bytes: Seq<u8>) -> Seq<char>
    decreases bytes.len(),
{
    if bytes.len() == 0 {
        Seq::empty()
    } else {
        let first = bytes[0] as nat;
        let second = if bytes.len() > 1 { bytes[1] as nat } else { 0 };
        let third = if bytes.len() > 2 { bytes[2] as nat } else { 0 };
        let group = seq![
            base64_char(first / 4),
            base64_char(first % 4 * 16 + second / 16),
            if bytes.len() > 1 { base64_char(second % 16 * 4 + third / 64) } else { '=' },
            if bytes.len() > 2 { base64_char(third % 64) } else { '=' },
        ];
        if bytes.len() <= 3 {
            group
        } else {
            group + base64_text(bytes.skip(3))
        }
    }
}

/// `base64::engine::general_purpose::STANDARD.encode` writes a byte string in
/// the standard alphabet with padding, three bytes to four characters.
#[verifier::external_body]
fn base64_encode(bytes: &Vec<u8>) -> (r: String)
    ensures
        r@ == base64_text(bytes@),
{
    base64::engine::general_purpose::STANDARD.encode(bytes)
}

/// The RFC 3339 text of a moment, in UTC, given by its microseconds since the
/// Unix epoch; none when it is out of the calendar's range.
pub uninterp spec fn rfc3339_text(micros: int) -> Option<Seq<char>>;

/// `chrono::DateTime::from_timestamp_micros` makes a moment in UTC of its
/// microseconds since the Unix epoch, unless the calendar does not reach it, and
/// `to_rfc3339` writes it. The claim is that the outcome depends on the
/// microseconds alone.
#[verifier::external_body]
fn rfc3339(micros: i64) -> (r: Option<String>)
    ensures
        rfc3339_text(micros as int) == match r {
            Some(s) => Some(s@),
            None => None::<Seq<char>>,
        },
{
    chrono::DateTime::<chrono::Utc>::from_timestamp_micros(micros).map(|dt| dt.to_rfc3339())
}

/// Whether binary64 bits stand for a number, and not for an infinity or a NaN.
pub open spec fn is_finite(bits: u64) -> bool {
    (bits / 0x10_0000_0000_0000) % 0x800 != 0x7ff
}

/// The JSON form of a float; JSON has none for an infinity or a NaN.
pub open spec fn float_json(bits: u64) -> JsonTree {
    if is_finite(bits) {
        JsonTree::Float(bits)
    } else {
        JsonTree::Null
    }
}

/// The JSON forms of a list of values.
pub open spec fn list_json(items: Seq<ValueTree>) -> Seq<JsonTree>
    decreases items,
{
    Seq::new(
        items.len(),
        |i: int|
            if 0 <= i < items.len() {
                value_json(items[i])
            } else {
                JsonTree::Null
            },
    )
}

/// The JSON forms of a list of named values.
pub open spec fn entries_json(entries: Seq<(Seq<char>, ValueTree)>) -> Seq<(Seq<char>, JsonTree)>
    decreases entries,
{
    Seq::new(
        entries.len(),
        |i: int|
            if 0 <= i < entries.len() {
                (entries[i].0, value_json(entries[i].1))
            } else {
                (Seq::empty(), JsonTree::Null)
            },
    )
}

/// The JSON form of a value. A node shows its first label apart, then all of
/// them.
pub open spec fn value_json(v: ValueTree) -> JsonTree
    decreases v,
{
    match v {
        ValueTree::Null => JsonTree::Null,
        ValueTree::Bool(b) => JsonTree::Bool(b),
        ValueTree::Integer(n) => JsonTree::Integer(n),
        ValueTree::Float(bits) => float_json(bits),
        ValueTree::Text(s) => JsonTree::Text(s),
        ValueTree::Bytes(b) => JsonTree::Text(base64_text(b)),
        ValueTree::Vector(components) => JsonTree::Array(
            components.map_values(|bits: u64| float_json(bits)),
        ),
        ValueTree::List(items) => JsonTree::Array(list_json(items)),
        ValueTree::Dict(entries) => JsonTree::Object(entries_json(entries)),
        ValueTree::Date(s) => JsonTree::Text(s),
        ValueTree::DateTime(micros) => match rfc3339_text(micros) {
            Some(s) => JsonTree::Text(s),
            None => JsonTree::Null,
        },
        ValueTree::Node { id, labels, properties } => JsonTree::Object(
            seq![
                ("_kind"@, JsonTree::Text("node"@)),
                ("id"@, JsonTree::Text(id)),
                (
                    "label"@,
                    JsonTree::Text(
                        if labels.len() > 0 {
                            labels[0]
                        } else {
                            Seq::empty()
                        },
                    ),
                ),
                ("labels"@, text_array(labels)),
                ("properties"@, JsonTree::Object(entries_json(properties))),
            ],
        ),
        ValueTree::Rel { edge_type, src, dst, properties } => JsonTree::Object(
            seq![
                ("_kind"@, JsonTree::Text("rel"@)),
                ("dst"@, JsonTree::Text(dst)),
                ("edge_type"@, JsonTree::Text(edge_type)),
                ("properties"@, JsonTree::Object(entries_json(properties))),
                ("src"@, JsonTree::Text(src)),
            ],
        ),
        ValueTree::Path(items) => JsonTree::Array(list_json(items)),
    }
}

/// The JSON form of a float.
fn float_to_json(bits: u64) -> (r: Json)
    ensures
        r@ == float_json(bits),
{
    if (bits / 0x10_0000_0000_0000) % 0x800 != 0x7ff {
        Json::Float(bits)
    } else {
        Json::Null
    }
}

/// The JSON form of a list of values.
fn list_to_json(items: &Vec<RuntimeValue>) -> (r: Json)
    ensures
        r@ == JsonTree::Array(list_json(value_trees(items@))),
    decreases items@, 0nat,
{
    let ghost all = value_trees(items@);
    let mut out: Vec<Json> = Vec::new();
    let mut i: usize = 0;
    while i < items.len()
        invariant
            i <= items@.len(),
            out@.len() == i,
            all == value_trees(items@),
            forall|j: int| 0 <= j < i ==> (#[trigger] out@[j])@ == value_json(all[j]),
        decreases items.len() - i,
    {
        assert(decreases_to!(items@ => items@[i as int]));
        assert(all[i as int] == items@[i as int]@);
        out.push(runtime_to_json(&items[i]));
        i = i + 1;
    }
    let ghost made = out@;
    let r = Json::array(out);
    assert(trees(made) =~= list_json(all));
    r
}

/// The JSON form of a list of named values.
fn entries_to_json(entries: &Vec<(String, RuntimeValue)>) -> (r: Json)
    ensures
        r@ == JsonTree::Object(entries_json(entry_trees(entries@))),
    decreases entries@, 0nat,
{
    let ghost all = entry_trees(entries@);
    let mut out = Members::new();
    let mut i: usize = 0;
    while i < entries.len()
        invariant
            i <= entries@.len(),
            all == entry_trees(entries@),
            out@ =~= entries_json(all).take(i as int),
        decreases entries.len() - i,
    {
        assert(decreases_to!(entries@ => entries@[i as int]));
        assert(decreases_to!(entries@[i as int] => entries@[i as int].1));
        assert(all[i as int] == (entries@[i as int].0@, entries@[i as int].1@));
        out = out.with(entries[i].0.as_str(), runtime_to_json(&entries[i].1));
        assert(entries_json(all).take(i + 1) =~= entries_json(all).take(i as int).push(
            entries_json(all)[i as int],
        ));
        i = i + 1;
    }
    assert(out@ =~= entries_json(all));
    out.finish()
}

/// The JSON form of a vector.
fn vector_to_json(components: &Vec<u64>) -> (r: Json)
    ensures
        r@ == JsonTree::Array(components@.map_values(|bits: u64| float_json(bits))),
{
    let mut out: Vec<Json> = Vec::new();
    let mut i: usize = 0;
    while i < components.len()
        invariant
            i <= components@.len(),
            out@.len() == i,
            forall|j: int| 0 <= j < i ==> (#[trigger] out@[j])@ == float_json(components@[j]),
        decreases components.len() - i,
    {
        out.push(float_to_json(components[i]));
        i = i + 1;
    }
    let ghost made = out@;
    let r = Json::array(out);
    assert(trees(made) =~= components@.map_values(|bits: u64| float_json(bits)));
    r
}

/// The JSON form of a value.
pub fn runtime_to_json(v: &RuntimeValue) -> (r: Json)
    ensures
        r@ == value_json(v@),
    decreases v, 1nat,
{
    match v {
        RuntimeValue::Null => Json::Null,
        RuntimeValue::Bool(b) => Json::Bool(*b),
        RuntimeValue::Integer(n) => Json::Integer(*n as i128),
        RuntimeValue::Float(bits) => float_to_json(*bits),
        RuntimeValue::Text(s) => Json::Text(s.clone()),
        RuntimeValue::Bytes(b) => Json::Text(base64_encode(b)),
        RuntimeValue::Vector(components) => vector_to_json(components),
        RuntimeValue::List(items) => {
            assert(decreases_to!(*v => *items));
            assert(decreases_to!(*items => items@));
            list_to_json(items)
        },
        RuntimeValue::Dict(entries) => {
            assert(decreases_to!(*v => *entries));
            assert(decreases_to!(*entries => entries@));
            entries_to_json(entries)
        },
        RuntimeValue::Date(s) => Json::Text(s.clone()),
        RuntimeValue::DateTime(micros) => match rfc3339(*micros) {
            Some(s) => Json::Text(s),
            None => Json::Null,
        },
        RuntimeValue::Node(n) => {
            proof {
                assert(decreases_to!(*v => *n));
                assert(decreases_to!(*n => n.properties));
                assert(decreases_to!(n.properties => n.properties@));
            }
            let properties = entries_to_json(&n.properties);
            let first = if n.labels.len() > 0 {
                assert(texts(n.labels@)[0] == n.labels@[0]@);
                n.labels[0].clone()
            } else {
                String::new()
            };
            let out = Members::new().with_text("_kind", "node").with_text(
                "id",
                n.id.as_str(),
            ).with_text("label", first.as_str()).with("labels", Json::texts(&n.labels)).with(
                "properties",
                properties,
            );
            assert(out@ =~= value_json(v@)->Object_0);
            out.finish()
        },
        RuntimeValue::Rel(n) => {
            proof {
                assert(decreases_to!(*v => *n));
                assert(decreases_to!(*n => n.properties));
                assert(decreases_to!(n.properties => n.properties@));
            }
            let properties = entries_to_json(&n.properties);
            let out = Members::new().with_text("_kind", "rel").with_text(
                "dst",
                n.dst.as_str(),
            ).with_text("edge_type", n.edge_type.as_str()).with("properties", properties).with_text(
                "src",
                n.src.as_str(),
            );
            assert(out@ =~= value_json(v@)->Object_0);
            out.finish()
        },
        RuntimeValue::Path(items) => {
            assert(decreases_to!(*v => *items));
            assert(decreases_to!(*items => items@));
            list_to_json(items)
        },
    }
}

// ---------------------------------------------------------------------------
// Result rows
// ---------------------------------------------------------------------------

/// One result row: its bindings by name, in name order.
pub struct Row {
    pub bindings: Vec<(String, RuntimeValue)>,
}

/// The names that a row binds.
pub open spec fn binding_names(bindings: Seq<(String, RuntimeValue)>) -> Seq<Seq<char>> {
    bindings.map_values(|b: (String, RuntimeValue)| b.0@)
}

/// The columns of a result: the names that its first row binds.
pub open spec fn row_columns(rows: Seq<Row>) -> Seq<Seq<char>> {
    if rows.len() == 0 {
        Seq::empty()
    } else {
        binding_names(rows[0].bindings@)
    }
}

/// The JSON form of every row.
pub open spec fn row_json(rows: Seq<Row>) -> Seq<JsonTree> {
    rows.map_values(|r: Row| JsonTree::Object(entries_json(entry_trees(r.bindings@))))
}

/// The columns of a result.
pub fn field_list(rows: &Vec<Row>) -> (r: Vec<String>)
    ensures
        texts(r@) == row_columns(rows@),
{
    let mut out: Vec<String> = Vec::new();
    if rows.len() == 0 {
        assert(texts(out@) =~= row_columns(rows@));
        return out;
    }
    let bindings = &rows[0].bindings;
    let mut i: usize = 0;
    while i < bindings.len()
        invariant
            i <= bindings@.len(),
            out@.len() == i,
            forall|j: int| 0 <= j < i ==> (#[trigger] out@[j])@ == bindings@[j].0@,
        decreases bindings.len() - i,
    {
        out.push(bindings[i].0.clone());
        i = i + 1;
    }
    assert(texts(out@) =~= row_columns(rows@));
    out
}

/// The columns of a result and the JSON form of its rows.
pub fn rows_to_json(rows: &Vec<Row>) -> (r: (Vec<String>, Vec<Json>))
    ensures
        texts(r.0@) == row_columns(rows@),
        trees(r.1@) == row_json(rows@),
{
    let columns = field_list(rows);
    let mut out: Vec<Json> = Vec::new();
    let mut i: usize = 0;
    while i < rows.len()
        invariant
            i <= rows@.len(),
            out@.len() == i,
            forall|j: int|
                0 <= j < i ==> (#[trigger] out@[j])@ == JsonTree::Object(
                    entries_json(entry_trees(rows@[j].bindings@)),
                ),
        decreases rows.len() - i,
    {
        out.push(entries_to_json(&rows[i].bindings));
        i = i + 1;
    }
    assert(trees(out@) =~= row_json(rows@));
    (columns, out)
}

/// A node in JSON tells under each name what the node holds: its identity, its
/// labels, the first of them apart, and its properties.
pub proof fn law_node_json(node: NodeValue)
    ensures
        ({
            let json = value_json(RuntimeValue::Node(node)@);
            &&& json.field("_kind"@) == Some(JsonTree::Text("node"@))
            &&& json.field("id"@) == Some(JsonTree::Text(node.id@))
            &&& node.labels@.len() > 0 ==> json.field("label"@) == Some(
                JsonTree::Text(node.labels@[0]@),
            )
            &&& node.labels@.len() == 0 ==> json.field("label"@) == Some(
                JsonTree::Text(Seq::empty()),
            )
            &&& json.field("labels"@) matches Some(JsonTree::Array(labels))
            &&& labels.len() == node.labels@.len()
            &&& forall|i: int|
                0 <= i < labels.len() ==> #[trigger] labels[i] == JsonTree::Text(node.labels@[i]@)
            &&& json.field("properties"@) == Some(
                value_json(RuntimeValue::Dict(node.properties)@),
            )
            &&& json->Object_0.len() == 5
        }),
{
    let json = value_json(RuntimeValue::Node(node)@);
    reveal_strlit("_kind");
    reveal_strlit("id");
    reveal_strlit("label");
    reveal_strlit("labels");
    reveal_strlit("properties");
    assert("_kind"@.len() != "id"@.len());
    assert("_kind"@[0] != "label"@[0]);
    assert("id"@.len() != "label"@.len());
    assert("_kind"@.len() != "labels"@.len());
    assert("id"@.len() != "labels"@.len());
    assert("label"@.len() != "labels"@.len());
    assert("_kind"@.len() != "properties"@.len());
    assert("id"@.len() != "properties"@.len());
    assert("label"@.len() != "properties"@.len());
    assert("labels"@.len() != "properties"@.len());
    let members = json->Object_0;
    crate::json::law_first_member_counts(members, 0);
    crate::json::law_first_member_counts(members, 1);
    crate::json::law_first_member_counts(members, 2);
    crate::json::law_first_member_counts(members, 3);
    crate::json::law_first_member_counts(members, 4);
    if node.labels@.len() > 0 {
        assert(texts(node.labels@)[0] == node.labels@[0]@);
    }
}

/// A relationship in JSON tells under each name what the relationship holds: its
/// type, where it comes from, where it goes, and its properties.
pub proof fn law_relationship_json(rel: RelValue)
    ensures
        ({
            let json = value_json(RuntimeValue::Rel(rel)@);
            &&& json.field("_kind"@) == Some(JsonTree::Text("rel"@))
            &&& json.field("src"@) == Some(JsonTree::Text(rel.src@))
            &&& json.field("dst"@) == Some(JsonTree::Text(rel.dst@))
            &&& json.field("edge_type"@) == Some(JsonTree::Text(rel.edge_type@))
            &&& json.field("properties"@) == Some(
                value_json(RuntimeValue::Dict(rel.properties)@),
            )
            &&& json->Object_0.len() == 5
        }),
{
    let json = value_json(RuntimeValue::Rel(rel)@);
    reveal_strlit("_kind");
    reveal_strlit("dst");
    reveal_strlit("edge_type");
    reveal_strlit("properties");
    reveal_strlit("src");
    assert("_kind"@.len() != "dst"@.len());
    assert("_kind"@.len() != "edge_type"@.len());
    assert("dst"@.len() != "edge_type"@.len());
    assert("_kind"@.len() != "properties"@.len());
    assert("dst"@.len() != "properties"@.len());
    assert("edge_type"@.len() != "properties"@.len());
    assert("_kind"@.len() != "src"@.len());
    assert("dst"@[0] != "src"@[0]);
    assert("edge_type"@.len() != "src"@.len());
    assert("properties"@.len() != "src"@.len());
    let members = json->Object_0;
    crate::json::law_first_member_counts(members, 0);
    crate::json::law_first_member_counts(members, 1);
    crate::json::law_first_member_counts(members, 2);
    crate::json::law_first_member_counts(members, 3);
    crate::json::law_first_member_counts(members, 4);
}

/// A relationship turned round is a relationship turned round in JSON, and equal
/// forms come from equal ends: no two relationships that differ in type or in an
/// end look alike.
pub proof fn law_relationship_ends_are_told(a: RelValue, b: RelValue)
    requires
        value_json(RuntimeValue::Rel(a)@) == value_json(RuntimeValue::Rel(b)@),
    ensures
        a.edge_type@ == b.edge_type@,
        a.src@ == b.src@,
        a.dst@ == b.dst@,
{
    law_relationship_json(a);
    law_relationship_json(b);
}

/// A list, a path, a map and a vector in JSON have as many items as the value, in
/// the same order, each the form of its own; a float that JSON cannot write is
/// null, and a date stays as it is written.
pub proof fn law_items_json(v: RuntimeValue, i: int)
    ensures
        match v {
            RuntimeValue::Null => value_json(v@) == JsonTree::Null,
            RuntimeValue::Bool(b) => value_json(v@) == JsonTree::Bool(b),
            RuntimeValue::Integer(n) => value_json(v@) == JsonTree::Integer(n as int),
            RuntimeValue::Float(bits) => value_json(v@) == if is_finite(bits) {
                JsonTree::Float(bits)
            } else {
                JsonTree::Null
            },
            RuntimeValue::Text(s) => value_json(v@) == JsonTree::Text(s@),
            RuntimeValue::Date(s) => value_json(v@) == JsonTree::Text(s@),
            RuntimeValue::Bytes(b) => value_json(v@) == JsonTree::Text(base64_text(b@)),
            RuntimeValue::List(items) => {
                &&& value_json(v@) is Array
                &&& value_json(v@)->Array_0.len() == items@.len()
                &&& 0 <= i < items@.len() ==> value_json(v@)->Array_0[i] == value_json(items@[i]@)
            },
            RuntimeValue::Path(items) => {
                &&& value_json(v@) is Array
                &&& value_json(v@)->Array_0.len() == items@.len()
                &&& 0 <= i < items@.len() ==> value_json(v@)->Array_0[i] == value_json(items@[i]@)
            },
            RuntimeValue::Vector(bits) => {
                &&& value_json(v@) is Array
                &&& value_json(v@)->Array_0.len() == bits@.len()
                &&& 0 <= i < bits@.len() ==> value_json(v@)->Array_0[i] == value_json(
                    RuntimeValue::Float(bits@[i])@,
                )
            },
            RuntimeValue::Dict(entries) => {
                &&& value_json(v@) is Object
                &&& value_json(v@)->Object_0.len() == entries@.len()
                &&& 0 <= i < entries@.len() ==> value_json(v@)->Object_0[i] == (
                    entries@[i].0@,
                    value_json(entries@[i].1@),
                )
            },
            _ => true,
        },
{
}

/// A result has the columns that its first row binds, in that order, and a row in
/// JSON tells under the name of every binding what is bound to it.
pub proof fn law_rows_json(rows: Seq<Row>, i: int, j: int)
    requires
        0 <= i < rows.len(),
        0 <= j < rows[i].bindings@.len(),
        forall|k: int|
            0 <= k < j ==> (#[trigger] rows[i].bindings@[k]).0@ != rows[i].bindings@[j].0@,
    ensures
        row_json(rows).len() == rows.len(),
        row_json(rows)[i].field(rows[i].bindings@[j].0@) == Some(
            value_json(rows[i].bindings@[j].1@),
        ),
        i == 0 ==> row_columns(rows).len() == rows[0].bindings@.len() && row_columns(rows)[j]
            == rows[0].bindings@[j].0@,
{
    let bindings = rows[i].bindings@;
    let members = entries_json(entry_trees(bindings));
    assert(members[j] == (bindings[j].0@, value_json(bindings[j].1@)));
    assert forall|k: int| 0 <= k < j implies (#[trigger] members[k]).0 != members[j].0 by {
        assert(members[k].0 == bindings[k].0@);
    }
    crate::json::law_first_member_counts(members, j);
}

/// A JSON parameter keeps its shape: a list has as many values as the document has
/// items, a map as many entries with the same names, each the value of its own;
/// and one item that is refused refuses the whole.
pub proof fn law_params_keep_shape(doc: Json, i: int)
    ensures
        match doc {
            Json::Null => param_value(doc@) == Ok::<ValueTree, Seq<char>>(ValueTree::Null),
            Json::Bool(b) => param_value(doc@) == Ok::<ValueTree, Seq<char>>(ValueTree::Bool(b)),
            Json::Float(bits) => param_value(doc@) == Ok::<ValueTree, Seq<char>>(
                ValueTree::Float(bits),
            ),
            Json::Text(s) => param_value(doc@) == Ok::<ValueTree, Seq<char>>(ValueTree::Text(s@)),
            Json::Array(items) => match param_value(doc@) {
                Ok(v) => {
                    &&& v is List
                    &&& v->List_0.len() == items@.len()
                    &&& 0 <= i < items@.len() ==> param_value(items@[i]@) == Ok::<
                        ValueTree,
                        Seq<char>,
                    >(v->List_0[i])
                },
                Err(e) => exists|k: int|
                    0 <= k < items@.len() && param_value((#[trigger] items@[k])@) == Err::<
                        ValueTree,
                        Seq<char>,
                    >(e),
            },
            Json::Object(members) => match param_value(doc@) {
                Ok(v) => {
                    &&& v is Dict
                    &&& v->Dict_0.len() == members@.len()
                    &&& 0 <= i < members@.len() ==> v->Dict_0[i].0 == members@[i].0@
                        && param_value(members@[i].1@) == Ok::<ValueTree, Seq<char>>(
                        v->Dict_0[i].1,
                    )
                },
                Err(e) => exists|k: int|
                    0 <= k < members@.len() && param_value((#[trigger] members@[k]).1@) == Err::<
                        ValueTree,
                        Seq<char>,
                    >(e),
            },
            _ => true,
        },
{
    match doc {
        Json::Array(items) => {
            lemma_items_shape(doc@->Array_0, items@.len());
            assert(forall|k: int|
                0 <= k < items@.len() ==> (#[trigger] items@[k])@ == doc@->Array_0[k]);
            if let Err(e) = param_value(doc@) {
                let k = choose|k: int|
                    0 <= k < items@.len() && param_value(#[trigger] doc@->Array_0[k]) == Err::<
                        ValueTree,
                        Seq<char>,
                    >(e);
                assert(items@[k]@ == doc@->Array_0[k]);
            }
        },
        Json::Object(members) => {
            lemma_members_shape(doc@->Object_0, members@.len());
            assert(forall|k: int|
                0 <= k < members@.len() ==> doc@->Object_0[k] == (
                    (#[trigger] members@[k]).0@,
                    members@[k].1@,
                ));
            if let Err(e) = param_value(doc@) {
                let k = choose|k: int|
                    0 <= k < members@.len() && param_value((#[trigger] doc@->Object_0[k]).1)
                        == Err::<ValueTree, Seq<char>>(e);
                assert(members@[k].1@ == doc@->Object_0[k].1);
            }
        },
        _ => {},
    }
}

proof fn lemma_items_shape(items: Seq<JsonTree>, n: nat)
    requires
        n <= items.len(),
    ensures
        match param_items(items, n) {
            Ok(values) => values.len() == n && forall|i: int|
                0 <= i < n ==> param_value(#[trigger] items[i]) == Ok::<ValueTree, Seq<char>>(
                    values[i],
                ),
            Err(e) => exists|k: int|
                0 <= k < n && param_value(#[trigger] items[k]) == Err::<ValueTree, Seq<char>>(e),
        },
    decreases n,
{
    if n > 0 {
        lemma_items_shape(items, (n - 1) as nat);
        if param_items(items, (n - 1) as nat) is Ok && param_value(items[n - 1]) is Err {
            assert(param_value(items[n - 1]) is Err);
        }
    }
}

proof fn lemma_members_shape(members: Seq<(Seq<char>, JsonTree)>, n: nat)
    requires
        n <= members.len(),
    ensures
        match param_members(members, n) {
            Ok(values) => values.len() == n && forall|i: int|
                0 <= i < n ==> values[i].0 == members[i].0 && param_value(
                    (#[trigger] members[i]).1,
                ) == Ok::<ValueTree, Seq<char>>(values[i].1),
            Err(e) => exists|k: int|
                0 <= k < n && param_value((#[trigger] members[k]).1) == Err::<
                    ValueTree,
                    Seq<char>,
                >(e),
        },
    decreases n,
{
    if n > 0 {
        lemma_members_shape(members, (n - 1) as nat);
        if param_members(members, (n - 1) as nat) is Ok && param_value(members[n - 1].1) is Err {
            assert(param_value(members[n - 1].1) is Err);
        }
    }
}

/// Whether a value is made only of what a JSON parameter can hold, with every
/// float finite.
pub open spec fn is_plain(v: ValueTree) -> bool
    decreases v,
{
    match v {
        ValueTree::Null | ValueTree::Bool(_) | ValueTree::Text(_) => true,
        ValueTree::Integer(n) => i64::MIN <= n <= i64::MAX,
        ValueTree::Float(bits) => is_finite(bits),
        ValueTree::List(items) => forall|i: int|
            0 <= i < items.len() ==> is_plain(#[trigger] items[i]),
        ValueTree::Dict(entries) => forall|i: int|
            0 <= i < entries.len() ==> is_plain((#[trigger] entries[i]).1),
        _ => false,
    }
}

/// A value made of what a parameter can hold survives the way to JSON and back.
pub proof fn law_json_round_trip(v: ValueTree)
    requires
        is_plain(v),
    ensures
        param_value(value_json(v)) == Ok::<ValueTree, Seq<char>>(v),
    decreases v, 1nat,
{
    match v {
        ValueTree::List(items) => {
            lemma_list_round_trip(items, items.len());
            assert(items.take(items.len() as int) =~= items);
        },
        ValueTree::Dict(entries) => {
            lemma_dict_round_trip(entries, entries.len());
            assert(entries.take(entries.len() as int) =~= entries);
        },
        _ => {},
    }
}

proof fn lemma_list_round_trip(items: Seq<ValueTree>, n: nat)
    requires
        n <= items.len(),
        forall|i: int| 0 <= i < items.len() ==> is_plain(#[trigger] items[i]),
    ensures
        param_items(list_json(items), n) == Ok::<Seq<ValueTree>, Seq<char>>(items.take(n as int)),
    decreases items, n,
{
    if n == 0 {
        assert(items.take(0) =~= Seq::<ValueTree>::empty());
    } else {
        lemma_list_round_trip(items, (n - 1) as nat);
        law_json_round_trip(items[n - 1]);
        assert(list_json(items)[n - 1] == value_json(items[n - 1]));
        assert(items.take(n as int) =~= items.take(n - 1).push(items[n - 1]));
    }
}

proof fn lemma_dict_round_trip(entries: Seq<(Seq<char>, ValueTree)>, n: nat)
    requires
        n <= entries.len(),
        forall|i: int| 0 <= i < entries.len() ==> is_plain((#[trigger] entries[i]).1),
    ensures
        param_members(entries_json(entries), n) == Ok::<Seq<(Seq<char>, ValueTree)>, Seq<char>>(
            entries.take(n as int),
        ),
    decreases entries, n,
{
    if n == 0 {
        assert(entries.take(0) =~= Seq::<(Seq<char>, ValueTree)>::empty());
    } else {
        lemma_dict_round_trip(entries, (n - 1) as nat);
        assert(decreases_to!(entries => entries[n - 1]));
        assert(decreases_to!(entries[n - 1] => entries[n - 1].1));
        law_json_round_trip(entries[n - 1].1);
        assert(entries_json(entries)[n - 1] == (entries[n - 1].0, value_json(entries[n - 1].1)));
        assert(entries.take(n as int) =~= entries.take(n - 1).push(entries[n - 1]));
    }
}

/// An integer parameter is bound as it is or refused, and never turned into a
/// float.
pub proof fn law_integers_stay_exact(n: int)
    ensures
        i64::MIN <= n <= i64::MAX ==> param_value(JsonTree::Integer(n)) == Ok::<
            ValueTree,
            Seq<char>,
        >(ValueTree::Integer(n)),
        !(i64::MIN <= n <= i64::MAX) ==> param_value(JsonTree::Integer(n)) is Err,
{
}

} // verus!
