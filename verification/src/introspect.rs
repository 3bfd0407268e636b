//! Schema introspection for graphical Bolt clients.
//!
//! The query language has no `CALL` clause, so the handful of procedures that a
//! client fires on connect is recognized here, ahead of the parser, and answered
//! from what is known of the live schema.

use vstd::prelude::*;

use crate::outcome::{row_trees, show_run_outcome, RunOutcome};
use crate::text::{
    chars_of, collapse_whitespace, collapsed, insert_sorted, is_before, is_space,
    law_trimming_undoes_padding, lemma_text_order, str_eq, string_of, strictly_sorted, text_before,
    texts, trim, trimmed,
};
use crate::values::{entry_trees, value_trees, Row, RuntimeValue, ValueTree};

verus! {

// ---------------------------------------------------------------------------
// Recognizing a procedure
// ---------------------------------------------------------------------------

/// The procedures that are answered.
#[derive(Debug, Clone, Copy, PartialEq, Eq, Structural)]
pub enum Procedure {
    MetaUtilSchema,
    NodeTypeProperties,
    RelTypeProperties,
    MgProcedures,
    MgFunctions,
    DbLabels,
    DbRelationshipTypes,
    DbPropertyKeys,
    ApocNodeTypeProperties,
    ApocRelTypeProperties,
    DbmsComponents,
    ShowProcedures,
    ShowFunctions,
    ShowDatabases,
}

/// `s` without the semicolons at its end.
pub open spec fn without_semicolons(s: Seq<char>) -> Seq<char>
    decreases s.len(),
{
    if s.len() > 0 && s.last() == ';' {
        without_semicolons(s.drop_last())
    } else {
        s
    }
}

/// A statement with its trailing semicolons dropped and its whitespace
/// collapsed, so that small differences between clients do not matter.
pub open spec fn normalized(s: Seq<char>) -> Seq<char> {
    collapsed(trimmed(without_semicolons(trimmed(s))))
}

/// A statement as it is compared, but for the case of its letters.
pub fn normalize(s: &str) -> (out: String)
    ensures
        out@ == normalized(s@),
{
    let inner = trim(s);
    let chars = chars_of(inner.as_str());
    let mut to: usize = chars.len();
    assert(inner@ =~= inner@.subrange(0, to as int));
    while to > 0 && chars[to - 1] == ';'
        invariant
            to <= chars@.len(),
            chars@ == inner@,
            without_semicolons(inner@) == without_semicolons(inner@.subrange(0, to as int)),
        decreases to,
    {
        assert(inner@.subrange(0, to as int).drop_last() =~= inner@.subrange(0, to - 1));
        to = to - 1;
    }
    let cut = string_of(&chars, 0, to);
    let bare = trim(cut.as_str());
    collapse_whitespace(bare.as_str())
}

/// The lower-case letter of a character, as far as it is an ASCII letter: the
/// Kelvin sign is the one character outside ASCII whose lower case is one.
pub open spec fn lowered(c: char) -> char {
    if 'A' <= c <= 'Z' {
        (c as u32 + 32) as char
    } else if c as u32 == 0x212a {
        'k'
    } else {
        c
    }
}

/// Whether `s`, in lower case, starts with `prefix`.
pub open spec fn calls(s: Seq<char>, prefix: Seq<char>) -> bool {
    &&& s.len() >= prefix.len()
    &&& forall|i: int| 0 <= i < prefix.len() ==> lowered(#[trigger] s[i]) == prefix[i]
}

/// The lower-case letter of a character.
fn lower_of(c: char) -> (r: char)
    ensures
        r == lowered(c),
{
    if 'A' <= c && c <= 'Z' {
        (c as u8 + 32) as char
    } else if c as u32 == 0x212a {
        'k'
    } else {
        c
    }
}

/// Whether `s`, in lower case, starts with `prefix`.
fn is_call(s: &str, prefix: &str) -> (r: bool)
    ensures
        r == calls(s@, prefix@),
{
    let a = chars_of(s);
    let b = chars_of(prefix);
    if a.len() < b.len() {
        return false;
    }
    let mut i: usize = 0;
    while i < b.len()
        invariant
            i <= b@.len() <= a@.len(),
            a@ == s@,
            b@ == prefix@,
            forall|j: int| 0 <= j < i ==> lowered(#[trigger] s@[j]) == prefix@[j],
        decreases b.len() - i,
    {
        if lower_of(a[i]) != b[i] {
            return false;
        }
        i = i + 1;
    }
    true
}

/// The procedure that a normalized statement calls, if it is one of them.
pub open spec fn procedure_of(s: Seq<char>) -> Option<Procedure> {
    if calls(s, "call meta_util.schema("@) {
        Some(Procedure::MetaUtilSchema)
    } else if calls(s, "call schema.node_type_properties("@) {
        Some(Procedure::NodeTypeProperties)
    } else if calls(s, "call schema.rel_type_properties("@) {
        Some(Procedure::RelTypeProperties)
    } else if calls(s, "call mg.procedures("@) {
        Some(Procedure::MgProcedures)
    } else if calls(s, "call mg.functions("@) {
        Some(Procedure::MgFunctions)
    } else if calls(s, "call db.labels("@) {
        Some(Procedure::DbLabels)
    } else if calls(s, "call db.relationshiptypes("@) {
        Some(Procedure::DbRelationshipTypes)
    } else if calls(s, "call db.propertykeys("@) {
        Some(Procedure::DbPropertyKeys)
    } else if calls(s, "call apoc.meta.nodetypeproperties("@) {
        Some(Procedure::ApocNodeTypeProperties)
    } else if calls(s, "call apoc.meta.reltypeproperties("@) {
        Some(Procedure::ApocRelTypeProperties)
    } else if calls(s, "call dbms.components("@) {
        Some(Procedure::DbmsComponents)
    } else if calls(s, "show procedures"@) || calls(s, "call dbms.procedures("@) {
        Some(Procedure::ShowProcedures)
    } else if calls(s, "show functions"@) || calls(s, "call dbms.functions("@) {
        Some(Procedure::ShowFunctions)
    } else if calls(s, "show databases"@) {
        Some(Procedure::ShowDatabases)
    } else {
        None
    }
}

/// The procedure that a statement calls. Without one the statement goes to the
/// parser.
pub fn try_introspect(cypher: &str) -> (r: Option<Procedure>)
    ensures
        r == procedure_of(normalized(cypher@)),
{
    let text = normalize(cypher);
    let s = text.as_str();
    if is_call(s, "call meta_util.schema(") {
        Some(Procedure::MetaUtilSchema)
    } else if is_call(s, "call schema.node_type_properties(") {
        Some(Procedure::NodeTypeProperties)
    } else if is_call(s, "call schema.rel_type_properties(") {
        Some(Procedure::RelTypeProperties)
    } else if is_call(s, "call mg.procedures(") {
        Some(Procedure::MgProcedures)
    } else if is_call(s, "call mg.functions(") {
        Some(Procedure::MgFunctions)
    } else if is_call(s, "call db.labels(") {
        Some(Procedure::DbLabels)
    } else if is_call(s, "call db.relationshiptypes(") {
        Some(Procedure::DbRelationshipTypes)
    } else if is_call(s, "call db.propertykeys(") {
        Some(Procedure::DbPropertyKeys)
    } else if is_call(s, "call apoc.meta.nodetypeproperties(") {
        Some(Procedure::ApocNodeTypeProperties)
    } else if is_call(s, "call apoc.meta.reltypeproperties(") {
        Some(Procedure::ApocRelTypeProperties)
    } else if is_call(s, "call dbms.components(") {
        Some(Procedure::DbmsComponents)
    } else if is_call(s, "show procedures") || is_call(s, "call dbms.procedures(") {
        Some(Procedure::ShowProcedures)
    } else if is_call(s, "show functions") || is_call(s, "call dbms.functions(") {
        Some(Procedure::ShowFunctions)
    } else if is_call(s, "show databases") {
        Some(Procedure::ShowDatabases)
    } else {
        None
    }
}

// ---------------------------------------------------------------------------
// Types of properties
// ---------------------------------------------------------------------------

/// A property type that the schema declares or has persisted.
#[derive(Debug, Clone, Copy, PartialEq, Eq, Structural)]
pub enum DataType {
    Bool,
    Int32,
    Int64,
    Float32,
    Float64,
    Utf8,
    LargeUtf8,
    Binary,
    Date32,
    TimestampMicrosUtc,
    FloatVector,
    Json,
}

/// The name that clients know a declared type by.
pub open spec fn declared_name(dt: DataType) -> Seq<char> {
    match dt {
        DataType::Bool => "Bool"@,
        DataType::Int32 | DataType::Int64 => "Int"@,
        DataType::Float32 | DataType::Float64 => "Float"@,
        DataType::Utf8 | DataType::LargeUtf8 | DataType::Binary => "String"@,
        DataType::Date32 => "Date"@,
        DataType::TimestampMicrosUtc => "LocalDateTime"@,
        DataType::FloatVector => "List"@,
        DataType::Json => "Map"@,
    }
}

/// The name that clients know a declared type by.
pub fn datatype_name(dt: DataType) -> (r: &'static str)
    ensures
        r@ == declared_name(dt),
{
    match dt {
        DataType::Bool => "Bool",
        DataType::Int32 | DataType::Int64 => "Int",
        DataType::Float32 | DataType::Float64 => "Float",
        DataType::Utf8 | DataType::LargeUtf8 | DataType::Binary => "String",
        DataType::Date32 => "Date",
        DataType::TimestampMicrosUtc => "LocalDateTime",
        DataType::FloatVector => "List",
        DataType::Json => "Map",
    }
}

/// The kind of a sampled property value.
#[derive(Debug, Clone, Copy, PartialEq, Eq, Structural)]
pub enum ValueKind {
    Null,
    Bool,
    I64,
    F64,
    Str,
    Bytes,
    Vector,
    Date,
    DateTime,
    List,
    Other,
}

/// The name that clients know the kind of a sampled value by.
pub open spec fn sampled_name(v: ValueKind) -> Seq<char> {
    match v {
        ValueKind::Null => "Null"@,
        ValueKind::Bool => "Bool"@,
        ValueKind::I64 => "Int"@,
        ValueKind::F64 => "Float"@,
        ValueKind::Str | ValueKind::Bytes => "String"@,
        ValueKind::Vector | ValueKind::List => "List"@,
        ValueKind::Date => "Date"@,
        ValueKind::DateTime => "LocalDateTime"@,
        ValueKind::Other => "Map"@,
    }
}

/// The name that clients know the kind of a sampled value by.
pub fn value_type_name(v: ValueKind) -> (r: &'static str)
    ensures
        r@ == sampled_name(v),
{
    match v {
        ValueKind::Null => "Null",
        ValueKind::Bool => "Bool",
        ValueKind::I64 => "Int",
        ValueKind::F64 => "Float",
        ValueKind::Str | ValueKind::Bytes => "String",
        ValueKind::Vector | ValueKind::List => "List",
        ValueKind::Date => "Date",
        ValueKind::DateTime => "LocalDateTime",
        ValueKind::Other => "Map",
    }
}

// ---------------------------------------------------------------------------
// Properties by name
// ---------------------------------------------------------------------------

/// The names of a list of entries.
pub open spec fn entry_names(entries: Seq<(Seq<char>, Seq<char>)>) -> Seq<Seq<char>> {
    entries.map_values(|e: (Seq<char>, Seq<char>)| e.0)
}

/// The type that a list of entries gives a name.
pub open spec fn entry_type(entries: Seq<(Seq<char>, Seq<char>)>, name: Seq<char>) -> Option<
    Seq<char>,
>
    decreases entries.len(),
{
    if entries.len() == 0 {
        None
    } else if entries[0].0 == name {
        Some(entries[0].1)
    } else {
        entry_type(entries.skip(1), name)
    }
}

/// The type names of the properties of a label, in the order of the properties'
/// names.
pub struct PropertyTypes {
    items: Vec<(String, String)>,
}

/// What the entries of a list of pairs say.
pub open spec fn pairs(items: Seq<(String, String)>) -> Seq<(Seq<char>, Seq<char>)> {
    items.map_values(|e: (String, String)| (e.0@, e.1@))
}

impl View for PropertyTypes {
    type V = Seq<(Seq<char>, Seq<char>)>;

    closed spec fn view(&self) -> Seq<(Seq<char>, Seq<char>)> {
        pairs(self.items@)
    }
}

proof fn lemma_entry_type_of_insert(
    entries: Seq<(Seq<char>, Seq<char>)>,
    at: int,
    entry: (Seq<char>, Seq<char>),
)
    requires
        0 <= at <= entries.len(),
        forall|i: int| 0 <= i < entries.len() ==> (#[trigger] entries[i]).0 != entry.0,
    ensures
        forall|name: Seq<char>| #[trigger]
            entry_type(entries.insert(at, entry), name) == if name == entry.0 {
                Some(entry.1)
            } else {
                entry_type(entries, name)
            },
    decreases entries.len(),
{
    let wide = entries.insert(at, entry);
    if at == 0 {
        assert(wide.skip(1) =~= entries);
        lemma_absent(entries, entry.0);
    } else {
        let rest = entries.skip(1);
        assert forall|i: int| 0 <= i < rest.len() implies (#[trigger] rest[i]).0 != entry.0 by {
            assert(entries[i + 1].0 != entry.0);
        }
        lemma_entry_type_of_insert(rest, at - 1, entry);
        assert(wide.skip(1) =~= rest.insert(at - 1, entry));
        assert(entries[0].0 != entry.0);
        assert(wide[0] == entries[0]);
    }
    assert forall|name: Seq<char>| #[trigger]
        entry_type(wide, name) == if name == entry.0 {
            Some(entry.1)
        } else {
            entry_type(entries, name)
        } by {
        assert(entry_type(wide, name) == if wide[0].0 == name {
            Some(wide[0].1)
        } else {
            entry_type(wide.skip(1), name)
        });
    }
}

proof fn lemma_absent(entries: Seq<(Seq<char>, Seq<char>)>, name: Seq<char>)
    requires
        forall|i: int| 0 <= i < entries.len() ==> (#[trigger] entries[i]).0 != name,
    ensures
        entry_type(entries, name) is None,
    decreases entries.len(),
{
    if entries.len() > 0 {
        assert(entries[0].0 != name);
        let rest = entries.skip(1);
        assert forall|i: int| 0 <= i < rest.len() implies (#[trigger] rest[i]).0 != name by {
            assert(entries[i + 1].0 != name);
        }
        lemma_absent(rest, name);
    }
}

proof fn lemma_entry_type_of_update(
    entries: Seq<(Seq<char>, Seq<char>)>,
    at: int,
    value: Seq<char>,
)
    requires
        0 <= at < entries.len(),
        forall|i: int| 0 <= i < at ==> (#[trigger] entries[i]).0 != entries[at].0,
    ensures
        forall|name: Seq<char>| #[trigger]
            entry_type(entries.update(at, (entries[at].0, value)), name) == if name
                == entries[at].0 {
                Some(value)
            } else {
                entry_type(entries, name)
            },
        entry_type(entries, entries[at].0) == Some(entries[at].1),
    decreases entries.len(),
{
    let new = entries.update(at, (entries[at].0, value));
    if at == 0 {
        assert(new.skip(1) =~= entries.skip(1));
    } else {
        let rest = entries.skip(1);
        assert forall|i: int| 0 <= i < at - 1 implies (#[trigger] rest[i]).0 != rest[at - 1].0 by {
            assert(entries[i + 1].0 != entries[at].0);
        }
        lemma_entry_type_of_update(rest, at - 1, value);
        assert(rest[at - 1] == entries[at]);
        assert(new.skip(1) =~= rest.update(at - 1, (rest[at - 1].0, value)));
        assert(entries[0].0 != entries[at].0);
        assert(new[0] == entries[0]);
    }
    assert forall|name: Seq<char>| #[trigger]
        entry_type(new, name) == if name == entries[at].0 {
            Some(value)
        } else {
            entry_type(entries, name)
        } by {
        assert(entry_type(new, name) == if new[0].0 == name {
            Some(new[0].1)
        } else {
            entry_type(new.skip(1), name)
        });
    }
}

impl PropertyTypes {
    #[verifier::type_invariant]
    spec fn inv(self) -> bool {
        strictly_sorted(entry_names(pairs(self.items@)))
    }

    /// No properties.
    pub fn new() -> (r: PropertyTypes)
        ensures
            r@ == Seq::<(Seq<char>, Seq<char>)>::empty(),
    {
        let r = PropertyTypes { items: Vec::new() };
        assert(r@ =~= Seq::<(Seq<char>, Seq<char>)>::empty());
        r
    }

    /// Gives a property a type, in place of one that it has only when `replace`
    /// says so.
    pub fn set(&mut self, name: &str, shown: &str, replace: bool)
        ensures
            strictly_sorted(entry_names(final(self)@)),
            forall|n: Seq<char>| #[trigger]
                entry_type(final(self)@, n) == if n == name@ && (replace || entry_type(
                    old(self)@,
                    n,
                ) is None) {
                    Some(shown@)
                } else {
                    entry_type(old(self)@, n)
                },
    {
        proof {
            use_type_invariant(&*self);
        }
        let ghost before = self@;
        let ghost names = entry_names(before);
        let mut items: Vec<(String, String)> = Vec::new();
        std::mem::swap(&mut items, &mut self.items);
        let ghost kept = items@;
        let mut i: usize = 0;
        while i < items.len() && is_before(items[i].0.as_str(), name)
            invariant
                i <= items@.len(),
                items@ == kept,
                before == pairs(kept),
                names == entry_names(before),
                strictly_sorted(names),
                forall|j: int| 0 <= j < i ==> text_before(#[trigger] names[j], name@),
            decreases items.len() - i,
        {
            assert(names[i as int] == items@[i as int].0@);
            i = i + 1;
        }
        if i < items.len() && str_eq(items[i].0.as_str(), name) {
            proof {
                assert(names[i as int] == name@);
                assert forall|j: int| 0 <= j < i implies (#[trigger] before[j]).0
                    != before[i as int].0 by {
                    assert(text_before(names[j], name@));
                    lemma_text_order(names[j], name@, name@);
                }
                lemma_entry_type_of_update(before, i as int, shown@);
            }
            if replace {
                let ghost key = items@[i as int].0;
                let fresh = (items[i].0.clone(), shown.to_owned());
                items.set(i, fresh);
                proof {
                    assert(pairs(items@) =~= before.update(i as int, (name@, shown@)));
                    assert(entry_names(pairs(items@)) =~= names);
                }
            }
        } else {
            proof {
                assert forall|j: int| i <= j < names.len() implies text_before(
                    name@,
                    #[trigger] names[j],
                ) by {
                    assert(names[i as int] == kept[i as int].0@);
                    lemma_text_order(names[i as int], name@, name@);
                    if j > i {
                        assert(text_before(names[i as int], names[j]));
                        lemma_text_order(name@, names[i as int], names[j]);
                    }
                }
                assert forall|j: int| 0 <= j < before.len() implies (#[trigger] before[j]).0
                    != name@ by {
                    lemma_text_order(names[j], name@, name@);
                    lemma_text_order(name@, names[j], name@);
                    assert(names[j] == before[j].0);
                }
                lemma_absent(before, name@);
                lemma_entry_type_of_insert(before, i as int, (name@, shown@));
            }
            items.insert(i, (name.to_owned(), shown.to_owned()));
            proof {
                let after = entry_names(pairs(items@));
                assert(pairs(items@) =~= before.insert(i as int, (name@, shown@)));
                assert(after =~= names.insert(i as int, name@));
                assert forall|a: int, b: int| 0 <= a < b < after.len() implies text_before(
                    #[trigger] after[a],
                    #[trigger] after[b],
                ) by {
                    if a < i && b < i {
                        assert(text_before(names[a], names[b]));
                    } else if a < i && b > i {
                        assert(text_before(names[a], names[b - 1]));
                    } else if a > i {
                        assert(text_before(names[a - 1], names[b - 1]));
                    } else if b == i {
                        assert(text_before(names[a], name@));
                    } else {
                        assert(text_before(name@, names[b - 1]));
                    }
                }
            }
        }
        self.items = items;
    }
}

// ---------------------------------------------------------------------------
// Sampling
// ---------------------------------------------------------------------------

/// How many nodes of a label, and how many edges of a type, are looked at.
pub const SAMPLE_SIZE: usize = 256;

/// The properties of one sampled node or edge.
pub struct SampledRecord {
    pub properties: Vec<(String, ValueKind)>,
}

/// What a sampled record says.
pub open spec fn record_entries(properties: Seq<(String, ValueKind)>) -> Seq<
    (Seq<char>, ValueKind),
> {
    properties.map_values(|p: (String, ValueKind)| (p.0@, p.1))
}

/// The type that the first of the first `n` properties of a record gives a name,
/// where nulls give none.
pub open spec fn record_type(
    properties: Seq<(Seq<char>, ValueKind)>,
    n: nat,
    name: Seq<char>,
) -> Option<Seq<char>>
    decreases n,
{
    if n == 0 || n > properties.len() {
        None
    } else {
        match record_type(properties, (n - 1) as nat, name) {
            Some(t) => Some(t),
            None => if properties[n - 1].0 == name && !(properties[n - 1].1 is Null) {
                Some(sampled_name(properties[n - 1].1))
            } else {
                None
            },
        }
    }
}

/// The type that the first of the first `n` records with that property gives it.
pub open spec fn sample_type(records: Seq<SampledRecord>, n: nat, name: Seq<char>) -> Option<
    Seq<char>,
>
    decreases n,
{
    if n == 0 || n > records.len() {
        None
    } else {
        match sample_type(records, (n - 1) as nat, name) {
            Some(t) => Some(t),
            None => record_type(
                record_entries(records[n - 1].properties@),
                records[n - 1].properties@.len(),
                name,
            ),
        }
    }
}

/// The type that the last of the first `n` declarations gives a name.
pub open spec fn declared_type(
    declared: Seq<(String, DataType)>,
    n: nat,
    name: Seq<char>,
) -> Option<Seq<char>>
    decreases n,
{
    if n == 0 || n > declared.len() {
        None
    } else if declared[n - 1].0@ == name {
        Some(declared_name(declared[n - 1].1))
    } else {
        declared_type(declared, (n - 1) as nat, name)
    }
}

/// How many records are looked at.
pub open spec fn sampled_len(n: nat) -> nat {
    if n <= 256 {
        n
    } else {
        256
    }
}

/// The type of a property: what is declared, or else what the sample shows.
pub open spec fn property_type(
    declared: Seq<(String, DataType)>,
    records: Seq<SampledRecord>,
    name: Seq<char>,
) -> Option<Seq<char>> {
    match declared_type(declared, declared.len(), name) {
        Some(t) => Some(t),
        None => sample_type(records, sampled_len(records.len()), name),
    }
}

/// The properties of a label or of an edge type: the declared ones, and those
/// that a bounded sample of its records shows besides.
pub fn sample_properties(declared: &Vec<(String, DataType)>, records: &Vec<SampledRecord>) -> (r:
    PropertyTypes)
    ensures
        strictly_sorted(entry_names(r@)),
        forall|name: Seq<char>| #[trigger]
            entry_type(r@, name) == property_type(declared@, records@, name),
{
    let mut out = PropertyTypes::new();
    let mut i: usize = 0;
    assert(entry_names(out@) =~= Seq::<Seq<char>>::empty());
    while i < declared.len()
        invariant
            i <= declared@.len(),
            strictly_sorted(entry_names(out@)),
            forall|name: Seq<char>| #[trigger]
                entry_type(out@, name) == declared_type(declared@, i as nat, name),
        decreases declared.len() - i,
    {
        out.set(declared[i].0.as_str(), datatype_name(declared[i].1), true);
        i = i + 1;
    }
    let ghost base = out@;
    let take: usize = if records.len() <= SAMPLE_SIZE {
        records.len()
    } else {
        SAMPLE_SIZE
    };
    let mut k: usize = 0;
    while k < take
        invariant
            k <= take <= records@.len(),
            take == sampled_len(records@.len()),
            strictly_sorted(entry_names(out@)),
            forall|name: Seq<char>| #[trigger]
                entry_type(out@, name) == match entry_type(base, name) {
                    Some(t) => Some(t),
                    None => sample_type(records@, k as nat, name),
                },
        decreases take - k,
    {
        let properties = &records[k].properties;
        let ghost seen = record_entries(properties@);
        let ghost start = out@;
        let mut j: usize = 0;
        while j < properties.len()
            invariant
                j <= properties@.len(),
                seen == record_entries(properties@),
                strictly_sorted(entry_names(out@)),
                forall|name: Seq<char>| #[trigger]
                    entry_type(out@, name) == match entry_type(start, name) {
                        Some(t) => Some(t),
                        None => record_type(seen, j as nat, name),
                    },
            decreases properties.len() - j,
        {
            assert(seen[j as int] == (properties@[j as int].0@, properties@[j as int].1));
            match properties[j].1 {
                ValueKind::Null => {},
                kind => {
                    out.set(properties[j].0.as_str(), value_type_name(kind), false);
                },
            }
            j = j + 1;
        }
        k = k + 1;
    }
    out
}

// ---------------------------------------------------------------------------
// What is known of the schema
// ---------------------------------------------------------------------------

/// A node label, how many nodes have it, and their properties.
pub struct LabelSample {
    pub label: String,
    pub count: i64,
    pub properties: PropertyTypes,
}

/// An edge type and the properties of its edges.
pub struct EdgeSample {
    pub edge_type: String,
    pub properties: PropertyTypes,
}

/// The labels that an edge type connects, as far as they can be told.
pub struct Endpoint {
    pub edge_type: String,
    pub src_label: Option<String>,
    pub dst_label: Option<String>,
}

/// What is known of the live schema.
pub struct SchemaSnapshot {
    pub labels: Vec<LabelSample>,
    pub edges: Vec<EdgeSample>,
    pub endpoints: Vec<Endpoint>,
}

// ---------------------------------------------------------------------------
// Building rows
// ---------------------------------------------------------------------------

/// Named values under construction.
struct Bindings {
    items: Vec<(String, RuntimeValue)>,
}

impl View for Bindings {
    type V = Seq<(Seq<char>, ValueTree)>;

    closed spec fn view(&self) -> Seq<(Seq<char>, ValueTree)> {
        entry_trees(self.items@)
    }
}

impl Bindings {
    /// No values.
    fn new() -> (r: Bindings)
        ensures
            r@ == Seq::<(Seq<char>, ValueTree)>::empty(),
    {
        let r = Bindings { items: Vec::new() };
        assert(r@ =~= Seq::<(Seq<char>, ValueTree)>::empty());
        r
    }

    /// Adds a value.
    fn with(self, name: &str, value: RuntimeValue) -> (r: Bindings)
        ensures
            r@ == self@.push((name@, value@)),
    {
        let ghost before = self@;
        let ghost v = value@;
        let mut items = self.items;
        items.push((name.to_owned(), value));
        let r = Bindings { items };
        assert(r@ =~= before.push((name@, v)));
        r
    }

    /// Adds a text.
    fn with_text(self, name: &str, value: &str) -> (r: Bindings)
        ensures
            r@ == self@.push((name@, ValueTree::Text(value@))),
    {
        self.with(name, RuntimeValue::Text(value.to_owned()))
    }

    /// The values as a row.
    fn row(self) -> (r: Row)
        ensures
            entry_trees(r.bindings@) == self@,
    {
        Row { bindings: self.items }
    }

    /// The values as a map.
    fn dict(self) -> (r: RuntimeValue)
        ensures
            r@ == ValueTree::Dict(self@),
    {
        RuntimeValue::Dict(self.items)
    }
}

/// A list of at most one text.
pub open spec fn optional_list(s: Option<Seq<char>>) -> ValueTree {
    match s {
        Some(t) => ValueTree::List(seq![ValueTree::Text(t)]),
        None => ValueTree::List(Seq::empty()),
    }
}

/// A list of at most one text.
fn list_of(s: Option<&str>) -> (r: RuntimeValue)
    ensures
        r@ == optional_list(
            match s {
                Some(t) => Some(t@),
                None => None,
            },
        ),
{
    match s {
        Some(t) => {
            let items = vec![RuntimeValue::Text(t.to_owned())];
            assert(value_trees(items@) =~= seq![ValueTree::Text(t@)]);
            RuntimeValue::List(items)
        },
        None => {
            let items: Vec<RuntimeValue> = Vec::new();
            assert(value_trees(items@) =~= Seq::<ValueTree>::empty());
            RuntimeValue::List(items)
        },
    }
}

/// A row's values by name.
pub type RowTree = Seq<(Seq<char>, ValueTree)>;

/// A name in backticks behind a colon.
pub open spec fn quoted(name: Seq<char>) -> Seq<char> {
    ":`"@ + name + "`"@
}

/// A name in backticks behind a colon.
fn quote(name: &str) -> (out: String)
    ensures
        out@ == quoted(name@),
{
    let mut out = ":`".to_owned();
    out.append(name);
    out.append("`");
    out
}

/// The view of an optional text.
pub open spec fn option_name(s: Option<String>) -> Option<Seq<char>> {
    match s {
        Some(t) => Some(t@),
        None => None,
    }
}

/// A borrowed optional text.
fn borrowed(s: &Option<String>) -> (r: Option<&str>)
    ensures
        option_name(*s) == match r {
            Some(t) => Some(t@),
            None => None,
        },
{
    match s {
        Some(t) => Some(t.as_str()),
        None => None,
    }
}

// ---------------------------------------------------------------------------
// Tables by label and by edge type
// ---------------------------------------------------------------------------

/// The four shapes that property tables come in.
#[derive(Debug, Clone, Copy, PartialEq, Eq, Structural)]
pub enum TableShape {
    /// `schema.node_type_properties`.
    Node,
    /// `schema.rel_type_properties`.
    Rel,
    /// `apoc.meta.nodeTypeProperties`.
    ApocNode,
    /// `apoc.meta.relTypeProperties`.
    ApocRel,
}

/// One row of a property table; the property is there or not.
pub open spec fn property_row(
    shape: TableShape,
    owner: Seq<char>,
    src: Option<Seq<char>>,
    dst: Option<Seq<char>>,
    property: Option<(Seq<char>, Seq<char>)>,
) -> RowTree {
    let name = ValueTree::Text(
        match property {
            Some(p) => p.0,
            None => ""@,
        },
    );
    let shown = ValueTree::Text(
        match property {
            Some(p) => p.1,
            None => ""@,
        },
    );
    let type_list = optional_list(
        match property {
            Some(p) => Some(p.1),
            None => None,
        },
    );
    let mandatory = ("mandatory"@, ValueTree::Bool(false));
    let labels = ("nodeLabels"@, optional_list(Some(owner)));
    let node_type = ("nodeType"@, ValueTree::Text(quoted(owner)));
    let rel_type = ("relType"@, ValueTree::Text(quoted(owner)));
    match shape {
        TableShape::Node => seq![
            mandatory,
            labels,
            node_type,
            ("propertyName"@, name),
            ("propertyTypes"@, shown),
        ],
        TableShape::Rel => seq![
            mandatory,
            ("propertyName"@, name),
            ("propertyTypes"@, shown),
            rel_type,
        ],
        TableShape::ApocNode => seq![
            mandatory,
            labels,
            node_type,
            ("propertyName"@, name),
            ("propertyTypes"@, type_list),
        ],
        TableShape::ApocRel => seq![
            mandatory,
            ("propertyName"@, name),
            ("propertyTypes"@, type_list),
            rel_type,
            ("sourceNodeLabels"@, optional_list(src)),
            ("targetNodeLabels"@, optional_list(dst)),
        ],
    }
}

/// The view of an optional borrowed text.
pub open spec fn option_str(s: Option<&str>) -> Option<Seq<char>> {
    match s {
        Some(t) => Some(t@),
        None => None,
    }
}

/// One row of a property table.
fn make_property_row(
    shape: TableShape,
    owner: &str,
    src: Option<&str>,
    dst: Option<&str>,
    property: Option<(&str, &str)>,
) -> (r: Row)
    ensures
        entry_trees(r.bindings@) == property_row(
            shape,
            owner@,
            option_str(src),
            option_str(dst),
            match property {
                Some(p) => Some((p.0@, p.1@)),
                None => None,
            },
        ),
{
    let name = match property {
        Some(p) => p.0,
        None => "",
    };
    let shown = match property {
        Some(p) => p.1,
        None => "",
    };
    let typed = match property {
        Some(p) => Some(p.1),
        None => None,
    };
    let quoted_owner = quote(owner);
    let ghost expected = property_row(
        shape,
        owner@,
        option_str(src),
        option_str(dst),
        match property {
            Some(p) => Some((p.0@, p.1@)),
            None => None,
        },
    );
    let base = Bindings::new().with("mandatory", RuntimeValue::Bool(false));
    let made = match shape {
        TableShape::Node => base.with("nodeLabels", list_of(Some(owner))).with_text(
            "nodeType",
            quoted_owner.as_str(),
        ).with_text("propertyName", name).with_text("propertyTypes", shown),
        TableShape::Rel => base.with_text("propertyName", name).with_text(
            "propertyTypes",
            shown,
        ).with_text("relType", quoted_owner.as_str()),
        TableShape::ApocNode => base.with("nodeLabels", list_of(Some(owner))).with_text(
            "nodeType",
            quoted_owner.as_str(),
        ).with_text("propertyName", name).with("propertyTypes", list_of(typed)),
        TableShape::ApocRel => base.with_text("propertyName", name).with(
            "propertyTypes",
            list_of(typed),
        ).with_text("relType", quoted_owner.as_str()).with(
            "sourceNodeLabels",
            list_of(src),
        ).with("targetNodeLabels", list_of(dst)),
    };
    assert(made@ =~= expected);
    made.row()
}

/// The rows of one label or edge type: one per property, or one without a
/// property where there is none.
pub open spec fn owner_rows(
    shape: TableShape,
    owner: Seq<char>,
    src: Option<Seq<char>>,
    dst: Option<Seq<char>>,
    properties: Seq<(Seq<char>, Seq<char>)>,
) -> Seq<RowTree> {
    if properties.len() == 0 {
        seq![property_row(shape, owner, src, dst, None)]
    } else {
        properties.map_values(
            |p: (Seq<char>, Seq<char>)| property_row(shape, owner, src, dst, Some(p)),
        )
    }
}

/// Adds the rows of one label or edge type.
fn push_owner_rows(
    shape: TableShape,
    owner: &str,
    src: Option<&str>,
    dst: Option<&str>,
    properties: &PropertyTypes,
    rows: &mut Vec<Row>,
)
    ensures
        row_trees(final(rows)@) == row_trees(old(rows)@) + owner_rows(
            shape,
            owner@,
            option_str(src),
            option_str(dst),
            properties@,
        ),
{
    let ghost before = row_trees(rows@);
    let ghost expected = owner_rows(
        shape,
        owner@,
        option_str(src),
        option_str(dst),
        properties@,
    );
    let items = &properties.items;
    if items.len() == 0 {
        let row = make_property_row(shape, owner, src, dst, None);
        rows.push(row);
        assert(row_trees(rows@) =~= before + expected);
        return;
    }
    let mut i: usize = 0;
    assert(before + expected.take(0) =~= before);
    while i < items.len()
        invariant
            i <= items@.len(),
            items@.len() > 0,
            properties@ == pairs(items@),
            expected == owner_rows(shape, owner@, option_str(src), option_str(dst), properties@),
            row_trees(rows@) == before + expected.take(i as int),
        decreases items.len() - i,
    {
        let ghost here = rows@;
        let row = make_property_row(
            shape,
            owner,
            src,
            dst,
            Some((items[i].0.as_str(), items[i].1.as_str())),
        );
        proof {
            assert(properties@[i as int] == (items@[i as int].0@, items@[i as int].1@));
            assert(entry_trees(row.bindings@) == expected[i as int]);
            assert(expected.take(i + 1) =~= expected.take(i as int).push(expected[i as int]));
            assert(row_trees(here.push(row)) =~= row_trees(here).push(expected[i as int]));
            assert(before + expected.take(i + 1) =~= (before + expected.take(i as int)).push(
                expected[i as int],
            ));
        }
        rows.push(row);
        i = i + 1;
    }
    assert(expected.take(items@.len() as int) =~= expected);
}

/// The rows of the first `n` labels.
pub open spec fn label_rows(shape: TableShape, labels: Seq<LabelSample>, n: nat) -> Seq<RowTree>
    decreases n,
{
    if n == 0 || n > labels.len() {
        Seq::empty()
    } else {
        label_rows(shape, labels, (n - 1) as nat) + owner_rows(
            shape,
            labels[n - 1].label@,
            None,
            None,
            labels[n - 1].properties@,
        )
    }
}

/// The rows of every label.
fn make_label_rows(shape: TableShape, labels: &Vec<LabelSample>) -> (r: Vec<Row>)
    ensures
        row_trees(r@) == label_rows(shape, labels@, labels@.len()),
{
    let mut rows: Vec<Row> = Vec::new();
    let mut i: usize = 0;
    assert(row_trees(rows@) =~= Seq::<RowTree>::empty());
    while i < labels.len()
        invariant
            i <= labels@.len(),
            row_trees(rows@) == label_rows(shape, labels@, i as nat),
        decreases labels.len() - i,
    {
        push_owner_rows(
            shape,
            labels[i].label.as_str(),
            None,
            None,
            &labels[i].properties,
            &mut rows,
        );
        i = i + 1;
    }
    rows
}

/// The endpoint labels of an edge type, as the last entry for it says.
pub open spec fn endpoint_of(endpoints: Seq<Endpoint>, n: nat, edge_type: Seq<char>) -> (
    Option<Seq<char>>,
    Option<Seq<char>>,
)
    decreases n,
{
    if n == 0 || n > endpoints.len() {
        (None, None)
    } else if endpoints[n - 1].edge_type@ == edge_type {
        (option_name(endpoints[n - 1].src_label), option_name(endpoints[n - 1].dst_label))
    } else {
        endpoint_of(endpoints, (n - 1) as nat, edge_type)
    }
}

/// The endpoint labels of an edge type.
fn find_endpoint<'a>(endpoints: &'a Vec<Endpoint>, edge_type: &str) -> (r: (
    Option<&'a str>,
    Option<&'a str>,
))
    ensures
        (option_str(r.0), option_str(r.1)) == endpoint_of(
            endpoints@,
            endpoints@.len(),
            edge_type@,
        ),
{
    let mut n: usize = endpoints.len();
    while n > 0
        invariant
            n <= endpoints@.len(),
            endpoint_of(endpoints@, endpoints@.len(), edge_type@) == endpoint_of(
                endpoints@,
                n as nat,
                edge_type@,
            ),
        decreases n,
    {
        let e = &endpoints[n - 1];
        if str_eq(e.edge_type.as_str(), edge_type) {
            return (borrowed(&e.src_label), borrowed(&e.dst_label));
        }
        n = n - 1;
    }
    (None, None)
}

/// The rows of the first `n` edge types.
pub open spec fn edge_rows(
    shape: TableShape,
    edges: Seq<EdgeSample>,
    endpoints: Seq<Endpoint>,
    n: nat,
) -> Seq<RowTree>
    decreases n,
{
    if n == 0 || n > edges.len() {
        Seq::empty()
    } else {
        let e = edges[n - 1];
        let ends = endpoint_of(endpoints, endpoints.len(), e.edge_type@);
        edge_rows(shape, edges, endpoints, (n - 1) as nat) + owner_rows(
            shape,
            e.edge_type@,
            ends.0,
            ends.1,
            e.properties@,
        )
    }
}

/// The rows of every edge type.
fn make_edge_rows(shape: TableShape, edges: &Vec<EdgeSample>, endpoints: &Vec<Endpoint>) -> (r: Vec<
    Row,
>)
    ensures
        row_trees(r@) == edge_rows(shape, edges@, endpoints@, edges@.len()),
{
    let mut rows: Vec<Row> = Vec::new();
    let mut i: usize = 0;
    assert(row_trees(rows@) =~= Seq::<RowTree>::empty());
    while i < edges.len()
        invariant
            i <= edges@.len(),
            row_trees(rows@) == edge_rows(shape, edges@, endpoints@, i as nat),
        decreases edges.len() - i,
    {
        let (src, dst) = find_endpoint(endpoints, edges[i].edge_type.as_str());
        push_owner_rows(
            shape,
            edges[i].edge_type.as_str(),
            src,
            dst,
            &edges[i].properties,
            &mut rows,
        );
        i = i + 1;
    }
    rows
}

// ---------------------------------------------------------------------------
// The whole schema as one value
// ---------------------------------------------------------------------------

/// The number of the label of that name, the last one if there are several, or
/// zero where there is none.
pub open spec fn label_number(labels: Seq<LabelSample>, n: nat, name: Seq<char>) -> int
    decreases n,
{
    if n == 0 || n > labels.len() {
        0
    } else if labels[n - 1].label@ == name {
        n - 1
    } else {
        label_number(labels, (n - 1) as nat, name)
    }
}

/// The number of the label at an end of an edge type. An end that cannot be told
/// points at the first label and not at nothing.
pub open spec fn end_number(labels: Seq<LabelSample>, end: Option<Seq<char>>) -> int {
    match end {
        Some(name) => label_number(labels, labels.len(), name),
        None => 0,
    }
}

/// The number of the label at an end of an edge type.
fn end_number_of(labels: &Vec<LabelSample>, end: Option<&str>) -> (r: usize)
    requires
        labels@.len() <= i64::MAX,
    ensures
        r == end_number(labels@, option_str(end)),
        r <= i64::MAX,
{
    match end {
        None => 0,
        Some(name) => {
            let mut n: usize = labels.len();
            while n > 0
                invariant
                    n <= labels@.len() <= i64::MAX,
                    option_str(end) == Some(name@),
                    label_number(labels@, labels@.len(), name@) == label_number(
                        labels@,
                        n as nat,
                        name@,
                    ),
                decreases n,
            {
                if str_eq(labels[n - 1].label.as_str(), name) {
                    return n - 1;
                }
                n = n - 1;
            }
            0
        },
    }
}

/// The types of properties as a map.
pub open spec fn type_map(properties: Seq<(Seq<char>, Seq<char>)>) -> ValueTree {
    ValueTree::Dict(
        properties.map_values(|p: (Seq<char>, Seq<char>)| (p.0, ValueTree::Text(p.1))),
    )
}

/// The types of properties as a map.
fn props_to_map(properties: &PropertyTypes) -> (r: RuntimeValue)
    ensures
        r@ == type_map(properties@),
{
    let items = &properties.items;
    let mut out: Vec<(String, RuntimeValue)> = Vec::new();
    let mut i: usize = 0;
    while i < items.len()
        invariant
            i <= items@.len(),
            out@.len() == i,
            forall|j: int|
                0 <= j < i ==> (#[trigger] out@[j]).0@ == items@[j].0@ && out@[j].1.tree()
                    == ValueTree::Text(items@[j].1@),
        decreases items.len() - i,
    {
        out.push((items[i].0.clone(), RuntimeValue::Text(items[i].1.clone())));
        i = i + 1;
    }
    assert(entry_trees(out@) =~= type_map(properties@)->Dict_0);
    RuntimeValue::Dict(out)
}

/// One label of the schema value.
pub open spec fn label_value(labels: Seq<LabelSample>, i: int) -> ValueTree {
    ValueTree::Dict(
        seq![
            ("count"@, ValueTree::Integer(labels[i].count as int)),
            ("id"@, ValueTree::Integer(i)),
            ("labels"@, optional_list(Some(labels[i].label@))),
            ("properties"@, type_map(labels[i].properties@)),
        ],
    )
}

/// One edge type of the schema value.
pub open spec fn edge_value(
    labels: Seq<LabelSample>,
    endpoints: Seq<Endpoint>,
    j: int,
) -> ValueTree {
    let e = endpoints[j];
    ValueTree::Dict(
        seq![
            ("count"@, ValueTree::Integer(0)),
            ("end"@, ValueTree::Integer(end_number(labels, option_name(e.dst_label)))),
            ("id"@, ValueTree::Integer(j)),
            ("label"@, ValueTree::Text(e.edge_type@)),
            ("properties"@, ValueTree::Dict(Seq::empty())),
            ("start"@, ValueTree::Integer(end_number(labels, option_name(e.src_label)))),
        ],
    )
}

/// The whole schema as one value: labels with numbers, and edge types whose ends
/// refer to them.
pub open spec fn schema_value(schema: SchemaSnapshot) -> ValueTree {
    ValueTree::Dict(
        seq![
            (
                "nodes"@,
                ValueTree::List(
                    Seq::new(schema.labels@.len(), |i: int| label_value(schema.labels@, i)),
                ),
            ),
            (
                "relationships"@,
                ValueTree::List(
                    Seq::new(
                        schema.endpoints@.len(),
                        |j: int| edge_value(schema.labels@, schema.endpoints@, j),
                    ),
                ),
            ),
        ],
    )
}

/// Every end of an edge type refers to a label that is there, as long as there
/// is a label at all.
pub proof fn law_ends_refer_to_labels(labels: Seq<LabelSample>, end: Option<Seq<char>>)
    requires
        labels.len() > 0,
    ensures
        0 <= end_number(labels, end) < labels.len(),
        end matches Some(name) ==> (exists|i: int|
            0 <= i < labels.len() && (#[trigger] labels[i]).label@ == name) ==> labels[end_number(
            labels,
            end,
        )].label@ == name,
{
    match end {
        Some(name) => {
            lemma_label_number(labels, labels.len(), name);
        },
        None => {},
    }
}

proof fn lemma_label_number(labels: Seq<LabelSample>, n: nat, name: Seq<char>)
    requires
        n <= labels.len(),
    ensures
        0 <= label_number(labels, n, name),
        label_number(labels, n, name) < n || label_number(labels, n, name) == 0,
        (exists|i: int| 0 <= i < n && (#[trigger] labels[i]).label@ == name) ==> labels[label_number(
            labels,
            n,
            name,
        )].label@ == name,
    decreases n,
{
    if n > 0 && labels[n - 1].label@ != name {
        lemma_label_number(labels, (n - 1) as nat, name);
        if exists|i: int| 0 <= i < n && (#[trigger] labels[i]).label@ == name {
            let i = choose|i: int| 0 <= i < n && (#[trigger] labels[i]).label@ == name;
            assert(i < n - 1);
        }
    }
}

/// The whole schema as one value.
fn make_schema_value(schema: &SchemaSnapshot) -> (r: RuntimeValue)
    requires
        schema.labels@.len() <= i64::MAX,
        schema.endpoints@.len() <= i64::MAX,
    ensures
        r@ == schema_value(*schema),
{
    let labels = &schema.labels;
    let endpoints = &schema.endpoints;
    let mut nodes: Vec<RuntimeValue> = Vec::new();
    let mut i: usize = 0;
    while i < labels.len()
        invariant
            i <= labels@.len() <= i64::MAX,
            nodes@.len() == i,
            forall|k: int| 0 <= k < i ==> (#[trigger] nodes@[k]).tree() == label_value(labels@, k),
        decreases labels.len() - i,
    {
        let made = Bindings::new().with("count", RuntimeValue::Integer(labels[i].count)).with(
            "id",
            RuntimeValue::Integer(i as i64),
        ).with("labels", list_of(Some(labels[i].label.as_str()))).with(
            "properties",
            props_to_map(&labels[i].properties),
        );
        assert(made@ =~= label_value(labels@, i as int)->Dict_0);
        nodes.push(made.dict());
        i = i + 1;
    }
    let mut rels: Vec<RuntimeValue> = Vec::new();
    let mut j: usize = 0;
    while j < endpoints.len()
        invariant
            j <= endpoints@.len() <= i64::MAX,
            labels@.len() <= i64::MAX,
            rels@.len() == j,
            forall|k: int|
                0 <= k < j ==> (#[trigger] rels@[k]).tree() == edge_value(labels@, endpoints@, k),
        decreases endpoints.len() - j,
    {
        let start: usize = end_number_of(labels, borrowed(&endpoints[j].src_label));
        let end: usize = end_number_of(labels, borrowed(&endpoints[j].dst_label));
        let made = Bindings::new().with("count", RuntimeValue::Integer(0)).with(
            "end",
            RuntimeValue::Integer(end as i64),
        ).with("id", RuntimeValue::Integer(j as i64)).with_text(
            "label",
            endpoints[j].edge_type.as_str(),
        ).with("properties", Bindings::new().dict()).with(
            "start",
            RuntimeValue::Integer(start as i64),
        );
        assert(made@ =~= edge_value(labels@, endpoints@, j as int)->Dict_0);
        rels.push(made.dict());
        j = j + 1;
    }
    let ghost node_values = Seq::new(labels@.len(), |k: int| label_value(labels@, k));
    let ghost edge_values = Seq::new(
        endpoints@.len(),
        |k: int| edge_value(labels@, endpoints@, k),
    );
    assert(value_trees(nodes@) =~= node_values);
    assert(value_trees(rels@) =~= edge_values);
    let made = Bindings::new().with("nodes", RuntimeValue::List(nodes)).with(
        "relationships",
        RuntimeValue::List(rels),
    );
    assert(made@ =~= schema_value(*schema)->Dict_0);
    made.dict()
}

// ---------------------------------------------------------------------------
// Single columns
// ---------------------------------------------------------------------------

/// A table of one column.
pub open spec fn column(name: Seq<char>, items: Seq<Seq<char>>) -> Seq<RowTree> {
    items.map_values(|s: Seq<char>| seq![(name, ValueTree::Text(s))])
}

/// A table of one column.
fn make_column(name: &str, items: &Vec<String>) -> (r: Vec<Row>)
    ensures
        row_trees(r@) == column(name@, texts(items@)),
{
    let mut rows: Vec<Row> = Vec::new();
    let mut i: usize = 0;
    while i < items.len()
        invariant
            i <= items@.len(),
            rows@.len() == i,
            forall|j: int|
                0 <= j < i ==> entry_trees((#[trigger] rows@[j]).bindings@) == seq![
                    (name@, ValueTree::Text(items@[j]@)),
                ],
        decreases items.len() - i,
    {
        let made = Bindings::new().with_text(name, items[i].as_str());
        assert(made@ =~= seq![(name@, ValueTree::Text(items@[i as int]@))]);
        rows.push(made.row());
        i = i + 1;
    }
    assert(row_trees(rows@) =~= column(name@, texts(items@)));
    rows
}

/// The names of the labels.
pub open spec fn label_names(labels: Seq<LabelSample>) -> Seq<Seq<char>> {
    labels.map_values(|l: LabelSample| l.label@)
}

/// The names of the edge types.
pub open spec fn edge_names(edges: Seq<EdgeSample>) -> Seq<Seq<char>> {
    edges.map_values(|e: EdgeSample| e.edge_type@)
}

/// Whether one of the labels has a property of that name.
pub open spec fn has_property(labels: Seq<LabelSample>, n: int, name: Seq<char>) -> bool {
    exists|i: int| 0 <= i < n && entry_names((#[trigger] labels[i]).properties@).contains(name)
}

/// The distinct property names of all labels, in order.
fn property_keys(labels: &Vec<LabelSample>) -> (r: Vec<String>)
    ensures
        strictly_sorted(texts(r@)),
        forall|name: Seq<char>| #[trigger]
            texts(r@).contains(name) <==> has_property(labels@, labels@.len() as int, name),
{
    let mut out: Vec<String> = Vec::new();
    let mut i: usize = 0;
    while i < labels.len()
        invariant
            i <= labels@.len(),
            strictly_sorted(texts(out@)),
            forall|name: Seq<char>| #[trigger]
                texts(out@).contains(name) <==> has_property(labels@, i as int, name),
        decreases labels.len() - i,
    {
        let items = &labels[i].properties.items;
        let ghost names = entry_names(labels@[i as int].properties@);
        let ghost start = texts(out@);
        let mut j: usize = 0;
        assert(names.take(0) =~= Seq::<Seq<char>>::empty());
        while j < items.len()
            invariant
                j <= items@.len(),
                names == entry_names(pairs(items@)),
                strictly_sorted(texts(out@)),
                forall|name: Seq<char>| #[trigger]
                    texts(out@).contains(name) <==> start.contains(name) || names.take(
                        j as int,
                    ).contains(name),
            decreases items.len() - j,
        {
            let ghost here = texts(out@);
            insert_sorted(&mut out, items[j].0.as_str());
            proof {
                assert(names[j as int] == items@[j as int].0@);
                assert(names.take(j + 1) =~= names.take(j as int).push(names[j as int]));
                assert forall|name: Seq<char>| #[trigger]
                    texts(out@).contains(name) <==> start.contains(name) || names.take(
                        j + 1,
                    ).contains(name) by {
                    assert(here.contains(name) <==> start.contains(name) || names.take(
                        j as int,
                    ).contains(name));
                    lemma_push_contains(names.take(j as int), names[j as int], name);
                }
            }
            j = j + 1;
        }
        proof {
            assert(names.take(j as int) =~= names);
            assert forall|name: Seq<char>| #[trigger]
                texts(out@).contains(name) <==> has_property(labels@, i + 1, name) by {
                assert(start.contains(name) <==> has_property(labels@, i as int, name));
                if names.contains(name) {
                    assert(entry_names(labels@[i as int].properties@).contains(name));
                }
            }
        }
        i = i + 1;
    }
    out
}

proof fn lemma_push_contains(s: Seq<Seq<char>>, item: Seq<char>, name: Seq<char>)
    ensures
        s.push(item).contains(name) <==> s.contains(name) || item == name,
{
    if s.contains(name) {
        let i = choose|i: int| 0 <= i < s.len() && s[i] == name;
        assert(s.push(item)[i] == name);
    }
    if item == name {
        assert(s.push(item)[s.len() as int] == name);
    }
    if s.push(item).contains(name) {
        let i = choose|i: int| 0 <= i < s.push(item).len() && s.push(item)[i] == name;
        if i < s.len() {
            assert(s[i] == name);
        }
    }
}

// ---------------------------------------------------------------------------
// Fixed tables
// ---------------------------------------------------------------------------

/// A procedure and its signature, as a row.
pub open spec fn procedure_row(name: Seq<char>, signature: Seq<char>) -> RowTree {
    seq![("name"@, ValueTree::Text(name)), ("signature"@, ValueTree::Text(signature))]
}

/// A procedure and its signature, with an empty description.
pub open spec fn described_row(name: Seq<char>, signature: Seq<char>) -> RowTree {
    seq![
        ("description"@, ValueTree::Text(""@)),
        ("name"@, ValueTree::Text(name)),
        ("signature"@, ValueTree::Text(signature)),
    ]
}

/// A procedure and its signature, as a row.
fn make_procedure_row(name: &str, signature: &str) -> (r: Row)
    ensures
        entry_trees(r.bindings@) == procedure_row(name@, signature@),
{
    let made = Bindings::new().with_text("name", name).with_text("signature", signature);
    assert(made@ =~= procedure_row(name@, signature@));
    made.row()
}

/// A procedure and its signature, with an empty description.
fn make_described_row(name: &str, signature: &str) -> (r: Row)
    ensures
        entry_trees(r.bindings@) == described_row(name@, signature@),
{
    let made = Bindings::new().with_text("description", "").with_text("name", name).with_text(
        "signature",
        signature,
    );
    assert(made@ =~= described_row(name@, signature@));
    made.row()
}

/// The procedures of the one client family.
pub open spec fn mg_table() -> Seq<RowTree> {
    seq![
        procedure_row("meta_util.schema"@, "meta_util.schema() :: (schema :: MAP)"@),
        procedure_row(
            "schema.node_type_properties"@,
            "schema.node_type_properties() :: (nodeType :: STRING, nodeLabels :: LIST, mandatory :: BOOLEAN, propertyName :: STRING, propertyTypes :: STRING)"@,
        ),
        procedure_row(
            "schema.rel_type_properties"@,
            "schema.rel_type_properties() :: (relType :: STRING, mandatory :: BOOLEAN, propertyName :: STRING, propertyTypes :: STRING)"@,
        ),
        procedure_row(
            "mg.procedures"@,
            "mg.procedures() :: (name :: STRING, signature :: STRING)"@,
        ),
        procedure_row("mg.functions"@, "mg.functions() :: (name :: STRING, signature :: STRING)"@),
    ]
}

/// The procedures of the one client family.
fn make_mg_table() -> (r: Vec<Row>)
    ensures
        row_trees(r@) == mg_table(),
{
    let rows = vec![
        make_procedure_row("meta_util.schema", "meta_util.schema() :: (schema :: MAP)"),
        make_procedure_row(
            "schema.node_type_properties",
            "schema.node_type_properties() :: (nodeType :: STRING, nodeLabels :: LIST, mandatory :: BOOLEAN, propertyName :: STRING, propertyTypes :: STRING)",
        ),
        make_procedure_row(
            "schema.rel_type_properties",
            "schema.rel_type_properties() :: (relType :: STRING, mandatory :: BOOLEAN, propertyName :: STRING, propertyTypes :: STRING)",
        ),
        make_procedure_row(
            "mg.procedures",
            "mg.procedures() :: (name :: STRING, signature :: STRING)",
        ),
        make_procedure_row(
            "mg.functions",
            "mg.functions() :: (name :: STRING, signature :: STRING)",
        ),
    ];
    assert(row_trees(rows@) =~= mg_table());
    rows
}

/// The procedures of the other client family.
pub open spec fn procedure_table() -> Seq<RowTree> {
    seq![
        described_row("db.labels"@, "db.labels() :: (label :: STRING)"@),
        described_row(
            "db.relationshipTypes"@,
            "db.relationshipTypes() :: (relationshipType :: STRING)"@,
        ),
        described_row("db.propertyKeys"@, "db.propertyKeys() :: (propertyKey :: STRING)"@),
        described_row(
            "apoc.meta.nodeTypeProperties"@,
            "apoc.meta.nodeTypeProperties() :: (nodeType :: STRING, nodeLabels :: LIST, propertyName :: STRING, propertyTypes :: LIST, mandatory :: BOOLEAN)"@,
        ),
        described_row(
            "apoc.meta.relTypeProperties"@,
            "apoc.meta.relTypeProperties() :: (relType :: STRING, sourceNodeLabels :: LIST, targetNodeLabels :: LIST, propertyName :: STRING, propertyTypes :: LIST, mandatory :: BOOLEAN)"@,
        ),
    ]
}

/// The procedures of the other client family.
fn make_procedure_table() -> (r: Vec<Row>)
    ensures
        row_trees(r@) == procedure_table(),
{
    let rows = vec![
        make_described_row("db.labels", "db.labels() :: (label :: STRING)"),
        make_described_row(
            "db.relationshipTypes",
            "db.relationshipTypes() :: (relationshipType :: STRING)",
        ),
        make_described_row("db.propertyKeys", "db.propertyKeys() :: (propertyKey :: STRING)"),
        make_described_row(
            "apoc.meta.nodeTypeProperties",
            "apoc.meta.nodeTypeProperties() :: (nodeType :: STRING, nodeLabels :: LIST, propertyName :: STRING, propertyTypes :: LIST, mandatory :: BOOLEAN)",
        ),
        make_described_row(
            "apoc.meta.relTypeProperties",
            "apoc.meta.relTypeProperties() :: (relType :: STRING, sourceNodeLabels :: LIST, targetNodeLabels :: LIST, propertyName :: STRING, propertyTypes :: LIST, mandatory :: BOOLEAN)",
        ),
    ];
    assert(row_trees(rows@) =~= procedure_table());
    rows
}

/// The product, as clients show it.
pub open spec fn component_row() -> RowTree {
    seq![
        ("edition"@, ValueTree::Text("community"@)),
        ("name"@, ValueTree::Text("Neo4j Kernel"@)),
        ("versions"@, optional_list(Some("5.13.0"@))),
    ]
}

/// The product, as clients show it.
fn make_component_row() -> (r: Row)
    ensures
        entry_trees(r.bindings@) == component_row(),
{
    let made = Bindings::new().with_text("edition", "community").with_text(
        "name",
        "Neo4j Kernel",
    ).with("versions", list_of(Some("5.13.0")));
    assert(made@ =~= component_row());
    made.row()
}

/// The one database that is served.
pub open spec fn database_row() -> RowTree {
    seq![
        ("access"@, ValueTree::Text("read-write"@)),
        ("address"@, ValueTree::Text("localhost:7687"@)),
        ("currentStatus"@, ValueTree::Text("online"@)),
        ("default"@, ValueTree::Bool(true)),
        ("home"@, ValueTree::Bool(true)),
        ("name"@, ValueTree::Text("neo4j"@)),
        ("requestedStatus"@, ValueTree::Text("online"@)),
        ("role"@, ValueTree::Text("primary"@)),
        ("type"@, ValueTree::Text("standard"@)),
    ]
}

/// The one database that is served.
fn make_database_row() -> (r: Row)
    ensures
        entry_trees(r.bindings@) == database_row(),
{
    let made = Bindings::new().with_text("access", "read-write").with_text(
        "address",
        "localhost:7687",
    ).with_text("currentStatus", "online").with("default", RuntimeValue::Bool(true)).with(
        "home",
        RuntimeValue::Bool(true),
    ).with_text("name", "neo4j").with_text("requestedStatus", "online").with_text(
        "role",
        "primary",
    ).with_text("type", "standard");
    assert(made@ =~= database_row());
    made.row()
}

// ---------------------------------------------------------------------------
// Answers
// ---------------------------------------------------------------------------

/// The columns of a procedure's answer.
pub open spec fn answer_columns(procedure: Procedure) -> Seq<Seq<char>> {
    match procedure {
        Procedure::MetaUtilSchema => seq!["schema"@],
        Procedure::NodeTypeProperties => seq![
            "nodeType"@,
            "nodeLabels"@,
            "mandatory"@,
            "propertyName"@,
            "propertyTypes"@,
        ],
        Procedure::RelTypeProperties => seq![
            "relType"@,
            "mandatory"@,
            "propertyName"@,
            "propertyTypes"@,
        ],
        Procedure::MgProcedures | Procedure::MgFunctions => seq!["name"@, "signature"@],
        Procedure::DbLabels => seq!["label"@],
        Procedure::DbRelationshipTypes => seq!["relationshipType"@],
        Procedure::DbPropertyKeys => seq!["propertyKey"@],
        Procedure::ApocNodeTypeProperties => seq![
            "nodeType"@,
            "nodeLabels"@,
            "propertyName"@,
            "propertyTypes"@,
            "mandatory"@,
        ],
        Procedure::ApocRelTypeProperties => seq![
            "relType"@,
            "sourceNodeLabels"@,
            "targetNodeLabels"@,
            "propertyName"@,
            "propertyTypes"@,
            "mandatory"@,
        ],
        Procedure::DbmsComponents => seq!["name"@, "versions"@, "edition"@],
        Procedure::ShowProcedures | Procedure::ShowFunctions => seq![
            "name"@,
            "description"@,
            "signature"@,
        ],
        Procedure::ShowDatabases => seq![
            "name"@,
            "type"@,
            "access"@,
            "address"@,
            "role"@,
            "requestedStatus"@,
            "currentStatus"@,
            "default"@,
            "home"@,
        ],
    }
}

/// Whether these are the rows of a procedure's answer.
pub open spec fn are_answer_rows(
    procedure: Procedure,
    schema: SchemaSnapshot,
    rows: Seq<RowTree>,
) -> bool {
    match procedure {
        Procedure::MetaUtilSchema => rows == seq![seq![("schema"@, schema_value(schema))]],
        Procedure::NodeTypeProperties => rows == label_rows(
            TableShape::Node,
            schema.labels@,
            schema.labels@.len(),
        ),
        Procedure::RelTypeProperties => rows == edge_rows(
            TableShape::Rel,
            schema.edges@,
            schema.endpoints@,
            schema.edges@.len(),
        ),
        Procedure::MgProcedures => rows == mg_table(),
        Procedure::MgFunctions | Procedure::ShowFunctions => rows == Seq::<RowTree>::empty(),
        Procedure::DbLabels => rows == column("label"@, label_names(schema.labels@)),
        Procedure::DbRelationshipTypes => rows == column(
            "relationshipType"@,
            edge_names(schema.edges@),
        ),
        Procedure::DbPropertyKeys => exists|keys: Seq<Seq<char>>|
            {
                &&& strictly_sorted(keys)
                &&& (forall|name: Seq<char>| #[trigger]
                    keys.contains(name) <==> has_property(
                        schema.labels@,
                        schema.labels@.len() as int,
                        name,
                    ))
                &&& rows == #[trigger] column("propertyKey"@, keys)
            },
        Procedure::ApocNodeTypeProperties => rows == label_rows(
            TableShape::ApocNode,
            schema.labels@,
            schema.labels@.len(),
        ),
        Procedure::ApocRelTypeProperties => rows == edge_rows(
            TableShape::ApocRel,
            schema.edges@,
            schema.endpoints@,
            schema.edges@.len(),
        ),
        Procedure::DbmsComponents => rows == seq![component_row()],
        Procedure::ShowProcedures => rows == procedure_table(),
        Procedure::ShowDatabases => rows == seq![database_row()],
    }
}

/// What a row says under a name.
pub open spec fn cell(row: RowTree, name: Seq<char>) -> Option<ValueTree>
    decreases row.len(),
{
    if row.len() == 0 {
        None
    } else if row[0].0 == name {
        Some(row[0].1)
    } else {
        cell(row.skip(1), name)
    }
}

/// A value is found under its name, unless one of the same name comes before it.
pub proof fn law_first_cell_counts(row: RowTree, i: int)
    requires
        0 <= i < row.len(),
        forall|j: int| 0 <= j < i ==> (#[trigger] row[j]).0 != row[i].0,
    ensures
        cell(row, row[i].0) == Some(row[i].1),
    decreases i,
{
    if i > 0 {
        let rest = row.skip(1);
        assert(row[0].0 != row[i].0);
        assert(rest[i - 1] == row[i]);
        assert forall|j: int| 0 <= j < i - 1 implies (#[trigger] rest[j]).0 != rest[i - 1].0 by {
            assert(rest[j] == row[j + 1]);
        }
        law_first_cell_counts(rest, i - 1);
    }
}

/// A row of a property table names its label or edge type in backticks behind a
/// colon, the property and its type, as a text or as a list of one, and, in the
/// last shape, the labels that the edges come from and lead to. No property is
/// mandatory.
pub proof fn law_property_row(
    shape: TableShape,
    owner: Seq<char>,
    src: Option<Seq<char>>,
    dst: Option<Seq<char>>,
    property: Option<(Seq<char>, Seq<char>)>,
)
    ensures
        ({
            let row = property_row(shape, owner, src, dst, property);
            let is_node = shape is Node || shape is ApocNode;
            let in_lists = shape is ApocNode || shape is ApocRel;
            &&& cell(row, "mandatory"@) == Some(ValueTree::Bool(false))
            &&& cell(row, if is_node { "nodeType"@ } else { "relType"@ }) == Some(
                ValueTree::Text(":`"@ + owner + "`"@),
            )
            &&& is_node ==> cell(row, "nodeLabels"@) == Some(
                ValueTree::List(seq![ValueTree::Text(owner)]),
            )
            &&& property matches Some(p) ==> {
                &&& cell(row, "propertyName"@) == Some(ValueTree::Text(p.0))
                &&& cell(row, "propertyTypes"@) == Some(
                    if in_lists {
                        ValueTree::List(seq![ValueTree::Text(p.1)])
                    } else {
                        ValueTree::Text(p.1)
                    },
                )
            }
            &&& property is None ==> {
                &&& cell(row, "propertyName"@) == Some(ValueTree::Text(""@))
                &&& cell(row, "propertyTypes"@) == Some(
                    if in_lists {
                        ValueTree::List(Seq::empty())
                    } else {
                        ValueTree::Text(""@)
                    },
                )
            }
            &&& shape is ApocRel ==> {
                &&& cell(row, "sourceNodeLabels"@) == Some(optional_list(src))
                &&& cell(row, "targetNodeLabels"@) == Some(optional_list(dst))
            }
        }),
{
    let row = property_row(shape, owner, src, dst, property);
    reveal_strlit("mandatory");
    reveal_strlit("nodeLabels");
    reveal_strlit("nodeType");
    reveal_strlit("propertyName");
    reveal_strlit("propertyTypes");
    reveal_strlit("relType");
    reveal_strlit("sourceNodeLabels");
    reveal_strlit("targetNodeLabels");
    assert("mandatory"@.len() != "nodeLabels"@.len());
    assert("mandatory"@.len() != "nodeType"@.len());
    assert("nodeLabels"@.len() != "nodeType"@.len());
    assert("mandatory"@.len() != "propertyName"@.len());
    assert("nodeLabels"@.len() != "propertyName"@.len());
    assert("nodeType"@.len() != "propertyName"@.len());
    assert("mandatory"@.len() != "propertyTypes"@.len());
    assert("nodeLabels"@.len() != "propertyTypes"@.len());
    assert("nodeType"@.len() != "propertyTypes"@.len());
    assert("propertyName"@.len() != "propertyTypes"@.len());
    assert("mandatory"@.len() != "relType"@.len());
    assert("nodeLabels"@.len() != "relType"@.len());
    assert("nodeType"@.len() != "relType"@.len());
    assert("propertyName"@.len() != "relType"@.len());
    assert("propertyTypes"@.len() != "relType"@.len());
    assert("mandatory"@.len() != "sourceNodeLabels"@.len());
    assert("nodeLabels"@.len() != "sourceNodeLabels"@.len());
    assert("nodeType"@.len() != "sourceNodeLabels"@.len());
    assert("propertyName"@.len() != "sourceNodeLabels"@.len());
    assert("propertyTypes"@.len() != "sourceNodeLabels"@.len());
    assert("relType"@.len() != "sourceNodeLabels"@.len());
    assert("mandatory"@.len() != "targetNodeLabels"@.len());
    assert("nodeLabels"@.len() != "targetNodeLabels"@.len());
    assert("nodeType"@.len() != "targetNodeLabels"@.len());
    assert("propertyName"@.len() != "targetNodeLabels"@.len());
    assert("propertyTypes"@.len() != "targetNodeLabels"@.len());
    assert("relType"@.len() != "targetNodeLabels"@.len());
    assert("sourceNodeLabels"@[0] != "targetNodeLabels"@[0]);
    match shape {
        TableShape::Node | TableShape::ApocNode => {
            law_first_cell_counts(row, 0);
            law_first_cell_counts(row, 1);
            law_first_cell_counts(row, 2);
            law_first_cell_counts(row, 3);
            law_first_cell_counts(row, 4);
        },
        TableShape::Rel => {
            law_first_cell_counts(row, 0);
            law_first_cell_counts(row, 1);
            law_first_cell_counts(row, 2);
            law_first_cell_counts(row, 3);
        },
        TableShape::ApocRel => {
            law_first_cell_counts(row, 0);
            law_first_cell_counts(row, 1);
            law_first_cell_counts(row, 2);
            law_first_cell_counts(row, 3);
            law_first_cell_counts(row, 4);
            law_first_cell_counts(row, 5);
        },
    }
}

/// Every property of every label has its row, a label without properties has one
/// too, and every row of the table is one of these.
pub proof fn law_label_rows(shape: TableShape, labels: Seq<LabelSample>, n: nat)
    requires
        n <= labels.len(),
    ensures
        forall|i: int, k: int|
            0 <= i < n && 0 <= k < labels[i].properties@.len() ==> label_rows(
                shape,
                labels,
                n,
            ).contains(
                #[trigger] property_row(
                    shape,
                    labels[i].label@,
                    None,
                    None,
                    Some(labels[i].properties@[k]),
                ),
            ),
        forall|i: int|
            0 <= i < n && labels[i].properties@.len() == 0 ==> label_rows(
                shape,
                labels,
                n,
            ).contains(#[trigger] property_row(shape, labels[i].label@, None, None, None)),
        forall|r: int|
            0 <= r < label_rows(shape, labels, n).len() ==> exists|i: int|
                0 <= i < n && owner_rows(
                    shape,
                    (#[trigger] labels[i]).label@,
                    None,
                    None,
                    labels[i].properties@,
                ).contains(#[trigger] label_rows(shape, labels, n)[r]),
    decreases n,
{
    if n > 0 {
        let m = (n - 1) as nat;
        law_label_rows(shape, labels, m);
        let before = label_rows(shape, labels, m);
        let own = owner_rows(shape, labels[m as int].label@, None, None, labels[m as int].properties@);
        let all = label_rows(shape, labels, n);
        assert(all == before + own);
        assert forall|i: int, k: int|
            0 <= i < n && 0 <= k < labels[i].properties@.len() implies all.contains(
            #[trigger] property_row(
                shape,
                labels[i].label@,
                None,
                None,
                Some(labels[i].properties@[k]),
            ),
        ) by {
            let row = property_row(
                shape,
                labels[i].label@,
                None,
                None,
                Some(labels[i].properties@[k]),
            );
            if i < m {
                let at = choose|at: int| 0 <= at < before.len() && before[at] == row;
                assert(all[at] == row);
            } else {
                assert(own[k] == row);
                assert(all[before.len() + k] == row);
            }
        }
        assert forall|i: int| 0 <= i < n && labels[i].properties@.len() == 0 implies all.contains(
            #[trigger] property_row(shape, labels[i].label@, None, None, None),
        ) by {
            let row = property_row(shape, labels[i].label@, None, None, None);
            if i < m {
                let at = choose|at: int| 0 <= at < before.len() && before[at] == row;
                assert(all[at] == row);
            } else {
                assert(own[0] == row);
                assert(all[before.len() + 0int] == row);
            }
        }
        assert forall|r: int| 0 <= r < all.len() implies exists|i: int|
            0 <= i < n && owner_rows(
                shape,
                (#[trigger] labels[i]).label@,
                None,
                None,
                labels[i].properties@,
            ).contains(#[trigger] all[r]) by {
            if r < before.len() {
                assert(all[r] == before[r]);
                let i = choose|i: int|
                    0 <= i < m && owner_rows(
                        shape,
                        (#[trigger] labels[i]).label@,
                        None,
                        None,
                        labels[i].properties@,
                    ).contains(before[r]);
                assert(owner_rows(shape, labels[i].label@, None, None, labels[i].properties@).contains(
                    all[r],
                ));
            } else {
                assert(all[r] == own[r - before.len()]);
                assert(own.contains(all[r]));
                assert(owner_rows(
                    shape,
                    labels[m as int].label@,
                    None,
                    None,
                    labels[m as int].properties@,
                ).contains(all[r]));
            }
        }
    }
}

/// Every property of every edge type has its row with the labels that the edges
/// connect, and an edge type without properties has one too.
pub proof fn law_edge_rows(
    shape: TableShape,
    edges: Seq<EdgeSample>,
    endpoints: Seq<Endpoint>,
    n: nat,
)
    requires
        n <= edges.len(),
    ensures
        forall|i: int, k: int|
            0 <= i < n && 0 <= k < edges[i].properties@.len() ==> edge_rows(
                shape,
                edges,
                endpoints,
                n,
            ).contains(
                #[trigger] property_row(
                    shape,
                    edges[i].edge_type@,
                    endpoint_of(endpoints, endpoints.len(), edges[i].edge_type@).0,
                    endpoint_of(endpoints, endpoints.len(), edges[i].edge_type@).1,
                    Some(edges[i].properties@[k]),
                ),
            ),
        forall|i: int|
            0 <= i < n && edges[i].properties@.len() == 0 ==> edge_rows(
                shape,
                edges,
                endpoints,
                n,
            ).contains(
                #[trigger] property_row(
                    shape,
                    edges[i].edge_type@,
                    endpoint_of(endpoints, endpoints.len(), edges[i].edge_type@).0,
                    endpoint_of(endpoints, endpoints.len(), edges[i].edge_type@).1,
                    None,
                ),
            ),
    decreases n,
{
    if n > 0 {
        let m = (n - 1) as nat;
        law_edge_rows(shape, edges, endpoints, m);
        let before = edge_rows(shape, edges, endpoints, m);
        let ends = endpoint_of(endpoints, endpoints.len(), edges[m as int].edge_type@);
        let own = owner_rows(
            shape,
            edges[m as int].edge_type@,
            ends.0,
            ends.1,
            edges[m as int].properties@,
        );
        let all = edge_rows(shape, edges, endpoints, n);
        assert(all == before + own);
        assert forall|i: int, k: int|
            0 <= i < n && 0 <= k < edges[i].properties@.len() implies all.contains(
            #[trigger] property_row(
                shape,
                edges[i].edge_type@,
                endpoint_of(endpoints, endpoints.len(), edges[i].edge_type@).0,
                endpoint_of(endpoints, endpoints.len(), edges[i].edge_type@).1,
                Some(edges[i].properties@[k]),
            ),
        ) by {
            let at_ends = endpoint_of(endpoints, endpoints.len(), edges[i].edge_type@);
            let row = property_row(
                shape,
                edges[i].edge_type@,
                at_ends.0,
                at_ends.1,
                Some(edges[i].properties@[k]),
            );
            if i < m {
                assert(before.contains(row));
                let at = choose|at: int| 0 <= at < before.len() && before[at] == row;
                assert(all[at] == row);
            } else {
                assert(own[k] == row);
                assert(all[before.len() + k] == row);
            }
        }
        assert forall|i: int| 0 <= i < n && edges[i].properties@.len() == 0 implies all.contains(
            #[trigger] property_row(
                shape,
                edges[i].edge_type@,
                endpoint_of(endpoints, endpoints.len(), edges[i].edge_type@).0,
                endpoint_of(endpoints, endpoints.len(), edges[i].edge_type@).1,
                None,
            ),
        ) by {
            let at_ends = endpoint_of(endpoints, endpoints.len(), edges[i].edge_type@);
            let row = property_row(shape, edges[i].edge_type@, at_ends.0, at_ends.1, None);
            if i < m {
                assert(before.contains(row));
                let at = choose|at: int| 0 <= at < before.len() && before[at] == row;
                assert(all[at] == row);
            } else {
                assert(own[0] == row);
                assert(all[before.len() + 0int] == row);
            }
        }
    }
}

/// The labels that an edge type connects are those of the last entry for it, the
/// source first; without an entry neither is known.
pub proof fn law_last_endpoint_counts(
    endpoints: Seq<Endpoint>,
    n: nat,
    edge_type: Seq<char>,
    at: int,
)
    requires
        n <= endpoints.len(),
        -1 <= at < n,
        0 <= at ==> endpoints[at].edge_type@ == edge_type,
        forall|j: int| at < j < n ==> (#[trigger] endpoints[j]).edge_type@ != edge_type,
    ensures
        at == -1 ==> endpoint_of(endpoints, n, edge_type) == (
            None::<Seq<char>>,
            None::<Seq<char>>,
        ),
        0 <= at ==> {
            let ends = endpoint_of(endpoints, n, edge_type);
            &&& match endpoints[at].src_label {
                Some(src) => ends.0 == Some(src@),
                None => ends.0 is None,
            }
            &&& match endpoints[at].dst_label {
                Some(dst) => ends.1 == Some(dst@),
                None => ends.1 is None,
            }
        },
    decreases n,
{
    if n > 0 && at < n - 1 {
        assert(endpoints[n - 1].edge_type@ != edge_type);
        law_last_endpoint_counts(endpoints, (n - 1) as nat, edge_type, at);
    }
}

/// The number of a label that no later one shares its name with is its place.
pub proof fn law_labels_are_numbered(labels: Seq<LabelSample>, n: nat, i: int)
    requires
        0 <= i < n <= labels.len(),
        forall|j: int| i < j < n ==> (#[trigger] labels[j]).label@ != labels[i].label@,
    ensures
        label_number(labels, n, labels[i].label@) == i,
    decreases n,
{
    if i < n - 1 {
        assert(labels[n - 1].label@ != labels[i].label@);
        law_labels_are_numbered(labels, (n - 1) as nat, i);
    }
}

/// The schema value lists the labels in order, each under its place with its
/// name, its count and its properties, and the edge types in order, each with the
/// places of the labels that it starts at and ends at.
pub proof fn law_schema_value(schema: SchemaSnapshot, i: int, j: int, src: int, dst: int)
    requires
        0 <= i < schema.labels@.len(),
        0 <= j < schema.endpoints@.len(),
        0 <= src < schema.labels@.len(),
        0 <= dst < schema.labels@.len(),
        schema.endpoints@[j].src_label matches Some(name) && name@ == schema.labels@[src].label@,
        schema.endpoints@[j].dst_label matches Some(name) && name@ == schema.labels@[dst].label@,
        forall|a: int, b: int|
            0 <= a < b < schema.labels@.len() ==> (#[trigger] schema.labels@[a]).label@ != (
            #[trigger] schema.labels@[b]).label@,
    ensures
        schema_value(schema) matches ValueTree::Dict(parts) && {
            &&& cell(parts, "nodes"@) matches Some(ValueTree::List(nodes)) && {
                &&& nodes.len() == schema.labels@.len()
                &&& nodes[i] matches ValueTree::Dict(node) && {
                    &&& cell(node, "id"@) == Some(ValueTree::Integer(i))
                    &&& cell(node, "count"@) == Some(
                        ValueTree::Integer(schema.labels@[i].count as int),
                    )
                    &&& cell(node, "labels"@) == Some(
                        ValueTree::List(seq![ValueTree::Text(schema.labels@[i].label@)]),
                    )
                    &&& cell(node, "properties"@) == Some(
                        type_map(schema.labels@[i].properties@),
                    )
                }
            }
            &&& cell(parts, "relationships"@) matches Some(ValueTree::List(edges)) && {
                &&& edges.len() == schema.endpoints@.len()
                &&& edges[j] matches ValueTree::Dict(edge) && {
                    &&& cell(edge, "id"@) == Some(ValueTree::Integer(j))
                    &&& cell(edge, "label"@) == Some(
                        ValueTree::Text(schema.endpoints@[j].edge_type@),
                    )
                    &&& cell(edge, "start"@) == Some(ValueTree::Integer(src))
                    &&& cell(edge, "end"@) == Some(ValueTree::Integer(dst))
                    &&& cell(edge, "count"@) == Some(ValueTree::Integer(0))
                }
            }
        },
{
    reveal_strlit("nodes");
    reveal_strlit("relationships");
    assert("nodes"@.len() != "relationships"@.len());
    reveal_strlit("count");
    reveal_strlit("id");
    reveal_strlit("labels");
    reveal_strlit("properties");
    assert("count"@.len() != "id"@.len());
    assert("count"@.len() != "labels"@.len());
    assert("id"@.len() != "labels"@.len());
    assert("count"@.len() != "properties"@.len());
    assert("id"@.len() != "properties"@.len());
    assert("labels"@.len() != "properties"@.len());
    reveal_strlit("count");
    reveal_strlit("end");
    reveal_strlit("id");
    reveal_strlit("label");
    reveal_strlit("properties");
    reveal_strlit("start");
    assert("count"@.len() != "end"@.len());
    assert("count"@.len() != "id"@.len());
    assert("end"@.len() != "id"@.len());
    assert("count"@[0] != "label"@[0]);
    assert("end"@.len() != "label"@.len());
    assert("id"@.len() != "label"@.len());
    assert("count"@.len() != "properties"@.len());
    assert("end"@.len() != "properties"@.len());
    assert("id"@.len() != "properties"@.len());
    assert("label"@.len() != "properties"@.len());
    assert("count"@[0] != "start"@[0]);
    assert("end"@.len() != "start"@.len());
    assert("id"@.len() != "start"@.len());
    assert("label"@[0] != "start"@[0]);
    assert("properties"@.len() != "start"@.len());
    let parts = schema_value(schema)->Dict_0;
    law_first_cell_counts(parts, 0);
    law_first_cell_counts(parts, 1);
    let node = label_value(schema.labels@, i)->Dict_0;
    law_first_cell_counts(node, 0);
    law_first_cell_counts(node, 1);
    law_first_cell_counts(node, 2);
    law_first_cell_counts(node, 3);
    let edge = edge_value(schema.labels@, schema.endpoints@, j)->Dict_0;
    law_first_cell_counts(edge, 0);
    law_first_cell_counts(edge, 1);
    law_first_cell_counts(edge, 2);
    law_first_cell_counts(edge, 3);
    law_first_cell_counts(edge, 4);
    law_first_cell_counts(edge, 5);
    law_labels_are_numbered(schema.labels@, schema.labels@.len(), src);
    law_labels_are_numbered(schema.labels@, schema.labels@.len(), dst);
}

/// A map of types gives each property its type.
pub proof fn law_type_map(properties: Seq<(Seq<char>, Seq<char>)>, k: int)
    requires
        strictly_sorted(entry_names(properties)),
        0 <= k < properties.len(),
    ensures
        type_map(properties) matches ValueTree::Dict(entries) && entries.len() == properties.len()
            && cell(entries, properties[k].0) == Some(ValueTree::Text(properties[k].1)),
{
    let entries = type_map(properties)->Dict_0;
    let names = entry_names(properties);
    assert forall|j: int| 0 <= j < k implies (#[trigger] entries[j]).0 != entries[k].0 by {
        assert(text_before(names[j], names[k]));
        lemma_text_order(names[j], names[k], names[j]);
    }
    law_first_cell_counts(entries, k);
}

/// A declared type and a sampled value of it go by one name.
pub proof fn law_types_agree()
    ensures
        declared_name(DataType::Bool) == sampled_name(ValueKind::Bool),
        declared_name(DataType::Int32) == sampled_name(ValueKind::I64),
        declared_name(DataType::Int64) == sampled_name(ValueKind::I64),
        declared_name(DataType::Float32) == sampled_name(ValueKind::F64),
        declared_name(DataType::Float64) == sampled_name(ValueKind::F64),
        declared_name(DataType::Utf8) == sampled_name(ValueKind::Str),
        declared_name(DataType::LargeUtf8) == sampled_name(ValueKind::Str),
        declared_name(DataType::Binary) == sampled_name(ValueKind::Bytes),
        declared_name(DataType::Date32) == sampled_name(ValueKind::Date),
        declared_name(DataType::TimestampMicrosUtc) == sampled_name(ValueKind::DateTime),
        declared_name(DataType::FloatVector) == sampled_name(ValueKind::Vector),
        declared_name(DataType::Json) == sampled_name(ValueKind::Other),
        sampled_name(ValueKind::List) == sampled_name(ValueKind::Vector),
        sampled_name(ValueKind::Bytes) == sampled_name(ValueKind::Str),
{
}

/// Two kinds of sampled values go by one name only if both are texts or both are
/// lists.
pub proof fn law_kinds_are_told_apart(a: ValueKind, b: ValueKind)
    ensures
        sampled_name(a) == sampled_name(b) <==> a == b || (a is Str || a is Bytes) && (b is Str
            || b is Bytes) || (a is List || a is Vector) && (b is List || b is Vector),
{
    reveal_strlit("Null");
    reveal_strlit("Bool");
    reveal_strlit("Int");
    reveal_strlit("Float");
    reveal_strlit("String");
    reveal_strlit("List");
    reveal_strlit("Date");
    reveal_strlit("LocalDateTime");
    reveal_strlit("Map");
    assert("Null"@[0] != "Bool"@[0]);
    assert("Null"@.len() != "Int"@.len());
    assert("Bool"@.len() != "Int"@.len());
    assert("Null"@.len() != "Float"@.len());
    assert("Bool"@.len() != "Float"@.len());
    assert("Int"@.len() != "Float"@.len());
    assert("Null"@.len() != "String"@.len());
    assert("Bool"@.len() != "String"@.len());
    assert("Int"@.len() != "String"@.len());
    assert("Float"@.len() != "String"@.len());
    assert("Null"@[0] != "List"@[0]);
    assert("Bool"@[0] != "List"@[0]);
    assert("Int"@.len() != "List"@.len());
    assert("Float"@.len() != "List"@.len());
    assert("String"@.len() != "List"@.len());
    assert("Null"@[0] != "Date"@[0]);
    assert("Bool"@[0] != "Date"@[0]);
    assert("Int"@.len() != "Date"@.len());
    assert("Float"@.len() != "Date"@.len());
    assert("String"@.len() != "Date"@.len());
    assert("List"@[0] != "Date"@[0]);
    assert("Null"@.len() != "LocalDateTime"@.len());
    assert("Bool"@.len() != "LocalDateTime"@.len());
    assert("Int"@.len() != "LocalDateTime"@.len());
    assert("Float"@.len() != "LocalDateTime"@.len());
    assert("String"@.len() != "LocalDateTime"@.len());
    assert("List"@.len() != "LocalDateTime"@.len());
    assert("Date"@.len() != "LocalDateTime"@.len());
    assert("Null"@.len() != "Map"@.len());
    assert("Bool"@.len() != "Map"@.len());
    assert("Int"@[0] != "Map"@[0]);
    assert("Float"@.len() != "Map"@.len());
    assert("String"@.len() != "Map"@.len());
    assert("List"@.len() != "Map"@.len());
    assert("Date"@.len() != "Map"@.len());
    assert("LocalDateTime"@.len() != "Map"@.len());
}

/// What is declared of a property counts, the last declaration if there are
/// several, whatever a sample shows.
pub proof fn law_last_declaration_counts(
    declared: Seq<(String, DataType)>,
    n: nat,
    at: int,
)
    requires
        0 <= at < n <= declared.len(),
        forall|j: int| at < j < n ==> (#[trigger] declared[j]).0@ != declared[at].0@,
    ensures
        declared_type(declared, n, declared[at].0@) == Some(declared_name(declared[at].1)),
        forall|records: Seq<SampledRecord>|
            n == declared.len() ==> #[trigger] property_type(declared, records, declared[at].0@)
                == Some(declared_name(declared[at].1)),
    decreases n,
{
    if at < n - 1 {
        assert(declared[n - 1].0@ != declared[at].0@);
        law_last_declaration_counts(declared, (n - 1) as nat, at);
    }
}

/// The type of an undeclared property is that of its first value that is not
/// null, if the record is one of those that are looked at.
pub proof fn law_first_value_counts(
    records: Seq<SampledRecord>,
    n: nat,
    at: int,
    k: int,
)
    requires
        0 <= at < n <= records.len(),
        0 <= k < records[at].properties@.len(),
        !(records[at].properties@[k].1 is Null),
        forall|j: int|
            0 <= j < k && (#[trigger] records[at].properties@[j]).0@
                == records[at].properties@[k].0@ ==> records[at].properties@[j].1 is Null,
        forall|i: int, j: int|
            0 <= i < at && 0 <= j < records[i].properties@.len() && (
            #[trigger] records[i].properties@[j]).0@ == records[at].properties@[k].0@
                ==> records[i].properties@[j].1 is Null,
    ensures
        sample_type(records, n, records[at].properties@[k].0@) == Some(
            sampled_name(records[at].properties@[k].1),
        ),
    decreases n,
{
    let name = records[at].properties@[k].0@;
    if at < n - 1 {
        law_first_value_counts(records, (n - 1) as nat, at, k);
    } else {
        lemma_nothing_sampled(records, at as nat, name);
        let entries = record_entries(records[at].properties@);
        assert forall|j: int| 0 <= j < k && (#[trigger] entries[j]).0 == name implies entries[j].1
            is Null by {
            assert(records[at].properties@[j].0@ == name);
        }
        assert(entries[k].0 == name && !(entries[k].1 is Null));
        lemma_first_in_record(entries, entries.len(), name, k);
        assert(entries.len() == records[at].properties@.len());
    }
}

proof fn lemma_first_in_record(
    entries: Seq<(Seq<char>, ValueKind)>,
    n: nat,
    name: Seq<char>,
    k: int,
)
    requires
        n <= entries.len(),
        0 <= k < entries.len(),
        entries[k].0 == name,
        !(entries[k].1 is Null),
        forall|j: int| 0 <= j < k && (#[trigger] entries[j]).0 == name ==> entries[j].1 is Null,
    ensures
        record_type(entries, n, name) == if n > k {
            Some(sampled_name(entries[k].1))
        } else {
            None
        },
    decreases n,
{
    if n > 0 {
        lemma_first_in_record(entries, (n - 1) as nat, name, k);
        assert(entries[n - 1].0 == name || entries[n - 1].0 != name);
    }
}

/// What holds nothing but nulls under a name gives it no type.
proof fn lemma_nothing_sampled(records: Seq<SampledRecord>, n: nat, name: Seq<char>)
    requires
        n <= records.len(),
        forall|i: int, j: int|
            0 <= i < n && 0 <= j < records[i].properties@.len() && (
            #[trigger] records[i].properties@[j]).0@ == name ==> records[i].properties@[j].1 is Null,
    ensures
        sample_type(records, n, name) is None,
    decreases n,
{
    if n > 0 {
        lemma_nothing_sampled(records, (n - 1) as nat, name);
        let entries = record_entries(records[n - 1].properties@);
        assert forall|j: int| 0 <= j < entries.len() && (#[trigger] entries[j]).0 == name implies
            entries[j].1 is Null by {
            assert(records[n - 1].properties@[j].0@ == name);
        }
        lemma_nothing_in_record(entries, entries.len(), name);
        assert(entries.len() == records[n - 1].properties@.len());
    }
}

proof fn lemma_nothing_in_record(entries: Seq<(Seq<char>, ValueKind)>, n: nat, name: Seq<char>)
    requires
        n <= entries.len(),
        forall|j: int| 0 <= j < n && (#[trigger] entries[j]).0 == name ==> entries[j].1 is Null,
    ensures
        record_type(entries, n, name) is None,
    decreases n,
{
    if n > 0 {
        lemma_nothing_in_record(entries, (n - 1) as nat, name);
        assert(entries[n - 1].0 == name || entries[n - 1].0 != name);
    }
}

/// An undeclared property whose values are all null has no type, and the first
/// 256 records are all that is looked at.
pub proof fn law_sample_is_bounded(
    declared: Seq<(String, DataType)>,
    records: Seq<SampledRecord>,
    name: Seq<char>,
)
    requires
        forall|j: int| 0 <= j < declared.len() ==> (#[trigger] declared[j]).0@ != name,
        forall|i: int, j: int|
            0 <= i < records.len() && i < 256 && 0 <= j < records[i].properties@.len() && (
            #[trigger] records[i].properties@[j]).0@ == name ==> records[i].properties@[j].1 is Null,
    ensures
        property_type(declared, records, name) is None,
{
    lemma_undeclared(declared, declared.len(), name);
    lemma_nothing_sampled(records, sampled_len(records.len()), name);
}

proof fn lemma_undeclared(declared: Seq<(String, DataType)>, n: nat, name: Seq<char>)
    requires
        n <= declared.len(),
        forall|j: int| 0 <= j < n ==> (#[trigger] declared[j]).0@ != name,
    ensures
        declared_type(declared, n, name) is None,
    decreases n,
{
    if n > 0 {
        assert(declared[n - 1].0@ != name);
        lemma_undeclared(declared, (n - 1) as nat, name);
    }
}

/// An undeclared property has the type of its first value that is not null among
/// the first 256 records.
pub proof fn law_undeclared_property(
    declared: Seq<(String, DataType)>,
    records: Seq<SampledRecord>,
    at: int,
    k: int,
)
    requires
        0 <= at < records.len(),
        at < 256,
        0 <= k < records[at].properties@.len(),
        !(records[at].properties@[k].1 is Null),
        forall|j: int|
            0 <= j < declared.len() ==> (#[trigger] declared[j]).0@
                != records[at].properties@[k].0@,
        forall|j: int|
            0 <= j < k && (#[trigger] records[at].properties@[j]).0@
                == records[at].properties@[k].0@ ==> records[at].properties@[j].1 is Null,
        forall|i: int, j: int|
            0 <= i < at && 0 <= j < records[i].properties@.len() && (
            #[trigger] records[i].properties@[j]).0@ == records[at].properties@[k].0@
                ==> records[i].properties@[j].1 is Null,
    ensures
        property_type(declared, records, records[at].properties@[k].0@) == Some(
            sampled_name(records[at].properties@[k].1),
        ),
{
    lemma_undeclared(declared, declared.len(), records[at].properties@[k].0@);
    law_first_value_counts(records, sampled_len(records.len()), at, k);
}

/// Semicolons behind a statement and whitespace around it do not matter.
pub proof fn law_trailing_semicolons_do_not_matter(
    pre: Seq<char>,
    s: Seq<char>,
    gap: Seq<char>,
    semicolons: Seq<char>,
    post: Seq<char>,
)
    requires
        forall|i: int| 0 <= i < pre.len() ==> is_space(#[trigger] pre[i]),
        forall|i: int| 0 <= i < gap.len() ==> is_space(#[trigger] gap[i]),
        forall|i: int| 0 <= i < post.len() ==> is_space(#[trigger] post[i]),
        forall|i: int| 0 <= i < semicolons.len() ==> #[trigger] semicolons[i] == ';',
        s.len() > 0,
        !is_space(s[0]),
        !is_space(s.last()),
        s.last() != ';',
    ensures
        normalized(pre + s + gap + semicolons + post) == collapsed(s),
{
    let all = pre + s + gap + semicolons + post;
    let none = Seq::<char>::empty();
    if semicolons.len() == 0 {
        assert(all =~= pre + s + (gap + post));
        assert forall|i: int| 0 <= i < (gap + post).len() implies is_space(
            #[trigger] (gap + post)[i],
        ) by {
            if i < gap.len() {
                assert(is_space(gap[i]));
            } else {
                assert(is_space(post[i - gap.len()]));
            }
        }
        law_trimming_undoes_padding(pre, s, gap + post);
        law_trimming_undoes_padding(none, s, none);
        assert(none + s + none =~= s);
    } else {
        let inner = s + gap + semicolons;
        assert(semicolons.last() == ';');
        assert(inner[0] == s[0] && inner.last() == semicolons.last());
        assert(all =~= pre + inner + post);
        law_trimming_undoes_padding(pre, inner, post);
        lemma_without_semicolons(s + gap, semicolons);
        if gap.len() > 0 {
            assert((s + gap).last() == gap.last());
            assert(is_space(gap[gap.len() - 1]));
        } else {
            assert((s + gap).last() == s.last());
        }
        assert(none + s + gap =~= s + gap);
        law_trimming_undoes_padding(none, s, gap);
    }
}

proof fn lemma_without_semicolons(s: Seq<char>, semicolons: Seq<char>)
    requires
        forall|i: int| 0 <= i < semicolons.len() ==> #[trigger] semicolons[i] == ';',
        s.len() > 0,
        s.last() != ';',
    ensures
        without_semicolons(s + semicolons) == s,
    decreases semicolons.len(),
{
    if semicolons.len() > 0 {
        assert((s + semicolons).last() == semicolons.last());
        assert((s + semicolons).drop_last() =~= s + semicolons.drop_last());
        lemma_without_semicolons(s, semicolons.drop_last());
    } else {
        assert(s + semicolons =~= s);
    }
}

/// Whatever the case of its letters, a statement calls the same procedure.
pub proof fn law_case_does_not_matter(s: Seq<char>, t: Seq<char>)
    requires
        s.len() == t.len(),
        forall|i: int| 0 <= i < s.len() ==> lowered(#[trigger] s[i]) == lowered(t[i]),
    ensures
        procedure_of(s) == procedure_of(t),
{
    assert forall|prefix: Seq<char>| #[trigger] calls(s, prefix) == calls(t, prefix) by {
        if calls(s, prefix) {
            assert forall|i: int| 0 <= i < prefix.len() implies lowered(#[trigger] t[i])
                == prefix[i] by {
                assert(lowered(s[i]) == prefix[i]);
            }
        }
        if calls(t, prefix) {
            assert forall|i: int| 0 <= i < prefix.len() implies lowered(#[trigger] s[i])
                == prefix[i] by {
                assert(lowered(t[i]) == prefix[i]);
            }
        }
    }
}

/// No text starts with both of two texts that differ within their common length.
proof fn lemma_calls_apart(s: Seq<char>, p: Seq<char>, q: Seq<char>, d: int)
    requires
        0 <= d < p.len(),
        d < q.len(),
        p[d] != q[d],
    ensures
        !(calls(s, p) && calls(s, q)),
{
    if calls(s, p) && calls(s, q) {
        assert(lowered(s[d]) == p[d]);
    }
}

/// A statement that starts with the call of a procedure gets that procedure's
/// answer, and one that starts with none of them goes to the parser.
pub proof fn law_calls_find_their_procedures(s: Seq<char>)
    ensures
        calls(s, "call meta_util.schema("@) ==> procedure_of(s) == Some(Procedure::MetaUtilSchema),
        calls(s, "call schema.node_type_properties("@) ==> procedure_of(s) == Some(Procedure::NodeTypeProperties),
        calls(s, "call schema.rel_type_properties("@) ==> procedure_of(s) == Some(Procedure::RelTypeProperties),
        calls(s, "call mg.procedures("@) ==> procedure_of(s) == Some(Procedure::MgProcedures),
        calls(s, "call mg.functions("@) ==> procedure_of(s) == Some(Procedure::MgFunctions),
        calls(s, "call db.labels("@) ==> procedure_of(s) == Some(Procedure::DbLabels),
        calls(s, "call db.relationshiptypes("@) ==> procedure_of(s) == Some(Procedure::DbRelationshipTypes),
        calls(s, "call db.propertykeys("@) ==> procedure_of(s) == Some(Procedure::DbPropertyKeys),
        calls(s, "call apoc.meta.nodetypeproperties("@) ==> procedure_of(s) == Some(Procedure::ApocNodeTypeProperties),
        calls(s, "call apoc.meta.reltypeproperties("@) ==> procedure_of(s) == Some(Procedure::ApocRelTypeProperties),
        calls(s, "call dbms.components("@) ==> procedure_of(s) == Some(Procedure::DbmsComponents),
        calls(s, "show procedures"@) ==> procedure_of(s) == Some(Procedure::ShowProcedures),
        calls(s, "call dbms.procedures("@) ==> procedure_of(s) == Some(Procedure::ShowProcedures),
        calls(s, "show functions"@) ==> procedure_of(s) == Some(Procedure::ShowFunctions),
        calls(s, "call dbms.functions("@) ==> procedure_of(s) == Some(Procedure::ShowFunctions),
        calls(s, "show databases"@) ==> procedure_of(s) == Some(Procedure::ShowDatabases),
        procedure_of(s) is None <==> !(calls(s, "call meta_util.schema("@)
            || calls(s, "call schema.node_type_properties("@)
            || calls(s, "call schema.rel_type_properties("@)
            || calls(s, "call mg.procedures("@)
            || calls(s, "call mg.functions("@)
            || calls(s, "call db.labels("@)
            || calls(s, "call db.relationshiptypes("@)
            || calls(s, "call db.propertykeys("@)
            || calls(s, "call apoc.meta.nodetypeproperties("@)
            || calls(s, "call apoc.meta.reltypeproperties("@)
            || calls(s, "call dbms.components("@)
            || calls(s, "show procedures"@)
            || calls(s, "call dbms.procedures("@)
            || calls(s, "show functions"@)
            || calls(s, "call dbms.functions("@)
            || calls(s, "show databases"@)),
{
    reveal_strlit("call meta_util.schema(");
    reveal_strlit("call schema.node_type_properties(");
    reveal_strlit("call schema.rel_type_properties(");
    reveal_strlit("call mg.procedures(");
    reveal_strlit("call mg.functions(");
    reveal_strlit("call db.labels(");
    reveal_strlit("call db.relationshiptypes(");
    reveal_strlit("call db.propertykeys(");
    reveal_strlit("call apoc.meta.nodetypeproperties(");
    reveal_strlit("call apoc.meta.reltypeproperties(");
    reveal_strlit("call dbms.components(");
    reveal_strlit("show procedures");
    reveal_strlit("call dbms.procedures(");
    reveal_strlit("show functions");
    reveal_strlit("call dbms.functions(");
    reveal_strlit("show databases");
    lemma_calls_apart(s, "call meta_util.schema("@, "call schema.node_type_properties("@, 5);
    lemma_calls_apart(s, "call meta_util.schema("@, "call schema.rel_type_properties("@, 5);
    lemma_calls_apart(s, "call schema.node_type_properties("@, "call schema.rel_type_properties("@, 12);
    lemma_calls_apart(s, "call meta_util.schema("@, "call mg.procedures("@, 6);
    lemma_calls_apart(s, "call schema.node_type_properties("@, "call mg.procedures("@, 5);
    lemma_calls_apart(s, "call schema.rel_type_properties("@, "call mg.procedures("@, 5);
    lemma_calls_apart(s, "call meta_util.schema("@, "call mg.functions("@, 6);
    lemma_calls_apart(s, "call schema.node_type_properties("@, "call mg.functions("@, 5);
    lemma_calls_apart(s, "call schema.rel_type_properties("@, "call mg.functions("@, 5);
    lemma_calls_apart(s, "call mg.procedures("@, "call mg.functions("@, 8);
    lemma_calls_apart(s, "call meta_util.schema("@, "call db.labels("@, 5);
    lemma_calls_apart(s, "call schema.node_type_properties("@, "call db.labels("@, 5);
    lemma_calls_apart(s, "call schema.rel_type_properties("@, "call db.labels("@, 5);
    lemma_calls_apart(s, "call mg.procedures("@, "call db.labels("@, 5);
    lemma_calls_apart(s, "call mg.functions("@, "call db.labels("@, 5);
    lemma_calls_apart(s, "call meta_util.schema("@, "call db.relationshiptypes("@, 5);
    lemma_calls_apart(s, "call schema.node_type_properties("@, "call db.relationshiptypes("@, 5);
    lemma_calls_apart(s, "call schema.rel_type_properties("@, "call db.relationshiptypes("@, 5);
    lemma_calls_apart(s, "call mg.procedures("@, "call db.relationshiptypes("@, 5);
    lemma_calls_apart(s, "call mg.functions("@, "call db.relationshiptypes("@, 5);
    lemma_calls_apart(s, "call db.labels("@, "call db.relationshiptypes("@, 8);
    lemma_calls_apart(s, "call meta_util.schema("@, "call db.propertykeys("@, 5);
    lemma_calls_apart(s, "call schema.node_type_properties("@, "call db.propertykeys("@, 5);
    lemma_calls_apart(s, "call schema.rel_type_properties("@, "call db.propertykeys("@, 5);
    lemma_calls_apart(s, "call mg.procedures("@, "call db.propertykeys("@, 5);
    lemma_calls_apart(s, "call mg.functions("@, "call db.propertykeys("@, 5);
    lemma_calls_apart(s, "call db.labels("@, "call db.propertykeys("@, 8);
    lemma_calls_apart(s, "call db.relationshiptypes("@, "call db.propertykeys("@, 8);
    lemma_calls_apart(s, "call meta_util.schema("@, "call apoc.meta.nodetypeproperties("@, 5);
    lemma_calls_apart(s, "call schema.node_type_properties("@, "call apoc.meta.nodetypeproperties("@, 5);
    lemma_calls_apart(s, "call schema.rel_type_properties("@, "call apoc.meta.nodetypeproperties("@, 5);
    lemma_calls_apart(s, "call mg.procedures("@, "call apoc.meta.nodetypeproperties("@, 5);
    lemma_calls_apart(s, "call mg.functions("@, "call apoc.meta.nodetypeproperties("@, 5);
    lemma_calls_apart(s, "call db.labels("@, "call apoc.meta.nodetypeproperties("@, 5);
    lemma_calls_apart(s, "call db.relationshiptypes("@, "call apoc.meta.nodetypeproperties("@, 5);
    lemma_calls_apart(s, "call db.propertykeys("@, "call apoc.meta.nodetypeproperties("@, 5);
    lemma_calls_apart(s, "call meta_util.schema("@, "call apoc.meta.reltypeproperties("@, 5);
    lemma_calls_apart(s, "call schema.node_type_properties("@, "call apoc.meta.reltypeproperties("@, 5);
    lemma_calls_apart(s, "call schema.rel_type_properties("@, "call apoc.meta.reltypeproperties("@, 5);
    lemma_calls_apart(s, "call mg.procedures("@, "call apoc.meta.reltypeproperties("@, 5);
    lemma_calls_apart(s, "call mg.functions("@, "call apoc.meta.reltypeproperties("@, 5);
    lemma_calls_apart(s, "call db.labels("@, "call apoc.meta.reltypeproperties("@, 5);
    lemma_calls_apart(s, "call db.relationshiptypes("@, "call apoc.meta.reltypeproperties("@, 5);
    lemma_calls_apart(s, "call db.propertykeys("@, "call apoc.meta.reltypeproperties("@, 5);
    lemma_calls_apart(s, "call apoc.meta.nodetypeproperties("@, "call apoc.meta.reltypeproperties("@, 15);
    lemma_calls_apart(s, "call meta_util.schema("@, "call dbms.components("@, 5);
    lemma_calls_apart(s, "call schema.node_type_properties("@, "call dbms.components("@, 5);
    lemma_calls_apart(s, "call schema.rel_type_properties("@, "call dbms.components("@, 5);
    lemma_calls_apart(s, "call mg.procedures("@, "call dbms.components("@, 5);
    lemma_calls_apart(s, "call mg.functions("@, "call dbms.components("@, 5);
    lemma_calls_apart(s, "call db.labels("@, "call dbms.components("@, 7);
    lemma_calls_apart(s, "call db.relationshiptypes("@, "call dbms.components("@, 7);
    lemma_calls_apart(s, "call db.propertykeys("@, "call dbms.components("@, 7);
    lemma_calls_apart(s, "call apoc.meta.nodetypeproperties("@, "call dbms.components("@, 5);
    lemma_calls_apart(s, "call apoc.meta.reltypeproperties("@, "call dbms.components("@, 5);
    lemma_calls_apart(s, "call meta_util.schema("@, "show procedures"@, 0);
    lemma_calls_apart(s, "call schema.node_type_properties("@, "show procedures"@, 0);
    lemma_calls_apart(s, "call schema.rel_type_properties("@, "show procedures"@, 0);
    lemma_calls_apart(s, "call mg.procedures("@, "show procedures"@, 0);
    lemma_calls_apart(s, "call mg.functions("@, "show procedures"@, 0);
    lemma_calls_apart(s, "call db.labels("@, "show procedures"@, 0);
    lemma_calls_apart(s, "call db.relationshiptypes("@, "show procedures"@, 0);
    lemma_calls_apart(s, "call db.propertykeys("@, "show procedures"@, 0);
    lemma_calls_apart(s, "call apoc.meta.nodetypeproperties("@, "show procedures"@, 0);
    lemma_calls_apart(s, "call apoc.meta.reltypeproperties("@, "show procedures"@, 0);
    lemma_calls_apart(s, "call dbms.components("@, "show procedures"@, 0);
    lemma_calls_apart(s, "call meta_util.schema("@, "call dbms.procedures("@, 5);
    lemma_calls_apart(s, "call schema.node_type_properties("@, "call dbms.procedures("@, 5);
    lemma_calls_apart(s, "call schema.rel_type_properties("@, "call dbms.procedures("@, 5);
    lemma_calls_apart(s, "call mg.procedures("@, "call dbms.procedures("@, 5);
    lemma_calls_apart(s, "call mg.functions("@, "call dbms.procedures("@, 5);
    lemma_calls_apart(s, "call db.labels("@, "call dbms.procedures("@, 7);
    lemma_calls_apart(s, "call db.relationshiptypes("@, "call dbms.procedures("@, 7);
    lemma_calls_apart(s, "call db.propertykeys("@, "call dbms.procedures("@, 7);
    lemma_calls_apart(s, "call apoc.meta.nodetypeproperties("@, "call dbms.procedures("@, 5);
    lemma_calls_apart(s, "call apoc.meta.reltypeproperties("@, "call dbms.procedures("@, 5);
    lemma_calls_apart(s, "call dbms.components("@, "call dbms.procedures("@, 10);
    lemma_calls_apart(s, "call meta_util.schema("@, "show functions"@, 0);
    lemma_calls_apart(s, "call schema.node_type_properties("@, "show functions"@, 0);
    lemma_calls_apart(s, "call schema.rel_type_properties("@, "show functions"@, 0);
    lemma_calls_apart(s, "call mg.procedures("@, "show functions"@, 0);
    lemma_calls_apart(s, "call mg.functions("@, "show functions"@, 0);
    lemma_calls_apart(s, "call db.labels("@, "show functions"@, 0);
    lemma_calls_apart(s, "call db.relationshiptypes("@, "show functions"@, 0);
    lemma_calls_apart(s, "call db.propertykeys("@, "show functions"@, 0);
    lemma_calls_apart(s, "call apoc.meta.nodetypeproperties("@, "show functions"@, 0);
    lemma_calls_apart(s, "call apoc.meta.reltypeproperties("@, "show functions"@, 0);
    lemma_calls_apart(s, "call dbms.components("@, "show functions"@, 0);
    lemma_calls_apart(s, "show procedures"@, "show functions"@, 5);
    lemma_calls_apart(s, "call dbms.procedures("@, "show functions"@, 0);
    lemma_calls_apart(s, "call meta_util.schema("@, "call dbms.functions("@, 5);
    lemma_calls_apart(s, "call schema.node_type_properties("@, "call dbms.functions("@, 5);
    lemma_calls_apart(s, "call schema.rel_type_properties("@, "call dbms.functions("@, 5);
    lemma_calls_apart(s, "call mg.procedures("@, "call dbms.functions("@, 5);
    lemma_calls_apart(s, "call mg.functions("@, "call dbms.functions("@, 5);
    lemma_calls_apart(s, "call db.labels("@, "call dbms.functions("@, 7);
    lemma_calls_apart(s, "call db.relationshiptypes("@, "call dbms.functions("@, 7);
    lemma_calls_apart(s, "call db.propertykeys("@, "call dbms.functions("@, 7);
    lemma_calls_apart(s, "call apoc.meta.nodetypeproperties("@, "call dbms.functions("@, 5);
    lemma_calls_apart(s, "call apoc.meta.reltypeproperties("@, "call dbms.functions("@, 5);
    lemma_calls_apart(s, "call dbms.components("@, "call dbms.functions("@, 10);
    lemma_calls_apart(s, "show procedures"@, "call dbms.functions("@, 0);
    lemma_calls_apart(s, "call dbms.procedures("@, "call dbms.functions("@, 10);
    lemma_calls_apart(s, "call meta_util.schema("@, "show databases"@, 0);
    lemma_calls_apart(s, "call schema.node_type_properties("@, "show databases"@, 0);
    lemma_calls_apart(s, "call schema.rel_type_properties("@, "show databases"@, 0);
    lemma_calls_apart(s, "call mg.procedures("@, "show databases"@, 0);
    lemma_calls_apart(s, "call mg.functions("@, "show databases"@, 0);
    lemma_calls_apart(s, "call db.labels("@, "show databases"@, 0);
    lemma_calls_apart(s, "call db.relationshiptypes("@, "show databases"@, 0);
    lemma_calls_apart(s, "call db.propertykeys("@, "show databases"@, 0);
    lemma_calls_apart(s, "call apoc.meta.nodetypeproperties("@, "show databases"@, 0);
    lemma_calls_apart(s, "call apoc.meta.reltypeproperties("@, "show databases"@, 0);
    lemma_calls_apart(s, "call dbms.components("@, "show databases"@, 0);
    lemma_calls_apart(s, "show procedures"@, "show databases"@, 5);
    lemma_calls_apart(s, "call dbms.procedures("@, "show databases"@, 0);
    lemma_calls_apart(s, "show functions"@, "show databases"@, 5);
    lemma_calls_apart(s, "call dbms.functions("@, "show databases"@, 0);
}

/// Whether a row has a value for each of the columns, and no other.
pub open spec fn fills(row: RowTree, columns: Seq<Seq<char>>) -> bool {
    &&& row.len() == columns.len()
    &&& forall|i: int| 0 <= i < columns.len() ==> cell(row, #[trigger] columns[i]) is Some
}

/// The procedure whose answer is a property table of that shape.
pub open spec fn shape_procedure(shape: TableShape) -> Procedure {
    match shape {
        TableShape::Node => Procedure::NodeTypeProperties,
        TableShape::Rel => Procedure::RelTypeProperties,
        TableShape::ApocNode => Procedure::ApocNodeTypeProperties,
        TableShape::ApocRel => Procedure::ApocRelTypeProperties,
    }
}

proof fn lemma_owner_rows_fill(
    shape: TableShape,
    owner: Seq<char>,
    src: Option<Seq<char>>,
    dst: Option<Seq<char>>,
    properties: Seq<(Seq<char>, Seq<char>)>,
)
    ensures
        forall|r: int|
            0 <= r < owner_rows(shape, owner, src, dst, properties).len() ==> fills(
                #[trigger] owner_rows(shape, owner, src, dst, properties)[r],
                answer_columns(shape_procedure(shape)),
            ),
{
    let rows = owner_rows(shape, owner, src, dst, properties);
    assert forall|r: int| 0 <= r < rows.len() implies fills(
        #[trigger] rows[r],
        answer_columns(shape_procedure(shape)),
    ) by {
        let property = if properties.len() == 0 {
            None
        } else {
            Some(properties[r])
        };
        assert(rows[r] == property_row(shape, owner, src, dst, property));
        law_property_row(shape, owner, src, dst, property);
    }
}

proof fn lemma_both_fill(before: Seq<RowTree>, own: Seq<RowTree>, columns: Seq<Seq<char>>)
    requires
        forall|r: int| 0 <= r < before.len() ==> fills(#[trigger] before[r], columns),
        forall|r: int| 0 <= r < own.len() ==> fills(#[trigger] own[r], columns),
    ensures
        forall|r: int| 0 <= r < (before + own).len() ==> fills(#[trigger] (before + own)[r], columns),
{
    assert forall|r: int| 0 <= r < (before + own).len() implies fills(
        #[trigger] (before + own)[r],
        columns,
    ) by {
        if r < before.len() {
            assert(fills(before[r], columns));
        } else {
            assert(fills(own[r - before.len()], columns));
        }
    }
}

proof fn lemma_label_rows_fill(shape: TableShape, labels: Seq<LabelSample>, n: nat)
    requires
        n <= labels.len(),
        shape is Node || shape is ApocNode,
    ensures
        forall|r: int|
            0 <= r < label_rows(shape, labels, n).len() ==> fills(
                #[trigger] label_rows(shape, labels, n)[r],
                answer_columns(shape_procedure(shape)),
            ),
    decreases n,
{
    if n > 0 {
        let l = labels[n - 1];
        let before = label_rows(shape, labels, (n - 1) as nat);
        let own = owner_rows(shape, l.label@, None, None, l.properties@);
        lemma_label_rows_fill(shape, labels, (n - 1) as nat);
        lemma_owner_rows_fill(shape, l.label@, None, None, l.properties@);
        lemma_both_fill(before, own, answer_columns(shape_procedure(shape)));
    }
}

proof fn lemma_edge_rows_fill(
    shape: TableShape,
    edges: Seq<EdgeSample>,
    endpoints: Seq<Endpoint>,
    n: nat,
)
    requires
        n <= edges.len(),
    ensures
        forall|r: int|
            0 <= r < edge_rows(shape, edges, endpoints, n).len() ==> fills(
                #[trigger] edge_rows(shape, edges, endpoints, n)[r],
                answer_columns(shape_procedure(shape)),
            ),
    decreases n,
{
    if n > 0 {
        let e = edges[n - 1];
        let ends = endpoint_of(endpoints, endpoints.len(), e.edge_type@);
        let before = edge_rows(shape, edges, endpoints, (n - 1) as nat);
        let own = owner_rows(shape, e.edge_type@, ends.0, ends.1, e.properties@);
        lemma_edge_rows_fill(shape, edges, endpoints, (n - 1) as nat);
        lemma_owner_rows_fill(shape, e.edge_type@, ends.0, ends.1, e.properties@);
        lemma_both_fill(before, own, answer_columns(shape_procedure(shape)));
    }
}

/// Every row of an answer has a value for each of the answer's columns, and no
/// other.
pub proof fn law_answers_fill_their_columns(
    procedure: Procedure,
    schema: SchemaSnapshot,
    rows: Seq<RowTree>,
)
    requires
        are_answer_rows(procedure, schema, rows),
    ensures
        forall|r: int| 0 <= r < rows.len() ==> fills(#[trigger] rows[r], answer_columns(procedure)),
{
    let labels = schema.labels@;
    let edges = schema.edges@;
    match procedure {
        Procedure::NodeTypeProperties => lemma_label_rows_fill(
            TableShape::Node,
            labels,
            labels.len(),
        ),
        Procedure::ApocNodeTypeProperties => lemma_label_rows_fill(
            TableShape::ApocNode,
            labels,
            labels.len(),
        ),
        Procedure::RelTypeProperties => lemma_edge_rows_fill(
            TableShape::Rel,
            edges,
            schema.endpoints@,
            edges.len(),
        ),
        Procedure::ApocRelTypeProperties => lemma_edge_rows_fill(
            TableShape::ApocRel,
            edges,
            schema.endpoints@,
            edges.len(),
        ),
        Procedure::DbmsComponents => {
    reveal_strlit("edition");
    reveal_strlit("name");
    reveal_strlit("versions");
    assert("edition"@.len() != "name"@.len());
    assert("edition"@.len() != "versions"@.len());
    assert("name"@.len() != "versions"@.len());
            law_first_cell_counts(component_row(), 0);
            law_first_cell_counts(component_row(), 1);
            law_first_cell_counts(component_row(), 2);
        },
        Procedure::ShowDatabases => {
    reveal_strlit("access");
    reveal_strlit("address");
    reveal_strlit("currentStatus");
    reveal_strlit("default");
    reveal_strlit("home");
    reveal_strlit("name");
    reveal_strlit("requestedStatus");
    reveal_strlit("role");
    reveal_strlit("type");
    assert("access"@.len() != "address"@.len());
    assert("access"@.len() != "currentStatus"@.len());
    assert("address"@.len() != "currentStatus"@.len());
    assert("access"@.len() != "default"@.len());
    assert("address"@[0] != "default"@[0]);
    assert("currentStatus"@.len() != "default"@.len());
    assert("access"@.len() != "home"@.len());
    assert("address"@.len() != "home"@.len());
    assert("currentStatus"@.len() != "home"@.len());
    assert("default"@.len() != "home"@.len());
    assert("access"@.len() != "name"@.len());
    assert("address"@.len() != "name"@.len());
    assert("currentStatus"@.len() != "name"@.len());
    assert("default"@.len() != "name"@.len());
    assert("home"@[0] != "name"@[0]);
    assert("access"@.len() != "requestedStatus"@.len());
    assert("address"@.len() != "requestedStatus"@.len());
    assert("currentStatus"@.len() != "requestedStatus"@.len());
    assert("default"@.len() != "requestedStatus"@.len());
    assert("home"@.len() != "requestedStatus"@.len());
    assert("name"@.len() != "requestedStatus"@.len());
    assert("access"@.len() != "role"@.len());
    assert("address"@.len() != "role"@.len());
    assert("currentStatus"@.len() != "role"@.len());
    assert("default"@.len() != "role"@.len());
    assert("home"@[0] != "role"@[0]);
    assert("name"@[0] != "role"@[0]);
    assert("requestedStatus"@.len() != "role"@.len());
    assert("access"@.len() != "type"@.len());
    assert("address"@.len() != "type"@.len());
    assert("currentStatus"@.len() != "type"@.len());
    assert("default"@.len() != "type"@.len());
    assert("home"@[0] != "type"@[0]);
    assert("name"@[0] != "type"@[0]);
    assert("requestedStatus"@.len() != "type"@.len());
    assert("role"@[0] != "type"@[0]);
            law_first_cell_counts(database_row(), 0);
            law_first_cell_counts(database_row(), 1);
            law_first_cell_counts(database_row(), 2);
            law_first_cell_counts(database_row(), 3);
            law_first_cell_counts(database_row(), 4);
            law_first_cell_counts(database_row(), 5);
            law_first_cell_counts(database_row(), 6);
            law_first_cell_counts(database_row(), 7);
            law_first_cell_counts(database_row(), 8);
        },
        Procedure::MgProcedures => {
    reveal_strlit("name");
    reveal_strlit("signature");
    assert("name"@.len() != "signature"@.len());
            assert forall|r: int| 0 <= r < rows.len() implies fills(
                #[trigger] rows[r],
                answer_columns(procedure),
            ) by {
                law_first_cell_counts(rows[r], 0);
                law_first_cell_counts(rows[r], 1);
            }
        },
        Procedure::ShowProcedures => {
    reveal_strlit("description");
    reveal_strlit("name");
    reveal_strlit("signature");
    assert("description"@.len() != "name"@.len());
    assert("description"@.len() != "signature"@.len());
    assert("name"@.len() != "signature"@.len());
            assert forall|r: int| 0 <= r < rows.len() implies fills(
                #[trigger] rows[r],
                answer_columns(procedure),
            ) by {
                law_first_cell_counts(rows[r], 0);
                law_first_cell_counts(rows[r], 1);
                law_first_cell_counts(rows[r], 2);
            }
        },
        _ => {
            assert forall|r: int| 0 <= r < rows.len() implies fills(
                #[trigger] rows[r],
                answer_columns(procedure),
            ) by {
                law_first_cell_counts(rows[r], 0);
            }
        },
    }
}

/// The lists of labels, edge types and property names hold each of them once,
/// in order, one to a row.
pub proof fn law_lists_name_what_is_there(schema: SchemaSnapshot, rows: Seq<RowTree>, i: int)
    ensures
        are_answer_rows(Procedure::DbLabels, schema, rows) ==> {
            &&& rows.len() == schema.labels@.len()
            &&& 0 <= i < rows.len() ==> cell(rows[i], "label"@) == Some(
                ValueTree::Text(schema.labels@[i].label@),
            )
        },
        are_answer_rows(Procedure::DbRelationshipTypes, schema, rows) ==> {
            &&& rows.len() == schema.edges@.len()
            &&& 0 <= i < rows.len() ==> cell(rows[i], "relationshipType"@) == Some(
                ValueTree::Text(schema.edges@[i].edge_type@),
            )
        },
        are_answer_rows(Procedure::DbPropertyKeys, schema, rows) && 0 <= i < rows.len() ==> (cell(
            rows[i],
            "propertyKey"@,
        ) matches Some(ValueTree::Text(name)) && exists|l: int|
            0 <= l < schema.labels@.len() && entry_names(
                (#[trigger] schema.labels@[l]).properties@,
            ).contains(name)),
{
    if are_answer_rows(Procedure::DbLabels, schema, rows) && 0 <= i < rows.len() {
        law_first_cell_counts(rows[i], 0);
    }
    if are_answer_rows(Procedure::DbRelationshipTypes, schema, rows) && 0 <= i < rows.len() {
        law_first_cell_counts(rows[i], 0);
    }
    if are_answer_rows(Procedure::DbPropertyKeys, schema, rows) && 0 <= i < rows.len() {
        let keys = choose|keys: Seq<Seq<char>>|
            {
                &&& strictly_sorted(keys)
                &&& (forall|name: Seq<char>| #[trigger]
                    keys.contains(name) <==> has_property(
                        schema.labels@,
                        schema.labels@.len() as int,
                        name,
                    ))
                &&& rows == #[trigger] column("propertyKey"@, keys)
            };
        law_first_cell_counts(rows[i], 0);
        assert(keys.contains(keys[i]));
    }
}

/// The texts of an array.
fn owned(items: &[&str]) -> (out: Vec<String>)
    ensures
        out@.len() == items@.len(),
        forall|i: int| 0 <= i < out@.len() ==> (#[trigger] out@[i])@ == items@[i]@,
{
    let mut out: Vec<String> = Vec::new();
    let mut i: usize = 0;
    while i < items.len()
        invariant
            i <= items@.len(),
            out@.len() == i,
            forall|j: int| 0 <= j < i ==> (#[trigger] out@[j])@ == items@[j]@,
        decreases items.len() - i,
    {
        out.push(items[i].to_owned());
        i = i + 1;
    }
    out
}

/// The columns of a procedure's answer.
fn make_columns(procedure: Procedure) -> (r: Vec<String>)
    ensures
        texts(r@) == answer_columns(procedure),
{
    let r = match procedure {
        Procedure::MetaUtilSchema => owned(&["schema"]),
        Procedure::NodeTypeProperties => owned(
            &["nodeType", "nodeLabels", "mandatory", "propertyName", "propertyTypes"],
        ),
        Procedure::RelTypeProperties => owned(
            &["relType", "mandatory", "propertyName", "propertyTypes"],
        ),
        Procedure::MgProcedures | Procedure::MgFunctions => owned(&["name", "signature"]),
        Procedure::DbLabels => owned(&["label"]),
        Procedure::DbRelationshipTypes => owned(&["relationshipType"]),
        Procedure::DbPropertyKeys => owned(&["propertyKey"]),
        Procedure::ApocNodeTypeProperties => owned(
            &["nodeType", "nodeLabels", "propertyName", "propertyTypes", "mandatory"],
        ),
        Procedure::ApocRelTypeProperties => owned(
            &[
                "relType",
                "sourceNodeLabels",
                "targetNodeLabels",
                "propertyName",
                "propertyTypes",
                "mandatory",
            ],
        ),
        Procedure::DbmsComponents => owned(&["name", "versions", "edition"]),
        Procedure::ShowProcedures | Procedure::ShowFunctions => owned(
            &["name", "description", "signature"],
        ),
        Procedure::ShowDatabases => owned(
            &[
                "name",
                "type",
                "access",
                "address",
                "role",
                "requestedStatus",
                "currentStatus",
                "default",
                "home",
            ],
        ),
    };
    assert(texts(r@) =~= answer_columns(procedure));
    r
}

/// The names of the labels.
fn names_of_labels(labels: &Vec<LabelSample>) -> (r: Vec<String>)
    ensures
        texts(r@) == label_names(labels@),
{
    let mut out: Vec<String> = Vec::new();
    let mut i: usize = 0;
    while i < labels.len()
        invariant
            i <= labels@.len(),
            out@.len() == i,
            forall|j: int| 0 <= j < i ==> (#[trigger] out@[j])@ == labels@[j].label@,
        decreases labels.len() - i,
    {
        out.push(labels[i].label.clone());
        i = i + 1;
    }
    assert(texts(out@) =~= label_names(labels@));
    out
}

/// The names of the edge types.
fn names_of_edges(edges: &Vec<EdgeSample>) -> (r: Vec<String>)
    ensures
        texts(r@) == edge_names(edges@),
{
    let mut out: Vec<String> = Vec::new();
    let mut i: usize = 0;
    while i < edges.len()
        invariant
            i <= edges@.len(),
            out@.len() == i,
            forall|j: int| 0 <= j < i ==> (#[trigger] out@[j])@ == edges@[j].edge_type@,
        decreases edges.len() - i,
    {
        out.push(edges[i].edge_type.clone());
        i = i + 1;
    }
    assert(texts(out@) =~= edge_names(edges@));
    out
}

/// The rows of a procedure's answer.
fn make_answer_rows(procedure: Procedure, schema: &SchemaSnapshot) -> (r: Vec<Row>)
    requires
        schema.labels@.len() <= i64::MAX,
        schema.endpoints@.len() <= i64::MAX,
    ensures
        are_answer_rows(procedure, *schema, row_trees(r@)),
{
    match procedure {
        Procedure::MetaUtilSchema => {
            let value = make_schema_value(schema);
            let made = Bindings::new().with("schema", value);
            assert(made@ =~= seq![("schema"@, schema_value(*schema))]);
            let rows = vec![made.row()];
            assert(row_trees(rows@) =~= seq![seq![("schema"@, schema_value(*schema))]]);
            rows
        },
        Procedure::NodeTypeProperties => make_label_rows(TableShape::Node, &schema.labels),
        Procedure::RelTypeProperties => make_edge_rows(
            TableShape::Rel,
            &schema.edges,
            &schema.endpoints,
        ),
        Procedure::MgProcedures => make_mg_table(),
        Procedure::MgFunctions | Procedure::ShowFunctions => {
            let rows: Vec<Row> = Vec::new();
            assert(row_trees(rows@) =~= Seq::<RowTree>::empty());
            rows
        },
        Procedure::DbLabels => make_column("label", &names_of_labels(&schema.labels)),
        Procedure::DbRelationshipTypes => make_column(
            "relationshipType",
            &names_of_edges(&schema.edges),
        ),
        Procedure::DbPropertyKeys => {
            let keys = property_keys(&schema.labels);
            make_column("propertyKey", &keys)
        },
        Procedure::ApocNodeTypeProperties => make_label_rows(TableShape::ApocNode, &schema.labels),
        Procedure::ApocRelTypeProperties => make_edge_rows(
            TableShape::ApocRel,
            &schema.edges,
            &schema.endpoints,
        ),
        Procedure::DbmsComponents => {
            let rows = vec![make_component_row()];
            assert(row_trees(rows@) =~= seq![component_row()]);
            rows
        },
        Procedure::ShowProcedures => make_procedure_table(),
        Procedure::ShowDatabases => {
            let rows = vec![make_database_row()];
            assert(row_trees(rows@) =~= seq![database_row()]);
            rows
        },
    }
}

/// The answer to a procedure.
pub fn introspect(procedure: Procedure, schema: &SchemaSnapshot) -> (r: RunOutcome)
    requires
        schema.labels@.len() <= i64::MAX,
        schema.endpoints@.len() <= i64::MAX,
    ensures
        r@.fields == answer_columns(procedure),
        are_answer_rows(procedure, *schema, r@.rows),
        r@.statement_type is Read,
        r@.counters == Seq::<(Seq<char>, i64)>::empty(),
{
    let columns = make_columns(procedure);
    let rows = make_answer_rows(procedure, schema);
    show_run_outcome(columns, rows)
}

} // verus!
