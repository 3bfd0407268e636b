//! External policy decisions.
//!
//! A request is described in a small document, put to a policy endpoint, and
//! allowed only by a definite yes: anything else, an endpoint that cannot be
//! reached and an answer that cannot be read alike, is a refusal.

use vstd::prelude::*;

use crate::auth::{Principal, PrincipalModel, Role};
use crate::authz::{Denied, SchemaOp};
use crate::json::{json_parse, member, parse, text_array, Json, JsonTree, Members};
use crate::plan::PlanNode;
use crate::text::{insert_sorted, strictly_sorted, texts};

verus! {

/// The first member of that name is one of the members.
proof fn lemma_member(members: Seq<(Seq<char>, JsonTree)>, key: Seq<char>)
    ensures
        member(members, key) matches Some(v) ==> exists|i: int|
            0 <= i < members.len() && (#[trigger] members[i]).1 == v,
    decreases members.len(),
{
    if members.len() > 0 {
        if members[0].0 == key {
            assert(members[0].1 == member(members, key)->Some_0);
        } else {
            lemma_member(members.skip(1), key);
            match member(members, key) {
                Some(v) => {
                    let i = choose|i: int|
                        0 <= i < members.skip(1).len() && (#[trigger] members.skip(1)[i]).1 == v;
                    assert(members[i + 1].1 == v);
                },
                None => {},
            }
        }
    }
}

/// The decision in a response, in any of the shapes that policy endpoints answer
/// in: a bare truth value, a truth value under `allow`, or either under
/// `result`.
pub open spec fn allow_of(doc: JsonTree) -> Option<bool>
    decreases doc,
    via allow_of_decreases
{
    match doc {
        JsonTree::Bool(b) => Some(b),
        JsonTree::Object(members) => match member(members, "result"@) {
            Some(inner) => allow_of(inner),
            None => match member(members, "allow"@) {
                Some(JsonTree::Bool(b)) => Some(b),
                _ => None,
            },
        },
        _ => None,
    }
}

#[via_fn]
proof fn allow_of_decreases(doc: JsonTree) {
    match doc {
        JsonTree::Object(members) => {
            lemma_member(members, "result"@);
            match member(members, "result"@) {
                Some(v) => {
                    let i = choose|i: int| 0 <= i < members.len() && (#[trigger] members[i]).1 == v;
                    assert(decreases_to!(doc => members));
                    assert(decreases_to!(members => members[i]));
                    assert(decreases_to!(members[i] => members[i].1));
                },
                None => {},
            }
        },
        _ => {},
    }
}

/// The decision in a response, if it holds one.
pub fn extract_allow(v: &Json) -> (r: Option<bool>)
    ensures
        r == allow_of(v@),
    decreases v,
{
    match v {
        Json::Bool(b) => Some(*b),
        Json::Object(_) => match v.get("result") {
            Some(inner) => extract_allow(inner),
            None => match v.get("allow") {
                Some(Json::Bool(b)) => Some(*b),
                _ => None,
            },
        },
        _ => None,
    }
}

/// What a response that was read comes to: allowed, or refused for a reason.
pub open spec fn decision(read: Result<JsonTree, Seq<char>>) -> Result<(), Seq<char>> {
    match read {
        Err(e) => Err("policy response not understood: "@ + e),
        Ok(doc) => if allow_of(doc) == Some(true) {
            Ok(())
        } else {
            Err("denied by policy"@)
        },
    }
}

/// What a decision came to.
pub open spec fn decided(r: Result<(), Denied>) -> Result<(), Seq<char>> {
    match r {
        Ok(_) => Ok(()),
        Err(d) => Err(d.reason@),
    }
}

/// The decision on a response that was parsed, or could not be.
pub fn decide_parsed(read: Result<Json, String>) -> (r: Result<(), Denied>)
    ensures
        decided(r) == decision(
            match read {
                Ok(j) => Ok(j@),
                Err(e) => Err(e@),
            },
        ),
{
    match read {
        Err(e) => {
            let mut out = "policy response not understood: ".to_owned();
            out.append(e.as_str());
            Err(Denied { reason: out })
        },
        Ok(v) => {
            let allow = match extract_allow(&v) {
                Some(b) => b,
                None => false,
            };
            if allow {
                Ok(())
            } else {
                Err(Denied::new("denied by policy"))
            }
        },
    }
}

/// The decision on a response body.
pub fn decide(body: &str) -> (r: Result<(), Denied>)
    ensures
        decided(r) == decision(json_parse(body@)),
{
    decide_parsed(parse(body))
}

/// What a response of the endpoint is worth: its body if the status is one of
/// success, and else a failure that names the status as it is shown.
pub fn policy_answer(status: u16, shown: &str, body: String) -> (r: Result<String, String>)
    ensures
        match r {
            Ok(text) => 200 <= status < 300 && text == body,
            Err(e) => !(200 <= status < 300) && e@ == "policy endpoint returned status "@ + shown@,
        },
{
    if 200 <= status && status < 300 {
        Ok(body)
    } else {
        let mut out = "policy endpoint returned status ".to_owned();
        out.append(shown);
        Err(out)
    }
}

/// The decision on what came back from the endpoint: its response body, or why
/// there is none.
pub fn evaluate(reply: Result<String, String>) -> (r: Result<(), Denied>)
    ensures
        decided(r) == match reply {
            Ok(body) => decision(json_parse(body@)),
            Err(e) => Err::<(), Seq<char>>("policy endpoint unavailable: "@ + e@),
        },
{
    match reply {
        Ok(body) => decide(body.as_str()),
        Err(e) => {
            let mut out = "policy endpoint unavailable: ".to_owned();
            out.append(e.as_str());
            Err(Denied { reason: out })
        },
    }
}

/// Only a definite yes allows.
pub proof fn law_only_a_definite_yes_allows(read: Result<JsonTree, Seq<char>>)
    ensures
        decision(read) is Ok <==> (read matches Ok(doc) && allow_of(doc) == Some(true)),
{
}

/// A role, as policies see it.
pub open spec fn role_text(role: Role) -> Seq<char> {
    if role is ReadWrite {
        "read-write"@
    } else {
        "read-only"@
    }
}

/// The role of a principal, as policies see it.
pub fn role_str(principal: &Principal) -> (r: &'static str)
    ensures
        r@ == role_text(principal@.role),
{
    if principal.allows_write() {
        "read-write"
    } else {
        "read-only"
    }
}

/// The distinct operator names of a plan, sorted.
pub fn operator_names(plan: &PlanNode) -> (r: Vec<String>)
    ensures
        strictly_sorted(texts(r@)),
        forall|name: Seq<char>| texts(r@).contains(name) <==> plan.has_operator(name),
{
    let mut out: Vec<String> = Vec::new();
    collect_ops(plan, &mut out);
    out
}

/// Whether an operator of that name occurs in one of the first `n` plans.
spec fn named_in(plans: Seq<PlanNode>, n: int, name: Seq<char>) -> bool {
    exists|j: int| 0 <= j < n && (#[trigger] plans[j]).has_operator(name)
}

/// Adds the operator names of a plan to a sorted list of names.
fn collect_ops(plan: &PlanNode, out: &mut Vec<String>)
    requires
        strictly_sorted(texts(old(out)@)),
    ensures
        strictly_sorted(texts(final(out)@)),
        forall|name: Seq<char>|
            #![trigger texts(final(out)@).contains(name)]
            texts(final(out)@).contains(name) <==> texts(old(out)@).contains(name)
                || plan.has_operator(name),
    decreases plan,
{
    let ghost before = texts(out@);
    insert_sorted(out, plan.name.as_str());
    let mut i: usize = 0;
    while i < plan.children.len()
        invariant
            i <= plan.children@.len(),
            strictly_sorted(texts(out@)),
            forall|name: Seq<char>|
                #![trigger texts(out@).contains(name)]
                texts(out@).contains(name) <==> before.contains(name) || plan.name@ == name
                    || named_in(plan.children@, i as int, name),
        decreases plan.children.len() - i,
    {
        proof {
            assert(decreases_to!(*plan => plan.children));
            assert(decreases_to!(plan.children => plan.children@));
            assert(decreases_to!(plan.children@ => plan.children@[i as int]));
        }
        let ghost here = texts(out@);
        collect_ops(&plan.children[i], out);
        proof {
            assert forall|name: Seq<char>|
                #![trigger texts(out@).contains(name)]
                texts(out@).contains(name) <==> before.contains(name) || plan.name@ == name
                    || named_in(plan.children@, i + 1, name) by {
                assert(here.contains(name) <==> before.contains(name) || plan.name@ == name
                    || named_in(plan.children@, i as int, name));
                if plan.children@[i as int].has_operator(name) {
                    assert(named_in(plan.children@, i + 1, name));
                }
            }
        }
        i = i + 1;
    }
    proof {
        assert forall|name: Seq<char>|
            #![trigger texts(out@).contains(name)]
            texts(out@).contains(name) <==> before.contains(name) || plan.has_operator(name) by {
            assert(plan.has_operator(name) <==> plan.name@ == name || named_in(
                plan.children@,
                plan.children@.len() as int,
                name,
            ));
        }
    }
}

/// The members that every request document begins with.
pub open spec fn subject_members(p: PrincipalModel) -> Seq<(Seq<char>, JsonTree)> {
    seq![
        ("subject"@, JsonTree::Text(p.subject)),
        ("role"@, JsonTree::Text(role_text(p.role))),
        ("groups"@, text_array(p.groups)),
    ]
}

/// What a plan does, as policies see it.
pub open spec fn action_text(writes: bool) -> Seq<char> {
    if writes {
        "write"@
    } else {
        "read"@
    }
}

/// The members that every request document begins with.
fn subject_of(principal: &Principal) -> (r: Members)
    ensures
        r@ == subject_members(principal@),
{
    let r = Members::new().with_text("subject", principal.subject.as_str()).with_text(
        "role",
        role_str(principal),
    ).with("groups", Json::texts(&principal.groups));
    assert(r@ =~= subject_members(principal@));
    r
}

/// The document that describes a query: who asks, whether it writes, which
/// operators it uses, and which namespace it is for.
pub fn plan_input(principal: &Principal, writes: bool, plan: &PlanNode, namespace: &str) -> (r:
    Json)
    ensures
        exists|names: Seq<Seq<char>>|
            {
                &&& strictly_sorted(names)
                &&& (forall|name: Seq<char>|
                    #![trigger plan.has_operator(name)]
                    names.contains(name) <==> plan.has_operator(name))
                &&& #[trigger] plan_document(principal@, writes, names, namespace@) == r@
            },
{
    let names = operator_names(plan);
    let action = if writes {
        "write"
    } else {
        "read"
    };
    let out = subject_of(principal).with_text("action", action).with(
        "operators",
        Json::texts(&names),
    ).with_text("namespace", namespace);
    let ghost members = out@;
    let r = out.finish();
    proof {
        let doc = plan_document(principal@, writes, texts(names@), namespace@);
        assert(members =~= doc->Object_0);
    }
    r
}

/// The document that describes a query with these operators.
pub open spec fn plan_document(
    p: PrincipalModel,
    writes: bool,
    operators: Seq<Seq<char>>,
    namespace: Seq<char>,
) -> JsonTree {
    JsonTree::Object(
        subject_members(p) + seq![
            ("action"@, JsonTree::Text(action_text(writes))),
            ("operators"@, text_array(operators)),
            ("namespace"@, JsonTree::Text(namespace)),
        ],
    )
}

/// What a schema command is called and what it names.
pub open spec fn schema_members(op: SchemaOp) -> Seq<(Seq<char>, JsonTree)> {
    match op {
        SchemaOp::CreateVectorIndex { name, label, property } => seq![
            ("schema_op"@, JsonTree::Text("create_vector_index"@)),
            ("index_name"@, JsonTree::Text(name@)),
            ("label"@, JsonTree::Text(label@)),
            ("property"@, JsonTree::Text(property@)),
        ],
        SchemaOp::CreateFulltextIndex { name, label, properties } => seq![
            ("schema_op"@, JsonTree::Text("create_fulltext_index"@)),
            ("index_name"@, JsonTree::Text(name@)),
            ("label"@, JsonTree::Text(label@)),
            ("properties"@, text_array(texts(properties@))),
        ],
        SchemaOp::DropVectorIndex { name } => seq![
            ("schema_op"@, JsonTree::Text("drop_vector_index"@)),
            ("index_name"@, JsonTree::Text(name@)),
        ],
        SchemaOp::DropFulltextIndex { name } => seq![
            ("schema_op"@, JsonTree::Text("drop_fulltext_index"@)),
            ("index_name"@, JsonTree::Text(name@)),
        ],
        SchemaOp::CreateConstraint { label, properties } => seq![
            ("schema_op"@, JsonTree::Text("create_constraint"@)),
            ("label"@, JsonTree::Text(label@)),
            ("properties"@, text_array(texts(properties@))),
        ],
        SchemaOp::CreateIndex { label, property } => seq![
            ("schema_op"@, JsonTree::Text("create_index"@)),
            ("label"@, JsonTree::Text(label@)),
            ("property"@, JsonTree::Text(property@)),
        ],
    }
}

/// The document that describes a schema command and which namespace it is for.
pub fn schema_input(principal: &Principal, op: SchemaOp<'_>, namespace: &str) -> (r: Json)
    ensures
        r@ == schema_document(principal@, op, namespace@),
{
    let base = subject_of(principal).with_text("action", "schema");
    let ghost head = base@;
    let out = match op {
        SchemaOp::CreateVectorIndex { name, label, property } => base.with_text(
            "schema_op",
            "create_vector_index",
        ).with_text("index_name", name).with_text("label", label).with_text("property", property),
        SchemaOp::CreateFulltextIndex { name, label, properties } => base.with_text(
            "schema_op",
            "create_fulltext_index",
        ).with_text("index_name", name).with_text("label", label).with(
            "properties",
            Json::texts(properties),
        ),
        SchemaOp::DropVectorIndex { name } => base.with_text(
            "schema_op",
            "drop_vector_index",
        ).with_text("index_name", name),
        SchemaOp::DropFulltextIndex { name } => base.with_text(
            "schema_op",
            "drop_fulltext_index",
        ).with_text("index_name", name),
        SchemaOp::CreateConstraint { label, properties } => base.with_text(
            "schema_op",
            "create_constraint",
        ).with_text("label", label).with("properties", Json::texts(properties)),
        SchemaOp::CreateIndex { label, property } => base.with_text(
            "schema_op",
            "create_index",
        ).with_text("label", label).with_text("property", property),
    };
    assert(out@ =~= head + schema_members(op));
    out.with_text("namespace", namespace).finish()
}

/// The document that describes a query tells under each name what the policy is to
/// know: who asks, with which role and groups, whether it writes, which operators
/// it uses and which namespace it is for.
pub proof fn law_plan_document(
    p: PrincipalModel,
    writes: bool,
    operators: Seq<Seq<char>>,
    namespace: Seq<char>,
)
    ensures
        ({
            let doc = plan_document(p, writes, operators, namespace);
            &&& doc.field("subject"@) == Some(JsonTree::Text(p.subject))
            &&& p.role == Role::ReadWrite ==> doc.field("role"@) == Some(
                JsonTree::Text("read-write"@),
            )
            &&& p.role == Role::ReadOnly ==> doc.field("role"@) == Some(
                JsonTree::Text("read-only"@),
            )
            &&& doc.field("groups"@) == Some(text_array(p.groups))
            &&& writes ==> doc.field("action"@) == Some(JsonTree::Text("write"@))
            &&& !writes ==> doc.field("action"@) == Some(JsonTree::Text("read"@))
            &&& doc.field("operators"@) == Some(text_array(operators))
            &&& doc.field("namespace"@) == Some(JsonTree::Text(namespace))
        }),
{
    reveal_strlit("subject");
    reveal_strlit("role");
    reveal_strlit("groups");
    reveal_strlit("action");
    reveal_strlit("operators");
    reveal_strlit("namespace");
    assert("subject"@.len() != "role"@.len());
    assert("subject"@.len() != "groups"@.len());
    assert("role"@.len() != "groups"@.len());
    assert("subject"@.len() != "action"@.len());
    assert("role"@.len() != "action"@.len());
    assert("groups"@[0] != "action"@[0]);
    assert("subject"@.len() != "operators"@.len());
    assert("role"@.len() != "operators"@.len());
    assert("groups"@.len() != "operators"@.len());
    assert("action"@.len() != "operators"@.len());
    assert("subject"@.len() != "namespace"@.len());
    assert("role"@.len() != "namespace"@.len());
    assert("groups"@.len() != "namespace"@.len());
    assert("action"@.len() != "namespace"@.len());
    assert("operators"@[0] != "namespace"@[0]);
    let members = plan_document(p, writes, operators, namespace)->Object_0;
    assert(members[3].0 == "action"@ && members[4].0 == "operators"@);
    assert(members[5].0 == "namespace"@);
    crate::json::law_first_member_counts(members, 0);
    crate::json::law_first_member_counts(members, 1);
    crate::json::law_first_member_counts(members, 2);
    crate::json::law_first_member_counts(members, 3);
    crate::json::law_first_member_counts(members, 4);
    crate::json::law_first_member_counts(members, 5);
}

/// The document that describes a schema command.
pub open spec fn schema_document(
    p: PrincipalModel,
    op: SchemaOp,
    namespace: Seq<char>,
) -> JsonTree {
    JsonTree::Object(
        (subject_members(p).push(("action"@, JsonTree::Text("schema"@))) + schema_members(
            op,
        )).push(("namespace"@, JsonTree::Text(namespace))),
    )
}

/// The document that describes a schema command tells under each name what the
/// policy is to know: who asks, what the command is called, what it names, and
/// which namespace it is for.
#[verifier::rlimit(40)]
pub proof fn law_schema_document(p: PrincipalModel, op: SchemaOp, namespace: Seq<char>)
    ensures
        ({
            let doc = schema_document(p, op, namespace);
            let text = |s: &str| Some(JsonTree::Text(s@));
            &&& doc.field("subject"@) == Some(JsonTree::Text(p.subject))
            &&& p.role == Role::ReadWrite ==> doc.field("role"@) == text("read-write")
            &&& p.role == Role::ReadOnly ==> doc.field("role"@) == text("read-only")
            &&& doc.field("groups"@) == Some(text_array(p.groups))
            &&& doc.field("action"@) == text("schema")
            &&& doc.field("namespace"@) == Some(JsonTree::Text(namespace))
            &&& match op {
                SchemaOp::CreateVectorIndex { name, label, property } => {
                    &&& doc.field("schema_op"@) == text("create_vector_index")
                    &&& doc.field("index_name"@) == text(name)
                    &&& doc.field("label"@) == text(label)
                    &&& doc.field("property"@) == text(property)
                },
                SchemaOp::CreateFulltextIndex { name, label, properties } => {
                    &&& doc.field("schema_op"@) == text("create_fulltext_index")
                    &&& doc.field("index_name"@) == text(name)
                    &&& doc.field("label"@) == text(label)
                    &&& doc.field("properties"@) == Some(text_array(texts(properties@)))
                },
                SchemaOp::DropVectorIndex { name } => {
                    &&& doc.field("schema_op"@) == text("drop_vector_index")
                    &&& doc.field("index_name"@) == text(name)
                },
                SchemaOp::DropFulltextIndex { name } => {
                    &&& doc.field("schema_op"@) == text("drop_fulltext_index")
                    &&& doc.field("index_name"@) == text(name)
                },
                SchemaOp::CreateConstraint { label, properties } => {
                    &&& doc.field("schema_op"@) == text("create_constraint")
                    &&& doc.field("label"@) == text(label)
                    &&& doc.field("properties"@) == Some(text_array(texts(properties@)))
                },
                SchemaOp::CreateIndex { label, property } => {
                    &&& doc.field("schema_op"@) == text("create_index")
                    &&& doc.field("label"@) == text(label)
                    &&& doc.field("property"@) == text(property)
                },
            }
        }),
{
    reveal_strlit("subject");
    reveal_strlit("role");
    reveal_strlit("groups");
    reveal_strlit("action");
    reveal_strlit("schema_op");
    reveal_strlit("index_name");
    reveal_strlit("label");
    reveal_strlit("property");
    reveal_strlit("properties");
    reveal_strlit("namespace");
    assert("subject"@.len() != "role"@.len());
    assert("subject"@.len() != "groups"@.len());
    assert("role"@.len() != "groups"@.len());
    assert("subject"@.len() != "action"@.len());
    assert("role"@.len() != "action"@.len());
    assert("groups"@[0] != "action"@[0]);
    assert("subject"@.len() != "schema_op"@.len());
    assert("role"@.len() != "schema_op"@.len());
    assert("groups"@.len() != "schema_op"@.len());
    assert("action"@.len() != "schema_op"@.len());
    assert("subject"@.len() != "index_name"@.len());
    assert("role"@.len() != "index_name"@.len());
    assert("groups"@.len() != "index_name"@.len());
    assert("action"@.len() != "index_name"@.len());
    assert("schema_op"@.len() != "index_name"@.len());
    assert("subject"@.len() != "label"@.len());
    assert("role"@.len() != "label"@.len());
    assert("groups"@.len() != "label"@.len());
    assert("action"@.len() != "label"@.len());
    assert("schema_op"@.len() != "label"@.len());
    assert("index_name"@.len() != "label"@.len());
    assert("subject"@.len() != "property"@.len());
    assert("role"@.len() != "property"@.len());
    assert("groups"@.len() != "property"@.len());
    assert("action"@.len() != "property"@.len());
    assert("schema_op"@.len() != "property"@.len());
    assert("index_name"@.len() != "property"@.len());
    assert("label"@.len() != "property"@.len());
    assert("subject"@.len() != "properties"@.len());
    assert("role"@.len() != "properties"@.len());
    assert("groups"@.len() != "properties"@.len());
    assert("action"@.len() != "properties"@.len());
    assert("schema_op"@.len() != "properties"@.len());
    assert("index_name"@[0] != "properties"@[0]);
    assert("label"@.len() != "properties"@.len());
    assert("property"@.len() != "properties"@.len());
    assert("subject"@.len() != "namespace"@.len());
    assert("role"@.len() != "namespace"@.len());
    assert("groups"@.len() != "namespace"@.len());
    assert("action"@.len() != "namespace"@.len());
    assert("schema_op"@[0] != "namespace"@[0]);
    assert("index_name"@.len() != "namespace"@.len());
    assert("label"@.len() != "namespace"@.len());
    assert("property"@.len() != "namespace"@.len());
    assert("properties"@.len() != "namespace"@.len());
    let members = schema_document(p, op, namespace)->Object_0;
    let named = schema_members(op);
    assert(members.len() == named.len() + 5);
    assert(members[0].0 == "subject"@ && members[1].0 == "role"@ && members[2].0 == "groups"@);
    assert(members[3].0 == "action"@ && members[4] == named[0] && members[5] == named[1]);
    if named.len() > 2 {
        assert(members[6] == named[2]);
    }
    if named.len() > 3 {
        assert(members[7] == named[3]);
    }
    assert(members[named.len() + 4int].0 == "namespace"@);
    crate::json::law_first_member_counts(members, 0);
    crate::json::law_first_member_counts(members, 1);
    crate::json::law_first_member_counts(members, 2);
    crate::json::law_first_member_counts(members, 3);
    crate::json::law_first_member_counts(members, 4);
    crate::json::law_first_member_counts(members, 5);
    if named.len() > 2 {
        crate::json::law_first_member_counts(members, 6);
    }
    if named.len() > 3 {
        crate::json::law_first_member_counts(members, 7);
    }
    crate::json::law_first_member_counts(members, 4 + named.len() as int);
}

/// A decision is read alike in every shape that it may come in: bare, under
/// `allow`, or either of these under any number of `result`s. What stands beside
/// it does not count, and what is no truth value decides nothing.
pub proof fn law_decision_shapes(allowed: bool, doc: JsonTree, rest: Seq<(Seq<char>, JsonTree)>)
    ensures
        allow_of(JsonTree::Bool(allowed)) == Some(allowed),
        allow_of(JsonTree::Object(seq![("allow"@, JsonTree::Bool(allowed))])) == Some(allowed),
        allow_of(JsonTree::Object(seq![("result"@, doc)] + rest)) == allow_of(doc),
        allow_of(JsonTree::Object(Seq::empty())) is None,
        !(doc is Bool) ==> allow_of(JsonTree::Object(seq![("allow"@, doc)])) is None,
        doc is Null || doc is Text || doc is Integer || doc is Float || doc is Array ==> allow_of(
            doc,
        ) is None,
{
    reveal_strlit("allow");
    reveal_strlit("result");
    assert("allow"@.len() != "result"@.len());
    let wrapped = seq![("result"@, doc)] + rest;
    crate::json::law_first_member_counts(wrapped, 0);
    let bare = seq![("allow"@, JsonTree::Bool(allowed))];
    crate::json::law_first_member_counts(bare, 0);
    assert(bare.skip(1).len() == 0);
    assert(member(bare, "result"@) is None) by {
        reveal_with_fuel(member, 2);
    }
    let odd = seq![("allow"@, doc)];
    crate::json::law_first_member_counts(odd, 0);
    assert(odd.skip(1).len() == 0);
    assert(member(odd, "result"@) is None) by {
        reveal_with_fuel(member, 2);
    }
    assert(member(Seq::<(Seq<char>, JsonTree)>::empty(), "result"@) is None);
    assert(member(Seq::<(Seq<char>, JsonTree)>::empty(), "allow"@) is None);
}

/// What is posted to a policy endpoint: the document under `input`.
pub fn policy_request(input: Json) -> (r: Json)
    ensures
        r@ == JsonTree::Object(seq![("input"@, input@)]),
{
    let ghost inner = input@;
    let out = Members::new().with("input", input);
    assert(out@ =~= seq![("input"@, inner)]);
    out.finish()
}

/// A policy that an endpoint decides.
#[derive(Debug, Clone)]
pub struct OpaAuthz {
    endpoint: String,
}

impl OpaAuthz {
    /// The policy at `endpoint`, the full address of its decisions.
    pub fn new(endpoint: &str) -> (r: OpaAuthz)
        ensures
            r.address() == endpoint@,
    {
        OpaAuthz { endpoint: endpoint.to_owned() }
    }

    /// The full address of the decisions.
    pub closed spec fn address(self) -> Seq<char> {
        self.endpoint@
    }

    /// The full address of the decisions.
    pub fn endpoint(&self) -> (r: &str)
        ensures
            r@ == self.address(),
    {
        self.endpoint.as_str()
    }
}

} // verus!
