//! Pre-execution authorization.
//!
//! After a query is planned, and before it takes the writer or executes, a
//! policy may refuse it by who asks and by what the plan does. Schema commands
//! have no plan and are put to the policy as what they are.

use vstd::prelude::*;

use crate::auth::Principal;
use crate::plan::PlanNode;

verus! {

/// A refusal, with its reason.
#[derive(Debug, Clone)]
pub struct Denied {
    pub reason: String,
}

impl Denied {
    /// A refusal for a reason.
    pub fn new(reason: &str) -> (r: Denied)
        ensures
            r.reason@ == reason@,
    {
        Denied { reason: reason.to_owned() }
    }

    /// What the caller is told.
    pub open spec fn message(reason: Seq<char>) -> Seq<char> {
        "authorization denied: "@ + reason
    }

    /// What the caller is told.
    pub fn to_text(&self) -> (out: String)
        ensures
            out@ == Denied::message(self.reason@),
    {
        let mut out = "authorization denied: ".to_owned();
        out.append(self.reason.as_str());
        out
    }
}

/// A schema command as a policy sees it.
#[derive(Debug, Clone, Copy)]
pub enum SchemaOp<'a> {
    CreateVectorIndex { name: &'a str, label: &'a str, property: &'a str },
    CreateFulltextIndex { name: &'a str, label: &'a str, properties: &'a Vec<String> },
    DropVectorIndex { name: &'a str },
    DropFulltextIndex { name: &'a str },
    CreateConstraint { label: &'a str, properties: &'a Vec<String> },
    CreateIndex { label: &'a str, property: &'a str },
}

/// A policy that decides on the spot.
pub trait AuthzHook {
    /// Whether the principal may run the plan.
    fn check(&self, principal: &Principal, plan: &PlanNode) -> Result<(), Denied>;

    /// Whether the principal may run the schema command. A policy that has no say
    /// in that allows it.
    fn check_schema(&self, principal: &Principal, op: SchemaOp<'_>) -> (r: Result<(), Denied>)
        default_ensures
            r is Ok,
    {
        Ok(())
    }
}

/// The policy that refuses nothing.
#[derive(Debug, Clone)]
pub struct NoOpAuthz;

impl AuthzHook for NoOpAuthz {
    fn check(&self, principal: &Principal, plan: &PlanNode) -> (r: Result<(), Denied>)
        ensures
            r is Ok,
    {
        Ok(())
    }
}

} // verus!
