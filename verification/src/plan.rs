//! Query plans, as far as the serving paths look into them.

use vstd::prelude::*;

use crate::text::{decimal, lines, lines_of, push_decimal, texts};

verus! {

/// An index lookup in a plan, and how far posting sidecars cover it.
pub struct IndexLookup {
    /// Empty for a lookup over every label.
    pub label: String,
    pub property: String,
    /// The value is a number literal.
    pub numeric: bool,
    /// The index is a posting index; otherwise it is a unique one.
    pub multi: bool,
    /// SSTs in scope whose posting sidecar is there.
    pub covered: u64,
    /// SSTs in scope.
    pub total: u64,
}

/// What an operator is, where it matters.
pub enum PlanOperator {
    /// Scans a whole label.
    NodeScan,
    /// Looks a property value up.
    Lookup(IndexLookup),
    Other,
}

/// One operator of a plan and its inputs.
pub struct PlanNode {
    pub name: String,
    pub operator: PlanOperator,
    pub children: Vec<PlanNode>,
}

impl PlanNode {
    /// Whether a whole label is scanned anywhere in the plan.
    pub open spec fn scans(self) -> bool
        decreases self,
    {
        self.operator is NodeScan || exists|i: int|
            0 <= i < self.children@.len() && (#[trigger] self.children@[i]).scans()
    }

    /// Whether an operator of that name occurs anywhere in the plan.
    pub open spec fn has_operator(self, name: Seq<char>) -> bool
        decreases self,
    {
        self.name@ == name || exists|i: int|
            0 <= i < self.children@.len() && (#[trigger] self.children@[i]).has_operator(name)
    }

    /// The lookups of the plan, an operator before its inputs.
    pub open spec fn lookups(self) -> Seq<IndexLookup>
        decreases self, 1nat,
    {
        own_lookup(self.operator) + child_lookups(self.children@, self.children@.len())
    }
}

/// The lookup that an operator is, if it is one.
pub open spec fn own_lookup(operator: PlanOperator) -> Seq<IndexLookup> {
    match operator {
        PlanOperator::Lookup(l) => seq![l],
        _ => Seq::empty(),
    }
}

/// The lookups of the first `n` plans.
pub open spec fn child_lookups(children: Seq<PlanNode>, n: nat) -> Seq<IndexLookup>
    decreases children, n,
{
    if n == 0 || n > children.len() {
        Seq::empty()
    } else {
        child_lookups(children, (n - 1) as nat) + children[n - 1].lookups()
    }
}

/// Whether the plan scans a whole label anywhere: the sort of query that the
/// scan gate meters.
pub fn plan_contains_node_scan(plan: &PlanNode) -> (r: bool)
    ensures
        r == plan.scans(),
    decreases plan,
{
    match plan.operator {
        PlanOperator::NodeScan => {
            return true;
        },
        _ => {},
    }
    let mut i: usize = 0;
    while i < plan.children.len()
        invariant
            i <= plan.children@.len(),
            !(plan.operator is NodeScan),
            forall|j: int| 0 <= j < i ==> !(#[trigger] plan.children@[j]).scans(),
        decreases plan.children.len() - i,
    {
        proof {
            assert(decreases_to!(*plan => plan.children));
            assert(decreases_to!(plan.children => plan.children@));
            assert(decreases_to!(plan.children@ => plan.children@[i as int]));
        }
        if plan_contains_node_scan(&plan.children[i]) {
            return true;
        }
        i = i + 1;
    }
    false
}

/// The note on how one lookup is served: posting coverage decides between index
/// and scan, and numbers are not posting-indexed at all.
pub open spec fn route_note(l: IndexLookup) -> Seq<char> {
    let shown = if l.label@.len() == 0 {
        "*"@
    } else {
        l.label@
    };
    let kind = if l.multi {
        "posting"@
    } else {
        "unique"@
    };
    let head = "# route: "@ + shown + "."@ + l.property@;
    if l.numeric {
        head + " → scan (numeric equality is not posting-indexed; only String/Bool are)"@
    } else if l.total == 0 {
        head + " → memtable ("@ + kind + " lookup; no SSTs in scope)"@
    } else if l.covered == l.total {
        head + " → index ("@ + kind + " lookup; posting sidecars "@ + decimal(l.covered as nat)
            + "/"@ + decimal(l.total as nat) + " SSTs)"@
    } else {
        head + " → SCAN FALLBACK (posting sidecars "@ + decimal(l.covered as nat) + "/"@ + decimal(
            l.total as nat,
        ) + " SSTs; a compaction pass materializes the rest)"@
    }
}

/// The notes of a list of lookups.
pub open spec fn route_notes(lookups: Seq<IndexLookup>) -> Seq<Seq<char>> {
    lookups.map_values(|l: IndexLookup| route_note(l))
}

/// The note on how one lookup is served.
fn note_of(l: &IndexLookup) -> (out: String)
    ensures
        out@ == route_note(*l),
{
    let mut out = "# route: ".to_owned();
    if l.label.as_str().is_empty() {
        out.append("*");
    } else {
        out.append(l.label.as_str());
    }
    out.append(".");
    out.append(l.property.as_str());
    let kind = if l.multi {
        "posting"
    } else {
        "unique"
    };
    if l.numeric {
        out.append(" → scan (numeric equality is not posting-indexed; only String/Bool are)");
    } else if l.total == 0 {
        out.append(" → memtable (");
        out.append(kind);
        out.append(" lookup; no SSTs in scope)");
    } else if l.covered == l.total {
        out.append(" → index (");
        out.append(kind);
        out.append(" lookup; posting sidecars ");
        push_decimal(&mut out, l.covered);
        out.append("/");
        push_decimal(&mut out, l.total);
        out.append(" SSTs)");
    } else {
        out.append(" → SCAN FALLBACK (posting sidecars ");
        push_decimal(&mut out, l.covered);
        out.append("/");
        push_decimal(&mut out, l.total);
        out.append(" SSTs; a compaction pass materializes the rest)");
    }
    out
}

/// Appends one note per lookup of the plan.
pub fn collect_route_notes(plan: &PlanNode, out: &mut Vec<String>)
    ensures
        texts(final(out)@) == texts(old(out)@) + route_notes(plan.lookups()),
    decreases plan,
{
    let ghost before = texts(out@);
    let ghost own = own_lookup(plan.operator);
    match &plan.operator {
        PlanOperator::Lookup(l) => {
            let note = note_of(l);
            let ghost shown = note@;
            out.push(note);
            assert(texts(out@) =~= before + route_notes(own));
        },
        _ => {
            assert(texts(out@) =~= before + route_notes(own));
        },
    }
    let mut i: usize = 0;
    assert(own + child_lookups(plan.children@, 0) =~= own);
    while i < plan.children.len()
        invariant
            i <= plan.children@.len(),
            texts(out@) == before + route_notes(own + child_lookups(plan.children@, i as nat)),
        decreases plan.children.len() - i,
    {
        proof {
            assert(decreases_to!(*plan => plan.children));
            assert(decreases_to!(plan.children => plan.children@));
            assert(decreases_to!(plan.children@ => plan.children@[i as int]));
        }
        let ghost here = own + child_lookups(plan.children@, i as nat);
        collect_route_notes(&plan.children[i], out);
        proof {
            let added = plan.children@[i as int].lookups();
            assert(own + child_lookups(plan.children@, (i + 1) as nat) =~= here + added);
            assert(before + route_notes(here) + route_notes(added) =~= before + route_notes(
                here + added,
            ));
        }
        i = i + 1;
    }
}

/// A plan scans if any part of it scans, uses the operators of all of its parts,
/// and looks up what all of its parts look up, an operator before its inputs.
pub proof fn law_plans_answer_for_their_parts(plan: PlanNode, i: int, name: Seq<char>, k: int)
    requires
        0 <= i < plan.children@.len(),
    ensures
        plan.operator is NodeScan ==> plan.scans(),
        plan.children@[i].scans() ==> plan.scans(),
        plan.has_operator(plan.name@),
        plan.children@[i].has_operator(name) ==> plan.has_operator(name),
        plan.operator matches PlanOperator::Lookup(l) ==> plan.lookups().len() > 0
            && plan.lookups()[0] == l,
        0 <= k < plan.children@[i].lookups().len() ==> plan.lookups().contains(
            plan.children@[i].lookups()[k],
        ),
{
    if 0 <= k < plan.children@[i].lookups().len() {
        let l = plan.children@[i].lookups()[k];
        lemma_child_lookups(plan.children@, plan.children@.len(), i, k);
        let inputs = child_lookups(plan.children@, plan.children@.len());
        let j = choose|j: int| 0 <= j < inputs.len() && inputs[j] == l;
        assert(plan.lookups()[own_lookup(plan.operator).len() + j] == l);
    }
}

proof fn lemma_child_lookups(children: Seq<PlanNode>, n: nat, i: int, k: int)
    requires
        0 <= i < n <= children.len(),
        0 <= k < children[i].lookups().len(),
    ensures
        child_lookups(children, n).contains(children[i].lookups()[k]),
    decreases n,
{
    let before = child_lookups(children, (n - 1) as nat);
    let here = children[n - 1].lookups();
    let l = children[i].lookups()[k];
    if i == n - 1 {
        assert((before + here)[before.len() + k] == l);
    } else {
        lemma_child_lookups(children, (n - 1) as nat, i, k);
        let j = choose|j: int| 0 <= j < before.len() && before[j] == l;
        assert((before + here)[j] == l);
    }
}

/// A plan whose operators neither scan nor have parts that scan does not scan, and
/// a plan of one operator looks up what that operator does, and nothing else.
pub proof fn law_leaves_answer_for_themselves(plan: PlanNode, name: Seq<char>)
    requires
        plan.children@.len() == 0,
    ensures
        plan.scans() <==> plan.operator is NodeScan,
        plan.has_operator(name) <==> plan.name@ == name,
        plan.lookups().len() == if plan.operator is Lookup {
            1int
        } else {
            0
        },
{
}

/// The note on a lookup begins with the label and the property, in that order, and
/// tells by its first word how the lookup is served: a number is scanned for; what
/// has no table in scope is found in memory; with every sidecar there the index
/// serves it; and otherwise it falls back to a scan.
pub proof fn law_route_is_told(l: IndexLookup)
    requires
        l.label@.len() > 0,
    ensures
        ({
            let head = "# route: "@ + l.label@ + "."@ + l.property@;
            let note = route_note(l);
            let told = note.skip(head.len() as int);
            &&& note.len() > head.len() + 3
            &&& note.take(head.len() as int) == head
            &&& told[3] == 's' <==> l.numeric
            &&& told[3] == 'm' <==> !l.numeric && l.total == 0
            &&& told[3] == 'i' <==> !l.numeric && l.total > 0 && l.covered == l.total
            &&& told[3] == 'S' <==> !l.numeric && l.total > 0 && l.covered != l.total
        }),
{
    let head = "# route: "@ + l.label@ + "."@ + l.property@;
    let note = route_note(l);
    reveal_strlit(" → scan (numeric equality is not posting-indexed; only String/Bool are)");
    reveal_strlit(" → memtable (");
    reveal_strlit(" → index (");
    reveal_strlit(" → SCAN FALLBACK (posting sidecars ");
    assert(note.take(head.len() as int) =~= head);
    assert(note.skip(head.len() as int)[3] == note[head.len() + 3int]);
    if l.numeric {
        assert(note[head.len() + 3int]
            == " → scan (numeric equality is not posting-indexed; only String/Bool are)"@[3]);
    } else if l.total == 0 {
        assert(note[head.len() + 3int] == " → memtable ("@[3]);
    } else if l.covered == l.total {
        assert(note[head.len() + 3int] == " → index ("@[3]);
    } else {
        assert(note[head.len() + 3int] == " → SCAN FALLBACK (posting sidecars "@[3]);
    }
}

/// The note on a lookup that an index could serve says `posting` where several
/// nodes may match and `unique` where one may, and the note on one that falls back
/// says how many of how many tables have their sidecar.
pub proof fn law_route_details(l: IndexLookup)
    requires
        l.label@.len() > 0,
        !l.numeric,
    ensures
        ({
            let head = "# route: "@ + l.label@ + "."@ + l.property@;
            let told = route_note(l).skip(head.len() as int);
            &&& l.total == 0 ==> (told[13] == 'p' <==> l.multi) && (told[13] == 'u' <==> !l.multi)
            &&& l.total > 0 && l.covered == l.total ==> (told[10] == 'p' <==> l.multi) && (told[10]
                == 'u' <==> !l.multi)
            &&& l.total > 0 && l.covered != l.total ==> told.skip(35).take(
                (decimal(l.covered as nat).len() + 1 + decimal(l.total as nat).len()) as int,
            ) == decimal(l.covered as nat).push('/') + decimal(l.total as nat)
        }),
{
    let head = "# route: "@ + l.label@ + "."@ + l.property@;
    let note = route_note(l);
    let told = note.skip(head.len() as int);
    reveal_strlit(" → memtable (");
    reveal_strlit(" → index (");
    reveal_strlit(" → SCAN FALLBACK (posting sidecars ");
    reveal_strlit("posting");
    reveal_strlit("unique");
    reveal_strlit("/");
    let kind = if l.multi {
        "posting"@
    } else {
        "unique"@
    };
    if l.total == 0 {
        assert(told[13] == note[head.len() + 13int]);
        assert(note[head.len() + 13int] == kind[0]);
    } else if l.covered == l.total {
        assert(told[10] == note[head.len() + 10int]);
        assert(note[head.len() + 10int] == kind[0]);
    } else {
        let counts = decimal(l.covered as nat).push('/') + decimal(l.total as nat);
        assert(decimal(l.covered as nat) + "/"@ + decimal(l.total as nat) =~= counts);
        assert(told.skip(35).take(counts.len() as int) =~= counts);
    }
}

/// Which rendering an `EXPLAIN` asks for.
#[derive(Debug, Clone, Copy, PartialEq, Eq, Structural)]
pub enum ExplainMode {
    /// The plan that the optimizer made.
    Plain,
    /// The same, with estimates.
    Verbose,
    /// The plan as it stood before optimization.
    Raw,
    /// The same, with estimates.
    RawVerbose,
}

impl ExplainMode {
    /// The rendering that the flags of a statement ask for.
    pub open spec fn of(raw: bool, verbose: bool) -> ExplainMode {
        if raw && verbose {
            ExplainMode::RawVerbose
        } else if raw {
            ExplainMode::Raw
        } else if verbose {
            ExplainMode::Verbose
        } else {
            ExplainMode::Plain
        }
    }

    /// Whether the plan is shown as it stood before optimization.
    pub open spec fn raw(self) -> bool {
        self is Raw || self is RawVerbose
    }

    /// The rendering that the flags of a statement ask for.
    pub fn asked(raw: bool, verbose: bool) -> (r: ExplainMode)
        ensures
            r == ExplainMode::of(raw, verbose),
            r.raw() == raw,
    {
        match (raw, verbose) {
            (true, true) => ExplainMode::RawVerbose,
            (true, false) => ExplainMode::Raw,
            (false, true) => ExplainMode::Verbose,
            (false, false) => ExplainMode::Plain,
        }
    }

    /// Whether the plan is shown as it stood before optimization.
    pub fn is_raw(self) -> (r: bool)
        ensures
            r == self.raw(),
    {
        match self {
            ExplainMode::Raw | ExplainMode::RawVerbose => true,
            _ => false,
        }
    }
}

/// Each flag of a statement shows in the rendering that it asks for, whatever the
/// other is.
pub proof fn law_explain_flags(raw: bool, verbose: bool)
    ensures
        ExplainMode::of(raw, verbose).raw() == raw,
        (ExplainMode::of(raw, verbose) is Verbose || ExplainMode::of(raw, verbose) is RawVerbose)
            == verbose,
        (ExplainMode::of(raw, verbose) is Raw || ExplainMode::of(raw, verbose) is RawVerbose)
            == raw,
{
}

/// The text of a rendering, or what stands in its place when it failed.
pub open spec fn shown_text(rendered: Result<String, String>) -> Seq<char> {
    match rendered {
        Ok(text) => text@,
        Err(e) => "explain error: "@ + e@,
    }
}

/// The lines of an explained plan: what was rendered, and below it the route of
/// every lookup, unless the plan was asked for as it stood before optimization.
pub fn explain_plan_lines(rendered: Result<String, String>, mode: ExplainMode, plan: &PlanNode) -> (r:
    Vec<String>)
    ensures
        texts(r@) == lines(shown_text(rendered)) + if mode.raw() {
            Seq::empty()
        } else {
            route_notes(plan.lookups())
        },
{
    let text = match rendered {
        Ok(text) => text,
        Err(e) => {
            let mut out = "explain error: ".to_owned();
            out.append(e.as_str());
            out
        },
    };
    let mut out = lines_of(text.as_str());
    if !mode.is_raw() {
        collect_route_notes(plan, &mut out);
    } else {
        assert(lines(text@) + Seq::<Seq<char>>::empty() =~= lines(text@));
    }
    out
}

} // verus!
