//! Certificate-based verification of compiled workflows.
//!
//! Two verification APIs:
//! - `VerificationResult::analyze`: eight structural and semantic certificates
//!   for the verification screen.
//! - `verify_workflow`: eight focused pass/fail pre-flight checks run before a
//!   workflow is admitted.
use vstd::prelude::*;
use crate::seqs::{count_where, join, lemma_count_where_take, lemma_take_full, lemma_count_where_update};
use crate::text::{decimal, decimal_string, push_decimal, join_strings, views};
use crate::workflow::{CompiledNode, CompiledNodeKind, StepIdx, WorkflowParts, successors_of, kind_targets, opt_seq, branch_targets, ChooseBranch};
use crate::taint_overlay::{TaintOverlayResult, TaintPathSegment, TaintPathStatus};

verus! {

/// Outcome of a single certificate check.
#[derive(Debug, Clone, PartialEq, Eq)]
pub enum CertificateStatus {
    /// Check passed.
    Pass,
    /// Check failed with a reason.
    Fail(String),
    /// Check passed with a warning.
    Warn(String),
}

/// A single verification certificate.
#[derive(Debug, Clone)]
pub struct Certificate {
    /// Which certificate kind was checked.
    pub kind: CertificateKind,
    /// Outcome of the check.
    pub status: CertificateStatus,
    /// Human-readable summary.
    pub details: String,
}

/// Kinds of verification certificates.
#[derive(Debug, Clone, Copy, PartialEq, Eq, Structural)]
pub enum CertificateKind {
    StructuralValidity,
    Boundedness,
    ResourceBounds,
    TaintFlow,
    ActionPolicy,
    StrictDurability,
    Reachability,
    LoopNesting,
}

/// Full verification result for a workflow.
#[derive(Debug, Clone)]
pub struct VerificationResult {
    pub certificates: Vec<Certificate>,
    pub total_checks: usize,
    pub pass_count: usize,
    pub fail_count: usize,
    pub warn_count: usize,
}

/// Status of a single pre-flight verification check.
#[derive(Debug, Clone, Copy, PartialEq, Eq, Structural)]
pub enum CheckStatus {
    Pass,
    Fail,
    Warn,
}

/// One pre-flight verification check result.
#[derive(Debug, Clone)]
pub struct CertificateCheck {
    pub name: &'static str,
    pub status: CheckStatus,
    pub detail: String,
}

/// Aggregate report of all pre-flight verification checks.
#[derive(Debug, Clone)]
pub struct VerificationReport {
    pub checks: Vec<CertificateCheck>,
    /// True when no check is Fail.
    pub all_pass: bool,
    /// The worst status across all checks.
    pub worst_risk: CheckStatus,
}

// ---------------------------------------------------------------------------
// Models
// ---------------------------------------------------------------------------

/// A certificate outcome as a tag and its message (empty for a pass).
pub open spec fn status_model(s: CertificateStatus) -> (CheckStatus, Seq<char>) {
    match s {
        CertificateStatus::Pass => (CheckStatus::Pass, Seq::empty()),
        CertificateStatus::Fail(m) => (CheckStatus::Fail, m@),
        CertificateStatus::Warn(m) => (CheckStatus::Warn, m@),
    }
}

/// The expected content of a certificate: status tag, status message and details.
pub struct CertModel {
    pub tag: CheckStatus,
    pub message: Seq<char>,
    pub details: Seq<char>,
}

pub open spec fn cm(tag: CheckStatus, message: Seq<char>, details: Seq<char>) -> CertModel {
    CertModel { tag, message, details }
}

pub open spec fn cert_is(c: Certificate, kind: CertificateKind, m: CertModel) -> bool {
    &&& c.kind == kind
    &&& status_model(c.status) == (m.tag, m.message)
    &&& c.details@ == m.details
}

/// The expected content of a pre-flight check: status and detail.
pub open spec fn check_is(c: CertificateCheck, name: Seq<char>, status: CheckStatus, detail: Seq<char>) -> bool {
    &&& c.name@ == name
    &&& c.status == status
    &&& c.detail@ == detail
}

/// Severity order used to merge statuses: Pass < Warn < Fail.
pub open spec fn severity(s: CheckStatus) -> int {
    match s {
        CheckStatus::Pass => 0,
        CheckStatus::Warn => 1,
        CheckStatus::Fail => 2,
    }
}

pub open spec fn worst_of(a: CheckStatus, b: CheckStatus) -> CheckStatus {
    if severity(a) >= severity(b) { a } else { b }
}

/// Decimal rendering of an unsigned machine integer.
pub open spec fn dec(n: int) -> Seq<char> {
    decimal(n as nat)
}

/// The node count clamped to the `u16` range, as the bound checks compare it.
pub open spec fn clamped_node_count(parts: WorkflowParts) -> int {
    if parts.nodes@.len() > 65535 { 65535 } else { parts.nodes@.len() as int }
}

pub open spec fn id_mismatch_at(nodes: Seq<CompiledNode>, i: int) -> bool {
    0 <= i < nodes.len() && nodes[i].id.0 != i && forall|j: int| 0 <= j < i ==> nodes[j].id.0 == j
}

/// The first position whose node id differs from the position.
pub open spec fn first_id_mismatch(nodes: Seq<CompiledNode>) -> int {
    choose|i: int| id_mismatch_at(nodes, i)
}

pub open spec fn all_ids_match(nodes: Seq<CompiledNode>) -> bool {
    forall|i: int| 0 <= i < nodes.len() ==> nodes[i].id.0 == i
}

// ---------------------------------------------------------------------------
// Small builders
// ---------------------------------------------------------------------------

/// `a` followed by the decimal rendering of `n`.
fn lit_num(a: &str, n: u64) -> (s: String)
    ensures
        s@ == a@ + decimal(n as nat),
{
    let mut s = String::from_str(a);
    push_decimal(&mut s, n);
    s
}

/// `a`, `n`, `b`, `m`.
fn lit_num_lit_num(a: &str, n: u64, b: &str, m: u64) -> (s: String)
    ensures
        s@ == a@ + decimal(n as nat) + b@ + decimal(m as nat),
{
    let mut s = lit_num(a, n);
    s.append(b);
    push_decimal(&mut s, m);
    s
}

/// Scans for the first node whose id differs from its position.
fn find_id_mismatch(nodes: &Vec<CompiledNode>) -> (r: Option<usize>)
    ensures
        match r {
            Some(i) => id_mismatch_at(nodes@, i as int) && first_id_mismatch(nodes@) == i as int,
            None => all_ids_match(nodes@),
        },
{
    let mut i: usize = 0;
    while i < nodes.len()
        invariant
            i <= nodes.len(),
            forall|j: int| 0 <= j < i ==> nodes@[j].id.0 == j,
        decreases nodes.len() - i,
    {
        if nodes[i].id.0 as usize != i {
            proof {
                assert(id_mismatch_at(nodes@, i as int));
                let k = first_id_mismatch(nodes@);
                assert(id_mismatch_at(nodes@, k));
                if k < i {
                } else if k > i {
                    assert(nodes@[i as int].id.0 == i);
                }
            }
            return Some(i);
        }
        i += 1;
    }
    None
}

impl CheckStatus {
    /// Returns the worst of two statuses (Fail > Warn > Pass).
    pub fn merge_worst(self, other: Self) -> (r: Self)
        ensures
            r == worst_of(self, other),
    {
        match (self, other) {
            (Self::Fail, _) | (_, Self::Fail) => Self::Fail,
            (Self::Warn, _) | (_, Self::Warn) => Self::Warn,
            (Self::Pass, Self::Pass) => Self::Pass,
        }
    }
}

// ---------------------------------------------------------------------------
// Certificate 1: Structural validity
// ---------------------------------------------------------------------------

pub open spec fn structural_validity_model(parts: WorkflowParts) -> CertModel {
    let n = parts.nodes@.len() as int;
    if n == 0 {
        cm(CheckStatus::Fail, "node array is empty"@, "A workflow must contain at least one node."@)
    } else if parts.entry.0 >= n {
        cm(CheckStatus::Fail,
            "entry step "@ + dec(parts.entry.0 as int) + " exceeds node count "@ + dec(n),
            "Entry step must reference a valid node index."@)
    } else if !all_ids_match(parts.nodes@) {
        let i = first_id_mismatch(parts.nodes@);
        cm(CheckStatus::Fail,
            "node at position "@ + dec(i) + " has id "@ + dec(parts.nodes@[i].id.0 as int),
            "Every node id must equal its position in the node array."@)
    } else {
        cm(CheckStatus::Pass, Seq::empty(),
            "All "@ + dec(n) + " nodes valid, entry "@ + dec(parts.entry.0 as int) + " in bounds"@)
    }
}

fn check_structural_validity(parts: &WorkflowParts) -> (c: Certificate)
    ensures
        cert_is(c, CertificateKind::StructuralValidity, structural_validity_model(*parts)),
{
    if parts.nodes.len() == 0 {
        return Certificate {
            kind: CertificateKind::StructuralValidity,
            status: CertificateStatus::Fail(String::from_str("node array is empty")),
            details: String::from_str("A workflow must contain at least one node."),
        };
    }
    let node_count = parts.nodes.len();
    if parts.entry.as_usize() >= node_count {
        return Certificate {
            kind: CertificateKind::StructuralValidity,
            status: CertificateStatus::Fail(lit_num_lit_num("entry step ", parts.entry.get() as u64, " exceeds node count ", node_count as u64)),
            details: String::from_str("Entry step must reference a valid node index."),
        };
    }
    match find_id_mismatch(&parts.nodes) {
        Some(index) => {
            return Certificate {
                kind: CertificateKind::StructuralValidity,
                status: CertificateStatus::Fail(lit_num_lit_num("node at position ", index as u64, " has id ", parts.nodes[index].id.get() as u64)),
                details: String::from_str("Every node id must equal its position in the node array."),
            };
        }
        None => {}
    }
    let mut details = lit_num_lit_num("All ", node_count as u64, " nodes valid, entry ", parts.entry.get() as u64);
    details.append(" in bounds");
    Certificate { kind: CertificateKind::StructuralValidity, status: CertificateStatus::Pass, details }
}

/// A single issue message when `b` holds, nothing otherwise.
pub open spec fn piece_if(b: bool, m: Seq<char>) -> Seq<Seq<char>> {
    if b { seq![m] } else { Seq::empty() }
}

/// Pushes `m` onto `issues` when `b` holds.
fn push_if(issues: &mut Vec<String>, b: bool, m: String)
    ensures
        views(final(issues)@) == views(old(issues)@) + piece_if(b, m@),
{
    let ghost before = issues@;
    if b {
        issues.push(m);
        assert(views(issues@) =~= views(before) + piece_if(b, m@));
    } else {
        assert(views(issues@) =~= views(before) + piece_if(b, m@));
    }
}

// ---------------------------------------------------------------------------
// Pre-flight check 1: Structural validity
// ---------------------------------------------------------------------------

pub open spec fn preflight_structural_model(parts: WorkflowParts) -> (CheckStatus, Seq<char>) {
    let n = parts.nodes@.len() as int;
    if n == 0 {
        (CheckStatus::Fail, "node array is empty"@)
    } else if parts.entry.0 >= n {
        (CheckStatus::Fail, "entry step "@ + dec(parts.entry.0 as int) + " exceeds node count "@ + dec(n))
    } else if !all_ids_match(parts.nodes@) {
        let i = first_id_mismatch(parts.nodes@);
        (CheckStatus::Fail, "node at position "@ + dec(i) + " has id "@ + dec(parts.nodes@[i].id.0 as int) + " (mismatch)"@)
    } else {
        (CheckStatus::Pass, "all "@ + dec(n) + " nodes valid, entry "@ + dec(parts.entry.0 as int) + " in bounds"@)
    }
}

fn check_preflight_structural_validity(parts: &WorkflowParts) -> (c: CertificateCheck)
    ensures
        check_is(c, "structural_validity"@, preflight_structural_model(*parts).0, preflight_structural_model(*parts).1),
{
    if parts.nodes.len() == 0 {
        return CertificateCheck { name: "structural_validity", status: CheckStatus::Fail, detail: String::from_str("node array is empty") };
    }
    let node_count = parts.nodes.len();
    if parts.entry.as_usize() >= node_count {
        return CertificateCheck {
            name: "structural_validity",
            status: CheckStatus::Fail,
            detail: lit_num_lit_num("entry step ", parts.entry.get() as u64, " exceeds node count ", node_count as u64),
        };
    }
    match find_id_mismatch(&parts.nodes) {
        Some(index) => {
            let mut detail = lit_num_lit_num("node at position ", index as u64, " has id ", parts.nodes[index].id.get() as u64);
            detail.append(" (mismatch)");
            return CertificateCheck { name: "structural_validity", status: CheckStatus::Fail, detail };
        }
        None => {}
    }
    let mut detail = lit_num_lit_num("all ", node_count as u64, " nodes valid, entry ", parts.entry.get() as u64);
    detail.append(" in bounds");
    CertificateCheck { name: "structural_validity", status: CheckStatus::Pass, detail }
}

/// The node count clamped to `u16::MAX`.
fn clamp_node_count(parts: &WorkflowParts) -> (r: u16)
    ensures
        r as int == clamped_node_count(*parts),
{
    if parts.nodes.len() > 65535 { 65535 } else { parts.nodes.len() as u16 }
}

// ---------------------------------------------------------------------------
// Pre-flight check 2: Bounded transitions
// ---------------------------------------------------------------------------

pub open spec fn bounded_transitions_model(parts: WorkflowParts) -> (CheckStatus, Seq<char>) {
    let c = parts.resource_contract;
    if c.max_steps == 0 {
        (CheckStatus::Fail, "max_steps is zero in resource contract"@)
    } else if c.max_slots == 0 {
        (CheckStatus::Fail, "max_slots is zero in resource contract"@)
    } else if c.max_step_budget_per_tick == 0 {
        (CheckStatus::Fail, "max_step_budget_per_tick is zero"@)
    } else if clamped_node_count(parts) > c.max_steps {
        (CheckStatus::Fail, "node count ("@ + dec(parts.nodes@.len() as int) + ") exceeds max_steps ("@ + dec(c.max_steps as int) + ")"@)
    } else {
        (CheckStatus::Pass, "max_steps="@ + dec(c.max_steps as int) + ", max_slots="@ + dec(c.max_slots as int)
            + ", budget_per_tick="@ + dec(c.max_step_budget_per_tick as int))
    }
}

/// "max_steps=.., max_slots=.., budget_per_tick=.."
fn contract_bounds_text(parts: &WorkflowParts) -> (s: String)
    ensures
        s@ == "max_steps="@ + dec(parts.resource_contract.max_steps as int) + ", max_slots="@
            + dec(parts.resource_contract.max_slots as int) + ", budget_per_tick="@
            + dec(parts.resource_contract.max_step_budget_per_tick as int),
{
    let c = parts.resource_contract;
    let mut s = lit_num_lit_num("max_steps=", c.max_steps as u64, ", max_slots=", c.max_slots as u64);
    s.append(", budget_per_tick=");
    push_decimal(&mut s, c.max_step_budget_per_tick);
    s
}

/// "node count (N) exceeds max_steps (M)"
fn node_count_exceeds_text(parts: &WorkflowParts) -> (s: String)
    ensures
        s@ == "node count ("@ + dec(parts.nodes@.len() as int) + ") exceeds max_steps ("@
            + dec(parts.resource_contract.max_steps as int) + ")"@,
{
    let mut s = lit_num_lit_num("node count (", parts.nodes.len() as u64, ") exceeds max_steps (", parts.resource_contract.max_steps as u64);
    s.append(")");
    s
}

fn check_preflight_bounded_transitions(parts: &WorkflowParts) -> (c: CertificateCheck)
    ensures
        check_is(c, "bounded_transitions"@, bounded_transitions_model(*parts).0, bounded_transitions_model(*parts).1),
{
    let contract = parts.resource_contract;
    if contract.max_steps == 0 {
        return CertificateCheck { name: "bounded_transitions", status: CheckStatus::Fail, detail: String::from_str("max_steps is zero in resource contract") };
    }
    if contract.max_slots == 0 {
        return CertificateCheck { name: "bounded_transitions", status: CheckStatus::Fail, detail: String::from_str("max_slots is zero in resource contract") };
    }
    if contract.max_step_budget_per_tick == 0 {
        return CertificateCheck { name: "bounded_transitions", status: CheckStatus::Fail, detail: String::from_str("max_step_budget_per_tick is zero") };
    }
    let node_count = clamp_node_count(parts);
    if node_count > contract.max_steps {
        return CertificateCheck { name: "bounded_transitions", status: CheckStatus::Fail, detail: node_count_exceeds_text(parts) };
    }
    CertificateCheck { name: "bounded_transitions", status: CheckStatus::Pass, detail: contract_bounds_text(parts) }
}

// ---------------------------------------------------------------------------
// Certificate 2: Boundedness
// ---------------------------------------------------------------------------

pub open spec fn boundedness_issues(parts: WorkflowParts) -> Seq<Seq<char>> {
    let c = parts.resource_contract;
    piece_if(c.max_steps == 0, "max_steps is zero"@)
        + piece_if(c.max_slots == 0, "max_slots is zero"@)
        + piece_if(c.max_step_budget_per_tick == 0, "max_step_budget_per_tick is zero"@)
        + piece_if(clamped_node_count(parts) > c.max_steps,
            "node count ("@ + dec(parts.nodes@.len() as int) + ") exceeds max_steps ("@ + dec(c.max_steps as int) + ")"@)
}

pub open spec fn boundedness_model(parts: WorkflowParts) -> CertModel {
    let c = parts.resource_contract;
    let issues = boundedness_issues(parts);
    if issues.len() == 0 {
        cm(CheckStatus::Pass, Seq::empty(), "max_steps="@ + dec(c.max_steps as int) + ", max_slots="@
            + dec(c.max_slots as int) + ", budget_per_tick="@ + dec(c.max_step_budget_per_tick as int))
    } else {
        cm(CheckStatus::Fail, join(issues, "; "@), "Resource contract boundedness checks failed."@)
    }
}

fn check_boundedness(parts: &WorkflowParts) -> (c: Certificate)
    ensures
        cert_is(c, CertificateKind::Boundedness, boundedness_model(*parts)),
{
    let contract = parts.resource_contract;
    let mut issues: Vec<String> = Vec::new();
    push_if(&mut issues, contract.max_steps == 0, String::from_str("max_steps is zero"));
    push_if(&mut issues, contract.max_slots == 0, String::from_str("max_slots is zero"));
    push_if(&mut issues, contract.max_step_budget_per_tick == 0, String::from_str("max_step_budget_per_tick is zero"));
    let node_count = clamp_node_count(parts);
    push_if(&mut issues, node_count > contract.max_steps, node_count_exceeds_text(parts));
    assert(views(issues@) =~= boundedness_issues(*parts));
    if issues.len() == 0 {
        Certificate { kind: CertificateKind::Boundedness, status: CertificateStatus::Pass, details: contract_bounds_text(parts) }
    } else {
        Certificate {
            kind: CertificateKind::Boundedness,
            status: CertificateStatus::Fail(join_strings(&issues, "; ")),
            details: String::from_str("Resource contract boundedness checks failed."),
        }
    }
}

// ---------------------------------------------------------------------------
// Certificate 3: Resource bounds
// ---------------------------------------------------------------------------

pub open spec fn resource_bounds_issues(parts: WorkflowParts) -> Seq<Seq<char>> {
    let c = parts.resource_contract;
    piece_if(parts.slot_count > c.max_slots,
            "slot_count ("@ + dec(parts.slot_count as int) + ") exceeds max_slots ("@ + dec(c.max_slots as int) + ")"@)
        + piece_if(parts.expression_count > c.max_expressions,
            "expressions ("@ + dec(parts.expression_count as int) + ") exceeds max_expressions ("@ + dec(c.max_expressions as int) + ")"@)
        + piece_if(parts.accessor_count > c.max_accessors,
            "accessors ("@ + dec(parts.accessor_count as int) + ") exceeds max_accessors ("@ + dec(c.max_accessors as int) + ")"@)
        + piece_if(parts.constant_count > c.max_constants,
            "constants ("@ + dec(parts.constant_count as int) + ") exceeds max_constants ("@ + dec(c.max_constants as int) + ")"@)
}

pub open spec fn resource_bounds_model(parts: WorkflowParts) -> CertModel {
    let issues = resource_bounds_issues(parts);
    if issues.len() == 0 {
        cm(CheckStatus::Pass, Seq::empty(), "slots="@ + dec(parts.slot_count as int) + ", expressions="@
            + dec(parts.expression_count as int) + ", accessors="@ + dec(parts.accessor_count as int)
            + ", constants="@ + dec(parts.constant_count as int))
    } else {
        cm(CheckStatus::Fail, join(issues, "; "@), "Resource budget exceeded."@)
    }
}

/// "<a> (<n>) exceeds <b> (<m>)"
fn exceeds_text(a: &str, n: u64, b: &str, m: u64) -> (s: String)
    ensures
        s@ == a@ + " ("@ + decimal(n as nat) + ") exceeds "@ + b@ + " ("@ + decimal(m as nat) + ")"@,
{
    let mut s = String::from_str(a);
    s.append(" (");
    push_decimal(&mut s, n);
    s.append(") exceeds ");
    s.append(b);
    s.append(" (");
    push_decimal(&mut s, m);
    s.append(")");
    s
}

fn check_resource_bounds(parts: &WorkflowParts) -> (c: Certificate)
    ensures
        cert_is(c, CertificateKind::ResourceBounds, resource_bounds_model(*parts)),
{
    let contract = parts.resource_contract;
    let mut issues: Vec<String> = Vec::new();
    proof {
        reveal_strlit("slot_count");
        reveal_strlit("max_slots");
        reveal_strlit("expressions");
        reveal_strlit("max_expressions");
        reveal_strlit("accessors");
        reveal_strlit("max_accessors");
        reveal_strlit("constants");
        reveal_strlit("max_constants");
        reveal_strlit(" (");
        reveal_strlit(") exceeds ");
        reveal_strlit(")");
        reveal_strlit("slot_count (");
        reveal_strlit(") exceeds max_slots (");
        reveal_strlit("expressions (");
        reveal_strlit(") exceeds max_expressions (");
        reveal_strlit("accessors (");
        reveal_strlit(") exceeds max_accessors (");
        reveal_strlit("constants (");
        reveal_strlit(") exceeds max_constants (");
    }
    let m1 = exceeds_text("slot_count", parts.slot_count as u64, "max_slots", contract.max_slots as u64);
    assert(m1@ =~= "slot_count ("@ + dec(parts.slot_count as int) + ") exceeds max_slots ("@ + dec(contract.max_slots as int) + ")"@);
    push_if(&mut issues, parts.slot_count > contract.max_slots, m1);
    let m2 = exceeds_text("expressions", parts.expression_count as u64, "max_expressions", contract.max_expressions as u64);
    assert(m2@ =~= "expressions ("@ + dec(parts.expression_count as int) + ") exceeds max_expressions ("@ + dec(contract.max_expressions as int) + ")"@);
    push_if(&mut issues, parts.expression_count > contract.max_expressions as usize, m2);
    let m3 = exceeds_text("accessors", parts.accessor_count as u64, "max_accessors", contract.max_accessors as u64);
    assert(m3@ =~= "accessors ("@ + dec(parts.accessor_count as int) + ") exceeds max_accessors ("@ + dec(contract.max_accessors as int) + ")"@);
    push_if(&mut issues, parts.accessor_count > contract.max_accessors as usize, m3);
    let m4 = exceeds_text("constants", parts.constant_count as u64, "max_constants", contract.max_constants as u64);
    assert(m4@ =~= "constants ("@ + dec(parts.constant_count as int) + ") exceeds max_constants ("@ + dec(contract.max_constants as int) + ")"@);
    push_if(&mut issues, parts.constant_count > contract.max_constants as usize, m4);
    assert(views(issues@) =~= resource_bounds_issues(*parts));
    if issues.len() == 0 {
        let mut details = lit_num_lit_num("slots=", parts.slot_count as u64, ", expressions=", parts.expression_count as u64);
        details.append(", accessors=");
        push_decimal(&mut details, parts.accessor_count as u64);
        details.append(", constants=");
        push_decimal(&mut details, parts.constant_count as u64);
        Certificate { kind: CertificateKind::ResourceBounds, status: CertificateStatus::Pass, details }
    } else {
        Certificate {
            kind: CertificateKind::ResourceBounds,
            status: CertificateStatus::Fail(join_strings(&issues, "; ")),
            details: String::from_str("Resource budget exceeded."),
        }
    }
}

// ---------------------------------------------------------------------------
// Certificate 4: Taint flow
// ---------------------------------------------------------------------------

pub open spec fn step_label(s: StepIdx) -> Seq<char> {
    "step "@ + dec(s.0 as int)
}

/// "step a, step b, ..." for the given steps.
pub open spec fn step_labels(steps: Seq<StepIdx>) -> Seq<char> {
    join(steps.map_values(|s: StepIdx| step_label(s)), ", "@)
}

pub open spec fn is_dangerous(seg: TaintPathSegment) -> bool {
    seg.status == TaintPathStatus::Dangerous
}

pub open spec fn is_warning(seg: TaintPathSegment) -> bool {
    seg.status == TaintPathStatus::Warning
}

pub open spec fn dangerous_count(o: TaintOverlayResult) -> nat {
    count_where(o.paths@, |seg: TaintPathSegment| is_dangerous(seg))
}

pub open spec fn warning_count(o: TaintOverlayResult) -> nat {
    count_where(o.paths@, |seg: TaintPathSegment| is_warning(seg))
}

/// Some dangerous segment lands directly on a sink.
pub open spec fn has_direct_sink_segment(o: TaintOverlayResult) -> bool {
    exists|i: int| 0 <= i < o.paths@.len() && is_dangerous(#[trigger] o.paths@[i]) && o.sinks@.contains(o.paths@[i].to)
}

/// Some dangerous segment ends at a step that is not a sink.
pub open spec fn has_indirect_segment(o: TaintOverlayResult) -> bool {
    exists|i: int| 0 <= i < o.paths@.len() && is_dangerous(#[trigger] o.paths@[i]) && !o.sinks@.contains(o.paths@[i].to)
}

pub open spec fn taint_flow_model(o: TaintOverlayResult) -> CertModel {
    let labels = step_labels(o.sources@);
    let ns = dec(o.sources@.len() as int);
    let nk = dec(o.sinks@.len() as int);
    if o.sources@.len() == 0 {
        cm(CheckStatus::Pass, Seq::empty(), "No secret source nodes (WaitEvent/Ask) found in workflow."@)
    } else if !o.finish_safe {
        if has_indirect_segment(o) {
            cm(CheckStatus::Fail,
                "secret value from "@ + labels + " flows to Finish node through intermediate nodes"@,
                "Indirect taint propagation: "@ + ns + " source(s), "@ + dec(dangerous_count(o) as int)
                    + " dangerous path segment(s), "@ + nk + " sink(s)"@)
        } else if has_direct_sink_segment(o) {
            cm(CheckStatus::Fail,
                "secret value from "@ + labels + " flows directly to Finish node"@,
                "Direct taint: "@ + ns + " source(s), "@ + nk + " sink(s)"@)
        } else {
            cm(CheckStatus::Fail,
                "secret value from "@ + labels + " reaches Finish node"@,
                ns + " source(s), "@ + dec(o.paths@.len() as int) + " path segment(s), "@ + nk + " sink(s)"@)
        }
    } else if warning_count(o) == 0 {
        cm(CheckStatus::Warn,
            "secret source(s) at "@ + labels + " have no outgoing propagation paths"@,
            ns + " secret source node(s) present but isolated; no taint propagation detected"@)
    } else {
        cm(CheckStatus::Warn,
            "secret value from "@ + labels + " propagates to "@ + dec(warning_count(o) as int)
                + " non-Finish node(s) but does not reach Finish"@,
            "Indirect/uncertain propagation: "@ + ns + " source(s), "@ + dec(warning_count(o) as int)
                + " warning segment(s), "@ + nk + " sink(s)"@)
    }
}

/// Renders "step a, step b, ..." for the given steps.
fn step_labels_text(steps: &Vec<StepIdx>) -> (s: String)
    ensures
        s@ == step_labels(steps@),
{
    let ghost pieces = steps@.map_values(|st: StepIdx| step_label(st));
    let mut s = String::new();
    let mut i: usize = 0;
    while i < steps.len()
        invariant
            i <= steps.len(),
            pieces == steps@.map_values(|st: StepIdx| step_label(st)),
            s@ == join(pieces.take(i as int), ", "@),
        decreases steps.len() - i,
    {
        proof {
            assert(pieces.take(i + 1).drop_last() =~= pieces.take(i as int));
        }
        if i > 0 {
            s.append(", ");
        }
        s.append("step ");
        push_decimal(&mut s, steps[i].get() as u64);
        i += 1;
    }
    proof {
        assert(pieces.take(steps.len() as int) =~= pieces);
    }
    s
}

/// Whether `steps` contains `x`.
pub(crate) fn contains_step(steps: &Vec<StepIdx>, x: StepIdx) -> (r: bool)
    ensures
        r == steps@.contains(x),
{
    let mut i: usize = 0;
    while i < steps.len()
        invariant
            i <= steps.len(),
            forall|j: int| 0 <= j < i ==> steps@[j] != x,
        decreases steps.len() - i,
    {
        if steps[i].0 == x.0 {
            assert(steps@[i as int] == x);
            return true;
        }
        i += 1;
    }
    false
}

/// Summary of the overlay's propagation segments.
struct SegmentScan {
    dangerous: usize,
    warning: usize,
    direct: bool,
    indirect: bool,
}

fn scan_segments(o: &TaintOverlayResult) -> (r: SegmentScan)
    ensures
        r.dangerous == dangerous_count(*o),
        r.warning == warning_count(*o),
        r.direct == has_direct_sink_segment(*o),
        r.indirect == has_indirect_segment(*o),
{
    let ghost pd = |seg: TaintPathSegment| is_dangerous(seg);
    let ghost pw = |seg: TaintPathSegment| is_warning(seg);
    let mut r = SegmentScan { dangerous: 0, warning: 0, direct: false, indirect: false };
    let mut i: usize = 0;
    while i < o.paths.len()
        invariant
            i <= o.paths.len(),
            r.dangerous == count_where(o.paths@.take(i as int), pd),
            r.warning == count_where(o.paths@.take(i as int), pw),
            pd == (|seg: TaintPathSegment| is_dangerous(seg)),
            pw == (|seg: TaintPathSegment| is_warning(seg)),
            r.dangerous <= i,
            r.warning <= i,
            r.direct == exists|j: int| 0 <= j < i && is_dangerous(#[trigger] o.paths@[j]) && o.sinks@.contains(o.paths@[j].to),
            r.indirect == exists|j: int| 0 <= j < i && is_dangerous(#[trigger] o.paths@[j]) && !o.sinks@.contains(o.paths@[j].to),
        decreases o.paths.len() - i,
    {
        proof {
            lemma_count_where_take(o.paths@, pd, i as int);
            lemma_count_where_take(o.paths@, pw, i as int);
            assert(pd(o.paths@[i as int]) == is_dangerous(o.paths@[i as int]));
            assert(pw(o.paths@[i as int]) == is_warning(o.paths@[i as int]));
        }
        let seg = o.paths[i];
        match seg.status {
            TaintPathStatus::Dangerous => {
                r.dangerous = r.dangerous + 1;
                let on_sink = contains_step(&o.sinks, seg.to);
                if on_sink {
                    r.direct = true;
                } else {
                    r.indirect = true;
                }
            }
            TaintPathStatus::Warning => {
                r.warning = r.warning + 1;
            }
        }
        i += 1;
    }
    proof {
        lemma_take_full(o.paths@);
    }
    r
}

/// "<ns> source(s), <n> <what>, <nk> sink(s)" pieces are assembled by the caller.
fn check_taint_flow(overlay: &TaintOverlayResult) -> (c: Certificate)
    ensures
        cert_is(c, CertificateKind::TaintFlow, taint_flow_model(*overlay)),
{
    if overlay.sources.len() == 0 {
        return Certificate {
            kind: CertificateKind::TaintFlow,
            status: CertificateStatus::Pass,
            details: String::from_str("No secret source nodes (WaitEvent/Ask) found in workflow."),
        };
    }
    let labels = step_labels_text(&overlay.sources);
    let scan = scan_segments(overlay);
    let ns = overlay.sources.len() as u64;
    let nk = overlay.sinks.len() as u64;
    if !overlay.finish_safe {
        if scan.indirect {
            let mut msg = String::from_str("secret value from ");
            msg.append(labels.as_str());
            msg.append(" flows to Finish node through intermediate nodes");
            let mut details = lit_num_lit_num("Indirect taint propagation: ", ns, " source(s), ", scan.dangerous as u64);
            details.append(" dangerous path segment(s), ");
            push_decimal(&mut details, nk);
            details.append(" sink(s)");
            Certificate { kind: CertificateKind::TaintFlow, status: CertificateStatus::Fail(msg), details }
        } else if scan.direct {
            let mut msg = String::from_str("secret value from ");
            msg.append(labels.as_str());
            msg.append(" flows directly to Finish node");
            let mut details = lit_num_lit_num("Direct taint: ", ns, " source(s), ", nk);
            details.append(" sink(s)");
            Certificate { kind: CertificateKind::TaintFlow, status: CertificateStatus::Fail(msg), details }
        } else {
            let mut msg = String::from_str("secret value from ");
            msg.append(labels.as_str());
            msg.append(" reaches Finish node");
            let mut details = decimal_string(ns);
            details.append(" source(s), ");
            push_decimal(&mut details, overlay.paths.len() as u64);
            details.append(" path segment(s), ");
            push_decimal(&mut details, nk);
            details.append(" sink(s)");
            Certificate { kind: CertificateKind::TaintFlow, status: CertificateStatus::Fail(msg), details }
        }
    } else if scan.warning == 0 {
        let mut msg = String::from_str("secret source(s) at ");
        msg.append(labels.as_str());
        msg.append(" have no outgoing propagation paths");
        let mut details = decimal_string(ns);
        details.append(" secret source node(s) present but isolated; no taint propagation detected");
        Certificate { kind: CertificateKind::TaintFlow, status: CertificateStatus::Warn(msg), details }
    } else {
        let mut msg = String::from_str("secret value from ");
        msg.append(labels.as_str());
        msg.append(" propagates to ");
        push_decimal(&mut msg, scan.warning as u64);
        msg.append(" non-Finish node(s) but does not reach Finish");
        let mut details = lit_num_lit_num("Indirect/uncertain propagation: ", ns, " source(s), ", scan.warning as u64);
        details.append(" warning segment(s), ");
        push_decimal(&mut details, nk);
        details.append(" sink(s)");
        Certificate { kind: CertificateKind::TaintFlow, status: CertificateStatus::Warn(msg), details }
    }
}

// ---------------------------------------------------------------------------
// Pre-flight check 3: Secret-to-result leak
// ---------------------------------------------------------------------------

pub open spec fn secret_leak_model(o: TaintOverlayResult) -> (CheckStatus, Seq<char>) {
    if o.sources@.len() == 0 {
        (CheckStatus::Pass, "no secret source nodes found in workflow"@)
    } else if !o.finish_safe {
        (CheckStatus::Fail, "secret value from "@ + step_labels(o.sources@) + " reaches Finish node"@)
    } else {
        (CheckStatus::Warn, dec(o.sources@.len() as int) + " secret source(s) present but contained ("@
            + dec(warning_count(o) as int) + " warning propagation path(s))"@)
    }
}

fn check_preflight_secret_to_result_leak(overlay: &TaintOverlayResult) -> (c: CertificateCheck)
    ensures
        check_is(c, "secret_to_result_leak"@, secret_leak_model(*overlay).0, secret_leak_model(*overlay).1),
{
    if overlay.sources.len() == 0 {
        return CertificateCheck { name: "secret_to_result_leak", status: CheckStatus::Pass, detail: String::from_str("no secret source nodes found in workflow") };
    }
    if !overlay.finish_safe {
        let mut detail = String::from_str("secret value from ");
        let labels = step_labels_text(&overlay.sources);
        detail.append(labels.as_str());
        detail.append(" reaches Finish node");
        return CertificateCheck { name: "secret_to_result_leak", status: CheckStatus::Fail, detail };
    }
    let scan = scan_segments(overlay);
    let mut detail = decimal_string(overlay.sources.len() as u64);
    detail.append(" secret source(s) present but contained (");
    push_decimal(&mut detail, scan.warning as u64);
    detail.append(" warning propagation path(s))");
    CertificateCheck { name: "secret_to_result_leak", status: CheckStatus::Warn, detail }
}

// ---------------------------------------------------------------------------
// Node censuses shared by several checks
// ---------------------------------------------------------------------------

pub open spec fn n_do(nodes: Seq<CompiledNode>) -> nat {
    count_where(nodes, |n: CompiledNode| n.kind is Do)
}

pub open spec fn n_do_with_on_error(nodes: Seq<CompiledNode>) -> nat {
    count_where(nodes, |n: CompiledNode| n.kind is Do && n.on_error is Some)
}

pub open spec fn n_finish(nodes: Seq<CompiledNode>) -> nat {
    count_where(nodes, |n: CompiledNode| n.kind is Finish)
}

pub open spec fn n_error_handler(nodes: Seq<CompiledNode>) -> nat {
    count_where(nodes, |n: CompiledNode| n.kind is ErrorHandler)
}

pub open spec fn n_on_error(nodes: Seq<CompiledNode>) -> nat {
    count_where(nodes, |n: CompiledNode| n.on_error is Some)
}

pub open spec fn n_retry_check(nodes: Seq<CompiledNode>) -> nat {
    count_where(nodes, |n: CompiledNode| n.kind is RetryCheck)
}

/// Retry policies: RetryCheck nodes and RepeatStart nodes (a repeat is a form of retry).
pub open spec fn n_retry_policy(nodes: Seq<CompiledNode>) -> nat {
    count_where(nodes, |n: CompiledNode| n.kind is RetryCheck || n.kind is RepeatStart)
}

/// Counts of the node classes the policy and durability checks read.
pub struct NodeCensus {
    pub do_total: usize,
    pub do_with_on_error: usize,
    pub finish: usize,
    pub error_handler: usize,
    pub on_error: usize,
    pub retry_check: usize,
    pub retry_policy: usize,
}

pub open spec fn census_of(nodes: Seq<CompiledNode>, c: NodeCensus) -> bool {
    &&& c.do_total == n_do(nodes)
    &&& c.do_with_on_error == n_do_with_on_error(nodes)
    &&& c.finish == n_finish(nodes)
    &&& c.error_handler == n_error_handler(nodes)
    &&& c.on_error == n_on_error(nodes)
    &&& c.retry_check == n_retry_check(nodes)
    &&& c.retry_policy == n_retry_policy(nodes)
}

fn node_census(nodes: &Vec<CompiledNode>) -> (c: NodeCensus)
    ensures
        census_of(nodes@, c),
{
    let ghost p1 = |n: CompiledNode| n.kind is Do;
    let ghost p2 = |n: CompiledNode| n.kind is Do && n.on_error is Some;
    let ghost p3 = |n: CompiledNode| n.kind is Finish;
    let ghost p4 = |n: CompiledNode| n.kind is ErrorHandler;
    let ghost p5 = |n: CompiledNode| n.on_error is Some;
    let ghost p6 = |n: CompiledNode| n.kind is RetryCheck;
    let ghost p7 = |n: CompiledNode| n.kind is RetryCheck || n.kind is RepeatStart;
    let mut c = NodeCensus { do_total: 0, do_with_on_error: 0, finish: 0, error_handler: 0, on_error: 0, retry_check: 0, retry_policy: 0 };
    let mut i: usize = 0;
    while i < nodes.len()
        invariant
            i <= nodes.len(),
            p1 == (|n: CompiledNode| n.kind is Do),
            p2 == (|n: CompiledNode| n.kind is Do && n.on_error is Some),
            p3 == (|n: CompiledNode| n.kind is Finish),
            p4 == (|n: CompiledNode| n.kind is ErrorHandler),
            p5 == (|n: CompiledNode| n.on_error is Some),
            p6 == (|n: CompiledNode| n.kind is RetryCheck),
            p7 == (|n: CompiledNode| n.kind is RetryCheck || n.kind is RepeatStart),
            c.do_total == count_where(nodes@.take(i as int), p1),
            c.do_with_on_error == count_where(nodes@.take(i as int), p2),
            c.finish == count_where(nodes@.take(i as int), p3),
            c.error_handler == count_where(nodes@.take(i as int), p4),
            c.on_error == count_where(nodes@.take(i as int), p5),
            c.retry_check == count_where(nodes@.take(i as int), p6),
            c.retry_policy == count_where(nodes@.take(i as int), p7),
            c.do_total <= i, c.do_with_on_error <= i, c.finish <= i, c.error_handler <= i,
            c.on_error <= i, c.retry_check <= i, c.retry_policy <= i,
        decreases nodes.len() - i,
    {
        proof {
            lemma_count_where_take(nodes@, p1, i as int);
            lemma_count_where_take(nodes@, p2, i as int);
            lemma_count_where_take(nodes@, p3, i as int);
            lemma_count_where_take(nodes@, p4, i as int);
            lemma_count_where_take(nodes@, p5, i as int);
            lemma_count_where_take(nodes@, p6, i as int);
            lemma_count_where_take(nodes@, p7, i as int);
        }
        let node = &nodes[i];
        let has_on_error = node.on_error.is_some();
        match &node.kind {
            CompiledNodeKind::Do { .. } => {
                c.do_total = c.do_total + 1;
                if has_on_error {
                    c.do_with_on_error = c.do_with_on_error + 1;
                }
            }
            CompiledNodeKind::Finish { .. } => {
                c.finish = c.finish + 1;
            }
            CompiledNodeKind::ErrorHandler { .. } => {
                c.error_handler = c.error_handler + 1;
            }
            CompiledNodeKind::RetryCheck { .. } => {
                c.retry_check = c.retry_check + 1;
                c.retry_policy = c.retry_policy + 1;
            }
            CompiledNodeKind::RepeatStart { .. } => {
                c.retry_policy = c.retry_policy + 1;
            }
            _ => {}
        }
        if has_on_error {
            c.on_error = c.on_error + 1;
        }
        i += 1;
    }
    proof {
        lemma_take_full(nodes@);
    }
    c
}

// ---------------------------------------------------------------------------
// Certificate 5: Action policy
// ---------------------------------------------------------------------------

/// The message for a Do node whose action id is zero.
pub open spec fn zero_action_message(n: CompiledNode) -> Option<Seq<char>> {
    match n.kind {
        CompiledNodeKind::Do { action, .. } => if action.0 == 0 {
            Some("step "@ + dec(n.id.0 as int) + " has action_id 0"@)
        } else {
            None
        },
        _ => None,
    }
}

pub open spec fn action_policy_issues(nodes: Seq<CompiledNode>) -> Seq<Seq<char>> {
    let retry = n_retry_policy(nodes);
    nodes.filter_map(|n: CompiledNode| zero_action_message(n))
        + piece_if(n_do(nodes) > 0 && retry == 0 && n_error_handler(nodes) == 0,
            dec(n_do(nodes) as int) + " Do nodes found but no retry policies or error handlers"@)
}

pub open spec fn action_policy_model(parts: WorkflowParts) -> CertModel {
    let nodes = parts.nodes@;
    let issues = action_policy_issues(nodes);
    if issues.len() == 0 {
        cm(CheckStatus::Pass, Seq::empty(), dec(n_do(nodes) as int) + " actions, "@
            + dec(n_retry_policy(nodes) as int) + " retry policies, "@
            + dec(n_error_handler(nodes) as int) + " error handlers"@)
    } else {
        cm(CheckStatus::Warn, join(issues, "; "@), "Action policy review completed with warnings."@)
    }
}

fn zero_action_messages(nodes: &Vec<CompiledNode>) -> (v: Vec<String>)
    ensures
        views(v@) == nodes@.filter_map(|n: CompiledNode| zero_action_message(n)),
{
    let ghost f = |n: CompiledNode| zero_action_message(n);
    let mut v: Vec<String> = Vec::new();
    let mut i: usize = 0;
    while i < nodes.len()
        invariant
            i <= nodes.len(),
            f == (|n: CompiledNode| zero_action_message(n)),
            views(v@) == nodes@.take(i as int).filter_map(f),
        decreases nodes.len() - i,
    {
        proof {
            nodes@.lemma_filter_map_take_succ(f, i as int);
        }
        let ghost before = v@;
        match &nodes[i].kind {
            CompiledNodeKind::Do { action, .. } => {
                if action.0 == 0 {
                    let mut m = lit_num("step ", nodes[i].id.get() as u64);
                    m.append(" has action_id 0");
                    v.push(m);
                    assert(views(v@) =~= views(before).push(m@));
                }
            }
            _ => {}
        }
        i += 1;
    }
    proof {
        lemma_take_full(nodes@);
    }
    v
}

fn check_action_policy(parts: &WorkflowParts) -> (c: Certificate)
    ensures
        cert_is(c, CertificateKind::ActionPolicy, action_policy_model(*parts)),
{
    let census = node_census(&parts.nodes);
    let mut issues = zero_action_messages(&parts.nodes);
    let retry_count = census.retry_policy;
    let mut w = decimal_string(census.do_total as u64);
    w.append(" Do nodes found but no retry policies or error handlers");
    push_if(&mut issues, census.do_total > 0 && retry_count == 0 && census.error_handler == 0, w);
    assert(views(issues@) =~= action_policy_issues(parts.nodes@));
    if issues.len() == 0 {
        let mut details = lit_num_lit_num("", census.do_total as u64, " actions, ", retry_count as u64);
        proof { reveal_strlit(""); }
        details.append(" retry policies, ");
        push_decimal(&mut details, census.error_handler as u64);
        details.append(" error handlers");
        Certificate { kind: CertificateKind::ActionPolicy, status: CertificateStatus::Pass, details }
    } else {
        Certificate {
            kind: CertificateKind::ActionPolicy,
            status: CertificateStatus::Warn(join_strings(&issues, "; ")),
            details: String::from_str("Action policy review completed with warnings."),
        }
    }
}

// ---------------------------------------------------------------------------
// Certificate 6: Strict durability
// ---------------------------------------------------------------------------

pub open spec fn strict_durability_issues(nodes: Seq<CompiledNode>) -> Seq<Seq<char>> {
    piece_if(n_finish(nodes) > 1, dec(n_finish(nodes) as int) + " Finish nodes found (expected 1)"@)
        + piece_if(n_error_handler(nodes) == 0 && n_on_error(nodes) == 0, "no error handlers or on_error directives found"@)
}

pub open spec fn strict_durability_model(parts: WorkflowParts) -> CertModel {
    let nodes = parts.nodes@;
    if n_finish(nodes) == 0 {
        cm(CheckStatus::Fail, "no Finish node found"@, "Workflow must have at least one Finish node to produce a result."@)
    } else if strict_durability_issues(nodes).len() == 0 {
        cm(CheckStatus::Pass, Seq::empty(), "Finish node present, "@ + dec(n_error_handler(nodes) as int)
            + " error handlers, "@ + dec(n_on_error(nodes) as int) + " on_error directives"@)
    } else {
        cm(CheckStatus::Warn, join(strict_durability_issues(nodes), "; "@), "Strict durability check passed with warnings."@)
    }
}

fn check_strict_durability(parts: &WorkflowParts) -> (c: Certificate)
    ensures
        cert_is(c, CertificateKind::StrictDurability, strict_durability_model(*parts)),
{
    let census = node_census(&parts.nodes);
    if census.finish == 0 {
        return Certificate {
            kind: CertificateKind::StrictDurability,
            status: CertificateStatus::Fail(String::from_str("no Finish node found")),
            details: String::from_str("Workflow must have at least one Finish node to produce a result."),
        };
    }
    let mut warnings: Vec<String> = Vec::new();
    let mut w1 = decimal_string(census.finish as u64);
    w1.append(" Finish nodes found (expected 1)");
    push_if(&mut warnings, census.finish > 1, w1);
    push_if(&mut warnings, census.error_handler == 0 && census.on_error == 0, String::from_str("no error handlers or on_error directives found"));
    assert(views(warnings@) =~= strict_durability_issues(parts.nodes@));
    if warnings.len() == 0 {
        let mut details = lit_num_lit_num("Finish node present, ", census.error_handler as u64, " error handlers, ", census.on_error as u64);
        details.append(" on_error directives");
        Certificate { kind: CertificateKind::StrictDurability, status: CertificateStatus::Pass, details }
    } else {
        Certificate {
            kind: CertificateKind::StrictDurability,
            status: CertificateStatus::Warn(join_strings(&warnings, "; ")),
            details: String::from_str("Strict durability check passed with warnings."),
        }
    }
}

// ---------------------------------------------------------------------------
// Pre-flight check 4: Strict durability eligibility
// ---------------------------------------------------------------------------

pub open spec fn strict_eligibility_model(parts: WorkflowParts) -> (CheckStatus, Seq<char>) {
    let nodes = parts.nodes@;
    if n_finish(nodes) == 0 {
        (CheckStatus::Fail, "no Finish node found"@)
    } else if n_do(nodes) > 0 && n_do_with_on_error(nodes) == 0 && n_error_handler(nodes) == 0 {
        (CheckStatus::Warn, dec(n_do(nodes) as int) + " Do node(s) without error handlers or journal mode; replay safety not guaranteed"@)
    } else {
        (CheckStatus::Pass, "Finish present, "@ + dec(n_do_with_on_error(nodes) as int) + " of "@ + dec(n_do(nodes) as int)
            + " Do nodes have error handlers, "@ + dec(n_error_handler(nodes) as int) + " error handler nodes, "@
            + dec(n_on_error(nodes) as int) + " on_error directives"@)
    }
}

fn check_preflight_strict_durability_eligibility(parts: &WorkflowParts) -> (c: CertificateCheck)
    ensures
        check_is(c, "strict_durability_eligibility"@, strict_eligibility_model(*parts).0, strict_eligibility_model(*parts).1),
{
    let census = node_census(&parts.nodes);
    if census.finish == 0 {
        return CertificateCheck { name: "strict_durability_eligibility", status: CheckStatus::Fail, detail: String::from_str("no Finish node found") };
    }
    if census.do_total > 0 && census.do_with_on_error == 0 && census.error_handler == 0 {
        let mut detail = decimal_string(census.do_total as u64);
        detail.append(" Do node(s) without error handlers or journal mode; replay safety not guaranteed");
        return CertificateCheck { name: "strict_durability_eligibility", status: CheckStatus::Warn, detail };
    }
    let mut detail = lit_num_lit_num("Finish present, ", census.do_with_on_error as u64, " of ", census.do_total as u64);
    detail.append(" Do nodes have error handlers, ");
    push_decimal(&mut detail, census.error_handler as u64);
    detail.append(" error handler nodes, ");
    push_decimal(&mut detail, census.on_error as u64);
    detail.append(" on_error directives");
    CertificateCheck { name: "strict_durability_eligibility", status: CheckStatus::Pass, detail }
}

// ---------------------------------------------------------------------------
// Pre-flight check 5: External action idempotency
// ---------------------------------------------------------------------------

/// The action id of a Do node.
pub open spec fn do_action_id(n: CompiledNode) -> Option<u16> {
    match n.kind {
        CompiledNodeKind::Do { action, .. } => Some(action.0),
        _ => None,
    }
}

/// The action id of a Do node that has an `on_error` handler.
pub open spec fn guarded_action_id(n: CompiledNode) -> Option<u16> {
    match n.kind {
        CompiledNodeKind::Do { action, .. } => if n.on_error is Some { Some(action.0) } else { None },
        _ => None,
    }
}

/// Distinct action ids invoked by Do nodes.
pub open spec fn action_ids(nodes: Seq<CompiledNode>) -> Set<u16> {
    nodes.filter_map(|n: CompiledNode| do_action_id(n)).to_set()
}

/// Distinct action ids invoked by Do nodes that carry an error handler.
pub open spec fn guarded_action_ids(nodes: Seq<CompiledNode>) -> Set<u16> {
    nodes.filter_map(|n: CompiledNode| guarded_action_id(n)).to_set()
}

pub open spec fn idempotency_model(parts: WorkflowParts) -> (CheckStatus, Seq<char>) {
    let nodes = parts.nodes@;
    let all = action_ids(nodes).len() as int;
    let guarded = guarded_action_ids(nodes).len() as int;
    if n_do(nodes) == 0 {
        (CheckStatus::Pass, "no Do nodes; idempotency not applicable"@)
    } else if all - guarded > 0 && n_retry_check(nodes) == 0 {
        (CheckStatus::Warn, dec(all - guarded) + " action(s) without retry/error handling and no RetryCheck nodes"@)
    } else {
        (CheckStatus::Pass, dec(n_do(nodes) as int) + " Do nodes across "@ + dec(all) + " distinct action(s), "@
            + dec(guarded) + " with error handling, "@ + dec(n_retry_check(nodes) as int) + " retry policy(ies)"@)
    }
}

/// Appends `x` to `v` unless already present.
pub(crate) fn push_unique(v: &mut Vec<u16>, x: u16)
    requires
        old(v)@.no_duplicates(),
    ensures
        final(v)@.no_duplicates(),
        final(v)@.to_set() == old(v)@.to_set().insert(x),
        final(v)@.len() <= old(v)@.len() + 1,
        old(v)@.contains(x) ==> final(v)@ == old(v)@,
        !old(v)@.contains(x) ==> final(v)@ == old(v)@.push(x),
{
    let mut i: usize = 0;
    while i < v.len()
        invariant
            i <= v.len(),
            v@ == old(v)@,
            v@.no_duplicates(),
            forall|j: int| 0 <= j < i ==> v@[j] != x,
        decreases v.len() - i,
    {
        if v[i] == x {
            assert(v@.contains(x));
            assert(v@.to_set() =~= v@.to_set().insert(x));
            return;
        }
        i += 1;
    }
    let ghost before = v@;
    v.push(x);
    assert(v@.to_set() =~= before.to_set().insert(x)) by {
        assert forall|a: u16| v@.to_set().contains(a) <==> before.to_set().insert(x).contains(a) by {
            if before.contains(a) {
                let k = choose|k: int| 0 <= k < before.len() && before[k] == a;
                assert(v@[k] == a);
            }
            if v@.contains(a) && a != x {
                let k = choose|k: int| 0 <= k < v@.len() && v@[k] == a;
                assert(k < before.len());
                assert(before[k] == a);
            }
            if a == x {
                assert(v@[before.len() as int] == x);
            }
        }
    }
}

/// Distinct ids collected from an id stream.
proof fn lemma_filter_map_step_set(nodes: Seq<CompiledNode>, f: spec_fn(CompiledNode) -> Option<u16>, i: int, seen: Seq<u16>)
    requires
        0 <= i < nodes.len(),
        seen.to_set() == nodes.take(i).filter_map(f).to_set(),
    ensures
        match f(nodes[i]) {
            Some(a) => seen.to_set().insert(a) == nodes.take(i + 1).filter_map(f).to_set(),
            None => seen.to_set() == nodes.take(i + 1).filter_map(f).to_set(),
        },
{
    nodes.lemma_filter_map_take_succ(f, i);
    let pre = nodes.take(i).filter_map(f);
    match f(nodes[i]) {
        Some(a) => {
            assert(nodes.take(i + 1).filter_map(f) =~= pre.push(a));
            assert(pre.push(a).to_set() =~= pre.to_set().insert(a)) by {
                assert forall|b: u16| pre.push(a).to_set().contains(b) <==> pre.to_set().insert(a).contains(b) by {
                    if pre.contains(b) {
                        let k = choose|k: int| 0 <= k < pre.len() && pre[k] == b;
                        assert(pre.push(a)[k] == b);
                    }
                    if pre.push(a).contains(b) && b != a {
                        let k = choose|k: int| 0 <= k < pre.push(a).len() && pre.push(a)[k] == b;
                        assert(pre[k] == b);
                    }
                    if b == a {
                        assert(pre.push(a)[pre.len() as int] == a);
                    }
                }
            }
        }
        None => {
            assert(nodes.take(i + 1).filter_map(f) =~= pre);
        }
    }
}

/// Counts of distinct invoked actions, distinct guarded actions, and the Do/RetryCheck totals.
fn distinct_action_counts(nodes: &Vec<CompiledNode>) -> (r: (usize, usize))
    ensures
        r.0 == action_ids(nodes@).len(),
        r.1 == guarded_action_ids(nodes@).len(),
{
    let ghost f = |n: CompiledNode| do_action_id(n);
    let ghost g = |n: CompiledNode| guarded_action_id(n);
    let mut all: Vec<u16> = Vec::new();
    let mut guarded: Vec<u16> = Vec::new();
    let mut i: usize = 0;
    proof {
        assert(nodes@.take(0).filter_map(f) =~= Seq::<u16>::empty());
        assert(nodes@.take(0).filter_map(g) =~= Seq::<u16>::empty());
        assert(all@.to_set() =~= Seq::<u16>::empty().to_set());
        assert(guarded@.to_set() =~= Seq::<u16>::empty().to_set());
    }
    while i < nodes.len()
        invariant
            i <= nodes.len(),
            f == (|n: CompiledNode| do_action_id(n)),
            g == (|n: CompiledNode| guarded_action_id(n)),
            all@.no_duplicates(),
            guarded@.no_duplicates(),
            all@.len() <= i,
            guarded@.len() <= i,
            all@.to_set() == nodes@.take(i as int).filter_map(f).to_set(),
            guarded@.to_set() == nodes@.take(i as int).filter_map(g).to_set(),
        decreases nodes.len() - i,
    {
        proof {
            lemma_filter_map_step_set(nodes@, f, i as int, all@);
            lemma_filter_map_step_set(nodes@, g, i as int, guarded@);
        }
        match &nodes[i].kind {
            CompiledNodeKind::Do { action, .. } => {
                push_unique(&mut all, action.0);
                if nodes[i].on_error.is_some() {
                    push_unique(&mut guarded, action.0);
                }
            }
            _ => {}
        }
        i += 1;
    }
    proof {
        lemma_take_full(nodes@);
        all@.unique_seq_to_set();
        guarded@.unique_seq_to_set();
    }
    (all.len(), guarded.len())
}

/// Every guarded action id is also an invoked action id.
proof fn lemma_guarded_subset(nodes: Seq<CompiledNode>)
    ensures
        guarded_action_ids(nodes).subset_of(action_ids(nodes)),
        guarded_action_ids(nodes).finite(),
        action_ids(nodes).finite(),
        guarded_action_ids(nodes).len() <= action_ids(nodes).len(),
{
    let f = |n: CompiledNode| do_action_id(n);
    let g = |n: CompiledNode| guarded_action_id(n);
    assert forall|a: u16| guarded_action_ids(nodes).contains(a) implies action_ids(nodes).contains(a) by {
        nodes.lemma_filter_map_contains(g, a);
        let t = choose|t: CompiledNode| #[trigger] nodes.contains(t) && g(t) == Some(a);
        let k = choose|k: int| 0 <= k < nodes.len() && nodes[k] == t;
        assert(f(nodes[k]) == Some(a));
        crate::seqs::lemma_filter_map_has(nodes, f, k);
    }
    nodes.filter_map(f).lemma_cardinality_of_set();
    nodes.filter_map(g).lemma_cardinality_of_set();
    vstd::seq_lib::seq_to_set_is_finite(nodes.filter_map(f));
    vstd::seq_lib::seq_to_set_is_finite(nodes.filter_map(g));
    vstd::set_lib::lemma_len_subset(guarded_action_ids(nodes), action_ids(nodes));
}

fn check_preflight_action_idempotency(parts: &WorkflowParts) -> (c: CertificateCheck)
    ensures
        check_is(c, "action_idempotency"@, idempotency_model(*parts).0, idempotency_model(*parts).1),
{
    let census = node_census(&parts.nodes);
    if census.do_total == 0 {
        return CertificateCheck { name: "action_idempotency", status: CheckStatus::Pass, detail: String::from_str("no Do nodes; idempotency not applicable") };
    }
    let (all, guarded) = distinct_action_counts(&parts.nodes);
    proof { lemma_guarded_subset(parts.nodes@); }
    let unguarded = all - guarded;
    if unguarded > 0 && census.retry_check == 0 {
        let mut detail = decimal_string(unguarded as u64);
        detail.append(" action(s) without retry/error handling and no RetryCheck nodes");
        return CertificateCheck { name: "action_idempotency", status: CheckStatus::Warn, detail };
    }
    let mut detail = lit_num_lit_num("", census.do_total as u64, " Do nodes across ", all as u64);
    proof { reveal_strlit(""); }
    detail.append(" distinct action(s), ");
    push_decimal(&mut detail, guarded as u64);
    detail.append(" with error handling, ");
    push_decimal(&mut detail, census.retry_check as u64);
    detail.append(" retry policy(ies)");
    CertificateCheck { name: "action_idempotency", status: CheckStatus::Pass, detail }
}

// ---------------------------------------------------------------------------
// Pre-flight check 6: Worst-case memory budget
// ---------------------------------------------------------------------------

/// Bytes per slot assumed by the worst-case memory estimate.
pub const MAX_FRAME_SIZE: u64 = 64;

pub open spec fn memory_budget_model(parts: WorkflowParts) -> (CheckStatus, Seq<char>) {
    let worst = parts.slot_count * 64;
    let limit = parts.resource_contract.max_output_bytes;
    if worst == 0 {
        (CheckStatus::Pass, "no slots allocated; memory budget is zero"@)
    } else if worst > limit && limit > 0 {
        (CheckStatus::Warn, "worst-case "@ + dec(worst) + " bytes ("@ + dec(parts.slot_count as int)
            + " slots x 64 B/slot) exceeds max_output_bytes "@ + dec(limit as int))
    } else {
        (CheckStatus::Pass, "worst-case "@ + dec(worst) + " bytes ("@ + dec(parts.slot_count as int) + " slots x 64 B/slot)"@)
    }
}

fn check_preflight_worst_case_memory_budget(parts: &WorkflowParts) -> (c: CertificateCheck)
    ensures
        check_is(c, "worst_case_memory_budget"@, memory_budget_model(*parts).0, memory_budget_model(*parts).1),
{
    let slot_count = parts.slot_count as u64;
    let worst_case_bytes = slot_count * MAX_FRAME_SIZE;
    let output_limit = parts.resource_contract.max_output_bytes as u64;
    if worst_case_bytes == 0 {
        return CertificateCheck { name: "worst_case_memory_budget", status: CheckStatus::Pass, detail: String::from_str("no slots allocated; memory budget is zero") };
    }
    let mut detail = lit_num_lit_num("worst-case ", worst_case_bytes, " bytes (", slot_count);
    if worst_case_bytes > output_limit && output_limit > 0 {
        detail.append(" slots x 64 B/slot) exceeds max_output_bytes ");
        push_decimal(&mut detail, output_limit);
        return CertificateCheck { name: "worst_case_memory_budget", status: CheckStatus::Warn, detail };
    }
    detail.append(" slots x 64 B/slot)");
    CertificateCheck { name: "worst_case_memory_budget", status: CheckStatus::Pass, detail }
}

// ---------------------------------------------------------------------------
// Pre-flight check 7: Max transitions
// ---------------------------------------------------------------------------

pub open spec fn max_transitions_model(parts: WorkflowParts) -> (CheckStatus, Seq<char>) {
    let n = parts.nodes@.len() as int;
    let limit = parts.resource_contract.max_steps as int;
    if limit == 0 {
        (CheckStatus::Fail, "max_steps is zero; no transitions allowed"@)
    } else if n > limit {
        (CheckStatus::Fail, "IR has "@ + dec(n) + " steps but max_steps is "@ + dec(limit))
    } else {
        (CheckStatus::Pass, "IR step count "@ + dec(n) + " within max_steps "@ + dec(limit))
    }
}

fn check_preflight_max_transitions(parts: &WorkflowParts) -> (c: CertificateCheck)
    ensures
        check_is(c, "max_transitions"@, max_transitions_model(*parts).0, max_transitions_model(*parts).1),
{
    let step_count = parts.nodes.len();
    let contract_limit = parts.resource_contract.max_steps as usize;
    if contract_limit == 0 {
        return CertificateCheck { name: "max_transitions", status: CheckStatus::Fail, detail: String::from_str("max_steps is zero; no transitions allowed") };
    }
    if step_count > contract_limit {
        return CertificateCheck {
            name: "max_transitions",
            status: CheckStatus::Fail,
            detail: lit_num_lit_num("IR has ", step_count as u64, " steps but max_steps is ", contract_limit as u64),
        };
    }
    CertificateCheck {
        name: "max_transitions",
        status: CheckStatus::Pass,
        detail: lit_num_lit_num("IR step count ", step_count as u64, " within max_steps ", contract_limit as u64),
    }
}

// ---------------------------------------------------------------------------
// Pre-flight check 8: Max action calls
// ---------------------------------------------------------------------------

pub open spec fn max_action_calls_model(parts: WorkflowParts) -> (CheckStatus, Seq<char>) {
    let d = n_do(parts.nodes@) as int;
    let ceiling = parts.resource_contract.max_retry_attempts as int;
    if d > ceiling && ceiling > 0 {
        (CheckStatus::Warn, dec(d) + " Do nodes exceeds max_retry_attempts ceiling of "@ + dec(ceiling))
    } else {
        (CheckStatus::Pass, dec(d) + " Do node(s) within max_retry_attempts ceiling of "@ + dec(ceiling))
    }
}

fn check_preflight_max_action_calls(parts: &WorkflowParts) -> (c: CertificateCheck)
    ensures
        check_is(c, "max_action_calls"@, max_action_calls_model(*parts).0, max_action_calls_model(*parts).1),
{
    let census = node_census(&parts.nodes);
    let retry_ceiling = parts.resource_contract.max_retry_attempts as usize;
    proof { reveal_strlit(""); }
    if census.do_total > retry_ceiling && retry_ceiling > 0 {
        return CertificateCheck {
            name: "max_action_calls",
            status: CheckStatus::Warn,
            detail: lit_num_lit_num("", census.do_total as u64, " Do nodes exceeds max_retry_attempts ceiling of ", retry_ceiling as u64),
        };
    }
    CertificateCheck {
        name: "max_action_calls",
        status: CheckStatus::Pass,
        detail: lit_num_lit_num("", census.do_total as u64, " Do node(s) within max_retry_attempts ceiling of ", retry_ceiling as u64),
    }
}

// ---------------------------------------------------------------------------
// Successors and reachability
// ---------------------------------------------------------------------------

fn push_branch_targets(succs: &mut Vec<StepIdx>, branches: &Vec<ChooseBranch>)
    ensures
        final(succs)@ == old(succs)@ + branch_targets(branches@),
{
    let ghost start = succs@;
    let mut i: usize = 0;
    while i < branches.len()
        invariant
            i <= branches.len(),
            succs@ == start + branch_targets(branches@.take(i as int)),
        decreases branches.len() - i,
    {
        succs.push(branches[i].target);
        assert(branch_targets(branches@.take(i + 1)) =~= branch_targets(branches@.take(i as int)).push(branches@[i as int].target));
        i += 1;
    }
    assert(branches@.take(branches.len() as int) =~= branches@);
}

fn push_steps(succs: &mut Vec<StepIdx>, steps: &Vec<StepIdx>)
    ensures
        final(succs)@ == old(succs)@ + steps@,
{
    let ghost start = succs@;
    let mut i: usize = 0;
    while i < steps.len()
        invariant
            i <= steps.len(),
            succs@ == start + steps@.take(i as int),
        decreases steps.len() - i,
    {
        succs.push(steps[i]);
        assert(steps@.take(i + 1) =~= steps@.take(i as int).push(steps@[i as int]));
        i += 1;
    }
    assert(steps@.take(steps.len() as int) =~= steps@);
}

/// Collects all successor step indices of a node: fallthrough, error handler,
/// then the targets named by the node kind.
pub fn collect_successors(kind: &CompiledNodeKind, next: Option<StepIdx>, on_error: Option<StepIdx>) -> (succs: Vec<StepIdx>)
    ensures
        succs@ == successors_of(*kind, next, on_error),
{
    let mut succs: Vec<StepIdx> = Vec::new();
    if let Some(n) = next {
        succs.push(n);
    }
    if let Some(h) = on_error {
        succs.push(h);
    }
    assert(succs@ =~= opt_seq(next) + opt_seq(on_error));
    let ghost base = succs@;
    match kind {
        CompiledNodeKind::Jump { target } => {
            succs.push(*target);
        }
        CompiledNodeKind::Choose { branches, otherwise } => {
            push_branch_targets(&mut succs, branches);
            if let Some(t) = otherwise {
                succs.push(*t);
            }
        }
        CompiledNodeKind::ChooseSlot { branches, otherwise } => {
            push_branch_targets(&mut succs, branches);
            if let Some(t) = otherwise {
                succs.push(*t);
            }
        }
        CompiledNodeKind::ForEachStart { body, done, .. }
        | CompiledNodeKind::ForEachNext { body, done, .. }
        | CompiledNodeKind::CollectStart { body, done, .. }
        | CompiledNodeKind::CollectPage { body, done, .. }
        | CompiledNodeKind::CollectNext { body, done, .. }
        | CompiledNodeKind::ReduceStart { body, done, .. }
        | CompiledNodeKind::ReduceNext { body, done, .. }
        | CompiledNodeKind::RepeatStart { body, done, .. }
        | CompiledNodeKind::RepeatAttempt { body, done, .. } => {
            succs.push(*body);
            succs.push(*done);
        }
        CompiledNodeKind::TogetherStart { branches, join } => {
            push_steps(&mut succs, branches);
            succs.push(*join);
        }
        CompiledNodeKind::TogetherBranch { entry, join, .. } => {
            succs.push(*entry);
            succs.push(*join);
        }
        CompiledNodeKind::RepeatCheck { done, .. } => {
            succs.push(*done);
        }
        CompiledNodeKind::RetryCheck { body, exhausted, .. } => {
            succs.push(*body);
            succs.push(*exhausted);
        }
        CompiledNodeKind::ErrorHandler { body, handler, .. } => {
            succs.push(*body);
            succs.push(*handler);
        }
        _ => {}
    }
    assert(succs@ =~= base + kind_targets(*kind));
    succs
}

/// There is a control-flow edge from step `a` to step `b` (both in bounds).
pub open spec fn is_edge(nodes: Seq<CompiledNode>, a: int, b: int) -> bool {
    &&& 0 <= a < nodes.len()
    &&& 0 <= b < nodes.len()
    &&& exists|t: int| 0 <= t < successors_of(nodes[a].kind, nodes[a].next, nodes[a].on_error).len()
            && #[trigger] successors_of(nodes[a].kind, nodes[a].next, nodes[a].on_error)[t].0 == b
}

/// `p` is a walk along control-flow edges.
pub open spec fn is_walk(nodes: Seq<CompiledNode>, p: Seq<int>) -> bool {
    &&& p.len() >= 1
    &&& forall|i: int| 0 <= i < p.len() ==> 0 <= #[trigger] p[i] < nodes.len()
    &&& forall|i: int| 0 <= i < p.len() - 1 ==> is_edge(nodes, #[trigger] p[i], p[i + 1])
}

/// Step `j` is reachable from `entry` along control-flow edges.
pub open spec fn reachable(nodes: Seq<CompiledNode>, entry: int, j: int) -> bool {
    exists|p: Seq<int>| #[trigger] is_walk(nodes, p) && p[0] == entry && p.last() == j
}

/// Every visited step's in-bounds successors are visited.
proof fn lemma_closed_contains_walk(nodes: Seq<CompiledNode>, visited: Seq<bool>, p: Seq<int>, i: int)
    requires
        visited.len() == nodes.len(),
        is_walk(nodes, p),
        visited[p[0]],
        0 <= i < p.len(),
        forall|a: int, b: int| 0 <= a < nodes.len() && visited[a] && is_edge(nodes, a, b) ==> visited[b],
    ensures
        visited[p[i]],
    decreases i,
{
    if i > 0 {
        lemma_closed_contains_walk(nodes, visited, p, i - 1);
        assert(is_edge(nodes, p[i - 1], p[i]));
    }
}

/// Every visited step other than `skip` that is no longer on the stack has all
/// its in-bounds successors visited.
pub open spec fn closed_except(nodes: Seq<CompiledNode>, visited: Seq<bool>, stack: Seq<usize>, skip: int) -> bool {
    forall|a: int, b: int| 0 <= a < nodes.len() && a != skip && #[trigger] visited[a] && !stack.contains(a as usize)
        && #[trigger] is_edge(nodes, a, b) ==> visited[b]
}

/// Every stacked step is in bounds and visited.
pub open spec fn stack_ok(n: int, visited: Seq<bool>, stack: Seq<usize>) -> bool {
    forall|k: int| 0 <= k < stack.len() ==> (#[trigger] stack[k] < n && visited[stack[k] as int])
}

/// Every visited step is reachable from `entry`.
pub open spec fn sound(nodes: Seq<CompiledNode>, visited: Seq<bool>, entry: int) -> bool {
    forall|k: int| 0 <= k < nodes.len() && #[trigger] visited[k] ==> reachable(nodes, entry, k)
}

/// Extending a walk to `idx` by the edge to `s` gives a walk to `s`.
proof fn lemma_extend_reach(nodes: Seq<CompiledNode>, entry: int, idx: int, s: int)
    requires
        reachable(nodes, entry, idx),
        is_edge(nodes, idx, s),
    ensures
        reachable(nodes, entry, s),
{
    let p = choose|p: Seq<int>| #[trigger] is_walk(nodes, p) && p[0] == entry && p.last() == idx;
    let q = p.push(s);
    assert forall|i: int| 0 <= i < q.len() - 1 implies is_edge(nodes, #[trigger] q[i], q[i + 1]) by {
        if i < p.len() - 1 {
            assert(q[i] == p[i] && q[i + 1] == p[i + 1]);
        }
    }
    assert forall|i: int| 0 <= i < q.len() implies 0 <= #[trigger] q[i] < nodes.len() by {
        if i < p.len() {
            assert(q[i] == p[i]);
        }
    }
    assert(is_walk(nodes, q));
    assert(q[0] == entry && q.last() == s);
}

/// Marking a newly found successor `s` keeps the other steps closed.
proof fn lemma_mark_closed(nodes: Seq<CompiledNode>, v0: Seq<bool>, st0: Seq<usize>, v1: Seq<bool>, st1: Seq<usize>, idx: int, s: usize)
    requires
        s < nodes.len(),
        v0.len() == nodes.len(),
        v1 == v0.update(s as int, true),
        st1 == st0.push(s),
        closed_except(nodes, v0, st0, idx),
    ensures
        closed_except(nodes, v1, st1, idx),
{
    assert forall|a: int, b: int| 0 <= a < nodes.len() && a != idx && #[trigger] v1[a] && !st1.contains(a as usize)
        && #[trigger] is_edge(nodes, a, b) implies v1[b] by {
        assert(st1[st1.len() - 1] == s);
        assert(a != s as int);
        assert(!st0.contains(a as usize)) by {
            if st0.contains(a as usize) {
                let k = choose|k: int| 0 <= k < st0.len() && st0[k] == a as usize;
                assert(st1[k] == a as usize);
            }
        }
        assert(v0[a]);
    }
}

/// Marking a newly found successor `s` keeps the stack and soundness invariants.
proof fn lemma_mark_stack(nodes: Seq<CompiledNode>, v0: Seq<bool>, st0: Seq<usize>, v1: Seq<bool>, st1: Seq<usize>, s: usize, entry: int)
    requires
        s < nodes.len(),
        v0.len() == nodes.len(),
        v1 == v0.update(s as int, true),
        st1 == st0.push(s),
        stack_ok(nodes.len() as int, v0, st0),
        sound(nodes, v0, entry),
        reachable(nodes, entry, s as int),
    ensures
        stack_ok(nodes.len() as int, v1, st1),
        sound(nodes, v1, entry),
{
    assert forall|k: int| 0 <= k < st1.len() implies (#[trigger] st1[k] < nodes.len() && v1[st1[k] as int]) by {
        if k < st0.len() {
            assert(st1[k] == st0[k]);
        } else {
            assert(st1[k] == s);
        }
    }
}

/// Marks every step reachable from `entry`.
fn reachable_set(nodes: &Vec<CompiledNode>, entry: usize) -> (visited: Vec<bool>)
    ensures
        visited@.len() == nodes@.len(),
        forall|k: int| 0 <= k < nodes@.len() ==> (visited@[k] <==> reachable(nodes@, entry as int, k)),
{
    let n = nodes.len();
    let mut visited: Vec<bool> = Vec::new();
    let mut i: usize = 0;
    while i < n
        invariant
            i <= n,
            n == nodes@.len(),
            visited@.len() == i,
            forall|k: int| 0 <= k < i ==> !visited@[k],
        decreases n - i,
    {
        visited.push(false);
        i += 1;
    }
    let mut stack: Vec<usize> = Vec::new();
    let ghost pu = |b: bool| !b;
    let ghost mut remaining: nat = count_where(visited@, pu);
    if entry < n {
        proof {
            lemma_count_where_update(visited@, pu, entry as int, true);
            let w = seq![entry as int];
            assert(is_walk(nodes@, w));
            assert(reachable(nodes@, entry as int, entry as int));
        }
        visited.set(entry, true);
        stack.push(entry);
        proof {
            remaining = count_where(visited@, pu);
            assert(stack@[0] == entry);
        }
    }
    assert(closed_except(nodes@, visited@, stack@, -1));
    assert(stack_ok(n as int, visited@, stack@));
    assert(sound(nodes@, visited@, entry as int));
    while stack.len() > 0
        invariant
            n == nodes@.len(),
            visited@.len() == n,
            pu == (|b: bool| !b),
            remaining == count_where(visited@, pu),
            stack_ok(n as int, visited@, stack@),
            sound(nodes@, visited@, entry as int),
            closed_except(nodes@, visited@, stack@, -1),
            entry < n ==> visited@[entry as int],
        decreases remaining, stack@.len(),
    {
        let ghost st_full = stack@;
        let idx = stack.pop().unwrap();
        proof {
            assert(st_full == stack@.push(idx));
            assert(st_full[st_full.len() - 1] == idx);
            assert forall|a: int, b: int| 0 <= a < n && a != idx && #[trigger] visited@[a] && !stack@.contains(a as usize)
                && #[trigger] is_edge(nodes@, a, b) implies visited@[b] by {
                assert(!st_full.contains(a as usize)) by {
                    if st_full.contains(a as usize) {
                        let k = choose|k: int| 0 <= k < st_full.len() && st_full[k] == a as usize;
                        if k < stack@.len() {
                            assert(stack@[k] == a as usize);
                        }
                    }
                }
            }
            assert forall|k: int| 0 <= k < stack@.len() implies (#[trigger] stack@[k] < n && visited@[stack@[k] as int]) by {
                assert(stack@[k] == st_full[k]);
            }
        }
        let ghost rem0 = remaining;
        let ghost stack0 = stack@;
        let node = &nodes[idx];
        let succs = collect_successors(&node.kind, node.next, node.on_error);
        let mut t: usize = 0;
        while t < succs.len()
            invariant
                n == nodes@.len(),
                idx < n,
                visited@.len() == n,
                visited@[idx as int],
                pu == (|b: bool| !b),
                remaining == count_where(visited@, pu),
                remaining <= rem0,
                remaining == rem0 ==> stack@ == stack0,
                t <= succs@.len(),
                succs@ == successors_of(nodes@[idx as int].kind, nodes@[idx as int].next, nodes@[idx as int].on_error),
                stack_ok(n as int, visited@, stack@),
                sound(nodes@, visited@, entry as int),
                closed_except(nodes@, visited@, stack@, idx as int),
                forall|u: int| 0 <= u < t && succs@[u].0 < n ==> visited@[#[trigger] succs@[u].0 as int],
                entry < n ==> visited@[entry as int],
            decreases succs@.len() - t,
        {
            let s = succs[t].as_usize();
            if s < n && !visited[s] {
                proof {
                    lemma_count_where_update(visited@, pu, s as int, true);
                    assert(is_edge(nodes@, idx as int, s as int));
                    lemma_extend_reach(nodes@, entry as int, idx as int, s as int);
                }
                let ghost v0 = visited@;
                let ghost s0 = stack@;
                visited.set(s, true);
                stack.push(s);
                proof {
                    lemma_mark_closed(nodes@, v0, s0, visited@, stack@, idx as int, s);
                    lemma_mark_stack(nodes@, v0, s0, visited@, stack@, s, entry as int);
                    remaining = count_where(visited@, pu);
                }
            }
            t += 1;
        }
        proof {
            assert forall|a: int, b: int| 0 <= a < n && #[trigger] visited@[a] && !stack@.contains(a as usize)
                && #[trigger] is_edge(nodes@, a, b) implies visited@[b] by {
                if a == idx {
                    let u = choose|u: int| 0 <= u < succs@.len() && #[trigger] succs@[u].0 == b;
                    assert(succs@[u].0 < n);
                }
            }
        }
    }
    proof {
        assert forall|k: int| 0 <= k < nodes@.len() && reachable(nodes@, entry as int, k) implies visited@[k] by {
            let p = choose|p: Seq<int>| #[trigger] is_walk(nodes@, p) && p[0] == entry as int && p.last() == k;
            assert(p[0] < n);
            assert forall|a: int, b: int| 0 <= a < nodes@.len() && visited@[a] && is_edge(nodes@, a, b) implies visited@[b] by {
                assert(!stack@.contains(a as usize));
            }
            lemma_closed_contains_walk(nodes@, visited@, p, p.len() - 1);
        }
    }
    visited
}

/// Steps not reachable from the entry, rendered "step i", in increasing order.
pub open spec fn unreachable_labels(nodes: Seq<CompiledNode>, entry: int) -> Seq<Seq<char>> {
    Seq::new(nodes.len(), |i: int| i).filter_map(|i: int| if reachable(nodes, entry, i) { None } else { Some("step "@ + dec(i)) })
}

pub open spec fn reachability_model(parts: WorkflowParts) -> CertModel {
    let nodes = parts.nodes@;
    let labels = unreachable_labels(nodes, parts.entry.0 as int);
    if nodes.len() == 0 {
        cm(CheckStatus::Fail, "no nodes to analyze"@, "Empty workflow has no reachable nodes."@)
    } else if labels.len() == 0 {
        cm(CheckStatus::Pass, Seq::empty(), "All "@ + dec(nodes.len() as int) + " nodes reachable from entry"@)
    } else {
        cm(CheckStatus::Fail, dec(labels.len() as int) + " unreachable node(s): "@ + join(labels, ", "@),
            "Every node must be reachable from the entry step."@)
    }
}

fn check_reachability(parts: &WorkflowParts) -> (c: Certificate)
    ensures
        cert_is(c, CertificateKind::Reachability, reachability_model(*parts)),
{
    if parts.nodes.len() == 0 {
        return Certificate {
            kind: CertificateKind::Reachability,
            status: CertificateStatus::Fail(String::from_str("no nodes to analyze")),
            details: String::from_str("Empty workflow has no reachable nodes."),
        };
    }
    let node_count = parts.nodes.len();
    let visited = reachable_set(&parts.nodes, parts.entry.as_usize());
    let ghost f = |i: int| if reachable(parts.nodes@, parts.entry.0 as int, i) { None } else { Some("step "@ + dec(i)) };
    let ghost idx = Seq::new(node_count as nat, |i: int| i);
    let mut unreachable: Vec<String> = Vec::new();
    let mut i: usize = 0;
    while i < node_count
        invariant
            i <= node_count,
            node_count == parts.nodes@.len(),
            visited@.len() == node_count,
            forall|k: int| 0 <= k < node_count ==> (visited@[k] <==> reachable(parts.nodes@, parts.entry.0 as int, k)),
            f == (|i: int| if reachable(parts.nodes@, parts.entry.0 as int, i) { None } else { Some("step "@ + dec(i)) }),
            idx == Seq::new(node_count as nat, |i: int| i),
            views(unreachable@) == idx.take(i as int).filter_map(f),
            unreachable@.len() <= i,
        decreases node_count - i,
    {
        proof {
            idx.lemma_filter_map_take_succ(f, i as int);
        }
        if !visited[i] {
            let ghost before = unreachable@;
            unreachable.push(lit_num("step ", i as u64));
            assert(views(unreachable@) =~= views(before).push("step "@ + dec(i as int)));
        }
        i += 1;
    }
    proof {
        assert(idx.take(node_count as int) =~= idx);
    }
    if unreachable.len() == 0 {
        let mut details = lit_num("All ", node_count as u64);
        details.append(" nodes reachable from entry");
        Certificate { kind: CertificateKind::Reachability, status: CertificateStatus::Pass, details }
    } else {
        let mut msg = decimal_string(unreachable.len() as u64);
        msg.append(" unreachable node(s): ");
        let joined = join_strings(&unreachable, ", ");
        msg.append(joined.as_str());
        Certificate {
            kind: CertificateKind::Reachability,
            status: CertificateStatus::Fail(msg),
            details: String::from_str("Every node must be reachable from the entry step."),
        }
    }
}

// ---------------------------------------------------------------------------
// Certificate 8: Loop nesting
// ---------------------------------------------------------------------------

/// The span (start, body, done) a loop-like node opens; a parallel block spans
/// from its own step to its join.
pub open spec fn span_of(n: CompiledNode) -> Option<(u16, u16, u16)> {
    match n.kind {
        CompiledNodeKind::ForEachStart { body, done, .. } => Some((n.id.0, body.0, done.0)),
        CompiledNodeKind::CollectStart { body, done, .. } => Some((n.id.0, body.0, done.0)),
        CompiledNodeKind::ReduceStart { body, done, .. } => Some((n.id.0, body.0, done.0)),
        CompiledNodeKind::RepeatStart { body, done, .. } => Some((n.id.0, body.0, done.0)),
        CompiledNodeKind::TogetherStart { join, .. } => Some((n.id.0, n.id.0, join.0)),
        _ => None,
    }
}

pub open spec fn loop_spans(nodes: Seq<CompiledNode>) -> Seq<(u16, u16, u16)> {
    nodes.filter_map(|n: CompiledNode| span_of(n))
}

pub open spec fn overlap_message(a_start: int, a_done: int, b_start: int, b_done: int) -> Seq<char> {
    "loop at step "@ + dec(a_start) + " spans to "@ + dec(a_done) + " but inner loop at step "@ + dec(b_start)
        + " extends to "@ + dec(b_done)
}

/// Issues found for the pair of spans `a` (earlier) and `b` (later).
pub open spec fn pair_issues(a: (u16, u16, u16), b: (u16, u16, u16), node_count: int) -> Seq<Seq<char>> {
    let (a_start, a_done) = (a.0 as int, a.2 as int);
    let (b_start, b_body, b_done) = (b.0 as int, b.1 as int, b.2 as int);
    if a_done <= a_start || b_done <= b_start {
        Seq::empty()
    } else {
        piece_if(b_start > a_start && b_start < a_done && b_done > a_done, overlap_message(a_start, a_done, b_start, b_done))
            + piece_if(a_start > b_start && a_start < b_done && a_done > b_done, overlap_message(b_start, b_done, a_start, a_done))
            + piece_if(b_body >= node_count, "loop at step "@ + dec(b_start) + " has body target "@ + dec(b_body) + " out of bounds"@)
    }
}

/// Issues of the pairs (i, i+1), ..., (i, j-1).
pub open spec fn row_issues(spans: Seq<(u16, u16, u16)>, node_count: int, i: int, j: int) -> Seq<Seq<char>>
    decreases j,
{
    if j <= i + 1 || j <= 0 {
        Seq::empty()
    } else {
        row_issues(spans, node_count, i, j - 1) + pair_issues(spans[i], spans[j - 1], node_count)
    }
}

/// Issues of all pairs whose first span is before `m`, in row order.
pub open spec fn nesting_issues_upto(spans: Seq<(u16, u16, u16)>, node_count: int, m: int) -> Seq<Seq<char>>
    decreases m,
{
    if m <= 0 {
        Seq::empty()
    } else {
        nesting_issues_upto(spans, node_count, m - 1) + row_issues(spans, node_count, m - 1, spans.len() as int)
    }
}

pub open spec fn loop_nesting_model(parts: WorkflowParts) -> CertModel {
    let spans = loop_spans(parts.nodes@);
    let issues = nesting_issues_upto(spans, parts.nodes@.len() as int, spans.len() as int);
    if issues.len() == 0 {
        cm(CheckStatus::Pass, Seq::empty(), dec(spans.len() as int) + " loop(s) properly nested"@)
    } else {
        cm(CheckStatus::Fail, join(issues, "; "@), "Loop nesting validation found improper span overlaps."@)
    }
}

fn collect_loop_spans(nodes: &Vec<CompiledNode>) -> (spans: Vec<(u16, u16, u16)>)
    ensures
        spans@ == loop_spans(nodes@),
{
    let ghost f = |n: CompiledNode| span_of(n);
    let mut spans: Vec<(u16, u16, u16)> = Vec::new();
    let mut i: usize = 0;
    while i < nodes.len()
        invariant
            i <= nodes.len(),
            f == (|n: CompiledNode| span_of(n)),
            spans@ == nodes@.take(i as int).filter_map(f),
        decreases nodes.len() - i,
    {
        proof {
            nodes@.lemma_filter_map_take_succ(f, i as int);
        }
        let id = nodes[i].id.0;
        match &nodes[i].kind {
            CompiledNodeKind::ForEachStart { body, done, .. }
            | CompiledNodeKind::CollectStart { body, done, .. }
            | CompiledNodeKind::ReduceStart { body, done, .. }
            | CompiledNodeKind::RepeatStart { body, done, .. } => {
                spans.push((id, body.0, done.0));
            }
            CompiledNodeKind::TogetherStart { join, .. } => {
                spans.push((id, id, join.0));
            }
            _ => {}
        }
        i += 1;
    }
    proof {
        lemma_take_full(nodes@);
    }
    spans
}

fn overlap_text(a_start: u64, a_done: u64, b_start: u64, b_done: u64) -> (s: String)
    ensures
        s@ == overlap_message(a_start as int, a_done as int, b_start as int, b_done as int),
{
    let mut s = lit_num_lit_num("loop at step ", a_start, " spans to ", a_done);
    s.append(" but inner loop at step ");
    push_decimal(&mut s, b_start);
    s.append(" extends to ");
    push_decimal(&mut s, b_done);
    s
}

fn push_pair_issues(issues: &mut Vec<String>, a: (u16, u16, u16), b: (u16, u16, u16), node_count: usize)
    ensures
        views(final(issues)@) == views(old(issues)@) + pair_issues(a, b, node_count as int),
{
    let a_start = a.0 as u64;
    let a_done = a.2 as u64;
    let b_start = b.0 as u64;
    let b_body = b.1 as u64;
    let b_done = b.2 as u64;
    if a_done <= a_start || b_done <= b_start {
        assert(views(issues@) =~= views(issues@) + pair_issues(a, b, node_count as int));
        return;
    }
    let ghost start = views(issues@);
    push_if(issues, b_start > a_start && b_start < a_done && b_done > a_done, overlap_text(a_start, a_done, b_start, b_done));
    push_if(issues, a_start > b_start && a_start < b_done && a_done > b_done, overlap_text(b_start, b_done, a_start, a_done));
    let mut m = lit_num_lit_num("loop at step ", b_start, " has body target ", b_body);
    m.append(" out of bounds");
    push_if(issues, b_body >= node_count as u64, m);
    assert(views(issues@) =~= start + pair_issues(a, b, node_count as int));
}

fn check_loop_nesting(parts: &WorkflowParts) -> (c: Certificate)
    ensures
        cert_is(c, CertificateKind::LoopNesting, loop_nesting_model(*parts)),
{
    let node_count = parts.nodes.len();
    let spans = collect_loop_spans(&parts.nodes);
    let mut issues: Vec<String> = Vec::new();
    let mut i: usize = 0;
    while i < spans.len()
        invariant
            i <= spans.len(),
            node_count == parts.nodes@.len(),
            spans@ == loop_spans(parts.nodes@),
            views(issues@) == nesting_issues_upto(spans@, node_count as int, i as int),
        decreases spans.len() - i,
    {
        let mut j: usize = i + 1;
        let ghost row_start = views(issues@);
        while j < spans.len()
            invariant
                i < spans.len(),
                i + 1 <= j <= spans.len(),
                node_count == parts.nodes@.len(),
                row_start == nesting_issues_upto(spans@, node_count as int, i as int),
                views(issues@) == row_start + row_issues(spans@, node_count as int, i as int, j as int),
            decreases spans.len() - j,
        {
            let ghost before = views(issues@);
            push_pair_issues(&mut issues, spans[i], spans[j], node_count);
            assert(row_issues(spans@, node_count as int, i as int, j + 1)
                == row_issues(spans@, node_count as int, i as int, j as int) + pair_issues(spans@[i as int], spans@[j as int], node_count as int));
            assert(views(issues@) =~= row_start + row_issues(spans@, node_count as int, i as int, j + 1));
            j += 1;
        }
        assert(nesting_issues_upto(spans@, node_count as int, i + 1)
            == nesting_issues_upto(spans@, node_count as int, i as int) + row_issues(spans@, node_count as int, i as int, spans@.len() as int));
        i += 1;
    }
    if issues.len() == 0 {
        let mut details = decimal_string(spans.len() as u64);
        details.append(" loop(s) properly nested");
        Certificate { kind: CertificateKind::LoopNesting, status: CertificateStatus::Pass, details }
    } else {
        Certificate {
            kind: CertificateKind::LoopNesting,
            status: CertificateStatus::Fail(join_strings(&issues, "; ")),
            details: String::from_str("Loop nesting validation found improper span overlaps."),
        }
    }
}

// ---------------------------------------------------------------------------
// Aggregation
// ---------------------------------------------------------------------------

pub open spec fn status_tag(c: Certificate) -> CheckStatus {
    status_model(c.status).0
}

pub open spec fn count_tag(certs: Seq<Certificate>, t: CheckStatus) -> nat {
    count_where(certs, |c: Certificate| status_tag(c) == t)
}

/// The eight certificates `analyze` produces, in order.
pub open spec fn analysis_models(parts: WorkflowParts, overlay: TaintOverlayResult) -> Seq<(CertificateKind, CertModel)> {
    seq![
        (CertificateKind::StructuralValidity, structural_validity_model(parts)),
        (CertificateKind::Boundedness, boundedness_model(parts)),
        (CertificateKind::ResourceBounds, resource_bounds_model(parts)),
        (CertificateKind::TaintFlow, taint_flow_model(overlay)),
        (CertificateKind::ActionPolicy, action_policy_model(parts)),
        (CertificateKind::StrictDurability, strict_durability_model(parts)),
        (CertificateKind::Reachability, reachability_model(parts)),
        (CertificateKind::LoopNesting, loop_nesting_model(parts)),
    ]
}

impl VerificationResult {
    /// Runs all eight certificate checks against a compiled workflow and its taint overlay.
    pub fn analyze(parts: &WorkflowParts, overlay: &TaintOverlayResult) -> (r: Self)
        ensures
            r.certificates@.len() == 8,
            forall|i: int| 0 <= i < 8 ==> cert_is(#[trigger] r.certificates@[i],
                analysis_models(*parts, *overlay)[i].0, analysis_models(*parts, *overlay)[i].1),
            r.total_checks == 8,
            r.pass_count == count_tag(r.certificates@, CheckStatus::Pass),
            r.fail_count == count_tag(r.certificates@, CheckStatus::Fail),
            r.warn_count == count_tag(r.certificates@, CheckStatus::Warn),
            r.pass_count + r.fail_count + r.warn_count == r.total_checks,
    {
        let mut certificates: Vec<Certificate> = Vec::new();
        certificates.push(check_structural_validity(parts));
        certificates.push(check_boundedness(parts));
        certificates.push(check_resource_bounds(parts));
        certificates.push(check_taint_flow(overlay));
        certificates.push(check_action_policy(parts));
        certificates.push(check_strict_durability(parts));
        certificates.push(check_reachability(parts));
        certificates.push(check_loop_nesting(parts));
        let total_checks = certificates.len();
        let ghost pp = |c: Certificate| status_tag(c) == CheckStatus::Pass;
        let ghost pf = |c: Certificate| status_tag(c) == CheckStatus::Fail;
        let ghost pw = |c: Certificate| status_tag(c) == CheckStatus::Warn;
        let mut pass_count: usize = 0;
        let mut fail_count: usize = 0;
        let mut warn_count: usize = 0;
        let mut i: usize = 0;
        while i < certificates.len()
            invariant
                i <= certificates.len(),
                certificates@.len() == 8,
                pp == (|c: Certificate| status_tag(c) == CheckStatus::Pass),
                pf == (|c: Certificate| status_tag(c) == CheckStatus::Fail),
                pw == (|c: Certificate| status_tag(c) == CheckStatus::Warn),
                pass_count == count_where(certificates@.take(i as int), pp),
                fail_count == count_where(certificates@.take(i as int), pf),
                warn_count == count_where(certificates@.take(i as int), pw),
                pass_count + fail_count + warn_count == i,
            decreases certificates.len() - i,
        {
            proof {
                lemma_count_where_take(certificates@, pp, i as int);
                lemma_count_where_take(certificates@, pf, i as int);
                lemma_count_where_take(certificates@, pw, i as int);
            }
            match &certificates[i].status {
                CertificateStatus::Pass => { pass_count = pass_count + 1; }
                CertificateStatus::Fail(_) => { fail_count = fail_count + 1; }
                CertificateStatus::Warn(_) => { warn_count = warn_count + 1; }
            }
            i += 1;
        }
        proof {
            lemma_take_full(certificates@);
        }
        VerificationResult { certificates, total_checks, pass_count, fail_count, warn_count }
    }
}

/// Worst status across a sequence of checks, starting from Pass.
pub open spec fn worst_status(checks: Seq<CertificateCheck>) -> CheckStatus
    decreases checks.len(),
{
    if checks.len() == 0 {
        CheckStatus::Pass
    } else {
        worst_of(worst_status(checks.drop_last()), checks.last().status)
    }
}

/// The eight pre-flight checks `verify_workflow` produces, in order: name, status, detail.
pub open spec fn preflight_models(parts: WorkflowParts, overlay: TaintOverlayResult) -> Seq<(Seq<char>, (CheckStatus, Seq<char>))> {
    seq![
        ("structural_validity"@, preflight_structural_model(parts)),
        ("bounded_transitions"@, bounded_transitions_model(parts)),
        ("secret_to_result_leak"@, secret_leak_model(overlay)),
        ("strict_durability_eligibility"@, strict_eligibility_model(parts)),
        ("action_idempotency"@, idempotency_model(parts)),
        ("worst_case_memory_budget"@, memory_budget_model(parts)),
        ("max_transitions"@, max_transitions_model(parts)),
        ("max_action_calls"@, max_action_calls_model(parts)),
    ]
}

/// Runs the eight pre-flight checks against a compiled workflow and its taint overlay.
pub fn verify_workflow(parts: &WorkflowParts, overlay: &TaintOverlayResult) -> (r: VerificationReport)
    ensures
        r.checks@.len() == 8,
        forall|i: int| 0 <= i < 8 ==> check_is(#[trigger] r.checks@[i], preflight_models(*parts, *overlay)[i].0,
            preflight_models(*parts, *overlay)[i].1.0, preflight_models(*parts, *overlay)[i].1.1),
        r.all_pass == !exists|i: int| 0 <= i < r.checks@.len() && #[trigger] r.checks@[i].status == CheckStatus::Fail,
        r.worst_risk == worst_status(r.checks@),
        r.all_pass <==> r.worst_risk != CheckStatus::Fail,
{
    let mut checks: Vec<CertificateCheck> = Vec::new();
    checks.push(check_preflight_structural_validity(parts));
    checks.push(check_preflight_bounded_transitions(parts));
    checks.push(check_preflight_secret_to_result_leak(overlay));
    checks.push(check_preflight_strict_durability_eligibility(parts));
    checks.push(check_preflight_action_idempotency(parts));
    checks.push(check_preflight_worst_case_memory_budget(parts));
    checks.push(check_preflight_max_transitions(parts));
    checks.push(check_preflight_max_action_calls(parts));
    let mut has_failure = false;
    let mut worst_risk = CheckStatus::Pass;
    let mut i: usize = 0;
    while i < checks.len()
        invariant
            i <= checks.len(),
            checks@.len() == 8,
            has_failure == exists|j: int| 0 <= j < i && #[trigger] checks@[j].status == CheckStatus::Fail,
            worst_risk == worst_status(checks@.take(i as int)),
            has_failure <==> worst_risk == CheckStatus::Fail,
        decreases checks.len() - i,
    {
        assert(checks@.take(i + 1).drop_last() =~= checks@.take(i as int));
        if checks[i].status == CheckStatus::Fail {
            has_failure = true;
        }
        worst_risk = worst_risk.merge_worst(checks[i].status);
        i += 1;
    }
    proof {
        lemma_take_full(checks@);
    }
    VerificationReport { checks, all_pass: !has_failure, worst_risk }
}

// ---------------------------------------------------------------------------
// Laws on what the checks decide
// ---------------------------------------------------------------------------

/// The strict durability eligibility pre-flight check fails exactly when the
/// workflow has no Finish node; it warns exactly when there is a Finish node and
/// some Do node, no Do node has an `on_error` handler and no ErrorHandler node
/// exists; it passes otherwise. So a workflow with a Finish node and an
/// ErrorHandler node always passes.
pub proof fn lemma_strict_eligibility_verdict(parts: WorkflowParts)
    ensures
        strict_eligibility_model(parts).0 == if !exists|i: int| 0 <= i < parts.nodes@.len() && (#[trigger] parts.nodes@[i]).kind is Finish {
            CheckStatus::Fail
        } else if (exists|i: int| 0 <= i < parts.nodes@.len() && (#[trigger] parts.nodes@[i]).kind is Do)
            && (forall|i: int| 0 <= i < parts.nodes@.len() && (#[trigger] parts.nodes@[i]).kind is Do ==> parts.nodes@[i].on_error is None)
            && !(exists|i: int| 0 <= i < parts.nodes@.len() && (#[trigger] parts.nodes@[i]).kind is ErrorHandler) {
            CheckStatus::Warn
        } else {
            CheckStatus::Pass
        },
{
    let nodes = parts.nodes@;
    crate::seqs::lemma_count_where_zero(nodes, |n: CompiledNode| n.kind is Finish);
    crate::seqs::lemma_count_where_zero(nodes, |n: CompiledNode| n.kind is Do);
    crate::seqs::lemma_count_where_zero(nodes, |n: CompiledNode| n.kind is Do && n.on_error is Some);
    crate::seqs::lemma_count_where_zero(nodes, |n: CompiledNode| n.kind is ErrorHandler);
}

/// `t` is a step that a node of kind `kind` names as a control-flow target.
pub open spec fn names_target(kind: CompiledNodeKind, t: StepIdx) -> bool {
    match kind {
        CompiledNodeKind::Jump { target } => target == t,
        CompiledNodeKind::Choose { branches, otherwise } =>
            (exists|i: int| 0 <= i < branches@.len() && (#[trigger] branches@[i]).target == t) || otherwise == Some(t),
        CompiledNodeKind::ChooseSlot { branches, otherwise } =>
            (exists|i: int| 0 <= i < branches@.len() && (#[trigger] branches@[i]).target == t) || otherwise == Some(t),
        CompiledNodeKind::ForEachStart { body, done, .. } => body == t || done == t,
        CompiledNodeKind::ForEachNext { body, done, .. } => body == t || done == t,
        CompiledNodeKind::CollectStart { body, done, .. } => body == t || done == t,
        CompiledNodeKind::CollectPage { body, done, .. } => body == t || done == t,
        CompiledNodeKind::CollectNext { body, done, .. } => body == t || done == t,
        CompiledNodeKind::ReduceStart { body, done, .. } => body == t || done == t,
        CompiledNodeKind::ReduceNext { body, done, .. } => body == t || done == t,
        CompiledNodeKind::RepeatStart { body, done, .. } => body == t || done == t,
        CompiledNodeKind::RepeatAttempt { body, done, .. } => body == t || done == t,
        CompiledNodeKind::TogetherStart { branches, join } => branches@.contains(t) || join == t,
        CompiledNodeKind::TogetherBranch { entry, join, .. } => entry == t || join == t,
        CompiledNodeKind::RepeatCheck { done, .. } => done == t,
        CompiledNodeKind::RetryCheck { body, exhausted, .. } => body == t || exhausted == t,
        CompiledNodeKind::ErrorHandler { body, handler, .. } => body == t || handler == t,
        _ => false,
    }
}

proof fn lemma_contains_concat<T>(x: Seq<T>, y: Seq<T>, t: T)
    ensures
        (x + y).contains(t) <==> (x.contains(t) || y.contains(t)),
{
    if (x + y).contains(t) {
        let k = choose|k: int| 0 <= k < (x + y).len() && (x + y)[k] == t;
        if k < x.len() {
            assert(x[k] == t);
        } else {
            assert(y[k - x.len()] == t);
        }
    }
    if x.contains(t) {
        let k = choose|k: int| 0 <= k < x.len() && x[k] == t;
        assert((x + y)[k] == t);
    }
    if y.contains(t) {
        let k = choose|k: int| 0 <= k < y.len() && y[k] == t;
        assert((x + y)[k + x.len()] == t);
    }
}

proof fn lemma_branch_targets_contains(bs: Seq<ChooseBranch>, t: StepIdx)
    ensures
        branch_targets(bs).contains(t) <==> exists|i: int| 0 <= i < bs.len() && (#[trigger] bs[i]).target == t,
{
    if branch_targets(bs).contains(t) {
        let k = choose|k: int| 0 <= k < branch_targets(bs).len() && branch_targets(bs)[k] == t;
        assert(bs[k].target == t);
    }
    if exists|i: int| 0 <= i < bs.len() && (#[trigger] bs[i]).target == t {
        let i = choose|i: int| 0 <= i < bs.len() && (#[trigger] bs[i]).target == t;
        assert(branch_targets(bs)[i] == t);
    }
}

/// The control-flow successors of a node are exactly its fallthrough step, its
/// error handler and the steps its kind names: every branch and the otherwise
/// step of a choice, body and done of a loop step, every branch and the join of
/// a parallel block, and so on.
pub proof fn lemma_successors_are_named_targets(kind: CompiledNodeKind, next: Option<StepIdx>, on_error: Option<StepIdx>, t: StepIdx)
    ensures
        successors_of(kind, next, on_error).contains(t) <==> (next == Some(t) || on_error == Some(t) || names_target(kind, t)),
{
    lemma_contains_concat(opt_seq(next) + opt_seq(on_error), kind_targets(kind), t);
    lemma_contains_concat(opt_seq(next), opt_seq(on_error), t);
    assert(opt_seq(next).contains(t) <==> next == Some(t)) by {
        if next == Some(t) {
            assert(opt_seq(next)[0] == t);
        }
    }
    assert(opt_seq(on_error).contains(t) <==> on_error == Some(t)) by {
        if on_error == Some(t) {
            assert(opt_seq(on_error)[0] == t);
        }
    }
    let c = kind_targets(kind);
    assert(c.contains(t) <==> names_target(kind, t)) by {
        match kind {
            CompiledNodeKind::Choose { branches, otherwise } => {
                lemma_contains_concat(branch_targets(branches@), opt_seq(otherwise), t);
                lemma_branch_targets_contains(branches@, t);
                if otherwise == Some(t) {
                    assert(opt_seq(otherwise)[0] == t);
                }
            }
            CompiledNodeKind::ChooseSlot { branches, otherwise } => {
                lemma_contains_concat(branch_targets(branches@), opt_seq(otherwise), t);
                lemma_branch_targets_contains(branches@, t);
                if otherwise == Some(t) {
                    assert(opt_seq(otherwise)[0] == t);
                }
            }
            CompiledNodeKind::TogetherStart { branches, join } => {
                lemma_contains_concat(branches@, seq![join], t);
                assert(branches@.push(join) == branches@ + seq![join]);
                if join == t {
                    assert(seq![join][0] == t);
                }
            }
            _ => {
                if names_target(kind, t) {
                    assert(c[0] == t || c[1] == t);
                }
            }
        }
    }
}

/// Every step a node names (fallthrough, error handler, or a target of its kind)
/// that lies inside the node array is an edge of the reachability graph.
pub proof fn lemma_named_targets_are_edges(nodes: Seq<CompiledNode>, a: int, t: StepIdx)
    requires
        0 <= a < nodes.len(),
        t.0 < nodes.len(),
        nodes[a].next == Some(t) || nodes[a].on_error == Some(t) || names_target(nodes[a].kind, t),
    ensures
        is_edge(nodes, a, t.0 as int),
{
    let sc = successors_of(nodes[a].kind, nodes[a].next, nodes[a].on_error);
    lemma_successors_are_named_targets(nodes[a].kind, nodes[a].next, nodes[a].on_error, t);
    let k = choose|k: int| 0 <= k < sc.len() && sc[k] == t;
    assert(sc[k].0 == t.0);
}

/// Two loop spans (start, body, done) that do not cross: one ends at or before
/// the other starts, or one lies within the other.
pub open spec fn spans_do_not_cross(a: (u16, u16, u16), b: (u16, u16, u16)) -> bool {
    ||| b.0 >= a.2
    ||| a.0 >= b.2
    ||| (a.0 <= b.0 && b.2 <= a.2)
    ||| (b.0 <= a.0 && a.2 <= b.2)
}

/// Spans that do not cross, the later with its body in bounds, raise no issue.
pub proof fn lemma_uncrossed_spans_no_issue(a: (u16, u16, u16), b: (u16, u16, u16), node_count: int)
    requires
        spans_do_not_cross(a, b),
        b.1 < node_count,
    ensures
        pair_issues(a, b, node_count).len() == 0,
{
}

proof fn lemma_row_no_issue(spans: Seq<(u16, u16, u16)>, node_count: int, i: int, j: int)
    requires
        0 <= i,
        j <= spans.len(),
        forall|x: int, y: int| 0 <= x < y < spans.len() ==> spans_do_not_cross(#[trigger] spans[x], #[trigger] spans[y]),
        forall|y: int| 0 <= y < spans.len() ==> (#[trigger] spans[y]).1 < node_count,
    ensures
        row_issues(spans, node_count, i, j).len() == 0,
    decreases j,
{
    if !(j <= i + 1 || j <= 0) {
        lemma_row_no_issue(spans, node_count, i, j - 1);
        lemma_uncrossed_spans_no_issue(spans[i], spans[j - 1], node_count);
    }
}

proof fn lemma_upto_no_issue(spans: Seq<(u16, u16, u16)>, node_count: int, m: int)
    requires
        m <= spans.len(),
        forall|x: int, y: int| 0 <= x < y < spans.len() ==> spans_do_not_cross(#[trigger] spans[x], #[trigger] spans[y]),
        forall|y: int| 0 <= y < spans.len() ==> (#[trigger] spans[y]).1 < node_count,
    ensures
        nesting_issues_upto(spans, node_count, m).len() == 0,
    decreases m,
{
    if m > 0 {
        lemma_upto_no_issue(spans, node_count, m - 1);
        lemma_row_no_issue(spans, node_count, m - 1, spans.len() as int);
    }
}

/// When no two loop spans of a workflow cross (each pair is disjoint, such as
/// consecutive loops, or nested) and every loop body is a step of the workflow,
/// the loop nesting certificate passes.
pub proof fn lemma_uncrossed_loops_pass(parts: WorkflowParts)
    requires
        forall|x: int, y: int| 0 <= x < y < loop_spans(parts.nodes@).len()
            ==> spans_do_not_cross(#[trigger] loop_spans(parts.nodes@)[x], #[trigger] loop_spans(parts.nodes@)[y]),
        forall|y: int| 0 <= y < loop_spans(parts.nodes@).len() ==> (#[trigger] loop_spans(parts.nodes@)[y]).1 < parts.nodes@.len(),
    ensures
        loop_nesting_model(parts) == cm(CheckStatus::Pass, Seq::empty(),
            dec(loop_spans(parts.nodes@).len() as int) + " loop(s) properly nested"@),
{
    let spans = loop_spans(parts.nodes@);
    lemma_upto_no_issue(spans, parts.nodes@.len() as int, spans.len() as int);
}

} // verus!
