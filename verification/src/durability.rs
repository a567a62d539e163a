//! Replay safety of a compiled workflow's Do nodes, and the durability report
//! built from it.
//!
//! Durability is inferred from the structure around each Do node: whether it has
//! an `on_error` handler, whether a `RetryCheck` retries it, and whether an
//! `ErrorHandler`, `RepeatStart` or `RepeatAttempt` wraps it.
use vstd::prelude::*;
use crate::workflow::{CompiledNode, CompiledNodeKind, StepIdx};
use crate::screen::{NEON_CYAN, NEON_GREEN, NEON_ORANGE, NEON_RED};
use crate::text::{decimal, push_decimal, join_strings, views};
use crate::seqs::{join, count_where, lemma_count_where_take, lemma_take_full, lemma_filter_map_take, lemma_filter_map_empty};
use crate::certificates::contains_step;

verus! {

/// Overall replay risk classification.
#[derive(Debug, Clone, Copy, PartialEq, Eq, Structural)]
pub enum ReplayRisk {
    /// All checks passed; workflow is safe to replay.
    Safe,
    /// Minor issues found; replay is likely safe but not guaranteed.
    LowRisk,
    /// Significant concerns; replay may produce incorrect results.
    HighRisk,
    /// Critical issues; replay is not safe.
    Unsafe,
}

/// Result of a single durability check.
#[derive(Debug, Clone)]
pub struct DurabilityCheck {
    /// Label identifying this check.
    pub label: String,
    /// Whether the check passed.
    pub passed: bool,
    /// Detail explaining the result.
    pub detail: String,
}

/// Panel of durability checks for replay safety analysis.
#[derive(Debug, Clone)]
pub struct DurabilityPanel {
    /// The checks, in order.
    pub checks: Vec<DurabilityCheck>,
}

// ---------------------------------------------------------------------------
// Model
// ---------------------------------------------------------------------------

/// A check as label, verdict and detail.
pub open spec fn check_view(c: DurabilityCheck) -> (Seq<char>, bool, Seq<char>) {
    (c.label@, c.passed, c.detail@)
}

pub open spec fn check_views(s: Seq<DurabilityCheck>) -> Seq<(Seq<char>, bool, Seq<char>)> {
    s.map_values(|c: DurabilityCheck| check_view(c))
}

/// Positions of the Do nodes, in order.
pub open spec fn do_positions(nodes: Seq<CompiledNode>) -> Seq<usize>
    decreases nodes.len(),
{
    if nodes.len() == 0 {
        Seq::empty()
    } else {
        do_positions(nodes.drop_last()) + if nodes.last().kind is Do {
            seq![(nodes.len() - 1) as usize]
        } else {
            Seq::empty()
        }
    }
}

/// Ids of the nodes at `pos` that satisfy `p`, in the order of `pos`.
pub open spec fn ids_at(nodes: Seq<CompiledNode>, pos: Seq<usize>, p: spec_fn(CompiledNode) -> bool) -> Seq<u16> {
    pos.filter_map(|i: usize| if p(nodes[i as int]) { Some(nodes[i as int].id.0) } else { None })
}

pub open spec fn retry_body(n: CompiledNode) -> Option<StepIdx> {
    match n.kind {
        CompiledNodeKind::RetryCheck { body, .. } => Some(body),
        _ => None,
    }
}

pub open spec fn handler_body(n: CompiledNode) -> Option<StepIdx> {
    match n.kind {
        CompiledNodeKind::ErrorHandler { body, .. } => Some(body),
        _ => None,
    }
}

pub open spec fn repeat_body(n: CompiledNode) -> Option<StepIdx> {
    match n.kind {
        CompiledNodeKind::RepeatStart { body, .. } => Some(body),
        CompiledNodeKind::RepeatAttempt { body, .. } => Some(body),
        _ => None,
    }
}

/// Steps retried by a `RetryCheck` node, in node order.
pub open spec fn retry_targets(nodes: Seq<CompiledNode>) -> Seq<StepIdx> {
    nodes.filter_map(|n: CompiledNode| retry_body(n))
}

/// Bodies of `ErrorHandler` nodes, in node order.
pub open spec fn handler_bodies(nodes: Seq<CompiledNode>) -> Seq<StepIdx> {
    nodes.filter_map(|n: CompiledNode| handler_body(n))
}

/// Bodies of `RepeatStart` and `RepeatAttempt` nodes, in node order.
pub open spec fn repeat_bodies(nodes: Seq<CompiledNode>) -> Seq<StepIdx> {
    nodes.filter_map(|n: CompiledNode| repeat_body(n))
}

/// Do nodes without an `on_error` handler.
pub open spec fn unguarded_ids(nodes: Seq<CompiledNode>) -> Seq<u16> {
    ids_at(nodes, do_positions(nodes), |n: CompiledNode| n.on_error is None)
}

/// Do nodes that a `RetryCheck` retries.
pub open spec fn retried_ids(nodes: Seq<CompiledNode>) -> Seq<u16> {
    ids_at(nodes, do_positions(nodes), |n: CompiledNode| retry_targets(nodes).contains(n.id))
}

/// Do nodes with neither an `on_error` handler nor a wrapping error handler or repeat.
pub open spec fn uncovered_ids(nodes: Seq<CompiledNode>) -> Seq<u16> {
    ids_at(nodes, do_positions(nodes), |n: CompiledNode|
        n.on_error is None && !handler_bodies(nodes).contains(n.id) && !repeat_bodies(nodes).contains(n.id))
}

/// Comma-separated decimal rendering.
pub open spec fn u16_list(v: Seq<u16>) -> Seq<char> {
    join(v.map_values(|x: u16| decimal(x as nat)), ", "@)
}

/// A check over the Do nodes that fails when `bad` is non-empty.
pub open spec fn list_check(label: Seq<char>, do_count: nat, bad: Seq<u16>, all_text: Seq<char>, bad_text: Seq<char>)
    -> (Seq<char>, bool, Seq<char>) {
    if bad.len() == 0 {
        (label, true, if do_count == 0 { "no Do nodes found"@ } else { "all "@ + decimal(do_count) + all_text })
    } else {
        (label, false, decimal(bad.len()) + bad_text + u16_list(bad))
    }
}

pub open spec fn journal_model(nodes: Seq<CompiledNode>) -> (Seq<char>, bool, Seq<char>) {
    list_check("journal_before_dispatch"@, do_positions(nodes).len(), unguarded_ids(nodes),
        " Do nodes have on_error handlers"@, " Do node(s) without on_error handler: step(s) "@)
}

pub open spec fn completion_model(nodes: Seq<CompiledNode>) -> (Seq<char>, bool, Seq<char>) {
    list_check("completion_before_mutation"@, do_positions(nodes).len(), unguarded_ids(nodes),
        " Do nodes ensure completion before mutation"@, " Do node(s) without completion guard: step(s) "@)
}

pub open spec fn reconciliation_model(nodes: Seq<CompiledNode>) -> (Seq<char>, bool, Seq<char>) {
    if retry_targets(nodes).len() == 0 {
        ("reconciliation_risk"@, true, "no retry-exposed Do nodes"@)
    } else if retried_ids(nodes).len() == 0 {
        ("reconciliation_risk"@, true, "no Do nodes under retry paths"@)
    } else {
        ("reconciliation_risk"@, false, decimal(retried_ids(nodes).len())
            + " Do node(s) under RetryCheck without idempotency guarantee: step(s) "@ + u16_list(retried_ids(nodes)))
    }
}

pub open spec fn timeout_model(nodes: Seq<CompiledNode>) -> (Seq<char>, bool, Seq<char>) {
    list_check("timeout_coverage"@, do_positions(nodes).len(), uncovered_ids(nodes),
        " Do nodes have timeout coverage"@, " Do node(s) without timeout coverage: step(s) "@)
}

/// The four checks of a workflow, in order.
pub open spec fn durability_model(nodes: Seq<CompiledNode>) -> Seq<(Seq<char>, bool, Seq<char>)> {
    if nodes.len() == 0 {
        seq![
            ("journal_before_dispatch"@, true, "no Do nodes in empty workflow"@),
            ("completion_before_mutation"@, true, "no Do nodes in empty workflow"@),
            ("reconciliation_risk"@, true, "no retry-exposed Do nodes"@),
            ("timeout_coverage"@, true, "no Do nodes in empty workflow"@),
        ]
    } else {
        seq![journal_model(nodes), completion_model(nodes), reconciliation_model(nodes), timeout_model(nodes)]
    }
}

/// Every Do position names a Do node inside the array, and every Do node is listed.
pub proof fn lemma_do_positions(nodes: Seq<CompiledNode>)
    requires
        nodes.len() <= usize::MAX,
    ensures
        forall|k: int| 0 <= k < do_positions(nodes).len() ==>
            (#[trigger] do_positions(nodes)[k]) < nodes.len() && nodes[do_positions(nodes)[k] as int].kind is Do,
        forall|i: int| 0 <= i < nodes.len() && (#[trigger] nodes[i]).kind is Do ==>
            exists|k: int| 0 <= k < do_positions(nodes).len() && do_positions(nodes)[k] == i,
    decreases nodes.len(),
{
    if nodes.len() > 0 {
        let t = nodes.drop_last();
        lemma_do_positions(t);
        let pt = do_positions(t);
        let p = do_positions(nodes);
        assert forall|k: int| 0 <= k < p.len() implies (#[trigger] p[k]) < nodes.len() && nodes[p[k] as int].kind is Do by {
            if k < pt.len() {
                assert(p[k] == pt[k]);
                assert(t[pt[k] as int] == nodes[pt[k] as int]);
            }
        }
        assert forall|i: int| 0 <= i < nodes.len() && (#[trigger] nodes[i]).kind is Do implies
            exists|k: int| 0 <= k < p.len() && p[k] == i by {
            if i < nodes.len() - 1 {
                assert(t[i] == nodes[i]);
                let k = choose|k: int| 0 <= k < pt.len() && pt[k] == i;
                assert(p[k] == pt[k]);
            } else {
                assert(p[pt.len() as int] == i);
            }
        }
    }
}

// ---------------------------------------------------------------------------
// Node scans
// ---------------------------------------------------------------------------

/// Collects the array positions of all Do nodes in the workflow.
fn collect_do_node_indices(nodes: &[CompiledNode]) -> (r: Vec<usize>)
    ensures
        r@ == do_positions(nodes@),
{
    let mut indices: Vec<usize> = Vec::new();
    let mut i: usize = 0;
    while i < nodes.len()
        invariant
            i <= nodes@.len(),
            indices@ == do_positions(nodes@.take(i as int)),
        decreases nodes.len() - i,
    {
        proof {
            assert(nodes@.take(i + 1).drop_last() =~= nodes@.take(i as int));
            assert(nodes@.take(i + 1).last() == nodes@[i as int]);
        }
        if let CompiledNodeKind::Do { .. } = nodes[i].kind {
            indices.push(i);
        }
        i += 1;
    }
    proof {
        lemma_take_full(nodes@);
    }
    indices
}

/// Collects the steps that `RetryCheck` nodes retry.
fn collect_retry_check_targets(nodes: &[CompiledNode]) -> (r: Vec<StepIdx>)
    ensures
        r@ == retry_targets(nodes@),
{
    let ghost f = |n: CompiledNode| retry_body(n);
    let mut targets: Vec<StepIdx> = Vec::new();
    let mut i: usize = 0;
    while i < nodes.len()
        invariant
            i <= nodes@.len(),
            f == (|n: CompiledNode| retry_body(n)),
            targets@ == nodes@.take(i as int).filter_map(f),
        decreases nodes.len() - i,
    {
        proof {
            lemma_filter_map_take(nodes@, f, i as int);
        }
        if let CompiledNodeKind::RetryCheck { body, .. } = nodes[i].kind {
            targets.push(body);
        }
        i += 1;
    }
    proof {
        lemma_take_full(nodes@);
    }
    targets
}

/// Collects the bodies of `ErrorHandler` nodes.
fn collect_error_handler_bodies(nodes: &[CompiledNode]) -> (r: Vec<StepIdx>)
    ensures
        r@ == handler_bodies(nodes@),
{
    let ghost f = |n: CompiledNode| handler_body(n);
    let mut bodies: Vec<StepIdx> = Vec::new();
    let mut i: usize = 0;
    while i < nodes.len()
        invariant
            i <= nodes@.len(),
            f == (|n: CompiledNode| handler_body(n)),
            bodies@ == nodes@.take(i as int).filter_map(f),
        decreases nodes.len() - i,
    {
        proof {
            lemma_filter_map_take(nodes@, f, i as int);
        }
        if let CompiledNodeKind::ErrorHandler { body, .. } = nodes[i].kind {
            bodies.push(body);
        }
        i += 1;
    }
    proof {
        lemma_take_full(nodes@);
    }
    bodies
}

/// Collects the bodies of `RepeatStart` and `RepeatAttempt` nodes.
fn collect_repeat_bodies(nodes: &[CompiledNode]) -> (r: Vec<StepIdx>)
    ensures
        r@ == repeat_bodies(nodes@),
{
    let ghost f = |n: CompiledNode| repeat_body(n);
    let mut bodies: Vec<StepIdx> = Vec::new();
    let mut i: usize = 0;
    while i < nodes.len()
        invariant
            i <= nodes@.len(),
            f == (|n: CompiledNode| repeat_body(n)),
            bodies@ == nodes@.take(i as int).filter_map(f),
        decreases nodes.len() - i,
    {
        proof {
            lemma_filter_map_take(nodes@, f, i as int);
        }
        match &nodes[i].kind {
            CompiledNodeKind::RepeatStart { body, .. } => {
                bodies.push(*body);
            }
            CompiledNodeKind::RepeatAttempt { body, .. } => {
                bodies.push(*body);
            }
            _ => {}
        }
        i += 1;
    }
    proof {
        lemma_take_full(nodes@);
    }
    bodies
}

/// Formats a slice of u16 values as a comma-separated string.
fn format_u16_slice(values: &[u16]) -> (s: String)
    ensures
        s@ == u16_list(values@),
{
    let ghost rendered = values@.map_values(|x: u16| decimal(x as nat));
    let mut parts: Vec<String> = Vec::new();
    let mut i: usize = 0;
    while i < values.len()
        invariant
            i <= values@.len(),
            rendered == values@.map_values(|x: u16| decimal(x as nat)),
            parts@.len() == i,
            views(parts@) =~= rendered.take(i as int),
        decreases values.len() - i,
    {
        let mut piece = String::new();
        push_decimal(&mut piece, values[i] as u64);
        let ghost before = parts@;
        parts.push(piece);
        proof {
            assert forall|k: int| 0 <= k < i + 1 implies views(parts@)[k] == rendered.take(i + 1)[k] by {
                if k < i {
                    assert(parts@[k] == before[k]);
                    assert(views(before)[k] == rendered.take(i as int)[k]);
                }
            }
        }
        i += 1;
    }
    proof {
        lemma_take_full(rendered);
    }
    join_strings(&parts, ", ")
}

/// Builds the check of `list_check`.
fn list_check_exec(label: &str, do_count: usize, bad: &Vec<u16>, all_text: &str, bad_text: &str) -> (c: DurabilityCheck)
    ensures
        check_view(c) == list_check(label@, do_count as nat, bad@, all_text@, bad_text@),
{
    if bad.len() == 0 {
        let detail = if do_count == 0 {
            String::from_str("no Do nodes found")
        } else {
            let mut d = String::from_str("all ");
            push_decimal(&mut d, do_count as u64);
            d.append(all_text);
            d
        };
        proof {
            reveal_strlit("no Do nodes found");
            reveal_strlit("all ");
        }
        DurabilityCheck { label: String::from_str(label), passed: true, detail }
    } else {
        let mut detail = String::new();
        push_decimal(&mut detail, bad.len() as u64);
        detail.append(bad_text);
        let list = format_u16_slice(bad.as_slice());
        detail.append(list.as_str());
        DurabilityCheck { label: String::from_str(label), passed: false, detail }
    }
}

/// Ids of the Do nodes at `do_indices` without an `on_error` handler.
fn unguarded_do_ids(nodes: &[CompiledNode], do_indices: &[usize]) -> (r: Vec<u16>)
    requires
        do_indices@ == do_positions(nodes@),
    ensures
        r@ == unguarded_ids(nodes@),
{
    proof {
        assert(nodes@.len() == nodes.len());
        lemma_do_positions(nodes@);
    }
    let ghost f = |i: usize| if nodes@[i as int].on_error is None { Some(nodes@[i as int].id.0) } else { None };
    let mut missing: Vec<u16> = Vec::new();
    let mut j: usize = 0;
    while j < do_indices.len()
        invariant
            j <= do_indices@.len(),
            do_indices@ == do_positions(nodes@),
            forall|k: int| 0 <= k < do_indices@.len() ==> (#[trigger] do_indices@[k]) < nodes@.len(),
            f == (|i: usize| if nodes@[i as int].on_error is None { Some(nodes@[i as int].id.0) } else { None }),
            missing@ == do_indices@.take(j as int).filter_map(f),
        decreases do_indices.len() - j,
    {
        proof {
            lemma_filter_map_take(do_indices@, f, j as int);
        }
        let idx = do_indices[j];
        let node = &nodes[idx];
        if node.on_error.is_none() {
            missing.push(node.id.get());
        }
        j += 1;
    }
    proof {
        lemma_take_full(do_indices@);
        assert(f == (|i: usize| if (|n: CompiledNode| n.on_error is None)(nodes@[i as int]) {
            Some(nodes@[i as int].id.0) } else { None }));
    }
    missing
}

/// Checks that all Do nodes have an on_error handler (journal_before_dispatch).
fn check_journal_before_dispatch(nodes: &[CompiledNode], do_indices: &[usize]) -> (c: DurabilityCheck)
    requires
        do_indices@ == do_positions(nodes@),
    ensures
        check_view(c) == journal_model(nodes@),
{
    let missing = unguarded_do_ids(nodes, do_indices);
    list_check_exec("journal_before_dispatch", do_indices.len(), &missing,
        " Do nodes have on_error handlers", " Do node(s) without on_error handler: step(s) ")
}

/// Checks that all Do nodes have an on_error handler (completion_before_mutation):
/// the handler records the completion of the action before the workflow mutates
/// further state.
fn check_completion_before_mutation(nodes: &[CompiledNode], do_indices: &[usize]) -> (c: DurabilityCheck)
    requires
        do_indices@ == do_positions(nodes@),
    ensures
        check_view(c) == completion_model(nodes@),
{
    let missing = unguarded_do_ids(nodes, do_indices);
    list_check_exec("completion_before_mutation", do_indices.len(), &missing,
        " Do nodes ensure completion before mutation", " Do node(s) without completion guard: step(s) ")
}

/// Checks whether any Do node is retried by a RetryCheck and thus has an
/// idempotency/reconciliation concern on replay.
fn check_reconciliation_risk(nodes: &[CompiledNode], do_indices: &[usize], retry_targets: &Vec<StepIdx>) -> (c: DurabilityCheck)
    requires
        do_indices@ == do_positions(nodes@),
        retry_targets@ == crate::durability::retry_targets(nodes@),
    ensures
        check_view(c) == reconciliation_model(nodes@),
{
    proof {
        reveal_strlit("reconciliation_risk");
        reveal_strlit("no retry-exposed Do nodes");
        reveal_strlit("no Do nodes under retry paths");
    }
    if retry_targets.len() == 0 {
        return DurabilityCheck {
            label: String::from_str("reconciliation_risk"),
            passed: true,
            detail: String::from_str("no retry-exposed Do nodes"),
        };
    }
    proof {
        assert(nodes@.len() == nodes.len());
        lemma_do_positions(nodes@);
    }
    let ghost targets = retry_targets@;
    let ghost f = |i: usize| if targets.contains(nodes@[i as int].id) { Some(nodes@[i as int].id.0) } else { None };
    let mut at_risk: Vec<u16> = Vec::new();
    let mut j: usize = 0;
    while j < do_indices.len()
        invariant
            j <= do_indices@.len(),
            targets == retry_targets@,
            forall|k: int| 0 <= k < do_indices@.len() ==> (#[trigger] do_indices@[k]) < nodes@.len(),
            f == (|i: usize| if targets.contains(nodes@[i as int].id) { Some(nodes@[i as int].id.0) } else { None }),
            at_risk@ == do_indices@.take(j as int).filter_map(f),
        decreases do_indices.len() - j,
    {
        proof {
            lemma_filter_map_take(do_indices@, f, j as int);
        }
        let idx = do_indices[j];
        let node = &nodes[idx];
        if contains_step(retry_targets, node.id) {
            at_risk.push(node.id.get());
        }
        j += 1;
    }
    proof {
        lemma_take_full(do_indices@);
        assert(f == (|i: usize| if (|n: CompiledNode| crate::durability::retry_targets(nodes@).contains(n.id))(nodes@[i as int]) {
            Some(nodes@[i as int].id.0) } else { None }));
    }
    if at_risk.len() == 0 {
        DurabilityCheck {
            label: String::from_str("reconciliation_risk"),
            passed: true,
            detail: String::from_str("no Do nodes under retry paths"),
        }
    } else {
        let mut detail = String::new();
        push_decimal(&mut detail, at_risk.len() as u64);
        detail.append(" Do node(s) under RetryCheck without idempotency guarantee: step(s) ");
        let list = format_u16_slice(at_risk.as_slice());
        detail.append(list.as_str());
        DurabilityCheck { label: String::from_str("reconciliation_risk"), passed: false, detail }
    }
}

/// Checks whether each Do node has timeout coverage: an `on_error` handler of its
/// own, or being the body of an `ErrorHandler`, `RepeatStart` or `RepeatAttempt`.
fn check_timeout_coverage(nodes: &[CompiledNode], do_indices: &[usize]) -> (c: DurabilityCheck)
    requires
        do_indices@ == do_positions(nodes@),
    ensures
        check_view(c) == timeout_model(nodes@),
{
    let error_handler_bodies = collect_error_handler_bodies(nodes);
    let repeat_bodies = collect_repeat_bodies(nodes);
    proof {
        assert(nodes@.len() == nodes.len());
        lemma_do_positions(nodes@);
    }
    let ghost eh = error_handler_bodies@;
    let ghost rb = repeat_bodies@;
    let ghost f = |i: usize| if nodes@[i as int].on_error is None && !eh.contains(nodes@[i as int].id) && !rb.contains(nodes@[i as int].id) {
        Some(nodes@[i as int].id.0) } else { None };
    let mut uncovered: Vec<u16> = Vec::new();
    let mut j: usize = 0;
    while j < do_indices.len()
        invariant
            j <= do_indices@.len(),
            eh == error_handler_bodies@,
            rb == repeat_bodies@,
            forall|k: int| 0 <= k < do_indices@.len() ==> (#[trigger] do_indices@[k]) < nodes@.len(),
            f == (|i: usize| if nodes@[i as int].on_error is None && !eh.contains(nodes@[i as int].id) && !rb.contains(nodes@[i as int].id) {
                Some(nodes@[i as int].id.0) } else { None }),
            uncovered@ == do_indices@.take(j as int).filter_map(f),
        decreases do_indices.len() - j,
    {
        proof {
            lemma_filter_map_take(do_indices@, f, j as int);
        }
        let idx = do_indices[j];
        let node = &nodes[idx];
        if node.on_error.is_none() && !contains_step(&error_handler_bodies, node.id) && !contains_step(&repeat_bodies, node.id) {
            uncovered.push(node.id.get());
        }
        j += 1;
    }
    proof {
        lemma_take_full(do_indices@);
        assert(f == (|i: usize| if (|n: CompiledNode| n.on_error is None && !handler_bodies(nodes@).contains(n.id)
            && !crate::durability::repeat_bodies(nodes@).contains(n.id))(nodes@[i as int]) {
            Some(nodes@[i as int].id.0) } else { None }));
    }
    list_check_exec("timeout_coverage", do_indices.len(), &uncovered,
        " Do nodes have timeout coverage", " Do node(s) without timeout coverage: step(s) ")
}

// ---------------------------------------------------------------------------
// The panel
// ---------------------------------------------------------------------------

/// Positions of the failed checks, in order.
pub open spec fn failed_positions(s: Seq<DurabilityCheck>) -> Seq<usize>
    decreases s.len(),
{
    if s.len() == 0 {
        Seq::empty()
    } else {
        failed_positions(s.drop_last()) + if !s.last().passed { seq![(s.len() - 1) as usize] } else { Seq::empty() }
    }
}

pub open spec fn all_checks_pass(s: Seq<DurabilityCheck>) -> bool {
    forall|i: int| 0 <= i < s.len() ==> (#[trigger] s[i]).passed
}

/// Some check with this label has this verdict.
pub open spec fn has_verdict(s: Seq<DurabilityCheck>, label: Seq<char>, passed: bool) -> bool {
    exists|i: int| 0 <= i < s.len() && (#[trigger] s[i]).passed == passed && s[i].label@ == label
}

/// Replay risk of a list of checks.
pub open spec fn risk_of(s: Seq<DurabilityCheck>) -> ReplayRisk {
    let recon = has_verdict(s, "reconciliation_risk"@, false);
    let timeout = has_verdict(s, "timeout_coverage"@, false);
    if s.len() == 0 || failed_positions(s).len() == 0 {
        ReplayRisk::Safe
    } else if recon && timeout {
        ReplayRisk::Unsafe
    } else if recon {
        ReplayRisk::HighRisk
    } else if failed_positions(s).len() > 1 {
        ReplayRisk::HighRisk
    } else {
        ReplayRisk::LowRisk
    }
}

/// Whether some check with `label` has the verdict `passed`.
fn has_check_verdict(checks: &Vec<DurabilityCheck>, label: &str, passed: bool) -> (r: bool)
    ensures
        r == has_verdict(checks@, label@, passed),
{
    let target = String::from_str(label);
    let mut i: usize = 0;
    while i < checks.len()
        invariant
            i <= checks@.len(),
            target@ == label@,
            forall|j: int| 0 <= j < i ==> !((#[trigger] checks@[j]).passed == passed && checks@[j].label@ == label@),
        decreases checks.len() - i,
    {
        if checks[i].passed == passed && checks[i].label == target {
            assert(checks@[i as int].passed == passed && checks@[i as int].label@ == label@);
            return true;
        }
        i += 1;
    }
    false
}

impl DurabilityPanel {
    pub open spec fn spec_checks(&self) -> Seq<DurabilityCheck> {
        self.checks@
    }

    /// Creates an empty durability panel with no checks.
    pub fn new() -> (p: Self)
        ensures
            p.spec_checks().len() == 0,
    {
        DurabilityPanel { checks: Vec::new() }
    }

    /// Builds a durability panel by examining the Do nodes of a workflow.
    ///
    /// Checks, in order:
    /// - **journal_before_dispatch**: every Do node has an `on_error` handler, so
    ///   journaling happens before the action is dispatched.
    /// - **completion_before_mutation**: the same structural guarantee, read as
    ///   completion being recorded before the workflow mutates further state.
    /// - **reconciliation_risk**: no Do node is the body of a `RetryCheck`.
    /// - **timeout_coverage**: every Do node has an `on_error` handler or is the
    ///   body of an `ErrorHandler`, `RepeatStart` or `RepeatAttempt`.
    pub fn from_workflow(nodes: &[CompiledNode]) -> (p: Self)
        ensures
            check_views(p.spec_checks()) == durability_model(nodes@),
    {
        let mut checks: Vec<DurabilityCheck> = Vec::new();
        if nodes.len() == 0 {
            checks.push(DurabilityCheck {
                label: String::from_str("journal_before_dispatch"),
                passed: true,
                detail: String::from_str("no Do nodes in empty workflow"),
            });
            checks.push(DurabilityCheck {
                label: String::from_str("completion_before_mutation"),
                passed: true,
                detail: String::from_str("no Do nodes in empty workflow"),
            });
            checks.push(DurabilityCheck {
                label: String::from_str("reconciliation_risk"),
                passed: true,
                detail: String::from_str("no retry-exposed Do nodes"),
            });
            checks.push(DurabilityCheck {
                label: String::from_str("timeout_coverage"),
                passed: true,
                detail: String::from_str("no Do nodes in empty workflow"),
            });
            assert(check_views(checks@) =~= durability_model(nodes@));
            return DurabilityPanel { checks };
        }
        let do_indices = collect_do_node_indices(nodes);
        let retry_targets = collect_retry_check_targets(nodes);
        let journal = check_journal_before_dispatch(nodes, do_indices.as_slice());
        checks.push(journal);
        let completion = check_completion_before_mutation(nodes, do_indices.as_slice());
        checks.push(completion);
        let reconciliation = check_reconciliation_risk(nodes, do_indices.as_slice(), &retry_targets);
        checks.push(reconciliation);
        let timeout = check_timeout_coverage(nodes, do_indices.as_slice());
        checks.push(timeout);
        assert(check_views(checks@) =~= durability_model(nodes@));
        DurabilityPanel { checks }
    }

    /// All durability checks, in order.
    pub fn checks(&self) -> (r: &[DurabilityCheck])
        ensures
            r@ == self.spec_checks(),
    {
        self.checks.as_slice()
    }

    /// True if every durability check passed.
    pub fn passed(&self) -> (r: bool)
        ensures
            r == all_checks_pass(self.spec_checks()),
    {
        let mut i: usize = 0;
        while i < self.checks.len()
            invariant
                i <= self.checks@.len(),
                forall|j: int| 0 <= j < i ==> (#[trigger] self.checks@[j]).passed,
            decreases self.checks.len() - i,
        {
            if !self.checks[i].passed {
                return false;
            }
            i += 1;
        }
        true
    }

    /// Positions of all failed checks, in order.
    pub fn failed_checks(&self) -> (r: Vec<usize>)
        ensures
            r@ == failed_positions(self.spec_checks()),
    {
        let mut result: Vec<usize> = Vec::new();
        let mut i: usize = 0;
        while i < self.checks.len()
            invariant
                i <= self.checks@.len(),
                result@ == failed_positions(self.checks@.take(i as int)),
            decreases self.checks.len() - i,
        {
            proof {
                assert(self.checks@.take(i + 1).drop_last() =~= self.checks@.take(i as int));
                assert(self.checks@.take(i + 1).last() == self.checks@[i as int]);
            }
            if !self.checks[i].passed {
                result.push(i);
            }
            i += 1;
        }
        proof {
            lemma_take_full(self.checks@);
        }
        result
    }

    /// The overall replay risk: Safe without failures; Unsafe when both the
    /// reconciliation and timeout checks fail; HighRisk when reconciliation fails
    /// or more than one check fails; LowRisk otherwise.
    pub fn replay_risk_level(&self) -> (r: ReplayRisk)
        ensures
            r == risk_of(self.spec_checks()),
    {
        if self.checks.len() == 0 {
            return ReplayRisk::Safe;
        }
        let fail_count = self.failed_checks().len();
        if fail_count == 0 {
            return ReplayRisk::Safe;
        }
        let has_timeout_failure = has_check_verdict(&self.checks, "timeout_coverage", false);
        let has_reconciliation_failure = has_check_verdict(&self.checks, "reconciliation_risk", false);
        if has_reconciliation_failure && has_timeout_failure {
            return ReplayRisk::Unsafe;
        }
        if has_reconciliation_failure {
            return ReplayRisk::HighRisk;
        }
        if fail_count > 1 {
            return ReplayRisk::HighRisk;
        }
        ReplayRisk::LowRisk
    }
}

impl Default for DurabilityPanel {
    fn default() -> (p: Self)
        ensures
            p.spec_checks().len() == 0,
    {
        DurabilityPanel::new()
    }
}

// ---------------------------------------------------------------------------
// Durability levels and the durability report
// ---------------------------------------------------------------------------

/// Durability guarantee level for a workflow, from weakest to strongest.
#[derive(Debug, Clone, Copy, PartialEq, Eq, Structural)]
pub enum DurabilityLevel {
    /// No explicit journaling; best-effort execution only.
    BestEffort,
    /// Actions are journaled before dispatch so that replay can skip completed work.
    Journaled,
    /// Journaling, completion guards and idempotency guarantees are all enforced.
    Strict,
}

impl Default for DurabilityLevel {
    fn default() -> (l: Self)
        ensures
            l == DurabilityLevel::BestEffort,
    {
        DurabilityLevel::BestEffort
    }
}

pub open spec fn level_rank(l: DurabilityLevel) -> u8 {
    match l {
        DurabilityLevel::BestEffort => 0,
        DurabilityLevel::Journaled => 1,
        DurabilityLevel::Strict => 2,
    }
}

impl DurabilityLevel {
    /// The display label: the variant name.
    pub fn label(&self) -> (r: &'static str)
        ensures
            r@ == match *self {
                DurabilityLevel::BestEffort => "BestEffort"@,
                DurabilityLevel::Journaled => "Journaled"@,
                DurabilityLevel::Strict => "Strict"@,
            },
    {
        match self {
            DurabilityLevel::BestEffort => "BestEffort",
            DurabilityLevel::Journaled => "Journaled",
            DurabilityLevel::Strict => "Strict",
        }
    }

    /// The hex color of this level: orange, cyan, green.
    pub fn color(&self) -> (r: &'static str)
        ensures
            r == match *self {
                DurabilityLevel::BestEffort => NEON_ORANGE,
                DurabilityLevel::Journaled => NEON_CYAN,
                DurabilityLevel::Strict => NEON_GREEN,
            },
    {
        match self {
            DurabilityLevel::BestEffort => NEON_ORANGE,
            DurabilityLevel::Journaled => NEON_CYAN,
            DurabilityLevel::Strict => NEON_GREEN,
        }
    }

    /// Numeric rank for comparison: higher is more durable.
    pub fn rank(&self) -> (r: u8)
        ensures
            r == level_rank(*self),
    {
        match self {
            DurabilityLevel::BestEffort => 0,
            DurabilityLevel::Journaled => 1,
            DurabilityLevel::Strict => 2,
        }
    }
}

/// One check of the durability verification report.
#[derive(Debug, Clone)]
pub struct DurabilityVerifyCheck {
    /// The durability level this check is associated with.
    pub level: DurabilityLevel,
    /// Whether the check passed.
    pub passed: bool,
    /// Detail explaining the result.
    pub detail: String,
}

impl DurabilityVerifyCheck {
    pub fn new(level: DurabilityLevel, passed: bool, detail: &str) -> (c: Self)
        ensures
            c.level == level,
            c.passed == passed,
            c.detail@ == detail@,
    {
        DurabilityVerifyCheck { level, passed, detail: String::from_str(detail) }
    }
}

/// Resource budget limits of the verification process itself.
#[derive(Debug, Clone, PartialEq, Eq, Structural)]
pub struct ResourceBudgetBounds {
    /// Maximum memory usage in megabytes.
    pub max_memory_mb: u64,
    /// Maximum CPU time in milliseconds.
    pub max_cpu_ms: u64,
    /// Maximum wall-clock time in milliseconds.
    pub max_wall_ms: u64,
}

impl ResourceBudgetBounds {
    pub fn new(max_memory_mb: u64, max_cpu_ms: u64, max_wall_ms: u64) -> (b: Self)
        ensures
            b == (ResourceBudgetBounds { max_memory_mb, max_cpu_ms, max_wall_ms }),
    {
        ResourceBudgetBounds { max_memory_mb, max_cpu_ms, max_wall_ms }
    }

    /// The bounds used when none are specified: 512 MB, 5000 ms CPU, 10000 ms wall.
    pub fn defaults() -> (b: Self)
        ensures
            b == (ResourceBudgetBounds { max_memory_mb: 512, max_cpu_ms: 5000, max_wall_ms: 10_000 }),
    {
        ResourceBudgetBounds { max_memory_mb: 512, max_cpu_ms: 5000, max_wall_ms: 10_000 }
    }
}

impl Default for ResourceBudgetBounds {
    fn default() -> (b: Self)
        ensures
            b == (ResourceBudgetBounds { max_memory_mb: 512, max_cpu_ms: 5000, max_wall_ms: 10_000 }),
    {
        ResourceBudgetBounds::defaults()
    }
}

/// A resource usage metric: actual usage against a limit.
#[derive(Debug, Clone)]
pub struct DurabilityResourceMetric {
    /// Name of the metric ("memory", "cpu_time", "wall_time").
    pub name: String,
    /// Actual usage measured.
    pub used: u64,
    /// Configured limit.
    pub limit: u64,
}

/// `x` clamped to the `u32` range.
pub open spec fn clamp_u32(x: u64) -> int {
    if x > u32::MAX { u32::MAX as int } else { x as int }
}

/// Usage above nine tenths of a non-zero limit, both clamped to the `u32` range:
/// the utilisation ratio exceeds 0.9.
pub open spec fn near_limit(used: u64, limit: u64) -> bool {
    limit > 0 && clamp_u32(used) * 10 > clamp_u32(limit) * 9
}

pub open spec fn metric_color(used: u64, limit: u64) -> &'static str {
    if used <= limit {
        if near_limit(used, limit) { NEON_ORANGE } else { NEON_GREEN }
    } else {
        NEON_RED
    }
}

fn clamp_to_u32(x: u64) -> (r: u64)
    ensures
        r == clamp_u32(x),
{
    if x > 0xFFFF_FFFF { 0xFFFF_FFFF } else { x }
}

impl DurabilityResourceMetric {
    pub fn new(name: &str, used: u64, limit: u64) -> (m: Self)
        ensures
            m.name@ == name@,
            m.used == used,
            m.limit == limit,
    {
        DurabilityResourceMetric { name: String::from_str(name), used, limit }
    }

    /// True if usage is within the configured limit.
    pub fn within_bounds(&self) -> (r: bool)
        ensures
            r == (self.used <= self.limit),
    {
        self.used <= self.limit
    }

    /// Red over the limit; orange when utilisation exceeds 0.9; green otherwise.
    pub fn status_color(&self) -> (r: &'static str)
        ensures
            r == metric_color(self.used, self.limit),
    {
        if self.within_bounds() {
            let used = clamp_to_u32(self.used);
            let limit = clamp_to_u32(self.limit);
            if self.limit > 0 && used * 10 > limit * 9 {
                NEON_ORANGE
            } else {
                NEON_GREEN
            }
        } else {
            NEON_RED
        }
    }
}

/// The complete durability verification report.
#[derive(Debug, Clone)]
pub struct DurabilityReport {
    /// The overall durability level for this workflow.
    pub level: DurabilityLevel,
    /// Individual durability verification checks.
    pub checks: Vec<DurabilityVerifyCheck>,
    /// Resource usage metrics for the verification process.
    pub resource_metrics: Vec<DurabilityResourceMetric>,
    /// Timestamp of this report in microseconds since epoch.
    pub timestamp_micros: u64,
}

pub open spec fn verify_passed(c: DurabilityVerifyCheck) -> bool {
    c.passed
}

pub open spec fn verify_failed(c: DurabilityVerifyCheck) -> bool {
    !c.passed
}

impl DurabilityReport {
    pub fn new(level: DurabilityLevel, checks: Vec<DurabilityVerifyCheck>,
        resource_metrics: Vec<DurabilityResourceMetric>, timestamp_micros: u64) -> (r: Self)
        ensures
            r == (DurabilityReport { level, checks, resource_metrics, timestamp_micros }),
    {
        DurabilityReport { level, checks, resource_metrics, timestamp_micros }
    }

    /// An empty report: best-effort level, no checks, no metrics, timestamp 0.
    pub fn empty() -> (r: Self)
        ensures
            r.level == DurabilityLevel::BestEffort,
            r.checks@.len() == 0,
            r.resource_metrics@.len() == 0,
            r.timestamp_micros == 0,
    {
        DurabilityReport { level: DurabilityLevel::BestEffort, checks: Vec::new(), resource_metrics: Vec::new(), timestamp_micros: 0 }
    }

    /// True if all durability checks passed.
    pub fn all_passed(&self) -> (r: bool)
        ensures
            r == forall|i: int| 0 <= i < self.checks@.len() ==> (#[trigger] self.checks@[i]).passed,
    {
        let mut i: usize = 0;
        while i < self.checks.len()
            invariant
                i <= self.checks@.len(),
                forall|j: int| 0 <= j < i ==> (#[trigger] self.checks@[j]).passed,
            decreases self.checks.len() - i,
        {
            if !self.checks[i].passed {
                return false;
            }
            i += 1;
        }
        true
    }

    /// The number of checks that passed.
    pub fn pass_count(&self) -> (r: usize)
        ensures
            r == count_where(self.checks@, |c: DurabilityVerifyCheck| verify_passed(c)),
    {
        let ghost p = |c: DurabilityVerifyCheck| verify_passed(c);
        let mut n: usize = 0;
        let mut i: usize = 0;
        while i < self.checks.len()
            invariant
                i <= self.checks@.len(),
                p == (|c: DurabilityVerifyCheck| verify_passed(c)),
                n == count_where(self.checks@.take(i as int), p),
                n <= i,
            decreases self.checks.len() - i,
        {
            proof {
                lemma_count_where_take(self.checks@, p, i as int);
            }
            if self.checks[i].passed {
                n += 1;
            }
            i += 1;
        }
        proof {
            lemma_take_full(self.checks@);
        }
        n
    }

    /// The number of checks that failed.
    pub fn fail_count(&self) -> (r: usize)
        ensures
            r == count_where(self.checks@, |c: DurabilityVerifyCheck| verify_failed(c)),
    {
        let ghost p = |c: DurabilityVerifyCheck| verify_failed(c);
        let mut n: usize = 0;
        let mut i: usize = 0;
        while i < self.checks.len()
            invariant
                i <= self.checks@.len(),
                p == (|c: DurabilityVerifyCheck| verify_failed(c)),
                n == count_where(self.checks@.take(i as int), p),
                n <= i,
            decreases self.checks.len() - i,
        {
            proof {
                lemma_count_where_take(self.checks@, p, i as int);
            }
            if !self.checks[i].passed {
                n += 1;
            }
            i += 1;
        }
        proof {
            lemma_take_full(self.checks@);
        }
        n
    }

    /// True if every resource metric is within its limit.
    pub fn resources_within_bounds(&self) -> (r: bool)
        ensures
            r == forall|i: int| 0 <= i < self.resource_metrics@.len()
                ==> (#[trigger] self.resource_metrics@[i]).used <= self.resource_metrics@[i].limit,
    {
        let mut i: usize = 0;
        while i < self.resource_metrics.len()
            invariant
                i <= self.resource_metrics@.len(),
                forall|j: int| 0 <= j < i ==> (#[trigger] self.resource_metrics@[j]).used <= self.resource_metrics@[j].limit,
            decreases self.resource_metrics.len() - i,
        {
            if !self.resource_metrics[i].within_bounds() {
                return false;
            }
            i += 1;
        }
        true
    }

    /// "<passed>/<total> checks passed".
    pub fn summary(&self) -> (s: String)
        ensures
            s@ == decimal(count_where(self.checks@, |c: DurabilityVerifyCheck| verify_passed(c)))
                + "/"@ + decimal(self.checks@.len()) + " checks passed"@,
    {
        let total = self.checks.len();
        let passed = self.pass_count();
        let mut s = String::new();
        push_decimal(&mut s, passed as u64);
        s.append("/");
        push_decimal(&mut s, total as u64);
        s.append(" checks passed");
        s
    }
}

impl Default for DurabilityReport {
    fn default() -> (r: Self)
        ensures
            r.level == DurabilityLevel::BestEffort,
            r.checks@.len() == 0,
            r.resource_metrics@.len() == 0,
            r.timestamp_micros == 0,
    {
        DurabilityReport::empty()
    }
}

/// The durability level of a list of checks: Strict when the journal,
/// completion, reconciliation and timeout checks each passed somewhere; Journaled
/// when only journal and completion did; BestEffort otherwise.
pub open spec fn level_of(s: Seq<DurabilityCheck>) -> DurabilityLevel {
    let jc = has_verdict(s, "journal_before_dispatch"@, true) && has_verdict(s, "completion_before_mutation"@, true);
    if jc && has_verdict(s, "reconciliation_risk"@, true) && has_verdict(s, "timeout_coverage"@, true) {
        DurabilityLevel::Strict
    } else if jc {
        DurabilityLevel::Journaled
    } else {
        DurabilityLevel::BestEffort
    }
}

/// Determines the effective durability level of a workflow from its durability
/// panel: `Strict` when every Do node has an `on_error` handler and no Do node
/// is retry-exposed, `Journaled` when every Do node has a handler but some are
/// retry-exposed, `BestEffort` otherwise.
pub fn check_durability_level(panel: &DurabilityPanel) -> (l: DurabilityLevel)
    ensures
        l == level_of(panel.spec_checks()),
{
    let checks = &panel.checks;
    let journal_passed = has_check_verdict(checks, "journal_before_dispatch", true);
    let completion_passed = has_check_verdict(checks, "completion_before_mutation", true);
    let recon_passed = has_check_verdict(checks, "reconciliation_risk", true);
    let timeout_passed = has_check_verdict(checks, "timeout_coverage", true);
    let has_journal_and_completion = journal_passed && completion_passed;
    if has_journal_and_completion && recon_passed && timeout_passed {
        DurabilityLevel::Strict
    } else if has_journal_and_completion {
        DurabilityLevel::Journaled
    } else {
        DurabilityLevel::BestEffort
    }
}

pub open spec fn metric_is(m: DurabilityResourceMetric, name: Seq<char>, used: u64, limit: u64) -> bool {
    m.name@ == name && m.used == used && m.limit == limit
}

/// Usage metrics for memory, CPU time and wall time against their bounds.
pub fn compute_resource_usage(memory_used_mb: u64, cpu_used_ms: u64, wall_used_ms: u64,
    bounds: &ResourceBudgetBounds) -> (r: Vec<DurabilityResourceMetric>)
    ensures
        r@.len() == 3,
        metric_is(r@[0], "memory"@, memory_used_mb, bounds.max_memory_mb),
        metric_is(r@[1], "cpu_time"@, cpu_used_ms, bounds.max_cpu_ms),
        metric_is(r@[2], "wall_time"@, wall_used_ms, bounds.max_wall_ms),
{
    let mut v: Vec<DurabilityResourceMetric> = Vec::new();
    v.push(DurabilityResourceMetric::new("memory", memory_used_mb, bounds.max_memory_mb));
    v.push(DurabilityResourceMetric::new("cpu_time", cpu_used_ms, bounds.max_cpu_ms));
    v.push(DurabilityResourceMetric::new("wall_time", wall_used_ms, bounds.max_wall_ms));
    v
}

/// Builds the durability report of a panel: its level, one verification check
/// per panel check (same verdict and detail, tagged with the level), the
/// resource usage metrics and the timestamp.
pub fn build_durability_report(panel: &DurabilityPanel, memory_used_mb: u64, cpu_used_ms: u64,
    wall_used_ms: u64, bounds: &ResourceBudgetBounds, timestamp_micros: u64) -> (r: DurabilityReport)
    ensures
        r.level == level_of(panel.spec_checks()),
        r.checks@.len() == panel.spec_checks().len(),
        forall|i: int| 0 <= i < r.checks@.len() ==> {
            &&& (#[trigger] r.checks@[i]).level == r.level
            &&& r.checks@[i].passed == panel.spec_checks()[i].passed
            &&& r.checks@[i].detail@ == panel.spec_checks()[i].detail@
        },
        r.resource_metrics@.len() == 3,
        metric_is(r.resource_metrics@[0], "memory"@, memory_used_mb, bounds.max_memory_mb),
        metric_is(r.resource_metrics@[1], "cpu_time"@, cpu_used_ms, bounds.max_cpu_ms),
        metric_is(r.resource_metrics@[2], "wall_time"@, wall_used_ms, bounds.max_wall_ms),
        r.timestamp_micros == timestamp_micros,
{
    let level = check_durability_level(panel);
    let mut checks: Vec<DurabilityVerifyCheck> = Vec::new();
    let mut i: usize = 0;
    while i < panel.checks.len()
        invariant
            i <= panel.checks@.len(),
            checks@.len() == i,
            forall|j: int| 0 <= j < i ==> {
                &&& (#[trigger] checks@[j]).level == level
                &&& checks@[j].passed == panel.checks@[j].passed
                &&& checks@[j].detail@ == panel.checks@[j].detail@
            },
        decreases panel.checks.len() - i,
    {
        let c = &panel.checks[i];
        checks.push(DurabilityVerifyCheck::new(level, c.passed, c.detail.as_str()));
        i += 1;
    }
    let resource_metrics = compute_resource_usage(memory_used_mb, cpu_used_ms, wall_used_ms, bounds);
    DurabilityReport::new(level, checks, resource_metrics, timestamp_micros)
}

// ---------------------------------------------------------------------------
// Laws
// ---------------------------------------------------------------------------

/// Every Do node has an `on_error` handler.
pub open spec fn all_do_guarded(nodes: Seq<CompiledNode>) -> bool {
    forall|i: int| 0 <= i < nodes.len() && (#[trigger] nodes[i]).kind is Do ==> nodes[i].on_error is Some
}

/// Some Do node is the body of a `RetryCheck`.
pub open spec fn retry_exposed(nodes: Seq<CompiledNode>) -> bool {
    exists|i: int| 0 <= i < nodes.len() && (#[trigger] nodes[i]).kind is Do && retry_targets(nodes).contains(nodes[i].id)
}

pub open spec fn has_do_node(nodes: Seq<CompiledNode>) -> bool {
    exists|i: int| 0 <= i < nodes.len() && (#[trigger] nodes[i]).kind is Do
}

/// No Do node satisfies `p` exactly when the ids it selects are none.
proof fn lemma_ids_at_empty(nodes: Seq<CompiledNode>, p: spec_fn(CompiledNode) -> bool)
    requires
        nodes.len() <= usize::MAX,
    ensures
        (ids_at(nodes, do_positions(nodes), p).len() == 0)
            <==> (forall|i: int| 0 <= i < nodes.len() && (#[trigger] nodes[i]).kind is Do ==> !p(nodes[i])),
{
    let pos = do_positions(nodes);
    let g = |i: usize| if p(nodes[i as int]) { Some(nodes[i as int].id.0) } else { None };
    lemma_do_positions(nodes);
    lemma_filter_map_empty(pos, g);
    assert(ids_at(nodes, pos, p) == pos.filter_map(g));
    if ids_at(nodes, pos, p).len() == 0 {
        assert forall|i: int| 0 <= i < nodes.len() && (#[trigger] nodes[i]).kind is Do implies !p(nodes[i]) by {
            let k = choose|k: int| 0 <= k < pos.len() && pos[k] == i;
            assert(g(pos[k]) is None);
        }
    } else {
        let k = choose|k: int| 0 <= k < pos.len() && !(#[trigger] g(pos[k]) is None);
        assert(nodes[pos[k] as int].kind is Do);
    }
}

/// The verdicts of a workflow's four checks in terms of its nodes.
proof fn lemma_workflow_verdicts(nodes: Seq<CompiledNode>)
    requires
        nodes.len() <= usize::MAX,
    ensures
        durability_model(nodes).len() == 4,
        durability_model(nodes)[0].1 == all_do_guarded(nodes),
        durability_model(nodes)[1].1 == all_do_guarded(nodes),
        durability_model(nodes)[2].1 == !retry_exposed(nodes),
        all_do_guarded(nodes) ==> durability_model(nodes)[3].1,
        !has_do_node(nodes) ==> durability_model(nodes)[3].1,
{
    if nodes.len() > 0 {
        lemma_ids_at_empty(nodes, |n: CompiledNode| n.on_error is None);
        lemma_ids_at_empty(nodes, |n: CompiledNode| retry_targets(nodes).contains(n.id));
        lemma_ids_at_empty(nodes, |n: CompiledNode|
            n.on_error is None && !handler_bodies(nodes).contains(n.id) && !repeat_bodies(nodes).contains(n.id));
        if retry_targets(nodes).len() == 0 {
            assert(!retry_exposed(nodes));
        }
    }
}

/// With labels pairwise distinct, a label's verdict is that of its own check.
proof fn lemma_verdict_at(s: Seq<DurabilityCheck>, k: int, label: Seq<char>, passed: bool)
    requires
        0 <= k < s.len(),
        s[k].label@ == label,
        forall|j: int| 0 <= j < s.len() && j != k ==> (#[trigger] s[j]).label@ != label,
    ensures
        has_verdict(s, label, passed) <==> s[k].passed == passed,
{
    if s[k].passed == passed {
        assert(s[k].passed == passed && s[k].label@ == label);
    }
}

/// No check fails exactly when every check passes.
proof fn lemma_failed_positions_empty(s: Seq<DurabilityCheck>)
    ensures
        (failed_positions(s).len() == 0) <==> all_checks_pass(s),
    decreases s.len(),
{
    if s.len() > 0 {
        let t = s.drop_last();
        lemma_failed_positions_empty(t);
        if all_checks_pass(s) {
            assert forall|i: int| 0 <= i < t.len() implies (#[trigger] t[i]).passed by {
                assert(t[i] == s[i]);
            }
            assert(s[s.len() - 1].passed);
        }
        if failed_positions(s).len() == 0 {
            assert forall|i: int| 0 <= i < s.len() implies (#[trigger] s[i]).passed by {
                if i < s.len() - 1 {
                    assert(t[i] == s[i]);
                }
            }
        }
    }
}

/// A panel's replay risk is Safe exactly when every one of its checks passed.
pub proof fn lemma_risk_safe_iff_all_pass(s: Seq<DurabilityCheck>)
    ensures
        (risk_of(s) == ReplayRisk::Safe) <==> all_checks_pass(s),
{
    lemma_failed_positions_empty(s);
}

/// For the panel of a workflow (`from_workflow`):
/// - the journal and completion checks always agree;
/// - the durability level is Strict when every Do node has an `on_error`
///   handler and none is retried by a `RetryCheck`, Journaled when every Do
///   node has a handler but some is retried, and BestEffort otherwise;
/// - the replay risk is Safe exactly when the level is Strict, and is never LowRisk;
/// - a workflow without Do nodes is Safe.
pub proof fn lemma_workflow_panel_laws(nodes: Seq<CompiledNode>, s: Seq<DurabilityCheck>)
    requires
        nodes.len() <= usize::MAX,
        check_views(s) == durability_model(nodes),
    ensures
        s[0].passed == s[1].passed,
        level_of(s) == if all_do_guarded(nodes) {
            if retry_exposed(nodes) { DurabilityLevel::Journaled } else { DurabilityLevel::Strict }
        } else {
            DurabilityLevel::BestEffort
        },
        (risk_of(s) == ReplayRisk::Safe) <==> (level_of(s) == DurabilityLevel::Strict),
        risk_of(s) != ReplayRisk::LowRisk,
        !has_do_node(nodes) ==> risk_of(s) == ReplayRisk::Safe,
{
    lemma_workflow_verdicts(nodes);
    let m = durability_model(nodes);
    assert(s.len() == 4) by {
        assert(check_views(s).len() == s.len());
    }
    assert forall|j: int| 0 <= j < 4 implies check_view(#[trigger] s[j]) == m[j] by {
        assert(check_views(s)[j] == check_view(s[j]));
    }
    reveal_strlit("journal_before_dispatch");
    reveal_strlit("completion_before_mutation");
    reveal_strlit("reconciliation_risk");
    reveal_strlit("timeout_coverage");
    assert(check_view(s[0]) == m[0] && check_view(s[1]) == m[1] && check_view(s[2]) == m[2] && check_view(s[3]) == m[3]);
    assert(s[0].label@ == "journal_before_dispatch"@);
    assert(s[1].label@ == "completion_before_mutation"@);
    assert(s[2].label@ == "reconciliation_risk"@);
    assert(s[3].label@ == "timeout_coverage"@);
    lemma_verdict_at(s, 0, "journal_before_dispatch"@, true);
    lemma_verdict_at(s, 1, "completion_before_mutation"@, true);
    lemma_verdict_at(s, 2, "reconciliation_risk"@, true);
    lemma_verdict_at(s, 3, "timeout_coverage"@, true);
    lemma_verdict_at(s, 2, "reconciliation_risk"@, false);
    lemma_verdict_at(s, 3, "timeout_coverage"@, false);
    lemma_failed_positions_empty(s);
    reveal_with_fuel(failed_positions, 5);
    if !has_do_node(nodes) {
        assert(all_do_guarded(nodes));
        assert(!retry_exposed(nodes));
    }
}

/// Every check of a report either passed or failed.
pub proof fn lemma_report_counts(r: DurabilityReport)
    ensures
        count_where(r.checks@, |c: DurabilityVerifyCheck| verify_passed(c))
            + count_where(r.checks@, |c: DurabilityVerifyCheck| verify_failed(c)) == r.checks@.len(),
{
    lemma_pass_fail_split(r.checks@);
}

proof fn lemma_pass_fail_split(s: Seq<DurabilityVerifyCheck>)
    ensures
        count_where(s, |c: DurabilityVerifyCheck| verify_passed(c))
            + count_where(s, |c: DurabilityVerifyCheck| verify_failed(c)) == s.len(),
    decreases s.len(),
{
    if s.len() > 0 {
        lemma_pass_fail_split(s.drop_last());
    }
}

/// Node `n` is a `RetryCheck` whose body is `t`.
pub open spec fn retries_step(n: CompiledNode, t: StepIdx) -> bool {
    match n.kind {
        CompiledNodeKind::RetryCheck { body, .. } => body == t,
        _ => false,
    }
}

/// The steps a `RetryCheck` retries: a step is listed exactly when some
/// `RetryCheck` node has it as its body. No other node kind contributes.
pub proof fn lemma_retry_targets_are_retry_bodies(nodes: Seq<CompiledNode>, t: StepIdx)
    ensures
        retry_targets(nodes).contains(t) <==> exists|i: int| 0 <= i < nodes.len()
            && retries_step(#[trigger] nodes[i], t),
{
    let f = |n: CompiledNode| retry_body(n);
    crate::seqs::lemma_filter_map_contains(nodes, f, t);
    if retry_targets(nodes).contains(t) {
        let k = choose|k: int| 0 <= k < nodes.len() && #[trigger] f(nodes[k]) == Some(t);
        assert(retries_step(nodes[k], t));
    }
    if exists|i: int| 0 <= i < nodes.len()
        && retries_step(#[trigger] nodes[i], t) {
        let i = choose|i: int| 0 <= i < nodes.len()
            && retries_step(#[trigger] nodes[i], t);
        assert(f(nodes[i]) == Some(t));
    }
}

/// A workflow without any `RetryCheck` node has no retry-exposed Do node: its
/// reconciliation check passes. If moreover every Do node has an `on_error`
/// handler, its durability level is Strict and its replay risk Safe.
pub proof fn lemma_no_retry_check_no_reconciliation_risk(nodes: Seq<CompiledNode>, s: Seq<DurabilityCheck>)
    requires
        nodes.len() <= usize::MAX,
        check_views(s) == durability_model(nodes),
        forall|i: int| 0 <= i < nodes.len() ==> !((#[trigger] nodes[i]).kind is RetryCheck),
    ensures
        s.len() == 4,
        s[2].label@ == "reconciliation_risk"@,
        s[2].passed,
        (forall|i: int| 0 <= i < nodes.len() && (#[trigger] nodes[i]).kind is Do ==> nodes[i].on_error is Some)
            ==> level_of(s) == DurabilityLevel::Strict && risk_of(s) == ReplayRisk::Safe,
{
    lemma_workflow_verdicts(nodes);
    lemma_workflow_panel_laws(nodes, s);
    assert(check_views(s).len() == s.len());
    assert(check_views(s)[2] == check_view(s[2]));
    assert(!retry_exposed(nodes)) by {
        if retry_exposed(nodes) {
            let i = choose|i: int| 0 <= i < nodes.len() && (#[trigger] nodes[i]).kind is Do
                && retry_targets(nodes).contains(nodes[i].id);
            lemma_retry_targets_are_retry_bodies(nodes, nodes[i].id);
            let j = choose|j: int| 0 <= j < nodes.len()
                && retries_step(#[trigger] nodes[j], nodes[i].id);
            assert(nodes[j].kind is RetryCheck);
        }
    }
}

} // verus!
