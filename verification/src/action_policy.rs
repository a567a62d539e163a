//! Action policy analysis of the Do nodes of a compiled workflow: idempotency
//! class, timeout coverage, strict-mode eligibility and policy issues per action.
use std::collections::HashMap;
use vstd::prelude::*;
use crate::workflow::{ActionContract, ActionId, CompiledNode, CompiledNodeKind, Idempotency, RetrySafety, WorkflowParts};
use crate::certificates::do_action_id;
use crate::seqs::lemma_take_full;

verus! {

/// Classification of an action's idempotency guarantee.
#[derive(Debug, Clone, Copy, PartialEq, Eq, Structural)]
pub enum IdempotencyClass {
    /// Pure deterministic computation with no side effects.
    DeterministicPure,
    /// External call that is idempotent when retried with the same key.
    AtLeastOnce,
    /// No contract found or idempotency cannot be determined.
    Unknown,
}

/// A policy compliance issue found during action analysis.
#[derive(Debug, Clone, Copy, PartialEq, Eq, Structural)]
pub enum PolicyIssue {
    /// The action has no timeout configured (timeout_ms == 0).
    MissingTimeout,
    /// The action has no idempotency declaration or it is Unknown.
    MissingIdempotency,
    /// The action's retries can cause duplicate side effects.
    UnsafeRetry,
}

/// Per-action policy compliance report.
#[derive(Debug, Clone)]
pub struct ActionPolicyReport {
    /// The raw action id from the Do node.
    pub action_id: u16,
    /// Idempotency classification derived from the action contract.
    pub idempotency_class: IdempotencyClass,
    /// Whether the action has a non-zero timeout.
    pub has_timeout: bool,
    /// The timeout in milliseconds, clamped to `u32::MAX`, when configured.
    pub timeout_ms: Option<u32>,
    /// Whether this action is eligible for strict-mode execution.
    pub strict_eligible: bool,
    /// Policy issues found during analysis.
    pub issues: Vec<PolicyIssue>,
}

// ---------------------------------------------------------------------------
// Model
// ---------------------------------------------------------------------------

pub open spec fn class_of(c: Option<ActionContract>) -> IdempotencyClass {
    match c {
        None => IdempotencyClass::Unknown,
        Some(c) => if c.idempotency == Idempotency::DeterministicPure {
            IdempotencyClass::DeterministicPure
        } else {
            IdempotencyClass::AtLeastOnce
        },
    }
}

pub open spec fn has_timeout_of(c: Option<ActionContract>) -> bool {
    match c {
        None => false,
        Some(c) => c.timeout_ms > 0,
    }
}

/// The configured timeout clamped to the `u32` range.
pub open spec fn timeout_of(c: Option<ActionContract>) -> Option<u32> {
    match c {
        Some(c) => if c.timeout_ms == 0 {
            None
        } else if c.timeout_ms > u32::MAX {
            Some(u32::MAX)
        } else {
            Some(c.timeout_ms as u32)
        },
        None => None,
    }
}

/// Issues in the order they are reported: timeout, idempotency, retry safety.
pub open spec fn issues_of(c: Option<ActionContract>) -> Seq<PolicyIssue> {
    (if !has_timeout_of(c) { seq![PolicyIssue::MissingTimeout] } else { Seq::empty() })
        + (if class_of(c) == IdempotencyClass::Unknown { seq![PolicyIssue::MissingIdempotency] } else { Seq::empty() })
        + (match c {
            Some(c) => if c.retry_safety == RetrySafety::Unsafe { seq![PolicyIssue::UnsafeRetry] } else { Seq::empty() },
            None => Seq::empty(),
        })
}

/// Retries are declared safe (`RetrySafety::Safe`); false without a contract.
pub open spec fn retry_safe_of(c: Option<ActionContract>) -> bool {
    match c {
        Some(c) => c.retry_safety == RetrySafety::Safe,
        None => false,
    }
}

pub open spec fn strict_eligible_of(class: IdempotencyClass, has_timeout: bool, issues: Seq<PolicyIssue>) -> bool {
    class == IdempotencyClass::DeterministicPure && has_timeout && issues.len() == 0
}

/// `r` is the report for `action` under `contract`.
pub open spec fn report_is(r: ActionPolicyReport, action: u16, c: Option<ActionContract>) -> bool {
    &&& r.action_id == action
    &&& r.idempotency_class == class_of(c)
    &&& r.has_timeout == has_timeout_of(c)
    &&& r.timeout_ms == timeout_of(c)
    &&& r.issues@ == issues_of(c)
    &&& r.strict_eligible == (strict_eligible_of(class_of(c), has_timeout_of(c), issues_of(c)) && retry_safe_of(c))
}

/// Index of the first contract declared for `action`, if any.
pub open spec fn first_contract_index(contracts: Seq<ActionContract>, action: u16) -> Option<int> {
    if exists|i: int| 0 <= i < contracts.len() && contracts[i].id.0 == action {
        Some(choose|i: int| 0 <= i < contracts.len() && contracts[i].id.0 == action
            && forall|j: int| 0 <= j < i ==> contracts[j].id.0 != action)
    } else {
        None
    }
}

/// The first contract declared for `action`, if any.
pub open spec fn contract_for(contracts: Seq<ActionContract>, action: u16) -> Option<ActionContract> {
    match first_contract_index(contracts, action) {
        Some(i) => Some(contracts[i]),
        None => None,
    }
}

/// Removes repeated values, keeping each first occurrence in order.
pub open spec fn dedup(s: Seq<u16>) -> Seq<u16>
    decreases s.len(),
{
    if s.len() == 0 {
        Seq::empty()
    } else if dedup(s.drop_last()).contains(s.last()) {
        dedup(s.drop_last())
    } else {
        dedup(s.drop_last()).push(s.last())
    }
}

/// The distinct action ids of the Do nodes, in first-occurrence order.
pub open spec fn distinct_do_actions(nodes: Seq<CompiledNode>) -> Seq<u16> {
    dedup(nodes.filter_map(|n: CompiledNode| do_action_id(n)))
}

/// `reports` holds one report per action of `actions`, in order, each built from the first matching contract.
pub open spec fn reports_for(reports: Seq<ActionPolicyReport>, actions: Seq<u16>, contracts: Seq<ActionContract>) -> bool {
    &&& reports.len() == actions.len()
    &&& forall|i: int| 0 <= i < actions.len() ==> report_is(#[trigger] reports[i], actions[i], contract_for(contracts, actions[i]))
}

// ---------------------------------------------------------------------------
// Functions
// ---------------------------------------------------------------------------

/// Maps the contract's idempotency to the UI-facing class.
pub fn classify_idempotency(contract: &ActionContract) -> (r: IdempotencyClass)
    ensures
        r == class_of(Some(*contract)),
{
    match contract.idempotency {
        Idempotency::DeterministicPure => IdempotencyClass::DeterministicPure,
        Idempotency::IdempotentExternal | Idempotency::AtLeastOnceExternal => IdempotencyClass::AtLeastOnce,
    }
}

/// The conditions of strict-mode eligibility read from the report's fields:
/// DeterministicPure, has a timeout, and no issues (the contract's retry safety
/// is checked by `ActionPolicyReport::for_action`).
pub fn compute_strict_eligibility(idempotency: IdempotencyClass, has_timeout: bool, issues: &[PolicyIssue]) -> (r: bool)
    ensures
        r == strict_eligible_of(idempotency, has_timeout, issues@),
{
    if idempotency != IdempotencyClass::DeterministicPure {
        return false;
    }
    if !has_timeout {
        return false;
    }
    if issues.len() != 0 {
        return false;
    }
    true
}

/// Finds the first contract declared for the given action.
pub fn find_contract(action: ActionId, contracts: &[ActionContract]) -> (r: Option<&ActionContract>)
    ensures
        match r {
            Some(c) => contract_for(contracts@, action.0) == Some(*c),
            None => contract_for(contracts@, action.0) is None,
        },
{
    let mut i: usize = 0;
    while i < contracts.len()
        invariant
            i <= contracts@.len(),
            forall|j: int| 0 <= j < i ==> contracts@[j].id.0 != action.0,
        decreases contracts.len() - i,
    {
        if contracts[i].id.0 == action.0 {
            proof {
                let k = first_contract_index(contracts@, action.0)->0;
                assert(0 <= k < contracts@.len() && contracts@[k].id.0 == action.0
                    && forall|j: int| 0 <= j < k ==> contracts@[j].id.0 != action.0);
                if k < i {
                } else if k > i {
                    assert(contracts@[i as int].id.0 != action.0);
                }
            }
            return Some(&contracts[i]);
        }
        i += 1;
    }
    None
}

impl ActionPolicyReport {
    /// Builds the policy report for one action. Without a contract the action is
    /// Unknown and gets `MissingTimeout` and `MissingIdempotency`. Strict-mode
    /// eligibility requires a DeterministicPure action with a timeout, retries
    /// declared `RetrySafety::Safe`, and no issues.
    pub fn for_action(action: ActionId, contract: Option<&ActionContract>) -> (r: Self)
        ensures
            report_is(r, action.0, match contract { Some(c) => Some(*c), None => None }),
    {
        let ghost c = match contract { Some(c) => Some(*c), None => None::<ActionContract> };
        let mut issues: Vec<PolicyIssue> = Vec::new();
        let idempotency_class = match contract {
            Some(c) => classify_idempotency(c),
            None => IdempotencyClass::Unknown,
        };
        let (has_timeout, timeout_ms) = match contract {
            Some(c) => {
                let configured = c.timeout_ms > 0;
                let ms = if configured {
                    if c.timeout_ms > u32::MAX as u64 { Some(u32::MAX) } else { Some(c.timeout_ms as u32) }
                } else {
                    None
                };
                (configured, ms)
            }
            None => (false, None),
        };
        if !has_timeout {
            issues.push(PolicyIssue::MissingTimeout);
        }
        if idempotency_class == IdempotencyClass::Unknown {
            issues.push(PolicyIssue::MissingIdempotency);
        }
        if let Some(ct) = contract {
            if ct.retry_safety == RetrySafety::Unsafe {
                issues.push(PolicyIssue::UnsafeRetry);
            }
        }
        assert(issues@ =~= issues_of(c));
        let retry_safe = match contract {
            Some(ct) => ct.retry_safety == RetrySafety::Safe,
            None => false,
        };
        let strict_eligible = compute_strict_eligibility(idempotency_class, has_timeout, issues.as_slice()) && retry_safe;
        ActionPolicyReport { action_id: action.0, idempotency_class, has_timeout, timeout_ms, strict_eligible, issues }
    }

    /// Inserts the report for `action` unless a report for it is already present.
    pub fn insert_deduplicated(reports: &mut HashMap<u16, ActionPolicyReport>, action: ActionId, contract: Option<&ActionContract>)
        ensures
            old(reports)@.contains_key(action.0) ==> final(reports)@ == old(reports)@,
            !old(reports)@.contains_key(action.0) ==> {
                &&& final(reports)@.dom() == old(reports)@.dom().insert(action.0)
                &&& report_is(final(reports)@[action.0], action.0, match contract { Some(c) => Some(*c), None => None })
                &&& forall|k: u16| k != action.0 && #[trigger] old(reports)@.contains_key(k) ==> final(reports)@[k] == old(reports)@[k]
            },
    {
        broadcast use vstd::std_specs::hash::group_hash_axioms;
        if !reports.contains_key(&action.0) {
            let report = Self::for_action(action, contract);
            reports.insert(action.0, report);
        }
    }
}

/// Builds a single report by looking up the action's contract.
fn build_report(action: ActionId, contracts: &[ActionContract]) -> (r: ActionPolicyReport)
    ensures
        report_is(r, action.0, contract_for(contracts@, action.0)),
{
    let contract = find_contract(action, contracts);
    ActionPolicyReport::for_action(action, contract)
}

/// `seen` lists the distinct values of `s` in first-occurrence order.
proof fn lemma_dedup_step(s: Seq<u16>, i: int)
    requires
        0 <= i < s.len(),
    ensures
        dedup(s.take(i + 1)) == if dedup(s.take(i)).contains(s[i]) { dedup(s.take(i)) } else { dedup(s.take(i)).push(s[i]) },
{
    assert(s.take(i + 1).drop_last() =~= s.take(i));
}

/// Analyzes every Do node and produces one policy report per distinct action,
/// in the order the actions first appear.
pub fn analyze_action_policies(parts: &WorkflowParts, contracts: &[ActionContract]) -> (reports: Vec<ActionPolicyReport>)
    ensures
        reports_for(reports@, distinct_do_actions(parts.nodes@), contracts@),
{
    let ghost f = |n: CompiledNode| do_action_id(n);
    let mut reports: Vec<ActionPolicyReport> = Vec::new();
    let mut seen: Vec<u16> = Vec::new();
    let mut i: usize = 0;
    while i < parts.nodes.len()
        invariant
            i <= parts.nodes@.len(),
            f == (|n: CompiledNode| do_action_id(n)),
            seen@ == dedup(parts.nodes@.take(i as int).filter_map(f)),
            reports_for(reports@, seen@, contracts@),
        decreases parts.nodes.len() - i,
    {
        proof {
            parts.nodes@.lemma_filter_map_take_succ(f, i as int);
        }
        let ghost ids = parts.nodes@.take(i as int).filter_map(f);
        match &parts.nodes[i].kind {
            CompiledNodeKind::Do { action, .. } => {
                let action = *action;
                proof {
                    assert(parts.nodes@.take(i + 1).filter_map(f) =~= ids.push(action.0));
                    lemma_dedup_step(ids.push(action.0), ids.len() as int);
                    assert(ids.push(action.0).take(ids.len() as int) =~= ids);
                    assert(ids.push(action.0).take(ids.len() as int + 1) =~= ids.push(action.0));
                }
                if !contains_u16(&seen, action.0) {
                    let ghost before = reports@;
                    seen.push(action.0);
                    reports.push(build_report(action, contracts));
                    assert forall|k: int| 0 <= k < seen@.len() implies report_is(#[trigger] reports@[k], seen@[k], contract_for(contracts@, seen@[k])) by {
                        if k < before.len() {
                            assert(reports@[k] == before[k]);
                        }
                    }
                }
            }
            _ => {
                proof {
                    assert(parts.nodes@.take(i + 1).filter_map(f) =~= ids);
                }
            }
        }
        i += 1;
    }
    proof {
        lemma_take_full(parts.nodes@);
    }
    reports
}

/// Whether `v` contains `x`.
fn contains_u16(v: &Vec<u16>, x: u16) -> (r: bool)
    ensures
        r == v@.contains(x),
{
    let mut i: usize = 0;
    while i < v.len()
        invariant
            i <= v@.len(),
            forall|j: int| 0 <= j < i ==> v@[j] != x,
        decreases v.len() - i,
    {
        if v[i] == x {
            assert(v@[i as int] == x);
            return true;
        }
        i += 1;
    }
    false
}

/// Analyzes a workflow given as a list of action ids; each distinct action is
/// reported once, in first-occurrence order.
pub fn analyze_actions(workflow: &[ActionId], contracts: &[ActionContract]) -> (reports: Vec<ActionPolicyReport>)
    ensures
        reports_for(reports@, dedup(workflow@.map_values(|a: ActionId| a.0)), contracts@),
{
    let ghost ids = workflow@.map_values(|a: ActionId| a.0);
    let mut reports: Vec<ActionPolicyReport> = Vec::new();
    let mut seen: Vec<u16> = Vec::new();
    let mut i: usize = 0;
    while i < workflow.len()
        invariant
            i <= workflow@.len(),
            ids == workflow@.map_values(|a: ActionId| a.0),
            seen@ == dedup(ids.take(i as int)),
            reports_for(reports@, seen@, contracts@),
        decreases workflow.len() - i,
    {
        let action = workflow[i];
        proof {
            lemma_dedup_step(ids, i as int);
        }
        if !contains_u16(&seen, action.0) {
            let ghost before = reports@;
            seen.push(action.0);
            let contract = find_contract(action, contracts);
            reports.push(ActionPolicyReport::for_action(action, contract));
            assert forall|k: int| 0 <= k < seen@.len() implies report_is(#[trigger] reports@[k], seen@[k], contract_for(contracts@, seen@[k])) by {
                if k < before.len() {
                    assert(reports@[k] == before[k]);
                }
            }
        }
        i += 1;
    }
    proof {
        lemma_take_full(ids);
    }
    reports
}

// ---------------------------------------------------------------------------
// Laws
// ---------------------------------------------------------------------------

/// `dedup` keeps every value exactly once: no value repeats, and it holds
/// exactly the values of its input.
pub proof fn lemma_dedup_distinct(s: Seq<u16>)
    ensures
        dedup(s).no_duplicates(),
        forall|x: u16| dedup(s).contains(x) <==> s.contains(x),
    decreases s.len(),
{
    if s.len() > 0 {
        let t = s.drop_last();
        lemma_dedup_distinct(t);
        assert forall|x: u16| s.contains(x) <==> (t.contains(x) || x == s.last()) by {
            if s.contains(x) {
                let k = choose|k: int| 0 <= k < s.len() && s[k] == x;
                if k < s.len() - 1 {
                    assert(t[k] == x);
                }
            }
            if t.contains(x) {
                let k = choose|k: int| 0 <= k < t.len() && t[k] == x;
                assert(s[k] == x);
            }
            if x == s.last() {
                assert(s[s.len() - 1] == x);
            }
        }
        let d = dedup(t);
        if !d.contains(s.last()) {
            assert forall|x: u16| d.push(s.last()).contains(x) <==> (d.contains(x) || x == s.last()) by {
                if d.push(s.last()).contains(x) {
                    let k = choose|k: int| 0 <= k < d.len() + 1 && d.push(s.last())[k] == x;
                    if k < d.len() {
                        assert(d[k] == x);
                    }
                }
                if d.contains(x) {
                    let k = choose|k: int| 0 <= k < d.len() && d[k] == x;
                    assert(d.push(s.last())[k] == x);
                }
                if x == s.last() {
                    assert(d.push(s.last())[d.len() as int] == x);
                }
            }
            assert forall|a: int, b: int| 0 <= a < d.len() + 1 && 0 <= b < d.len() + 1 && a != b
                implies d.push(s.last())[a] != d.push(s.last())[b] by {
                if a < d.len() && b < d.len() {
                } else if a < d.len() {
                    assert(d.contains(d[a]));
                } else {
                    assert(d.contains(d[b]));
                }
            }
        }
    }
}

/// The analyses report each distinct action exactly once: no two reports share
/// an action id, and the reported ids are exactly the analysed actions.
pub proof fn lemma_one_report_per_action(reports: Seq<ActionPolicyReport>, actions: Seq<u16>, contracts: Seq<ActionContract>)
    requires
        reports_for(reports, dedup(actions), contracts),
    ensures
        forall|i: int, j: int| 0 <= i < j < reports.len() ==> reports[i].action_id != reports[j].action_id,
        forall|x: u16| (exists|i: int| 0 <= i < reports.len() && reports[i].action_id == x) <==> actions.contains(x),
{
    lemma_dedup_distinct(actions);
    let d = dedup(actions);
    assert forall|i: int, j: int| 0 <= i < j < reports.len() implies reports[i].action_id != reports[j].action_id by {
        assert(report_is(reports[i], d[i], contract_for(contracts, d[i])));
        assert(report_is(reports[j], d[j], contract_for(contracts, d[j])));
    }
    assert forall|x: u16| (exists|i: int| 0 <= i < reports.len() && reports[i].action_id == x) <==> actions.contains(x) by {
        if exists|i: int| 0 <= i < reports.len() && reports[i].action_id == x {
            let i = choose|i: int| 0 <= i < reports.len() && reports[i].action_id == x;
            assert(report_is(reports[i], d[i], contract_for(contracts, d[i])));
            assert(d.contains(x));
        }
        if actions.contains(x) {
            assert(d.contains(x));
            let i = choose|i: int| 0 <= i < d.len() && d[i] == x;
            assert(report_is(reports[i], d[i], contract_for(contracts, d[i])));
        }
    }
}

/// Strict-mode eligibility holds exactly for a DeterministicPure action with a
/// non-zero timeout whose retries are declared safe, and then no issue is reported;
/// an action without a contract is Unknown, is flagged for its missing timeout
/// and idempotency, and is never eligible.
pub proof fn lemma_report_policy(r: ActionPolicyReport, action: u16, c: Option<ActionContract>)
    requires
        report_is(r, action, c),
    ensures
        r.strict_eligible <==> (c is Some && c->0.idempotency == Idempotency::DeterministicPure
            && c->0.timeout_ms > 0 && c->0.retry_safety == RetrySafety::Safe),
        r.strict_eligible ==> r.issues@.len() == 0,
        c is None ==> r.idempotency_class == IdempotencyClass::Unknown
            && r.issues@ == seq![PolicyIssue::MissingTimeout, PolicyIssue::MissingIdempotency]
            && !r.strict_eligible,
{
    if c is None {
        assert(issues_of(c) =~= seq![PolicyIssue::MissingTimeout, PolicyIssue::MissingIdempotency]);
    }
}

} // verus!
