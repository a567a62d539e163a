//! Resource bounds: contract limits against the worst-case resource usage
//! computed from a workflow's nodes.
use vstd::prelude::*;
use crate::workflow::{CompiledNode, CompiledNodeKind, ResourceContract, WorkflowParts};
use crate::seqs::{count_where, sum_of, lemma_count_where_take, lemma_sum_of_take, lemma_take_full, lemma_filter_empty};

verus! {

/// Whether a resource metric is within its contracted bounds.
#[derive(Debug, Clone, Copy, PartialEq, Eq, Structural)]
pub enum ResourceStatus {
    /// Computed value is strictly below the contract limit.
    WithinBounds,
    /// Computed value equals the contract limit exactly.
    AtLimit,
    /// Computed value exceeds the contract limit.
    ExceedsLimit,
}

/// One resource metric comparing contract limit to computed usage.
#[derive(Debug, Clone)]
pub struct ResourceMetric {
    /// Label of this metric.
    pub label: &'static str,
    /// Contract-declared limit.
    pub contract_value: u64,
    /// Computed worst case from the workflow.
    pub computed_value: u64,
    /// Status relative to the contract limit.
    pub status: ResourceStatus,
}

/// Worst-case resource bounds derived by walking the workflow nodes.
#[derive(Debug, Clone, PartialEq, Eq, Structural)]
pub struct ResourceBounds {
    /// Number of runtime slots declared by the workflow.
    pub slot_count: u16,
    /// Total number of compiled nodes.
    pub node_count: u32,
    /// Number of Do (action dispatch) nodes.
    pub do_node_count: u32,
    /// Maximum action payload size from the resource contract.
    pub max_action_payload: u32,
    /// Maximum result size from the resource contract.
    pub max_result_size: u32,
    /// Retry budget: do_node_count * max_retry_attempts from the contract.
    pub retry_budget: u32,
    /// Estimated peak frame usage from loop/parallel constructs.
    pub estimated_peak_frames: u32,
}

// ---------------------------------------------------------------------------
// Model
// ---------------------------------------------------------------------------

/// `x` capped at `u32::MAX`, the value a saturating `u32` accumulation reaches.
pub open spec fn cap_u32(x: int) -> int {
    if x > u32::MAX { u32::MAX as int } else { x }
}

/// Node kinds that open or run a loop, parallel or collection frame.
pub open spec fn is_frame_node(kind: CompiledNodeKind) -> bool {
    ||| kind is ForEachStart ||| kind is ForEachNext ||| kind is ForEachJoin
    ||| kind is TogetherStart ||| kind is TogetherBranch ||| kind is TogetherJoin
    ||| kind is RepeatStart ||| kind is RepeatAttempt ||| kind is RepeatCheck ||| kind is RepeatFinish
    ||| kind is CollectStart ||| kind is CollectPage ||| kind is CollectNext ||| kind is CollectFinish
    ||| kind is ReduceStart ||| kind is ReduceNext ||| kind is ReduceFinish
}

pub open spec fn do_count(nodes: Seq<CompiledNode>) -> nat {
    count_where(nodes, |n: CompiledNode| n.kind is Do)
}

pub open spec fn frame_count(nodes: Seq<CompiledNode>) -> nat {
    count_where(nodes, |n: CompiledNode| is_frame_node(n.kind))
}

/// Branch count of a `TogetherStart` node, capped at `u32::MAX`; zero for other kinds.
pub open spec fn together_branches(n: CompiledNode) -> nat {
    match n.kind {
        CompiledNodeKind::TogetherStart { branches, .. } => cap_u32(branches@.len() as int) as nat,
        _ => 0,
    }
}

/// Iteration limit of a `ForEachStart` node; zero for other kinds.
pub open spec fn foreach_limit(n: CompiledNode) -> nat {
    match n.kind {
        CompiledNodeKind::ForEachStart { limit, .. } => limit as nat,
        _ => 0,
    }
}

pub open spec fn branch_total(nodes: Seq<CompiledNode>) -> nat {
    sum_of(nodes, |n: CompiledNode| together_branches(n))
}

pub open spec fn iteration_total(nodes: Seq<CompiledNode>) -> nat {
    sum_of(nodes, |n: CompiledNode| foreach_limit(n))
}

/// The bounds `compute_resource_bounds` derives, every count saturating at `u32::MAX`.
pub open spec fn bounds_model(parts: WorkflowParts) -> ResourceBounds {
    let nodes = parts.nodes@;
    let c = parts.resource_contract;
    let dos = cap_u32(do_count(nodes) as int);
    ResourceBounds {
        slot_count: parts.slot_count,
        node_count: cap_u32(nodes.len() as int) as u32,
        do_node_count: dos as u32,
        max_action_payload: c.max_ipc_payload_bytes,
        max_result_size: c.max_output_bytes,
        retry_budget: cap_u32(dos * c.max_retry_attempts) as u32,
        estimated_peak_frames: cap_u32((1 + frame_count(nodes) + branch_total(nodes) + iteration_total(nodes)) as int) as u32,
    }
}

/// Status of a computed value against its limit.
pub open spec fn status_of(computed: u64, limit: u64) -> ResourceStatus {
    if computed > limit {
        ResourceStatus::ExceedsLimit
    } else if computed == limit {
        ResourceStatus::AtLimit
    } else {
        ResourceStatus::WithinBounds
    }
}

pub open spec fn metric_is(m: ResourceMetric, label: Seq<char>, contract_value: u64, computed_value: u64) -> bool {
    &&& m.label@ == label
    &&& m.contract_value == contract_value
    &&& m.computed_value == computed_value
    &&& m.status == status_of(computed_value, contract_value)
}

/// The eight metrics of a panel, in order.
pub open spec fn panel_model(c: ResourceContract, b: ResourceBounds, ms: Seq<ResourceMetric>) -> bool {
    &&& ms.len() == 8
    &&& metric_is(ms[0], "node_count / max_steps"@, c.max_steps as u64, b.node_count as u64)
    &&& metric_is(ms[1], "slot_count / max_slots"@, c.max_slots as u64, b.slot_count as u64)
    &&& metric_is(ms[2], "estimated_action_payload / max_ipc_payload_bytes"@, b.max_action_payload as u64,
        (b.do_node_count * b.max_action_payload) as u64)
    &&& metric_is(ms[3], "estimated_result_size / max_output_bytes"@, b.max_result_size as u64,
        (b.do_node_count * b.max_result_size) as u64)
    &&& metric_is(ms[4], "retry_budget"@, c.max_step_budget_per_tick, b.retry_budget as u64)
    &&& metric_is(ms[5], "do_node_count / max_fanout"@, c.max_fanout as u64, b.do_node_count as u64)
    &&& metric_is(ms[6], "estimated_peak_frames / max_queue_depth"@, c.max_queue_depth as u64, b.estimated_peak_frames as u64)
    &&& metric_is(ms[7], "node_count / max_collect_items"@, c.max_collect_items as u64, b.node_count as u64)
}

// ---------------------------------------------------------------------------
// Computing the bounds
// ---------------------------------------------------------------------------

/// Adds `y` to `x`, capping at `u32::MAX`.
fn add_capped(x: u32, y: u32) -> (r: u32)
    ensures
        r == cap_u32(x + y),
{
    x.saturating_add(y)
}

/// Walks the nodes and computes worst-case resource bounds: Do nodes for action
/// dispatch pressure, loop/parallel nodes, `TogetherStart` branches and
/// `ForEachStart` limits for peak frames, and the retry budget from the
/// contract's `max_retry_attempts`. Every count saturates at `u32::MAX`.
pub fn compute_resource_bounds(parts: &WorkflowParts) -> (b: ResourceBounds)
    ensures
        b == bounds_model(*parts),
{
    let contract = &parts.resource_contract;
    let node_count: u32 = if parts.nodes.len() > 0xFFFF_FFFF { 0xFFFF_FFFF } else { parts.nodes.len() as u32 };
    let ghost nodes = parts.nodes@;
    let ghost is_do = |n: CompiledNode| n.kind is Do;
    let ghost is_frame = |n: CompiledNode| is_frame_node(n.kind);
    let mut do_node_count: u32 = 0;
    let mut peak_frames: u32 = 1;
    let mut i: usize = 0;
    while i < parts.nodes.len()
        invariant
            i <= nodes.len(),
            nodes == parts.nodes@,
            is_do == (|n: CompiledNode| n.kind is Do),
            is_frame == (|n: CompiledNode| is_frame_node(n.kind)),
            do_node_count == cap_u32(count_where(nodes.take(i as int), is_do) as int),
            peak_frames == cap_u32((1 + count_where(nodes.take(i as int), is_frame)) as int),
        decreases parts.nodes.len() - i,
    {
        proof {
            lemma_count_where_take(nodes, is_do, i as int);
            lemma_count_where_take(nodes, is_frame, i as int);
        }
        match &parts.nodes[i].kind {
            CompiledNodeKind::Do { .. } => {
                do_node_count = add_capped(do_node_count, 1);
            }
            CompiledNodeKind::ForEachStart { .. }
            | CompiledNodeKind::ForEachNext { .. }
            | CompiledNodeKind::ForEachJoin { .. }
            | CompiledNodeKind::TogetherStart { .. }
            | CompiledNodeKind::TogetherBranch { .. }
            | CompiledNodeKind::TogetherJoin { .. }
            | CompiledNodeKind::RepeatStart { .. }
            | CompiledNodeKind::RepeatAttempt { .. }
            | CompiledNodeKind::RepeatCheck { .. }
            | CompiledNodeKind::RepeatFinish { .. }
            | CompiledNodeKind::CollectStart { .. }
            | CompiledNodeKind::CollectPage { .. }
            | CompiledNodeKind::CollectNext { .. }
            | CompiledNodeKind::CollectFinish { .. }
            | CompiledNodeKind::ReduceStart { .. }
            | CompiledNodeKind::ReduceNext { .. }
            | CompiledNodeKind::ReduceFinish { .. } => {
                peak_frames = add_capped(peak_frames, 1);
            }
            _ => {}
        }
        i += 1;
    }
    proof {
        lemma_take_full(nodes);
    }
    let fanout_contribution = count_together_branches(parts.nodes.as_slice());
    if fanout_contribution > 0 {
        peak_frames = add_capped(peak_frames, fanout_contribution);
    }
    let foreach_frames = count_foreach_iterations(parts.nodes.as_slice());
    if foreach_frames > 0 {
        peak_frames = add_capped(peak_frames, foreach_frames);
    }
    let attempts: u64 = contract.max_retry_attempts as u64;
    let dn: u64 = do_node_count as u64;
    assert(dn * attempts <= 0xFFFF_FFFF * 0xFFFF) by (nonlinear_arith)
        requires
            dn <= 0xFFFF_FFFF,
            attempts <= 0xFFFF,
    ;
    let product: u64 = dn * attempts;
    let retry_budget: u32 = if product > 0xFFFF_FFFF { 0xFFFF_FFFF } else { product as u32 };
    ResourceBounds {
        slot_count: parts.slot_count,
        node_count,
        do_node_count,
        max_action_payload: contract.max_ipc_payload_bytes,
        max_result_size: contract.max_output_bytes,
        retry_budget,
        estimated_peak_frames: peak_frames,
    }
}

/// Total number of branches declared in `TogetherStart` nodes, saturating.
fn count_together_branches(nodes: &[CompiledNode]) -> (r: u32)
    ensures
        r == cap_u32(branch_total(nodes@) as int),
{
    let ghost f = |n: CompiledNode| together_branches(n);
    let mut total: u32 = 0;
    let mut i: usize = 0;
    while i < nodes.len()
        invariant
            i <= nodes@.len(),
            f == (|n: CompiledNode| together_branches(n)),
            total == cap_u32(sum_of(nodes@.take(i as int), f) as int),
        decreases nodes.len() - i,
    {
        proof {
            lemma_sum_of_take(nodes@, f, i as int);
        }
        if let CompiledNodeKind::TogetherStart { branches, .. } = &nodes[i].kind {
            let n: u32 = if branches.len() > 0xFFFF_FFFF { 0xFFFF_FFFF } else { branches.len() as u32 };
            total = add_capped(total, n);
        }
        i += 1;
    }
    proof {
        lemma_take_full(nodes@);
    }
    total
}

/// Sum of the iteration limits of `ForEachStart` nodes, saturating.
fn count_foreach_iterations(nodes: &[CompiledNode]) -> (r: u32)
    ensures
        r == cap_u32(iteration_total(nodes@) as int),
{
    let ghost f = |n: CompiledNode| foreach_limit(n);
    let mut total: u32 = 0;
    let mut i: usize = 0;
    while i < nodes.len()
        invariant
            i <= nodes@.len(),
            f == (|n: CompiledNode| foreach_limit(n)),
            total == cap_u32(sum_of(nodes@.take(i as int), f) as int),
        decreases nodes.len() - i,
    {
        proof {
            lemma_sum_of_take(nodes@, f, i as int);
        }
        if let CompiledNodeKind::ForEachStart { limit, .. } = &nodes[i].kind {
            total = add_capped(total, *limit);
        }
        i += 1;
    }
    proof {
        lemma_take_full(nodes@);
    }
    total
}

// ---------------------------------------------------------------------------
// The panel
// ---------------------------------------------------------------------------

/// Classifies a computed value against its contract limit.
pub fn classify(computed: u64, limit: u64) -> (s: ResourceStatus)
    ensures
        s == status_of(computed, limit),
{
    if computed > limit {
        ResourceStatus::ExceedsLimit
    } else if computed == limit {
        ResourceStatus::AtLimit
    } else {
        ResourceStatus::WithinBounds
    }
}

fn metric(label: &'static str, contract_value: u64, computed_value: u64) -> (m: ResourceMetric)
    ensures
        metric_is(m, label@, contract_value, computed_value),
{
    ResourceMetric { label, contract_value, computed_value, status: classify(computed_value, contract_value) }
}

/// Panel of resource metrics for display.
pub struct ResourceBoundsPanel {
    metrics: Vec<ResourceMetric>,
}

pub open spec fn not_within(m: ResourceMetric) -> bool {
    m.status != ResourceStatus::WithinBounds
}

impl ResourceBoundsPanel {
    pub closed spec fn spec_metrics(&self) -> Seq<ResourceMetric> {
        self.metrics@
    }

    /// Builds the eight metrics: node count vs max_steps, slot count vs max_slots,
    /// estimated action payload (Do nodes times payload limit) vs the payload
    /// limit, estimated result size likewise, retry budget vs the step budget
    /// per tick, Do nodes vs max_fanout, peak frames vs max_queue_depth, and
    /// node count vs max_collect_items.
    pub fn new(contract: &ResourceContract, bounds: &ResourceBounds) -> (p: Self)
        ensures
            panel_model(*contract, *bounds, p.spec_metrics()),
    {
        let node_count_u64 = bounds.node_count as u64;
        let slot_count_u64 = bounds.slot_count as u64;
        let do_count_u64 = bounds.do_node_count as u64;
        let retry_budget_u64 = bounds.retry_budget as u64;
        let peak_u64 = bounds.estimated_peak_frames as u64;
        let payload_limit = bounds.max_action_payload as u64;
        let result_limit = bounds.max_result_size as u64;
        assert(do_count_u64 * payload_limit <= 0xFFFF_FFFF * 0xFFFF_FFFF) by (nonlinear_arith)
            requires
                do_count_u64 <= 0xFFFF_FFFF,
                payload_limit <= 0xFFFF_FFFF,
        ;
        assert(do_count_u64 * result_limit <= 0xFFFF_FFFF * 0xFFFF_FFFF) by (nonlinear_arith)
            requires
                do_count_u64 <= 0xFFFF_FFFF,
                result_limit <= 0xFFFF_FFFF,
        ;
        let mut metrics: Vec<ResourceMetric> = Vec::new();
        metrics.push(metric("node_count / max_steps", contract.max_steps as u64, node_count_u64));
        metrics.push(metric("slot_count / max_slots", contract.max_slots as u64, slot_count_u64));
        metrics.push(metric("estimated_action_payload / max_ipc_payload_bytes", payload_limit, do_count_u64 * payload_limit));
        metrics.push(metric("estimated_result_size / max_output_bytes", result_limit, do_count_u64 * result_limit));
        metrics.push(metric("retry_budget", contract.max_step_budget_per_tick, retry_budget_u64));
        metrics.push(metric("do_node_count / max_fanout", contract.max_fanout as u64, do_count_u64));
        metrics.push(metric("estimated_peak_frames / max_queue_depth", contract.max_queue_depth as u64, peak_u64));
        metrics.push(metric("node_count / max_collect_items", contract.max_collect_items as u64, node_count_u64));
        ResourceBoundsPanel { metrics }
    }

    /// All metrics, in order.
    pub fn metrics(&self) -> (r: &[ResourceMetric])
        ensures
            r@ == self.spec_metrics(),
    {
        self.metrics.as_slice()
    }

    /// The metrics at or over their limit, in order.
    pub fn worst_case_metrics(&self) -> (r: Vec<&ResourceMetric>)
        ensures
            r@.len() == self.spec_metrics().filter(|m: ResourceMetric| not_within(m)).len(),
            forall|k: int| 0 <= k < r@.len() ==> *(#[trigger] r@[k]) == self.spec_metrics().filter(|m: ResourceMetric| not_within(m))[k],
    {
        let ghost p = |m: ResourceMetric| not_within(m);
        let mut r: Vec<&ResourceMetric> = Vec::new();
        let mut i: usize = 0;
        while i < self.metrics.len()
            invariant
                i <= self.metrics@.len(),
                p == (|m: ResourceMetric| not_within(m)),
                r@.len() == self.metrics@.take(i as int).filter(p).len(),
                forall|k: int| 0 <= k < r@.len() ==> *(#[trigger] r@[k]) == self.metrics@.take(i as int).filter(p)[k],
            decreases self.metrics.len() - i,
        {
            proof {
                reveal(Seq::filter);
                assert(self.metrics@.take(i + 1).drop_last() =~= self.metrics@.take(i as int));
                assert(self.metrics@.take(i + 1).last() == self.metrics@[i as int]);
            }
            let m = &self.metrics[i];
            if m.status != ResourceStatus::WithinBounds {
                r.push(m);
            }
            i += 1;
        }
        proof {
            lemma_take_full(self.metrics@);
        }
        r
    }

    /// True when every metric is strictly within bounds.
    pub fn all_within_bounds(&self) -> (r: bool)
        ensures
            r == forall|k: int| 0 <= k < self.spec_metrics().len()
                ==> (#[trigger] self.spec_metrics()[k]).status == ResourceStatus::WithinBounds,
    {
        let mut i: usize = 0;
        while i < self.metrics.len()
            invariant
                i <= self.metrics@.len(),
                forall|k: int| 0 <= k < i ==> (#[trigger] self.metrics@[k]).status == ResourceStatus::WithinBounds,
            decreases self.metrics.len() - i,
        {
            if self.metrics[i].status != ResourceStatus::WithinBounds {
                return false;
            }
            i += 1;
        }
        true
    }
}

/// A panel is entirely within bounds exactly when it has no worst-case metric.
pub proof fn lemma_within_iff_no_worst(ms: Seq<ResourceMetric>)
    ensures
        (forall|k: int| 0 <= k < ms.len() ==> (#[trigger] ms[k]).status == ResourceStatus::WithinBounds)
            <==> ms.filter(|m: ResourceMetric| not_within(m)).len() == 0,
{
    lemma_filter_empty(ms, |m: ResourceMetric| not_within(m));
}

/// The estimated payload (and likewise result size) of a panel is the Do node
/// count times the limit, so its status depends only on that count: with no Do
/// node it is within bounds unless the limit is zero, with exactly one it is
/// always at the limit, and with more it exceeds any non-zero limit.
pub proof fn lemma_estimate_status(do_nodes: u32, limit: u32)
    ensures
        status_of((do_nodes * limit) as u64, limit as u64) == if do_nodes == 0 {
            if limit == 0 { ResourceStatus::AtLimit } else { ResourceStatus::WithinBounds }
        } else if do_nodes == 1 || limit == 0 {
            ResourceStatus::AtLimit
        } else {
            ResourceStatus::ExceedsLimit
        },
{
    assert(do_nodes * limit <= 0xFFFF_FFFF * 0xFFFF_FFFF) by (nonlinear_arith)
        requires
            do_nodes <= 0xFFFF_FFFF,
            limit <= 0xFFFF_FFFF,
    ;
    if do_nodes >= 2 && limit > 0 {
        assert(do_nodes * limit >= 2 * limit) by (nonlinear_arith)
            requires
                do_nodes >= 2,
                limit > 0,
        ;
    }
    if do_nodes == 0 {
        assert(do_nodes * limit == 0);
    }
    if limit == 0 {
        assert(do_nodes * limit == 0);
    }
    if do_nodes == 1 {
        assert(do_nodes * limit == limit);
    }
}

} // verus!
