//! The compiled workflow graph that every analysis in this crate reads:
//! typed indices, node kinds, nodes, the resource contract and action contracts.
use vstd::prelude::*;

verus! {

/// Index of a step (node) in the compiled node array.
#[derive(Debug, Clone, Copy, PartialEq, Eq, Structural, Hash)]
pub struct StepIdx(pub u16);

/// Index of a runtime slot.
#[derive(Debug, Clone, Copy, PartialEq, Eq, Structural, Hash)]
pub struct SlotIdx(pub u16);

/// Identifier of an external action.
#[derive(Debug, Clone, Copy, PartialEq, Eq, Structural, Hash)]
pub struct ActionId(pub u16);

/// Index into the constant pool.
#[derive(Debug, Clone, Copy, PartialEq, Eq, Structural, Hash)]
pub struct ConstIdx(pub u16);

impl StepIdx {
    pub fn new(v: u16) -> (r: Self)
        ensures
            r.0 == v,
    {
        StepIdx(v)
    }

    pub fn get(&self) -> (r: u16)
        ensures
            r == self.0,
    {
        self.0
    }

    pub fn as_usize(&self) -> (r: usize)
        ensures
            r == self.0 as usize,
    {
        self.0 as usize
    }
}

impl SlotIdx {
    pub fn new(v: u16) -> (r: Self)
        ensures
            r.0 == v,
    {
        SlotIdx(v)
    }

    pub fn get(&self) -> (r: u16)
        ensures
            r == self.0,
    {
        self.0
    }
}

impl ActionId {
    pub fn new(v: u16) -> (r: Self)
        ensures
            r.0 == v,
    {
        ActionId(v)
    }

    pub fn get(&self) -> (r: u16)
        ensures
            r == self.0,
    {
        self.0
    }
}

impl ConstIdx {
    pub fn new(v: u16) -> (r: Self)
        ensures
            r.0 == v,
    {
        ConstIdx(v)
    }

    pub fn get(&self) -> (r: u16)
        ensures
            r == self.0,
    {
        self.0
    }
}

/// One guarded branch of a `Choose` or `ChooseSlot` node.
#[derive(Debug, Clone, Copy)]
pub struct ChooseBranch {
    /// Step taken when the branch is selected.
    pub target: StepIdx,
}

/// The operation a compiled node performs, with the control-flow targets it names.
#[derive(Debug, Clone)]
pub enum CompiledNodeKind {
    Nop,
    SetConst { value: ConstIdx },
    Copy { source: SlotIdx },
    EvalExpr,
    BuildObject,
    BuildList,
    Do { action: ActionId, input: SlotIdx },
    WaitUntil,
    WaitEvent { event: SlotIdx, timeout_slot: Option<SlotIdx> },
    Ask { prompt: SlotIdx, timeout_slot: Option<SlotIdx> },
    AskResume,
    Jump { target: StepIdx },
    Choose { branches: Vec<ChooseBranch>, otherwise: Option<StepIdx> },
    ChooseSlot { branches: Vec<ChooseBranch>, otherwise: Option<StepIdx> },
    ForEachStart { input: SlotIdx, item_slot: SlotIdx, limit: u32, body: StepIdx, done: StepIdx },
    ForEachNext { iterator_slot: SlotIdx, body: StepIdx, done: StepIdx },
    ForEachJoin { output: SlotIdx },
    TogetherStart { branches: Vec<StepIdx>, join: StepIdx },
    TogetherBranch { branch: u16, entry: StepIdx, join: StepIdx, accumulator: SlotIdx },
    TogetherJoin { branch_count: u16, accumulator: SlotIdx },
    CollectStart { source: SlotIdx, limit: u32, page_size: u32, body: StepIdx, done: StepIdx },
    CollectPage { collector_slot: SlotIdx, body: StepIdx, done: StepIdx },
    CollectNext { collector_slot: SlotIdx, body: StepIdx, done: StepIdx },
    CollectFinish { collector_slot: SlotIdx },
    ReduceStart { input: SlotIdx, accumulator: SlotIdx, initial: ConstIdx, body: StepIdx, done: StepIdx },
    ReduceNext { iterator_slot: SlotIdx, accumulator: SlotIdx, body: StepIdx, done: StepIdx },
    ReduceFinish { accumulator: SlotIdx },
    RepeatStart { max_attempts: u32, body: StepIdx, done: StepIdx },
    RepeatAttempt { attempt_slot: SlotIdx, body: StepIdx, done: StepIdx },
    RepeatCheck { attempt_slot: SlotIdx, done: StepIdx },
    RepeatFinish { result: SlotIdx },
    RetryCheck { policy_slot: SlotIdx, body: StepIdx, exhausted: StepIdx },
    ErrorHandler { body: StepIdx, handler: StepIdx, error_slot: Option<SlotIdx> },
    Finish { result: SlotIdx },
}

/// One node of the compiled workflow graph.
#[derive(Debug, Clone)]
pub struct CompiledNode {
    /// The node's own step index; well-formed graphs have `id` equal to the position.
    pub id: StepIdx,
    /// Slot receiving the node's output, if any.
    pub output: Option<SlotIdx>,
    /// Linear fallthrough successor.
    pub next: Option<StepIdx>,
    /// Step to continue at when the node fails.
    pub on_error: Option<StepIdx>,
    /// Slot receiving the error value, if any.
    pub error_slot: Option<SlotIdx>,
    /// What the node does.
    pub kind: CompiledNodeKind,
}

/// Resource limits a compiled workflow is admitted under.
#[derive(Debug, Clone, Copy, PartialEq, Eq)]
pub struct ResourceContract {
    pub max_steps: u16,
    pub max_slots: u16,
    pub max_step_budget_per_tick: u64,
    pub max_expressions: u16,
    pub max_accessors: u16,
    pub max_constants: u16,
    pub max_output_bytes: u32,
    pub max_ipc_payload_bytes: u32,
    pub max_retry_attempts: u16,
    pub max_fanout: u16,
    pub max_queue_depth: u32,
    pub max_collect_items: u32,
}

impl Default for ResourceContract {
    /// The limits used when a workflow declares none of its own.
    fn default() -> (c: Self)
        ensures
            c.max_steps == 10_000,
            c.max_slots == 1024,
            c.max_step_budget_per_tick == 10_000,
            c.max_expressions == 4096,
            c.max_accessors == 4096,
            c.max_constants == 4096,
            c.max_output_bytes == 65_536,
            c.max_ipc_payload_bytes == 65_536,
            c.max_retry_attempts == 3,
            c.max_fanout == 64,
            c.max_queue_depth == 128,
            c.max_collect_items == 10_000,
    {
        ResourceContract {
            max_steps: 10_000,
            max_slots: 1024,
            max_step_budget_per_tick: 10_000,
            max_expressions: 4096,
            max_accessors: 4096,
            max_constants: 4096,
            max_output_bytes: 65_536,
            max_ipc_payload_bytes: 65_536,
            max_retry_attempts: 3,
            max_fanout: 64,
            max_queue_depth: 128,
            max_collect_items: 10_000,
        }
    }
}

/// A compiled workflow: its node graph, pool sizes, slot count, entry and limits.
#[derive(Debug, Clone)]
pub struct WorkflowParts {
    pub name: String,
    pub nodes: Vec<CompiledNode>,
    /// Number of entries in the expression pool.
    pub expression_count: usize,
    /// Number of entries in the accessor pool.
    pub accessor_count: usize,
    /// Number of entries in the constant pool.
    pub constant_count: usize,
    pub slot_count: u16,
    pub entry: StepIdx,
    pub resource_contract: ResourceContract,
}

/// How an action behaves when it is executed more than once.
#[derive(Debug, Clone, Copy, PartialEq, Eq, Structural)]
pub enum Idempotency {
    DeterministicPure,
    IdempotentExternal,
    AtLeastOnceExternal,
}

/// Whether retrying an action is safe.
#[derive(Debug, Clone, Copy, PartialEq, Eq, Structural)]
pub enum RetrySafety {
    Safe,
    KeyRequired,
    Unsafe,
}

/// The declared contract of an external action, as far as policy analysis reads it.
#[derive(Debug, Clone, Copy)]
pub struct ActionContract {
    pub id: ActionId,
    pub timeout_ms: u64,
    pub idempotency: Idempotency,
    pub retry_safety: RetrySafety,
}

// ---------------------------------------------------------------------------
// Spec views of the graph
// ---------------------------------------------------------------------------

pub open spec fn opt_seq(o: Option<StepIdx>) -> Seq<StepIdx> {
    match o {
        Some(s) => seq![s],
        None => Seq::empty(),
    }
}

pub open spec fn branch_targets(bs: Seq<ChooseBranch>) -> Seq<StepIdx> {
    bs.map_values(|b: ChooseBranch| b.target)
}

/// Control-flow targets named by the node kind itself, in declaration order.
pub open spec fn kind_targets(kind: CompiledNodeKind) -> Seq<StepIdx> {
    match kind {
        CompiledNodeKind::Jump { target } => seq![target],
        CompiledNodeKind::Choose { branches, otherwise } => branch_targets(branches@) + opt_seq(otherwise),
        CompiledNodeKind::ChooseSlot { branches, otherwise } => branch_targets(branches@) + opt_seq(otherwise),
        CompiledNodeKind::ForEachStart { body, done, .. } => seq![body, done],
        CompiledNodeKind::ForEachNext { body, done, .. } => seq![body, done],
        CompiledNodeKind::CollectStart { body, done, .. } => seq![body, done],
        CompiledNodeKind::CollectPage { body, done, .. } => seq![body, done],
        CompiledNodeKind::CollectNext { body, done, .. } => seq![body, done],
        CompiledNodeKind::ReduceStart { body, done, .. } => seq![body, done],
        CompiledNodeKind::ReduceNext { body, done, .. } => seq![body, done],
        CompiledNodeKind::RepeatStart { body, done, .. } => seq![body, done],
        CompiledNodeKind::RepeatAttempt { body, done, .. } => seq![body, done],
        CompiledNodeKind::TogetherStart { branches, join } => branches@.push(join),
        CompiledNodeKind::TogetherBranch { entry, join, .. } => seq![entry, join],
        CompiledNodeKind::RepeatCheck { done, .. } => seq![done],
        CompiledNodeKind::RetryCheck { body, exhausted, .. } => seq![body, exhausted],
        CompiledNodeKind::ErrorHandler { body, handler, .. } => seq![body, handler],
        _ => Seq::empty(),
    }
}

/// All successors of a node: fallthrough, error handler, then the kind's own targets.
pub open spec fn successors_of(kind: CompiledNodeKind, next: Option<StepIdx>, on_error: Option<StepIdx>) -> Seq<StepIdx> {
    opt_seq(next) + opt_seq(on_error) + kind_targets(kind)
}

pub open spec fn is_do(kind: CompiledNodeKind) -> bool {
    kind is Do
}

} // verus!
