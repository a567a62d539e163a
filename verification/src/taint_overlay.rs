//! The taint overlay of a workflow: secret sources, the Finish sinks they may
//! reach, and the propagation segments between steps.
use vstd::prelude::*;
use crate::workflow::StepIdx;

verus! {

/// Classification of one propagation segment.
#[derive(Debug, Clone, Copy, PartialEq, Eq, Structural)]
pub enum TaintPathStatus {
    /// The segment lies on a path that reaches a Finish node.
    Dangerous,
    /// The segment carries taint to a node that does not reach Finish.
    Warning,
}

/// One propagation edge of the overlay.
#[derive(Debug, Clone, Copy)]
pub struct TaintPathSegment {
    pub from: StepIdx,
    pub to: StepIdx,
    pub status: TaintPathStatus,
}

/// One complete flow from a secret source to a sink.
#[derive(Debug, Clone)]
pub struct TaintFlowPath {
    pub source_step: StepIdx,
    pub sink_step: StepIdx,
    /// Every step on the path, source and sink included.
    pub path_nodes: Vec<StepIdx>,
    /// Whether the sink is a forbidden (result-producing) node.
    pub is_forbidden: bool,
}

/// Taint overlay of a compiled workflow.
#[derive(Debug, Clone)]
pub struct TaintOverlayResult {
    /// Steps that introduce secret values.
    pub sources: Vec<StepIdx>,
    /// Finish steps reached by taint.
    pub sinks: Vec<StepIdx>,
    /// Propagation segments.
    pub paths: Vec<TaintPathSegment>,
    /// Source-to-sink flows.
    pub flow_paths: Vec<TaintFlowPath>,
    /// True when no secret reaches a Finish node.
    pub finish_safe: bool,
}

} // verus!
