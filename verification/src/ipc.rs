//! Verification results as they arrive from the engine over IPC: plain strings
//! per gate certificate, with the engine's own counts.
use vstd::prelude::*;

verus! {

/// One gate certificate as sent by the engine.
#[derive(Debug, Clone)]
pub struct CertificateWire {
    /// Gate identifier, e.g. `"gate_07_expression_stack_depth"`.
    pub kind: String,
    /// Outcome text; `"Pass"` marks a passed gate.
    pub status: String,
    /// Details of the outcome (may be empty).
    pub details: String,
}

/// A verification result as sent by the engine.
#[derive(Debug, Clone)]
pub struct VerificationResult {
    /// One entry per gate check, in order.
    pub certificates: Vec<CertificateWire>,
    /// Number of gate checks the engine ran.
    pub total_checks: u32,
    /// Number of gate checks the engine reports passed.
    pub pass_count: u32,
    /// Number of gate checks the engine reports failed.
    pub fail_count: u32,
}

} // verus!
