//! Verification analyses over compiled workflow graphs.
use vstd::prelude::*;

pub mod seqs;
pub mod text;
pub mod workflow;
pub mod taint_overlay;
pub mod certificates;
pub mod action_policy;
pub mod taint;
pub mod screen;
pub mod durability;
pub mod resources;
pub mod ipc;
pub mod certificate_panel;

verus! {

} // verus!
