//! The verification screen's display model: certificate cards, taint overlay,
//! resource and action-policy panels, gates, banner and proof badges.
use vstd::prelude::*;
use crate::action_policy::{ActionPolicyReport, IdempotencyClass, PolicyIssue};
use crate::certificates::{Certificate, CertificateKind, CertificateStatus, VerificationResult};
use crate::resources::{ResourceBoundsPanel, ResourceMetric, ResourceStatus};
use crate::taint_overlay::{TaintFlowPath, TaintOverlayResult};
use crate::workflow::StepIdx;
use crate::seqs::{count_where, lemma_count_where_take, lemma_take_full};
use crate::text::{decimal, push_decimal};

verus! {

/// Panel background: `#12121f`.
pub const PANEL_BG: &'static str = "#12121f";
/// Card background: `#16162a`.
pub const CARD_BG: &'static str = "#16162a";
/// Border color: `#2a2a4a`.
pub const BORDER: &'static str = "#2a2a4a";
/// Primary text: `#e8e8ff`.
pub const TEXT_PRIMARY: &'static str = "#e8e8ff";
/// Secondary text: `#8888aa`.
pub const TEXT_SECONDARY: &'static str = "#8888aa";
/// Neon cyan accent: `#00f5ff`.
pub const NEON_CYAN: &'static str = "#00f5ff";
/// Neon green accent: `#39ff14`.
pub const NEON_GREEN: &'static str = "#39ff14";
/// Neon red accent: `#ff073a`.
pub const NEON_RED: &'static str = "#ff073a";
/// Neon orange accent: `#ff6b00`.
pub const NEON_ORANGE: &'static str = "#ff6b00";
/// Text dim / label color: `#555577`.
pub const TEXT_DIM: &'static str = "#555577";
/// Canvas background: `#0a0a12`.
pub const CANVAS_BG: &'static str = "#0a0a12";
/// Neon magenta for secret sources: `#ff00ff`.
pub const NEON_MAGENTA: &'static str = "#ff00ff";
/// Neon teal for safe finish: `#00e5c7`.
pub const NEON_TEAL: &'static str = "#00e5c7";
/// Neon purple for authentication: `#b14dff`.
pub const NEON_PURPLE: &'static str = "#b14dff";

// ---------------------------------------------------------------------------
// Certificate cards
// ---------------------------------------------------------------------------

/// Status badge shown on a certificate card.
#[derive(Debug, Clone, Copy, PartialEq, Eq, Structural)]
pub enum CardStatus {
    /// Verification check passed.
    Pass,
    /// Verification check failed.
    Fail,
    /// Verification check passed with a warning.
    Warning,
}

/// Badge and border color of a card status.
pub open spec fn card_color(s: CardStatus) -> &'static str {
    match s {
        CardStatus::Pass => NEON_GREEN,
        CardStatus::Fail => NEON_RED,
        CardStatus::Warning => NEON_ORANGE,
    }
}

impl CardStatus {
    /// The badge label: "PASS", "FAIL" or "WARN".
    pub fn label(&self) -> (r: &'static str)
        ensures
            r@ == match *self {
                CardStatus::Pass => "PASS"@,
                CardStatus::Fail => "FAIL"@,
                CardStatus::Warning => "WARN"@,
            },
    {
        match self {
            CardStatus::Pass => "PASS",
            CardStatus::Fail => "FAIL",
            CardStatus::Warning => "WARN",
        }
    }

    /// The hex color for this status badge.
    pub fn color(&self) -> (r: &'static str)
        ensures
            r == card_color(*self),
    {
        match self {
            CardStatus::Pass => NEON_GREEN,
            CardStatus::Fail => NEON_RED,
            CardStatus::Warning => NEON_ORANGE,
        }
    }
}

/// One certificate card in the verification panel.
#[derive(Debug, Clone)]
pub struct CertificateCard {
    /// Card title, e.g. "Structural Validity".
    pub title: String,
    /// Current status badge.
    pub status: CardStatus,
    /// Short detail string.
    pub detail: String,
    /// Whether the card is expanded.
    pub expanded: bool,
    /// Title text color (hex).
    pub title_color: String,
    /// Background color (hex).
    pub bg_color: String,
    /// Border color (hex), that of the status.
    pub border_color: String,
}

/// A freshly made card: collapsed, primary text on the card background, bordered
/// in its status color.
pub open spec fn card_is(c: CertificateCard, title: Seq<char>, status: CardStatus, detail: Seq<char>) -> bool {
    &&& c.title@ == title
    &&& c.status == status
    &&& c.detail@ == detail
    &&& !c.expanded
    &&& c.title_color@ == TEXT_PRIMARY@
    &&& c.bg_color@ == CARD_BG@
    &&& c.border_color@ == card_color(status)@
}

impl CertificateCard {
    pub fn new(title: &str, status: CardStatus, detail: &str) -> (c: Self)
        ensures
            card_is(c, title@, status, detail@),
    {
        let border_color = match status {
            CardStatus::Pass => NEON_GREEN,
            CardStatus::Fail => NEON_RED,
            CardStatus::Warning => NEON_ORANGE,
        };
        CertificateCard {
            title: String::from_str(title),
            status,
            detail: String::from_str(detail),
            expanded: false,
            title_color: String::from_str(TEXT_PRIMARY),
            bg_color: String::from_str(CARD_BG),
            border_color: String::from_str(border_color),
        }
    }

    /// Toggles the expanded state.
    pub fn toggle_expand(&mut self)
        ensures
            final(self).expanded == !old(self).expanded,
            final(self).title == old(self).title,
            final(self).status == old(self).status,
            final(self).detail == old(self).detail,
            final(self).title_color == old(self).title_color,
            final(self).bg_color == old(self).bg_color,
            final(self).border_color == old(self).border_color,
    {
        self.expanded = !self.expanded;
    }
}

// ---------------------------------------------------------------------------
// Taint flow overlay
// ---------------------------------------------------------------------------

/// A source node of the taint flow overlay.
#[derive(Debug, Clone)]
pub struct TaintSourceNode {
    /// Step index of the source.
    pub step_idx: u16,
    /// Label, e.g. "WaitEvent".
    pub label: String,
    /// Hex color for the node.
    pub color: String,
}

/// A path from a source to a sink.
#[derive(Debug, Clone)]
pub struct TaintSinkPath {
    /// Source step index.
    pub source_step: u16,
    /// Sink step index (Finish node).
    pub sink_step: u16,
    /// Intermediate step indices along the path.
    pub intermediate: Vec<u16>,
    /// Whether this path reaches a forbidden sink.
    pub is_forbidden: bool,
    /// Hex color for the path line.
    pub path_color: String,
    /// Status label, "Dangerous" or "Warning".
    pub status_label: String,
}

/// The taint flow overlay as rendered.
#[derive(Debug, Clone)]
pub struct TaintFlowOverlay {
    /// Source nodes (where secrets enter).
    pub sources: Vec<TaintSourceNode>,
    /// Paths from sources to sinks.
    pub sink_paths: Vec<TaintSinkPath>,
    /// Whether the Finish node is safe (no secret reaches it).
    pub finish_safe: bool,
    /// Summary text, e.g. "2 sources, 0 leaks".
    pub summary: String,
}

pub open spec fn path_forbidden(p: TaintSinkPath) -> bool {
    p.is_forbidden
}

pub open spec fn is_placeholder_overlay(o: TaintFlowOverlay) -> bool {
    &&& o.sources@.len() == 1
    &&& o.sources@[0].step_idx == 0
    &&& o.sources@[0].label@ == "SetConst"@
    &&& o.sources@[0].color@ == NEON_MAGENTA@
    &&& o.sink_paths@.len() == 1
    &&& o.sink_paths@[0].source_step == 0
    &&& o.sink_paths@[0].sink_step == 5
    &&& o.sink_paths@[0].intermediate@ == seq![2u16]
    &&& !o.sink_paths@[0].is_forbidden
    &&& o.sink_paths@[0].path_color@ == NEON_ORANGE@
    &&& o.sink_paths@[0].status_label@ == "Warning"@
    &&& o.finish_safe
    &&& o.summary@ == "1 source, 0 leaks"@
}

impl TaintFlowOverlay {
    /// The placeholder overlay of the default screen: one SetConst source at
    /// step 0 and one non-forbidden warning path 0 -> 2 -> 5.
    pub fn new_placeholder() -> (o: Self)
        ensures
            is_placeholder_overlay(o),
    {
        let mut sources: Vec<TaintSourceNode> = Vec::new();
        sources.push(TaintSourceNode { step_idx: 0, label: String::from_str("SetConst"), color: String::from_str(NEON_MAGENTA) });
        let mut intermediate: Vec<u16> = Vec::new();
        intermediate.push(2);
        let mut sink_paths: Vec<TaintSinkPath> = Vec::new();
        sink_paths.push(TaintSinkPath {
            source_step: 0,
            sink_step: 5,
            intermediate,
            is_forbidden: false,
            path_color: String::from_str(NEON_ORANGE),
            status_label: String::from_str("Warning"),
        });
        TaintFlowOverlay { sources, sink_paths, finish_safe: true, summary: String::from_str("1 source, 0 leaks") }
    }

    /// An overlay with no sources or paths.
    pub fn empty() -> (o: Self)
        ensures
            o.sources@.len() == 0,
            o.sink_paths@.len() == 0,
            o.finish_safe,
            o.summary@ == "0 sources, 0 leaks"@,
    {
        TaintFlowOverlay { sources: Vec::new(), sink_paths: Vec::new(), finish_safe: true, summary: String::from_str("0 sources, 0 leaks") }
    }

    /// Number of source nodes.
    pub fn source_count(&self) -> (r: usize)
        ensures
            r == self.sources@.len(),
    {
        self.sources.len()
    }

    /// Number of sink paths.
    pub fn path_count(&self) -> (r: usize)
        ensures
            r == self.sink_paths@.len(),
    {
        self.sink_paths.len()
    }

    /// Number of forbidden paths.
    pub fn forbidden_path_count(&self) -> (r: usize)
        ensures
            r == count_where(self.sink_paths@, |p: TaintSinkPath| path_forbidden(p)),
    {
        forbidden_count(&self.sink_paths)
    }
}

fn forbidden_count(paths: &Vec<TaintSinkPath>) -> (r: usize)
    ensures
        r == count_where(paths@, |p: TaintSinkPath| path_forbidden(p)),
{
    let ghost pr = |p: TaintSinkPath| path_forbidden(p);
    let mut n: usize = 0;
    let mut i: usize = 0;
    while i < paths.len()
        invariant
            i <= paths@.len(),
            pr == (|p: TaintSinkPath| path_forbidden(p)),
            n == count_where(paths@.take(i as int), pr),
            n <= i,
        decreases paths.len() - i,
    {
        proof {
            lemma_count_where_take(paths@, pr, i as int);
        }
        if paths[i].is_forbidden {
            n += 1;
        }
        i += 1;
    }
    proof {
        lemma_take_full(paths@);
    }
    n
}

// ---------------------------------------------------------------------------
// Resource bounds display
// ---------------------------------------------------------------------------

/// One row of the resource bounds display.
#[derive(Debug, Clone)]
pub struct ResourceRow {
    /// Label, e.g. "Slots".
    pub label: String,
    /// Current/used value.
    pub current: u64,
    /// Maximum/contract value.
    pub maximum: u64,
    /// Unit suffix, e.g. "bytes".
    pub unit: String,
    /// Status of this row.
    pub status: ResourceRowStatus,
}

/// Status of a resource row.
#[derive(Debug, Clone, Copy, PartialEq, Eq, Structural)]
pub enum ResourceRowStatus {
    /// Within bounds.
    InBounds,
    /// At or near the limit.
    Warning,
    /// Exceeds the limit.
    Over,
}

impl ResourceRowStatus {
    /// Green, orange or red.
    pub fn color(&self) -> (r: &'static str)
        ensures
            r == match *self {
                ResourceRowStatus::InBounds => NEON_GREEN,
                ResourceRowStatus::Warning => NEON_ORANGE,
                ResourceRowStatus::Over => NEON_RED,
            },
    {
        match self {
            ResourceRowStatus::InBounds => NEON_GREEN,
            ResourceRowStatus::Warning => NEON_ORANGE,
            ResourceRowStatus::Over => NEON_RED,
        }
    }
}

/// The resource bounds panel as rendered.
#[derive(Debug, Clone)]
pub struct ResourceBoundsDisplay {
    /// Rows of resource metrics.
    pub rows: Vec<ResourceRow>,
    /// Whether all resources are within bounds.
    pub all_ok: bool,
    /// Summary text, e.g. "7/8 metrics within bounds".
    pub summary: String,
}

pub open spec fn row_is(r: ResourceRow, label: Seq<char>, current: u64, maximum: u64, unit: Seq<char>, status: ResourceRowStatus) -> bool {
    r.label@ == label && r.current == current && r.maximum == maximum && r.unit@ == unit && r.status == status
}

fn row(label: &str, current: u64, maximum: u64, unit: &str, status: ResourceRowStatus) -> (r: ResourceRow)
    ensures
        row_is(r, label@, current, maximum, unit@, status),
{
    ResourceRow { label: String::from_str(label), current, maximum, unit: String::from_str(unit), status }
}

pub open spec fn is_placeholder_resources(d: ResourceBoundsDisplay) -> bool {
    &&& d.rows@.len() == 5
    &&& row_is(d.rows@[0], "Slots"@, 4, 1024, ""@, ResourceRowStatus::InBounds)
    &&& row_is(d.rows@[1], "Max Frame Size"@, 3, 128, ""@, ResourceRowStatus::InBounds)
    &&& row_is(d.rows@[2], "Action Payload"@, 1024, 1024, "bytes"@, ResourceRowStatus::Warning)
    &&& row_is(d.rows@[3], "Result Size"@, 512, 512, "bytes"@, ResourceRowStatus::Warning)
    &&& row_is(d.rows@[4], "Queue Depth"@, 1, 64, ""@, ResourceRowStatus::InBounds)
    &&& !d.all_ok
    &&& d.summary@ == "3/5 metrics within bounds"@
}

impl ResourceBoundsDisplay {
    /// The placeholder display: five rows, three of them within bounds.
    pub fn new_placeholder() -> (d: Self)
        ensures
            is_placeholder_resources(d),
    {
        let mut rows: Vec<ResourceRow> = Vec::new();
        rows.push(row("Slots", 4, 1024, "", ResourceRowStatus::InBounds));
        rows.push(row("Max Frame Size", 3, 128, "", ResourceRowStatus::InBounds));
        rows.push(row("Action Payload", 1024, 1024, "bytes", ResourceRowStatus::Warning));
        rows.push(row("Result Size", 512, 512, "bytes", ResourceRowStatus::Warning));
        rows.push(row("Queue Depth", 1, 64, "", ResourceRowStatus::InBounds));
        ResourceBoundsDisplay { all_ok: false, summary: String::from_str("3/5 metrics within bounds"), rows }
    }

    /// Number of rows.
    pub fn row_count(&self) -> (r: usize)
        ensures
            r == self.rows@.len(),
    {
        self.rows.len()
    }
}

// ---------------------------------------------------------------------------
// Action policy display
// ---------------------------------------------------------------------------

/// Per-action policy card.
#[derive(Debug, Clone)]
pub struct ActionPolicyCard {
    /// Action id.
    pub action_id: u16,
    /// Idempotency class label, e.g. "DeterministicPure".
    pub idempotency_label: String,
    /// Hex color for the idempotency label.
    pub idempotency_color: String,
    /// Whether the action has a timeout.
    pub has_timeout: bool,
    /// Timeout in ms, if configured.
    pub timeout_ms: Option<u32>,
    /// Whether strict mode is eligible.
    pub strict_eligible: bool,
    /// Hex color for the strict eligibility badge.
    pub strict_color: String,
    /// Capability labels, e.g. "net:http".
    pub capabilities: Vec<String>,
    /// Policy issue labels.
    pub issues: Vec<String>,
    /// Card background color.
    pub bg_color: String,
    /// Border color.
    pub border_color: String,
}

/// The action policy panel as rendered.
#[derive(Debug, Clone)]
pub struct ActionPolicyDisplay {
    /// Per-action policy cards.
    pub cards: Vec<ActionPolicyCard>,
    /// Whether all actions are strict-eligible.
    pub all_strict_eligible: bool,
    /// Summary text.
    pub summary: String,
}

pub open spec fn is_placeholder_policies(d: ActionPolicyDisplay) -> bool {
    &&& d.cards@.len() == 2
    &&& d.cards@[0].action_id == 1
    &&& d.cards@[0].idempotency_label@ == "DeterministicPure"@
    &&& d.cards@[0].idempotency_color@ == NEON_GREEN@
    &&& d.cards@[0].has_timeout
    &&& d.cards@[0].timeout_ms == Some(5000u32)
    &&& d.cards@[0].strict_eligible
    &&& d.cards@[0].strict_color@ == NEON_GREEN@
    &&& d.cards@[0].capabilities@.len() == 1
    &&& d.cards@[0].capabilities@[0]@ == "net:http"@
    &&& d.cards@[0].issues@.len() == 0
    &&& d.cards@[0].bg_color@ == CARD_BG@
    &&& d.cards@[0].border_color@ == NEON_GREEN@
    &&& d.cards@[1].action_id == 2
    &&& d.cards@[1].idempotency_label@ == "AtLeastOnce"@
    &&& d.cards@[1].idempotency_color@ == NEON_ORANGE@
    &&& d.cards@[1].has_timeout
    &&& d.cards@[1].timeout_ms == Some(3000u32)
    &&& !d.cards@[1].strict_eligible
    &&& d.cards@[1].strict_color@ == NEON_RED@
    &&& d.cards@[1].capabilities@.len() == 0
    &&& d.cards@[1].issues@.len() == 1
    &&& d.cards@[1].issues@[0]@ == "MissingIdempotency"@
    &&& d.cards@[1].bg_color@ == CARD_BG@
    &&& d.cards@[1].border_color@ == NEON_ORANGE@
    &&& !d.all_strict_eligible
    &&& d.summary@ == "2 actions, 1 strict-eligible"@
}

impl ActionPolicyDisplay {
    /// The placeholder display: a strict-eligible pure action 1 and an
    /// at-least-once action 2 with a missing idempotency issue.
    pub fn new_placeholder() -> (d: Self)
        ensures
            is_placeholder_policies(d),
    {
        let mut caps: Vec<String> = Vec::new();
        caps.push(String::from_str("net:http"));
        let mut issues: Vec<String> = Vec::new();
        issues.push(String::from_str("MissingIdempotency"));
        let mut cards: Vec<ActionPolicyCard> = Vec::new();
        cards.push(ActionPolicyCard {
            action_id: 1,
            idempotency_label: String::from_str("DeterministicPure"),
            idempotency_color: String::from_str(NEON_GREEN),
            has_timeout: true,
            timeout_ms: Some(5000),
            strict_eligible: true,
            strict_color: String::from_str(NEON_GREEN),
            capabilities: caps,
            issues: Vec::new(),
            bg_color: String::from_str(CARD_BG),
            border_color: String::from_str(NEON_GREEN),
        });
        cards.push(ActionPolicyCard {
            action_id: 2,
            idempotency_label: String::from_str("AtLeastOnce"),
            idempotency_color: String::from_str(NEON_ORANGE),
            has_timeout: true,
            timeout_ms: Some(3000),
            strict_eligible: false,
            strict_color: String::from_str(NEON_RED),
            capabilities: Vec::new(),
            issues,
            bg_color: String::from_str(CARD_BG),
            border_color: String::from_str(NEON_ORANGE),
        });
        ActionPolicyDisplay { all_strict_eligible: false, summary: String::from_str("2 actions, 1 strict-eligible"), cards }
    }

    /// Number of action policy cards.
    pub fn card_count(&self) -> (r: usize)
        ensures
            r == self.cards@.len(),
    {
        self.cards.len()
    }
}

// ---------------------------------------------------------------------------
// The verification panel
// ---------------------------------------------------------------------------

/// Top-level model of the verification screen: workflow name, certificate
/// cards, taint overlay, resource bounds and action policy panels.
pub struct VerificationPanel {
    /// Displayed workflow name.
    pub workflow_name: String,
    /// Certificate cards (one per verification check).
    pub certificate_cards: Vec<CertificateCard>,
    /// Taint flow visualization model.
    pub taint_overlay: TaintFlowOverlay,
    /// Resource bounds panel model.
    pub resource_bounds: ResourceBoundsDisplay,
    /// Action policy panel model.
    pub action_policy: ActionPolicyDisplay,
}

pub open spec fn card_has(c: CertificateCard, s: CardStatus) -> bool {
    c.status == s
}

pub open spec fn status_total(cards: Seq<CertificateCard>, s: CardStatus) -> nat {
    count_where(cards, |c: CertificateCard| card_has(c, s))
}

/// The placeholder screen.
pub open spec fn is_placeholder_panel(p: VerificationPanel) -> bool {
    let cards = p.certificate_cards@;
    &&& p.workflow_name@ == "issue-triage"@
    &&& cards.len() == 8
    &&& card_is(cards[0], "Structural Validity"@, CardStatus::Pass, "4 nodes, entry in bounds, IDs match positions"@)
    &&& card_is(cards[1], "Bounded Transitions"@, CardStatus::Pass, "max_steps=10000, max_slots=1024 within limits"@)
    &&& card_is(cards[2], "Secret-to-Result Leak"@, CardStatus::Pass, "1 source, 0 leaks detected"@)
    &&& card_is(cards[3], "Durability"@, CardStatus::Warning, "1 Do node without on_error handler: step 3"@)
    &&& card_is(cards[4], "Idempotency"@, CardStatus::Pass, "all Do nodes have idempotency declarations"@)
    &&& card_is(cards[5], "Memory Budget"@, CardStatus::Pass, "slot_count=4 <= max_slots=1024"@)
    &&& card_is(cards[6], "Max Transitions"@, CardStatus::Pass, "6 transitions <= max_steps=10000"@)
    &&& card_is(cards[7], "Max Action Calls"@, CardStatus::Pass, "2 Do nodes, retry budget=6"@)
    &&& is_placeholder_overlay(p.taint_overlay)
    &&& is_placeholder_resources(p.resource_bounds)
    &&& is_placeholder_policies(p.action_policy)
}

fn status_count(cards: &Vec<CertificateCard>, s: CardStatus) -> (r: usize)
    ensures
        r == status_total(cards@, s),
{
    let ghost pr = |c: CertificateCard| card_has(c, s);
    let mut n: usize = 0;
    let mut i: usize = 0;
    while i < cards.len()
        invariant
            i <= cards@.len(),
            pr == (|c: CertificateCard| card_has(c, s)),
            n == count_where(cards@.take(i as int), pr),
            n <= i,
        decreases cards.len() - i,
    {
        proof {
            lemma_count_where_take(cards@, pr, i as int);
        }
        if cards[i].status == s {
            n += 1;
        }
        i += 1;
    }
    proof {
        lemma_take_full(cards@);
    }
    n
}

impl VerificationPanel {
    /// A panel populated with placeholder data: eight certificate cards and the
    /// placeholder overlay, resource and policy panels.
    pub fn new() -> (p: Self)
        ensures
            is_placeholder_panel(p),
    {
        let mut certificate_cards: Vec<CertificateCard> = Vec::new();
        certificate_cards.push(CertificateCard::new("Structural Validity", CardStatus::Pass, "4 nodes, entry in bounds, IDs match positions"));
        certificate_cards.push(CertificateCard::new("Bounded Transitions", CardStatus::Pass, "max_steps=10000, max_slots=1024 within limits"));
        certificate_cards.push(CertificateCard::new("Secret-to-Result Leak", CardStatus::Pass, "1 source, 0 leaks detected"));
        certificate_cards.push(CertificateCard::new("Durability", CardStatus::Warning, "1 Do node without on_error handler: step 3"));
        certificate_cards.push(CertificateCard::new("Idempotency", CardStatus::Pass, "all Do nodes have idempotency declarations"));
        certificate_cards.push(CertificateCard::new("Memory Budget", CardStatus::Pass, "slot_count=4 <= max_slots=1024"));
        certificate_cards.push(CertificateCard::new("Max Transitions", CardStatus::Pass, "6 transitions <= max_steps=10000"));
        certificate_cards.push(CertificateCard::new("Max Action Calls", CardStatus::Pass, "2 Do nodes, retry budget=6"));
        VerificationPanel {
            workflow_name: String::from_str("issue-triage"),
            certificate_cards,
            taint_overlay: TaintFlowOverlay::new_placeholder(),
            resource_bounds: ResourceBoundsDisplay::new_placeholder(),
            action_policy: ActionPolicyDisplay::new_placeholder(),
        }
    }

    /// The top-bar title: "vb".
    pub fn title_text(&self) -> (r: String)
        ensures
            r@ == "vb"@,
    {
        String::from_str("vb")
    }

    /// The page title: "Verification".
    pub fn page_title(&self) -> (r: String)
        ensures
            r@ == "Verification"@,
    {
        String::from_str("Verification")
    }

    /// The workflow badge text: the workflow name.
    pub fn workflow_name_text(&self) -> (r: String)
        ensures
            r@ == self.workflow_name@,
    {
        self.workflow_name.clone()
    }

    /// "CERTIFICATES".
    pub fn certificate_header_text(&self) -> (r: String)
        ensures
            r@ == "CERTIFICATES"@,
    {
        String::from_str("CERTIFICATES")
    }

    /// "TAINT FLOW".
    pub fn taint_header_text(&self) -> (r: String)
        ensures
            r@ == "TAINT FLOW"@,
    {
        String::from_str("TAINT FLOW")
    }

    /// "RESOURCE BOUNDS".
    pub fn resource_header_text(&self) -> (r: String)
        ensures
            r@ == "RESOURCE BOUNDS"@,
    {
        String::from_str("RESOURCE BOUNDS")
    }

    /// "ACTION POLICY".
    pub fn action_policy_header_text(&self) -> (r: String)
        ensures
            r@ == "ACTION POLICY"@,
    {
        String::from_str("ACTION POLICY")
    }

    /// Number of certificate cards.
    pub fn certificate_count(&self) -> (r: usize)
        ensures
            r == self.certificate_cards@.len(),
    {
        self.certificate_cards.len()
    }

    /// Number of passing certificates.
    pub fn pass_count(&self) -> (r: usize)
        ensures
            r == status_total(self.certificate_cards@, CardStatus::Pass),
    {
        status_count(&self.certificate_cards, CardStatus::Pass)
    }

    /// Number of failing certificates.
    pub fn fail_count(&self) -> (r: usize)
        ensures
            r == status_total(self.certificate_cards@, CardStatus::Fail),
    {
        status_count(&self.certificate_cards, CardStatus::Fail)
    }

    /// Number of certificates with a warning.
    pub fn warn_count(&self) -> (r: usize)
        ensures
            r == status_total(self.certificate_cards@, CardStatus::Warning),
    {
        status_count(&self.certificate_cards, CardStatus::Warning)
    }

    /// The certificate cards, in order.
    pub fn certificate_cards(&self) -> (r: &[CertificateCard])
        ensures
            r@ == self.certificate_cards@,
    {
        self.certificate_cards.as_slice()
    }

    /// The taint overlay.
    pub fn taint_overlay(&self) -> (r: &TaintFlowOverlay)
        ensures
            *r == self.taint_overlay,
    {
        &self.taint_overlay
    }

    /// The resource bounds display.
    pub fn resource_bounds(&self) -> (r: &ResourceBoundsDisplay)
        ensures
            *r == self.resource_bounds,
    {
        &self.resource_bounds
    }

    /// The action policy display.
    pub fn action_policy(&self) -> (r: &ActionPolicyDisplay)
        ensures
            *r == self.action_policy,
    {
        &self.action_policy
    }

    /// "<passed>/<total> passed".
    pub fn summary_badge(&self) -> (r: String)
        ensures
            r@ == decimal(status_total(self.certificate_cards@, CardStatus::Pass)) + "/"@
                + decimal(self.certificate_cards@.len()) + " passed"@,
    {
        let passes = self.pass_count();
        let total = self.certificate_count();
        let mut s = String::new();
        push_decimal(&mut s, passes as u64);
        s.append("/");
        push_decimal(&mut s, total as u64);
        s.append(" passed");
        s
    }
}

impl Default for VerificationPanel {
    fn default() -> (p: Self)
        ensures
            is_placeholder_panel(p),
    {
        VerificationPanel::new()
    }
}

/// Every card is a pass, a failure or a warning.
pub proof fn lemma_card_counts_partition(cards: Seq<CertificateCard>)
    ensures
        status_total(cards, CardStatus::Pass) + status_total(cards, CardStatus::Fail)
            + status_total(cards, CardStatus::Warning) == cards.len(),
    decreases cards.len(),
{
    if cards.len() > 0 {
        lemma_card_counts_partition(cards.drop_last());
    }
}

// ---------------------------------------------------------------------------
// Conversions from analysis results
// ---------------------------------------------------------------------------

pub open spec fn card_status_of(s: CertificateStatus) -> CardStatus {
    match s {
        CertificateStatus::Pass => CardStatus::Pass,
        CertificateStatus::Fail(_) => CardStatus::Fail,
        CertificateStatus::Warn(_) => CardStatus::Warning,
    }
}

/// The variant name of a certificate kind.
pub open spec fn kind_name(k: CertificateKind) -> Seq<char> {
    match k {
        CertificateKind::StructuralValidity => "StructuralValidity"@,
        CertificateKind::Boundedness => "Boundedness"@,
        CertificateKind::ResourceBounds => "ResourceBounds"@,
        CertificateKind::TaintFlow => "TaintFlow"@,
        CertificateKind::ActionPolicy => "ActionPolicy"@,
        CertificateKind::StrictDurability => "StrictDurability"@,
        CertificateKind::Reachability => "Reachability"@,
        CertificateKind::LoopNesting => "LoopNesting"@,
    }
}

fn kind_name_str(k: CertificateKind) -> (r: &'static str)
    ensures
        r@ == kind_name(k),
{
    match k {
        CertificateKind::StructuralValidity => "StructuralValidity",
        CertificateKind::Boundedness => "Boundedness",
        CertificateKind::ResourceBounds => "ResourceBounds",
        CertificateKind::TaintFlow => "TaintFlow",
        CertificateKind::ActionPolicy => "ActionPolicy",
        CertificateKind::StrictDurability => "StrictDurability",
        CertificateKind::Reachability => "Reachability",
        CertificateKind::LoopNesting => "LoopNesting",
    }
}

/// Converts a certificate status into a card status.
pub fn cert_status_to_card_status(status: &CertificateStatus) -> (r: CardStatus)
    ensures
        r == card_status_of(*status),
{
    match status {
        CertificateStatus::Pass => CardStatus::Pass,
        CertificateStatus::Fail(_) => CardStatus::Fail,
        CertificateStatus::Warn(_) => CardStatus::Warning,
    }
}

pub open spec fn card_of(cert: Certificate, c: CertificateCard) -> bool {
    card_is(c, kind_name(cert.kind), card_status_of(cert.status), cert.details@)
}

/// Converts a certificate into a card titled with its kind's name.
pub fn certificate_to_card(cert: &Certificate) -> (c: CertificateCard)
    ensures
        card_of(*cert, c),
{
    let status = cert_status_to_card_status(&cert.status);
    CertificateCard::new(kind_name_str(cert.kind), status, cert.details.as_str())
}

/// Converts every certificate of a verification result into a card, in order.
pub fn verification_result_to_cards(result: &VerificationResult) -> (cards: Vec<CertificateCard>)
    ensures
        cards@.len() == result.certificates@.len(),
        forall|i: int| 0 <= i < cards@.len() ==> card_of(result.certificates@[i], #[trigger] cards@[i]),
{
    let mut cards: Vec<CertificateCard> = Vec::new();
    let mut i: usize = 0;
    while i < result.certificates.len()
        invariant
            i <= result.certificates@.len(),
            cards@.len() == i,
            forall|j: int| 0 <= j < i ==> card_of(result.certificates@[j], #[trigger] cards@[j]),
        decreases result.certificates.len() - i,
    {
        cards.push(certificate_to_card(&result.certificates[i]));
        i += 1;
    }
    cards
}

/// "" for one, "s" otherwise.
pub open spec fn plural(n: nat) -> Seq<char> {
    if n == 1 { ""@ } else { "s"@ }
}

pub open spec fn source_node_of(step: StepIdx, n: TaintSourceNode) -> bool {
    &&& n.step_idx == step.0
    &&& n.label@ == "Step("@ + decimal(step.0 as nat) + ")"@
    &&& n.color@ == NEON_MAGENTA@
}

/// The steps of a flow path other than its source and sink, in order.
pub open spec fn inner_steps(p: TaintFlowPath) -> Seq<u16> {
    p.path_nodes@.filter_map(|s: StepIdx| if s != p.source_step && s != p.sink_step { Some(s.0) } else { None })
}

pub open spec fn sink_path_of(p: TaintFlowPath, d: TaintSinkPath) -> bool {
    &&& d.source_step == p.source_step.0
    &&& d.sink_step == p.sink_step.0
    &&& d.intermediate@ == inner_steps(p)
    &&& d.is_forbidden == p.is_forbidden
    &&& d.path_color@ == (if p.is_forbidden { NEON_RED@ } else { NEON_ORANGE@ })
    &&& d.status_label@ == (if p.is_forbidden { "Dangerous"@ } else { "Warning"@ })
}

pub open spec fn flow_forbidden(p: TaintFlowPath) -> bool {
    p.is_forbidden
}

fn push_plural(s: &mut String, n: usize)
    ensures
        final(s)@ == old(s)@ + plural(n as nat),
{
    proof {
        reveal_strlit("");
        reveal_strlit("s");
    }
    if n != 1 {
        s.append("s");
    } else {
        assert(old(s)@ + ""@ =~= old(s)@);
    }
}

fn sink_path_from(path: &TaintFlowPath) -> (d: TaintSinkPath)
    ensures
        sink_path_of(*path, d),
{
    let is_forbidden = path.is_forbidden;
    let path_color = if is_forbidden { String::from_str(NEON_RED) } else { String::from_str(NEON_ORANGE) };
    let status_label = if is_forbidden { String::from_str("Dangerous") } else { String::from_str("Warning") };
    let ghost f = |s: StepIdx| if s != path.source_step && s != path.sink_step { Some(s.0) } else { None };
    let mut intermediate: Vec<u16> = Vec::new();
    let mut i: usize = 0;
    while i < path.path_nodes.len()
        invariant
            i <= path.path_nodes@.len(),
            f == (|s: StepIdx| if s != path.source_step && s != path.sink_step { Some(s.0) } else { None }),
            intermediate@ == path.path_nodes@.take(i as int).filter_map(f),
        decreases path.path_nodes.len() - i,
    {
        proof {
            crate::seqs::lemma_filter_map_take(path.path_nodes@, f, i as int);
        }
        let st = path.path_nodes[i];
        if st != path.source_step && st != path.sink_step {
            intermediate.push(st.0);
        }
        i += 1;
    }
    proof {
        lemma_take_full(path.path_nodes@);
    }
    TaintSinkPath {
        source_step: path.source_step.0,
        sink_step: path.sink_step.0,
        intermediate,
        is_forbidden,
        path_color,
        status_label,
    }
}

/// Converts a taint overlay into its display: one magenta "Step(n)" node per
/// source, one path per flow (red and "Dangerous" when forbidden, orange and
/// "Warning" otherwise) with its intermediate steps, and the summary
/// "<n> source(s), <m> leak(s)" counting forbidden paths as leaks.
pub fn taint_overlay_to_display(result: &TaintOverlayResult) -> (o: TaintFlowOverlay)
    ensures
        o.sources@.len() == result.sources@.len(),
        forall|i: int| 0 <= i < o.sources@.len() ==> source_node_of(result.sources@[i], #[trigger] o.sources@[i]),
        o.sink_paths@.len() == result.flow_paths@.len(),
        forall|i: int| 0 <= i < o.sink_paths@.len() ==> sink_path_of(result.flow_paths@[i], #[trigger] o.sink_paths@[i]),
        o.finish_safe == result.finish_safe,
        o.summary@ == decimal(result.sources@.len()) + " source"@ + plural(result.sources@.len()) + ", "@
            + decimal(count_where(result.flow_paths@, |p: TaintFlowPath| flow_forbidden(p))) + " leak"@
            + plural(count_where(result.flow_paths@, |p: TaintFlowPath| flow_forbidden(p))),
{
    let mut sources: Vec<TaintSourceNode> = Vec::new();
    let mut i: usize = 0;
    while i < result.sources.len()
        invariant
            i <= result.sources@.len(),
            sources@.len() == i,
            forall|j: int| 0 <= j < i ==> source_node_of(result.sources@[j], #[trigger] sources@[j]),
        decreases result.sources.len() - i,
    {
        let step = result.sources[i];
        let mut label = String::from_str("Step(");
        push_decimal(&mut label, step.0 as u64);
        label.append(")");
        sources.push(TaintSourceNode { step_idx: step.0, label, color: String::from_str(NEON_MAGENTA) });
        i += 1;
    }
    let ghost pr = |p: TaintFlowPath| flow_forbidden(p);
    let mut sink_paths: Vec<TaintSinkPath> = Vec::new();
    let mut leak_count: usize = 0;
    let mut k: usize = 0;
    while k < result.flow_paths.len()
        invariant
            k <= result.flow_paths@.len(),
            pr == (|p: TaintFlowPath| flow_forbidden(p)),
            sink_paths@.len() == k,
            forall|j: int| 0 <= j < k ==> sink_path_of(result.flow_paths@[j], #[trigger] sink_paths@[j]),
            leak_count == count_where(result.flow_paths@.take(k as int), pr),
            leak_count <= k,
        decreases result.flow_paths.len() - k,
    {
        proof {
            lemma_count_where_take(result.flow_paths@, pr, k as int);
        }
        let d = sink_path_from(&result.flow_paths[k]);
        if d.is_forbidden {
            leak_count += 1;
        }
        sink_paths.push(d);
        k += 1;
    }
    proof {
        lemma_take_full(result.flow_paths@);
    }
    let source_count = sources.len();
    let mut summary = String::new();
    push_decimal(&mut summary, source_count as u64);
    summary.append(" source");
    push_plural(&mut summary, source_count);
    summary.append(", ");
    push_decimal(&mut summary, leak_count as u64);
    summary.append(" leak");
    push_plural(&mut summary, leak_count);
    TaintFlowOverlay { sources, sink_paths, finish_safe: result.finish_safe, summary }
}

pub open spec fn row_status_of(s: ResourceStatus) -> ResourceRowStatus {
    match s {
        ResourceStatus::WithinBounds => ResourceRowStatus::InBounds,
        ResourceStatus::AtLimit => ResourceRowStatus::Warning,
        ResourceStatus::ExceedsLimit => ResourceRowStatus::Over,
    }
}

pub open spec fn row_of(m: ResourceMetric, r: ResourceRow) -> bool {
    row_is(r, m.label@, m.computed_value, m.contract_value, ""@, row_status_of(m.status))
}

pub open spec fn metric_within(m: ResourceMetric) -> bool {
    m.status == ResourceStatus::WithinBounds
}

/// Converts a resource bounds panel into its display: one row per metric
/// (current = computed value, maximum = contract value), all_ok when every
/// metric is within bounds, and "<ok>/<total> metrics within bounds".
pub fn resource_panel_to_display(panel: &ResourceBoundsPanel) -> (d: ResourceBoundsDisplay)
    ensures
        d.rows@.len() == panel.spec_metrics().len(),
        forall|i: int| 0 <= i < d.rows@.len() ==> row_of(panel.spec_metrics()[i], #[trigger] d.rows@[i]),
        d.all_ok == (count_where(panel.spec_metrics(), |m: ResourceMetric| metric_within(m)) == panel.spec_metrics().len()),
        d.summary@ == decimal(count_where(panel.spec_metrics(), |m: ResourceMetric| metric_within(m))) + "/"@
            + decimal(panel.spec_metrics().len()) + " metrics within bounds"@,
{
    let metrics = panel.metrics();
    let ghost pr = |m: ResourceMetric| metric_within(m);
    let mut rows: Vec<ResourceRow> = Vec::new();
    let mut ok_count: usize = 0;
    let mut i: usize = 0;
    while i < metrics.len()
        invariant
            i <= metrics@.len(),
            metrics@ == panel.spec_metrics(),
            pr == (|m: ResourceMetric| metric_within(m)),
            rows@.len() == i,
            forall|j: int| 0 <= j < i ==> row_of(metrics@[j], #[trigger] rows@[j]),
            ok_count == count_where(metrics@.take(i as int), pr),
            ok_count <= i,
        decreases metrics.len() - i,
    {
        proof {
            lemma_count_where_take(metrics@, pr, i as int);
            reveal_strlit("");
        }
        let m = &metrics[i];
        let status = match m.status {
            ResourceStatus::WithinBounds => ResourceRowStatus::InBounds,
            ResourceStatus::AtLimit => ResourceRowStatus::Warning,
            ResourceStatus::ExceedsLimit => ResourceRowStatus::Over,
        };
        if status == ResourceRowStatus::InBounds {
            ok_count += 1;
        }
        rows.push(ResourceRow {
            label: String::from_str(m.label),
            current: m.computed_value,
            maximum: m.contract_value,
            unit: String::new(),
            status,
        });
        assert(rows@[i as int].unit@ == ""@);
        assert(rows@[i as int].label@ == metrics@[i as int].label@);
        assert(rows@[i as int].status == row_status_of(metrics@[i as int].status));
        i += 1;
    }
    proof {
        lemma_take_full(metrics@);
    }
    let total = rows.len();
    let all_ok = ok_count == total;
    let mut summary = String::new();
    push_decimal(&mut summary, ok_count as u64);
    summary.append("/");
    push_decimal(&mut summary, total as u64);
    summary.append(" metrics within bounds");
    ResourceBoundsDisplay { rows, all_ok, summary }
}

pub open spec fn idem_label(c: IdempotencyClass) -> Seq<char> {
    match c {
        IdempotencyClass::DeterministicPure => "DeterministicPure"@,
        IdempotencyClass::AtLeastOnce => "AtLeastOnce"@,
        IdempotencyClass::Unknown => "Unknown"@,
    }
}

pub open spec fn idem_color(c: IdempotencyClass) -> &'static str {
    match c {
        IdempotencyClass::DeterministicPure => NEON_GREEN,
        IdempotencyClass::AtLeastOnce => NEON_ORANGE,
        IdempotencyClass::Unknown => NEON_RED,
    }
}

/// The variant name of a policy issue.
pub open spec fn issue_name(i: PolicyIssue) -> Seq<char> {
    match i {
        PolicyIssue::MissingTimeout => "MissingTimeout"@,
        PolicyIssue::MissingIdempotency => "MissingIdempotency"@,
        PolicyIssue::UnsafeRetry => "UnsafeRetry"@,
    }
}

/// Green when strict-eligible without issues, orange when only not eligible,
/// red when there are issues.
pub open spec fn policy_border(r: ActionPolicyReport) -> &'static str {
    if r.issues@.len() == 0 && r.strict_eligible {
        NEON_GREEN
    } else if r.issues@.len() == 0 {
        NEON_ORANGE
    } else {
        NEON_RED
    }
}

pub open spec fn policy_card_of(r: ActionPolicyReport, c: ActionPolicyCard) -> bool {
    &&& c.action_id == r.action_id
    &&& c.idempotency_label@ == idem_label(r.idempotency_class)
    &&& c.idempotency_color@ == idem_color(r.idempotency_class)@
    &&& c.has_timeout == r.has_timeout
    &&& c.timeout_ms == r.timeout_ms
    &&& c.strict_eligible == r.strict_eligible
    &&& c.strict_color@ == (if r.strict_eligible { NEON_GREEN@ } else { NEON_RED@ })
    &&& c.capabilities@.len() == 0
    &&& c.issues@.len() == r.issues@.len()
    &&& (forall|k: int| 0 <= k < c.issues@.len() ==> (#[trigger] c.issues@[k])@ == issue_name(r.issues@[k]))
    &&& c.bg_color@ == CARD_BG@
    &&& c.border_color@ == policy_border(r)@
}

pub open spec fn report_strict(r: ActionPolicyReport) -> bool {
    r.strict_eligible
}

fn issue_name_str(i: PolicyIssue) -> (r: &'static str)
    ensures
        r@ == issue_name(i),
{
    match i {
        PolicyIssue::MissingTimeout => "MissingTimeout",
        PolicyIssue::MissingIdempotency => "MissingIdempotency",
        PolicyIssue::UnsafeRetry => "UnsafeRetry",
    }
}

fn policy_card_from(r: &ActionPolicyReport) -> (c: ActionPolicyCard)
    ensures
        policy_card_of(*r, c),
{
    let (idem_label, idem_color) = match r.idempotency_class {
        IdempotencyClass::DeterministicPure => (String::from_str("DeterministicPure"), String::from_str(NEON_GREEN)),
        IdempotencyClass::AtLeastOnce => (String::from_str("AtLeastOnce"), String::from_str(NEON_ORANGE)),
        IdempotencyClass::Unknown => (String::from_str("Unknown"), String::from_str(NEON_RED)),
    };
    let strict_color = if r.strict_eligible { String::from_str(NEON_GREEN) } else { String::from_str(NEON_RED) };
    let border_color = if r.issues.len() == 0 && r.strict_eligible {
        String::from_str(NEON_GREEN)
    } else if r.issues.len() == 0 {
        String::from_str(NEON_ORANGE)
    } else {
        String::from_str(NEON_RED)
    };
    let mut issues: Vec<String> = Vec::new();
    let mut k: usize = 0;
    while k < r.issues.len()
        invariant
            k <= r.issues@.len(),
            issues@.len() == k,
            forall|j: int| 0 <= j < k ==> (#[trigger] issues@[j])@ == issue_name(r.issues@[j]),
        decreases r.issues.len() - k,
    {
        issues.push(String::from_str(issue_name_str(r.issues[k])));
        k += 1;
    }
    ActionPolicyCard {
        action_id: r.action_id,
        idempotency_label: idem_label,
        idempotency_color: idem_color,
        has_timeout: r.has_timeout,
        timeout_ms: r.timeout_ms,
        strict_eligible: r.strict_eligible,
        strict_color,
        capabilities: Vec::new(),
        issues,
        bg_color: String::from_str(CARD_BG),
        border_color,
    }
}

/// Converts action policy reports into their display: one card per report,
/// all_strict_eligible when there is at least one action and every one is
/// eligible, and the summary "<n> action(s), <k> strict-eligible".
pub fn action_reports_to_display(reports: &[ActionPolicyReport]) -> (d: ActionPolicyDisplay)
    ensures
        d.cards@.len() == reports@.len(),
        forall|i: int| 0 <= i < d.cards@.len() ==> policy_card_of(reports@[i], #[trigger] d.cards@[i]),
        d.all_strict_eligible == (reports@.len() > 0
            && count_where(reports@, |r: ActionPolicyReport| report_strict(r)) == reports@.len()),
        d.summary@ == decimal(reports@.len()) + " action"@ + plural(reports@.len()) + ", "@
            + decimal(count_where(reports@, |r: ActionPolicyReport| report_strict(r))) + " strict-eligible"@,
{
    let ghost pr = |r: ActionPolicyReport| report_strict(r);
    let mut cards: Vec<ActionPolicyCard> = Vec::new();
    let mut strict_count: usize = 0;
    let mut i: usize = 0;
    while i < reports.len()
        invariant
            i <= reports@.len(),
            pr == (|r: ActionPolicyReport| report_strict(r)),
            cards@.len() == i,
            forall|j: int| 0 <= j < i ==> policy_card_of(reports@[j], #[trigger] cards@[j]),
            strict_count == count_where(reports@.take(i as int), pr),
            strict_count <= i,
        decreases reports.len() - i,
    {
        proof {
            lemma_count_where_take(reports@, pr, i as int);
        }
        let card = policy_card_from(&reports[i]);
        if card.strict_eligible {
            strict_count += 1;
        }
        cards.push(card);
        i += 1;
    }
    proof {
        lemma_take_full(reports@);
    }
    let total = cards.len();
    let all_strict = strict_count == total && total > 0;
    let mut summary = String::new();
    push_decimal(&mut summary, total as u64);
    summary.append(" action");
    push_plural(&mut summary, total);
    summary.append(", ");
    push_decimal(&mut summary, strict_count as u64);
    summary.append(" strict-eligible");
    ActionPolicyDisplay { cards, all_strict_eligible: all_strict, summary }
}

// ---------------------------------------------------------------------------
// Errors of fallible constructors
// ---------------------------------------------------------------------------

#[derive(Debug, Clone, PartialEq, Eq, Structural)]
pub enum Error {
    VerificationIncomplete,
    ArtifactDigestMissing,
    WorkflowCorrupted,
    PanelRenderError,
}

impl Error {
    /// The error's message.
    pub fn message(&self) -> (r: &'static str)
        ensures
            r@ == match *self {
                Error::VerificationIncomplete => "verification report has no certificates"@,
                Error::ArtifactDigestMissing => "artifact digest field is empty"@,
                Error::WorkflowCorrupted => "workflow entry index out of bounds"@,
                Error::PanelRenderError => "UI panel failed to construct from data"@,
            },
    {
        match self {
            Error::VerificationIncomplete => "verification report has no certificates",
            Error::ArtifactDigestMissing => "artifact digest field is empty",
            Error::WorkflowCorrupted => "workflow entry index out of bounds",
            Error::PanelRenderError => "UI panel failed to construct from data",
        }
    }
}

// ---------------------------------------------------------------------------
// Banner, gates, artifact panel and proof badges
// ---------------------------------------------------------------------------

/// Banner green: `#10B981`.
pub const BANNER_GREEN: &'static str = "#10B981";
/// Banner red: `#EF4444`.
pub const BANNER_RED: &'static str = "#EF4444";
/// Color of a gate that has not run yet: `#98A2B3`.
pub const GATE_PENDING_COLOR: &'static str = "#98A2B3";

#[derive(Debug, Clone, Copy, PartialEq, Eq, Structural)]
pub enum BannerStatus {
    Pass,
    Fail,
}

impl BannerStatus {
    /// Green for a pass, red for a failure.
    pub fn color(&self) -> (r: &'static str)
        ensures
            r == match *self {
                BannerStatus::Pass => BANNER_GREEN,
                BannerStatus::Fail => BANNER_RED,
            },
    {
        match self {
            BannerStatus::Pass => BANNER_GREEN,
            BannerStatus::Fail => BANNER_RED,
        }
    }
}

/// The banner at the top of the certificate view.
#[derive(Debug, Clone)]
pub struct VerificationBanner {
    pub status: BannerStatus,
    pub message: String,
}

impl VerificationBanner {
    /// "Verification passed" or "Verification failed".
    pub fn new(passed: bool) -> (b: Self)
        ensures
            b.status == (if passed { BannerStatus::Pass } else { BannerStatus::Fail }),
            b.message@ == (if passed { "Verification passed"@ } else { "Verification failed"@ }),
    {
        if passed {
            VerificationBanner { status: BannerStatus::Pass, message: String::from_str("Verification passed") }
        } else {
            VerificationBanner { status: BannerStatus::Fail, message: String::from_str("Verification failed") }
        }
    }

    pub fn status(&self) -> (r: BannerStatus)
        ensures
            r == self.status,
    {
        self.status
    }

    pub fn message(&self) -> (r: &str)
        ensures
            r@ == self.message@,
    {
        self.message.as_str()
    }
}

#[derive(Debug, Clone, Copy, PartialEq, Eq, Structural)]
pub enum GateStatus {
    Pass,
    Fail,
    Warning,
    Pending,
}

impl GateStatus {
    /// Green, red, orange, or the pending grey.
    pub fn color(&self) -> (r: &'static str)
        ensures
            r == match *self {
                GateStatus::Pass => NEON_GREEN,
                GateStatus::Fail => NEON_RED,
                GateStatus::Warning => NEON_ORANGE,
                GateStatus::Pending => GATE_PENDING_COLOR,
            },
    {
        match self {
            GateStatus::Pass => NEON_GREEN,
            GateStatus::Fail => NEON_RED,
            GateStatus::Warning => NEON_ORANGE,
            GateStatus::Pending => GATE_PENDING_COLOR,
        }
    }
}

/// One gate of the verification pipeline.
#[derive(Debug, Clone)]
pub struct VerificationGate {
    pub name: String,
    pub status: GateStatus,
    pub index: usize,
}

impl VerificationGate {
    pub fn new(name: &str, status: GateStatus, index: usize) -> (g: Self)
        ensures
            g.name@ == name@,
            g.status == status,
            g.index == index,
    {
        VerificationGate { name: String::from_str(name), status, index }
    }
}

/// Side panel with artifact metadata and digests.
#[derive(Debug, Clone)]
pub struct ArtifactPanel {
    pub artifact_version: String,
    pub workflow_version: String,
    pub ir_digest: String,
    pub action_abi_digest: String,
    pub policy_digest: String,
    pub verified_timestamp: String,
    pub warnings: Vec<String>,
}

impl ArtifactPanel {
    pub fn new(artifact_version: &str, workflow_version: &str, ir_digest: &str, action_abi_digest: &str,
        policy_digest: &str, verified_timestamp: &str, warnings: Vec<String>) -> (p: Self)
        ensures
            p.artifact_version@ == artifact_version@,
            p.workflow_version@ == workflow_version@,
            p.ir_digest@ == ir_digest@,
            p.action_abi_digest@ == action_abi_digest@,
            p.policy_digest@ == policy_digest@,
            p.verified_timestamp@ == verified_timestamp@,
            p.warnings == warnings,
    {
        ArtifactPanel {
            artifact_version: String::from_str(artifact_version),
            workflow_version: String::from_str(workflow_version),
            ir_digest: String::from_str(ir_digest),
            action_abi_digest: String::from_str(action_abi_digest),
            policy_digest: String::from_str(policy_digest),
            verified_timestamp: String::from_str(verified_timestamp),
            warnings,
        }
    }

    pub fn warning_count(&self) -> (r: usize)
        ensures
            r == self.warnings@.len(),
    {
        self.warnings.len()
    }

    /// True when all three digests are empty.
    pub fn is_empty(&self) -> (r: bool)
        ensures
            r == (self.ir_digest@.len() == 0 && self.action_abi_digest@.len() == 0 && self.policy_digest@.len() == 0),
    {
        self.ir_digest.as_str().is_empty() && self.action_abi_digest.as_str().is_empty()
            && self.policy_digest.as_str().is_empty()
    }
}

/// Five boolean badges summarising the verification outcome.
#[derive(Debug, Clone, PartialEq, Eq, Structural)]
pub struct ProofSummary {
    pub bounded: bool,
    pub taint_safe: bool,
    pub retry_safe: bool,
    pub durable: bool,
    pub replayable: bool,
}

pub open spec fn flag(b: bool) -> nat {
    if b { 1 } else { 0 }
}

impl ProofSummary {
    pub fn new(bounded: bool, taint_safe: bool, retry_safe: bool, durable: bool, replayable: bool) -> (p: Self)
        ensures
            p == (ProofSummary { bounded, taint_safe, retry_safe, durable, replayable }),
    {
        ProofSummary { bounded, taint_safe, retry_safe, durable, replayable }
    }

    /// The number of badges: five.
    pub fn badge_count(&self) -> (r: usize)
        ensures
            r == 5,
    {
        5
    }

    /// True when every badge holds.
    pub fn all_pass(&self) -> (r: bool)
        ensures
            r == (self.bounded && self.taint_safe && self.retry_safe && self.durable && self.replayable),
    {
        self.bounded && self.taint_safe && self.retry_safe && self.durable && self.replayable
    }

    /// The number of badges that hold.
    pub fn pass_count(&self) -> (r: usize)
        ensures
            r == flag(self.bounded) + flag(self.taint_safe) + flag(self.retry_safe) + flag(self.durable) + flag(self.replayable),
    {
        let mut count: usize = 0;
        if self.bounded {
            count = count + 1;
        }
        if self.taint_safe {
            count = count + 1;
        }
        if self.retry_safe {
            count = count + 1;
        }
        if self.durable {
            count = count + 1;
        }
        if self.replayable {
            count = count + 1;
        }
        count
    }
}

/// All badges hold exactly when all five are counted.
pub proof fn lemma_all_pass_iff_five(p: ProofSummary)
    ensures
        (p.bounded && p.taint_safe && p.retry_safe && p.durable && p.replayable)
            <==> flag(p.bounded) + flag(p.taint_safe) + flag(p.retry_safe) + flag(p.durable) + flag(p.replayable) == 5,
{
}

/// The certificate view: banner, cards, gate pipeline, artifact panel and badges.
pub struct VerificationCertificateView {
    pub banner: VerificationBanner,
    pub certificate_cards: Vec<CertificateCard>,
    pub gates: Vec<VerificationGate>,
    pub artifact_panel: ArtifactPanel,
    pub proof_summary: ProofSummary,
}

impl VerificationCertificateView {
    pub fn new(banner: VerificationBanner, certificate_cards: Vec<CertificateCard>, gates: Vec<VerificationGate>,
        artifact_panel: ArtifactPanel, proof_summary: ProofSummary) -> (v: Self)
        ensures
            v == (VerificationCertificateView { banner, certificate_cards, gates, artifact_panel, proof_summary }),
    {
        VerificationCertificateView { banner, certificate_cards, gates, artifact_panel, proof_summary }
    }

    pub fn gate_count(&self) -> (r: usize)
        ensures
            r == self.gates@.len(),
    {
        self.gates.len()
    }

    pub fn card_count(&self) -> (r: usize)
        ensures
            r == self.certificate_cards@.len(),
    {
        self.certificate_cards.len()
    }
}

impl Default for VerificationCertificateView {
    /// A passing banner, no cards or gates, an empty artifact panel, no badges.
    fn default() -> (v: Self)
        ensures
            v.banner.status == BannerStatus::Pass,
            v.banner.message@ == "Verification passed"@,
            v.certificate_cards@.len() == 0,
            v.gates@.len() == 0,
            v.artifact_panel.artifact_version@.len() == 0,
            v.artifact_panel.workflow_version@.len() == 0,
            v.artifact_panel.ir_digest@.len() == 0,
            v.artifact_panel.action_abi_digest@.len() == 0,
            v.artifact_panel.policy_digest@.len() == 0,
            v.artifact_panel.verified_timestamp@.len() == 0,
            v.artifact_panel.warnings@.len() == 0,
            v.proof_summary == (ProofSummary { bounded: false, taint_safe: false, retry_safe: false, durable: false, replayable: false }),
    {
        proof {
            reveal_strlit("");
        }
        VerificationCertificateView {
            banner: VerificationBanner::new(true),
            certificate_cards: Vec::new(),
            gates: Vec::new(),
            artifact_panel: ArtifactPanel::new("", "", "", "", "", "", Vec::new()),
            proof_summary: ProofSummary::new(false, false, false, false, false),
        }
    }
}

/// The names of the nine gates, in pipeline order.
pub open spec fn gate_names() -> Seq<Seq<char>> {
    seq!["Parse"@, "Graph check"@, "Policy"@, "Resources"@, "Taint"@, "Durability"@, "Idempotency"@, "Capability"@, "Result"@]
}

/// Builds the nine-gate pipeline in order, every gate pending.
pub fn build_gate_pipeline() -> (gates: Vec<VerificationGate>)
    ensures
        gates@.len() == 9,
        forall|i: int| 0 <= i < 9 ==> {
            &&& (#[trigger] gates@[i]).name@ == gate_names()[i]
            &&& gates@[i].status == GateStatus::Pending
            &&& gates@[i].index == i
        },
{
    let names: [&str; 9] = ["Parse", "Graph check", "Policy", "Resources", "Taint", "Durability", "Idempotency", "Capability", "Result"];
    let mut gates: Vec<VerificationGate> = Vec::new();
    let mut i: usize = 0;
    while i < 9
        invariant
            i <= 9,
            names@.len() == 9,
            forall|j: int| 0 <= j < 9 ==> (#[trigger] names@[j])@ == gate_names()[j],
            gates@.len() == i,
            forall|j: int| 0 <= j < i ==> {
                &&& (#[trigger] gates@[j]).name@ == gate_names()[j]
                &&& gates@[j].status == GateStatus::Pending
                &&& gates@[j].index == j
            },
        decreases 9 - i,
    {
        gates.push(VerificationGate::new(names[i], GateStatus::Pending, i));
        i += 1;
    }
    gates
}

/// The eight certificate card titles, in order.
pub fn certificate_card_titles() -> (t: Vec<&'static str>)
    ensures
        t@.len() == 8,
        t@[0]@ == "Structure"@,
        t@[1]@ == "Boundedness"@,
        t@[2]@ == "Resources"@,
        t@[3]@ == "Taint/Secrets"@,
        t@[4]@ == "Action policy"@,
        t@[5]@ == "Durability"@,
        t@[6]@ == "Idempotency"@,
        t@[7]@ == "Capability"@,
{
    let mut t: Vec<&'static str> = Vec::new();
    t.push("Structure");
    t.push("Boundedness");
    t.push("Resources");
    t.push("Taint/Secrets");
    t.push("Action policy");
    t.push("Durability");
    t.push("Idempotency");
    t.push("Capability");
    t
}

} // verus!
