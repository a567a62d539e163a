# vb_verify

Verified analyses behind the workflow verification screen: certificates and
pre-flight checks over a compiled workflow graph, action policy reports,
durability and replay-risk checks, resource bounds, slot-level taint tracking,
the certificate panel fed by the engine's gate results, and the display model
of the screen. Every function in `src/` carries a contract proved by Verus.

Layout:

- `src/workflow.rs`: the compiled workflow graph the analyses read.
- `src/taint_overlay.rs`: the taint overlay of a workflow (secret sources,
  sinks and propagation segments), an input to the certificate analyses.
- `src/certificates.rs`: the eight certificates and the eight pre-flight checks.
- `src/action_policy.rs`: per-action idempotency, timeout and strict-mode reports.
- `src/durability.rs`: durability checks, replay risk, durability level and report.
- `src/resources.rs`: worst-case resource bounds and the resource panel.
- `src/taint.rs`: taint graphs, tainted slots and shortest propagation chains.
- `src/ipc.rs`, `src/certificate_panel.rs`: gate certificates as received, and
  their panel with severities and summary.
- `src/screen.rs`: cards, overlays, panels, gates and badges of the screen.
- `src/seqs.rs`, `src/text.rs`: counting, joining and decimal rendering.
- `app/lib.rs`: the floating-point parts (utilisation ratios, RGBA colors).

The laws of the library are public proof functions named `lemma_*`.
