//! The verification certificate panel: gate certificates received over IPC,
//! classified by severity, with pass/fail counts and a per-severity summary.
use vstd::prelude::*;
use crate::ipc::{CertificateWire, VerificationResult};
use crate::seqs::{count_where, lemma_count_where_take, lemma_take_full, lemma_count_where_le, lemma_count_where_zero};

verus! {

/// Severity category derived from a gate identifier.
///
/// - **Structure**: gate_07 through gate_11 and gate_13
/// - **Taint**: gate_14
/// - **Durability**: gate_15
/// - **Policy**: otherwise, a name containing "action" or "policy" (any case)
/// - **Resource**: everything else
#[derive(Debug, Clone, Copy, PartialEq, Eq, Structural, Hash, PartialOrd, Ord)]
pub enum CertificateSeverity {
    /// IR structure, stack, accessor, slot, node, loop, or cycle checks.
    Structure,
    /// Resource bound checks.
    Resource,
    /// Taint / slot type consistency checks.
    Taint,
    /// Determinism and durability proof checks.
    Durability,
    /// Action policy checks.
    Policy,
}

impl CertificateSeverity {
    /// The display name: the variant name.
    pub fn label(&self) -> (r: &'static str)
        ensures
            r@ == match *self {
                CertificateSeverity::Structure => "Structural"@,
                CertificateSeverity::Resource => "Resource"@,
                CertificateSeverity::Taint => "Taint"@,
                CertificateSeverity::Durability => "Durability"@,
                CertificateSeverity::Policy => "Policy"@,
            },
    {
        match self {
            CertificateSeverity::Structure => "Structural",
            CertificateSeverity::Resource => "Resource",
            CertificateSeverity::Taint => "Taint",
            CertificateSeverity::Durability => "Durability",
            CertificateSeverity::Policy => "Policy",
        }
    }
}

/// One gate-check certificate entry for display.
#[derive(Debug, Clone)]
pub struct CertificateEntry {
    /// Gate identifier string (e.g. `"gate_07_expression_stack_depth"`).
    pub kind: String,
    /// Whether this gate check passed.
    pub passed: bool,
    /// Details (may be empty on pass).
    pub details: String,
    /// How serious a failure of this gate is.
    pub severity: CertificateSeverity,
}

/// Aggregated pass/fail counts for the certificate panel.
#[derive(Debug, Clone, PartialEq, Eq)]
pub struct GateSummary {
    /// Total number of gate checks.
    pub total: u32,
    /// Number of gate checks that passed.
    pub passed: u32,
    /// Number of gate checks that failed.
    pub failed: u32,
    /// Per-severity breakdown: `(severity, passed_count, failed_count)`.
    pub by_severity: Vec<(CertificateSeverity, u32, u32)>,
}

/// Panel of verification certificates built from a verification result.
#[derive(Debug, Clone)]
pub struct CertificatePanel {
    entries: Vec<CertificateEntry>,
}

// ---------------------------------------------------------------------------
// Gate identifiers
// ---------------------------------------------------------------------------

pub open spec fn is_ascii_digit(c: char) -> bool {
    '0' <= c && c <= '9'
}

/// Length of the leading run of ASCII digits.
pub open spec fn digit_run(s: Seq<char>) -> nat
    decreases s.len(),
{
    if s.len() > 0 && is_ascii_digit(s[0]) {
        1 + digit_run(s.drop_first())
    } else {
        0
    }
}

pub open spec fn digit_value(c: char) -> int {
    c as int - '0' as int
}

/// The number a run of decimal digits denotes.
pub open spec fn digits_value(d: Seq<char>) -> int
    decreases d.len(),
{
    if d.len() == 0 {
        0
    } else {
        digits_value(d.drop_last()) * 10 + digit_value(d.last())
    }
}

/// The number a gate name carries: the digits right after a leading `gate_`,
/// when there is at least one digit and the number fits in a `u32`.
pub open spec fn gate_number(k: Seq<char>) -> Option<u32> {
    if k.len() >= 5 && k.take(5) == "gate_"@ {
        let rest = k.skip(5);
        let n = digit_run(rest);
        if n == 0 || digits_value(rest.take(n as int)) > u32::MAX {
            None
        } else {
            Some(digits_value(rest.take(n as int)) as u32)
        }
    } else {
        None
    }
}

/// ASCII lowercase of one character.
pub open spec fn ascii_lower(c: char) -> char {
    if 'A' <= c && c <= 'Z' { ((c as int) + 32) as char } else { c }
}

pub open spec fn lowercase(s: Seq<char>) -> Seq<char> {
    s.map_values(|c: char| ascii_lower(c))
}

/// `pat` occurs in `s` starting at `i`.
pub open spec fn occurs_at(s: Seq<char>, pat: Seq<char>, i: int) -> bool {
    0 <= i && i + pat.len() <= s.len() && s.subrange(i, i + pat.len()) == pat
}

pub open spec fn contains_seq(s: Seq<char>, pat: Seq<char>) -> bool {
    exists|i: int| occurs_at(s, pat, i)
}

/// The severity of a gate identifier.
pub open spec fn severity_of(k: Seq<char>) -> CertificateSeverity {
    match gate_number(k) {
        Some(n) if (7 <= n && n <= 11) || n == 13 => CertificateSeverity::Structure,
        Some(n) if n == 14 => CertificateSeverity::Taint,
        Some(n) if n == 15 => CertificateSeverity::Durability,
        _ => if contains_seq(lowercase(k), "action"@) || contains_seq(lowercase(k), "policy"@) {
            CertificateSeverity::Policy
        } else {
            CertificateSeverity::Resource
        },
    }
}

/// A run of digits followed by a non-digit (or the end) has that length.
proof fn lemma_digit_run(s: Seq<char>, i: int)
    requires
        0 <= i <= s.len(),
        forall|j: int| 0 <= j < i ==> is_ascii_digit(#[trigger] s[j]),
        i == s.len() || !is_ascii_digit(s[i]),
    ensures
        digit_run(s) == i,
    decreases i,
{
    if i > 0 {
        let t = s.drop_first();
        assert forall|j: int| 0 <= j < i - 1 implies is_ascii_digit(#[trigger] t[j]) by {
            assert(t[j] == s[j + 1]);
        }
        if i < s.len() {
            assert(t[i - 1] == s[i]);
        }
        lemma_digit_run(t, i - 1);
    }
}

/// The characters of a string.
fn chars_of(s: &str) -> (v: Vec<char>)
    ensures
        v@ == s@,
{
    let n = s.unicode_len();
    let mut v: Vec<char> = Vec::new();
    let mut i: usize = 0;
    while i < n
        invariant
            n == s@.len(),
            i <= n,
            v@ == s@.take(i as int),
        decreases n - i,
    {
        v.push(s.get_char(i));
        i += 1;
        assert(v@ =~= s@.take(i as int));
    }
    assert(v@ =~= s@);
    v
}

/// The number a gate name such as `gate_07_expression_stack_depth` carries;
/// `None` unless the name starts with `gate_` and digits that fit in a `u32`.
pub fn extract_gate_number(kind: &str) -> (r: Option<u32>)
    ensures
        r == gate_number(kind@),
{
    let k = chars_of(kind);
    let n = k.len();
    proof {
        reveal_strlit("gate_");
    }
    if n < 5 || k[0] != 'g' || k[1] != 'a' || k[2] != 't' || k[3] != 'e' || k[4] != '_' {
        proof {
            if n >= 5 {
                assert(k@.take(5)[0] == k@[0] && k@.take(5)[1] == k@[1] && k@.take(5)[2] == k@[2]
                    && k@.take(5)[3] == k@[3] && k@.take(5)[4] == k@[4]);
            }
        }
        return None;
    }
    assert(k@.take(5) =~= "gate_"@);
    let ghost rest = k@.skip(5);
    let mut i: usize = 5;
    let mut value: u64 = 0;
    let mut over = false;
    while i < n && '0' <= k[i] && k[i] <= '9'
        invariant
            n == k@.len(),
            rest == k@.skip(5),
            5 <= i <= n,
            forall|j: int| 0 <= j < i - 5 ==> is_ascii_digit(#[trigger] rest[j]),
            over ==> digits_value(rest.take(i - 5)) > u32::MAX,
            !over ==> value == digits_value(rest.take(i - 5)) && value <= u32::MAX,
        decreases n - i,
    {
        let c = k[i];
        proof {
            assert(rest[i - 5] == c);
            assert(rest.take(i - 4).drop_last() =~= rest.take(i - 5));
            assert(rest.take(i - 4).last() == c);
        }
        if !over {
            let d: u64 = (c as u64) - ('0' as u64);
            let v2: u64 = value * 10 + d;
            if v2 > 0xFFFF_FFFF {
                over = true;
            } else {
                value = v2;
            }
        }
        i += 1;
    }
    proof {
        if i < n {
            assert(rest[i - 5] == k@[i as int]);
        }
        lemma_digit_run(rest, i - 5);
    }
    if i == 5 || over {
        None
    } else {
        Some(value as u32)
    }
}

/// Whether `c` lowercases to the lowercase letter `p`.
fn lowers_to(c: char, p: char) -> (r: bool)
    requires
        'a' <= p && p <= 'z',
    ensures
        r == (ascii_lower(c) == p),
{
    if 'A' <= c && c <= 'Z' {
        (c as u32) + 32 == (p as u32)
    } else {
        c == p
    }
}

/// Whether the ASCII lowercase of `s` contains `pat`, a word of lowercase letters.
fn contains_lowercase(s: &Vec<char>, pat: &str) -> (r: bool)
    requires
        forall|j: int| 0 <= j < pat@.len() ==> 'a' <= #[trigger] pat@[j] && pat@[j] <= 'z',
    ensures
        r == contains_seq(lowercase(s@), pat@),
{
    let p = chars_of(pat);
    let m = p.len();
    let n = s.len();
    let ghost ls = lowercase(s@);
    if m > n {
        proof {
            assert forall|i: int| !occurs_at(ls, pat@, i) by {}
        }
        return false;
    }
    let mut i: usize = 0;
    while i <= n - m
        invariant
            m == p@.len(),
            p@ == pat@,
            n == s@.len(),
            m <= n,
            i <= n - m + 1,
            ls == lowercase(s@),
            forall|j: int| 0 <= j < pat@.len() ==> 'a' <= #[trigger] pat@[j] && pat@[j] <= 'z',
            forall|i2: int| 0 <= i2 < i ==> !occurs_at(ls, pat@, i2),
        decreases n - m + 1 - i,
    {
        let mut j: usize = 0;
        let mut ok = true;
        while j < m && ok
            invariant
                m == p@.len(),
                p@ == pat@,
                n == s@.len(),
                i + m <= n,
                j <= m,
                ls == lowercase(s@),
                forall|j: int| 0 <= j < pat@.len() ==> 'a' <= #[trigger] pat@[j] && pat@[j] <= 'z',
                ok ==> forall|j2: int| 0 <= j2 < j ==> ls[i + j2] == pat@[j2],
                !ok ==> !occurs_at(ls, pat@, i as int) && j < m,
            decreases m - j + (if ok { 1int } else { 0int }),
        {
            if lowers_to(s[i + j], p[j]) {
                j += 1;
            } else {
                proof {
                    assert(ls[i + j] != pat@[j as int]);
                    if occurs_at(ls, pat@, i as int) {
                        assert(ls.subrange(i as int, i + m)[j as int] == ls[i + j]);
                    }
                }
                ok = false;
            }
        }
        if ok {
            assert(ls.subrange(i as int, i + m) =~= pat@);
            assert(occurs_at(ls, pat@, i as int));
            return true;
        }
        i += 1;
    }
    proof {
        assert forall|i2: int| !occurs_at(ls, pat@, i2) by {
            if occurs_at(ls, pat@, i2) {
                assert(0 <= i2 < i);
            }
        }
    }
    false
}

/// Classifies a gate identifier into a severity category: gates 7 to 11 and 13
/// are Structure, 14 Taint, 15 Durability; any other identifier containing
/// "action" or "policy" (ignoring ASCII case) is Policy, the rest Resource.
pub fn classify_gate_kind(kind: &str) -> (s: CertificateSeverity)
    ensures
        s == severity_of(kind@),
{
    let gate_num = extract_gate_number(kind);
    match gate_num {
        Some(n) if (7 <= n && n <= 11) || n == 13 => CertificateSeverity::Structure,
        Some(n) if n == 14 => CertificateSeverity::Taint,
        Some(n) if n == 15 => CertificateSeverity::Durability,
        _ => {
            let lower = chars_of(kind);
            proof {
                reveal_strlit("action");
                reveal_strlit("policy");
            }
            if contains_lowercase(&lower, "action") || contains_lowercase(&lower, "policy") {
                CertificateSeverity::Policy
            } else {
                CertificateSeverity::Resource
            }
        }
    }
}

// ---------------------------------------------------------------------------
// The panel
// ---------------------------------------------------------------------------

/// The entry a wire certificate becomes.
pub open spec fn entry_from(w: CertificateWire, e: CertificateEntry) -> bool {
    &&& e.kind@ == w.kind@
    &&& e.passed == (w.status@ == "Pass"@)
    &&& e.details@ == w.details@
    &&& e.severity == severity_of(w.kind@)
}

pub open spec fn entry_passed(e: CertificateEntry) -> bool {
    e.passed
}

pub open spec fn entry_failed(e: CertificateEntry) -> bool {
    !e.passed
}

/// `n` capped at `u32::MAX`.
pub open spec fn cap(n: nat) -> u32 {
    if n > u32::MAX { u32::MAX } else { n as u32 }
}

pub open spec fn passed_total(es: Seq<CertificateEntry>) -> nat {
    count_where(es, |e: CertificateEntry| entry_passed(e))
}

pub open spec fn failed_total(es: Seq<CertificateEntry>) -> nat {
    count_where(es, |e: CertificateEntry| entry_failed(e))
}

pub open spec fn sev_passed(es: Seq<CertificateEntry>, sev: CertificateSeverity) -> nat {
    count_where(es, |e: CertificateEntry| e.severity == sev && e.passed)
}

pub open spec fn sev_failed(es: Seq<CertificateEntry>, sev: CertificateSeverity) -> nat {
    count_where(es, |e: CertificateEntry| e.severity == sev && !e.passed)
}

pub open spec fn has_severity(es: Seq<CertificateEntry>, sev: CertificateSeverity) -> bool {
    exists|i: int| 0 <= i < es.len() && (#[trigger] es[i]).severity == sev
}

/// The summary row of a severity, present when some entry has it.
pub open spec fn severity_row(es: Seq<CertificateEntry>, sev: CertificateSeverity) -> Seq<(CertificateSeverity, u32, u32)> {
    if has_severity(es, sev) {
        seq![(sev, cap(sev_passed(es, sev)), cap(sev_failed(es, sev)))]
    } else {
        Seq::empty()
    }
}

/// Rows in severity order: Structure, Resource, Taint, Durability, Policy.
pub open spec fn severity_rows(es: Seq<CertificateEntry>) -> Seq<(CertificateSeverity, u32, u32)> {
    severity_row(es, CertificateSeverity::Structure) + severity_row(es, CertificateSeverity::Resource)
        + severity_row(es, CertificateSeverity::Taint) + severity_row(es, CertificateSeverity::Durability)
        + severity_row(es, CertificateSeverity::Policy)
}

fn cap_usize(n: usize) -> (r: u32)
    ensures
        r == cap(n as nat),
{
    if n > 0xFFFF_FFFF { 0xFFFF_FFFF } else { n as u32 }
}

/// Whether some entry has `sev`, and how many of those passed and failed.
fn severity_counts(entries: &Vec<CertificateEntry>, sev: CertificateSeverity) -> (r: (bool, usize, usize))
    ensures
        r.0 == has_severity(entries@, sev),
        r.1 == sev_passed(entries@, sev),
        r.2 == sev_failed(entries@, sev),
{
    let ghost pp = |e: CertificateEntry| e.severity == sev && e.passed;
    let ghost pf = |e: CertificateEntry| e.severity == sev && !e.passed;
    let mut has = false;
    let mut p: usize = 0;
    let mut f: usize = 0;
    let mut i: usize = 0;
    while i < entries.len()
        invariant
            i <= entries@.len(),
            pp == (|e: CertificateEntry| e.severity == sev && e.passed),
            pf == (|e: CertificateEntry| e.severity == sev && !e.passed),
            has == exists|j: int| 0 <= j < i && (#[trigger] entries@[j]).severity == sev,
            p == count_where(entries@.take(i as int), pp),
            f == count_where(entries@.take(i as int), pf),
            p + f <= i,
        decreases entries.len() - i,
    {
        proof {
            lemma_count_where_take(entries@, pp, i as int);
            lemma_count_where_take(entries@, pf, i as int);
        }
        let e = &entries[i];
        if e.severity == sev {
            has = true;
            if e.passed {
                p += 1;
            } else {
                f += 1;
            }
        }
        i += 1;
    }
    proof {
        lemma_take_full(entries@);
    }
    (has, p, f)
}

impl CertificatePanel {
    pub closed spec fn spec_entries(&self) -> Seq<CertificateEntry> {
        self.entries@
    }

    /// Builds the panel from a verification result: one entry per certificate,
    /// passed when its status is exactly `"Pass"`, with the severity of its kind.
    pub fn from_verification_result(result: &VerificationResult) -> (p: Self)
        ensures
            p.spec_entries().len() == result.certificates@.len(),
            forall|i: int| 0 <= i < result.certificates@.len() ==>
                entry_from(#[trigger] result.certificates@[i], p.spec_entries()[i]),
    {
        let pass = String::from_str("Pass");
        let mut entries: Vec<CertificateEntry> = Vec::new();
        let mut i: usize = 0;
        while i < result.certificates.len()
            invariant
                i <= result.certificates@.len(),
                pass@ == "Pass"@,
                entries@.len() == i,
                forall|j: int| 0 <= j < i ==> entry_from(#[trigger] result.certificates@[j], entries@[j]),
            decreases result.certificates.len() - i,
        {
            let wire = &result.certificates[i];
            let passed = wire.status == pass;
            entries.push(CertificateEntry {
                kind: wire.kind.clone(),
                passed,
                details: wire.details.clone(),
                severity: classify_gate_kind(wire.kind.as_str()),
            });
            i += 1;
        }
        CertificatePanel { entries }
    }

    /// All entries, in order.
    pub fn certificates(&self) -> (r: &[CertificateEntry])
        ensures
            r@ == self.spec_entries(),
    {
        self.entries.as_slice()
    }

    /// True when every gate check passed.
    pub fn passed(&self) -> (r: bool)
        ensures
            r == forall|i: int| 0 <= i < self.spec_entries().len() ==> (#[trigger] self.spec_entries()[i]).passed,
    {
        let mut i: usize = 0;
        while i < self.entries.len()
            invariant
                i <= self.entries@.len(),
                forall|j: int| 0 <= j < i ==> (#[trigger] self.entries@[j]).passed,
            decreases self.entries.len() - i,
        {
            if !self.entries[i].passed {
                return false;
            }
            i += 1;
        }
        true
    }

    /// Number of gate checks that passed, capped at `u32::MAX`.
    pub fn pass_count(&self) -> (r: u32)
        ensures
            r == cap(passed_total(self.spec_entries())),
    {
        let ghost pr = |e: CertificateEntry| entry_passed(e);
        let mut n: usize = 0;
        let mut i: usize = 0;
        while i < self.entries.len()
            invariant
                i <= self.entries@.len(),
                pr == (|e: CertificateEntry| entry_passed(e)),
                n == count_where(self.entries@.take(i as int), pr),
                n <= i,
            decreases self.entries.len() - i,
        {
            proof {
                lemma_count_where_take(self.entries@, pr, i as int);
            }
            if self.entries[i].passed {
                n += 1;
            }
            i += 1;
        }
        proof {
            lemma_take_full(self.entries@);
        }
        cap_usize(n)
    }

    /// Number of gate checks that failed, capped at `u32::MAX`.
    pub fn fail_count(&self) -> (r: u32)
        ensures
            r == cap(failed_total(self.spec_entries())),
    {
        let ghost pr = |e: CertificateEntry| entry_failed(e);
        let mut n: usize = 0;
        let mut i: usize = 0;
        while i < self.entries.len()
            invariant
                i <= self.entries@.len(),
                pr == (|e: CertificateEntry| entry_failed(e)),
                n == count_where(self.entries@.take(i as int), pr),
                n <= i,
            decreases self.entries.len() - i,
        {
            proof {
                lemma_count_where_take(self.entries@, pr, i as int);
            }
            if !self.entries[i].passed {
                n += 1;
            }
            i += 1;
        }
        proof {
            lemma_take_full(self.entries@);
        }
        cap_usize(n)
    }

    /// The entries that failed, in order.
    pub fn failed_certs(&self) -> (r: Vec<&CertificateEntry>)
        ensures
            r@.len() == self.spec_entries().filter(|e: CertificateEntry| entry_failed(e)).len(),
            forall|k: int| 0 <= k < r@.len() ==>
                *(#[trigger] r@[k]) == self.spec_entries().filter(|e: CertificateEntry| entry_failed(e))[k],
    {
        let ghost p = |e: CertificateEntry| entry_failed(e);
        let mut r: Vec<&CertificateEntry> = Vec::new();
        let mut i: usize = 0;
        while i < self.entries.len()
            invariant
                i <= self.entries@.len(),
                p == (|e: CertificateEntry| entry_failed(e)),
                r@.len() == self.entries@.take(i as int).filter(p).len(),
                forall|k: int| 0 <= k < r@.len() ==> *(#[trigger] r@[k]) == self.entries@.take(i as int).filter(p)[k],
            decreases self.entries.len() - i,
        {
            proof {
                reveal(Seq::filter);
                assert(self.entries@.take(i + 1).drop_last() =~= self.entries@.take(i as int));
                assert(self.entries@.take(i + 1).last() == self.entries@[i as int]);
            }
            let e = &self.entries[i];
            if !e.passed {
                r.push(e);
            }
            i += 1;
        }
        proof {
            lemma_take_full(self.entries@);
        }
        r
    }

    /// Totals and the per-severity breakdown, in severity order, listing only the
    /// severities some entry has. Every count is capped at `u32::MAX`.
    pub fn gate_summary(&self) -> (g: GateSummary)
        ensures
            g.total == cap(self.spec_entries().len()),
            g.passed == cap(passed_total(self.spec_entries())),
            g.failed == cap(failed_total(self.spec_entries())),
            g.by_severity@ == severity_rows(self.spec_entries()),
    {
        let total = cap_usize(self.entries.len());
        let passed = self.pass_count();
        let failed = self.fail_count();
        let mut by_severity: Vec<(CertificateSeverity, u32, u32)> = Vec::new();
        let (h0, p0, f0) = severity_counts(&self.entries, CertificateSeverity::Structure);
        if h0 {
            by_severity.push((CertificateSeverity::Structure, cap_usize(p0), cap_usize(f0)));
        }
        let (h1, p1, f1) = severity_counts(&self.entries, CertificateSeverity::Resource);
        if h1 {
            by_severity.push((CertificateSeverity::Resource, cap_usize(p1), cap_usize(f1)));
        }
        let (h2, p2, f2) = severity_counts(&self.entries, CertificateSeverity::Taint);
        if h2 {
            by_severity.push((CertificateSeverity::Taint, cap_usize(p2), cap_usize(f2)));
        }
        let (h3, p3, f3) = severity_counts(&self.entries, CertificateSeverity::Durability);
        if h3 {
            by_severity.push((CertificateSeverity::Durability, cap_usize(p3), cap_usize(f3)));
        }
        let (h4, p4, f4) = severity_counts(&self.entries, CertificateSeverity::Policy);
        if h4 {
            by_severity.push((CertificateSeverity::Policy, cap_usize(p4), cap_usize(f4)));
        }
        assert(by_severity@ =~= severity_rows(self.entries@));
        GateSummary { total, passed, failed, by_severity }
    }
}

// ---------------------------------------------------------------------------
// Laws
// ---------------------------------------------------------------------------

/// Passed counts of summary rows, added up.
pub open spec fn rows_passed(rows: Seq<(CertificateSeverity, u32, u32)>) -> int
    decreases rows.len(),
{
    if rows.len() == 0 { 0 } else { rows_passed(rows.drop_last()) + rows.last().1 }
}

/// Failed counts of summary rows, added up.
pub open spec fn rows_failed(rows: Seq<(CertificateSeverity, u32, u32)>) -> int
    decreases rows.len(),
{
    if rows.len() == 0 { 0 } else { rows_failed(rows.drop_last()) + rows.last().2 }
}

proof fn lemma_rows_append(a: Seq<(CertificateSeverity, u32, u32)>, r: Seq<(CertificateSeverity, u32, u32)>)
    requires
        r.len() <= 1,
    ensures
        rows_passed(a + r) == rows_passed(a) + if r.len() == 1 { r[0].1 as int } else { 0 },
        rows_failed(a + r) == rows_failed(a) + if r.len() == 1 { r[0].2 as int } else { 0 },
{
    if r.len() == 0 {
        assert(a + r =~= a);
    } else {
        assert((a + r).drop_last() =~= a);
        assert((a + r).last() == r[0]);
    }
}

/// Each entry counts under exactly one severity.
proof fn lemma_severity_split(es: Seq<CertificateEntry>)
    ensures
        passed_total(es) == sev_passed(es, CertificateSeverity::Structure) + sev_passed(es, CertificateSeverity::Resource)
            + sev_passed(es, CertificateSeverity::Taint) + sev_passed(es, CertificateSeverity::Durability)
            + sev_passed(es, CertificateSeverity::Policy),
        failed_total(es) == sev_failed(es, CertificateSeverity::Structure) + sev_failed(es, CertificateSeverity::Resource)
            + sev_failed(es, CertificateSeverity::Taint) + sev_failed(es, CertificateSeverity::Durability)
            + sev_failed(es, CertificateSeverity::Policy),
        passed_total(es) + failed_total(es) == es.len(),
    decreases es.len(),
{
    if es.len() > 0 {
        lemma_severity_split(es.drop_last());
    }
}

/// A severity no entry has counts nothing, and no count exceeds the entries.
proof fn lemma_row_counts(es: Seq<CertificateEntry>, sev: CertificateSeverity)
    ensures
        sev_passed(es, sev) <= es.len(),
        sev_failed(es, sev) <= es.len(),
        !has_severity(es, sev) ==> sev_passed(es, sev) == 0 && sev_failed(es, sev) == 0,
{
    let pp = |e: CertificateEntry| e.severity == sev && e.passed;
    let pf = |e: CertificateEntry| e.severity == sev && !e.passed;
    lemma_count_where_le(es, pp);
    lemma_count_where_le(es, pf);
    lemma_count_where_zero(es, pp);
    lemma_count_where_zero(es, pf);
    if !has_severity(es, sev) {
        assert forall|i: int| 0 <= i < es.len() implies !pp(#[trigger] es[i]) by {}
        assert forall|i: int| 0 <= i < es.len() implies !pf(#[trigger] es[i]) by {}
    }
}

/// Every gate check either passed or failed, and the per-severity rows of the
/// summary add up to its passed and failed totals (no count being capped).
pub proof fn lemma_summary_adds_up(es: Seq<CertificateEntry>)
    requires
        es.len() <= u32::MAX,
    ensures
        passed_total(es) + failed_total(es) == es.len(),
        rows_passed(severity_rows(es)) == passed_total(es),
        rows_failed(severity_rows(es)) == failed_total(es),
{
    lemma_severity_split(es);
    lemma_row_counts(es, CertificateSeverity::Structure);
    lemma_row_counts(es, CertificateSeverity::Resource);
    lemma_row_counts(es, CertificateSeverity::Taint);
    lemma_row_counts(es, CertificateSeverity::Durability);
    lemma_row_counts(es, CertificateSeverity::Policy);
    let r0 = severity_row(es, CertificateSeverity::Structure);
    let r1 = severity_row(es, CertificateSeverity::Resource);
    let r2 = severity_row(es, CertificateSeverity::Taint);
    let r3 = severity_row(es, CertificateSeverity::Durability);
    let r4 = severity_row(es, CertificateSeverity::Policy);
    lemma_rows_append(Seq::empty(), r0);
    assert(Seq::<(CertificateSeverity, u32, u32)>::empty() + r0 =~= r0);
    lemma_rows_append(r0, r1);
    lemma_rows_append(r0 + r1, r2);
    lemma_rows_append(r0 + r1 + r2, r3);
    lemma_rows_append(r0 + r1 + r2 + r3, r4);
}

/// A panel passes exactly when none of its checks failed.
pub proof fn lemma_passed_iff_no_failure(es: Seq<CertificateEntry>)
    ensures
        (forall|i: int| 0 <= i < es.len() ==> (#[trigger] es[i]).passed) <==> failed_total(es) == 0,
{
    lemma_count_where_zero(es, |e: CertificateEntry| entry_failed(e));
}

} // verus!
