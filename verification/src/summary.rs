//! The two messages a hook run produces from a Biome run: the terse line for the
//! user's terminal and the diagnostic report for the model's context.
use vstd::prelude::*;
use crate::schema::{CheckOutput, Diagnostic, Location, Position, Severity};
use crate::text::{
    byte_len, char_width, chars_to_string, contains_seq, contains_str, decimal, lemma_byte_len_push,
    lemma_scalar_width, push_chars, push_i64, push_str, push_u64, signed_decimal, split_chars,
    split_where, to_chars, trim, trim_ws, utf8_width, views, Separator,
};

verus! {

/// At most this many diagnostics are listed in the model-facing report.
pub const MAX_DIAGNOSTICS_IN_CONTEXT: usize = 50;

/// Outcome of shelling out to Biome.
pub enum BiomeOutcome {
    /// Biome emitted JSON that was understood.
    Parsed {
        check: CheckOutput,
        /// The file Biome was asked to check, as passed on its command line.
        relative_file: String,
        exit_code: Option<i32>,
    },
    /// Biome ran but its output was not understood; the raw output is kept.
    FallbackText { stdout: String, stderr: String, exit_code: Option<i32> },
    /// Biome could not be started.
    SpawnFailed { error: String },
}

// ---------------------------------------------------------------------------
// Small pieces
// ---------------------------------------------------------------------------

pub open spec fn plural_suffix(n: u64) -> Seq<char> {
    if n == 1 {
        ""@
    } else {
        "s"@
    }
}

/// `""` for one, `"s"` otherwise.
pub fn plural(n: u64) -> (r: &'static str)
    ensures
        r@ == plural_suffix(n),
{
    if n == 1 {
        ""
    } else {
        "s"
    }
}

/// Report order: fatal, error, warning, hint, info.
pub open spec fn rank(s: Severity) -> nat {
    match s {
        Severity::Fatal => 0,
        Severity::Error => 1,
        Severity::Warning => 2,
        Severity::Hint => 3,
        Severity::Info => 4,
    }
}

pub fn severity_rank(s: Severity) -> (r: u8)
    ensures
        r == rank(s),
{
    match s {
        Severity::Fatal => 0,
        Severity::Error => 1,
        Severity::Warning => 2,
        Severity::Hint => 3,
        Severity::Info => 4,
    }
}

pub open spec fn label(s: Severity) -> Seq<char> {
    match s {
        Severity::Fatal => "fatal"@,
        Severity::Error => "error"@,
        Severity::Warning => "warning"@,
        Severity::Hint => "hint"@,
        Severity::Info => "info"@,
    }
}

pub fn severity_label(s: Severity) -> (r: &'static str)
    ensures
        r@ == label(s),
{
    match s {
        Severity::Fatal => "fatal",
        Severity::Error => "error",
        Severity::Warning => "warning",
        Severity::Hint => "hint",
        Severity::Info => "info",
    }
}

// ---------------------------------------------------------------------------
// Line and column of a finding
// ---------------------------------------------------------------------------

/// How many leading characters of `src` start before byte offset `off`.
pub open spec fn chars_before(src: Seq<char>, off: int) -> nat
    decreases src.len(),
{
    if src.len() == 0 || off <= 0 {
        0
    } else {
        1 + chars_before(src.drop_first(), off - utf8_width(src[0]))
    }
}

/// 1-based line and column just after the text `t`.
pub open spec fn position_after(t: Seq<char>) -> (nat, nat)
    decreases t.len(),
{
    if t.len() == 0 {
        (1, 1)
    } else {
        let (l, c) = position_after(t.drop_last());
        if t.last() == '\n' {
            (l + 1, 1)
        } else {
            (l, c + 1)
        }
    }
}

/// Line and column of the character at byte offset `off` of `src` (of the end, when
/// `off` is past it).
pub open spec fn position_at(src: Seq<char>, off: int) -> (nat, nat) {
    position_after(src.take(chars_before(src, off) as int))
}

pub open spec fn spec_line_col(loc: Location) -> Option<(nat, nat)> {
    match loc.start {
        Some(Position { line: Some(l), column: Some(c) }) => Some((l as nat, c as nat)),
        _ => match (loc.span, loc.source_code) {
            (Some((off, _)), Some(src)) => Some(position_at(src@, off as int)),
            _ => None,
        },
    }
}

/// Bytes of `s.take(k)` are the first character's bytes plus those of the rest.
proof fn lemma_byte_len_split(s: Seq<char>, k: int)
    requires
        0 < k <= s.len(),
    ensures
        byte_len(s.take(k)) == utf8_width(s[0]) + byte_len(s.drop_first().take(k - 1)),
{
    lemma_scalar_width(s[0]);
    assert(s.take(k).drop_first() =~= s.drop_first().take(k - 1));
    assert(s.take(k)[0] == s[0]);
}

proof fn lemma_byte_len_empty()
    ensures
        byte_len(Seq::<char>::empty()) == 0,
{
    assert(vstd::utf8::encode_utf8(Seq::<char>::empty()) =~= Seq::<u8>::empty());
}

/// `chars_before` counts the characters whose starting byte lies before `off`.
proof fn lemma_chars_before(src: Seq<char>, off: int, k: int)
    requires
        0 <= k <= src.len(),
        k == src.len() || off <= byte_len(src.take(k)),
        forall|j: int| 0 <= j < k ==> off > #[trigger] byte_len(src.take(j)),
    ensures
        chars_before(src, off) == k,
    decreases k,
{
    lemma_byte_len_empty();
    assert(src.take(0) =~= Seq::<char>::empty());
    if k == 0 {
    } else {
        let t = src.drop_first();
        let w = utf8_width(src[0]);
        assert(off > byte_len(src.take(0)));
        if k < src.len() {
            lemma_byte_len_split(src, k);
        }
        assert forall|j: int| 0 <= j < k - 1 implies off - w > #[trigger] byte_len(t.take(j)) by {
            lemma_byte_len_split(src, j + 1);
        }
        lemma_chars_before(t, off - w, k - 1);
    }
}

/// Line and column of a finding: the explicit `start` position when it has both
/// parts, else the position of byte offset `span.0` in `source_code`.
pub fn line_col(loc: &Location) -> (r: Option<(u64, u64)>)
    requires
        loc.countable(),
    ensures
        match r {
            Some((l, c)) => spec_line_col(*loc) == Some((l as nat, c as nat)),
            None => spec_line_col(*loc) is None,
        },
{
    if let Some(start) = loc.start {
        if let (Some(line), Some(col)) = (start.line, start.column) {
            return Some((line, col));
        }
    }
    let start_offset = match loc.span {
        Some(span) => span.0,
        None => return None,
    };
    let source = match &loc.source_code {
        Some(s) => s,
        None => return None,
    };
    let src = to_chars(source.as_str());
    let n = src.len();
    let mut line: u64 = 1;
    let mut col: u64 = 1;
    let mut rem: u64 = start_offset;
    let mut k: usize = 0;
    let ghost off = start_offset as int;
    proof {
        lemma_byte_len_empty();
        assert(src@.take(0) =~= Seq::<char>::empty());
    }
    while k < n
        invariant_except_break
            k <= n,
        invariant
            n == src@.len(),
            k <= n,
            rem == (if off > byte_len(src@.take(k as int)) {
                off - byte_len(src@.take(k as int))
            } else {
                0
            }),
            forall|j: int| 0 <= j < k ==> off > #[trigger] byte_len(src@.take(j)),
            (line as nat, col as nat) == position_after(src@.take(k as int)),
            line <= k + 1,
            col <= k + 1,
            n < u64::MAX,
        ensures
            k == n || off <= byte_len(src@.take(k as int)),
        decreases n - k,
    {
        if rem == 0 {
            break;
        }
        let c = src[k];
        let w = char_width(c) as u64;
        proof {
            lemma_byte_len_push(src@.take(k as int), c);
            assert(src@.take(k + 1) =~= src@.take(k as int).push(c));
            assert(src@.take(k + 1).drop_last() =~= src@.take(k as int));
        }
        if c == '\n' {
            line = line + 1;
            col = 1;
        } else {
            col = col + 1;
        }
        k = k + 1;
        rem = if w >= rem {
            0
        } else {
            rem - w
        };
    }
    proof {
        lemma_chars_before(src@, off, k as int);
    }
    Some((line, col))
}

// ---------------------------------------------------------------------------
// One line per finding
// ---------------------------------------------------------------------------

pub open spec fn loc_path(d: Diagnostic) -> Seq<char> {
    match d.location {
        Some(l) => match l.path {
            Some(p) => p.shown(),
            None => "?"@,
        },
        None => "?"@,
    }
}

pub open spec fn loc_line_col(d: Diagnostic) -> (nat, nat) {
    match d.location {
        Some(l) => match spec_line_col(l) {
            Some(p) => p,
            None => (0, 0),
        },
        None => (0, 0),
    }
}

/// `path:line:col`, with `?` for a missing path and `0:0` for a missing position.
pub open spec fn spec_format_loc(d: Diagnostic) -> Seq<char> {
    loc_path(d) + ":"@ + decimal(loc_line_col(d).0) + ":"@ + decimal(loc_line_col(d).1)
}

pub open spec fn category_text(d: Diagnostic) -> Seq<char> {
    match d.category {
        Some(c) => c@,
        None => "-"@,
    }
}

/// `  path:line:col severity(category): message` and a newline.
pub open spec fn diag_line(d: Diagnostic) -> Seq<char> {
    "  "@ + spec_format_loc(d) + " "@ + label(d.severity) + "("@ + category_text(d) + "): "@
        + d.message@ + "\n"@
}

pub fn format_loc(d: &Diagnostic) -> (r: String)
    requires
        d.countable(),
    ensures
        r@ == spec_format_loc(*d),
{
    let mut s: Vec<char> = Vec::new();
    let mut lc: (u64, u64) = (0, 0);
    match &d.location {
        Some(l) => {
            match &l.path {
                Some(p) => {
                    let shown = p.display();
                    push_str(&mut s, shown.as_str());
                },
                None => push_str(&mut s, "?"),
            }
            match line_col(l) {
                Some(p) => {
                    lc = p;
                },
                None => {},
            }
        },
        None => push_str(&mut s, "?"),
    }
    push_str(&mut s, ":");
    push_u64(&mut s, lc.0);
    push_str(&mut s, ":");
    push_u64(&mut s, lc.1);
    chars_to_string(&s)
}

fn push_diag_line(s: &mut Vec<char>, d: &Diagnostic)
    requires
        d.countable(),
    ensures
        final(s)@ == old(s)@ + diag_line(*d),
{
    push_str(s, "  ");
    let loc = format_loc(d);
    push_str(s, loc.as_str());
    push_str(s, " ");
    push_str(s, severity_label(d.severity));
    push_str(s, "(");
    match &d.category {
        Some(c) => push_str(s, c.as_str()),
        None => push_str(s, "-"),
    }
    push_str(s, "): ");
    push_str(s, d.message.as_str());
    push_str(s, "\n");
    assert(s@ =~= old(s)@ + diag_line(*d));
}

// ---------------------------------------------------------------------------
// Report order
// ---------------------------------------------------------------------------

pub open spec fn index_seq(n: nat) -> Seq<usize> {
    Seq::new(n, |i: int| i as usize)
}

/// Indices of the findings of rank `r`, in their original order.
pub open spec fn rank_bucket(ds: Seq<Diagnostic>, r: nat) -> Seq<usize> {
    index_seq(ds.len()).filter(|i: usize| rank(ds[i as int].severity) == r)
}

pub open spec fn ranked_upto(ds: Seq<Diagnostic>, r: nat) -> Seq<usize>
    decreases r,
{
    if r == 0 {
        Seq::empty()
    } else {
        ranked_upto(ds, (r - 1) as nat) + rank_bucket(ds, (r - 1) as nat)
    }
}

/// Indices of the findings, most serious first; findings of equal rank keep their
/// order (a stable sort by rank).
pub open spec fn ranked(ds: Seq<Diagnostic>) -> Seq<usize> {
    ranked_upto(ds, 5)
}

/// The findings in report order.
pub open spec fn sorted_diagnostics(ds: Seq<Diagnostic>) -> Seq<Diagnostic> {
    ranked(ds).map_values(|i: usize| ds[i as int])
}

pub proof fn lemma_filter_bounds(xs: Seq<usize>, p: spec_fn(usize) -> bool, n: nat)
    requires
        forall|k: int| 0 <= k < xs.len() ==> xs[k] < n,
    ensures
        forall|k: int| 0 <= k < xs.filter(p).len() ==> xs.filter(p)[k] < n,
    decreases xs.len(),
{
    reveal(Seq::filter);
    if xs.len() > 0 {
        lemma_filter_bounds(xs.drop_last(), p, n);
        let f = xs.drop_last().filter(p);
        assert forall|k: int| 0 <= k < xs.filter(p).len() implies xs.filter(p)[k] < n by {
            if k < f.len() {
                assert(xs.filter(p)[k] == f[k]);
            }
        }
    }
}

pub proof fn lemma_ranked_upto_facts(ds: Seq<Diagnostic>, r: nat)
    requires
        r <= 5,
    ensures
        forall|k: int| 0 <= k < ranked_upto(ds, r).len() ==> ranked_upto(ds, r)[k] < ds.len(),
        forall|k: int|
            0 <= k < ranked_upto(ds, r).len() ==> rank(ds[ranked_upto(ds, r)[k] as int].severity)
                < r,
    decreases r,
{
    if r > 0 {
        let r1 = (r - 1) as nat;
        lemma_ranked_upto_facts(ds, r1);
        let p = |i: usize| rank(ds[i as int].severity) == r1;
        lemma_filter_bounds(index_seq(ds.len()), p, ds.len());
        let a = ranked_upto(ds, r1);
        let b = rank_bucket(ds, r1);
        assert forall|k: int| 0 <= k < b.len() implies rank(ds[b[k] as int].severity) == r1 by {
            index_seq(ds.len()).lemma_filter_pred(p, k);
        }
        assert forall|k: int| 0 <= k < (a + b).len() implies (a + b)[k] < ds.len() && rank(
            ds[(a + b)[k] as int].severity,
        ) < r by {
            if k >= a.len() {
                assert((a + b)[k] == b[k - a.len()]);
            }
        }
    }
}

proof fn lemma_bucket_lengths(ds: Seq<Diagnostic>, m: nat)
    requires
        m <= ds.len(),
    ensures
        index_seq(m).filter(|i: usize| rank(ds[i as int].severity) == 0).len() + index_seq(m).filter(
            |i: usize| rank(ds[i as int].severity) == 1,
        ).len() + index_seq(m).filter(|i: usize| rank(ds[i as int].severity) == 2).len()
            + index_seq(m).filter(|i: usize| rank(ds[i as int].severity) == 3).len() + index_seq(
            m,
        ).filter(|i: usize| rank(ds[i as int].severity) == 4).len() == m,
    decreases m,
{
    let p0 = |i: usize| rank(ds[i as int].severity) == 0;
    let p1 = |i: usize| rank(ds[i as int].severity) == 1;
    let p2 = |i: usize| rank(ds[i as int].severity) == 2;
    let p3 = |i: usize| rank(ds[i as int].severity) == 3;
    let p4 = |i: usize| rank(ds[i as int].severity) == 4;
    if m == 0 {
        assert(index_seq(0) =~= Seq::<usize>::empty());
        reveal_with_fuel(Seq::filter, 1);
    } else {
        let m1 = (m - 1) as nat;
        lemma_bucket_lengths(ds, m1);
        let x = m1 as usize;
        assert(index_seq(m) =~= index_seq(m1).push(x));
        index_seq(m1).lemma_filter_push(x, p0);
        index_seq(m1).lemma_filter_push(x, p1);
        index_seq(m1).lemma_filter_push(x, p2);
        index_seq(m1).lemma_filter_push(x, p3);
        index_seq(m1).lemma_filter_push(x, p4);
    }
}

pub proof fn lemma_ranked_len(ds: Seq<Diagnostic>)
    ensures
        ranked(ds).len() == ds.len(),
        sorted_diagnostics(ds).len() == ds.len(),
{
    lemma_bucket_lengths(ds, ds.len());
    reveal_with_fuel(ranked_upto, 6);
}

/// Indices of `ds` in report order.
fn ranked_order(ds: &Vec<Diagnostic>) -> (order: Vec<usize>)
    ensures
        order@ == ranked(ds@),
{
    let mut order: Vec<usize> = Vec::new();
    let n = ds.len();
    let mut r: u8 = 0;
    while r < 5
        invariant
            n == ds@.len(),
            r <= 5,
            order@ == ranked_upto(ds@, r as nat),
        decreases 5 - r,
    {
        let ghost base = order@;
        let ghost p = |i: usize| rank(ds@[i as int].severity) == r as nat;
        assert(index_seq(0) =~= Seq::<usize>::empty());
        for i in 0..n
            invariant
                n == ds@.len(),
                r < 5,
                p == (|i: usize| rank(ds@[i as int].severity) == r as nat),
                order@ == base + index_seq(i as nat).filter(p),
        {
            assert(index_seq((i + 1) as nat) =~= index_seq(i as nat).push(i));
            proof {
                index_seq(i as nat).lemma_filter_push(i, p);
            }
            if severity_rank(ds[i].severity) == r {
                order.push(i);
                assert(order@ =~= base + index_seq((i + 1) as nat).filter(p));
            }
        }
        r = r + 1;
    }
    order
}

// ---------------------------------------------------------------------------
// The model-facing report
// ---------------------------------------------------------------------------

/// The concatenation of `ls`.
pub open spec fn join_all(ls: Seq<Seq<char>>) -> Seq<char>
    decreases ls.len(),
{
    if ls.len() == 0 {
        Seq::empty()
    } else {
        join_all(ls.drop_last()) + ls.last()
    }
}

pub open spec fn min_nat(a: nat, b: nat) -> nat {
    if a <= b {
        a
    } else {
        b
    }
}

pub open spec fn context_header(check: CheckOutput, file_display: Seq<char>) -> Seq<char> {
    "biome report for "@ + file_display + ": "@ + decimal(check.summary.errors as nat)
        + " error(s), "@ + decimal(check.summary.warnings as nat) + " warning(s)\n"@
}

/// The lines listed: the first `MAX_DIAGNOSTICS_IN_CONTEXT` findings in report order.
pub open spec fn context_lines(ds: Seq<Diagnostic>) -> Seq<Seq<char>> {
    sorted_diagnostics(ds).take(min_nat(ds.len(), MAX_DIAGNOSTICS_IN_CONTEXT as nat) as int).map_values(
        |d: Diagnostic| diag_line(d),
    )
}

pub open spec fn context_footer(total: nat) -> Seq<char> {
    if total > MAX_DIAGNOSTICS_IN_CONTEXT {
        "  ... +"@ + decimal((total - MAX_DIAGNOSTICS_IN_CONTEXT) as nat)
            + " more diagnostic(s) omitted\n"@
    } else {
        Seq::empty()
    }
}

/// The model-facing report: nothing on a clean run, else a header, one line per
/// finding (at most `MAX_DIAGNOSTICS_IN_CONTEXT`, most serious first) and a note of
/// how many were left out.
pub open spec fn spec_additional_context(check: CheckOutput, file_display: Seq<char>) -> Option<
    Seq<char>,
> {
    if check.diagnostics@.len() == 0 {
        None
    } else {
        Some(
            context_header(check, file_display) + join_all(context_lines(check.diagnostics@))
                + context_footer(check.diagnostics@.len()),
        )
    }
}

pub open spec fn opt_view(o: Option<String>) -> Option<Seq<char>> {
    match o {
        Some(s) => Some(s@),
        None => None,
    }
}

/// The LLM-facing summary; `None` when there is nothing to report.
pub fn additional_context(check: &CheckOutput, file_display: &str) -> (r: Option<String>)
    requires
        check.countable(),
    ensures
        opt_view(r) == spec_additional_context(*check, file_display@),
{
    let ds = &check.diagnostics;
    if ds.len() == 0 {
        return None;
    }
    let order = ranked_order(ds);
    proof {
        lemma_ranked_len(ds@);
        lemma_ranked_upto_facts(ds@, 5);
    }
    let mut s: Vec<char> = Vec::new();
    push_str(&mut s, "biome report for ");
    push_str(&mut s, file_display);
    push_str(&mut s, ": ");
    push_u64(&mut s, check.summary.errors);
    push_str(&mut s, " error(s), ");
    push_u64(&mut s, check.summary.warnings);
    push_str(&mut s, " warning(s)\n");
    let ghost header = s@;
    assert(header =~= context_header(*check, file_display@));
    let total = ds.len();
    let shown = if total < MAX_DIAGNOSTICS_IN_CONTEXT {
        total
    } else {
        MAX_DIAGNOSTICS_IN_CONTEXT
    };
    let ghost lines = context_lines(ds@);
    assert(lines.len() == shown);
    assert(lines.take(0) =~= Seq::<Seq<char>>::empty());
    for j in 0..shown
        invariant
            shown <= total == ds@.len() == order@.len(),
            order@ == ranked(ds@),
            lines == context_lines(ds@),
            lines.len() == shown,
            check.countable(),
            ds == &check.diagnostics,
            forall|k: int| 0 <= k < order@.len() ==> order@[k] < ds@.len(),
            s@ == header + join_all(lines.take(j as int)),
    {
        let i = order[j];
        push_diag_line(&mut s, &ds[i]);
        assert(lines[j as int] == diag_line(ds@[i as int]));
        assert(lines.take(j + 1).drop_last() =~= lines.take(j as int));
    }
    assert(lines.take(shown as int) =~= lines);
    if total > MAX_DIAGNOSTICS_IN_CONTEXT {
        push_str(&mut s, "  ... +");
        push_u64(&mut s, (total - MAX_DIAGNOSTICS_IN_CONTEXT) as u64);
        push_str(&mut s, " more diagnostic(s) omitted\n");
    }
    assert(s@ =~= spec_additional_context(*check, file_display@)->0);
    Some(chars_to_string(&s))
}

// ---------------------------------------------------------------------------
// The user-facing line
// ---------------------------------------------------------------------------

/// A stderr line worth quoting: not blank and not Biome's warning that its JSON
/// reporter is unstable.
pub open spec fn note_ok(t: Seq<char>) -> bool {
    t.len() > 0 && !contains_seq(t, "--json option is unstable"@) && !contains_seq(
        t,
        "--json is unstable"@,
    )
}

pub open spec fn first_note(ls: Seq<Seq<char>>) -> Seq<char>
    decreases ls.len(),
{
    if ls.len() == 0 {
        Seq::empty()
    } else if note_ok(trim(ls[0])) {
        trim(ls[0])
    } else {
        first_note(ls.drop_first())
    }
}

/// The first stderr line worth quoting, trimmed; empty when there is none.
pub open spec fn stderr_note(stderr: Seq<char>) -> Seq<char> {
    first_note(split_where(stderr, Separator::Char('\n')))
}

/// `{:?}` of an optional exit code.
pub open spec fn debug_exit_code(o: Option<i32>) -> Seq<char> {
    match o {
        Some(n) => "Some("@ + signed_decimal(n as int) + ")"@,
        None => "None"@,
    }
}

pub open spec fn spec_system_message(file_display: Seq<char>, outcome: BiomeOutcome) -> Seq<char> {
    match outcome {
        BiomeOutcome::Parsed { check, .. } => {
            let errs = check.summary.errors;
            let warns = check.summary.warnings;
            if errs > 0 && check.summary.changed == 0 {
                "cc-essentials: skipped "@ + file_display + " ("@ + decimal(errs as nat) + " error"@
                    + plural_suffix(errs) + " \u{2014} biome left the file unchanged)"@
            } else if errs > 0 {
                "cc-essentials: formatted "@ + file_display + " with "@ + decimal(errs as nat)
                    + " error"@ + plural_suffix(errs) + " remaining"@
            } else if warns > 0 {
                "cc-essentials: formatted "@ + file_display + " ("@ + decimal(warns as nat)
                    + " warning"@ + plural_suffix(warns) + ")"@
            } else {
                "cc-essentials: formatted "@ + file_display
            }
        },
        BiomeOutcome::FallbackText { exit_code, stderr, .. } => {
            let note = stderr_note(stderr@);
            if exit_code == Some(0i32) {
                "cc-essentials: ran biome on "@ + file_display + " but couldn't parse its output"@
                    + (if note.len() == 0 {
                    Seq::empty()
                } else {
                    " ("@ + note + ")"@
                })
            } else {
                "cc-essentials: biome error running against "@ + file_display + " (exit "@
                    + debug_exit_code(exit_code) + "): "@ + note
            }
        },
        BiomeOutcome::SpawnFailed { error } => {
            "cc-essentials: failed to run biome against "@ + file_display + ": "@ + error@
        },
    }
}

fn note_ok_exec(t: &[char]) -> (r: bool)
    ensures
        r == note_ok(t@),
{
    t.len() > 0 && !contains_str(t, "--json option is unstable") && !contains_str(
        t,
        "--json is unstable",
    )
}

/// The first stderr line worth quoting, trimmed.
pub fn stderr_note_of(stderr: &str) -> (r: Vec<char>)
    ensures
        r@ == stderr_note(stderr@),
{
    let chars = to_chars(stderr);
    let lines = split_chars(&chars, Separator::Char('\n'));
    let ghost ls = views(lines@);
    let n = lines.len();
    let mut i: usize = 0;
    assert(ls.skip(0) =~= ls);
    while i < n
        invariant
            n == lines@.len(),
            ls == views(lines@),
            ls == split_where(stderr@, Separator::Char('\n')),
            i <= n,
            first_note(ls.skip(i as int)) == first_note(ls),
        decreases n - i,
    {
        let t = trim_ws(&lines[i]);
        assert(ls.skip(i as int)[0] == lines@[i as int]@);
        assert(ls.skip(i as int).drop_first() =~= ls.skip(i + 1));
        if note_ok_exec(&t) {
            return t;
        }
        i = i + 1;
    }
    assert(ls.skip(n as int) =~= Seq::<Seq<char>>::empty());
    Vec::new()
}

fn push_exit_code(s: &mut Vec<char>, o: Option<i32>)
    ensures
        final(s)@ == old(s)@ + debug_exit_code(o),
{
    match o {
        Some(n) => {
            push_str(s, "Some(");
            push_i64(s, n as i64);
            push_str(s, ")");
            assert(s@ =~= old(s)@ + debug_exit_code(o));
        },
        None => push_str(s, "None"),
    }
}

/// The user-visible terminal line.
pub fn system_message(file_display: &str, outcome: &BiomeOutcome) -> (r: String)
    ensures
        r@ == spec_system_message(file_display@, *outcome),
{
    let mut s: Vec<char> = Vec::new();
    match outcome {
        BiomeOutcome::Parsed { check, .. } => {
            let wrote = check.summary.changed > 0;
            let errs = check.summary.errors;
            let warns = check.summary.warnings;
            if errs > 0 && !wrote {
                push_str(&mut s, "cc-essentials: skipped ");
                push_str(&mut s, file_display);
                push_str(&mut s, " (");
                push_u64(&mut s, errs);
                push_str(&mut s, " error");
                push_str(&mut s, plural(errs));
                push_str(&mut s, " \u{2014} biome left the file unchanged)");
            } else if errs > 0 {
                push_str(&mut s, "cc-essentials: formatted ");
                push_str(&mut s, file_display);
                push_str(&mut s, " with ");
                push_u64(&mut s, errs);
                push_str(&mut s, " error");
                push_str(&mut s, plural(errs));
                push_str(&mut s, " remaining");
            } else if warns > 0 {
                push_str(&mut s, "cc-essentials: formatted ");
                push_str(&mut s, file_display);
                push_str(&mut s, " (");
                push_u64(&mut s, warns);
                push_str(&mut s, " warning");
                push_str(&mut s, plural(warns));
                push_str(&mut s, ")");
            } else {
                push_str(&mut s, "cc-essentials: formatted ");
                push_str(&mut s, file_display);
            }
        },
        BiomeOutcome::FallbackText { exit_code, stderr, .. } => {
            let note = stderr_note_of(stderr.as_str());
            if *exit_code == Some(0i32) {
                push_str(&mut s, "cc-essentials: ran biome on ");
                push_str(&mut s, file_display);
                push_str(&mut s, " but couldn't parse its output");
                if note.len() > 0 {
                    push_str(&mut s, " (");
                    push_chars(&mut s, &note);
                    push_str(&mut s, ")");
                }
            } else {
                push_str(&mut s, "cc-essentials: biome error running against ");
                push_str(&mut s, file_display);
                push_str(&mut s, " (exit ");
                push_exit_code(&mut s, *exit_code);
                push_str(&mut s, "): ");
                push_chars(&mut s, &note);
            }
        },
        BiomeOutcome::SpawnFailed { error } => {
            push_str(&mut s, "cc-essentials: failed to run biome against ");
            push_str(&mut s, file_display);
            push_str(&mut s, ": ");
            push_str(&mut s, error.as_str());
        },
    }
    assert(s@ =~= spec_system_message(file_display@, *outcome));
    chars_to_string(&s)
}

} // verus!


