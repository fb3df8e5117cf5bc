//! Properties of the library as a whole, stated over the specifications that the
//! functions' contracts use.
use vstd::prelude::*;
use crate::codex::{
    already_listed, collect_paths, first_field, lookup_field, patch_fields, patch_paths, patch_scan,
    patch_step, spec_patch_paths_from_value, spec_resolve_path, PatchScan, ToolValue,
};
use crate::detect::DetectedProject;
use crate::doctor::{doctor_report, toned, Tone};
use crate::cache::{
    entry_index, key_eq, lemma_entry_index_bounds, opt_text, lemma_entry_index_update, spec_lookup, spec_store,
    CacheKey, CachedDetection, SCHEMA_VERSION,
};
use crate::error_dump::utf8_truncated;
use crate::paths::{hit, is_first_hit, join, no_hit, std_same_path, walk_result};
use crate::schema::{CheckOutput, Diagnostic};
use crate::summary::{
    context_lines, first_note, index_seq, lemma_ranked_len, lemma_ranked_upto_facts, note_ok,
    rank, rank_bucket, ranked, ranked_upto, sorted_diagnostics, spec_additional_context,
    stderr_note, MAX_DIAGNOSTICS_IN_CONTEXT,
};
use crate::summary::{spec_system_message, BiomeOutcome};
use crate::logs::{recent_lines, RECENT_EVENTS};
use crate::text::{decimal, byte_len, lemma_byte_len_prefix_monotone, split_where, starts_with, Separator};

verus! {

// ---------------------------------------------------------------------------
// The model-facing report
// ---------------------------------------------------------------------------

proof fn lemma_ranked_upto_ordered(ds: Seq<Diagnostic>, r: nat, j: int, k: int)
    requires
        r <= 5,
        0 <= j < k < ranked_upto(ds, r).len(),
    ensures
        rank(ds[ranked_upto(ds, r)[j] as int].severity) <= rank(ds[ranked_upto(ds, r)[k] as int].severity),
    decreases r,
{
    let r1 = (r - 1) as nat;
    let a = ranked_upto(ds, r1);
    let b = rank_bucket(ds, r1);
    let p = |i: usize| rank(ds[i as int].severity) == r1;
    lemma_ranked_upto_facts(ds, r1);
    if k < a.len() {
        lemma_ranked_upto_ordered(ds, r1, j, k);
        assert(ranked_upto(ds, r)[j] == a[j]);
        assert(ranked_upto(ds, r)[k] == a[k]);
    } else {
        index_seq(ds.len()).lemma_filter_pred(p, k - a.len());
        assert(ranked_upto(ds, r)[k] == b[k - a.len()]);
        if j < a.len() {
            assert(ranked_upto(ds, r)[j] == a[j]);
        } else {
            index_seq(ds.len()).lemma_filter_pred(p, j - a.len());
            assert(ranked_upto(ds, r)[j] == b[j - a.len()]);
        }
    }
}

/// The report lists findings most serious first: fatal, then errors, warnings, hints
/// and infos.
pub proof fn law_report_most_serious_first(ds: Seq<Diagnostic>, j: int, k: int)
    requires
        0 <= j < k < sorted_diagnostics(ds).len(),
    ensures
        rank(sorted_diagnostics(ds)[j].severity) <= rank(sorted_diagnostics(ds)[k].severity),
{
    lemma_ranked_len(ds);
    lemma_ranked_upto_facts(ds, 5);
    lemma_ranked_upto_ordered(ds, 5, j, k);
}

proof fn lemma_ranked_upto_contains(ds: Seq<Diagnostic>, r: nat, i: int)
    requires
        r <= 5,
        0 <= i < ds.len(),
        ds.len() <= usize::MAX,
        rank(ds[i].severity) < r,
    ensures
        ranked_upto(ds, r).contains(i as usize),
    decreases r,
{
    let r1 = (r - 1) as nat;
    let a = ranked_upto(ds, r1);
    let b = rank_bucket(ds, r1);
    if rank(ds[i].severity) < r1 {
        lemma_ranked_upto_contains(ds, r1, i);
        let w = choose|w: int| 0 <= w < a.len() && a[w] == i as usize;
        assert((a + b)[w] == i as usize);
    } else {
        let p = |x: usize| rank(ds[x as int].severity) == r1;
        assert(index_seq(ds.len())[i] == i as usize);
        index_seq(ds.len()).lemma_filter_contains(p, i);
        let w = choose|w: int| 0 <= w < b.len() && b[w] == i as usize;
        assert((a + b)[a.len() + w] == i as usize);
    }
}

/// Every finding has its place in the report order, and the order has one place per
/// finding.
pub proof fn law_report_lists_every_finding(ds: Seq<Diagnostic>, i: int)
    requires
        0 <= i < ds.len(),
        ds.len() <= usize::MAX,
    ensures
        ranked(ds).contains(i as usize),
        ranked(ds).len() == ds.len(),
{
    lemma_ranked_len(ds);
    lemma_ranked_upto_contains(ds, 5, i);
}

/// The report lists `MAX_DIAGNOSTICS_IN_CONTEXT` findings at most, and all of them
/// when there are no more.
pub proof fn law_report_capped(ds: Seq<Diagnostic>)
    ensures
        context_lines(ds).len() == if ds.len() <= MAX_DIAGNOSTICS_IN_CONTEXT {
            ds.len()
        } else {
            MAX_DIAGNOSTICS_IN_CONTEXT as nat
        },
{
    lemma_ranked_len(ds);
}

/// The model's context is only written to when Biome reported findings.
pub proof fn law_context_only_on_findings(check: CheckOutput, file_display: Seq<char>)
    ensures
        spec_additional_context(check, file_display) is Some <==> check.diagnostics@.len() > 0,
{
}

// ---------------------------------------------------------------------------
// The user-facing line
// ---------------------------------------------------------------------------

proof fn lemma_first_note_ok(ls: Seq<Seq<char>>)
    ensures
        first_note(ls).len() > 0 ==> note_ok(first_note(ls)),
    decreases ls.len(),
{
    if ls.len() > 0 {
        lemma_first_note_ok(ls.drop_first());
    }
}

/// A stderr line quoted to the user is never blank and never Biome's warning that
/// its JSON reporter is unstable.
pub proof fn law_quoted_stderr_is_informative(stderr: Seq<char>)
    ensures
        stderr_note(stderr).len() > 0 ==> note_ok(stderr_note(stderr)),
{
    lemma_first_note_ok(split_where(stderr, Separator::Char('\n')));
}

proof fn lemma_prefix_extends(a: Seq<char>, b: Seq<char>, p: Seq<char>)
    requires
        starts_with(a, p),
    ensures
        starts_with(a + b, p),
{
    assert((a + b).take(p.len() as int) =~= a.take(p.len() as int));
}

/// Every user-facing line starts with `cc-essentials: `.
pub proof fn law_system_message_prefix(file_display: Seq<char>, outcome: BiomeOutcome)
    ensures
        starts_with(spec_system_message(file_display, outcome), "cc-essentials: "@),
{
    let p = "cc-essentials: "@;
    reveal_strlit("cc-essentials: ");
    reveal_strlit("cc-essentials: skipped ");
    reveal_strlit("cc-essentials: formatted ");
    reveal_strlit("cc-essentials: ran biome on ");
    reveal_strlit("cc-essentials: biome error running against ");
    reveal_strlit("cc-essentials: failed to run biome against ");
    assert(starts_with("cc-essentials: skipped "@, p)) by {
        assert("cc-essentials: skipped "@.take(p.len() as int) =~= p);
    }
    assert(starts_with("cc-essentials: formatted "@, p)) by {
        assert("cc-essentials: formatted "@.take(p.len() as int) =~= p);
    }
    assert(starts_with("cc-essentials: ran biome on "@, p)) by {
        assert("cc-essentials: ran biome on "@.take(p.len() as int) =~= p);
    }
    assert(starts_with("cc-essentials: biome error running against "@, p)) by {
        assert("cc-essentials: biome error running against "@.take(p.len() as int) =~= p);
    }
    assert(starts_with("cc-essentials: failed to run biome against "@, p)) by {
        assert("cc-essentials: failed to run biome against "@.take(p.len() as int) =~= p);
    }
    let m = spec_system_message(file_display, outcome);
    match outcome {
        BiomeOutcome::Parsed { check, .. } => {
            let errs = check.summary.errors;
            let warns = check.summary.warnings;
            if errs > 0 && check.summary.changed == 0 {
                let head = "cc-essentials: skipped "@;
                assert(m =~= head + (m.skip(head.len() as int)));
                lemma_prefix_extends(head, m.skip(head.len() as int), p);
            } else {
                let head = "cc-essentials: formatted "@;
                assert(m =~= head + (m.skip(head.len() as int)));
                lemma_prefix_extends(head, m.skip(head.len() as int), p);
            }
        },
        BiomeOutcome::FallbackText { exit_code, .. } => {
            if exit_code == Some(0i32) {
                let head = "cc-essentials: ran biome on "@;
                assert(m =~= head + (m.skip(head.len() as int)));
                lemma_prefix_extends(head, m.skip(head.len() as int), p);
            } else {
                let head = "cc-essentials: biome error running against "@;
                assert(m =~= head + (m.skip(head.len() as int)));
                lemma_prefix_extends(head, m.skip(head.len() as int), p);
            }
        },
        BiomeOutcome::SpawnFailed { .. } => {
            let head = "cc-essentials: failed to run biome against "@;
            assert(m =~= head + (m.skip(head.len() as int)));
            lemma_prefix_extends(head, m.skip(head.len() as int), p);
        },
    }
}

// ---------------------------------------------------------------------------
// The logs report
// ---------------------------------------------------------------------------

/// At most `RECENT_EVENTS` log events are shown, each a non-empty line, the latest
/// ones last.
pub proof fn law_recent_events_capped(contents: Seq<char>)
    ensures
        recent_lines(contents).len() <= RECENT_EVENTS,
        forall|i: int| 0 <= i < recent_lines(contents).len() ==> (#[trigger] recent_lines(contents)[i]).len() > 0,
{
    let nonempty = |l: Seq<char>| l.len() > 0;
    let all = split_where(contents, Separator::Char('\n'));
    let lines = all.filter(nonempty);
    assert forall|i: int| 0 <= i < lines.len() implies (#[trigger] lines[i]).len() > 0 by {
        all.lemma_filter_pred(nonempty, i);
    }
    if lines.len() > RECENT_EVENTS {
        assert forall|i: int| 0 <= i < recent_lines(contents).len() implies (#[trigger] recent_lines(contents)[i]).len() > 0 by {
            assert(recent_lines(contents)[i] == lines[i + lines.len() - RECENT_EVENTS]);
        }
    }
}

// ---------------------------------------------------------------------------
// Truncation
// ---------------------------------------------------------------------------

/// A string that fits in `max_bytes` bytes is kept whole.
pub proof fn law_truncate_keeps_what_fits(s: Seq<char>, max_bytes: nat, r: Seq<char>)
    requires
        utf8_truncated(s, max_bytes, r),
        byte_len(s) <= max_bytes,
    ensures
        r == s,
{
    if r.len() < s.len() {
        lemma_byte_len_prefix_monotone(s, (r.len() + 1) as int, s.len() as int);
        assert(s.take(s.len() as int) =~= s);
    }
    assert(r =~= s) by {
        assert(s.take(s.len() as int) =~= s);
    }
}

// ---------------------------------------------------------------------------
// Walking up a directory tree
// ---------------------------------------------------------------------------

proof fn lemma_first_in_level(present: Seq<Vec<bool>>, ndirs: int, ncands: int, l: int, j: int)
    requires
        0 <= l < ndirs,
        0 <= j < ncands,
        hit(present, l, j),
        forall|l2: int, j2: int| 0 <= l2 < l && 0 <= j2 < ncands ==> !hit(present, l2, j2),
    ensures
        exists|j2: int| j2 <= j && is_first_hit(present, ndirs, ncands, l, j2),
    decreases j,
{
    if exists|j2: int| 0 <= j2 < j && hit(present, l, j2) {
        let j2 = choose|j2: int| 0 <= j2 < j && hit(present, l, j2);
        lemma_first_in_level(present, ndirs, ncands, l, j2);
    } else {
        assert(is_first_hit(present, ndirs, ncands, l, j));
    }
}

proof fn lemma_first_hit_exists(present: Seq<Vec<bool>>, ndirs: int, ncands: int, l: int, j: int)
    requires
        0 <= l < ndirs,
        0 <= j < ncands,
        hit(present, l, j),
    ensures
        exists|l2: int, j2: int|
            is_first_hit(present, ndirs, ncands, l2, j2) && l2 <= l && (l2 == l ==> j2 <= j),
    decreases l,
{
    if exists|l2: int, j2: int| 0 <= l2 < l && 0 <= j2 < ncands && hit(present, l2, j2) {
        let (l2, j2) = choose|l2: int, j2: int| 0 <= l2 < l && 0 <= j2 < ncands && hit(present, l2, j2);
        lemma_first_hit_exists(present, ndirs, ncands, l2, j2);
    } else {
        lemma_first_in_level(present, ndirs, ncands, l, j);
        let j2 = choose|j2: int| j2 <= j && is_first_hit(present, ndirs, ncands, l, j2);
        assert(is_first_hit(present, ndirs, ncands, l, j2) && l <= l && (l == l ==> j2 <= j));
    }
}

/// When a probe exists, the walk finds something, and what it finds is no farther
/// up than that probe's directory, and at that same directory no later among the
/// candidates.
pub proof fn law_walk_prefers_nearest(
    dirs: Seq<Seq<char>>,
    cands: Seq<Seq<char>>,
    present: Seq<Vec<bool>>,
    l: int,
    j: int,
)
    requires
        0 <= l < dirs.len(),
        0 <= j < cands.len(),
        hit(present, l, j),
    ensures
        exists|l2: int, j2: int|
            l2 <= l && (l2 == l ==> j2 <= j) && 0 <= l2 < dirs.len() && 0 <= j2 < cands.len()
                && walk_result(dirs, cands, present) == Some(join(dirs[l2], cands[j2])),
{
    lemma_first_hit_exists(present, dirs.len() as int, cands.len() as int, l, j);
    let (l2, j2) = choose|l2: int, j2: int|
        is_first_hit(present, dirs.len() as int, cands.len() as int, l2, j2) && l2 <= l && (l2 == l
            ==> j2 <= j);
    let w = choose|a: int, b: int| is_first_hit(present, dirs.len() as int, cands.len() as int, a, b);
    crate::paths::lemma_first_hit_unique(present, dirs.len() as int, cands.len() as int, l2, j2, w.0, w.1);
    assert(walk_result(dirs, cands, present) == Some(join(dirs[l2], cands[j2])));
    assert(l2 <= l && (l2 == l ==> j2 <= j) && 0 <= l2 < dirs.len() && 0 <= j2 < cands.len());
}

/// When no probe exists, the walk finds nothing.
pub proof fn law_walk_finds_nothing_when_absent(
    dirs: Seq<Seq<char>>,
    cands: Seq<Seq<char>>,
    present: Seq<Vec<bool>>,
)
    requires
        no_hit(present, dirs.len() as int, cands.len() as int),
    ensures
        walk_result(dirs, cands, present) is None,
{
    if exists|l: int, j: int| is_first_hit(present, dirs.len() as int, cands.len() as int, l, j) {
        let (l, j) = choose|l: int, j: int| is_first_hit(present, dirs.len() as int, cands.len() as int, l, j);
        assert(hit(present, l, j));
    }
}

// ---------------------------------------------------------------------------
// Codex paths
// ---------------------------------------------------------------------------

/// No two files a Codex event leads to checking are the same path.
pub proof fn law_codex_paths_distinct(raws: Seq<Seq<char>>, cwd: Option<Seq<char>>, i: int, k: int)
    requires
        0 <= i < k < collect_paths(raws, cwd).len(),
    ensures
        !std_same_path(collect_paths(raws, cwd)[i], collect_paths(raws, cwd)[k]),
    decreases raws.len(),
{
    let acc = collect_paths(raws.drop_last(), cwd);
    match spec_resolve_path(raws.last(), cwd) {
        Some(p) => {
            if already_listed(acc, p) {
                law_codex_paths_distinct(raws.drop_last(), cwd, i, k);
            } else if k < acc.len() {
                law_codex_paths_distinct(raws.drop_last(), cwd, i, k);
            } else {
                assert(collect_paths(raws, cwd)[k] == p);
                assert(collect_paths(raws, cwd)[i] == acc[i]);
            }
        },
        None => {
            law_codex_paths_distinct(raws.drop_last(), cwd, i, k);
        },
    }
}

proof fn lemma_patch_scan_nonempty(lines: Seq<Seq<char>>)
    ensures
        forall|i: int| 0 <= i < patch_scan(lines).0.len() ==> (#[trigger] patch_scan(lines).0[i]).len() > 0,
    decreases lines.len(),
{
    if lines.len() > 0 {
        let prev = patch_scan(lines.drop_last());
        lemma_patch_scan_nonempty(lines.drop_last());
        let st = patch_scan(lines);
        assert(st == patch_step(prev, lines.last()));
        crate::codex::lemma_patch_scan_index(lines.drop_last());
        let line = crate::text::trim(lines.last());
        assert forall|i: int| 0 <= i < st.0.len() implies (#[trigger] st.0[i]).len() > 0 by {
            if prev.2 || line == "*** End Patch"@ {
                assert(prev.0[i].len() > 0);
            } else if crate::codex::op_path(line) is Some && crate::codex::op_path(line)->0.len() > 0 {
                if i < prev.0.len() {
                    assert(prev.0[i].len() > 0);
                }
            } else if crate::codex::move_path(line) is Some && crate::codex::move_path(line)->0.len() > 0 {
                match prev.1 {
                    Some(idx) => {
                        if i != idx {
                            assert(prev.0[i].len() > 0);
                        }
                    },
                    None => {
                        if i < prev.0.len() {
                            assert(prev.0[i].len() > 0);
                        }
                    },
                }
            } else {
                assert(prev.0[i].len() > 0);
            }
        }
    }
}

/// Every file an `apply_patch` envelope is read to touch has a non-empty name.
pub proof fn law_patch_paths_nonempty(raw: Seq<char>, i: int)
    requires
        0 <= i < patch_paths(raw).len(),
    ensures
        patch_paths(raw)[i].len() > 0,
{
    lemma_patch_scan_nonempty(split_where(raw, Separator::Char('\n')));
}

// ---------------------------------------------------------------------------
// The detection cache
// ---------------------------------------------------------------------------

/// Entries with the same config path at every position are looked up alike.
proof fn lemma_entry_index_same_paths(s: Seq<CachedDetection>, t: Seq<CachedDetection>, q: Seq<char>)
    requires
        s.len() == t.len(),
        forall|j: int| 0 <= j < s.len() ==> s[j].key.biome_config_path@ == t[j].key.biome_config_path@,
    ensures
        entry_index(s, q) == entry_index(t, q),
    decreases s.len(),
{
    if s.len() > 0 {
        assert(s.last() == s[s.len() - 1] && t.last() == t[t.len() - 1]);
        assert forall|j: int| 0 <= j < s.drop_last().len() implies s.drop_last()[j].key.biome_config_path@
            == t.drop_last()[j].key.biome_config_path@ by {
            assert(s.drop_last()[j] == s[j] && t.drop_last()[j] == t[j]);
        }
        lemma_entry_index_same_paths(s.drop_last(), t.drop_last(), q);
    }
}

/// A lookup straight after storing a detection finds it under its key (when it has the
/// current schema), misses under any other key for the same config, and answers for
/// every other config as before.
pub proof fn law_cache_finds_what_was_stored(s: Seq<CachedDetection>, e: CachedDetection, k: CacheKey)
    ensures
        spec_lookup(spec_store(s, e), e.key) == (if e.schema_version == SCHEMA_VERSION {
            Some(e)
        } else {
            None
        }),
        k.biome_config_path@ == e.key.biome_config_path@ && !key_eq(k, e.key) ==> spec_lookup(
            spec_store(s, e),
            k,
        ) is None,
        k.biome_config_path@ != e.key.biome_config_path@ ==> spec_lookup(spec_store(s, e), k)
            == spec_lookup(s, k),
{
    let p = e.key.biome_config_path@;
    let q = k.biome_config_path@;
    let t = spec_store(s, e);
    let i = entry_index(s, p);
    lemma_entry_index_bounds(s, p);
    lemma_entry_index_bounds(s, q);
    if i >= 0 {
        lemma_entry_index_update(s, i, e);
        assert(t[i] == e);
        assert forall|j: int| 0 <= j < s.len() implies s[j].key.biome_config_path@ == t[j].key.biome_config_path@ by {
            if j == i {
            } else {
                assert(t[j] == s[j]);
            }
        }
        lemma_entry_index_same_paths(s, t, q);
        if q != p {
            let iq = entry_index(s, q);
            if iq >= 0 {
                assert(iq != i);
                assert(t[iq] == s[iq]);
            }
        }
    } else {
        assert(t.last() == e);
        assert(t.drop_last() =~= s);
        assert(entry_index(t, p) == s.len());
        if q != p {
            assert(entry_index(t, q) == entry_index(s, q));
            let iq = entry_index(s, q);
            if iq >= 0 {
                assert(t[iq] == s[iq]);
            }
        }
    }
}

// ---------------------------------------------------------------------------
// What the user and the model are told
// ---------------------------------------------------------------------------

/// A parsed run that still has errors after Biome wrote the file is reported as
/// formatted with that many errors remaining.
pub proof fn law_remaining_errors_reported(display: Seq<char>, check: CheckOutput, relative_file: String, exit_code: Option<i32>)
    requires
        check.summary.errors > 0,
        check.summary.changed > 0,
    ensures
        spec_system_message(display, BiomeOutcome::Parsed { check, relative_file, exit_code })
            == "cc-essentials: formatted "@ + display + " with "@ + decimal(check.summary.errors as nat)
            + " error"@ + (if check.summary.errors == 1 {
            ""@
        } else {
            "s"@
        }) + " remaining"@,
{
}

/// While a parsed run has errors, the user line does not depend on the number of
/// warnings: two runs with the same errors and the same written-or-not state give the
/// same line.
pub proof fn law_error_line_ignores_warnings(
    display: Seq<char>,
    c1: CheckOutput,
    c2: CheckOutput,
    f1: String,
    f2: String,
    e1: Option<i32>,
    e2: Option<i32>,
)
    requires
        c1.summary.errors == c2.summary.errors,
        c1.summary.errors > 0,
        (c1.summary.changed == 0) == (c2.summary.changed == 0),
    ensures
        spec_system_message(display, BiomeOutcome::Parsed { check: c1, relative_file: f1, exit_code: e1 })
            == spec_system_message(display, BiomeOutcome::Parsed { check: c2, relative_file: f2, exit_code: e2 }),
{
}

/// The model's report opens with Biome's own counts: its error count before
/// ` error(s)` and its warning count before ` warning(s)`.
pub proof fn law_context_header_counts(check: CheckOutput, display: Seq<char>)
    ensures
        spec_additional_context(check, display) matches Some(t) ==> ("biome report for "@ + display + ": "@
            + decimal(check.summary.errors as nat) + " error(s), "@ + decimal(check.summary.warnings as nat)
            + " warning(s)\n"@).is_prefix_of(t),
{
    let h = "biome report for "@ + display + ": "@ + decimal(check.summary.errors as nat) + " error(s), "@
        + decimal(check.summary.warnings as nat) + " warning(s)\n"@;
    if let Some(t) = spec_additional_context(check, display) {
        let rest = t.subrange(h.len() as int, t.len() as int);
        assert(t =~= h + rest);
        assert(t.subrange(0, h.len() as int) =~= h);
    }
}

/// Whenever detection found a Biome setup, the doctor's verdict is that the project
/// is ready, whatever else was or was not found.
pub proof fn law_doctor_ready_with_biome(d: DetectedProject, cache_dir: Seq<char>, c: bool)
    requires
        d.biome is Some,
    ensures
        (toned(Tone::Good, "ready: biome detected"@, c) + "\n"@).is_suffix_of(doctor_report(d, cache_dir, c)),
        !c ==> ("ready: biome detected"@ + "\n"@).is_suffix_of(doctor_report(d, cache_dir, c)),
{
    let v = toned(Tone::Good, "ready: biome detected"@, c) + "\n"@;
    let r = doctor_report(d, cache_dir, c);
    let pre = r.subrange(0, r.len() - v.len());
    assert(r =~= pre + v);
    assert(r.subrange(r.len() - v.len(), r.len() as int) =~= v);
}

// ---------------------------------------------------------------------------
// The cache and the Codex inputs
// ---------------------------------------------------------------------------

/// A cache hit is a detection of the current schema stored under exactly the key
/// looked up: the same config path and stamp, the same lockfile path and the same
/// lockfile stamp. A config or lockfile edited since (a new stamp) is a miss.
pub proof fn law_cache_hit_has_the_key(s: Seq<CachedDetection>, k: CacheKey)
    ensures
        spec_lookup(s, k) matches Some(e) ==> {
            &&& e.schema_version == SCHEMA_VERSION
            &&& e.key.biome_config_path@ == k.biome_config_path@
            &&& e.key.biome_config_stamp == k.biome_config_stamp
            &&& opt_text(e.key.lockfile_path) == opt_text(k.lockfile_path)
            &&& e.key.lockfile_stamp == k.lockfile_stamp
        },
{
}

/// The patch of an `apply_patch` call given as an object is its `command` field, else
/// its `input` field, else its `patch` field; the files read are that envelope's.
pub proof fn law_patch_text_fields(kv: Vec<(String, String)>)
    ensures
        lookup_field(kv@, "command"@) matches Some(t) ==> spec_patch_paths_from_value(ToolValue::Fields(kv))
            == patch_paths(t),
        lookup_field(kv@, "command"@) is None ==> (lookup_field(kv@, "input"@) matches Some(t)
            ==> spec_patch_paths_from_value(ToolValue::Fields(kv)) == patch_paths(t)),
        lookup_field(kv@, "command"@) is None && lookup_field(kv@, "input"@) is None ==> (lookup_field(
            kv@,
            "patch"@,
        ) matches Some(t) ==> spec_patch_paths_from_value(ToolValue::Fields(kv)) == patch_paths(t)),
{
    let f = patch_fields();
    assert(f.drop_first() =~= seq!["input"@, "patch"@]);
    assert(f.drop_first().drop_first() =~= seq!["patch"@]);
    assert(f.drop_first().drop_first().drop_first() =~= Seq::<Seq<char>>::empty());
    assert(first_field(kv@, f.drop_first().drop_first().drop_first()) is None);
    let f1 = f.drop_first();
    let f2 = f1.drop_first();
    assert(f[0] == "command"@ && f1[0] == "input"@ && f2[0] == "patch"@);
    assert(f.len() == 3 && f1.len() == 2 && f2.len() == 1);
    if lookup_field(kv@, "command"@) is None {
        assert(first_field(kv@, f) == first_field(kv@, f1));
        if lookup_field(kv@, "input"@) is None {
            assert(first_field(kv@, f1) == first_field(kv@, f2));
            assert(first_field(kv@, f2) == lookup_field(kv@, "patch"@));
        } else {
            assert(first_field(kv@, f1) == lookup_field(kv@, "input"@));
        }
    }
}

/// A parsed run's line says the file was skipped exactly when Biome left it unchanged
/// with errors; otherwise it was formatted, and without errors the warning count is
/// given when there are warnings, and nothing more when there are none.
pub proof fn law_parsed_line_kinds(display: Seq<char>, check: CheckOutput, relative_file: String, exit_code: Option<i32>)
    ensures
        ({
            let line = spec_system_message(display, BiomeOutcome::Parsed { check, relative_file, exit_code });
            let errs = check.summary.errors;
            let warns = check.summary.warnings;
            &&& errs > 0 && check.summary.changed == 0 ==> ("cc-essentials: skipped "@ + display + " ("@
                + decimal(errs as nat) + " error"@).is_prefix_of(line)
            &&& !(errs > 0 && check.summary.changed == 0) ==> ("cc-essentials: formatted "@ + display).is_prefix_of(line)
            &&& errs == 0 && warns > 0 ==> line == "cc-essentials: formatted "@ + display + " ("@ + decimal(
                warns as nat,
            ) + " warning"@ + (if warns == 1 {
                ""@
            } else {
                "s"@
            }) + ")"@
            &&& errs == 0 && warns == 0 ==> line == "cc-essentials: formatted "@ + display
        }),
{
    let line = spec_system_message(display, BiomeOutcome::Parsed { check, relative_file, exit_code });
    let errs = check.summary.errors;
    if errs > 0 && check.summary.changed == 0 {
        let h = "cc-essentials: skipped "@ + display + " ("@ + decimal(errs as nat) + " error"@;
        assert(line.subrange(0, h.len() as int) =~= h);
    } else {
        let h = "cc-essentials: formatted "@ + display;
        assert(line.subrange(0, h.len() as int) =~= h);
    }
}

/// Without a Biome setup the doctor's verdict is partial when a lockfile was found and
/// unsupported when none was.
pub proof fn law_doctor_verdict_without_biome(d: DetectedProject, cache_dir: Seq<char>, c: bool)
    requires
        d.biome is None,
    ensures
        d.package_manager is Some ==> (toned(Tone::Warning, "partial: JS/TS project detected but no biome config"@, c)
            + "\n"@).is_suffix_of(doctor_report(d, cache_dir, c)),
        d.package_manager is None ==> (toned(
            Tone::Warning,
            "not a supported project (no JS/TS lockfile, no biome config)"@,
            c,
        ) + "\n"@).is_suffix_of(doctor_report(d, cache_dir, c)),
{
    let r = doctor_report(d, cache_dir, c);
    let v = if d.package_manager is Some {
        toned(Tone::Warning, "partial: JS/TS project detected but no biome config"@, c) + "\n"@
    } else {
        toned(Tone::Warning, "not a supported project (no JS/TS lockfile, no biome config)"@, c) + "\n"@
    };
    let pre = r.subrange(0, r.len() - v.len());
    assert(r =~= pre + v);
    assert(r.subrange(r.len() - v.len(), r.len() as int) =~= v);
}

} // verus!
