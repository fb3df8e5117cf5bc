use cc_essentials::schema::{CheckOutput, Diagnostic, Location, PathOrObject, Position, Severity, Summary};
use cc_essentials::summary::{
    additional_context, format_loc, line_col, plural, severity_label, severity_rank, system_message,
    BiomeOutcome, MAX_DIAGNOSTICS_IN_CONTEXT,
};

fn diag(sev: Severity, path: &str, line: u64, col: u64, category: &str, message: &str) -> Diagnostic {
    Diagnostic {
        severity: sev,
        message: message.to_string(),
        category: Some(category.to_string()),
        location: Some(Location {
            path: Some(PathOrObject::Path(path.to_string())),
            start: Some(Position { line: Some(line), column: Some(col) }),
            end: None,
            span: None,
            source_code: None,
        }),
    }
}

fn report(errors: u64, warnings: u64, changed: u64, diagnostics: Vec<Diagnostic>) -> CheckOutput {
    let mut summary = Summary::default();
    summary.errors = errors;
    summary.warnings = warnings;
    summary.changed = changed;
    CheckOutput { summary, diagnostics, command: Some("check".to_string()) }
}

/// A clean report: nothing changed, nothing found.
fn empty_report() -> CheckOutput {
    report(0, 0, 0, Vec::new())
}

/// Two lint warnings in `index.ts`.
fn warnings_report() -> CheckOutput {
    report(
        0,
        2,
        0,
        vec![
            diag(Severity::Warning, "index.ts", 1, 8, "lint/correctness/noUnusedImports", "This import is unused."),
            diag(Severity::Warning, "index.ts", 3, 10, "lint/suspicious/noExplicitAny", "Avoid using any."),
        ],
    )
}

/// A warning listed before an error in `src/foo.ts`.
fn errors_report() -> CheckOutput {
    report(
        1,
        1,
        0,
        vec![
            diag(Severity::Warning, "src/foo.ts", 1, 1, "lint/suspicious/noExplicitAny", "Avoid using any."),
            diag(Severity::Error, "src/foo.ts", 2, 5, "lint/correctness/noUndeclaredVariables", "The x variable is undeclared."),
        ],
    )
}

/// Biome could not parse the file and left it unchanged.
fn parse_error_report() -> CheckOutput {
    report(1, 0, 0, vec![diag(Severity::Error, "src/foo.ts", 1, 7, "parse", "expected an expression but instead found '}'")])
}

#[test]
fn additional_context_none_on_clean() {
    let c = empty_report();
    assert!(additional_context(&c, "foo.ts").is_none());
}

#[test]
fn additional_context_lists_warnings() {
    let c = warnings_report();
    let s = additional_context(&c, "index.ts").unwrap();
    assert!(s.contains("2 warning(s)"));
    assert!(s.contains("lint/correctness/noUnusedImports"));
    assert!(s.contains("lint/suspicious/noExplicitAny"));
}

#[test]
fn additional_context_orders_errors_before_warnings() {
    let c = errors_report();
    let s = additional_context(&c, "src/foo.ts").unwrap();
    let err_idx = s.find("error(").unwrap();
    let warn_idx = s.find("warning(").unwrap();
    assert!(err_idx < warn_idx, "errors should appear before warnings:\n{s}");
}

#[test]
fn system_message_clean_run() {
    let mut c = empty_report();
    c.summary.changed = 1;
    let outcome = BiomeOutcome::Parsed { check: c, relative_file: "foo.ts".to_string(), exit_code: Some(0) };
    assert_eq!(system_message("foo.ts", &outcome), "cc-essentials: formatted foo.ts");
}

#[test]
fn system_message_with_warnings() {
    let mut c = warnings_report();
    c.summary.changed = 1;
    let outcome = BiomeOutcome::Parsed { check: c, relative_file: "index.ts".to_string(), exit_code: Some(0) };
    assert_eq!(system_message("index.ts", &outcome), "cc-essentials: formatted index.ts (2 warnings)");
}

#[test]
fn system_message_skipped_on_parse_error_with_no_write() {
    let c = parse_error_report();
    let outcome = BiomeOutcome::Parsed { check: c, relative_file: "src/foo.ts".to_string(), exit_code: Some(1) };
    assert!(system_message("src/foo.ts", &outcome).starts_with("cc-essentials: skipped src/foo.ts (1 error"));
}

#[test]
fn system_message_spawn_failed() {
    let outcome = BiomeOutcome::SpawnFailed { error: "no such file".to_string() };
    let s = system_message("foo.ts", &outcome);
    assert!(s.contains("failed to run biome"));
    assert!(s.contains("foo.ts"));
}

#[test]
fn system_message_fallback_text() {
    let outcome = BiomeOutcome::FallbackText {
        stdout: String::new(),
        stderr: "biome: fatal: config is invalid\n(more details)".to_string(),
        exit_code: Some(2),
    };
    let s = system_message("foo.ts", &outcome);
    assert!(s.contains("biome error"));
    assert!(s.contains("foo.ts"));
    assert!(s.contains("fatal: config is invalid"));
}

#[test]
fn diagnostic_cap_applied() {
    let mut c = warnings_report();
    while c.diagnostics.len() < MAX_DIAGNOSTICS_IN_CONTEXT + 5 {
        c.diagnostics.push(diag(Severity::Warning, "index.ts", 1, 8, "lint/correctness/noUnusedImports", "This import is unused."));
    }
    let s = additional_context(&c, "index.ts").unwrap();
    assert!(s.contains("+5 more"));
}

// ---- exact texts ----

#[test]
fn additional_context_exact_text() {
    let c = errors_report();
    let s = additional_context(&c, "src/foo.ts").unwrap();
    assert_eq!(
        s,
        "biome report for src/foo.ts: 1 error(s), 1 warning(s)\n  src/foo.ts:2:5 error(lint/correctness/noUndeclaredVariables): The x variable is undeclared.\n  src/foo.ts:1:1 warning(lint/suspicious/noExplicitAny): Avoid using any.\n"
    );
}

#[test]
fn additional_context_cap_counts_lines() {
    let mut c = report(0, 60, 0, Vec::new());
    for _ in 0..60 {
        c.diagnostics.push(diag(Severity::Info, "a.ts", 1, 1, "x", "m"));
    }
    let s = additional_context(&c, "a.ts").unwrap();
    assert_eq!(s.lines().filter(|l| l.starts_with("  a.ts:1:1 info(x): m")).count(), 50);
    assert!(s.ends_with("  ... +10 more diagnostic(s) omitted\n"));
}

#[test]
fn additional_context_order_is_stable_by_rank() {
    let c = report(
        1,
        1,
        0,
        vec![
            diag(Severity::Info, "a.ts", 1, 1, "i", "info"),
            diag(Severity::Hint, "a.ts", 2, 1, "h", "hint"),
            diag(Severity::Warning, "a.ts", 3, 1, "w1", "first warning"),
            diag(Severity::Fatal, "a.ts", 4, 1, "f", "fatal"),
            diag(Severity::Warning, "a.ts", 5, 1, "w2", "second warning"),
            diag(Severity::Error, "a.ts", 6, 1, "e", "error"),
        ],
    );
    let s = additional_context(&c, "a.ts").unwrap();
    let body: Vec<&str> = s.lines().skip(1).collect();
    assert_eq!(
        body,
        vec![
            "  a.ts:4:1 fatal(f): fatal",
            "  a.ts:6:1 error(e): error",
            "  a.ts:3:1 warning(w1): first warning",
            "  a.ts:5:1 warning(w2): second warning",
            "  a.ts:2:1 hint(h): hint",
            "  a.ts:1:1 info(i): info",
        ]
    );
}

#[test]
fn system_message_other_branches() {
    let mut c = parse_error_report();
    c.summary.changed = 1;
    let o = BiomeOutcome::Parsed { check: c, relative_file: "x.ts".to_string(), exit_code: Some(1) };
    assert_eq!(system_message("x.ts", &o), "cc-essentials: formatted x.ts with 1 error remaining");

    let c = report(3, 0, 0, Vec::new());
    let o = BiomeOutcome::Parsed { check: c, relative_file: "x.ts".to_string(), exit_code: Some(1) };
    assert_eq!(system_message("x.ts", &o), "cc-essentials: skipped x.ts (3 errors \u{2014} biome left the file unchanged)");

    let c = report(0, 1, 1, Vec::new());
    let o = BiomeOutcome::Parsed { check: c, relative_file: "x.ts".to_string(), exit_code: Some(0) };
    assert_eq!(system_message("x.ts", &o), "cc-essentials: formatted x.ts (1 warning)");
}

#[test]
fn system_message_fallback_exit_zero_skips_unstable_warning() {
    let o = BiomeOutcome::FallbackText {
        stdout: "garbage".to_string(),
        stderr: "\n  The --json option is unstable  \n  real note  \n".to_string(),
        exit_code: Some(0),
    };
    assert_eq!(system_message("a.ts", &o), "cc-essentials: ran biome on a.ts but couldn't parse its output (real note)");
    let o = BiomeOutcome::FallbackText { stdout: String::new(), stderr: "   \n".to_string(), exit_code: Some(0) };
    assert_eq!(system_message("a.ts", &o), "cc-essentials: ran biome on a.ts but couldn't parse its output");
}

#[test]
fn system_message_fallback_exit_codes() {
    let o = BiomeOutcome::FallbackText { stdout: String::new(), stderr: "boom".to_string(), exit_code: None };
    assert_eq!(system_message("a.ts", &o), "cc-essentials: biome error running against a.ts (exit None): boom");
    let o = BiomeOutcome::FallbackText { stdout: String::new(), stderr: "boom".to_string(), exit_code: Some(-3) };
    assert_eq!(system_message("a.ts", &o), "cc-essentials: biome error running against a.ts (exit Some(-3)): boom");
}

#[test]
fn format_loc_fallbacks() {
    let d = Diagnostic { severity: Severity::default(), message: String::new(), category: None, location: None };
    assert_eq!(format_loc(&d), "?:0:0");
    let d = Diagnostic {
        severity: Severity::Hint,
        message: String::new(),
        category: None,
        location: Some(Location {
            path: Some(PathOrObject::Object("{\"file\":\"a.ts\"}".to_string())),
            start: None,
            end: None,
            span: None,
            source_code: None,
        }),
    };
    assert_eq!(format_loc(&d), "{\"file\":\"a.ts\"}:0:0");
}

#[test]
fn line_col_from_span_counts_utf8_bytes() {
    let loc = Location {
        path: None,
        start: None,
        end: None,
        span: Some((7, 8)),
        source_code: Some("é\nab\ncd".to_string()),
    };
    // 'é' takes bytes 0-1, so 'c' starts at byte 6 and 'd' at byte 7.
    assert_eq!(line_col(&loc), Some((3, 2)));
    let past_end = Location { span: Some((100, 101)), ..loc };
    assert_eq!(line_col(&past_end), Some((3, 3)));
    let explicit = Location {
        path: None,
        start: Some(Position { line: Some(7), column: Some(9) }),
        end: None,
        span: Some((0, 0)),
        source_code: Some("x".to_string()),
    };
    assert_eq!(line_col(&explicit), Some((7, 9)));
    let half = Location {
        path: None,
        start: Some(Position { line: Some(7), column: None }),
        end: None,
        span: None,
        source_code: None,
    };
    assert_eq!(line_col(&half), None);
}

#[test]
fn labels_ranks_and_plural() {
    assert_eq!(plural(1), "");
    assert_eq!(plural(0), "s");
    assert_eq!(plural(2), "s");
    assert_eq!(severity_rank(Severity::Fatal), 0);
    assert_eq!(severity_rank(Severity::Info), 4);
    assert_eq!(severity_label(Severity::Warning), "warning");
    assert_eq!(severity_label(Severity::Hint), "hint");
}
