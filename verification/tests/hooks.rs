use cc_essentials::hook_io::{response_text, HookInput, HookOutput, HookSpecificOutput, ToolInput};
use cc_essentials::hooks::{
    completed_fields, LOG_OUTPUT_BYTES,
    biome_argv, display_name, file_result, hook_output_for, is_supported_extension, last_error_payload,
    outcome_kind, plan_hook, relative_target, HookPlan, HookSkip,
};
use cc_essentials::schema::{CheckOutput, Summary};
use cc_essentials::summary::BiomeOutcome;

#[test]
fn extension_detection() {
    for ext in ["ts", "tsx", "js", "jsx", "mjs", "cjs", "mts", "cts", "json", "jsonc"] {
        assert!(is_supported_extension(&format!("foo.{ext}")));
    }
    for ext in ["md", "rs", "py", "go", "html", "css"] {
        assert!(!is_supported_extension(&format!("foo.{ext}")));
    }
    assert!(!is_supported_extension("no_extension"));
    assert!(is_supported_extension("FOO.TS"));
}

#[test]
fn serializes_hook_output_with_both_fields() {
    let out = HookOutput {
        system_message: Some("cc-essentials: formatted foo.ts (0 warnings)".to_string()),
        hook_specific_output: Some(HookSpecificOutput {
            hook_event_name: "PostToolUse".to_string(),
            additional_context: Some("lint warning: foo".to_string()),
        }),
    };
    let s = out.to_json().unwrap();
    assert!(s.contains(r#""systemMessage""#));
    assert!(s.contains(r#""hookSpecificOutput""#));
    assert!(s.contains(r#""hookEventName":"PostToolUse""#));
    assert!(s.contains(r#""additionalContext""#));
}

#[test]
fn serializes_empty_hook_output_as_empty_object() {
    let out = HookOutput::empty();
    let s = out.to_json().unwrap();
    assert_eq!(s, "{}");
}

#[test]
fn serializes_exact_json_with_escapes() {
    let out = HookOutput {
        system_message: Some("say \"hi\"\n".to_string()),
        hook_specific_output: Some(HookSpecificOutput { hook_event_name: "PostToolUse".to_string(), additional_context: None }),
    };
    assert_eq!(out.to_json().unwrap(), r#"{"systemMessage":"say \"hi\"\n","hookSpecificOutput":{"hookEventName":"PostToolUse"}}"#);
    let only_specific = HookOutput {
        system_message: None,
        hook_specific_output: Some(HookSpecificOutput { hook_event_name: "E".to_string(), additional_context: Some("c".to_string()) }),
    };
    assert_eq!(response_text(&only_specific), r#"{"hookSpecificOutput":{"hookEventName":"E","additionalContext":"c"}}"#);
}

fn input(tool: &str, path: Option<&str>) -> HookInput {
    HookInput { tool_name: tool.to_string(), tool_input: ToolInput { file_path: path.map(|p| p.to_string()) }, cwd: None }
}

#[test]
fn plan_hook_decisions() {
    assert!(matches!(plan_hook(&input("Bash", None)), HookPlan::Skip(HookSkip::UnsupportedTool)));
    assert!(matches!(plan_hook(&input("Write", None)), HookPlan::Skip(HookSkip::MissingFilePath)));
    assert!(matches!(plan_hook(&input("Write", Some("/tmp/foo.md"))), HookPlan::Skip(HookSkip::UnsupportedExtension)));
    match plan_hook(&input("MultiEdit", Some("/abs/baz.ts"))) {
        HookPlan::Check(p) => assert_eq!(p, "/abs/baz.ts"),
        HookPlan::Skip(s) => panic!("unexpected skip {s:?}"),
    }
    assert!(matches!(plan_hook(&input("Edit", Some("/abs/bar.JSONC"))), HookPlan::Check(_)));
    assert_eq!(HookSkip::UnsupportedTool.event_name(), "hook.skip_unsupported_tool");
    assert_eq!(HookSkip::NoBiome.event_name(), "hook.skip_no_biome");
}

#[test]
fn argv_relative_and_display() {
    assert_eq!(biome_argv("hello.ts"), vec!["check", "--write", "--reporter=json", "hello.ts"]);
    assert_eq!(relative_target("/p/src/a.ts", "/p"), "src/a.ts");
    assert_eq!(relative_target("/elsewhere/a.ts", "/p"), "/elsewhere/a.ts");
    assert_eq!(display_name("/p/src/a.ts"), "a.ts");
    assert_eq!(display_name("/"), "/");
}

fn clean_check(changed: u64) -> CheckOutput {
    let mut summary = Summary::default();
    summary.changed = changed;
    CheckOutput { summary, diagnostics: Vec::new(), command: None }
}

#[test]
fn clean_run_answers_without_context() {
    let outcome = BiomeOutcome::Parsed { check: clean_check(1), relative_file: "foo.ts".to_string(), exit_code: Some(0) };
    let r = file_result("foo.ts", &outcome);
    assert_eq!(r.system_message, "cc-essentials: formatted foo.ts");
    assert!(r.additional_context.is_none());
    let out = hook_output_for(r);
    assert_eq!(
        response_text(&out),
        r#"{"systemMessage":"cc-essentials: formatted foo.ts","hookSpecificOutput":{"hookEventName":"PostToolUse"}}"#
    );
    assert_eq!(outcome_kind(&outcome), "parsed");
}

#[test]
fn last_error_payloads() {
    let argv: Vec<String> = vec!["check".to_string(), "--write".to_string()];
    let parsed = BiomeOutcome::Parsed { check: clean_check(0), relative_file: "a.ts".to_string(), exit_code: Some(0) };
    assert!(last_error_payload(1, "Write".into(), "/a.ts".into(), "/b".into(), "/c".into(), argv.clone(), "/".into(), &parsed).is_none());
    let fallback = BiomeOutcome::FallbackText { stdout: "x".repeat(5000), stderr: "err".to_string(), exit_code: Some(1) };
    let p = last_error_payload(1713123456789, "Write".into(), "/a.ts".into(), "/b".into(), "/c".into(), argv.clone(), "/p".into(), &fallback).unwrap();
    assert_eq!(p.event, "fallback_text");
    assert_eq!(p.ts_unix_ms, 1713123456789);
    assert_eq!(p.stdout_first_4k.len(), 4096);
    assert_eq!(p.stderr_first_4k, "err");
    assert_eq!(p.exit_code, Some(1));
    assert!(p.error.is_none());
    let spawn = BiomeOutcome::SpawnFailed { error: "no such file".to_string() };
    let p = last_error_payload(1, "Edit".into(), "/a.ts".into(), "/b".into(), "/c".into(), argv, "/p".into(), &spawn).unwrap();
    assert_eq!(p.event, "spawn_failed");
    assert_eq!(p.error.as_deref(), Some("no such file"));
    assert_eq!(p.stdout_first_4k, "");
    assert_eq!(outcome_kind(&spawn), "spawn_failed");
}

/// A skipped event is answered with the empty object: no `systemMessage`.
fn skipped_answer(plan: HookPlan) -> String {
    match plan {
        HookPlan::Skip(_) => response_text(&HookOutput::empty()),
        HookPlan::Check(p) => panic!("expected a skip, got a check of {p}"),
    }
}

#[test]
fn exit_0_on_unknown_tool() {
    let answer = skipped_answer(plan_hook(&input("Bash", None)));
    assert!(!answer.contains("systemMessage"));
    assert_eq!(answer, "{}");
}

#[test]
fn exit_0_on_unsupported_extension() {
    let answer = skipped_answer(plan_hook(&input("Write", Some("/tmp/foo.md"))));
    assert!(!answer.contains("systemMessage"));
}

#[test]
fn exit_0_on_missing_file_path() {
    let answer = skipped_answer(plan_hook(&input("Write", None)));
    assert!(!answer.contains("systemMessage"));
}

#[test]
fn exit_0_when_file_does_not_exist() {
    // The event itself is in scope; whether the file is there is looked up afterwards.
    match plan_hook(&input("Write", Some("/tmp/does_not_exist_xyz_123.ts"))) {
        HookPlan::Check(p) => assert_eq!(p, "/tmp/does_not_exist_xyz_123.ts"),
        HookPlan::Skip(s) => panic!("unexpected skip {s:?}"),
    }
}

#[test]
fn completed_event_fields_per_outcome() {
    let f = completed_fields("/w/a.ts", &BiomeOutcome::SpawnFailed { error: "no such file".to_string() }, false);
    assert_eq!(f.path, "/w/a.ts");
    assert_eq!(f.outcome, "spawn_failed");
    assert_eq!(f.exit_code, Some(None));
    assert_eq!(f.error.as_deref(), Some("no such file"));
    assert!(f.stdout_first_1k.is_none());
    let long = "x".repeat(3000);
    let f = completed_fields(
        "/w/a.ts",
        &BiomeOutcome::FallbackText { stdout: long.clone(), stderr: "bad".to_string(), exit_code: Some(2) },
        false,
    );
    assert_eq!(f.outcome, "fallback_text");
    assert_eq!(f.exit_code, Some(Some(2)));
    assert_eq!(f.stdout_first_1k.unwrap().len(), LOG_OUTPUT_BYTES);
    assert_eq!(f.stderr_first_1k.as_deref(), Some("bad"));
    assert!(f.error.is_none());
    let f = completed_fields("/w/a.ts", &BiomeOutcome::Parsed { check: clean_check(1), relative_file: "a.ts".to_string(), exit_code: Some(0) }, true);
    assert_eq!(f.outcome, "parsed");
    assert!(f.has_additional_context);
    assert!(f.exit_code.is_none() && f.stdout_first_1k.is_none() && f.error.is_none());
}
