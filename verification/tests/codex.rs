use cc_essentials::codex::{
    bash_paths_from_value, clean_token, codex_output, file_paths_from_value, output_for_results,
    parse_patch_paths, parse_redirect_paths, patch_paths_from_value, plan_codex, resolve_path,
    text_from_value, CodexHookInput, CodexSkip, ToolValue,
};
use cc_essentials::hook_io::response_text;
use cc_essentials::hooks::FileHookResult;

#[test]
fn parses_multiple_patch_operations() {
    let raw = "*** Begin Patch\n*** Update File: src/one.ts\n@@\n*** Add File: src/two.ts\n+new\n*** End Patch\n";
    assert_eq!(parse_patch_paths(raw), vec!["src/one.ts".to_string(), "src/two.ts".to_string()]);
}

#[test]
fn move_replaces_source_path() {
    let raw = "*** Begin Patch\n*** Update File: src/one.ts\n*** Move to: src/two.ts\n*** End Patch\n";
    assert_eq!(parse_patch_paths(raw), vec!["src/two.ts".to_string()]);
}

#[test]
fn accepts_string_and_object_codex_inputs() {
    let raw = "*** Begin Patch\n*** Update File: foo.ts\n*** End Patch";
    assert_eq!(patch_paths_from_value(&ToolValue::Text(raw.to_string())), vec!["foo.ts".to_string()]);
    assert_eq!(
        patch_paths_from_value(&ToolValue::Fields(vec![("command".to_string(), raw.to_string())])),
        vec!["foo.ts".to_string()]
    );
}

#[test]
fn parses_bash_patch_and_redirect() {
    let patch = "apply_patch <<'PATCH'\n*** Begin Patch\n*** Update File: foo.ts\n*** End Patch\nPATCH";
    assert_eq!(
        bash_paths_from_value(&ToolValue::Fields(vec![("command".to_string(), patch.to_string())])),
        vec!["foo.ts".to_string()]
    );
    assert_eq!(
        bash_paths_from_value(&ToolValue::Fields(vec![("command".to_string(), "cat <<'EOF' > foo.ts".to_string())])),
        vec!["foo.ts".to_string()]
    );
}

// ---- more cases ----

#[test]
fn patch_lines_after_end_are_ignored_and_delete_counts() {
    let raw = "*** Begin Patch\r\n*** Delete File:  old.ts \r\n*** End Patch\r\n*** Add File: late.ts\n";
    assert_eq!(parse_patch_paths(raw), vec!["old.ts".to_string()]);
}

#[test]
fn move_without_operation_adds_path_and_blank_headers_are_skipped() {
    let raw = "*** Move to: moved.ts\n*** Add File:   \n*** Update File: a.ts\n*** Move to: b.ts\n";
    assert_eq!(parse_patch_paths(raw), vec!["moved.ts".to_string(), "b.ts".to_string()]);
    let raw = "*** Move to: moved.ts\n*** Update File: a.ts\n";
    assert_eq!(parse_patch_paths(raw), vec!["moved.ts".to_string(), "a.ts".to_string()]);
}

#[test]
fn redirects_tee_and_appends() {
    assert_eq!(parse_redirect_paths("echo hi | tee out.txt"), vec!["out.txt".to_string()]);
    assert_eq!(parse_redirect_paths("echo hi | tee -"), Vec::<String>::new());
    assert_eq!(parse_redirect_paths("echo hi >\"quoted.ts\""), vec!["quoted.ts".to_string()]);
    assert_eq!(parse_redirect_paths("echo hi >> log.txt"), Vec::<String>::new());
    assert_eq!(parse_redirect_paths("echo hi >>log.txt"), Vec::<String>::new());
    assert_eq!(parse_redirect_paths("echo >"), Vec::<String>::new());
    assert_eq!(parse_redirect_paths("a > x.ts\tb > 'y.ts'"), vec!["x.ts".to_string(), "y.ts".to_string()]);
}

#[test]
fn clean_token_strips_quotes() {
    assert_eq!(clean_token("'a.ts'"), Some("a.ts".to_string()));
    assert_eq!(clean_token("\"\"''"), None);
    assert_eq!(clean_token("x"), Some("x".to_string()));
}

#[test]
fn text_from_value_prefers_field_order() {
    let v = ToolValue::Fields(vec![
        ("patch".to_string(), "P".to_string()),
        ("input".to_string(), "I".to_string()),
    ]);
    assert_eq!(text_from_value(&v, &["command", "input", "patch"]), Some("I".to_string()));
    assert_eq!(text_from_value(&v, &["command"]), None);
    assert_eq!(text_from_value(&ToolValue::Other, &["command"]), None);
}

#[test]
fn file_paths_from_value_cases() {
    let v = ToolValue::Fields(vec![("filePath".to_string(), "src/a.ts".to_string())]);
    assert_eq!(file_paths_from_value(&v), vec!["src/a.ts".to_string()]);
    let v = ToolValue::Fields(vec![("file_path".to_string(), "   ".to_string())]);
    assert_eq!(file_paths_from_value(&v), Vec::<String>::new());
}

#[test]
fn resolve_path_cases() {
    assert_eq!(resolve_path("  /abs/a.ts ", None), Some("/abs/a.ts".to_string()));
    assert_eq!(resolve_path("a.ts", Some("/proj")), Some("/proj/a.ts".to_string()));
    assert_eq!(resolve_path("a.ts", Some("/proj/")), Some("/proj/a.ts".to_string()));
    assert_eq!(resolve_path("a.ts", None), None);
    assert_eq!(resolve_path("   ", Some("/proj")), None);
}

fn codex_input(event: Option<&str>, cwd: Option<&str>, tool: &str, value: ToolValue) -> CodexHookInput {
    CodexHookInput {
        hook_event_name: event.map(|e| e.to_string()),
        cwd: cwd.map(|c| c.to_string()),
        tool_name: tool.to_string(),
        tool_input: value,
    }
}

#[test]
fn plan_codex_decisions() {
    let patch = "*** Begin Patch\n*** Update File: foo.ts\n*** End Patch";
    let p = plan_codex(&codex_input(Some("PreToolUse"), Some("/tmp"), "apply_patch", ToolValue::Text(patch.to_string())));
    assert_eq!(p.skip, Some(CodexSkip::WrongEvent));
    let p = plan_codex(&codex_input(
        Some("PostToolUse"),
        Some("/tmp"),
        "Bash",
        ToolValue::Fields(vec![("command".to_string(), "printf hello".to_string())]),
    ));
    assert_eq!(p.skip, Some(CodexSkip::NoFilePaths));
    let p = plan_codex(&codex_input(None, Some("/tmp"), "Read", ToolValue::Other));
    assert_eq!(p.skip, Some(CodexSkip::UnsupportedTool));
    let dup = "*** Update File: a.ts\n*** Update File: /proj/a.ts\n*** Update File: b.ts\n";
    let p = plan_codex(&codex_input(Some("PostToolUse"), Some("/proj"), "apply_patch", ToolValue::Text(dup.to_string())));
    assert_eq!(p.skip, None);
    assert_eq!(p.paths, vec!["/proj/a.ts".to_string(), "/proj/b.ts".to_string()]);
    let p = plan_codex(&codex_input(None, None, "apply_patch", ToolValue::Text(dup.to_string())));
    assert_eq!(p.paths, vec!["/proj/a.ts".to_string()]);
    assert_eq!(p.unresolved, vec!["a.ts".to_string(), "b.ts".to_string()]);
}

#[test]
fn output_for_results_joins() {
    let out = output_for_results(vec![
        FileHookResult { system_message: "one".to_string(), additional_context: Some("c1".to_string()) },
        FileHookResult { system_message: "two".to_string(), additional_context: None },
        FileHookResult { system_message: "three".to_string(), additional_context: Some("c3".to_string()) },
    ]);
    assert_eq!(out.system_message.as_deref(), Some("one\ntwo\nthree"));
    let h = out.hook_specific_output.unwrap();
    assert_eq!(h.hook_event_name, "PostToolUse");
    assert_eq!(h.additional_context.as_deref(), Some("c1\n\nc3"));
    let out = output_for_results(vec![FileHookResult { system_message: "m".to_string(), additional_context: None }]);
    assert!(out.hook_specific_output.unwrap().additional_context.is_none());
}

#[test]
fn codex_output_is_silent_without_results() {
    let out = codex_output(Vec::new());
    assert_eq!(response_text(&out), "{}");
}

#[test]
fn wrong_event_and_unsupported_tool_are_silent() {
    let patch = "*** Begin Patch\n*** Update File: foo.ts\n*** End Patch";
    let event = plan_codex(&codex_input(Some("PreToolUse"), Some("/tmp"), "apply_patch", ToolValue::Text(patch.to_string())));
    assert!(event.skip.is_some());
    assert!(event.paths.is_empty());
    assert_eq!(response_text(&codex_output(Vec::new())), "{}");

    let tool = plan_codex(&codex_input(
        Some("PostToolUse"),
        Some("/tmp"),
        "Bash",
        ToolValue::Fields(vec![("command".to_string(), "printf hello".to_string())]),
    ));
    assert!(tool.skip.is_some());
    assert!(tool.paths.is_empty());
    assert_eq!(response_text(&codex_output(Vec::new())), "{}");
}

#[test]
fn codex_output_carries_hook_specific_output() {
    let out = codex_output(vec![
        FileHookResult { system_message: "cc-essentials: formatted foo.ts (2 warnings)".to_string(), additional_context: Some("biome report for foo.ts".to_string()) },
    ]);
    assert_eq!(
        response_text(&out),
        r#"{"systemMessage":"cc-essentials: formatted foo.ts (2 warnings)","hookSpecificOutput":{"hookEventName":"PostToolUse","additionalContext":"biome report for foo.ts"}}"#
    );
}
