//! The decisions of a post-tool hook run: which events to act on, what to run Biome
//! on, and what to answer.
use vstd::prelude::*;
use crate::error_dump::{truncate_utf8, utf8_truncated, LastErrorPayload};
use crate::hook_io::{opt_seq, HookInput, HookOutput, HookSpecificOutput};
use crate::paths::{
    path_extension, path_file_name, path_parent, path_strip_prefix, std_extension, std_file_name,
    std_parent, std_strip_prefix,
};
use crate::schema::CheckOutput;
use crate::summary::{additional_context, spec_additional_context, spec_system_message, system_message, BiomeOutcome, opt_view};
use crate::text::{ascii_lower_all, chars_eq_str, lower_ascii, to_chars};

verus! {

// ---------------------------------------------------------------------------
// Which events are acted on
// ---------------------------------------------------------------------------

/// Extensions Biome is run on, compared without regard to ASCII case.
pub open spec fn supported_extension(e: Seq<char>) -> bool {
    let l = ascii_lower_all(e);
    ||| l == "js"@
    ||| l == "jsx"@
    ||| l == "ts"@
    ||| l == "tsx"@
    ||| l == "mjs"@
    ||| l == "cjs"@
    ||| l == "mts"@
    ||| l == "cts"@
    ||| l == "json"@
    ||| l == "jsonc"@
}

pub open spec fn spec_is_supported(path: Seq<char>) -> bool {
    match std_extension(path) {
        Some(e) => supported_extension(e),
        None => false,
    }
}

/// Whether the file's extension is one Biome handles (JS/TS/JSON family).
pub fn is_supported_extension(path: &str) -> (r: bool)
    ensures
        r == spec_is_supported(path@),
{
    let ext = match path_extension(path) {
        Some(e) => e,
        None => return false,
    };
    let chars = to_chars(ext.as_str());
    let l = lower_ascii(&chars);
    chars_eq_str(&l, "js") || chars_eq_str(&l, "jsx") || chars_eq_str(&l, "ts") || chars_eq_str(
        &l,
        "tsx",
    ) || chars_eq_str(&l, "mjs") || chars_eq_str(&l, "cjs") || chars_eq_str(&l, "mts")
        || chars_eq_str(&l, "cts") || chars_eq_str(&l, "json") || chars_eq_str(&l, "jsonc")
}

/// The tools whose calls write a file.
pub open spec fn is_file_tool(name: Seq<char>) -> bool {
    name == "Write"@ || name == "Edit"@ || name == "MultiEdit"@
}

pub fn file_tool(name: &str) -> (r: bool)
    ensures
        r == is_file_tool(name@),
{
    let n = to_chars(name);
    chars_eq_str(&n, "Write") || chars_eq_str(&n, "Edit") || chars_eq_str(&n, "MultiEdit")
}

/// Why a hook run did nothing.
#[derive(Clone, Copy, Debug, PartialEq, Eq, Structural)]
pub enum HookSkip {
    StdinParseFailed,
    UnsupportedTool,
    MissingFilePath,
    UnsupportedExtension,
    MissingFile,
    NoBiome,
    NoConfigParent,
}

pub open spec fn skip_event(s: HookSkip) -> Seq<char> {
    match s {
        HookSkip::StdinParseFailed => "hook.stdin_parse_failed"@,
        HookSkip::UnsupportedTool => "hook.skip_unsupported_tool"@,
        HookSkip::MissingFilePath => "hook.skip_missing_file_path"@,
        HookSkip::UnsupportedExtension => "hook.skip_unsupported_extension"@,
        HookSkip::MissingFile => "hook.skip_missing_file"@,
        HookSkip::NoBiome => "hook.skip_no_biome"@,
        HookSkip::NoConfigParent => "hook.no_config_parent"@,
    }
}

impl HookSkip {
    /// The log event recorded for this skip.
    pub fn event_name(&self) -> (r: &'static str)
        ensures
            r@ == skip_event(*self),
    {
        match self {
            HookSkip::StdinParseFailed => "hook.stdin_parse_failed",
            HookSkip::UnsupportedTool => "hook.skip_unsupported_tool",
            HookSkip::MissingFilePath => "hook.skip_missing_file_path",
            HookSkip::UnsupportedExtension => "hook.skip_unsupported_extension",
            HookSkip::MissingFile => "hook.skip_missing_file",
            HookSkip::NoBiome => "hook.skip_no_biome",
            HookSkip::NoConfigParent => "hook.no_config_parent",
        }
    }
}

/// What to do with a post-tool event.
pub enum HookPlan {
    Skip(HookSkip),
    /// Run Biome on this file, if it exists and has a Biome setup.
    Check(String),
}

pub open spec fn spec_plan_hook(input: HookInput) -> Result<Seq<char>, HookSkip> {
    if !is_file_tool(input.tool_name@) {
        Err(HookSkip::UnsupportedTool)
    } else {
        match input.tool_input.file_path {
            None => Err(HookSkip::MissingFilePath),
            Some(p) => if spec_is_supported(p@) {
                Ok(p@)
            } else {
                Err(HookSkip::UnsupportedExtension)
            },
        }
    }
}

pub open spec fn plan_view(p: HookPlan) -> Result<Seq<char>, HookSkip> {
    match p {
        HookPlan::Skip(s) => Err(s),
        HookPlan::Check(f) => Ok(f@),
    }
}

/// Only Write / Edit / MultiEdit events with a `file_path` of a supported extension
/// are acted on.
pub fn plan_hook(input: &HookInput) -> (r: HookPlan)
    ensures
        plan_view(r) == spec_plan_hook(*input),
{
    if !file_tool(input.tool_name.as_str()) {
        return HookPlan::Skip(HookSkip::UnsupportedTool);
    }
    match &input.tool_input.file_path {
        None => HookPlan::Skip(HookSkip::MissingFilePath),
        Some(p) => {
            if is_supported_extension(p.as_str()) {
                HookPlan::Check(p.clone())
            } else {
                HookPlan::Skip(HookSkip::UnsupportedExtension)
            }
        },
    }
}

// ---------------------------------------------------------------------------
// Running Biome
// ---------------------------------------------------------------------------

pub open spec fn spec_start_dir(file_path: Seq<char>) -> Seq<char> {
    match std_parent(file_path) {
        Some(p) => p,
        None => "."@,
    }
}

/// Where detection starts for a file: its parent directory, or `.` when it has none.
pub fn start_dir_of(file_path: &str) -> (r: String)
    ensures
        r@ == spec_start_dir(file_path@),
{
    match path_parent(file_path) {
        Some(p) => p,
        None => ".".to_string(),
    }
}

/// The directory Biome runs in: the one holding the config; `None` for a config path
/// without a parent.
pub fn config_dir_of(config_path: &str) -> (r: Option<String>)
    ensures
        opt_seq(r) == std_parent(config_path@),
{
    path_parent(config_path)
}

pub open spec fn spec_relative_target(file: Seq<char>, config_dir: Seq<char>) -> Seq<char> {
    match std_strip_prefix(file, config_dir) {
        Some(r) => r,
        None => file,
    }
}

/// The file as Biome is given it: relative to the config's directory (Biome's working
/// directory), or as it is when it does not lie under that directory.
pub fn relative_target(file: &str, config_dir: &str) -> (r: String)
    ensures
        r@ == spec_relative_target(file@, config_dir@),
{
    match path_strip_prefix(file, config_dir) {
        Some(r) => r,
        None => file.to_string(),
    }
}

pub open spec fn spec_biome_argv(relative: Seq<char>) -> Seq<Seq<char>> {
    seq!["check"@, "--write"@, "--reporter=json"@, relative]
}

/// `check --write --reporter=json <file>`.
pub fn biome_argv(relative: &str) -> (r: Vec<String>)
    ensures
        r@.map_values(|s: String| s@) == spec_biome_argv(relative@),
{
    let mut r: Vec<String> = Vec::new();
    r.push("check".to_string());
    r.push("--write".to_string());
    r.push("--reporter=json".to_string());
    r.push(relative.to_string());
    assert(r@.map_values(|s: String| s@) =~= spec_biome_argv(relative@));
    r
}

pub open spec fn spec_display_name(file_path: Seq<char>) -> Seq<char> {
    match std_file_name(file_path) {
        Some(n) => n,
        None => file_path,
    }
}

/// How messages name the file: its file name, or the whole path when it has none.
pub fn display_name(file_path: &str) -> (r: String)
    ensures
        r@ == spec_display_name(file_path@),
{
    match path_file_name(file_path) {
        Some(n) => n,
        None => file_path.to_string(),
    }
}

pub open spec fn outcome_countable(o: BiomeOutcome) -> bool {
    o matches BiomeOutcome::Parsed { check, .. } ==> check.countable()
}

pub open spec fn spec_outcome_kind(o: BiomeOutcome) -> Seq<char> {
    match o {
        BiomeOutcome::Parsed { .. } => "parsed"@,
        BiomeOutcome::FallbackText { .. } => "fallback_text"@,
        BiomeOutcome::SpawnFailed { .. } => "spawn_failed"@,
    }
}

pub fn outcome_kind(o: &BiomeOutcome) -> (r: &'static str)
    ensures
        r@ == spec_outcome_kind(*o),
{
    match o {
        BiomeOutcome::Parsed { .. } => "parsed",
        BiomeOutcome::FallbackText { .. } => "fallback_text",
        BiomeOutcome::SpawnFailed { .. } => "spawn_failed",
    }
}

// ---------------------------------------------------------------------------
// The `hook.completed` log event
// ---------------------------------------------------------------------------

/// How many bytes of Biome's output a `hook.completed` event keeps.
pub const LOG_OUTPUT_BYTES: usize = 1024;

/// The fields of a `hook.completed` event; `None` fields are left out.
pub struct CompletedFields {
    pub path: String,
    pub outcome: &'static str,
    pub has_additional_context: bool,
    /// Present for output that was not understood (its exit code, or null) and for a
    /// failed start (null).
    pub exit_code: Option<Option<i32>>,
    pub stdout_first_1k: Option<String>,
    pub stderr_first_1k: Option<String>,
    pub error: Option<String>,
}

/// What a `hook.completed` event records of a checked file: always its path, the
/// outcome's kind and whether the model got context; for output that was not
/// understood also the exit code and the first `LOG_OUTPUT_BYTES` bytes of stdout and
/// stderr; for a failed start a null exit code and the error.
pub fn completed_fields(file_path: &str, outcome: &BiomeOutcome, has_additional_context: bool) -> (r: CompletedFields)
    ensures
        r.path@ == file_path@,
        r.outcome@ == spec_outcome_kind(*outcome),
        r.has_additional_context == has_additional_context,
        match *outcome {
            BiomeOutcome::Parsed { .. } => r.exit_code is None && r.stdout_first_1k is None
                && r.stderr_first_1k is None && r.error is None,
            BiomeOutcome::FallbackText { stdout, stderr, exit_code } => {
                &&& r.exit_code == Some(exit_code)
                &&& r.stdout_first_1k matches Some(o) && utf8_truncated(stdout@, LOG_OUTPUT_BYTES as nat, o@)
                &&& r.stderr_first_1k matches Some(e) && utf8_truncated(stderr@, LOG_OUTPUT_BYTES as nat, e@)
                &&& r.error is None
            },
            BiomeOutcome::SpawnFailed { error } => {
                &&& r.exit_code == Some(None::<i32>)
                &&& r.stdout_first_1k is None
                &&& r.stderr_first_1k is None
                &&& r.error matches Some(e) && e@ == error@
            },
        },
{
    let base = CompletedFields {
        path: file_path.to_string(),
        outcome: outcome_kind(outcome),
        has_additional_context,
        exit_code: None,
        stdout_first_1k: None,
        stderr_first_1k: None,
        error: None,
    };
    match outcome {
        BiomeOutcome::Parsed { .. } => base,
        BiomeOutcome::FallbackText { stdout, stderr, exit_code } => CompletedFields {
            exit_code: Some(*exit_code),
            stdout_first_1k: Some(truncate_utf8(stdout.as_str(), LOG_OUTPUT_BYTES)),
            stderr_first_1k: Some(truncate_utf8(stderr.as_str(), LOG_OUTPUT_BYTES)),
            ..base
        },
        BiomeOutcome::SpawnFailed { error } => CompletedFields {
            exit_code: Some(None),
            error: Some(error.clone()),
            ..base
        },
    }
}

// ---------------------------------------------------------------------------
// The answer
// ---------------------------------------------------------------------------

/// The two messages for one checked file.
pub struct FileHookResult {
    pub system_message: String,
    pub additional_context: Option<String>,
}

pub open spec fn spec_file_context(display: Seq<char>, o: BiomeOutcome) -> Option<Seq<char>> {
    match o {
        BiomeOutcome::Parsed { check, .. } => spec_additional_context(check, display),
        _ => None,
    }
}

/// The user line for any outcome; model context only when Biome's report was read
/// and has findings.
pub fn file_result(display: &str, outcome: &BiomeOutcome) -> (r: FileHookResult)
    requires
        outcome_countable(*outcome),
    ensures
        r.system_message@ == spec_system_message(display@, *outcome),
        opt_view(r.additional_context) == spec_file_context(display@, *outcome),
{
    let sys = system_message(display, outcome);
    let additional = match outcome {
        BiomeOutcome::Parsed { check, .. } => additional_context(check, display),
        _ => None,
    };
    FileHookResult { system_message: sys, additional_context: additional }
}

/// The answer for one checked file: both channels, tagged `PostToolUse`.
pub fn hook_output_for(result: FileHookResult) -> (r: HookOutput)
    ensures
        r.system_message == Some(result.system_message),
        r.hook_specific_output matches Some(h) && h.hook_event_name@ == "PostToolUse"@
            && h.additional_context == result.additional_context,
{
    HookOutput {
        system_message: Some(result.system_message),
        hook_specific_output: Some(
            HookSpecificOutput {
                hook_event_name: "PostToolUse".to_string(),
                additional_context: result.additional_context,
            },
        ),
    }
}

// ---------------------------------------------------------------------------
// The error dump
// ---------------------------------------------------------------------------

/// Bytes of Biome's output kept in the dump.
pub const DUMP_OUTPUT_BYTES: usize = 4096;

/// The dump for a run whose Biome output could not be used; none after a parsed run.
pub fn last_error_payload(
    ts_unix_ms: u128,
    tool_name: String,
    file_path: String,
    biome_binary: String,
    biome_config: String,
    argv: Vec<String>,
    cwd: String,
    outcome: &BiomeOutcome,
) -> (r: Option<LastErrorPayload>)
    ensures
        outcome is Parsed <==> r is None,
        r matches Some(p) ==> {
            &&& p.ts_unix_ms == ts_unix_ms
            &&& p.event@ == spec_outcome_kind(*outcome)
            &&& p.tool_name == tool_name
            &&& p.file_path == file_path
            &&& p.biome_binary == Some(biome_binary)
            &&& p.biome_config == Some(biome_config)
            &&& p.argv == argv
            &&& p.cwd == Some(cwd)
            &&& match *outcome {
                BiomeOutcome::FallbackText { stdout, stderr, exit_code } => {
                    &&& p.exit_code == exit_code
                    &&& utf8_truncated(stdout@, DUMP_OUTPUT_BYTES as nat, p.stdout_first_4k@)
                    &&& utf8_truncated(stderr@, DUMP_OUTPUT_BYTES as nat, p.stderr_first_4k@)
                    &&& p.error is None
                },
                BiomeOutcome::SpawnFailed { error } => {
                    &&& p.exit_code is None
                    &&& p.stdout_first_4k@ == Seq::<char>::empty()
                    &&& p.stderr_first_4k@ == Seq::<char>::empty()
                    &&& p.error == Some(error)
                },
                _ => false,
            }
        },
{
    match outcome {
        BiomeOutcome::Parsed { .. } => None,
        BiomeOutcome::FallbackText { stdout, stderr, exit_code } => Some(
            LastErrorPayload {
                ts_unix_ms,
                event: "fallback_text".to_string(),
                tool_name,
                file_path,
                biome_binary: Some(biome_binary),
                biome_config: Some(biome_config),
                argv,
                cwd: Some(cwd),
                exit_code: *exit_code,
                stdout_first_4k: truncate_utf8(stdout.as_str(), DUMP_OUTPUT_BYTES),
                stderr_first_4k: truncate_utf8(stderr.as_str(), DUMP_OUTPUT_BYTES),
                error: None,
            },
        ),
        BiomeOutcome::SpawnFailed { error } => Some(
            LastErrorPayload {
                ts_unix_ms,
                event: "spawn_failed".to_string(),
                tool_name,
                file_path,
                biome_binary: Some(biome_binary),
                biome_config: Some(biome_config),
                argv,
                cwd: Some(cwd),
                exit_code: None,
                stdout_first_4k: String::new(),
                stderr_first_4k: String::new(),
                error: Some(error.clone()),
            },
        ),
    }
}

} // verus!
