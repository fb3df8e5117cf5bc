//! The `last-error.json` dump written when Biome's output could not be used.
use vstd::prelude::*;
use crate::text::{byte_len, chars_to_string, to_chars, utf8_prefix};

verus! {

/// Everything needed to reproduce a Biome run whose output could not be used.
pub struct LastErrorPayload {
    pub ts_unix_ms: u128,
    /// `fallback_text` or `spawn_failed`.
    pub event: String,
    pub tool_name: String,
    pub file_path: String,
    pub biome_binary: Option<String>,
    pub biome_config: Option<String>,
    pub argv: Vec<String>,
    pub cwd: Option<String>,
    pub exit_code: Option<i32>,
    pub stdout_first_4k: String,
    pub stderr_first_4k: String,
    pub error: Option<String>,
}

/// The longest prefix of `s` that takes at most `max_bytes` bytes in UTF-8.
pub open spec fn utf8_truncated(s: Seq<char>, max_bytes: nat, r: Seq<char>) -> bool {
    &&& r.len() <= s.len()
    &&& r == s.take(r.len() as int)
    &&& byte_len(r) <= max_bytes
    &&& r.len() == s.len() || byte_len(s.take((r.len() + 1) as int)) > max_bytes
}

/// Truncate a string to at most `max_bytes` bytes, cutting only at a character
/// boundary: the longest prefix that fits.
pub fn truncate_utf8(s: &str, max_bytes: usize) -> (r: String)
    ensures
        utf8_truncated(s@, max_bytes as nat, r@),
{
    let chars = to_chars(s);
    let prefix = utf8_prefix(&chars, max_bytes);
    chars_to_string(&prefix)
}

} // verus!
