//! Decision and text logic of a post-tool hook for coding agents (and Codex) that formats and
//! lints JavaScript/TypeScript files with Biome, with its `doctor` and `logs` reports.
//!
//! Reading files, running processes and the environment stay with the caller: the
//! functions here take what those gave and decide what to do and what to print.
pub mod cache;
pub mod codex;
pub mod detect;
pub mod doctor;
pub mod error_dump;
pub mod hook_io;
pub mod hooks;
pub mod laws;
pub mod logs;
pub mod paths;
pub mod resolve;
pub mod schema;
pub mod summary;
pub mod text;
