//! The `doctor` report.
use vstd::prelude::*;
use owo_colors::OwoColorize;
use crate::detect::{pm_name, DetectedProject};
use crate::text::{chars_to_string, push_str};

verus! {

/// Text rendered bold cyan: the cyan foreground code around the bold code, the text
/// and the reset, then the default-foreground code.
pub open spec fn bold_cyan(s: Seq<char>) -> Seq<char> {
    "\x1b[36m\x1b[1m"@ + s + "\x1b[0m\x1b[39m"@
}

/// Text rendered green: the green foreground code, the text, the default-foreground code.
pub open spec fn green(s: Seq<char>) -> Seq<char> {
    "\x1b[32m"@ + s + "\x1b[39m"@
}

/// Text rendered yellow: the yellow foreground code, the text, the default-foreground code.
pub open spec fn yellow(s: Seq<char>) -> Seq<char> {
    "\x1b[33m"@ + s + "\x1b[39m"@
}

/// Calls owo-colors' `bold().cyan()` and renders it. Claims that the result is
/// `bold_cyan` of the argument: `FgColorDisplay` writes the colour's code, its inner
/// `BoldDisplay` (which writes `\x1b[1m`, the text and `\x1b[0m`), then `\x1b[39m`.
#[verifier::external_body]
fn paint_bold_cyan(s: &str) -> (r: String)
    ensures
        r@ == bold_cyan(s@),
{
    s.bold().cyan().to_string()
}

/// Calls owo-colors' `green()` and renders it. Claims that the result is `green` of
/// the argument (`FgColorDisplay` writes `\x1b[32m`, the text, then `\x1b[39m`).
#[verifier::external_body]
fn paint_green(s: &str) -> (r: String)
    ensures
        r@ == green(s@),
{
    s.green().to_string()
}

/// Calls owo-colors' `yellow()` and renders it. Claims that the result is `yellow` of
/// the argument (`FgColorDisplay` writes `\x1b[33m`, the text, then `\x1b[39m`).
#[verifier::external_body]
fn paint_yellow(s: &str) -> (r: String)
    ensures
        r@ == yellow(s@),
{
    s.yellow().to_string()
}

/// How a piece of the report is emphasised on a terminal.
#[derive(Clone, Copy, Debug, PartialEq, Eq, Structural)]
pub enum Tone {
    Header,
    Good,
    Warning,
}

pub open spec fn toned(tone: Tone, s: Seq<char>, use_color: bool) -> Seq<char> {
    if !use_color {
        s
    } else {
        match tone {
            Tone::Header => bold_cyan(s),
            Tone::Good => green(s),
            Tone::Warning => yellow(s),
        }
    }
}

/// `s` in `tone` when colour is on, as it is otherwise.
pub fn paint(tone: Tone, s: &str, use_color: bool) -> (r: String)
    ensures
        r@ == toned(tone, s@, use_color),
{
    if !use_color {
        s.to_string()
    } else {
        match tone {
            Tone::Header => paint_bold_cyan(s),
            Tone::Good => paint_green(s),
            Tone::Warning => paint_yellow(s),
        }
    }
}

pub open spec fn repo_section(d: DetectedProject, c: bool) -> Seq<char> {
    match d.repo_root {
        Some(root) => "  git repo root: "@ + root@ + " "@ + toned(Tone::Good, "(found)"@, c) + "\n"@,
        None => "  git repo root: "@ + toned(Tone::Warning, "not in a git repo"@, c) + "\n"@,
    }
}

pub open spec fn pm_section(d: DetectedProject, c: bool) -> Seq<char> {
    match d.package_manager {
        Some((m, p)) => "  package manager: "@ + pm_name(m) + " ("@ + p@ + ") "@ + toned(
            Tone::Good,
            "(found)"@,
            c,
        ) + "\n"@,
        None => "  package manager: "@ + toned(
            Tone::Warning,
            "no lockfile found (not a JS/TS project?)"@,
            c,
        ) + "\n"@,
    }
}

pub open spec fn biome_section(d: DetectedProject, c: bool) -> Seq<char> {
    match d.biome {
        Some(b) => "  biome config: "@ + b.config_path@ + " "@ + toned(Tone::Good, "(found)"@, c)
            + "\n"@ + "  biome binary: "@ + b.binary_path@ + " "@ + toned(Tone::Good, "(found)"@, c)
            + "\n"@ + "  biome version: "@ + b.version@ + "\n"@,
        None => "  biome config: "@ + toned(
            Tone::Warning,
            "not configured (no biome.json / biome.jsonc found)"@,
            c,
        ) + "\n"@ + "  biome binary: "@ + toned(Tone::Warning, "not applicable"@, c) + "\n"@,
    }
}

/// The closing line: ready with Biome, partial with only a lockfile, unsupported otherwise.
pub open spec fn verdict_section(d: DetectedProject, c: bool) -> Seq<char> {
    (if d.biome is Some {
        toned(Tone::Good, "ready: biome detected"@, c)
    } else if d.package_manager is Some {
        toned(Tone::Warning, "partial: JS/TS project detected but no biome config"@, c)
    } else {
        toned(Tone::Warning, "not a supported project (no JS/TS lockfile, no biome config)"@, c)
    }) + "\n"@
}

/// The doctor report, one line per finding, each ending in a newline.
pub open spec fn doctor_report(d: DetectedProject, cache_dir: Seq<char>, c: bool) -> Seq<char> {
    toned(Tone::Header, "cc-essentials doctor"@, c) + "\n"@ + "  start: "@ + d.start@ + "\n"@
        + repo_section(d, c) + pm_section(d, c) + biome_section(d, c) + "  cache dir: "@ + cache_dir
        + "\n"@ + verdict_section(d, c)
}

fn push_toned(s: &mut Vec<char>, tone: Tone, text: &str, use_color: bool)
    ensures
        final(s)@ == old(s)@ + toned(tone, text@, use_color),
{
    let t = paint(tone, text, use_color);
    push_str(s, t.as_str());
}

fn push_repo(s: &mut Vec<char>, d: &DetectedProject, use_color: bool)
    ensures
        final(s)@ == old(s)@ + repo_section(*d, use_color),
{
    match &d.repo_root {
        Some(root) => {
            push_str(s, "  git repo root: ");
            push_str(s, root.as_str());
            push_str(s, " ");
            push_toned(s, Tone::Good, "(found)", use_color);
            push_str(s, "\n");
        },
        None => {
            push_str(s, "  git repo root: ");
            push_toned(s, Tone::Warning, "not in a git repo", use_color);
            push_str(s, "\n");
        },
    }
    assert(s@ =~= old(s)@ + repo_section(*d, use_color));
}

fn push_pm(s: &mut Vec<char>, d: &DetectedProject, use_color: bool)
    ensures
        final(s)@ == old(s)@ + pm_section(*d, use_color),
{
    match &d.package_manager {
        Some((m, p)) => {
            push_str(s, "  package manager: ");
            push_str(s, m.debug_name());
            push_str(s, " (");
            push_str(s, p.as_str());
            push_str(s, ") ");
            push_toned(s, Tone::Good, "(found)", use_color);
            push_str(s, "\n");
        },
        None => {
            push_str(s, "  package manager: ");
            push_toned(s, Tone::Warning, "no lockfile found (not a JS/TS project?)", use_color);
            push_str(s, "\n");
        },
    }
    assert(s@ =~= old(s)@ + pm_section(*d, use_color));
}

fn push_biome(s: &mut Vec<char>, d: &DetectedProject, use_color: bool)
    ensures
        final(s)@ == old(s)@ + biome_section(*d, use_color),
{
    match &d.biome {
        Some(bs) => {
            push_str(s, "  biome config: ");
            push_str(s, bs.config_path.as_str());
            push_str(s, " ");
            push_toned(s, Tone::Good, "(found)", use_color);
            push_str(s, "\n");
            push_str(s, "  biome binary: ");
            push_str(s, bs.binary_path.as_str());
            push_str(s, " ");
            push_toned(s, Tone::Good, "(found)", use_color);
            push_str(s, "\n");
            push_str(s, "  biome version: ");
            push_str(s, bs.version.as_str());
            push_str(s, "\n");
        },
        None => {
            push_str(s, "  biome config: ");
            push_toned(
                s,
                Tone::Warning,
                "not configured (no biome.json / biome.jsonc found)",
                use_color,
            );
            push_str(s, "\n");
            push_str(s, "  biome binary: ");
            push_toned(s, Tone::Warning, "not applicable", use_color);
            push_str(s, "\n");
        },
    }
    assert(s@ =~= old(s)@ + biome_section(*d, use_color));
}

fn push_verdict(s: &mut Vec<char>, d: &DetectedProject, use_color: bool)
    ensures
        final(s)@ == old(s)@ + verdict_section(*d, use_color),
{
    if d.biome.is_some() {
        push_toned(s, Tone::Good, "ready: biome detected", use_color);
    } else if d.package_manager.is_some() {
        push_toned(s, Tone::Warning, "partial: JS/TS project detected but no biome config", use_color);
    } else {
        push_toned(
            s,
            Tone::Warning,
            "not a supported project (no JS/TS lockfile, no biome config)",
            use_color,
        );
    }
    push_str(s, "\n");
    assert(s@ =~= old(s)@ + verdict_section(*d, use_color));
}

/// Renders the doctor report for a detection; `cache_dir` is the cache's directory.
pub fn render(d: &DetectedProject, cache_dir: &str, use_color: bool) -> (r: String)
    ensures
        r@ == doctor_report(*d, cache_dir@, use_color),
{
    let mut s: Vec<char> = Vec::new();
    push_toned(&mut s, Tone::Header, "cc-essentials doctor", use_color);
    push_str(&mut s, "\n");
    push_str(&mut s, "  start: ");
    push_str(&mut s, d.start.as_str());
    push_str(&mut s, "\n");
    push_repo(&mut s, d, use_color);
    push_pm(&mut s, d, use_color);
    push_biome(&mut s, d, use_color);
    push_str(&mut s, "  cache dir: ");
    push_str(&mut s, cache_dir);
    push_str(&mut s, "\n");
    push_verdict(&mut s, d, use_color);
    assert(s@ =~= doctor_report(*d, cache_dir@, use_color));
    chars_to_string(&s)
}

} // verus!
