//! The parts of Biome's `--reporter=json` output that the hook reads.
use vstd::prelude::*;

verus! {

/// One `biome check --reporter=json` report.
pub struct CheckOutput {
    pub summary: Summary,
    pub diagnostics: Vec<Diagnostic>,
    pub command: Option<String>,
}

/// Biome's per-run counters; a counter that the report leaves out is 0.
#[derive(Clone, Copy, PartialEq, Eq, Debug)]
pub struct Summary {
    pub changed: u64,
    pub unchanged: u64,
    pub matches: u64,
    pub errors: u64,
    pub warnings: u64,
    pub infos: u64,
    pub skipped: u64,
    pub suggested_fixes_skipped: u64,
    pub diagnostics_not_printed: u64,
}

impl Default for Summary {
    fn default() -> (r: Summary)
        ensures
            r.changed == 0 && r.unchanged == 0 && r.matches == 0 && r.errors == 0 && r.warnings
                == 0 && r.infos == 0 && r.skipped == 0 && r.suggested_fixes_skipped == 0
                && r.diagnostics_not_printed == 0,
    {
        Summary {
            changed: 0,
            unchanged: 0,
            matches: 0,
            errors: 0,
            warnings: 0,
            infos: 0,
            skipped: 0,
            suggested_fixes_skipped: 0,
            diagnostics_not_printed: 0,
        }
    }
}

/// One finding.
pub struct Diagnostic {
    pub severity: Severity,
    pub message: String,
    pub category: Option<String>,
    pub location: Option<Location>,
}

/// How serious a finding is; a report that leaves it out means `Info`.
#[derive(Clone, Copy, PartialEq, Eq, Debug)]
pub enum Severity {
    Info,
    Warning,
    Error,
    Hint,
    Fatal,
}

impl Default for Severity {
    fn default() -> (r: Severity)
        ensures
            r == Severity::Info,
    {
        Severity::Info
    }
}

/// Where a finding is.
///
/// Older Biome releases give `start: {line, column}`; 2.x gives a byte-offset `span`
/// together with the checked `sourceCode`.
pub struct Location {
    pub path: Option<PathOrObject>,
    pub start: Option<Position>,
    pub end: Option<Position>,
    pub span: Option<(u64, u64)>,
    pub source_code: Option<String>,
}

/// `location.path` is a plain path in some Biome releases and an object in others;
/// an object is kept as its compact JSON text.
pub enum PathOrObject {
    Path(String),
    Object(String),
}

#[derive(Clone, Copy, PartialEq, Eq, Debug)]
pub struct Position {
    pub line: Option<u64>,
    pub column: Option<u64>,
}

impl Location {
    /// Lines and columns of `source_code` can be counted in a `u64`.
    pub open spec fn countable(&self) -> bool {
        self.source_code matches Some(src) ==> src@.len() < u64::MAX
    }
}

impl Diagnostic {
    pub open spec fn countable(&self) -> bool {
        self.location matches Some(l) ==> l.countable()
    }
}

impl CheckOutput {
    /// Every finding's source text can have its lines counted in a `u64`.
    pub open spec fn countable(&self) -> bool {
        forall|i: int| 0 <= i < self.diagnostics@.len() ==> (#[trigger] self.diagnostics@[i]).countable()
    }
}

impl PathOrObject {
    /// What `display` shows.
    pub open spec fn shown(&self) -> Seq<char> {
        match self {
            PathOrObject::Path(p) => p@,
            PathOrObject::Object(v) => v@,
        }
    }

    /// The path as text, or the object's JSON text.
    pub fn display(&self) -> (r: String)
        ensures
            r@ == self.shown(),
    {
        match self {
            PathOrObject::Path(p) => p.clone(),
            PathOrObject::Object(v) => v.clone(),
        }
    }
}

} // verus!
