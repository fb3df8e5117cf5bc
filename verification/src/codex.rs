//! Which files a Codex tool call touched: `apply_patch` envelopes, shell redirections
//! and plain file-path fields.
use vstd::prelude::*;
use crate::hook_io::{opt_seq, HookOutput, HookSpecificOutput};
use crate::hooks::FileHookResult;
use crate::paths::{is_absolute, is_absolute_path, join, join_path, same_path, std_same_path, string_views};
use crate::text::{
    chars_to_string, push_str, to_chars,
    chars_eq_str, is_sep, push_chars, split_chars, split_where, split_words, starts_with,
    strip_prefix_str, trim, trim_by, trim_chars, trim_ws, views, words, CharClass, Separator,
};

verus! {

// ---------------------------------------------------------------------------
// apply_patch envelopes
// ---------------------------------------------------------------------------

/// Scan state over the lines of a patch: paths found so far, the index of the file
/// operation a `*** Move to:` line renames, and whether `*** End Patch` was seen.
pub type PatchScan = (Seq<Seq<char>>, Option<nat>, bool);

/// The path named by an Add/Update/Delete line (first matching header), trimmed.
pub open spec fn op_path(line: Seq<char>) -> Option<Seq<char>> {
    if starts_with(line, "*** Add File:"@) {
        Some(trim(line.skip("*** Add File:"@.len() as int)))
    } else if starts_with(line, "*** Update File:"@) {
        Some(trim(line.skip("*** Update File:"@.len() as int)))
    } else if starts_with(line, "*** Delete File:"@) {
        Some(trim(line.skip("*** Delete File:"@.len() as int)))
    } else {
        None
    }
}

/// The destination named by a `*** Move to:` line, trimmed.
pub open spec fn move_path(line: Seq<char>) -> Option<Seq<char>> {
    if starts_with(line, "*** Move to:"@) {
        Some(trim(line.skip("*** Move to:"@.len() as int)))
    } else {
        None
    }
}

pub open spec fn patch_step(st: PatchScan, raw_line: Seq<char>) -> PatchScan {
    let line = trim(raw_line);
    if st.2 {
        st
    } else if line == "*** End Patch"@ {
        (st.0, st.1, true)
    } else if op_path(line) is Some && op_path(line)->0.len() > 0 {
        (st.0.push(op_path(line)->0), Some(st.0.len()), false)
    } else if move_path(line) is Some && move_path(line)->0.len() > 0 {
        match st.1 {
            Some(i) => (st.0.update(i as int, move_path(line)->0), st.1, false),
            None => (st.0.push(move_path(line)->0), Some(st.0.len()), false),
        }
    } else {
        st
    }
}

pub open spec fn patch_scan(lines: Seq<Seq<char>>) -> PatchScan
    decreases lines.len(),
{
    if lines.len() == 0 {
        (Seq::empty(), None, false)
    } else {
        patch_step(patch_scan(lines.drop_last()), lines.last())
    }
}

/// The files an `apply_patch` envelope adds, updates or deletes, in order; a
/// `*** Move to:` line replaces the path of the operation it follows.
pub open spec fn patch_paths(raw: Seq<char>) -> Seq<Seq<char>> {
    patch_scan(split_where(raw, Separator::Char('\n'))).0
}

pub proof fn lemma_patch_scan_index(lines: Seq<Seq<char>>)
    ensures
        patch_scan(lines).1 matches Some(i) ==> i < patch_scan(lines).0.len(),
    decreases lines.len(),
{
    if lines.len() > 0 {
        lemma_patch_scan_index(lines.drop_last());
    }
}

proof fn lemma_patch_scan_done(lines: Seq<Seq<char>>, k: int)
    requires
        0 <= k <= lines.len(),
        patch_scan(lines.take(k)).2,
    ensures
        patch_scan(lines) == patch_scan(lines.take(k)),
    decreases lines.len() - k,
{
    if k == lines.len() {
        assert(lines.take(k) =~= lines);
    } else {
        let l2 = lines.take(k + 1);
        assert(l2.drop_last() =~= lines.take(k));
        assert(patch_scan(l2) == patch_scan(lines.take(k)));
        lemma_patch_scan_done(lines, k + 1);
    }
}

fn op_path_exec(line: &[char]) -> (r: Option<Vec<char>>)
    ensures
        match r {
            Some(p) => op_path(line@) == Some(p@),
            None => op_path(line@) is None,
        },
{
    if let Some(rest) = strip_prefix_str(line, "*** Add File:") {
        return Some(trim_ws(&rest));
    }
    if let Some(rest) = strip_prefix_str(line, "*** Update File:") {
        return Some(trim_ws(&rest));
    }
    if let Some(rest) = strip_prefix_str(line, "*** Delete File:") {
        return Some(trim_ws(&rest));
    }
    None
}

fn move_path_exec(line: &[char]) -> (r: Option<Vec<char>>)
    ensures
        match r {
            Some(p) => move_path(line@) == Some(p@),
            None => move_path(line@) is None,
        },
{
    match strip_prefix_str(line, "*** Move to:") {
        Some(rest) => Some(trim_ws(&rest)),
        None => None,
    }
}

pub open spec fn opt_index(o: Option<usize>) -> Option<nat> {
    match o {
        Some(i) => Some(i as nat),
        None => None,
    }
}

/// The files an `apply_patch` envelope touches.
fn patch_paths_of(raw: &[char]) -> (r: Vec<Vec<char>>)
    ensures
        views(r@) == patch_paths(raw@),
{
    let lines = split_chars(raw, Separator::Char('\n'));
    let ghost ls = views(lines@);
    let mut paths: Vec<Vec<char>> = Vec::new();
    let mut current: Option<usize> = None;
    let n = lines.len();
    assert(ls.take(0) =~= Seq::<Seq<char>>::empty());
    assert(ls.take(n as int) =~= ls);
    let mut i: usize = 0;
    while i < n
        invariant_except_break
            i <= n,
        invariant
            n == lines@.len(),
            ls == views(lines@),
            ls == split_where(raw@, Separator::Char('\n')),
            ls.take(n as int) == ls,
            i <= n,
            patch_scan(ls.take(i as int)) == (views(paths@), opt_index(current), false),
            current matches Some(c) ==> c < paths@.len(),
        ensures
            patch_scan(ls) == (views(paths@), opt_index(current), patch_scan(ls).2),
        decreases n - i,
    {
        let line = trim_ws(&lines[i]);
        let ghost st = patch_scan(ls.take(i as int));
        assert(ls.take(i + 1).drop_last() =~= ls.take(i as int));
        assert(ls.take(i + 1).last() == lines@[i as int]@);
        if chars_eq_str(&line, "*** End Patch") {
            proof {
                lemma_patch_scan_done(ls, i + 1);
            }
            break;
        }
        let op = op_path_exec(&line);
        let mut handled = false;
        if let Some(p) = op {
            if p.len() > 0 {
                let ghost before = paths@;
                paths.push(p);
                current = Some(paths.len() - 1);
                assert(views(paths@) =~= views(before).push(op_path(line@)->0));
                handled = true;
            }
        }
        if !handled {
            if let Some(p) = move_path_exec(&line) {
                if p.len() > 0 {
                    let ghost before = paths@;
                    match current {
                        Some(idx) => {
                            paths.set(idx, p);
                            assert(views(paths@) =~= views(before).update(
                                idx as int,
                                move_path(line@)->0,
                            ));
                        },
                        None => {
                            paths.push(p);
                            current = Some(paths.len() - 1);
                            assert(views(paths@) =~= views(before).push(move_path(line@)->0));
                        },
                    }
                }
            }
        }
        i = i + 1;
    }
    paths
}

// ---------------------------------------------------------------------------
// Shell redirections
// ---------------------------------------------------------------------------

/// A token with surrounding quotes removed; `None` when nothing is left.
pub open spec fn spec_clean_token(t: Seq<char>) -> Option<Seq<char>> {
    let c = trim_by(t, CharClass::Quote);
    if c.len() == 0 {
        None
    } else {
        Some(c)
    }
}

fn clean_chars(t: &[char]) -> (r: Option<Vec<char>>)
    ensures
        match r {
            Some(c) => spec_clean_token(t@) == Some(c@),
            None => spec_clean_token(t@) is None,
        },
{
    let c = trim_chars(t, CharClass::Quote);
    if c.len() == 0 {
        None
    } else {
        Some(c)
    }
}

/// The path (if any) that token `i` of a shell command writes to:
/// `tee FILE` (but not `tee -`), `> FILE`, or `>FILE` (but not `>>FILE`).
pub open spec fn redirect_at(tokens: Seq<Seq<char>>, i: int) -> Seq<Seq<char>> {
    let t = tokens[i];
    let count = tokens.len();
    let next = if i + 1 < count {
        spec_clean_token(tokens[i + 1])
    } else {
        None
    };
    if t == "tee"@ {
        if next is Some && next->0 != "-"@ {
            seq![next->0]
        } else {
            Seq::empty()
        }
    } else if t == ">"@ {
        if next is Some {
            seq![next->0]
        } else {
            Seq::empty()
        }
    } else if t.len() > 0 && t[0] == '>' {
        let rest = t.drop_first();
        if !(rest.len() > 0 && rest[0] == '>') && spec_clean_token(rest) is Some {
            seq![spec_clean_token(rest)->0]
        } else {
            Seq::empty()
        }
    } else {
        Seq::empty()
    }
}

pub open spec fn redirects_upto(tokens: Seq<Seq<char>>, k: int) -> Seq<Seq<char>>
    decreases k,
{
    if k <= 0 {
        Seq::empty()
    } else {
        redirects_upto(tokens, k - 1) + redirect_at(tokens, k - 1)
    }
}

/// The files a shell command redirects output into, in order.
pub open spec fn redirect_paths(raw: Seq<char>) -> Seq<Seq<char>> {
    redirects_upto(words(raw), words(raw).len() as int)
}

fn redirect_at_exec(tokens: &Vec<Vec<char>>, i: usize) -> (r: Option<Vec<char>>)
    requires
        i < tokens@.len(),
    ensures
        match r {
            Some(p) => redirect_at(views(tokens@), i as int) == seq![p@],
            None => redirect_at(views(tokens@), i as int) == Seq::<Seq<char>>::empty(),
        },
{
    let ghost ts = views(tokens@);
    let t = &tokens[i];
    assert(ts[i as int] == t@);
    let count = tokens.len();
    let next = if i + 1 < count {
        assert(ts[i + 1] == tokens@[i + 1]@);
        clean_chars(&tokens[i + 1])
    } else {
        None
    };
    if chars_eq_str(t, "tee") {
        match next {
            Some(p) => {
                if chars_eq_str(&p, "-") {
                    None
                } else {
                    Some(p)
                }
            },
            None => None,
        }
    } else if chars_eq_str(t, ">") {
        next
    } else if t.len() > 0 && t[0] == '>' {
        let rest = crate::text::slice_chars(t, 1, t.len());
        assert(rest@ =~= t@.drop_first());
        if rest.len() > 0 && rest[0] == '>' {
            None
        } else {
            clean_chars(&rest)
        }
    } else {
        None
    }
}

/// The files a shell command redirects output into.
fn redirect_paths_of(raw: &[char]) -> (r: Vec<Vec<char>>)
    ensures
        views(r@) == redirect_paths(raw@),
{
    let tokens = split_words(raw);
    let ghost ts = views(tokens@);
    let mut paths: Vec<Vec<char>> = Vec::new();
    let n = tokens.len();
    for i in 0..n
        invariant
            n == tokens@.len(),
            ts == views(tokens@),
            ts == words(raw@),
            views(paths@) == redirects_upto(ts, i as int),
    {
        let ghost before = paths@;
        match redirect_at_exec(&tokens, i) {
            Some(p) => {
                paths.push(p);
                assert(views(paths@) =~= views(before) + redirect_at(ts, i as int));
            },
            None => {
                assert(views(paths@) =~= views(before) + redirect_at(ts, i as int));
            },
        }
    }
    paths
}

/// The files an `apply_patch` envelope adds, updates or deletes.
pub fn parse_patch_paths(raw: &str) -> (r: Vec<String>)
    ensures
        string_views(r@) == patch_paths(raw@),
{
    let c = to_chars(raw);
    strings_of(patch_paths_of(&c))
}

/// The files a shell command redirects output into.
pub fn parse_redirect_paths(raw: &str) -> (r: Vec<String>)
    ensures
        string_views(r@) == redirect_paths(raw@),
{
    let c = to_chars(raw);
    strings_of(redirect_paths_of(&c))
}

/// A token with surrounding quotes removed; `None` when nothing is left.
pub fn clean_token(token: &str) -> (r: Option<String>)
    ensures
        opt_seq(r) == spec_clean_token(token@),
{
    let c = to_chars(token);
    match clean_chars(&c) {
        Some(t) => Some(chars_to_string(&t)),
        None => None,
    }
}

// ---------------------------------------------------------------------------
// Codex events
// ---------------------------------------------------------------------------

/// A Codex `tool_input`: a bare string, an object (its string-valued fields, each key
/// once), or anything else.
pub enum ToolValue {
    Text(String),
    Fields(Vec<(String, String)>),
    Other,
}

/// What a Codex post-tool event carries that the hook reads.
pub struct CodexHookInput {
    pub hook_event_name: Option<String>,
    pub cwd: Option<String>,
    pub tool_name: String,
    pub tool_input: ToolValue,
}

pub open spec fn lookup_field(kv: Seq<(String, String)>, key: Seq<char>) -> Option<Seq<char>>
    decreases kv.len(),
{
    if kv.len() == 0 {
        None
    } else if kv[0].0@ == key {
        Some(kv[0].1@)
    } else {
        lookup_field(kv.drop_first(), key)
    }
}

pub open spec fn first_field(kv: Seq<(String, String)>, fields: Seq<Seq<char>>) -> Option<Seq<char>>
    decreases fields.len(),
{
    if fields.len() == 0 {
        None
    } else {
        match lookup_field(kv, fields[0]) {
            Some(v) => Some(v),
            None => first_field(kv, fields.drop_first()),
        }
    }
}

/// The text of a tool input: the string itself, or the first of `fields` that the
/// object has as a string.
pub open spec fn spec_text_from_value(v: ToolValue, fields: Seq<Seq<char>>) -> Option<Seq<char>> {
    match v {
        ToolValue::Text(t) => Some(t@),
        ToolValue::Fields(kv) => first_field(kv@, fields),
        ToolValue::Other => None,
    }
}

fn lookup_field_exec(kv: &Vec<(String, String)>, key: &str) -> (r: Option<String>)
    ensures
        opt_seq(r) == lookup_field(kv@, key@),
{
    let n = kv.len();
    let k = to_chars(key);
    let mut i: usize = 0;
    assert(kv@.skip(0) =~= kv@);
    while i < n
        invariant
            n == kv@.len(),
            k@ == key@,
            i <= n,
            lookup_field(kv@.skip(i as int), key@) == lookup_field(kv@, key@),
        decreases n - i,
    {
        assert(kv@.skip(i as int)[0] == kv@[i as int]);
        assert(kv@.skip(i as int).drop_first() =~= kv@.skip(i + 1));
        let name = to_chars(kv[i].0.as_str());
        if crate::text::chars_eq(&name, &k) {
            return Some(kv[i].1.clone());
        }
        i = i + 1;
    }
    assert(kv@.skip(n as int) =~= Seq::<(String, String)>::empty());
    None
}

/// The text of a tool input for the given field names, in order of preference.
pub fn text_from_value(value: &ToolValue, fields: &[&str]) -> (r: Option<String>)
    ensures
        opt_seq(r) == spec_text_from_value(*value, crate::paths::str_views(fields@)),
{
    match value {
        ToolValue::Text(t) => Some(t.clone()),
        ToolValue::Other => None,
        ToolValue::Fields(kv) => {
            let ghost fv = crate::paths::str_views(fields@);
            let n = fields.len();
            let mut i: usize = 0;
            assert(fv.skip(0) =~= fv);
            while i < n
                invariant
                    n == fields@.len(),
                    *value == ToolValue::Fields(*kv),
                    fv == crate::paths::str_views(fields@),
                    i <= n,
                    first_field(kv@, fv.skip(i as int)) == first_field(kv@, fv),
                decreases n - i,
            {
                assert(fv.skip(i as int)[0] == fields@[i as int]@);
                assert(fv.skip(i as int).drop_first() =~= fv.skip(i + 1));
                match lookup_field_exec(kv, fields[i]) {
                    Some(v) => return Some(v),
                    None => {},
                }
                i = i + 1;
            }
            assert(fv.skip(n as int) =~= Seq::<Seq<char>>::empty());
            None
        },
    }
}

pub open spec fn patch_fields() -> Seq<Seq<char>> {
    seq!["command"@, "input"@, "patch"@]
}

pub open spec fn command_fields() -> Seq<Seq<char>> {
    seq!["command"@]
}

pub open spec fn path_fields() -> Seq<Seq<char>> {
    seq!["file_path"@, "filePath"@, "path"@]
}

pub open spec fn spec_patch_paths_from_value(v: ToolValue) -> Seq<Seq<char>> {
    match spec_text_from_value(v, patch_fields()) {
        Some(t) => patch_paths(t),
        None => Seq::empty(),
    }
}

/// Shell commands: the files of an `apply_patch` envelope in the command, else the
/// files it redirects output into.
pub open spec fn spec_bash_paths_from_value(v: ToolValue) -> Seq<Seq<char>> {
    match spec_text_from_value(v, command_fields()) {
        Some(t) => if patch_paths(t).len() > 0 {
            patch_paths(t)
        } else {
            redirect_paths(t)
        },
        None => Seq::empty(),
    }
}

/// File tools: the patch files when the path field holds a patch, else the path
/// itself unless it is blank.
pub open spec fn spec_file_paths_from_value(v: ToolValue) -> Seq<Seq<char>> {
    match spec_text_from_value(v, path_fields()) {
        Some(p) => if patch_paths(p).len() > 0 {
            patch_paths(p)
        } else if trim(p).len() == 0 {
            Seq::empty()
        } else {
            seq![p]
        },
        None => Seq::empty(),
    }
}

fn strings_of(v: Vec<Vec<char>>) -> (r: Vec<String>)
    ensures
        string_views(r@) == views(v@),
{
    let mut r: Vec<String> = Vec::new();
    let n = v.len();
    for i in 0..n
        invariant
            n == v@.len(),
            string_views(r@) == views(v@).take(i as int),
    {
        let s = chars_to_string(&v[i]);
        assert(views(v@)[i as int] == v@[i as int]@);
        let ghost before = r@;
        r.push(s);
        assert(string_views(r@) =~= string_views(before).push(v@[i as int]@));
        assert(string_views(r@) =~= views(v@).take(i + 1));
    }
    assert(views(v@).take(n as int) =~= views(v@));
    r
}

pub fn patch_paths_from_value(value: &ToolValue) -> (r: Vec<String>)
    ensures
        string_views(r@) == spec_patch_paths_from_value(*value),
{
    let fields = ["command", "input", "patch"];
    assert(crate::paths::str_views(fields@) =~= patch_fields());
    match text_from_value(value, &fields) {
        Some(t) => {
            let c = to_chars(t.as_str());
            strings_of(patch_paths_of(&c))
        },
        None => Vec::new(),
    }
}

pub fn bash_paths_from_value(value: &ToolValue) -> (r: Vec<String>)
    ensures
        string_views(r@) == spec_bash_paths_from_value(*value),
{
    let fields = ["command"];
    assert(crate::paths::str_views(fields@) =~= command_fields());
    match text_from_value(value, &fields) {
        Some(t) => {
            let c = to_chars(t.as_str());
            let pp = patch_paths_of(&c);
            if pp.len() > 0 {
                strings_of(pp)
            } else {
                strings_of(redirect_paths_of(&c))
            }
        },
        None => Vec::new(),
    }
}

pub fn file_paths_from_value(value: &ToolValue) -> (r: Vec<String>)
    ensures
        string_views(r@) == spec_file_paths_from_value(*value),
{
    let fields = ["file_path", "filePath", "path"];
    assert(crate::paths::str_views(fields@) =~= path_fields());
    match text_from_value(value, &fields) {
        Some(p) => {
            let c = to_chars(p.as_str());
            let pp = patch_paths_of(&c);
            if pp.len() > 0 {
                strings_of(pp)
            } else if trim_ws(&c).len() == 0 {
                Vec::new()
            } else {
                let mut r: Vec<String> = Vec::new();
                r.push(p);
                assert(string_views(r@) =~= seq![c@]);
                r
            }
        },
        None => Vec::new(),
    }
}

/// A raw path made absolute: trimmed; kept when absolute, joined onto `cwd` when
/// relative; `None` when blank, or relative without a `cwd`.
pub open spec fn spec_resolve_path(raw: Seq<char>, cwd: Option<Seq<char>>) -> Option<Seq<char>> {
    let p = trim(raw);
    if p.len() == 0 {
        None
    } else if is_absolute(p) {
        Some(p)
    } else {
        match cwd {
            Some(d) => Some(join(d, p)),
            None => None,
        }
    }
}

pub fn resolve_path(raw: &str, cwd: Option<&str>) -> (r: Option<String>)
    ensures
        opt_seq(r) == spec_resolve_path(
            raw@,
            match cwd {
                Some(d) => Some(d@),
                None => None,
            },
        ),
{
    let c = to_chars(raw);
    let t = trim_ws(&c);
    if t.len() == 0 {
        return None;
    }
    let p = chars_to_string(&t);
    if is_absolute_path(p.as_str()) {
        Some(p)
    } else {
        match cwd {
            Some(d) => Some(join_path(d, p.as_str())),
            None => None,
        }
    }
}

/// Why a Codex event was not acted on.
#[derive(Clone, Copy, Debug, PartialEq, Eq, Structural)]
pub enum CodexSkip {
    StdinParseFailed,
    WrongEvent,
    UnsupportedTool,
    NoFilePaths,
}

pub open spec fn codex_skip_event(s: CodexSkip) -> Seq<char> {
    match s {
        CodexSkip::StdinParseFailed => "codex_hook.stdin_parse_failed"@,
        CodexSkip::WrongEvent => "codex_hook.skip_wrong_event"@,
        CodexSkip::UnsupportedTool => "codex_hook.skip_unsupported_tool"@,
        CodexSkip::NoFilePaths => "codex_hook.skip_no_file_paths"@,
    }
}

impl CodexSkip {
    /// The log event recorded for this skip.
    pub fn event_name(&self) -> (r: &'static str)
        ensures
            r@ == codex_skip_event(*self),
    {
        match self {
            CodexSkip::StdinParseFailed => "codex_hook.stdin_parse_failed",
            CodexSkip::WrongEvent => "codex_hook.skip_wrong_event",
            CodexSkip::UnsupportedTool => "codex_hook.skip_unsupported_tool",
            CodexSkip::NoFilePaths => "codex_hook.skip_no_file_paths",
        }
    }
}

/// The raw paths a tool call names; `None` for tools that write no files.
pub open spec fn spec_raw_paths(tool: Seq<char>, v: ToolValue) -> Option<Seq<Seq<char>>> {
    if tool == "apply_patch"@ {
        Some(spec_patch_paths_from_value(v))
    } else if tool == "Bash"@ {
        Some(spec_bash_paths_from_value(v))
    } else if tool == "Write"@ || tool == "Edit"@ || tool == "MultiEdit"@ {
        Some(spec_file_paths_from_value(v))
    } else {
        None
    }
}

pub open spec fn already_listed(acc: Seq<Seq<char>>, p: Seq<char>) -> bool {
    exists|i: int| 0 <= i < acc.len() && std_same_path(acc[i], p)
}

/// The resolved paths in order, each kept only if no path kept before it is the same path.
pub open spec fn collect_paths(raws: Seq<Seq<char>>, cwd: Option<Seq<char>>) -> Seq<Seq<char>>
    decreases raws.len(),
{
    if raws.len() == 0 {
        Seq::empty()
    } else {
        let acc = collect_paths(raws.drop_last(), cwd);
        match spec_resolve_path(raws.last(), cwd) {
            Some(p) => if already_listed(acc, p) {
                acc
            } else {
                acc.push(p)
            },
            None => acc,
        }
    }
}

/// The raw paths that could not be made absolute.
pub open spec fn unresolved_paths(raws: Seq<Seq<char>>, cwd: Option<Seq<char>>) -> Seq<Seq<char>>
    decreases raws.len(),
{
    if raws.len() == 0 {
        Seq::empty()
    } else {
        let acc = unresolved_paths(raws.drop_last(), cwd);
        if spec_resolve_path(raws.last(), cwd) is None {
            acc.push(raws.last())
        } else {
            acc
        }
    }
}

/// What to do with a Codex event.
pub struct CodexPlan {
    /// Why nothing is to be done, if so.
    pub skip: Option<CodexSkip>,
    /// The files to check, absolute, without repeats.
    pub paths: Vec<String>,
    /// Relative paths dropped for want of a `cwd`.
    pub unresolved: Vec<String>,
}

pub open spec fn opt_cwd(o: Option<String>) -> Option<Seq<char>> {
    opt_seq(o)
}

pub open spec fn spec_codex_plan(input: CodexHookInput) -> (Option<CodexSkip>, Seq<Seq<char>>, Seq<Seq<char>>) {
    if input.hook_event_name is Some && input.hook_event_name->0@ != "PostToolUse"@ {
        (Some(CodexSkip::WrongEvent), Seq::empty(), Seq::empty())
    } else {
        match spec_raw_paths(input.tool_name@, input.tool_input) {
            None => (Some(CodexSkip::UnsupportedTool), Seq::empty(), Seq::empty()),
            Some(raws) => {
                let ps = collect_paths(raws, opt_cwd(input.cwd));
                let un = unresolved_paths(raws, opt_cwd(input.cwd));
                if ps.len() == 0 {
                    (Some(CodexSkip::NoFilePaths), Seq::empty(), un)
                } else {
                    (None, ps, un)
                }
            },
        }
    }
}

fn listed(acc: &Vec<String>, p: &str) -> (r: bool)
    ensures
        r == already_listed(string_views(acc@), p@),
{
    let n = acc.len();
    for i in 0..n
        invariant
            n == acc@.len(),
            forall|k: int| 0 <= k < i ==> !std_same_path(string_views(acc@)[k], p@),
    {
        if same_path(acc[i].as_str(), p) {
            assert(std_same_path(string_views(acc@)[i as int], p@));
            return true;
        }
    }
    false
}

/// Only `PostToolUse` events (or events that do not say) of `apply_patch`, `Bash` and
/// the file tools are acted on; their paths are made absolute and repeats dropped.
pub fn plan_codex(input: &CodexHookInput) -> (r: CodexPlan)
    ensures
        (r.skip, string_views(r.paths@), string_views(r.unresolved@)) == spec_codex_plan(*input),
{
    let empty: Vec<String> = Vec::new();
    if let Some(e) = &input.hook_event_name {
        let ev = to_chars(e.as_str());
        if !chars_eq_str(&ev, "PostToolUse") {
            return CodexPlan { skip: Some(CodexSkip::WrongEvent), paths: Vec::new(), unresolved: Vec::new() };
        }
    }
    let tool = to_chars(input.tool_name.as_str());
    let raws = if chars_eq_str(&tool, "apply_patch") {
        patch_paths_from_value(&input.tool_input)
    } else if chars_eq_str(&tool, "Bash") {
        bash_paths_from_value(&input.tool_input)
    } else if chars_eq_str(&tool, "Write") || chars_eq_str(&tool, "Edit") || chars_eq_str(
        &tool,
        "MultiEdit",
    ) {
        file_paths_from_value(&input.tool_input)
    } else {
        return CodexPlan { skip: Some(CodexSkip::UnsupportedTool), paths: Vec::new(), unresolved: Vec::new() };
    };
    let ghost rv = string_views(raws@);
    let ghost cwd = opt_cwd(input.cwd);
    let cwd_ref: Option<&str> = match &input.cwd {
        Some(d) => Some(d.as_str()),
        None => None,
    };
    let mut paths: Vec<String> = Vec::new();
    let mut unresolved: Vec<String> = Vec::new();
    let n = raws.len();
    assert(rv.take(0) =~= Seq::<Seq<char>>::empty());
    for i in 0..n
        invariant
            n == raws@.len(),
            rv == string_views(raws@),
            cwd == opt_cwd(input.cwd),
            cwd == match cwd_ref {
                Some(d) => Some(d@),
                None => None::<Seq<char>>,
            },
            string_views(paths@) == collect_paths(rv.take(i as int), cwd),
            string_views(unresolved@) == unresolved_paths(rv.take(i as int), cwd),
    {
        assert(rv.take(i + 1).drop_last() =~= rv.take(i as int));
        assert(rv.take(i + 1).last() == raws@[i as int]@);
        match resolve_path(raws[i].as_str(), cwd_ref) {
            Some(p) => {
                if !listed(&paths, p.as_str()) {
                    let ghost before = paths@;
                    paths.push(p);
                    assert(string_views(paths@) =~= string_views(before).push(p@));
                }
            },
            None => {
                let ghost before = unresolved@;
                unresolved.push(raws[i].clone());
                assert(string_views(unresolved@) =~= string_views(before).push(raws@[i as int]@));
            },
        }
    }
    assert(rv.take(n as int) =~= rv);
    if paths.len() == 0 {
        CodexPlan { skip: Some(CodexSkip::NoFilePaths), paths, unresolved }
    } else {
        CodexPlan { skip: None, paths, unresolved }
    }
}

// ---------------------------------------------------------------------------
// The Codex answer
// ---------------------------------------------------------------------------

/// `parts` joined with `sep` between neighbours.
pub open spec fn join_with(parts: Seq<Seq<char>>, sep: Seq<char>) -> Seq<char>
    decreases parts.len(),
{
    if parts.len() == 0 {
        Seq::empty()
    } else if parts.len() == 1 {
        parts[0]
    } else {
        join_with(parts.drop_last(), sep) + sep + parts.last()
    }
}

pub open spec fn result_messages(rs: Seq<FileHookResult>) -> Seq<Seq<char>> {
    rs.map_values(|r: FileHookResult| r.system_message@)
}

/// The model contexts of the results that have one, in order.
pub open spec fn result_contexts(rs: Seq<FileHookResult>) -> Seq<Seq<char>>
    decreases rs.len(),
{
    if rs.len() == 0 {
        Seq::empty()
    } else {
        match rs.last().additional_context {
            Some(c) => result_contexts(rs.drop_last()).push(c@),
            None => result_contexts(rs.drop_last()),
        }
    }
}

fn join_strings(parts: &Vec<String>, sep: &str) -> (r: String)
    ensures
        r@ == join_with(string_views(parts@), sep@),
{
    let mut s: Vec<char> = Vec::new();
    let n = parts.len();
    let ghost pv = string_views(parts@);
    assert(pv.take(0) =~= Seq::<Seq<char>>::empty());
    for i in 0..n
        invariant
            n == parts@.len(),
            pv == string_views(parts@),
            s@ == join_with(pv.take(i as int), sep@),
    {
        assert(pv.take(i + 1).drop_last() =~= pv.take(i as int));
        assert(pv.take(i + 1).last() == parts@[i as int]@);
        if i > 0 {
            push_str(&mut s, sep);
        } else {
            assert(pv.take(1)[0] == parts@[0]@);
        }
        push_str(&mut s, parts[i].as_str());
    }
    assert(pv.take(n as int) =~= pv);
    chars_to_string(&s)
}

/// One answer for several files: the user lines joined by newlines, the model
/// contexts (of the files that have one) joined by blank lines.
pub fn output_for_results(results: Vec<FileHookResult>) -> (r: HookOutput)
    ensures
        r.system_message matches Some(m) && m@ == join_with(result_messages(results@), "\n"@),
        r.hook_specific_output matches Some(h) && h.hook_event_name@ == "PostToolUse"@ && opt_seq(
            h.additional_context,
        ) == (if result_contexts(results@).len() == 0 {
            None
        } else {
            Some(join_with(result_contexts(results@), "\n\n"@))
        }),
{
    let mut messages: Vec<String> = Vec::new();
    let mut contexts: Vec<String> = Vec::new();
    let n = results.len();
    let ghost rs = results@;
    assert(rs.take(0) =~= Seq::<FileHookResult>::empty());
    let mut results = results;
    let mut i: usize = 0;
    while i < n
        invariant
            n == rs.len(),
            i <= n,
            results@ == rs.skip(i as int),
            string_views(messages@) == result_messages(rs.take(i as int)),
            string_views(contexts@) == result_contexts(rs.take(i as int)),
        decreases n - i,
    {
        let r = results.remove(0);
        assert(r == rs[i as int]);
        assert(results@ =~= rs.skip(i + 1));
        assert(rs.take(i + 1).drop_last() =~= rs.take(i as int));
        assert(rs.take(i + 1).last() == r);
        let FileHookResult { system_message, additional_context } = r;
        let ghost before_m = messages@;
        messages.push(system_message);
        assert(string_views(messages@) =~= string_views(before_m).push(rs[i as int].system_message@));
        assert(result_messages(rs.take(i + 1)) =~= result_messages(rs.take(i as int)).push(
            rs[i as int].system_message@,
        ));
        match additional_context {
            Some(c) => {
                let ghost before = contexts@;
                contexts.push(c);
                assert(string_views(contexts@) =~= string_views(before).push(c@));
            },
            None => {},
        }
        i = i + 1;
    }
    assert(rs.take(n as int) =~= rs);
    let system = join_strings(&messages, "\n");
    let additional = if contexts.len() == 0 {
        None
    } else {
        Some(join_strings(&contexts, "\n\n"))
    };
    HookOutput {
        system_message: Some(system),
        hook_specific_output: Some(
            HookSpecificOutput { hook_event_name: "PostToolUse".to_string(), additional_context: additional },
        ),
    }
}

/// The Codex answer: silent (`{}`) when no file was checked.
pub fn codex_output(results: Vec<FileHookResult>) -> (r: HookOutput)
    ensures
        results@.len() == 0 ==> r.system_message is None && r.hook_specific_output is None,
        results@.len() > 0 ==> (r.system_message matches Some(m) && m@ == join_with(
            result_messages(results@),
            "\n"@,
        )),
        results@.len() > 0 ==> (r.hook_specific_output matches Some(h) && h.hook_event_name@ == "PostToolUse"@
            && opt_seq(h.additional_context) == (if result_contexts(results@).len() == 0 {
            None
        } else {
            Some(join_with(result_contexts(results@), "\n\n"@))
        })),
{
    if results.len() == 0 {
        HookOutput::empty()
    } else {
        output_for_results(results)
    }
}

} // verus!

