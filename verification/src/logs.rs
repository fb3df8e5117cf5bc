//! The `logs` report: where the diagnostics live, the last error dump, and the most
//! recent log events.
use vstd::prelude::*;
use crate::doctor::{paint, toned, Tone};
use crate::text::{chars_to_string, push_chars, push_str, split_chars, split_where, to_chars, views, Separator};

verus! {

/// `serde_json::to_string_pretty` of the JSON value that `s` holds; `None` when `s`
/// is not JSON.
pub uninterp spec fn pretty_json_of(s: Seq<char>) -> Option<Seq<char>>;

/// Parses `s` with `serde_json::from_str` into a `serde_json::Value` and prints that
/// value with `serde_json::to_string_pretty`. Claims only that the result is
/// `pretty_json_of` of the argument (`None` when either step fails).
#[verifier::external_body]
fn pretty_json(s: &str) -> (r: Option<String>)
    ensures
        match r {
            Some(p) => pretty_json_of(s@) == Some(p@),
            None => pretty_json_of(s@) is None,
        },
{
    match serde_json::from_str::<serde_json::Value>(s) {
        Ok(v) => match serde_json::to_string_pretty(&v) {
            Ok(p) => Some(p),
            Err(_) => None,
        },
        Err(_) => None,
    }
}

/// What reading one diagnostics file gave.
pub enum FileRead {
    Contents(String),
    NotFound,
    /// Reading failed otherwise; the error text is kept.
    Failed(String),
}

/// At most this many log events are shown.
pub const RECENT_EVENTS: usize = 10;

/// JSON shown pretty-printed; anything else as it is.
pub open spec fn shown_json(s: Seq<char>) -> Seq<char> {
    match pretty_json_of(s) {
        Some(p) => p,
        None => s,
    }
}

/// The non-empty lines of the log, the last `RECENT_EVENTS` of them.
pub open spec fn recent_lines(contents: Seq<char>) -> Seq<Seq<char>> {
    let lines = split_where(contents, Separator::Char('\n')).filter(|l: Seq<char>| l.len() > 0);
    if lines.len() > RECENT_EVENTS {
        lines.skip(lines.len() - RECENT_EVENTS)
    } else {
        lines
    }
}

pub open spec fn shown_lines(ls: Seq<Seq<char>>) -> Seq<char>
    decreases ls.len(),
{
    if ls.len() == 0 {
        Seq::empty()
    } else {
        shown_lines(ls.drop_last()) + shown_json(ls.last()) + "\n"@
    }
}

pub open spec fn last_error_section(r: FileRead, c: bool) -> Seq<char> {
    match r {
        FileRead::Contents(s) => toned(Tone::Header, "--- last error ---"@, c) + "\n"@ + shown_json(s@)
            + "\n"@,
        FileRead::NotFound => "no last error recorded\n"@,
        FileRead::Failed(e) => "could not read last-error.json: "@ + e@ + "\n"@,
    }
}

pub open spec fn events_section(r: FileRead, c: bool) -> Seq<char> {
    match r {
        FileRead::Contents(s) => toned(Tone::Header, "--- recent events ---"@, c) + "\n"@
            + shown_lines(recent_lines(s@)),
        FileRead::NotFound => "no log entries (logging disabled or no invocations yet)\n"@,
        FileRead::Failed(e) => "could not read hooks.log: "@ + e@ + "\n"@,
    }
}

pub open spec fn logs_report_text(
    log_enabled: bool,
    log_file: Seq<char>,
    last_error_file: Seq<char>,
    last_error: FileRead,
    log: FileRead,
    c: bool,
) -> Seq<char> {
    (if log_enabled {
        "log enabled: yes\n"@
    } else {
        "log enabled: no (set CC_ESSENTIALS_LOG=1)\n"@
    }) + "log file: "@ + log_file + "\n"@ + "last error: "@ + last_error_file + "\n"@
        + last_error_section(last_error, c) + events_section(log, c)
}

fn push_shown_json(s: &mut Vec<char>, text: &str)
    ensures
        final(s)@ == old(s)@ + shown_json(text@),
{
    match pretty_json(text) {
        Some(p) => push_str(s, p.as_str()),
        None => push_str(s, text),
    }
}

/// The non-empty lines of `contents`, last `RECENT_EVENTS` only.
pub fn recent_log_lines(contents: &str) -> (r: Vec<Vec<char>>)
    ensures
        views(r@) == recent_lines(contents@),
{
    let chars = to_chars(contents);
    let all = split_chars(&chars, Separator::Char('\n'));
    let ghost av = views(all@);
    let ghost nonempty = |l: Seq<char>| l.len() > 0;
    let mut lines: Vec<Vec<char>> = Vec::new();
    let n = all.len();
    let mut all = all;
    let mut i: usize = 0;
    assert(av.take(0) =~= Seq::<Seq<char>>::empty());
    while i < n
        invariant
            n == av.len(),
            i <= n,
            views(all@) == av.skip(i as int),
            av == split_where(contents@, Separator::Char('\n')),
            nonempty == (|l: Seq<char>| l.len() > 0),
            views(lines@) == av.take(i as int).filter(nonempty),
        decreases n - i,
    {
        let ghost prev = all@;
        assert(views(prev).len() == prev.len());
        assert(views(prev)[0] == prev[0]@);
        let line = all.remove(0);
        assert(line@ == av[i as int]);
        assert(all@ =~= prev.drop_first());
        assert(views(all@) =~= views(prev).drop_first());
        assert(views(all@) =~= av.skip(i + 1));
        proof {
            av.take(i as int).lemma_filter_push(av[i as int], nonempty);
            assert(av.take(i + 1) =~= av.take(i as int).push(av[i as int]));
        }
        if line.len() > 0 {
            let ghost before = lines@;
            lines.push(line);
            assert(views(lines@) =~= views(before).push(av[i as int]));
        }
        i = i + 1;
    }
    assert(av.take(n as int) =~= av);
    let k = lines.len();
    if k > RECENT_EVENTS {
        let ghost lv = views(lines@);
        let mut tail: Vec<Vec<char>> = Vec::new();
        let mut lines = lines;
        let mut j: usize = 0;
        let start = k - RECENT_EVENTS;
        while j < k
            invariant
                k == lv.len(),
                start == k - RECENT_EVENTS,
                j <= k,
                views(lines@) == lv.skip(j as int),
                j <= start ==> tail@.len() == 0,
                j > start ==> views(tail@) == lv.subrange(start as int, j as int),
            decreases k - j,
        {
            let ghost prev = lines@;
            assert(views(prev).len() == prev.len());
            assert(views(prev)[0] == prev[0]@);
            let line = lines.remove(0);
            assert(line@ == lv[j as int]);
            assert(lines@ =~= prev.drop_first());
            assert(views(lines@) =~= views(prev).drop_first());
            assert(views(lines@) =~= lv.skip(j + 1));
            if j >= start {
                let ghost before = tail@;
                tail.push(line);
                assert(views(tail@) =~= lv.subrange(start as int, j + 1));
            }
            j = j + 1;
        }
        assert(lv.subrange(start as int, k as int) =~= lv.skip(start as int));
        tail
    } else {
        lines
    }
}

/// The `logs` report. `last_error` and `log` are what reading `last_error_file` and
/// `log_file` gave; `log_enabled` is whether `CC_ESSENTIALS_LOG=1` is set.
pub fn logs_report(
    log_enabled: bool,
    log_file: &str,
    last_error_file: &str,
    last_error: &FileRead,
    log: &FileRead,
    use_color: bool,
) -> (r: String)
    ensures
        r@ == logs_report_text(log_enabled, log_file@, last_error_file@, *last_error, *log, use_color),
{
    let mut s: Vec<char> = Vec::new();
    if log_enabled {
        push_str(&mut s, "log enabled: yes\n");
    } else {
        push_str(&mut s, "log enabled: no (set CC_ESSENTIALS_LOG=1)\n");
    }
    push_str(&mut s, "log file: ");
    push_str(&mut s, log_file);
    push_str(&mut s, "\n");
    push_str(&mut s, "last error: ");
    push_str(&mut s, last_error_file);
    push_str(&mut s, "\n");
    let ghost head = s@;
    match last_error {
        FileRead::Contents(c) => {
            let h = paint(Tone::Header, "--- last error ---", use_color);
            push_str(&mut s, h.as_str());
            push_str(&mut s, "\n");
            push_shown_json(&mut s, c.as_str());
            push_str(&mut s, "\n");
        },
        FileRead::NotFound => push_str(&mut s, "no last error recorded\n"),
        FileRead::Failed(e) => {
            push_str(&mut s, "could not read last-error.json: ");
            push_str(&mut s, e.as_str());
            push_str(&mut s, "\n");
        },
    }
    assert(s@ =~= head + last_error_section(*last_error, use_color));
    let ghost mid = s@;
    match log {
        FileRead::Contents(c) => {
            let h = paint(Tone::Header, "--- recent events ---", use_color);
            push_str(&mut s, h.as_str());
            push_str(&mut s, "\n");
            let ghost base = s@;
            let lines = recent_log_lines(c.as_str());
            let ghost lv = views(lines@);
            let n = lines.len();
            assert(lv.take(0) =~= Seq::<Seq<char>>::empty());
            for i in 0..n
                invariant
                    n == lines@.len(),
                    lv == views(lines@),
                    s@ == base + shown_lines(lv.take(i as int)),
            {
                let text = chars_to_string(&lines[i]);
                assert(lv[i as int] == lines@[i as int]@);
                push_shown_json(&mut s, text.as_str());
                push_str(&mut s, "\n");
                assert(lv.take(i + 1).drop_last() =~= lv.take(i as int));
            }
            assert(lv.take(n as int) =~= lv);
        },
        FileRead::NotFound => push_str(&mut s, "no log entries (logging disabled or no invocations yet)\n"),
        FileRead::Failed(e) => {
            push_str(&mut s, "could not read hooks.log: ");
            push_str(&mut s, e.as_str());
            push_str(&mut s, "\n");
        },
    }
    assert(s@ =~= mid + events_section(*log, use_color));
    chars_to_string(&s)
}

} // verus!
