//! Decisions of the wrapped-shell session: which shell to start, and the
//! analyzer that turns the stream of output chunks into pipeline runs.
//!
//! The analyzer keeps a sliding window of the most recent output (at most
//! `WINDOW_BYTES` bytes of UTF-8), scans it after every chunk, and reports a
//! finding only outside the cooldown and when it is not a recent repeat.
use vstd::prelude::*;
use vstd::utf8::{encode_scalar, encode_utf8};

use crate::errors::detector::{ansi_stripped, scan, scan_model};
use crate::errors::{ErrorFinding, FindingView};
use crate::text::{chars_of, owned, push_text, string_of_range, trim_str, trimmed};

verus! {

/// The analyzer keeps at most this many bytes of recent output.
pub const WINDOW_BYTES: usize = 32768;

/// No pipeline run starts within this many milliseconds of the last one.
pub const COOLDOWN_MS: u64 = 15000;

/// The same finding is not reported again within this many milliseconds
/// (four cooldowns); seeing it clears the window instead.
pub const REPEAT_MS: u64 = 60000;

/// The shell to start and its extra arguments: a non-blank `$SHELL` wins;
/// on Windows PowerShell when the parent session is PowerShell
/// (`PSModulePath` set), else `COMSPEC` (or `cmd.exe`); elsewhere `/bin/bash`.
pub open spec fn shell_choice(
    shell_env: Option<Seq<char>>,
    windows: bool,
    ps_module_path_set: bool,
    comspec: Option<Seq<char>>,
) -> (Seq<char>, Seq<Seq<char>>) {
    if shell_env is Some && trimmed(shell_env->0).len() != 0 {
        (shell_env->0, seq![])
    } else if windows {
        if ps_module_path_set {
            ("powershell.exe"@, seq!["-NoLogo"@])
        } else {
            (
                match comspec {
                    Some(c) => c,
                    None => "cmd.exe"@,
                },
                seq![],
            )
        }
    } else {
        ("/bin/bash"@, seq![])
    }
}

pub open spec fn opt_view(o: Option<&str>) -> Option<Seq<char>> {
    match o {
        Some(s) => Some(s@),
        None => None,
    }
}

/// Picks the shell to wrap from what the environment says.
pub fn default_shell(
    shell_env: Option<&str>,
    windows: bool,
    ps_module_path_set: bool,
    comspec: Option<&str>,
) -> (res: (String, Vec<String>))
    ensures
        (res.0@, res.1.deep_view()) == shell_choice(opt_view(shell_env), windows, ps_module_path_set, opt_view(comspec)),
{
    match shell_env {
        Some(sh) => {
            if !trim_str(sh).is_empty() {
                let r = (owned(sh), Vec::new());
                assert(r.1.deep_view() =~= Seq::<Seq<char>>::empty());
                return r;
            }
        },
        None => {},
    }
    if windows {
        if ps_module_path_set {
            let mut args = Vec::new();
            args.push(owned("-NoLogo"));
            assert(args.deep_view() =~= seq!["-NoLogo"@]);
            return (owned("powershell.exe"), args);
        }
        let shell = match comspec {
            Some(c) => owned(c),
            None => owned("cmd.exe"),
        };
        let r = (shell, Vec::new());
        assert(r.1.deep_view() =~= Seq::<Seq<char>>::empty());
        return r;
    }
    let r = (owned("/bin/bash"), Vec::new());
    assert(r.1.deep_view() =~= Seq::<Seq<char>>::empty());
    r
}

/// The number of bytes of the UTF-8 encoding of `s`.
pub open spec fn utf8_len(s: Seq<char>) -> nat {
    encode_utf8(s).len()
}

/// `s` without its shortest prefix of at least `cut` bytes (whole
/// characters are dropped, so the cut moves forward to a character
/// boundary).
pub open spec fn drop_bytes(s: Seq<char>, cut: int) -> Seq<char>
    decreases s.len(),
{
    if cut <= 0 || s.len() == 0 {
        s
    } else {
        drop_bytes(s.drop_first(), cut - encode_scalar(s[0] as u32).len())
    }
}

/// The sliding window: the text itself when it fits in `WINDOW_BYTES`
/// bytes, else the text after its oldest bytes over that bound (cut at a
/// character boundary).
pub open spec fn window(s: Seq<char>) -> Seq<char> {
    if utf8_len(s) > WINDOW_BYTES {
        drop_bytes(s, utf8_len(s) - WINDOW_BYTES)
    } else {
        s
    }
}

proof fn lemma_utf8_len_step(s: Seq<char>, k: int)
    requires
        0 <= k < s.len(),
    ensures
        utf8_len(s.skip(k)) == encode_scalar(s[k] as u32).len() + utf8_len(s.skip(k + 1)),
{
    let t = s.skip(k);
    assert(t.drop_first() =~= s.skip(k + 1));
    assert(t[0] == s[k]);
}

proof fn lemma_drop_bytes_len(s: Seq<char>, cut: int)
    requires
        0 <= cut <= utf8_len(s),
    ensures
        utf8_len(drop_bytes(s, cut)) <= utf8_len(s) - cut,
    decreases s.len(),
{
    if cut > 0 && s.len() > 0 {
        lemma_utf8_len_step(s, 0);
        assert(s.skip(0) =~= s);
        assert(s.skip(1) =~= s.drop_first());
        let w = encode_scalar(s[0] as u32).len();
        if cut - w <= 0 {
            assert(drop_bytes(s.drop_first(), cut - w) == s.drop_first());
        } else {
            lemma_drop_bytes_len(s.drop_first(), cut - w);
        }
    }
}

/// Dropping bytes keeps the end of the text: the result is a suffix of it.
proof fn lemma_drop_bytes_suffix(s: Seq<char>, cut: int)
    ensures
        drop_bytes(s, cut).len() <= s.len(),
        drop_bytes(s, cut) == s.skip(s.len() - drop_bytes(s, cut).len()),
    decreases s.len(),
{
    if cut <= 0 || s.len() == 0 {
        assert(s.skip(0) =~= s);
    } else {
        let w = encode_scalar(s[0] as u32).len();
        lemma_drop_bytes_suffix(s.drop_first(), cut - w);
        let r = drop_bytes(s.drop_first(), cut - w);
        assert(s.drop_first().skip(s.drop_first().len() - r.len()) =~= s.skip(s.len() - r.len()));
    }
}

/// Dropping at most the bytes before position `m` keeps everything from
/// `m` on.
proof fn lemma_drop_bytes_keeps(s: Seq<char>, cut: int, m: int)
    requires
        0 <= m <= s.len(),
        utf8_len(s.skip(m)) + cut <= utf8_len(s),
    ensures
        drop_bytes(s, cut).len() >= s.len() - m,
    decreases s.len(),
{
    if cut > 0 && s.len() > 0 {
        assert(s.skip(0) =~= s);
        if m == 0 {
            assert(false);
        } else {
            lemma_utf8_len_step(s, 0);
            assert(s.skip(1) =~= s.drop_first());
            assert(s.drop_first().skip(m - 1) =~= s.skip(m));
            let w = encode_scalar(s[0] as u32).len();
            lemma_drop_bytes_keeps(s.drop_first(), cut - w, m - 1);
        }
    }
}

/// The analyzer's window is the recent output in arrival order: after a
/// chunk, the window is a suffix of the old window followed by the chunk
/// (empty when it was cleared); when it is not cleared it ends with the
/// whole chunk, provided the chunk alone fits in `WINDOW_BYTES`; and when
/// the old window and the chunk together fit and nothing is found in them,
/// the window is exactly the old window followed by the chunk.
pub proof fn lemma_window_keeps_recent_output(buffer: Seq<char>, last: Seq<char>, chunk: Seq<char>, since_report_ms: u64)
    ensures
        ({
            let b = analyzer_step(buffer, last, chunk, since_report_ms).0;
            let all = buffer + chunk;
            &&& b.len() <= all.len()
            &&& b == all.skip(all.len() - b.len())
            &&& b.len() > 0 && utf8_len(chunk) <= WINDOW_BYTES ==> b.len() >= chunk.len()
            &&& utf8_len(all) <= WINDOW_BYTES && scan_model(ansi_stripped(all)) is None ==> b == all
        }),
{
    let all = buffer + chunk;
    let b = analyzer_step(buffer, last, chunk, since_report_ms).0;
    assert(all.skip(buffer.len() as int) =~= chunk);
    if utf8_len(all) > WINDOW_BYTES {
        let cut = utf8_len(all) - WINDOW_BYTES;
        lemma_drop_bytes_suffix(all, cut);
        if utf8_len(chunk) <= WINDOW_BYTES {
            lemma_drop_bytes_keeps(all, cut, buffer.len() as int);
        }
    } else {
        assert(all.skip(0) =~= all);
    }
    if b.len() == 0 {
        assert(all.skip(all.len() as int) =~= b);
    }
}

/// The window never holds more than `WINDOW_BYTES` bytes.
pub proof fn lemma_window_is_bounded(s: Seq<char>)
    ensures
        utf8_len(window(s)) <= WINDOW_BYTES,
{
    if utf8_len(s) > WINDOW_BYTES {
        lemma_drop_bytes_len(s, utf8_len(s) - WINDOW_BYTES);
    }
}

/// The number of bytes `c` takes in UTF-8.
fn char_width(c: char) -> (w: usize)
    ensures
        w == encode_scalar(c as u32).len(),
        1 <= w <= 4,
{
    proof {
        vstd::utf8::char_is_scalar(c);
    }
    let u = c as u32;
    assert(1 <= encode_scalar(u).len() <= 4);
    if u <= 0x7F {
        1
    } else if u <= 0x7FF {
        2
    } else if u <= 0xFFFF {
        3
    } else {
        4
    }
}

/// The number of bytes of the UTF-8 encoding of the characters.
fn utf8_size(cs: &Vec<char>) -> (total: u128)
    ensures
        total == utf8_len(cs@),
{
    let mut total: u128 = 0;
    let mut k: usize = cs.len();
    assert(cs@.skip(cs.len() as int).len() == 0);
    while k > 0
        invariant
            k <= cs.len(),
            total == utf8_len(cs@.skip(k as int)),
            total <= 4 * (cs.len() - k),
        decreases k,
    {
        proof {
            lemma_utf8_len_step(cs@, k - 1);
        }
        let w = char_width(cs[k - 1]);
        total = total + w as u128;
        k = k - 1;
    }
    assert(cs@.skip(0) =~= cs@);
    total
}

/// Cuts a text to the sliding window.
pub fn window_text(s: &str) -> (res: String)
    ensures
        res@ == window(s@),
{
    let cs = chars_of(s);
    let total = utf8_size(&cs);
    if total <= WINDOW_BYTES as u128 {
        return owned(s);
    }
    let cut = total - WINDOW_BYTES as u128;
    let mut dropped: u128 = 0;
    let mut k: usize = 0;
    assert(s@.skip(0) =~= s@);
    while dropped < cut && k < cs.len()
        invariant
            cs@ == s@,
            k <= cs.len(),
            total == utf8_len(s@),
            cut == utf8_len(s@) - WINDOW_BYTES,
            dropped + utf8_len(s@.skip(k as int)) == total,
            drop_bytes(s@, cut as int) == drop_bytes(s@.skip(k as int), cut - dropped),
        decreases cs.len() - k,
    {
        proof {
            lemma_utf8_len_step(s@, k as int);
            let t = s@.skip(k as int);
            assert(t.drop_first() =~= s@.skip(k + 1));
            assert(t[0] == s@[k as int]);
        }
        let w = char_width(cs[k]);
        dropped = dropped + w as u128;
        k = k + 1;
    }
    proof {
        let t = s@.skip(k as int);
        if k == cs.len() {
            assert(t.len() == 0);
        }
    }
    let r = string_of_range(&cs, k, cs.len());
    assert(r@ =~= s@.skip(k as int));
    r
}

/// What the analyzer does after a chunk of output.
#[derive(Debug)]
pub enum AnalyzerAction {
    /// Nothing to report yet.
    Wait,
    /// Run the patch pipeline for this finding.
    Report(ErrorFinding),
}

/// The analyzer's state: the window of recent output and the snippet of
/// the last reported finding.
pub struct Analyzer {
    pub buffer: String,
    pub last_snippet: String,
}

/// One analyzer step for a chunk, given the milliseconds since the last
/// report: the new buffer, the new last snippet, and the finding to report.
pub open spec fn analyzer_step(
    buffer: Seq<char>,
    last: Seq<char>,
    chunk: Seq<char>,
    since_report_ms: u64,
) -> (Seq<char>, Seq<char>, Option<FindingView>) {
    let b = window(buffer + chunk);
    match scan_model(ansi_stripped(b)) {
        None => (b, last, None),
        Some(f) => if f.1 == last && since_report_ms < REPEAT_MS {
            (seq![], last, None)
        } else if since_report_ms < COOLDOWN_MS {
            (b, last, None)
        } else {
            (seq![], f.1, Some(f))
        },
    }
}

impl Analyzer {
    /// A fresh analyzer with an empty window and no reported snippet.
    pub fn new() -> (res: Self)
        ensures
            res.buffer@ == Seq::<char>::empty(),
            res.last_snippet@ == Seq::<char>::empty(),
    {
        Analyzer { buffer: String::new(), last_snippet: String::new() }
    }

    /// Feeds a chunk of output; `since_report_ms` is the time since the last
    /// report (or since a minute before the session started).
    pub fn on_output(&mut self, chunk: &str, since_report_ms: u64) -> (act: AnalyzerAction)
        ensures
            ({
                let (b, l, f) = analyzer_step(old(self).buffer@, old(self).last_snippet@, chunk@, since_report_ms);
                &&& final(self).buffer@ == b
                &&& final(self).last_snippet@ == l
                &&& match act {
                    AnalyzerAction::Wait => f is None,
                    AnalyzerAction::Report(x) => f == Some(x@),
                }
            }),
            // The window stays bounded.
            utf8_len(final(self).buffer@) <= WINDOW_BYTES,
            // The window is the most recent output, in arrival order: a suffix
            // of the old window followed by the chunk, ending with the whole
            // chunk when it is kept and the chunk fits.
            ({
                let all = old(self).buffer@ + chunk@;
                let b = final(self).buffer@;
                &&& b.len() <= all.len()
                &&& b == all.skip(all.len() - b.len())
                &&& b.len() > 0 && utf8_len(chunk@) <= WINDOW_BYTES ==> b.len() >= chunk@.len()
                &&& utf8_len(all) <= WINDOW_BYTES && scan_model(ansi_stripped(all)) is None ==> b == all
            }),
            // No report within the cooldown.
            act is Report ==> since_report_ms >= COOLDOWN_MS,
            // No repeat of the last report within four cooldowns.
            act matches AnalyzerAction::Report(x) ==> !(x.raw_snippet@ == old(self).last_snippet@ && since_report_ms < REPEAT_MS),
    {
        proof {
            lemma_window_keeps_recent_output(self.buffer@, self.last_snippet@, chunk@, since_report_ms);
        }
        let mut joined = String::new();
        push_text(&mut joined, self.buffer.as_str());
        push_text(&mut joined, chunk);
        let b = window_text(joined.as_str());
        proof {
            lemma_window_is_bounded(joined@);
            reveal_strlit("");
        }
        let found = scan(b.as_str());
        match found {
            None => {
                self.buffer = b;
                AnalyzerAction::Wait
            },
            Some(f) => {
                let repeat = crate::text::text_eq(f.raw_snippet.as_str(), self.last_snippet.as_str());
                if repeat && since_report_ms < REPEAT_MS {
                    self.buffer = String::new();
                    AnalyzerAction::Wait
                } else if since_report_ms < COOLDOWN_MS {
                    self.buffer = b;
                    AnalyzerAction::Wait
                } else {
                    self.buffer = String::new();
                    self.last_snippet = f.raw_snippet.clone();
                    AnalyzerAction::Report(f)
                }
            },
        }
    }
}

} // verus!
