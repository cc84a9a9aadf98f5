//! Shell hooks that capture a command's output for `jev check`, and the
//! decisions of the non-PTY flows (`exec`, `check`, `install-hook`).
use vstd::prelude::*;

use crate::errors::{toolchain_label, ErrorFinding};
use crate::text::{
    contains, contains_text, last_chars, lowercased, occurs_at, push_text, starts_with_text,
    take_last, text_eq, to_lowercase_str,
};

verus! {

/// Marker written into shell profiles so `install-hook --write` is idempotent.
pub const HOOK_MARKER: &'static str = "# jev-terminal-doctor hook";

/// PowerShell wrapper (after the marker): runs any command, streams output,
/// then feeds the captured output plus exit code to `jev check`.
pub const POWERSHELL_HOOK_BODY: &'static str = r#" — paste into $PROFILE (or run `jev install-hook --shell powershell --write`)
function jev-run {
    $jevTmp = [System.IO.Path]::GetTempFileName()
    try {
        $cmd = $args[0]
        $rest = @()
        if ($args.Count -gt 1) { $rest = $args[1..($args.Count - 1)] }
        & $cmd @rest 2>&1 | Tee-Object -FilePath $jevTmp
        $code = 0
        if ($null -ne $LASTEXITCODE) { $code = $LASTEXITCODE } elseif (-not $?) { $code = 1 }
        jev check --exit-code $code --output-file $jevTmp
    } finally { Remove-Item $jevTmp -ErrorAction SilentlyContinue }
}
"#;

/// Bash wrapper (after the marker) using PIPESTATUS so the real exit code survives the `tee` pipe.
pub const BASH_HOOK_BODY: &'static str = r#" — paste into ~/.bashrc (or run `jev install-hook --shell bash --write`)
jev-run() {
  local jev_tmp code
  jev_tmp="$(mktemp)" || return 1
  "$@" 2>&1 | tee "$jev_tmp"
  code="${PIPESTATUS[0]}"
  jev check --exit-code "$code" --output-file "$jev_tmp" --cwd "$PWD"
  rm -f "$jev_tmp"
  return "$code"
}
"#;

/// Zsh wrapper after the marker (zsh uses lowercase `pipestatus`).
pub const ZSH_HOOK_BODY: &'static str = r#" — paste into ~/.zshrc (or run `jev install-hook --shell zsh --write`)
jev-run() {
  local jev_tmp code
  jev_tmp="$(mktemp)" || return 1
  "$@" 2>&1 | tee "$jev_tmp"
  code="${pipestatus[1]}"
  jev check --exit-code "$code" --output-file "$jev_tmp" --cwd "$PWD"
  rm -f "$jev_tmp"
  return "$code"
}
"#;

/// The PowerShell hook snippet: the marker line opens it.
pub open spec fn powershell_hook() -> Seq<char> {
    HOOK_MARKER@ + POWERSHELL_HOOK_BODY@
}

/// The bash hook snippet: the marker line opens it.
pub open spec fn bash_hook() -> Seq<char> {
    HOOK_MARKER@ + BASH_HOOK_BODY@
}

/// The zsh hook snippet: the marker line opens it.
pub open spec fn zsh_hook() -> Seq<char> {
    HOOK_MARKER@ + ZSH_HOOK_BODY@
}

fn marked(body: &str) -> (res: String)
    ensures
        res@ == HOOK_MARKER@ + body@,
{
    let mut s = String::new();
    push_text(&mut s, HOOK_MARKER);
    push_text(&mut s, body);
    s
}

/// The PowerShell hook snippet.
pub fn powershell_snippet() -> (res: String)
    ensures
        res@ == powershell_hook(),
{
    marked(POWERSHELL_HOOK_BODY)
}

/// The bash hook snippet.
pub fn bash_snippet() -> (res: String)
    ensures
        res@ == bash_hook(),
{
    marked(BASH_HOOK_BODY)
}

/// The zsh hook snippet.
pub fn zsh_snippet() -> (res: String)
    ensures
        res@ == zsh_hook(),
{
    marked(ZSH_HOOK_BODY)
}

/// The shell kind assumed when none is given: PowerShell on Windows, else
/// the value of `$SHELL` (or "bash" when it is unset or not Unicode).
pub open spec fn default_shell_kind(windows: bool, shell_env: Option<Seq<char>>) -> Seq<char> {
    if windows {
        "powershell"@
    } else {
        match shell_env {
            Some(s) => s,
            None => "bash"@,
        }
    }
}

/// The shell kind assumed when none is given.
pub fn shell_kind(windows: bool, shell_env: Option<&str>) -> (res: String)
    ensures
        res@ == default_shell_kind(windows, match shell_env {
            Some(s) => Some(s@),
            None => None::<Seq<char>>,
        }),
{
    if windows {
        return crate::text::owned("powershell");
    }
    match shell_env {
        Some(s) => crate::text::owned(s),
        None => crate::text::owned("bash"),
    }
}

/// The snippet for a shell name: its lowercase form is searched for
/// "powershell"/"pwsh", then "zsh", then "bash" (or is exactly "sh").
pub open spec fn snippet_choice(kind: Seq<char>) -> Option<Seq<char>> {
    let k = lowercased(kind);
    if contains_text(k, "powershell"@) || contains_text(k, "pwsh"@) {
        Some(powershell_hook())
    } else if contains_text(k, "zsh"@) {
        Some(zsh_hook())
    } else if contains_text(k, "bash"@) || k == "sh"@ {
        Some(bash_hook())
    } else {
        None
    }
}

/// The hook snippet for a shell name, if the shell is supported.
pub fn snippet_for(kind: &str) -> (res: Option<String>)
    ensures
        match res {
            Some(s) => snippet_choice(kind@) == Some(s@),
            None => snippet_choice(kind@) is None,
        },
{
    let k = to_lowercase_str(kind);
    if contains(k.as_str(), "powershell") || contains(k.as_str(), "pwsh") {
        Some(powershell_snippet())
    } else if contains(k.as_str(), "zsh") {
        Some(zsh_snippet())
    } else if contains(k.as_str(), "bash") || text_eq(k.as_str(), "sh") {
        Some(bash_snippet())
    } else {
        None
    }
}

/// Every hook snippet begins with the hook marker.
pub proof fn lemma_snippets_begin_with_marker()
    ensures
        starts_with_text(powershell_hook(), HOOK_MARKER@),
        starts_with_text(bash_hook(), HOOK_MARKER@),
        starts_with_text(zsh_hook(), HOOK_MARKER@),
{
    assert(powershell_hook().take(HOOK_MARKER@.len() as int) =~= HOOK_MARKER@);
    assert(bash_hook().take(HOOK_MARKER@.len() as int) =~= HOOK_MARKER@);
    assert(zsh_hook().take(HOOK_MARKER@.len() as int) =~= HOOK_MARKER@);
}

/// The text printed by `install-hook` without `--write`.
pub open spec fn hook_print_text(snippet: Seq<char>) -> Seq<char> {
    snippet + "\n# Reload your shell config afterwards (e.g. `. ~/.bashrc`)."@
}

/// The text printed by `install-hook` without `--write`.
pub fn hook_instructions(snippet: &str) -> (res: String)
    ensures
        res@ == hook_print_text(snippet@),
{
    let mut s = String::new();
    push_text(&mut s, snippet);
    push_text(&mut s, "\n# Reload your shell config afterwards (e.g. `. ~/.bashrc`).");
    s
}

/// The text appended to a profile: a blank line, the snippet, a newline.
pub open spec fn hook_append_text(snippet: Seq<char>) -> Seq<char> {
    "\n"@ + snippet + "\n"@
}

/// The text appended to a shell profile by `install-hook --write`.
pub fn hook_profile_addition(snippet: &str) -> (res: String)
    ensures
        res@ == hook_append_text(snippet@),
{
    let mut s = String::new();
    push_text(&mut s, "\n");
    push_text(&mut s, snippet);
    push_text(&mut s, "\n");
    s
}

/// Whether a profile already holds the hook (it contains the marker).
pub fn hook_already_installed(profile: &str) -> (res: bool)
    ensures
        res == contains_text(profile@, HOOK_MARKER@),
{
    contains(profile, HOOK_MARKER)
}

/// Installing is idempotent: once the snippet for a supported shell has been
/// appended to a profile, the profile is seen as already holding the hook.
pub proof fn lemma_install_is_idempotent(existing: Seq<char>, kind: Seq<char>)
    requires
        snippet_choice(kind) is Some,
    ensures
        contains_text(existing + hook_append_text(snippet_choice(kind)->0), HOOK_MARKER@),
{
    lemma_snippets_begin_with_marker();
    reveal_strlit("\n");
    let s = snippet_choice(kind)->0;
    let all = existing + hook_append_text(s);
    let i: int = existing.len() as int + 1;
    let m = HOOK_MARKER@;
    assert(s == powershell_hook() || s == bash_hook() || s == zsh_hook());
    assert(starts_with_text(s, m));
    assert(s.take(m.len() as int) == m);
    assert(all.subrange(i, i + m.len() as int) =~= s.take(m.len() as int));
    assert(occurs_at(all, m, i));
}

/// Where the profile of a shell lives, as path parts joined under the home
/// directory: on Windows PowerShell 7's profile when its directory exists,
/// else Windows PowerShell's; elsewhere `.config/powershell`; `.zshrc` for
/// zsh; `.bashrc` otherwise.
pub open spec fn profile_parts(kind: Seq<char>, windows: bool, ps7_dir_exists: bool) -> Seq<Seq<char>> {
    let k = lowercased(kind);
    if contains_text(k, "powershell"@) || contains_text(k, "pwsh"@) {
        if windows {
            if ps7_dir_exists {
                seq!["Documents"@, "PowerShell"@, "Microsoft.PowerShell_profile.ps1"@]
            } else {
                seq!["Documents"@, "WindowsPowerShell"@, "Microsoft.PowerShell_profile.ps1"@]
            }
        } else {
            seq![".config/powershell/Microsoft.PowerShell_profile.ps1"@]
        }
    } else if contains_text(k, "zsh"@) {
        seq![".zshrc"@]
    } else {
        seq![".bashrc"@]
    }
}

fn parts_of(parts: &[&str]) -> (res: Vec<String>)
    ensures
        res.deep_view() == parts@.map_values(|p: &str| p@),
{
    let mut res: Vec<String> = Vec::new();
    let mut i: usize = 0;
    while i < parts.len()
        invariant
            i <= parts.len(),
            res.deep_view() == parts@.take(i as int).map_values(|p: &str| p@),
        decreases parts.len() - i,
    {
        let mut s = String::new();
        push_text(&mut s, parts[i]);
        res.push(s);
        assert(parts@.take(i + 1).map_values(|p: &str| p@) =~= parts@.take(i as int).map_values(|p: &str| p@).push(parts@[i as int]@));
        assert(res.deep_view() =~= parts@.take(i + 1).map_values(|p: &str| p@));
        i = i + 1;
    }
    assert(parts@.take(parts.len() as int) =~= parts@);
    res
}

/// The directory whose existence selects PowerShell 7's profile on Windows,
/// as path parts under the home directory.
pub fn ps7_profile_dir() -> (res: Vec<String>)
    ensures
        res.deep_view() == seq!["Documents"@, "PowerShell"@],
{
    let r = parts_of(&["Documents", "PowerShell"]);
    assert(r.deep_view() =~= seq!["Documents"@, "PowerShell"@]);
    r
}

/// The profile file of a shell, as path parts under the home directory.
pub fn profile_path(kind: &str, windows: bool, ps7_dir_exists: bool) -> (res: Vec<String>)
    ensures
        res.deep_view() == profile_parts(kind@, windows, ps7_dir_exists),
{
    let k = to_lowercase_str(kind);
    let r = if contains(k.as_str(), "powershell") || contains(k.as_str(), "pwsh") {
        if windows {
            if ps7_dir_exists {
                parts_of(&["Documents", "PowerShell", "Microsoft.PowerShell_profile.ps1"])
            } else {
                parts_of(&["Documents", "WindowsPowerShell", "Microsoft.PowerShell_profile.ps1"])
            }
        } else {
            parts_of(&[".config/powershell/Microsoft.PowerShell_profile.ps1"])
        }
    } else if contains(k.as_str(), "zsh") {
        parts_of(&[".zshrc"])
    } else {
        parts_of(&[".bashrc"])
    };
    assert(r.deep_view() =~= profile_parts(kind@, windows, ps7_dir_exists));
    r
}

/// `jev check` looks at no more than this many trailing characters.
pub const CHECK_TAIL_CHARS: usize = 262144;

/// The last `max_chars` characters of `s`.
pub fn tail_chars(s: &str, max_chars: usize) -> (res: String)
    ensures
        res@ == take_last(s@, max_chars as int),
{
    last_chars(s, max_chars)
}

/// The decimal digits of a natural number.
pub open spec fn nat_digits(n: nat) -> Seq<char>
    decreases n,
{
    if n < 10 {
        seq![(n + '0' as nat) as char]
    } else {
        nat_digits(n / 10) + seq![((n % 10) + '0' as nat) as char]
    }
}

/// The decimal text of an integer, with a leading `-` when negative.
pub open spec fn decimal_text(n: int) -> Seq<char> {
    if n < 0 {
        "-"@ + nat_digits((-n) as nat)
    } else {
        nat_digits(n as nat)
    }
}

fn digit_char(d: u8) -> (c: char)
    requires
        d < 10,
    ensures
        c == ((d as nat) + '0' as nat) as char,
{
    match d {
        0 => '0',
        1 => '1',
        2 => '2',
        3 => '3',
        4 => '4',
        5 => '5',
        6 => '6',
        7 => '7',
        8 => '8',
        _ => '9',
    }
}

fn push_nat(out: &mut String, n: u64)
    ensures
        final(out)@ == old(out)@ + nat_digits(n as nat),
    decreases n,
{
    if n >= 10 {
        push_nat(out, n / 10);
    }
    let c = digit_char((n % 10) as u8);
    out.push(c);
    assert(out@ =~= old(out)@ + nat_digits(n as nat));
}

/// The decimal text of an `i32`, as `{}` formats it.
pub fn int_text(n: i32) -> (res: String)
    ensures
        res@ == decimal_text(n as int),
{
    let mut s = String::new();
    if n < 0 {
        push_text(&mut s, "-");
        let m: i64 = -(n as i64);
        push_nat(&mut s, m as u64);
    } else {
        push_nat(&mut s, n as u64);
    }
    s
}

/// The report printed by `jev check` when an error was found and a patch
/// was prepared.
pub open spec fn found_report_text(f: crate::errors::FindingView, provider: Seq<char>, explanation: Seq<char>) -> Seq<char> {
    "[jev] ["@ + crate::errors::toolchain_name(f.0) + "] error in "@ + (match f.2 {
        Some(p) => p,
        None => "unknown location"@,
    }) + " — patch ready ("@ + provider + ")\n  "@ + explanation
        + "\n  Next: `jev show` to view, `jev apply` to apply, `jev undo` to revert"@
}

/// Formats the report printed when an error was found and a patch prepared.
pub fn found_report(finding: &ErrorFinding, provider: &str, explanation: &str) -> (res: String)
    ensures
        res@ == found_report_text(finding@, provider@, explanation@),
{
    let mut s = String::new();
    push_text(&mut s, "[jev] [");
    push_text(&mut s, toolchain_label(finding.toolchain));
    push_text(&mut s, "] error in ");
    match &finding.file_hint {
        Some(p) => push_text(&mut s, p.as_str()),
        None => push_text(&mut s, "unknown location"),
    }
    push_text(&mut s, " — patch ready (");
    push_text(&mut s, provider);
    push_text(&mut s, ")\n  ");
    push_text(&mut s, explanation);
    push_text(&mut s, "\n  Next: `jev show` to view, `jev apply` to apply, `jev undo` to revert");
    s
}

/// The report printed by `jev check` when no error pattern matched: a
/// failure notice for a non-zero exit code, else a clean bill.
pub open spec fn no_finding_text(exit_code: Option<i32>) -> Seq<char> {
    match exit_code {
        Some(code) if code != 0 => "[jev] command failed (exit "@ + decimal_text(code as int)
            + ") but no known error pattern matched — nothing saved."@,
        _ => "[jev] no errors detected."@,
    }
}

/// Formats the report printed when no error pattern matched.
pub fn no_finding_report(exit_code: Option<i32>) -> (res: String)
    ensures
        res@ == no_finding_text(exit_code),
{
    let mut s = String::new();
    match exit_code {
        Some(code) => {
            if code != 0 {
                push_text(&mut s, "[jev] command failed (exit ");
                let t = int_text(code);
                push_text(&mut s, t.as_str());
                push_text(&mut s, ") but no known error pattern matched — nothing saved.");
                return s;
            }
        },
        None => {},
    }
    push_text(&mut s, "[jev] no errors detected.");
    s
}

/// The exit code reported for a finished child: its own code, else 0 for a
/// success and 1 for a failure (killed by a signal).
pub fn exit_code_from(code: Option<i32>, success: bool) -> (res: i32)
    ensures
        res == match code {
            Some(c) => c,
            None => if success {
                0i32
            } else {
                1i32
            },
        },
{
    match code {
        Some(c) => c,
        None => if success {
            0
        } else {
            1
        },
    }
}

/// The output analyzed after `jev exec`: standard output, a newline, then
/// standard error.
pub fn combine_output(stdout: &str, stderr: &str) -> (res: String)
    ensures
        res@ == stdout@ + "\n"@ + stderr@,
{
    let mut s = String::new();
    push_text(&mut s, stdout);
    push_text(&mut s, "\n");
    push_text(&mut s, stderr);
    s
}

/// Once a stream buffer holds more than this many bytes, its oldest half is
/// dropped before more is appended.
pub const STREAM_BUFFER_CAP: usize = 524288;

/// The buffer after a chunk is appended: when the buffer is over the cap,
/// its oldest half is dropped first.
pub open spec fn capped_append(buf: Seq<u8>, chunk: Seq<u8>) -> Seq<u8> {
    if buf.len() > STREAM_BUFFER_CAP {
        buf.skip((buf.len() / 2) as int) + chunk
    } else {
        buf + chunk
    }
}

/// The stream buffer stays bounded: fed chunks of at most the cap, a buffer
/// within twice the cap stays within twice the cap.
pub proof fn lemma_stream_buffer_is_bounded(buf: Seq<u8>, chunk: Seq<u8>)
    requires
        buf.len() <= 2 * STREAM_BUFFER_CAP,
        chunk.len() <= STREAM_BUFFER_CAP,
    ensures
        capped_append(buf, chunk).len() <= 2 * STREAM_BUFFER_CAP,
{
}

/// Appends a chunk to a bounded stream buffer.
pub fn append_capped(buf: &mut Vec<u8>, chunk: &[u8])
    ensures
        final(buf)@ == capped_append(old(buf)@, chunk@),
{
    let ghost start = buf@;
    if buf.len() > STREAM_BUFFER_CAP {
        let drop_n = buf.len() / 2;
        let tail = buf.split_off(drop_n);
        *buf = tail;
    }
    let ghost kept = buf@;
    let mut i: usize = 0;
    while i < chunk.len()
        invariant
            i <= chunk.len(),
            buf@ == kept + chunk@.take(i as int),
        decreases chunk.len() - i,
    {
        buf.push(chunk[i]);
        assert(chunk@.take(i + 1) =~= chunk@.take(i as int).push(chunk@[i as int]));
        i = i + 1;
    }
    assert(chunk@.take(chunk.len() as int) =~= chunk@);
    assert(kept == if start.len() > STREAM_BUFFER_CAP {
        start.skip((start.len() / 2) as int)
    } else {
        start
    });
}

} // verus!
