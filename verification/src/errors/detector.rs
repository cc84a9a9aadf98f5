//! Heuristic error detection over captured command output.
//!
//! Each detection rule is a regular expression tried in a fixed priority
//! order; the first rule that matches decides the toolchain, and its
//! `file`/`line` groups (when the rule reads them) give the location.
use vstd::prelude::*;

use super::{ErrorFinding, FindingView, Toolchain};
use crate::text::{chars_of, last_chars, take_last};

verus! {

// Common error patterns for several toolchains.
pub const RUSTC_ERROR: &'static str = r"error(?:\[E\d+\])?:.*\n\s*-->\s*(?P<file>[^:]+):(?P<line>\d+):\d+";

pub const RUST_PANIC: &'static str = r"thread '.*?' panicked at (?P<file>[\w./\\-]+\.rs):(?P<line>\d+):\d+";

pub const CARGO_TEST_FAIL: &'static str = r"test .* \.\.\. FAILED";

pub const NODE_ERROR: &'static str = r"(?:TypeError|ReferenceError|SyntaxError):.*\n\s*at .*\((?P<file>[^:]+):(?P<line>\d+):\d+\)";

/// tsc classic: `src/index.ts:10:5 - error TS2322: ...`
pub const TSC_ERROR: &'static str = r"(?P<file>[\w./\\-]+\.tsx?):(?P<line>\d+):\d+\s+-\s+error\s+TS\d+:";

/// tsc pretty: `src/index.ts(10,5): error TS2322: ...`
pub const TSC_PRETTY_ERROR: &'static str = r"(?P<file>[\w./\\-]+\.tsx?)\((?P<line>\d+),\d+\):\s+error\s+TS\d+:";

pub const NODE_CANNOT_FIND: &'static str = r"Error: Cannot find module '[^']+'";

pub const NPM_ERR: &'static str = r"npm ERR!";

pub const PYTHON_TRACEBACK: &'static str = r#"File "(?P<file>[^"]+)", line (?P<line>\d+).*\n.*\n(?P<err>\w+Error:.*)"#;

/// pytest short summary: `FAILED tests/test_x.py::test_y - ...`
pub const PYTEST_FAILED: &'static str = r"FAILED\s+(?P<file>[\w./\\-]+\.py)(::\S*)?\s+-";

/// pytest assertion body: lines starting with `E   ...`
pub const PYTEST_ASSERT: &'static str = r"(?m)^E\s+(AssertionError|assert .*)";

pub const GO_BUILD_ERROR: &'static str = r"(?m)(?P<file>[\w./\\-]+\.go):(?P<line>\d+):\d+: (?:.*(?:undefined|expected|error|cannot|invalid|missing|declared|redeclared|mismatch|too many|too few|not enough).*)$";

pub const GO_TEST_FAIL: &'static str = r"(?m)^--- FAIL:\s+\S+";

/// Maven: `[ERROR] src/main/java/App.java:[10,5] ...`
pub const MAVEN_ERROR: &'static str = r"\[ERROR\]\s+(?P<file>[\w./\\-]+\.java):\[(?P<line>\d+),\d+\]";

/// Gradle / javac: `src/main/java/App.java:10: error: ...`
pub const JAVAC_ERROR: &'static str = r"(?P<file>[\w./\\-]+\.java):(?P<line>\d+):\s+error:";

/// Number of detection rules.
pub const RULE_COUNT: usize = 15;

/// At most this many characters of the output are kept as the snippet.
pub const SNIPPET_CHARS: usize = 4000;

/// One detection rule: its pattern, the toolchain it reports, and whether
/// the `file` and `line` groups of its match are read.
#[derive(Clone, Copy)]
pub struct DetectRule {
    pub pattern: &'static str,
    pub toolchain: Toolchain,
    pub reads_file: bool,
    pub reads_line: bool,
}

/// The detection rules in priority order.
pub open spec fn detect_rule(i: int) -> DetectRule {
    if i == 0 {
        DetectRule { pattern: RUSTC_ERROR, toolchain: Toolchain::Rust, reads_file: true, reads_line: true }
    } else if i == 1 {
        DetectRule { pattern: RUST_PANIC, toolchain: Toolchain::Rust, reads_file: true, reads_line: true }
    } else if i == 2 {
        DetectRule { pattern: CARGO_TEST_FAIL, toolchain: Toolchain::Rust, reads_file: false, reads_line: false }
    } else if i == 3 {
        DetectRule { pattern: TSC_ERROR, toolchain: Toolchain::Node, reads_file: true, reads_line: true }
    } else if i == 4 {
        DetectRule { pattern: TSC_PRETTY_ERROR, toolchain: Toolchain::Node, reads_file: true, reads_line: true }
    } else if i == 5 {
        DetectRule { pattern: NODE_ERROR, toolchain: Toolchain::Node, reads_file: true, reads_line: true }
    } else if i == 6 {
        DetectRule { pattern: NODE_CANNOT_FIND, toolchain: Toolchain::Node, reads_file: false, reads_line: false }
    } else if i == 7 {
        DetectRule { pattern: NPM_ERR, toolchain: Toolchain::Node, reads_file: false, reads_line: false }
    } else if i == 8 {
        DetectRule { pattern: PYTHON_TRACEBACK, toolchain: Toolchain::Python, reads_file: true, reads_line: true }
    } else if i == 9 {
        DetectRule { pattern: PYTEST_FAILED, toolchain: Toolchain::Python, reads_file: true, reads_line: false }
    } else if i == 10 {
        DetectRule { pattern: PYTEST_ASSERT, toolchain: Toolchain::Python, reads_file: false, reads_line: false }
    } else if i == 11 {
        DetectRule { pattern: GO_BUILD_ERROR, toolchain: Toolchain::Go, reads_file: true, reads_line: true }
    } else if i == 12 {
        DetectRule { pattern: GO_TEST_FAIL, toolchain: Toolchain::Go, reads_file: false, reads_line: false }
    } else if i == 13 {
        DetectRule { pattern: MAVEN_ERROR, toolchain: Toolchain::Java, reads_file: true, reads_line: true }
    } else {
        DetectRule { pattern: JAVAC_ERROR, toolchain: Toolchain::Java, reads_file: true, reads_line: true }
    }
}

/// The `i`-th detection rule.
pub fn detection_rule(i: usize) -> (r: DetectRule)
    requires
        i < RULE_COUNT,
    ensures
        r == detect_rule(i as int),
{
    match i {
        0 => DetectRule { pattern: RUSTC_ERROR, toolchain: Toolchain::Rust, reads_file: true, reads_line: true },
        1 => DetectRule { pattern: RUST_PANIC, toolchain: Toolchain::Rust, reads_file: true, reads_line: true },
        2 => DetectRule { pattern: CARGO_TEST_FAIL, toolchain: Toolchain::Rust, reads_file: false, reads_line: false },
        3 => DetectRule { pattern: TSC_ERROR, toolchain: Toolchain::Node, reads_file: true, reads_line: true },
        4 => DetectRule { pattern: TSC_PRETTY_ERROR, toolchain: Toolchain::Node, reads_file: true, reads_line: true },
        5 => DetectRule { pattern: NODE_ERROR, toolchain: Toolchain::Node, reads_file: true, reads_line: true },
        6 => DetectRule { pattern: NODE_CANNOT_FIND, toolchain: Toolchain::Node, reads_file: false, reads_line: false },
        7 => DetectRule { pattern: NPM_ERR, toolchain: Toolchain::Node, reads_file: false, reads_line: false },
        8 => DetectRule { pattern: PYTHON_TRACEBACK, toolchain: Toolchain::Python, reads_file: true, reads_line: true },
        9 => DetectRule { pattern: PYTEST_FAILED, toolchain: Toolchain::Python, reads_file: true, reads_line: false },
        10 => DetectRule { pattern: PYTEST_ASSERT, toolchain: Toolchain::Python, reads_file: false, reads_line: false },
        11 => DetectRule { pattern: GO_BUILD_ERROR, toolchain: Toolchain::Go, reads_file: true, reads_line: true },
        12 => DetectRule { pattern: GO_TEST_FAIL, toolchain: Toolchain::Go, reads_file: false, reads_line: false },
        13 => DetectRule { pattern: MAVEN_ERROR, toolchain: Toolchain::Java, reads_file: true, reads_line: true },
        _ => DetectRule { pattern: JAVAC_ERROR, toolchain: Toolchain::Java, reads_file: true, reads_line: true },
    }
}

/// What `strip_ansi_escapes::strip_str` returns: the text with its ANSI
/// escape sequences removed.
pub uninterp spec fn ansi_stripped(s: Seq<char>) -> Seq<char>;

/// Calls `strip_ansi_escapes::strip_str`; the result is named `ansi_stripped`
/// of the argument. Its result holds only characters that the escape parser
/// prints again as they are (no ESC, no C0 or C1 control but `\n`), so
/// stripping it once more leaves it unchanged.
#[verifier::external_body]
pub fn strip_ansi(s: &str) -> (res: String)
    ensures
        res@ == ansi_stripped(s@),
        ansi_stripped(res@) == res@,
{
    strip_ansi_escapes::strip_str(s)
}

/// Whether `regex::Regex::is_match` finds a match of `pattern` in
/// `haystack` (false when `pattern` does not compile).
pub uninterp spec fn regex_matches(pattern: Seq<char>, haystack: Seq<char>) -> bool;

/// Compiles `pattern` with `regex::Regex::new` and calls `is_match`; the
/// result is named `regex_matches` of the pattern and the haystack. A
/// pattern that does not compile matches nothing.
#[verifier::external_body]
pub fn regex_is_match(pattern: &str, haystack: &str) -> (res: bool)
    ensures
        res == regex_matches(pattern@, haystack@),
{
    match regex::Regex::new(pattern) {
        Ok(re) => re.is_match(haystack),
        Err(_) => false,
    }
}

/// What `regex::Regex::captures` gives for the first match of `pattern` in
/// `haystack`: `None` when there is no match (or `pattern` does not
/// compile), else the text of the named `group` in that match, if the group
/// took part in it.
pub uninterp spec fn regex_capture_group(
    pattern: Seq<char>,
    haystack: Seq<char>,
    group: Seq<char>,
) -> Option<Option<Seq<char>>>;

/// Compiles `pattern` with `regex::Regex::new`, calls `captures` and reads the
/// named group with `Captures::name`; the result is named `regex_capture_group`
/// of the three arguments.
#[verifier::external_body]
pub fn regex_capture(pattern: &str, haystack: &str, group: &str) -> (res: Option<Option<String>>)
    ensures
        res.deep_view() == regex_capture_group(pattern@, haystack@, group@),
{
    let re = match regex::Regex::new(pattern) {
        Ok(re) => re,
        Err(_) => return None,
    };
    match re.captures(haystack) {
        None => None,
        Some(caps) => match caps.name(group) {
            None => Some(None),
            Some(m) => Some(Some(m.as_str().to_string())),
        },
    }
}

pub open spec fn is_ascii_digit(c: char) -> bool {
    '0' <= c <= '9'
}

pub open spec fn digit_value(c: char) -> nat {
    (c as u32 - '0' as u32) as nat
}

/// The value of a string of decimal digits.
pub open spec fn digits_value(d: Seq<char>) -> nat
    decreases d.len(),
{
    if d.len() == 0 {
        0
    } else {
        digits_value(d.drop_last()) * 10 + digit_value(d.last())
    }
}

/// The digits of an unsigned number: an optional leading `+` is dropped.
pub open spec fn unsigned_digits(s: Seq<char>) -> Seq<char> {
    if s.len() > 0 && s[0] == '+' {
        s.drop_first()
    } else {
        s
    }
}

/// What `from_str` of an unsigned integer type with largest value `max`
/// accepts: an optional `+`, then one or more ASCII digits whose value is at
/// most `max`.
pub open spec fn parsed_unsigned(s: Seq<char>, max: nat) -> Option<nat> {
    let d = unsigned_digits(s);
    if d.len() > 0 && (forall|i: int| 0 <= i < d.len() ==> is_ascii_digit(#[trigger] d[i]))
        && digits_value(d) <= max {
        Some(digits_value(d))
    } else {
        None
    }
}

/// What `u32::from_str` accepts.
pub open spec fn parsed_u32(s: Seq<char>) -> Option<u32> {
    match parsed_unsigned(s, u32::MAX as nat) {
        Some(v) => Some(v as u32),
        None => None,
    }
}

/// Parses an unsigned decimal number no larger than `max`, as `from_str`
/// of an unsigned integer type with that largest value does.
pub fn parse_decimal(s: &str, max: u64) -> (res: Option<u64>)
    ensures
        match res {
            Some(v) => parsed_unsigned(s@, max as nat) == Some(v as nat),
            None => parsed_unsigned(s@, max as nat) is None,
        },
{
    let cs = chars_of(s);
    let mut i: usize = 0;
    if cs.len() > 0 && cs[0] == '+' {
        i = 1;
    }
    let ghost d = unsigned_digits(s@);
    assert(d =~= s@.skip(i as int));
    if i >= cs.len() {
        return None;
    }
    let mut value: u128 = 0;
    let mut too_big = false;
    let start = i;
    while i < cs.len()
        invariant
            cs@ == s@,
            d == s@.skip(start as int),
            d == unsigned_digits(s@),
            start <= i <= cs.len(),
            start < cs.len(),
            forall|j: int| 0 <= j < i - start ==> is_ascii_digit(#[trigger] d[j]),
            !too_big ==> value == digits_value(d.take(i - start)) && value <= max,
            too_big ==> digits_value(d.take(i - start)) > max,
        decreases cs.len() - i,
    {
        let c = cs[i];
        if c < '0' || c > '9' {
            proof {
                let j = i - start;
                assert(d[j] == c);
                assert(!is_ascii_digit(d[j]));
            }
            return None;
        }
        let ghost k = i - start;
        proof {
            assert(d.take(k + 1).drop_last() =~= d.take(k));
            assert(d.take(k + 1).last() == c);
        }
        if !too_big {
            let dv = (c as u32 - '0' as u32) as u128;
            value = value * 10 + dv;
            if value > max as u128 {
                too_big = true;
            }
        } else {
            assert(digits_value(d.take(k + 1)) >= digits_value(d.take(k))) by (nonlinear_arith)
                requires
                    digits_value(d.take(k + 1)) == digits_value(d.take(k)) * 10 + digit_value(c),
            ;
        }
        i = i + 1;
    }
    assert(d.take(cs.len() - start) =~= d);
    if too_big {
        None
    } else {
        Some(value as u64)
    }
}

/// Parses an unsigned 32-bit decimal number as `u32::from_str` does.
pub fn parse_u32(s: &str) -> (res: Option<u32>)
    ensures
        res == parsed_u32(s@),
{
    match parse_decimal(s, 0xffff_ffff) {
        Some(v) => Some(v as u32),
        None => None,
    }
}

/// The line number read from a capture of the `line` group.
pub open spec fn line_of_capture(c: Option<Option<Seq<char>>>) -> Option<u32> {
    match c {
        Some(Some(t)) => parsed_u32(t),
        _ => None,
    }
}

/// The line hint given by a capture of the `line` group: its text parsed as
/// a `u32`, or nothing when the group is missing or does not parse.
pub fn line_hint_from(capture: Option<Option<String>>) -> (res: Option<u32>)
    ensures
        res == line_of_capture(capture.deep_view()),
{
    match capture {
        Some(Some(t)) => parse_u32(t.as_str()),
        _ => None,
    }
}

/// What one rule finds in a buffer: `None` when it does not match, else the
/// file and line it reads.
pub open spec fn rule_hit(r: DetectRule, buf: Seq<char>) -> Option<(Option<Seq<char>>, Option<u32>)> {
    if r.reads_file {
        match regex_capture_group(r.pattern@, buf, "file"@) {
            None => None,
            Some(file) => Some(
                (
                    file,
                    if r.reads_line {
                        line_of_capture(regex_capture_group(r.pattern@, buf, "line"@))
                    } else {
                        None
                    },
                ),
            ),
        }
    } else if regex_matches(r.pattern@, buf) {
        Some((None, None))
    } else {
        None
    }
}

/// The first rule at or after `i` that matches, with what it reads.
pub open spec fn first_hit(buf: Seq<char>, i: int) -> Option<(int, Option<Seq<char>>, Option<u32>)>
    decreases RULE_COUNT - i,
{
    if i < 0 || i >= RULE_COUNT {
        None
    } else {
        match rule_hit(detect_rule(i), buf) {
            Some((f, l)) => Some((i, f, l)),
            None => first_hit(buf, i + 1),
        }
    }
}

/// The rule that `first_hit` reports is a rule of the table, at or after
/// the start, that matches, with what it reads.
pub proof fn lemma_first_hit_is_a_hit(buf: Seq<char>, j: int)
    ensures
        first_hit(buf, j) matches Some((i, f, l)) ==> 0 <= j <= i < RULE_COUNT && rule_hit(detect_rule(i), buf)
            == Some((f, l)),
    decreases RULE_COUNT - j,
{
    if 0 <= j < RULE_COUNT && rule_hit(detect_rule(j), buf) is None {
        lemma_first_hit_is_a_hit(buf, j + 1);
    }
}

/// The pattern of the rule that decides a scan, if any rule matches.
pub open spec fn deciding_pattern(buf: Seq<char>) -> Option<&'static str> {
    match first_hit(buf, 0) {
        Some((i, _, _)) => Some(detect_rule(i).pattern),
        None => None,
    }
}

/// What a finding decided by pattern `p` must report: rustc errors, panics
/// and failed cargo tests are Rust; TypeScript and Node errors, missing
/// modules and npm errors are Node; tracebacks and pytest failures are
/// Python; Go build errors and failed Go tests are Go; Maven and javac
/// errors are Java. The patterns without a location (failed cargo, Go and
/// pytest tests, missing modules, npm errors) report neither file nor line,
/// and a failed pytest test reports no line.
pub open spec fn reports_for_pattern(p: &'static str, f: FindingView) -> bool {
    &&& (p == RUSTC_ERROR || p == RUST_PANIC || p == CARGO_TEST_FAIL) ==> f.0 == Toolchain::Rust
    &&& (p == TSC_ERROR || p == TSC_PRETTY_ERROR || p == NODE_ERROR || p == NODE_CANNOT_FIND || p == NPM_ERR)
        ==> f.0 == Toolchain::Node
    &&& (p == PYTHON_TRACEBACK || p == PYTEST_FAILED || p == PYTEST_ASSERT) ==> f.0 == Toolchain::Python
    &&& (p == GO_BUILD_ERROR || p == GO_TEST_FAIL) ==> f.0 == Toolchain::Go
    &&& (p == MAVEN_ERROR || p == JAVAC_ERROR) ==> f.0 == Toolchain::Java
    &&& (p == CARGO_TEST_FAIL || p == NODE_CANNOT_FIND || p == NPM_ERR || p == PYTEST_ASSERT || p == GO_TEST_FAIL)
        ==> f.2 is None && f.3 is None
    &&& p == PYTEST_FAILED ==> f.3 is None
}

/// Each pattern reports its own toolchain (see `reports_for_pattern`): a
/// scan finds something exactly when some pattern matches, and the finding
/// is what the deciding pattern must report.
pub proof fn lemma_pattern_toolchains(buf: Seq<char>)
    ensures
        scan_model(buf) is Some <==> deciding_pattern(buf) is Some,
        scan_model(buf) matches Some(f) ==> reports_for_pattern(deciding_pattern(buf)->Some_0, f),
{
    lemma_first_hit_is_a_hit(buf, 0);
}

/// The finding for an ANSI-free buffer: the toolchain of the first matching
/// rule, the last `SNIPPET_CHARS` characters of the buffer, and the location
/// read by that rule.
pub open spec fn scan_model(buf: Seq<char>) -> Option<FindingView> {
    match first_hit(buf, 0) {
        None => None,
        Some((i, f, l)) => Some((detect_rule(i).toolchain, take_last(buf, SNIPPET_CHARS as int), f, l)),
    }
}

pub open spec fn finding_matches(res: Option<ErrorFinding>, model: Option<FindingView>) -> bool {
    match res {
        None => model is None,
        Some(f) => model == Some(f@),
    }
}

/// Applies one rule to a buffer.
pub fn probe_rule(rule: &DetectRule, buf: &str) -> (res: Option<(Option<String>, Option<u32>)>)
    ensures
        res.deep_view() == rule_hit(*rule, buf@),
{
    if rule.reads_file {
        match regex_capture(rule.pattern, buf, "file") {
            None => None,
            Some(file) => {
                let line = if rule.reads_line {
                    line_hint_from(regex_capture(rule.pattern, buf, "line"))
                } else {
                    None
                };
                Some((file, line))
            },
        }
    } else if regex_is_match(rule.pattern, buf) {
        Some((None, None))
    } else {
        None
    }
}

/// The last `max_chars` characters of the buffer.
pub fn tail_snippet(buf: &str, max_chars: usize) -> (res: String)
    ensures
        res@ == take_last(buf@, max_chars as int),
{
    last_chars(buf, max_chars)
}

/// Scans an ANSI-free buffer: the rules are tried in priority order and the
/// first one that matches gives the finding.
pub fn scan_cleaned(buf: &str) -> (res: Option<ErrorFinding>)
    ensures
        finding_matches(res, scan_model(buf@)),
{
    let mut i: usize = 0;
    while i < RULE_COUNT
        invariant
            i <= RULE_COUNT,
            first_hit(buf@, 0) == first_hit(buf@, i as int),
        decreases RULE_COUNT - i,
    {
        let rule = detection_rule(i);
        match probe_rule(&rule, buf) {
            Some((file, line)) => {
                let snippet = tail_snippet(buf, SNIPPET_CHARS);
                return Some(ErrorFinding { toolchain: rule.toolchain, raw_snippet: snippet, file_hint: file, line_hint: line });
            },
            None => {},
        }
        i = i + 1;
    }
    None
}

/// Scans a raw output buffer for error patterns. ANSI escapes are stripped
/// first; the snippet is the last `SNIPPET_CHARS` characters of the
/// stripped output.
pub fn scan(buffer: &str) -> (res: Option<ErrorFinding>)
    ensures
        finding_matches(res, scan_model(ansi_stripped(buffer@))),
        // The finding is what the deciding pattern reports.
        res matches Some(f) ==> reports_for_pattern(deciding_pattern(ansi_stripped(buffer@))->Some_0, f@),
        // Scanning the already stripped text gives the same finding.
        finding_matches(res, scan_model(ansi_stripped(ansi_stripped(buffer@)))),
        // The snippet is bounded, and it is the end of the cleaned output.
        res matches Some(f) ==> f.raw_snippet@.len() <= SNIPPET_CHARS && ansi_stripped(buffer@).len()
            >= f.raw_snippet@.len() && f.raw_snippet@ == ansi_stripped(buffer@).skip(
            ansi_stripped(buffer@).len() - f.raw_snippet@.len(),
        ),
{
    let cleaned = strip_ansi(buffer);
    proof {
        lemma_pattern_toolchains(cleaned@);
    }
    scan_cleaned(cleaned.as_str())
}

} // verus!
