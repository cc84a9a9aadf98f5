//! Character-level text helpers shared by the detectors, the context
//! collector and the report formatting. Every helper works on the `char`
//! view of a string, so all lengths below are counted in characters.
use vstd::prelude::*;
use vstd::string::StringExecFns;

verus! {

/// `String::push` appends one character at the end of the string.
pub assume_specification[ String::push ](string: &mut String, ch: char)
    ensures
        final(string)@ == old(string)@.push(ch),
;

/// What `str::trim` returns for a string: the string without its leading
/// and trailing whitespace (Unicode `White_Space`).
pub uninterp spec fn trimmed(s: Seq<char>) -> Seq<char>;

/// Calls `str::trim`; the result is named `trimmed` of the argument.
#[verifier::external_body]
pub fn trim_str(s: &str) -> (res: &str)
    ensures
        res@ == trimmed(s@),
{
    s.trim()
}

/// What `str::to_lowercase` returns for a string (full Unicode lowercase mapping).
pub uninterp spec fn lowercased(s: Seq<char>) -> Seq<char>;

/// Calls `str::to_lowercase`; the result is named `lowercased` of the argument.
#[verifier::external_body]
pub fn to_lowercase_str(s: &str) -> (res: String)
    ensures
        res@ == lowercased(s@),
{
    s.to_lowercase()
}

/// The last `n` characters of `s` (all of `s` when it is shorter).
pub open spec fn take_last(s: Seq<char>, n: int) -> Seq<char> {
    if s.len() <= n {
        s
    } else {
        s.subrange(s.len() - n, s.len() as int)
    }
}

/// The first `n` characters of `s` (all of `s` when it is shorter).
pub open spec fn take_first(s: Seq<char>, n: int) -> Seq<char> {
    if s.len() <= n {
        s
    } else {
        s.take(n)
    }
}

/// `needle` occurs in `hay` starting at position `i`.
pub open spec fn occurs_at(hay: Seq<char>, needle: Seq<char>, i: int) -> bool {
    &&& 0 <= i
    &&& i + needle.len() <= hay.len()
    &&& hay.subrange(i, i + needle.len()) == needle
}

/// The middle part of a concatenation occurs right after the first part.
pub proof fn lemma_occurs_in_concat(x: Seq<char>, y: Seq<char>, z: Seq<char>)
    ensures
        occurs_at(x + y + z, y, x.len() as int),
{
    assert((x + y + z).subrange(x.len() as int, (x.len() + y.len()) as int) =~= y);
}

/// An occurrence inside an occurrence is an occurrence.
pub proof fn lemma_occurs_trans(a: Seq<char>, b: Seq<char>, c: Seq<char>, i: int, j: int)
    requires
        occurs_at(a, b, i),
        occurs_at(b, c, j),
    ensures
        occurs_at(a, c, i + j),
{
    assert forall|k: int| 0 <= k < c.len() implies a.subrange(i + j, i + j + c.len())[k] == c[k] by {
        assert(a.subrange(i, i + b.len())[j + k] == b[j + k]);
        assert(b.subrange(j, j + c.len())[k] == c[k]);
    }
    assert(a.subrange(i + j, i + j + c.len()) =~= c);
}

/// A prefix occurs at the start, and the rest after it.
pub proof fn lemma_occurs_take_skip(s: Seq<char>, n: int)
    requires
        0 <= n <= s.len(),
    ensures
        occurs_at(s, s.take(n), 0),
        occurs_at(s, s.skip(n), n),
{
    assert(s.subrange(0, n) =~= s.take(n));
    assert(s.subrange(n, s.len() as int) =~= s.skip(n));
}

/// `first_index_from` gives a position, at or after the start, where the
/// pattern occurs.
pub proof fn lemma_first_index_from_occurs(s: Seq<char>, pat: Seq<char>, i: int)
    ensures
        first_index_from(s, pat, i) matches Some(k) ==> i <= k && occurs_at(s, pat, k),
    decreases s.len() + 1 - i,
{
    if !(i < 0 || i + pat.len() > s.len()) && !occurs_at(s, pat, i) {
        lemma_first_index_from_occurs(s, pat, i + 1);
    }
}

/// `needle` occurs somewhere in `hay` (the empty needle occurs everywhere).
pub open spec fn contains_text(hay: Seq<char>, needle: Seq<char>) -> bool {
    exists|i: int| occurs_at(hay, needle, i)
}

/// `s` begins with `prefix`.
pub open spec fn starts_with_text(s: Seq<char>, prefix: Seq<char>) -> bool {
    prefix.len() <= s.len() && s.take(prefix.len() as int) == prefix
}

/// Position of the first `'\n'` in `s`, or `s.len()` when there is none.
pub open spec fn newline_at(s: Seq<char>) -> int
    decreases s.len(),
{
    if s.len() == 0 {
        0
    } else if s[0] == '\n' {
        0
    } else {
        1 + newline_at(s.drop_first())
    }
}

/// A line terminated by `'\n'` loses one trailing `'\r'` (a `"\r\n"` ending).
pub open spec fn strip_cr(line: Seq<char>) -> Seq<char> {
    if line.len() > 0 && line.last() == '\r' {
        line.drop_last()
    } else {
        line
    }
}

/// The lines of `s` as `str::lines` yields them: split at `'\n'`, a
/// `"\r\n"` ending counts as one line ending, and a final line ending
/// does not open an empty last line.
pub open spec fn lines_of(s: Seq<char>) -> Seq<Seq<char>>
    decreases s.len(),
{
    if s.len() == 0 {
        seq![]
    } else {
        let k = newline_at(s);
        if k < s.len() {
            proof {
                lemma_newline_at_bounds(s);
            }
            seq![strip_cr(s.take(k))] + lines_of(s.skip(k + 1))
        } else {
            seq![s]
        }
    }
}

/// The parts joined with `sep` between consecutive parts.
pub open spec fn join_with(parts: Seq<Seq<char>>, sep: Seq<char>) -> Seq<char>
    decreases parts.len(),
{
    if parts.len() == 0 {
        seq![]
    } else if parts.len() == 1 {
        parts[0]
    } else {
        join_with(parts.drop_last(), sep) + sep + parts.last()
    }
}

pub proof fn lemma_newline_at_bounds(s: Seq<char>)
    ensures
        0 <= newline_at(s) <= s.len(),
        newline_at(s) < s.len() ==> s[newline_at(s)] == '\n',
        forall|j: int| 0 <= j < newline_at(s) ==> s[j] != '\n',
    decreases s.len(),
{
    if s.len() > 0 && s[0] != '\n' {
        lemma_newline_at_bounds(s.drop_first());
        assert forall|j: int| 0 <= j < newline_at(s) implies s[j] != '\n' by {
            if j > 0 {
                assert(s[j] == s.drop_first()[j - 1]);
            }
        }
    }
}

/// A position `k` with no newline before it and a newline (or the end) at
/// it is the first newline position.
pub proof fn lemma_newline_at_is(s: Seq<char>, k: int)
    requires
        0 <= k <= s.len(),
        k < s.len() ==> s[k] == '\n',
        forall|j: int| 0 <= j < k ==> s[j] != '\n',
    ensures
        newline_at(s) == k,
    decreases s.len(),
{
    if s.len() > 0 && k > 0 {
        assert forall|j: int| 0 <= j < k - 1 implies s.drop_first()[j] != '\n' by {
            assert(s.drop_first()[j] == s[j + 1]);
        }
        lemma_newline_at_is(s.drop_first(), k - 1);
    }
}

/// `s` holds no `'\n'`.
pub open spec fn no_newline(s: Seq<char>) -> bool {
    forall|j: int| 0 <= j < s.len() ==> s[j] != '\n'
}

/// The number of `'\n'` characters in `s`.
pub open spec fn newline_count(s: Seq<char>) -> nat
    decreases s.len(),
{
    if s.len() == 0 {
        0
    } else {
        newline_count(s.drop_last()) + if s.last() == '\n' {
            1nat
        } else {
            0nat
        }
    }
}

/// Newlines of a concatenation add up.
pub proof fn lemma_newline_count_add(a: Seq<char>, b: Seq<char>)
    ensures
        newline_count(a + b) == newline_count(a) + newline_count(b),
    decreases b.len(),
{
    if b.len() == 0 {
        assert(a + b =~= a);
    } else {
        assert((a + b).drop_last() =~= a + b.drop_last());
        lemma_newline_count_add(a, b.drop_last());
    }
}

/// A text without `'\n'` counts no newlines.
pub proof fn lemma_newline_count_none(s: Seq<char>)
    requires
        no_newline(s),
    ensures
        newline_count(s) == 0,
    decreases s.len(),
{
    if s.len() > 0 {
        assert(no_newline(s.drop_last()));
        lemma_newline_count_none(s.drop_last());
    }
}

/// Cutting a text to its first characters never adds newlines.
pub proof fn lemma_newline_count_take_first(s: Seq<char>, n: int)
    requires
        n >= 0,
    ensures
        newline_count(take_first(s, n)) <= newline_count(s),
{
    if s.len() > n {
        assert(s =~= s.take(n) + s.skip(n));
        lemma_newline_count_add(s.take(n), s.skip(n));
    }
}

/// A text splits into at most one line more than it has newlines.
pub proof fn lemma_lines_of_count(s: Seq<char>)
    ensures
        lines_of(s).len() <= newline_count(s) + 1,
    decreases s.len(),
{
    if s.len() > 0 {
        let k = newline_at(s);
        lemma_newline_at_bounds(s);
        if k < s.len() {
            lemma_lines_of_count(s.skip(k + 1));
            assert(s =~= s.take(k + 1) + s.skip(k + 1));
            lemma_newline_count_add(s.take(k + 1), s.skip(k + 1));
            assert(s.take(k + 1).last() == '\n');
        }
    }
}

/// Every line that `lines_of` yields occurs in the text.
pub proof fn lemma_lines_of_occur(s: Seq<char>)
    ensures
        forall|i: int| 0 <= i < lines_of(s).len() ==> contains_text(s, #[trigger] lines_of(s)[i]),
    decreases s.len(),
{
    if s.len() > 0 {
        let k = newline_at(s);
        lemma_newline_at_bounds(s);
        let ls = lines_of(s);
        if k < s.len() {
            let rest = s.skip(k + 1);
            lemma_lines_of_occur(rest);
            lemma_occurs_take_skip(s, k + 1);
            let first = strip_cr(s.take(k));
            assert(occurs_at(s, first, 0)) by {
                assert(s.subrange(0, first.len() as int) =~= first);
            }
            assert(ls == seq![first] + lines_of(rest));
            assert forall|i: int| 0 <= i < ls.len() implies contains_text(s, #[trigger] ls[i]) by {
                if i > 0 {
                    assert(ls[i] == lines_of(rest)[i - 1]);
                    let li = lines_of(rest)[i - 1];
                    let p = choose|p: int| occurs_at(rest, li, p);
                    lemma_occurs_trans(s, rest, ls[i], k + 1, p);
                }
            }
        } else {
            assert(occurs_at(s, s, 0)) by {
                assert(s.subrange(0, s.len() as int) =~= s);
            }
            assert(ls[0] == s);
        }
    }
}

/// No line that `lines_of` yields holds a `'\n'`.
pub proof fn lemma_lines_of_no_newline(s: Seq<char>)
    ensures
        forall|i: int| 0 <= i < lines_of(s).len() ==> no_newline(#[trigger] lines_of(s)[i]),
    decreases s.len(),
{
    if s.len() > 0 {
        let k = newline_at(s);
        lemma_newline_at_bounds(s);
        if k < s.len() {
            lemma_lines_of_no_newline(s.skip(k + 1));
            let first = strip_cr(s.take(k));
            assert(no_newline(first)) by {
                assert forall|j: int| 0 <= j < first.len() implies first[j] != '\n' by {
                    assert(first[j] == s[j]);
                }
            }
            let ls = lines_of(s);
            assert(ls == seq![first] + lines_of(s.skip(k + 1)));
            assert forall|i: int| 0 <= i < ls.len() implies no_newline(#[trigger] ls[i]) by {
                if i > 0 {
                    assert(ls[i] == lines_of(s.skip(k + 1))[i - 1]);
                }
            }
        }
    }
}

/// Parts without newlines, joined with `"\n"`, count one newline fewer than
/// there are parts.
pub proof fn lemma_join_lines_newlines(parts: Seq<Seq<char>>)
    requires
        parts.len() >= 1,
        forall|i: int| 0 <= i < parts.len() ==> no_newline(#[trigger] parts[i]),
    ensures
        newline_count(join_with(parts, "\n"@)) == parts.len() - 1,
    decreases parts.len(),
{
    reveal_strlit("\n");
    if parts.len() == 1 {
        lemma_newline_count_none(parts[0]);
    } else {
        let init = parts.drop_last();
        assert forall|i: int| 0 <= i < init.len() implies no_newline(#[trigger] init[i]) by {
            assert(init[i] == parts[i]);
        }
        lemma_join_lines_newlines(init);
        lemma_newline_count_none(parts.last());
        assert(newline_count("\n"@) == 1) by {
            reveal_strlit("\n");
            let nl = "\n"@;
            assert(nl.len() == 1 && nl.last() == '\n');
            assert(nl.drop_last() =~= Seq::<char>::empty());
            assert(newline_count(nl.drop_last()) == 0);
        }
        lemma_newline_count_add(join_with(init, "\n"@), "\n"@);
        lemma_newline_count_add(join_with(init, "\n"@) + "\n"@, parts.last());
    }
}

/// The characters of a string slice.
pub fn chars_of(s: &str) -> (v: Vec<char>)
    ensures
        v@ == s@,
{
    broadcast use vstd::string::group_string_axioms;

    let mut v: Vec<char> = Vec::new();
    for c in it: s.chars()
        invariant
            v@ == it.seq().take(it.index() as int),
            it.seq() == s@,
    {
        v.push(c);
    }
    v
}

/// The string made of the characters `v[from..to]`.
pub fn string_of_range(v: &Vec<char>, from: usize, to: usize) -> (s: String)
    requires
        from <= to <= v.len(),
    ensures
        s@ == v@.subrange(from as int, to as int),
{
    let mut s = String::new();
    let mut i: usize = from;
    while i < to
        invariant
            from <= i <= to <= v.len(),
            s@ == v@.subrange(from as int, i as int),
        decreases to - i,
    {
        s.push(v[i]);
        assert(v@.subrange(from as int, i + 1) == v@.subrange(from as int, i as int).push(v@[i as int]));
        i = i + 1;
    }
    s
}

/// The string made of all characters of `v`.
pub fn string_of(v: &Vec<char>) -> (s: String)
    ensures
        s@ == v@,
{
    let s = string_of_range(v, 0, v.len());
    assert(v@.subrange(0, v@.len() as int) == v@);
    s
}

/// A copy of `s`.
pub fn owned(s: &str) -> (res: String)
    ensures
        res@ == s@,
{
    let v = chars_of(s);
    string_of(&v)
}

/// Appends `t` to `s`.
pub fn push_text(s: &mut String, t: &str)
    ensures
        final(s)@ == old(s)@ + t@,
{
    s.append(t);
}

/// The last `n` characters of `s`.
pub fn last_chars(s: &str, n: usize) -> (res: String)
    ensures
        res@ == take_last(s@, n as int),
{
    let v = chars_of(s);
    if v.len() <= n {
        string_of(&v)
    } else {
        string_of_range(&v, v.len() - n, v.len())
    }
}

/// The first `n` characters of `s`.
pub fn first_chars(s: &str, n: usize) -> (res: String)
    ensures
        res@ == take_first(s@, n as int),
{
    let v = chars_of(s);
    if v.len() <= n {
        string_of(&v)
    } else {
        let r = string_of_range(&v, 0, n);
        assert(v@.subrange(0, n as int) == v@.take(n as int));
        r
    }
}

/// Whether the characters of `a` and `b` are the same.
pub fn text_eq(a: &str, b: &str) -> (res: bool)
    ensures
        res == (a@ == b@),
{
    let x = chars_of(a);
    let y = chars_of(b);
    if x.len() != y.len() {
        return false;
    }
    let mut i: usize = 0;
    while i < x.len()
        invariant
            x.len() == y.len(),
            x@ == a@,
            y@ == b@,
            i <= x.len(),
            forall|j: int| 0 <= j < i ==> x@[j] == y@[j],
        decreases x.len() - i,
    {
        if x[i] != y[i] {
            return false;
        }
        i = i + 1;
    }
    assert(x@ =~= y@);
    true
}

/// Whether `needle` occurs in `hay` at position `i` (character positions).
pub fn occurs_at_exec(hay: &Vec<char>, needle: &Vec<char>, i: usize) -> (res: bool)
    requires
        i + needle.len() <= hay.len(),
    ensures
        res == occurs_at(hay@, needle@, i as int),
{
    let mut j: usize = 0;
    while j < needle.len()
        invariant
            i + needle.len() <= hay.len(),
            j <= needle.len(),
            forall|k: int| 0 <= k < j ==> hay@[i + k] == needle@[k],
        decreases needle.len() - j,
    {
        if hay[i + j] != needle[j] {
            assert(hay@.subrange(i as int, i + needle.len())[j as int] != needle@[j as int]);
            return false;
        }
        j = j + 1;
    }
    assert(hay@.subrange(i as int, i + needle.len()) =~= needle@);
    true
}

/// Whether `needle` occurs in `hay`.
pub fn contains(hay: &str, needle: &str) -> (res: bool)
    ensures
        res == contains_text(hay@, needle@),
{
    let h = chars_of(hay);
    let n = chars_of(needle);
    if n.len() > h.len() {
        return false;
    }
    let mut i: usize = 0;
    let last = h.len() - n.len();
    while i <= last
        invariant
            h@ == hay@,
            n@ == needle@,
            n.len() <= h.len(),
            last == h.len() - n.len(),
            i <= last + 1,
            forall|k: int| 0 <= k < i ==> !occurs_at(hay@, needle@, k),
        decreases last + 1 - i,
    {
        if occurs_at_exec(&h, &n, i) {
            return true;
        }
        if i == last {
            return false;
        }
        i = i + 1;
    }
    false
}

/// Whether `s` begins with `prefix`.
pub fn starts_with(s: &str, prefix: &str) -> (res: bool)
    ensures
        res == starts_with_text(s@, prefix@),
{
    let h = chars_of(s);
    let p = chars_of(prefix);
    if p.len() > h.len() {
        return false;
    }
    let r = occurs_at_exec(&h, &p, 0);
    assert(h@.subrange(0, p@.len() as int) == h@.take(p@.len() as int));
    r
}

/// The lines of `s`, as `str::lines` splits them.
pub fn split_lines(s: &str) -> (res: Vec<String>)
    ensures
        res.deep_view() == lines_of(s@),
{
    let cs = chars_of(s);
    let ghost sv = s@;
    let mut out: Vec<String> = Vec::new();
    let mut cur: Vec<char> = Vec::new();
    let mut start: usize = 0;
    let mut i: usize = 0;
    assert(sv.skip(0) =~= sv);
    while i < cs.len()
        invariant
            cs@ == sv,
            start <= i <= cs.len(),
            cur@ == sv.subrange(start as int, i as int),
            forall|j: int| start <= j < i ==> sv[j] != '\n',
            out.deep_view() + lines_of(sv.skip(start as int)) == lines_of(sv),
        decreases cs.len() - i,
    {
        let c = cs[i];
        if c == '\n' {
            let ghost rest = sv.skip(start as int);
            proof {
                assert forall|j: int| 0 <= j < i - start implies rest[j] != '\n' by {
                    assert(rest[j] == sv[start + j]);
                }
                assert(rest[i - start] == sv[i as int]);
                lemma_newline_at_is(rest, i - start);
                assert(rest.take(i - start) =~= cur@);
                assert(rest.skip(i - start + 1) =~= sv.skip(i + 1));
            }
            let ghost old_cur = cur@;
            if cur.len() > 0 && cur[cur.len() - 1] == '\r' {
                cur.pop();
                assert(cur@ =~= old_cur.drop_last());
            }
            assert(cur@ == strip_cr(old_cur));
            let line = string_of(&cur);
            let ghost old_out = out.deep_view();
            out.push(line);
            proof {
                assert(lines_of(rest) == seq![strip_cr(old_cur)] + lines_of(sv.skip(i + 1)));
                assert(out.deep_view() =~= old_out.push(strip_cr(old_cur)));
                assert(out.deep_view() + lines_of(sv.skip(i + 1)) =~= old_out + lines_of(rest));
            }
            cur = Vec::new();
            start = i + 1;
            assert(cur@ =~= sv.subrange(start as int, (i + 1) as int));
        } else {
            cur.push(c);
            assert(cur@ =~= sv.subrange(start as int, i + 1));
        }
        i = i + 1;
    }
    let ghost rest = sv.skip(start as int);
    if cur.len() > 0 {
        proof {
            assert forall|j: int| 0 <= j < rest.len() implies rest[j] != '\n' by {
                assert(rest[j] == sv[start + j]);
            }
            lemma_newline_at_is(rest, rest.len() as int);
            assert(rest =~= cur@);
        }
        let line = string_of(&cur);
        let ghost old_out = out.deep_view();
        out.push(line);
        assert(lines_of(rest) == seq![rest]);
        assert(out.deep_view() =~= old_out.push(rest));
    } else {
        assert(rest.len() == 0);
        assert(out.deep_view() + lines_of(rest) =~= out.deep_view());
    }
    out
}

/// The strings joined with `sep` between consecutive ones.
pub fn join_strings(parts: &Vec<String>, from: usize, to: usize, sep: &str) -> (res: String)
    requires
        from <= to <= parts.len(),
    ensures
        res@ == join_with(parts.deep_view().subrange(from as int, to as int), sep@),
{
    let mut res = String::new();
    let ghost dv = parts.deep_view();
    let mut i: usize = from;
    while i < to
        invariant
            from <= i <= to <= parts.len(),
            dv == parts.deep_view(),
            res@ == join_with(dv.subrange(from as int, i as int), sep@),
        decreases to - i,
    {
        let ghost prev = dv.subrange(from as int, i as int);
        let ghost next = dv.subrange(from as int, i + 1);
        assert(next.drop_last() =~= prev);
        assert(next.last() == parts[i as int]@);
        if i > from {
            res.append(sep);
        } else {
            assert(next.len() == 1);
            assert(res@ =~= seq![]);
        }
        res.append(parts[i].as_str());
        if i == from {
            assert(res@ =~= next[0]);
        }
        i = i + 1;
    }
    res
}


/// `s` with every leading copy of `p` removed, as `str::trim_start_matches`
/// does for a non-empty pattern.
pub open spec fn strip_prefix_all(s: Seq<char>, p: Seq<char>) -> Seq<char>
    decreases s.len(),
{
    if p.len() > 0 && starts_with_text(s, p) {
        strip_prefix_all(s.skip(p.len() as int), p)
    } else {
        s
    }
}

/// `s` ends with `suffix`.
pub open spec fn ends_with_text(s: Seq<char>, suffix: Seq<char>) -> bool {
    suffix.len() <= s.len() && s.skip(s.len() - suffix.len()) == suffix
}

/// `s` with every trailing copy of `p` removed, as `str::trim_end_matches`
/// does for a non-empty pattern.
pub open spec fn strip_suffix_all(s: Seq<char>, p: Seq<char>) -> Seq<char>
    decreases s.len(),
{
    if p.len() > 0 && ends_with_text(s, p) {
        strip_suffix_all(s.take(s.len() - p.len()), p)
    } else {
        s
    }
}

/// Removes every leading copy of `p` from `s`.
pub fn trim_start_matches(s: &str, p: &str) -> (res: String)
    ensures
        res@ == strip_prefix_all(s@, p@),
{
    let h = chars_of(s);
    let n = chars_of(p);
    if n.len() == 0 {
        return string_of(&h);
    }
    let mut pos: usize = 0;
    assert(s@.skip(0) =~= s@);
    while n.len() <= h.len() - pos && occurs_at_exec(&h, &n, pos)
        invariant
            h@ == s@,
            n@ == p@,
            n.len() > 0,
            pos <= h.len(),
            strip_prefix_all(s@, p@) == strip_prefix_all(s@.skip(pos as int), p@),
        decreases h.len() - pos,
    {
        let ghost rest = s@.skip(pos as int);
        assert(rest.take(n.len() as int) =~= h@.subrange(pos as int, pos + n.len()));
        assert(rest.skip(n.len() as int) =~= s@.skip(pos + n.len()));
        pos = pos + n.len();
    }
    let ghost rest = s@.skip(pos as int);
    if n.len() <= h.len() - pos {
        assert(rest.take(n.len() as int) =~= h@.subrange(pos as int, pos + n.len()));
    }
    let r = string_of_range(&h, pos, h.len());
    assert(r@ =~= rest);
    r
}

/// Removes every trailing copy of `p` from `s`.
pub fn trim_end_matches(s: &str, p: &str) -> (res: String)
    ensures
        res@ == strip_suffix_all(s@, p@),
{
    let h = chars_of(s);
    let n = chars_of(p);
    if n.len() == 0 {
        return string_of(&h);
    }
    let mut end: usize = h.len();
    assert(s@.take(h.len() as int) =~= s@);
    while n.len() <= end && occurs_at_exec(&h, &n, end - n.len())
        invariant
            h@ == s@,
            n@ == p@,
            n.len() > 0,
            end <= h.len(),
            strip_suffix_all(s@, p@) == strip_suffix_all(s@.take(end as int), p@),
        decreases end,
    {
        let ghost pre = s@.take(end as int);
        assert(pre.skip(end - n.len()) =~= h@.subrange(end - n.len(), end as int));
        assert(pre.take(end - n.len()) =~= s@.take(end - n.len()));
        end = end - n.len();
    }
    let ghost pre = s@.take(end as int);
    if n.len() <= end {
        assert(pre.skip(end - n.len()) =~= h@.subrange(end - n.len(), end as int));
    }
    let r = string_of_range(&h, 0, end);
    assert(r@ =~= pre);
    r
}


/// The first position at or after `i` where `pat` occurs in `s`.
pub open spec fn first_index_from(s: Seq<char>, pat: Seq<char>, i: int) -> Option<int>
    decreases s.len() + 1 - i,
{
    if i < 0 || i + pat.len() > s.len() {
        None
    } else if occurs_at(s, pat, i) {
        Some(i)
    } else {
        first_index_from(s, pat, i + 1)
    }
}

/// The first position where `pat` occurs in `s`, as `str::find` gives it
/// (counted in characters).
pub open spec fn first_index(s: Seq<char>, pat: Seq<char>) -> Option<int> {
    first_index_from(s, pat, 0)
}

/// The first position where `pat` occurs in `s`.
pub fn find_text(s: &str, pat: &str) -> (res: Option<usize>)
    ensures
        res matches Some(i) ==> occurs_at(s@, pat@, i as int),
        match res {
            Some(i) => first_index(s@, pat@) == Some(i as int),
            None => first_index(s@, pat@) is None,
        },
{
    let h = chars_of(s);
    let n = chars_of(pat);
    if n.len() > h.len() {
        return None;
    }
    let last = h.len() - n.len();
    let mut i: usize = 0;
    while i <= last
        invariant
            h@ == s@,
            n@ == pat@,
            n.len() <= h.len(),
            last == h.len() - n.len(),
            i <= last + 1,
            first_index(s@, pat@) == first_index_from(s@, pat@, i as int),
        decreases last + 1 - i,
    {
        if occurs_at_exec(&h, &n, i) {
            return Some(i);
        }
        if i == last {
            assert(first_index_from(s@, pat@, i + 1) is None);
            return None;
        }
        i = i + 1;
    }
    None
}

/// The characters `s[from..to]`.
pub fn substring(s: &str, from: usize, to: usize) -> (res: String)
    requires
        from <= to <= s@.len(),
    ensures
        res@ == s@.subrange(from as int, to as int),
{
    let cs = chars_of(s);
    string_of_range(&cs, from, to)
}

/// The number of characters of `s`.
pub fn char_count(s: &str) -> (res: usize)
    ensures
        res == s@.len(),
{
    chars_of(s).len()
}

} // verus!
