//! The heuristic flag-line parser.
//!
//! A line-oriented, best-effort scan over raw help text — deliberately a
//! pattern matcher, not a grammar for any particular help dialect. A
//! candidate line begins with leading whitespace, then carries either a
//! short token (dash plus one alphanumeric or `?`), optionally followed by
//! a comma/space-separated long token (dash-dash plus a run of alphanumerics,
//! hyphens and underscores), or a bare long token; whatever follows a further
//! run of whitespace is the description. A line is rejected when its trimmed
//! description has fewer than two characters. Duplicate canonical arguments
//! across lines are intentionally kept: each line is independent.
//!
//! Whitespace here means the ASCII blank characters other than the line
//! separator `'\n'` itself.

use vstd::prelude::*;
use vstd::string::*;

use crate::flag::{flag_wf, Flag, FlagView};
use crate::Error;

verus! {

/// Whitespace inside one line: the ASCII blanks except `'\n'`.
pub open spec fn is_line_ws(c: char) -> bool {
    c == ' ' || c == '\t' || c == '\r' || c == '\u{b}' || c == '\u{c}'
}

/// A character allowed right after the dash of a short token.
pub open spec fn is_short_char(c: char) -> bool {
    ('a' <= c && c <= 'z') || ('A' <= c && c <= 'Z') || ('0' <= c && c <= '9') || c == '?'
}

/// A character allowed in the body of a long token, after the dash-dash.
pub open spec fn is_long_char(c: char) -> bool {
    ('a' <= c && c <= 'z') || ('A' <= c && c <= 'Z') || ('0' <= c && c <= '9') || c == '-' || c
        == '_'
}

/// Length of the whitespace run of `s` that starts at index `i`.
pub open spec fn ws_off(s: Seq<char>, i: int) -> nat
    decreases s.len() - i
        when 0 <= i <= s.len()
{
    if i >= s.len() {
        0
    } else if is_line_ws(s[i]) {
        1 + ws_off(s, i + 1)
    } else {
        0
    }
}

/// Length of the long-token-character run of `s` that starts at index `i`.
pub open spec fn long_off(s: Seq<char>, i: int) -> nat
    decreases s.len() - i
        when 0 <= i <= s.len()
{
    if i >= s.len() {
        0
    } else if is_long_char(s[i]) {
        1 + long_off(s, i + 1)
    } else {
        0
    }
}

/// Distance from index `i` to the next `'\n'` of `s`, or to its end.
pub open spec fn nl_off(s: Seq<char>, i: int) -> nat
    decreases s.len() - i
        when 0 <= i <= s.len()
{
    if i >= s.len() {
        0
    } else if s[i] == '\n' {
        0
    } else {
        1 + nl_off(s, i + 1)
    }
}

/// Where trimming trailing whitespace from `s.subrange(0, e)` would end.
pub open spec fn trim_end_from(s: Seq<char>, e: int) -> int
    decreases e
        when 0 <= e <= s.len()
{
    if e > 0 && is_line_ws(s[e - 1]) {
        trim_end_from(s, e - 1)
    } else {
        e
    }
}

/// `s` with leading and trailing line whitespace removed.
pub open spec fn spec_trim(s: Seq<char>) -> Seq<char> {
    let a = ws_off(s, 0) as int;
    let b = trim_end_from(s, s.len() as int);
    if a >= b {
        Seq::empty()
    } else {
        s.subrange(a, b)
    }
}

/// A whitespace run never runs past the end of the sequence.
pub proof fn lemma_ws_off_le(s: Seq<char>, i: int)
    requires
        0 <= i <= s.len(),
    ensures
        i + ws_off(s, i) <= s.len(),
    decreases s.len() - i,
{
    if i < s.len() && is_line_ws(s[i]) {
        lemma_ws_off_le(s, i + 1);
    }
}

/// Trimming the end of an all-whitespace prefix reaches zero.
proof fn lemma_trim_end_all_ws(s: Seq<char>, e: int)
    requires
        0 <= e <= s.len(),
        forall|k: int| 0 <= k < e ==> is_line_ws(s[k]),
    ensures
        trim_end_from(s, e) == 0,
    decreases e,
{
    if e > 0 && is_line_ws(s[e - 1]) {
        lemma_trim_end_all_ws(s, e - 1);
    }
}

/// The long-token extent after a short token ending at index `j`: an
/// optional comma, at least one whitespace character, then `--` and a
/// non-empty token run, which in turn must be followed by at least one
/// whitespace character and at least one further character. Yields the
/// token's bounds, or `None` when the line reads as a short token alone.
pub open spec fn spec_long_extent(line: Seq<char>, j: int) -> Option<(int, int)> {
    let len = line.len() as int;
    let k = if j < len && line[j] == ',' {
        j + 1
    } else {
        j
    };
    let w = k + ws_off(line, k);
    if w == k {
        None
    } else if w + 1 < len && line[w] == '-' && line[w + 1] == '-' {
        let m = w + 2 + long_off(line, w + 2);
        if m == w + 2 {
            None
        } else if m < len && is_line_ws(line[m]) && m + 1 < len {
            Some((w, m))
        } else {
            None
        }
    } else {
        None
    }
}

/// The flag mined from one line, if the line matches the grammar: leading
/// whitespace, the token or token pair, whitespace, and a description whose
/// trimmed text has at least two characters.
pub open spec fn spec_parse_line(line: Seq<char>) -> Option<FlagView> {
    let len = line.len() as int;
    let i = ws_off(line, 0) as int;
    if i < 1 || i >= len {
        None
    } else if line[i] != '-' {
        None
    } else if i + 1 < len && line[i + 1] == '-' {
        // a long token with no preceding short token
        let m = i + 2 + long_off(line, i + 2);
        if m == i + 2 {
            None
        } else if m < len && is_line_ws(line[m]) && m + 1 < len {
            let d = spec_trim(line.subrange(m, len));
            if d.len() < 2 {
                None
            } else {
                Some(
                    FlagView {
                        short: None,
                        long: Some(line.subrange(i, m)),
                        desc: d,
                        selected: false,
                    },
                )
            }
        } else {
            None
        }
    } else if i + 1 < len && is_short_char(line[i + 1]) {
        let stok = line.subrange(i, i + 2);
        match spec_long_extent(line, i + 2) {
            Some((w, m)) => {
                let d = spec_trim(line.subrange(m, len));
                if d.len() < 2 {
                    None
                } else {
                    Some(
                        FlagView {
                            short: Some(stok),
                            long: Some(line.subrange(w, m)),
                            desc: d,
                            selected: false,
                        },
                    )
                }
            },
            None => {
                // the short token stands alone; the description must follow
                // immediately after whitespace
                let j = i + 2;
                if j < len && is_line_ws(line[j]) && j + 1 < len {
                    let d = spec_trim(line.subrange(j, len));
                    if d.len() < 2 {
                        None
                    } else {
                        Some(FlagView { short: Some(stok), long: None, desc: d, selected: false })
                    }
                } else {
                    None
                }
            },
        }
    } else {
        None
    }
}

/// All flags mined from the `'\n'`-separated lines of `s` at or after
/// index `i`, in line order.
pub open spec fn spec_flags_from(s: Seq<char>, i: int) -> Seq<FlagView>
    decreases s.len() - i
        when 0 <= i <= s.len()
{
    if i >= s.len() {
        Seq::empty()
    } else {
        let j = i + nl_off(s, i);
        let here = match spec_parse_line(s.subrange(i, j)) {
            Some(f) => seq![f],
            None => Seq::empty(),
        };
        if j >= s.len() {
            here
        } else {
            here + spec_flags_from(s, j + 1)
        }
    }
}

/// All flags mined from raw text, in line order, duplicates kept.
pub open spec fn spec_flags(s: Seq<char>) -> Seq<FlagView> {
    spec_flags_from(s, 0)
}

/// The distance to the next line break never runs past the end.
pub proof fn lemma_nl_off_le(s: Seq<char>, i: int)
    requires
        0 <= i <= s.len(),
    ensures
        i + nl_off(s, i) <= s.len(),
    decreases s.len() - i,
{
    if i < s.len() && s[i] != '\n' {
        lemma_nl_off_le(s, i + 1);
    }
}

/// Everything a line can parse to is a well-formed flag: a short token of a
/// dash and one character, a long token of dash-dash and at least one more,
/// at least one of the two present, a description of at least two trimmed
/// characters, and not yet selected.
pub proof fn lemma_parse_line_wf(line: Seq<char>)
    ensures
        spec_parse_line(line) matches Some(f) ==> {
            &&& f.short is Some || f.long is Some
            &&& (f.short matches Some(s) ==> s.len() == 2 && s[0] == '-')
            &&& (f.long matches Some(l) ==> l.len() >= 3 && l[0] == '-' && l[1] == '-')
            &&& f.desc.len() >= 2
            &&& !f.selected
        },
{
}

/// Every flag extracted from raw text is well formed in the sense of
/// [`lemma_parse_line_wf`]: in particular, never with both tokens absent.
pub proof fn lemma_extracted_flags_wf(s: Seq<char>, i: int)
    requires
        0 <= i <= s.len(),
    ensures
        forall|k: int|
            0 <= k < spec_flags_from(s, i).len() ==> {
                let f = #[trigger] spec_flags_from(s, i)[k];
                &&& flag_wf(f)
                &&& f.desc.len() >= 2
                &&& !f.selected
            },
    decreases s.len() - i,
{
    if i < s.len() {
        let j = i + nl_off(s, i);
        lemma_nl_off_le(s, i);
        lemma_parse_line_wf(s.subrange(i, j));
        if j < s.len() {
            lemma_extracted_flags_wf(s, j + 1);
        }
    }
}

fn ws_char(c: char) -> (b: bool)
    ensures
        b == is_line_ws(c),
{
    c == ' ' || c == '\t' || c == '\r' || c == '\u{b}' || c == '\u{c}'
}

fn short_char(c: char) -> (b: bool)
    ensures
        b == is_short_char(c),
{
    ('a' <= c && c <= 'z') || ('A' <= c && c <= 'Z') || ('0' <= c && c <= '9') || c == '?'
}

fn long_char(c: char) -> (b: bool)
    ensures
        b == is_long_char(c),
{
    ('a' <= c && c <= 'z') || ('A' <= c && c <= 'Z') || ('0' <= c && c <= '9') || c == '-' || c
        == '_'
}

/// Scans the whitespace run of `line` that starts at `from`.
fn scan_ws(line: &str, from: usize, n: usize) -> (r: usize)
    requires
        from <= n,
        n == line@.len(),
    ensures
        from <= r <= n,
        r == from + ws_off(line@, from as int),
{
    let mut i = from;
    while i < n && ws_char(line.get_char(i))
        invariant
            from <= i <= n,
            n == line@.len(),
            from + ws_off(line@, from as int) == i + ws_off(line@, i as int),
        decreases n - i,
    {
        i = i + 1;
    }
    proof {
        lemma_ws_off_le(line@, from as int);
    }
    i
}

/// Scans the long-token-character run of `line` that starts at `from`.
fn scan_long(line: &str, from: usize, n: usize) -> (r: usize)
    requires
        from <= n,
        n == line@.len(),
    ensures
        from <= r <= n,
        r == from + long_off(line@, from as int),
{
    let mut i = from;
    while i < n && long_char(line.get_char(i))
        invariant
            from <= i <= n,
            n == line@.len(),
            from + long_off(line@, from as int) == i + long_off(line@, i as int),
        decreases n - i,
    {
        i = i + 1;
    }
    i
}

/// Bounds of the trimmed text of `line.subrange(lo, hi)`, as absolute
/// indices into `line`.
fn trim_range(line: &str, lo: usize, hi: usize) -> (r: (usize, usize))
    requires
        lo <= hi,
        hi <= line@.len(),
    ensures
        lo <= r.0 <= r.1 <= hi,
        spec_trim(line@.subrange(lo as int, hi as int)) == line@.subrange(
            r.0 as int,
            r.1 as int,
        ),
{
    let ghost s = line@.subrange(lo as int, hi as int);
    let mut a = lo;
    while a < hi && ws_char(line.get_char(a))
        invariant
            lo <= a <= hi <= line@.len(),
            s == line@.subrange(lo as int, hi as int),
            ws_off(s, 0) == (a - lo) + ws_off(s, a - lo),
            forall|k: int| 0 <= k < a - lo ==> is_line_ws(s[k]),
        decreases hi - a,
    {
        proof {
            assert(s[a - lo] == line@[a as int]);
        }
        a = a + 1;
    }
    proof {
        if a < hi {
            assert(s[a - lo] == line@[a as int]);
        }
        assert(ws_off(s, 0) == a - lo);
    }
    let mut b = hi;
    while b > a && ws_char(line.get_char(b - 1))
        invariant
            lo <= a <= b <= hi <= line@.len(),
            s == line@.subrange(lo as int, hi as int),
            ws_off(s, 0) == a - lo,
            forall|k: int| 0 <= k < a - lo ==> is_line_ws(s[k]),
            trim_end_from(s, s.len() as int) == trim_end_from(s, b - lo),
        decreases b,
    {
        proof {
            assert(s[b - lo - 1] == line@[b - 1]);
        }
        b = b - 1;
    }
    if a >= b {
        proof {
            lemma_trim_end_all_ws(s, b - lo);
            assert(spec_trim(s) =~= line@.subrange(a as int, a as int));
        }
        (a, a)
    } else {
        proof {
            assert(s[b - lo - 1] == line@[b - 1]);
            assert(trim_end_from(s, b - lo) == b - lo);
            assert(spec_trim(s) =~= line@.subrange(a as int, b as int));
        }
        (a, b)
    }
}

/// The description of a candidate line whose tokens end before `from`:
/// the tail of the line, trimmed — or `None` when its trimmed text has
/// fewer than two characters.
fn take_desc(line: &str, from: usize, n: usize) -> (r: Option<String>)
    requires
        from <= n,
        n == line@.len(),
    ensures
        ({
            let d = spec_trim(line@.subrange(from as int, n as int));
            match r {
                Some(t) => d.len() >= 2 && t@ == d,
                None => d.len() < 2,
            }
        }),
{
    let (a, b) = trim_range(line, from, n);
    if b - a < 2 {
        None
    } else {
        Some(String::from_str(line.substring_char(a, b)))
    }
}

/// Parses one line of help text into a flag, if it matches the grammar.
pub fn parse_line(line: &str) -> (r: Option<Flag>)
    ensures
        r.deep_view() == spec_parse_line(line@),
        r matches Some(f) ==> !f.selected,
{
    let n = line.unicode_len();
    let i = scan_ws(line, 0, n);
    if i < 1 || i >= n {
        return None;
    }
    if line.get_char(i) != '-' {
        return None;
    }
    if i + 1 >= n {
        return None;
    }
    let c1 = line.get_char(i + 1);
    if c1 == '-' {
        // a long token with no preceding short token
        let m = scan_long(line, i + 2, n);
        if m == i + 2 {
            return None;
        }
        if m < n && ws_char(line.get_char(m)) && m + 1 < n {
            match take_desc(line, m, n) {
                Some(desc) => Some(
                    Flag {
                        short: None,
                        long: Some(String::from_str(line.substring_char(i, m))),
                        desc,
                        selected: false,
                    },
                ),
                None => None,
            }
        } else {
            None
        }
    } else if short_char(c1) {
        let short = String::from_str(line.substring_char(i, i + 2));
        match long_extent(line, i + 2, n) {
            Some((w, m)) => {
                match take_desc(line, m, n) {
                    Some(desc) => Some(
                        Flag {
                            short: Some(short),
                            long: Some(String::from_str(line.substring_char(w, m))),
                            desc,
                            selected: false,
                        },
                    ),
                    None => None,
                }
            },
            None => {
                let j = i + 2;
                if j < n && ws_char(line.get_char(j)) && j + 1 < n {
                    match take_desc(line, j, n) {
                        Some(desc) => Some(
                            Flag { short: Some(short), long: None, desc, selected: false },
                        ),
                        None => None,
                    }
                } else {
                    None
                }
            },
        }
    } else {
        None
    }
}

/// Finds the long-token extent after a short token ending at `j`.
fn long_extent(line: &str, j: usize, n: usize) -> (r: Option<(usize, usize)>)
    requires
        j <= n,
        n == line@.len(),
    ensures
        match r {
            Some(p) => {
                &&& spec_long_extent(line@, j as int) == Some((p.0 as int, p.1 as int))
                &&& j <= p.0 < p.1 < n
            },
            None => spec_long_extent(line@, j as int) is None,
        },
{
    let k = if j < n && line.get_char(j) == ',' {
        j + 1
    } else {
        j
    };
    let w = scan_ws(line, k, n);
    if w == k {
        return None;
    }
    if w < n && line.get_char(w) == '-' && w + 1 < n && line.get_char(w + 1) == '-' {
        let m = scan_long(line, w + 2, n);
        if m == w + 2 {
            return None;
        }
        if m < n && ws_char(line.get_char(m)) && m + 1 < n {
            Some((w, m))
        } else {
            None
        }
    } else {
        None
    }
}

/// Mines structured flag records out of raw help text, line by line.
/// Fails with `NoFlagsFound` — and only then — when no line of the text
/// matches the flag grammar.
pub fn extract(text: &str) -> (r: Result<Vec<Flag>, Error>)
    ensures
        r matches Ok(flags) ==> flags.deep_view() == spec_flags(text@) && spec_flags(
            text@,
        ).len() > 0,
        r matches Err(e) ==> e is NoFlagsFound && spec_flags(text@).len() == 0,
{
    let n = text.unicode_len();
    let mut flags: Vec<Flag> = Vec::new();
    let mut i: usize = 0;
    while i < n
        invariant
            i <= n,
            n == text@.len(),
            flags.deep_view() + spec_flags_from(text@, i as int) =~= spec_flags(text@),
        decreases n - i,
    {
        let mut j = i;
        while j < n && text.get_char(j) != '\n'
            invariant
                i <= j <= n,
                n == text@.len(),
                nl_off(text@, i as int) == (j - i) + nl_off(text@, j as int),
            decreases n - j,
        {
            j = j + 1;
        }
        proof {
            assert(j == i + nl_off(text@, i as int));
        }
        let line = text.substring_char(i, j);
        let ghost prev = flags.deep_view();
        match parse_line(line) {
            Some(f) => {
                let ghost fv = f@;
                flags.push(f);
                proof {
                    assert(flags.deep_view() =~= prev.push(fv));
                }
            },
            None => {},
        }
        proof {
            let s = text@;
            let ii = i as int;
            let jj = j as int;
            let here = match spec_parse_line(s.subrange(ii, jj)) {
                Some(f) => seq![f],
                None => Seq::<FlagView>::empty(),
            };
            let rest = if jj >= s.len() {
                Seq::<FlagView>::empty()
            } else {
                spec_flags_from(s, jj + 1)
            };
            assert(spec_flags_from(s, ii) == here + rest);
            assert(flags.deep_view() + rest =~= spec_flags(text@));
        }
        if j < n {
            i = j + 1;
        } else {
            i = n;
        }
    }
    if flags.len() == 0 {
        proof {
            assert(flags.deep_view() =~= spec_flags(text@));
        }
        Err(Error::NoFlagsFound)
    } else {
        proof {
            assert(flags.deep_view() =~= spec_flags(text@));
        }
        Ok(flags)
    }
}

} // verus!
