//! Reading the log back: tailing and confinement.
//!
//! The log file's text is split into lines exactly as the launcher
//! wrote them, and a requested number of trailing lines is returned in
//! original order.  A missing file is no error: a fixed sentinel text
//! stands in for it.  Before the file is touched at all, its path must
//! lie within the application's data directory; that confinement check
//! is a pure comparison of path components.

use vstd::prelude::*;

use crate::command::{join_with, spec_join_sep};
use crate::str_views;

verus! {

/// Index of the first occurrence of `c` in `s` at or after `i`, or
/// `s.len()` when none follows.
pub open spec fn first_char_from(s: Seq<char>, c: char, i: int) -> int
    decreases s.len() - i,
{
    if i < 0 || i >= s.len() {
        s.len() as int
    } else if s[i] == c {
        i
    } else {
        first_char_from(s, c, i + 1)
    }
}

/// Any position preceded by no occurrence and itself an occurrence or
/// the end is where `first_char_from` lands.
pub proof fn lemma_first_char_from_is(s: Seq<char>, c: char, i: int, j: int)
    requires
        0 <= i <= j <= s.len(),
        j < s.len() ==> s[j] == c,
        forall|m: int| i <= m < j ==> s[m] != c,
    ensures
        first_char_from(s, c, i) == j,
    decreases j - i,
{
    if i < j {
        lemma_first_char_from_is(s, c, i + 1, j);
    }
}

/// A line with any trailing carriage return removed, as the line
/// reader strips a Windows line ending before a newline.
pub open spec fn spec_strip_cr(line: Seq<char>) -> Seq<char> {
    if line.len() > 0 && line.last() == '\r' {
        line.drop_last()
    } else {
        line
    }
}

/// The lines of `s`: segments between newlines, each with a carriage
/// return before the newline removed; a final newline ends the last
/// line rather than opening an empty one, and a final segment without
/// a newline is kept as it stands.
pub open spec fn spec_lines(s: Seq<char>) -> Seq<Seq<char>>
    decreases s.len(),
{
    if s.len() == 0 {
        Seq::empty()
    } else {
        let k = first_char_from(s, '\n', 0);
        if 0 <= k < s.len() {
            seq![spec_strip_cr(s.take(k))] + spec_lines(s.skip(k + 1))
        } else {
            seq![s]
        }
    }
}

/// The last `count` lines of `content` (all of them when fewer exist),
/// in original order, joined with newlines.
pub open spec fn spec_log_tail(content: Seq<char>, count: int) -> Seq<char> {
    let lines = spec_lines(content);
    let start = if lines.len() > count {
        lines.len() - count
    } else {
        0
    };
    spec_join_sep(lines.skip(start), "\n"@)
}

/// The fixed text that stands in for a log file that does not exist.
pub open spec fn spec_no_entries_text() -> Seq<char> {
    "No log entries yet."@
}

/// Splits text into lines: segments between newlines, a carriage
/// return before a newline stripped, a final newline closing the last
/// line.
pub fn split_lines(content: &str) -> (lines: Vec<String>)
    ensures
        str_views(lines@) == spec_lines(content@),
{
    let n = content.unicode_len();
    let mut lines: Vec<String> = Vec::new();
    let mut pos: usize = 0;
    proof {
        assert(content@.skip(0) =~= content@);
        assert(str_views(lines@) + spec_lines(content@.skip(0)) =~= spec_lines(content@));
    }
    while pos < n
        invariant
            n == content@.len(),
            0 <= pos <= n,
            str_views(lines@) + spec_lines(content@.skip(pos as int)) == spec_lines(content@),
        decreases n - pos,
    {
        let ghost rest = content@.skip(pos as int);
        // Find the next newline at or after `pos`.
        let mut j: usize = pos;
        while j < n && content.get_char(j) != '\n'
            invariant
                n == content@.len(),
                pos <= j <= n,
                forall|m: int| pos <= m < j ==> content@[m] != '\n',
            decreases n - j,
        {
            j += 1;
        }
        proof {
            assert forall|m: int| 0 <= m < j - pos implies rest[m] != '\n' by {
                assert(rest[m] == content@[m + pos]);
            }
            if j < n {
                assert(rest[j - pos] == content@[j as int]);
            }
            lemma_first_char_from_is(rest, '\n', 0, j - pos);
        }
        // The segment without its newline, nor a carriage return
        // right before that newline.
        let end: usize = if j < n && j > pos && content.get_char(j - 1) == '\r' {
            j - 1
        } else {
            j
        };
        let line = content.substring_char(pos, end);
        let ghost pre = lines@;
        lines.push(String::from_str(line));
        proof {
            let segment = if j < n {
                rest.take(j - pos)
            } else {
                rest
            };
            if j == n {
                assert(rest.take(j - pos) =~= rest);
            }
            if j < n {
                if j > pos && content@[j - 1] == '\r' {
                    assert(segment.len() > 0 && segment.last() == '\r');
                    assert(line@ =~= spec_strip_cr(segment));
                } else {
                    if segment.len() > 0 {
                        assert(segment.last() == content@[j - 1]);
                    }
                    assert(line@ =~= spec_strip_cr(segment));
                }
            } else {
                assert(line@ =~= segment);
            }
            assert(str_views(lines@) =~= str_views(pre).push(line@));
            if j < n {
                assert(spec_lines(rest) == seq![spec_strip_cr(rest.take(j - pos))] + spec_lines(
                    rest.skip(j - pos + 1),
                ));
                assert(content@.skip(j + 1) =~= rest.skip(j - pos + 1));
                assert(str_views(lines@) + spec_lines(content@.skip(j + 1)) =~= spec_lines(
                    content@,
                ));
            } else {
                assert(rest.len() > 0);
                assert(spec_lines(rest) == seq![rest]);
                assert(content@.skip(n as int) =~= Seq::<char>::empty());
                assert(str_views(lines@) + spec_lines(content@.skip(n as int)) =~= spec_lines(
                    content@,
                ));
            }
        }
        if j < n {
            pos = j + 1;
        } else {
            pos = n;
        }
    }
    proof {
        assert(content@.skip(n as int) =~= Seq::<char>::empty());
        assert(str_views(lines@) =~= spec_lines(content@));
    }
    lines
}

/// Returns the last `count` lines of `content` in original order,
/// joined with newlines; all lines when fewer than `count` exist.
pub fn render_log_tail(content: &str, count: usize) -> (r: String)
    ensures
        r@ == spec_log_tail(content@, count as int),
{
    let lines = split_lines(content);
    let start: usize = if lines.len() > count {
        lines.len() - count
    } else {
        0
    };
    let mut tail: Vec<String> = Vec::new();
    proof {
        assert(str_views(tail@) =~= str_views(lines@).skip(start as int).take(0));
    }
    let mut i: usize = start;
    while i < lines.len()
        invariant
            start <= i <= lines@.len(),
            str_views(tail@) == str_views(lines@).skip(start as int).take(i - start),
        decreases lines@.len() - i,
    {
        let ghost pre = tail@;
        tail.push(lines[i].clone());
        proof {
            let suffix = str_views(lines@).skip(start as int);
            assert(suffix.take(i - start + 1) =~= suffix.take(i - start).push(suffix[i - start]));
            assert(suffix[i - start] == str_views(lines@)[i as int]);
            assert(str_views(tail@) =~= str_views(pre).push(lines@[i as int]@));
        }
        i += 1;
    }
    proof {
        let suffix = str_views(lines@).skip(start as int);
        assert(suffix.take(lines@.len() - start) =~= suffix);
    }
    join_with(&tail, "\n")
}

/// Answers a log-read request from what the embedding application
/// found on disk: a missing file yields the fixed sentinel text, and
/// otherwise the requested tail (one hundred lines when no count is
/// given) of the file's content.
pub fn read_log_text(content: &Option<String>, tail_count: &Option<usize>) -> (r: String)
    ensures
        ({
            match content {
                None => r@ == spec_no_entries_text(),
                Some(c) => r@ == spec_log_tail(
                    c@,
                    match tail_count {
                        Some(n) => *n as int,
                        None => 100,
                    },
                ),
            }
        }),
{
    match content {
        None => String::from_str("No log entries yet."),
        Some(c) => {
            let count: usize = match tail_count {
                Some(n) => *n,
                None => 100,
            };
            render_log_tail(c.as_str(), count)
        },
    }
}

/// A path separator: forward slash or backslash.
pub open spec fn is_sep(c: char) -> bool {
    c == '/' || c == '\\'
}

/// The non-empty components of a path, in order: maximal runs of
/// non-separator characters.
pub open spec fn spec_components(s: Seq<char>) -> Seq<Seq<char>>
    decreases s.len(),
{
    if s.len() == 0 {
        Seq::empty()
    } else if is_sep(s[0]) {
        spec_components(s.skip(1))
    } else {
        let k = first_sep_from(s, 0);
        if 0 <= k < s.len() {
            seq![s.take(k)] + spec_components(s.skip(k + 1))
        } else {
            seq![s]
        }
    }
}

/// Index of the first separator in `s` at or after `i`, or `s.len()`
/// when none follows.
pub open spec fn first_sep_from(s: Seq<char>, i: int) -> int
    decreases s.len() - i,
{
    if i < 0 || i >= s.len() {
        s.len() as int
    } else if is_sep(s[i]) {
        i
    } else {
        first_sep_from(s, i + 1)
    }
}

/// Any position preceded by no separator and itself a separator or the
/// end is where `first_sep_from` lands.
proof fn lemma_first_sep_from_is(s: Seq<char>, i: int, j: int)
    requires
        0 <= i <= j <= s.len(),
        j < s.len() ==> is_sep(s[j]),
        forall|m: int| i <= m < j ==> !is_sep(#[trigger] s[m]),
    ensures
        first_sep_from(s, i) == j,
    decreases j - i,
{
    if i < j {
        lemma_first_sep_from_is(s, i + 1, j);
    }
}

/// Whether `path` lies within `root`: component-wise, `root`'s
/// components are a prefix of `path`'s.
pub open spec fn spec_path_within(path: Seq<char>, root: Seq<char>) -> bool {
    spec_components(root).is_prefix_of(spec_components(path))
}

/// Splits a path into its non-empty components, treating both slash
/// directions as separators.
pub fn path_components(path: &str) -> (comps: Vec<String>)
    ensures
        str_views(comps@) == spec_components(path@),
{
    let n = path.unicode_len();
    let mut comps: Vec<String> = Vec::new();
    let mut pos: usize = 0;
    proof {
        assert(path@.skip(0) =~= path@);
        assert(str_views(comps@) + spec_components(path@.skip(0)) =~= spec_components(path@));
    }
    while pos < n
        invariant
            n == path@.len(),
            0 <= pos <= n,
            str_views(comps@) + spec_components(path@.skip(pos as int)) == spec_components(path@),
        decreases n - pos,
    {
        let ghost rest = path@.skip(pos as int);
        let c = path.get_char(pos);
        if c == '/' || c == '\\' {
            proof {
                assert(rest[0] == path@[pos as int]);
                assert(rest.skip(1) =~= path@.skip(pos + 1));
                assert(spec_components(rest) == spec_components(rest.skip(1)));
            }
            pos += 1;
        } else {
            let mut j: usize = pos;
            while j < n && path.get_char(j) != '/' && path.get_char(j) != '\\'
                invariant
                    n == path@.len(),
                    pos <= j <= n,
                    forall|m: int| pos <= m < j ==> !is_sep(#[trigger] path@[m]),
                decreases n - j,
            {
                j += 1;
            }
            proof {
                assert forall|m: int| 0 <= m < j - pos implies !is_sep(rest[m]) by {
                    assert(rest[m] == path@[m + pos]);
                }
                if j < n {
                    assert(rest[j - pos] == path@[j as int]);
                }
                lemma_first_sep_from_is(rest, 0, j - pos);
                assert(rest[0] == path@[pos as int]);
            }
            let piece = path.substring_char(pos, j);
            let ghost pre = comps@;
            comps.push(String::from_str(piece));
            proof {
                assert(str_views(comps@) =~= str_views(pre).push(piece@));
                if j < n {
                    assert(piece@ =~= rest.take(j - pos));
                    assert(path@.skip(j + 1) =~= rest.skip(j - pos + 1));
                    assert(str_views(comps@) + spec_components(path@.skip(j + 1))
                        =~= spec_components(path@));
                } else {
                    assert(piece@ =~= rest);
                    assert(spec_components(rest) == seq![rest]);
                    assert(path@.skip(n as int) =~= Seq::<char>::empty());
                    assert(str_views(comps@) + spec_components(path@.skip(n as int))
                        =~= spec_components(path@));
                }
            }
            if j < n {
                pos = j + 1;
            } else {
                pos = n;
            }
        }
    }
    proof {
        assert(path@.skip(n as int) =~= Seq::<char>::empty());
        assert(str_views(comps@) =~= spec_components(path@));
    }
    comps
}

/// The confinement check: whether `path` lies within `root`,
/// component-wise, so that log operations never leave the
/// application's data directory.
pub fn is_path_within(path: &str, root: &str) -> (r: bool)
    ensures
        r == spec_path_within(path@, root@),
{
    let path_comps = path_components(path);
    let root_comps = path_components(root);
    if root_comps.len() > path_comps.len() {
        proof {
            assert(!spec_components(root@).is_prefix_of(spec_components(path@)));
        }
        return false;
    }
    let mut i: usize = 0;
    while i < root_comps.len()
        invariant
            root_comps@.len() <= path_comps@.len(),
            str_views(path_comps@) == spec_components(path@),
            str_views(root_comps@) == spec_components(root@),
            0 <= i <= root_comps@.len(),
            forall|m: int| 0 <= m < i ==> str_views(root_comps@)[m] == str_views(path_comps@)[m],
        decreases root_comps@.len() - i,
    {
        if !root_comps[i].eq(&path_comps[i]) {
            proof {
                assert(str_views(root_comps@)[i as int] != str_views(path_comps@)[i as int]);
                assert(!spec_components(root@).is_prefix_of(spec_components(path@)));
            }
            return false;
        }
        i += 1;
    }
    proof {
        let rc = spec_components(root@);
        let pc = spec_components(path@);
        assert(rc =~= pc.subrange(0, rc.len() as int));
    }
    true
}

} // verus!
