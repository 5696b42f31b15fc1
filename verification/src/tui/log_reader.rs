//! Following the daemon's log file: where to resume reading, how a read
//! line is cleaned, and the lines a fresh view starts with.

use vstd::prelude::*;

use crate::daemon::traffic_monitor::last_n;
use crate::text::{chars_of, lines, split_lines, string_of, strings_view};

verus! {

/// Where reading resumes: where the last read stopped, or the start where
/// the file has become shorter than that (it was truncated or replaced).
pub fn resume_position(file_len: u64, last_position: u64) -> (r: u64)
    ensures
        r == (if file_len < last_position { 0 } else { last_position }),
{
    if file_len < last_position {
        0
    } else {
        last_position
    }
}

/// `s` without the `\r` and `\n` characters at its end.
pub open spec fn without_line_end(s: Seq<char>) -> Seq<char>
    decreases s.len(),
{
    if s.len() > 0 && (s.last() == '\r' || s.last() == '\n') {
        without_line_end(s.drop_last())
    } else {
        s
    }
}

/// A line as read, without its line ending (see `without_line_end`).
pub fn strip_line_end(line: &str) -> (r: String)
    ensures
        r@ == without_line_end(line@),
{
    let mut cs = chars_of(line);
    while cs.len() > 0 && (cs[cs.len() - 1] == '\r' || cs[cs.len() - 1] == '\n')
        invariant
            without_line_end(line@) == without_line_end(cs@),
        decreases cs@.len(),
    {
        let ghost before = cs@;
        cs.pop();
        assert(cs@ =~= before.drop_last());
    }
    string_of(cs.as_slice())
}

/// The last `count` lines of the log's content, oldest first.
pub fn tail_lines(content: &str, count: usize) -> (r: Vec<String>)
    ensures
        strings_view(r@) == last_n(lines(content@), count as int),
{
    let cs = chars_of(content);
    let all = split_lines(cs.as_slice());
    let ghost ls = all@.map_values(|l: Vec<char>| l@);
    let n = all.len();
    let start = n.saturating_sub(count);
    let mut out: Vec<String> = Vec::new();
    let mut i: usize = start;
    while i < n
        invariant
            n == all@.len(),
            start <= i <= n,
            start == (if n >= count { n - count } else { 0 }),
            ls == all@.map_values(|l: Vec<char>| l@),
            strings_view(out@) == ls.subrange(start as int, i as int),
        decreases n - i,
    {
        let s = string_of(all[i].as_slice());
        let ghost before = strings_view(out@);
        out.push(s);
        assert(strings_view(out@) =~= before.push(ls[i as int]));
        assert(ls.subrange(start as int, i + 1) =~= ls.subrange(start as int, i as int).push(ls[i as int]));
        i = i + 1;
    }
    assert(ls.subrange(start as int, n as int) =~= last_n(ls, count as int));
    out
}

} // verus!
