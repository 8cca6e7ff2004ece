//! The watch-target list: one directory path per line.
use vstd::prelude::*;

verus! {

/// A line without the carriage return that ended it, if any.
pub open spec fn strip_cr(line: Seq<char>) -> Seq<char> {
    if line.len() > 0 && line.last() == '\r' {
        line.drop_last()
    } else {
        line
    }
}

/// Reads `s` from the left: the lines finished by a newline so far and the
/// text after the last newline.
pub open spec fn scan_lines(s: Seq<char>) -> (Seq<Seq<char>>, Seq<char>)
    decreases s.len(),
{
    if s.len() == 0 {
        (seq![], seq![])
    } else {
        let prev = scan_lines(s.drop_last());
        if s.last() == '\n' {
            (prev.0.push(strip_cr(prev.1)), seq![])
        } else {
            (prev.0, prev.1.push(s.last()))
        }
    }
}

/// The lines of `s`: split at each newline, a carriage return before the
/// newline dropped, and no empty last line after a final newline.
pub open spec fn config_lines(s: Seq<char>) -> Seq<Seq<char>> {
    if scan_lines(s).1.len() == 0 {
        scan_lines(s).0
    } else {
        scan_lines(s).0.push(scan_lines(s).1)
    }
}

/// The watch targets listed in the text of a configuration file, one per
/// line, in order.
pub fn watch_dirs_from_config(content: &str) -> (r: Vec<String>)
    ensures
        r.deep_view() == config_lines(content@),
{
    let n = content.unicode_len();
    let mut lines: Vec<String> = Vec::new();
    let mut start: usize = 0;
    let mut i: usize = 0;
    assert(lines.deep_view() =~= seq![]);
    assert(content@.subrange(0, 0) =~= seq![]);
    while i < n
        invariant
            n == content@.len(),
            start <= i <= n,
            scan_lines(content@.subrange(0, i as int)) == (lines.deep_view(), content@.subrange(
                start as int,
                i as int,
            )),
        decreases n - i,
    {
        let c = content.get_char(i);
        assert(content@.subrange(0, i + 1).drop_last() =~= content@.subrange(0, i as int));
        if c == '\n' {
            let ghost open_piece = content@.subrange(start as int, i as int);
            let end = if i > start && content.get_char(i - 1) == '\r' {
                i - 1
            } else {
                i
            };
            assert(content@.subrange(start as int, end as int) =~= strip_cr(open_piece));
            let line = String::from_str(content.substring_char(start, end));
            let ghost before = lines.deep_view();
            lines.push(line);
            assert(lines.deep_view() =~= before.push(strip_cr(open_piece)));
            start = i + 1;
            assert(content@.subrange(start as int, i + 1) =~= seq![]);
        } else {
            assert(content@.subrange(start as int, i + 1) =~= content@.subrange(
                start as int,
                i as int,
            ).push(c));
        }
        i = i + 1;
    }
    assert(content@.subrange(0, n as int) =~= content@);
    if start < n {
        let ghost before = lines.deep_view();
        lines.push(String::from_str(content.substring_char(start, n)));
        assert(lines.deep_view() =~= before.push(content@.subrange(start as int, n as int)));
    }
    lines
}

} // verus!
