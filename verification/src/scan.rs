//! One file, scanned: the lines in which the pattern matches, rendered
//! in the order of the file, under the file's path.

use crate::error::GrepError;
use crate::line::{format_line, is_formatted};
use crate::lines::{lines_of, split_lines, texts};
use crate::matcher::{find_first, first_match};
use crate::paint::{green, is_highlighted, Tint};
use itertools::Itertools;
use regex::Regex;
use std::ops::Range;
use vstd::prelude::*;
use vstd::string::*;

verus! {

/// The strings of a vector as texts.
pub open spec fn views(items: Seq<String>) -> Seq<Seq<char>> {
    items.map_values(|s: String| s@)
}

/// The first match in a line; a line without text has none.
pub open spec fn hit_in(re: Regex, line: Option<Seq<char>>) -> Option<(int, int)> {
    match line {
        Some(text) => first_match(re, text),
        None => None,
    }
}

/// The indices of the lines in which the pattern matches, in the order of
/// the file. Line `i` of the file has the number `i + 1`.
pub open spec fn matching_lines(re: Regex, lines: Seq<Option<Seq<char>>>) -> Seq<int>
    decreases lines.len(),
{
    if lines.len() == 0 {
        Seq::empty()
    } else if hit_in(re, lines.last()) is Some {
        matching_lines(re, lines.drop_last()).push(lines.len() - 1)
    } else {
        matching_lines(re, lines.drop_last())
    }
}

/// Whether `entry` renders the first match of line `i`.
pub open spec fn is_entry(entry: Seq<char>, re: Regex, lines: Seq<Option<Seq<char>>>, i: int) -> bool {
    lines[i] matches Some(text) && hit_in(re, lines[i]) matches Some(found) && is_formatted(
        entry,
        text,
        (i + 1) as nat,
        found.0,
        found.1,
    )
}

/// Whether `entries` are the renderings of the matching lines, one for
/// each, in the order of the file.
pub open spec fn are_entries(
    entries: Seq<Seq<char>>,
    re: Regex,
    lines: Seq<Option<Seq<char>>>,
) -> bool {
    let found = matching_lines(re, lines);
    entries.len() == found.len() && forall|k: int|
        0 <= k < entries.len() ==> is_entry(#[trigger] entries[k], re, lines, found[k])
}

/// The items in a row, with `sep` between each two.
pub open spec fn joined(items: Seq<Seq<char>>, sep: Seq<char>) -> Seq<char>
    decreases items.len(),
{
    if items.len() == 0 {
        Seq::empty()
    } else if items.len() == 1 {
        items[0]
    } else {
        joined(items.drop_last(), sep) + sep + items.last()
    }
}

/// What is written for a file with matches: the header, then the entries,
/// each on a line of its own.
pub open spec fn block(header: Seq<char>, entries: Seq<Seq<char>>) -> Seq<char> {
    header + seq!['\n'] + joined(entries, seq!['\n']) + seq!['\n']
}

/// Whether `out` is the block of the file `path` with this header and these
/// entries.
pub open spec fn is_scan_block(
    out: Seq<char>,
    path: Seq<char>,
    re: Regex,
    lines: Seq<Option<Seq<char>>>,
    header: Seq<char>,
    entries: Seq<Seq<char>>,
) -> bool {
    &&& is_highlighted(header, path, Tint::Green)
    &&& are_entries(entries, re, lines)
    &&& out == block(header, entries)
}

/// Whether `out` is what a scan of the file writes: nothing where no line
/// matches, else the green path and the matching lines below it.
pub open spec fn is_scan_output(
    out: Seq<char>,
    path: Seq<char>,
    re: Regex,
    lines: Seq<Option<Seq<char>>>,
) -> bool {
    if matching_lines(re, lines).len() == 0 {
        out.len() == 0
    } else {
        exists|header: Seq<char>, entries: Seq<Seq<char>>| #[trigger]
            is_scan_block(out, path, re, lines, header, entries)
    }
}

/// `Itertools::join` of the `itertools` crate on the strings of a vector:
/// the items in their order, with `sep` between each two. The separator is
/// at most one character, so that the capacity that the crate reserves (the
/// separator's length times the number of items left) stays within what a
/// string can have.
#[verifier::external_body]
pub(crate) fn join_with(items: &Vec<String>, sep: &str) -> (out: String)
    requires
        sep@.len() <= 1,
    ensures
        out@ == joined(views(items@), sep@),
{
    items.iter().join(sep)
}

/// Renders the first match of each line in which `pattern` matches, in the
/// order of the lines.
pub fn collect_entries(lines: &Vec<Option<String>>, pattern: &Regex) -> (entries: Vec<String>)
    ensures
        are_entries(views(entries@), *pattern, texts(lines@)),
{
    let ghost all = texts(lines@);
    let mut entries: Vec<String> = Vec::new();
    let mut i: usize = 0;
    assert(all.take(0) =~= Seq::empty());
    while i < lines.len()
        invariant
            0 <= i <= lines.len(),
            all == texts(lines@),
            entries.len() == matching_lines(*pattern, all.take(i as int)).len(),
            forall|k: int|
                0 <= k < entries.len() ==> is_entry(
                    #[trigger] views(entries@)[k],
                    *pattern,
                    all,
                    matching_lines(*pattern, all.take(i as int))[k],
                ),
        decreases lines.len() - i,
    {
        let ghost before = matching_lines(*pattern, all.take(i as int));
        let ghost old_entries = views(entries@);
        proof {
            assert(all.take(i + 1).drop_last() =~= all.take(i as int));
            assert(all.take(i + 1).last() == all[i as int]);
        }
        match &lines[i] {
            Some(text) => {
                match find_first(pattern, text.as_str()) {
                    Some(found) => {
                        let entry = format_line(
                            text.as_str(),
                            i + 1,
                            Range { start: found.0, end: found.1 },
                        );
                        entries.push(entry);
                        proof {
                            let now = views(entries@);
                            assert(now =~= old_entries.push(entry@));
                            assert(matching_lines(*pattern, all.take(i + 1)) == before.push(
                                i as int,
                            ));
                            assert forall|k: int| 0 <= k < entries.len() implies is_entry(
                                #[trigger] now[k],
                                *pattern,
                                all,
                                before.push(i as int)[k],
                            ) by {
                                if k < old_entries.len() {
                                    assert(now[k] == old_entries[k]);
                                }
                            }
                        }
                    },
                    None => {},
                }
            },
            None => {},
        }
        i += 1;
    }
    assert(all.take(i as int) =~= all);
    entries
}

/// Puts the block of a file together: the header, a line break, the entries
/// with line breaks between them, and a line break at the end.
pub fn render_block(header: &str, entries: &Vec<String>) -> (out: String)
    ensures
        out@ == block(header@, views(entries@)),
{
    proof {
        reveal_strlit("\n");
        assert("\n"@ =~= seq!['\n']);
    }
    let body = join_with(entries, "\n");
    let mut out = String::new();
    out.append(header);
    out.append("\n");
    out.append(body.as_str());
    out.append("\n");
    assert(out@ =~= block(header@, views(entries@)));
    out
}

/// Scans the lines of the file `path` from first to last and gives what is
/// to be written for it: nothing for a file in which no line matches, else
/// the path and, below it, one entry for each matching line.
pub fn scan_lines(path: &str, lines: &Vec<Option<String>>, pattern: &Regex) -> (out: String)
    ensures
        is_scan_output(out@, path@, *pattern, texts(lines@)),
{
    let entries = collect_entries(lines, pattern);
    if entries.len() == 0 {
        String::new()
    } else {
        let header = green(path);
        let out = render_block(header.as_str(), &entries);
        assert(is_scan_block(
            out@,
            path@,
            *pattern,
            texts(lines@),
            header@,
            views(entries@),
        ));
        out
    }
}

/// The sequential scan of a file: splits its content into lines, looks for
/// the first match in each, from the first line to the last, and gives what
/// is to be written for the file. It never fails.
pub fn default_strategy(path: &str, content: &[u8], pattern: &Regex) -> (r: Result<
    String,
    GrepError,
>)
    ensures
        r matches Ok(out) && is_scan_output(out@, path@, *pattern, lines_of(content@)),
{
    let lines = split_lines(content);
    Ok(scan_lines(path, &lines, pattern))
}

/// The matching lines are listed by ascending line number, each of them
/// once and no other line: the list names lines of the file in which the
/// pattern matches, strictly upwards, and leaves out none of them.
pub proof fn matching_lines_ascend(re: Regex, lines: Seq<Option<Seq<char>>>)
    ensures
        matching_lines(re, lines).len() <= lines.len(),
        forall|k: int|
            0 <= k < matching_lines(re, lines).len() ==> 0 <= #[trigger] matching_lines(
                re,
                lines,
            )[k] < lines.len() && hit_in(re, lines[matching_lines(re, lines)[k]]) is Some,
        forall|j: int, k: int|
            0 <= j < k < matching_lines(re, lines).len() ==> #[trigger] matching_lines(
                re,
                lines,
            )[j] < #[trigger] matching_lines(re, lines)[k],
        forall|i: int|
            0 <= i < lines.len() && hit_in(re, #[trigger] lines[i]) is Some ==> matching_lines(
                re,
                lines,
            ).contains(i),
    decreases lines.len(),
{
    if lines.len() > 0 {
        let earlier = lines.drop_last();
        let found = matching_lines(re, lines);
        let before = matching_lines(re, earlier);
        matching_lines_ascend(re, earlier);
        assert forall|i: int|
            0 <= i < lines.len() && hit_in(re, #[trigger] lines[i]) is Some implies found.contains(
            i,
        ) by {
            if i < lines.len() - 1 {
                assert(earlier[i] == lines[i]);
                let k = choose|k: int| 0 <= k < before.len() && before[k] == i;
                assert(found[k] == i);
            } else {
                assert(found[found.len() - 1] == i);
            }
        }
        assert forall|k: int| 0 <= k < found.len() implies 0 <= #[trigger] found[k] < lines.len()
            && hit_in(re, lines[found[k]]) is Some by {
            if k < before.len() {
                assert(found[k] == before[k]);
                assert(earlier[before[k]] == lines[before[k]]);
            }
        }
    }
}

/// The entries of a file stand in the order of their line numbers, one for
/// each matching line: there are as many entries as matching lines, each
/// renders a line in which the pattern matches, under that line's number,
/// and a later entry has the greater number.
pub proof fn entries_follow_line_numbers(
    entries: Seq<Seq<char>>,
    re: Regex,
    lines: Seq<Option<Seq<char>>>,
)
    requires
        are_entries(entries, re, lines),
    ensures
        entries.len() == matching_lines(re, lines).len(),
        forall|k: int|
            0 <= k < entries.len() ==> is_entry(
                #[trigger] entries[k],
                re,
                lines,
                matching_lines(re, lines)[k],
            ) && 0 <= matching_lines(re, lines)[k] < lines.len(),
        forall|j: int, k: int|
            0 <= j < k < entries.len() ==> #[trigger] matching_lines(re, lines)[j]
                < #[trigger] matching_lines(re, lines)[k],
{
    matching_lines_ascend(re, lines);
}

/// A file is written about if and only if one of its lines matches: with no
/// matching line nothing is written, not even the path, and with one the
/// output is not empty.
pub proof fn output_only_for_matches(
    out: Seq<char>,
    path: Seq<char>,
    re: Regex,
    lines: Seq<Option<Seq<char>>>,
)
    requires
        is_scan_output(out, path, re, lines),
    ensures
        out.len() == 0 <==> forall|i: int|
            0 <= i < lines.len() ==> hit_in(re, #[trigger] lines[i]) is None,
{
    matching_lines_ascend(re, lines);
    let found = matching_lines(re, lines);
    if found.len() == 0 {
        assert forall|i: int| 0 <= i < lines.len() implies hit_in(re, #[trigger] lines[i])
            is None by {
            if hit_in(re, lines[i]) is Some {
                assert(found.contains(i));
            }
        }
    } else {
        assert(hit_in(re, lines[found[0]]) is Some);
        let (header, entries) = choose|header: Seq<char>, entries: Seq<Seq<char>>| #[trigger]
            is_scan_block(out, path, re, lines, header, entries);
        assert(out.len() >= 2);
    }
}

} // verus!
