//! Header lists: ordered pairs of name and value, duplicates allowed.

use crate::text::{
    eq_ignore_ascii_case, eq_ignoring_ascii_case, find, position_of, string_of, trim, trim_of,
};
use vstd::prelude::*;
use vstd::string::*;

verus! {

/// The mathematical value of a header list.
pub open spec fn header_views(headers: Seq<(String, String)>) -> Seq<(Seq<char>, Seq<char>)> {
    headers.map_values(|h: (String, String)| (h.0@, h.1@))
}

/// The header that a line of a request holds: the text before its first
/// colon and the text after it, both without surrounding white space. A line
/// without a colon holds none.
pub open spec fn parsed_header(line: Seq<char>) -> Option<(Seq<char>, Seq<char>)> {
    let n = position_of(line, ':') as int;
    if n < line.len() {
        Some((trim_of(line.take(n)), trim_of(line.skip(n + 1))))
    } else {
        None
    }
}

/// The headers of the lines up to the first blank line, which ends them;
/// lines without a colon are passed over.
pub open spec fn parsed_headers(lines: Seq<Seq<char>>) -> Seq<(Seq<char>, Seq<char>)>
    decreases lines.len(),
{
    if lines.len() == 0 || trim_of(lines[0]).len() == 0 {
        Seq::empty()
    } else {
        match parsed_header(lines[0]) {
            Some(h) => seq![h] + parsed_headers(lines.drop_first()),
            None => parsed_headers(lines.drop_first()),
        }
    }
}

/// The wire form of one header: `Name: Value` and a line ending.
pub open spec fn header_line_text(header: (Seq<char>, Seq<char>)) -> Seq<char> {
    header.0 + ": "@ + header.1 + "\r\n"@
}

/// The wire form of a header list: one line for each header, in order.
pub open spec fn header_lines_text(headers: Seq<(Seq<char>, Seq<char>)>) -> Seq<char>
    decreases headers.len(),
{
    if headers.len() == 0 {
        Seq::empty()
    } else {
        header_lines_text(headers.drop_last()) + header_line_text(headers.last())
    }
}

/// Whether the list holds a header of that name, whatever the case of its
/// ASCII letters.
pub open spec fn has_header(headers: Seq<(Seq<char>, Seq<char>)>, name: Seq<char>) -> bool {
    exists|i: int| 0 <= i < headers.len() && eq_ignoring_ascii_case(#[trigger] headers[i].0, name)
}

/// Parses one header line of a request.
pub fn parse_header_line(line: &[char]) -> (out: Option<(String, String)>)
    ensures
        match out {
            Some(h) => parsed_header(line@) == Some((h.0@, h.1@)),
            None => parsed_header(line@) is None,
        },
{
    let n = find(line, ':');
    if n < line.len() {
        let name = string_of(trim(&line[0..n]));
        let value = string_of(trim(&line[n + 1..line.len()]));
        Some((name, value))
    } else {
        None
    }
}

/// Appends the wire form of a header list to `out`.
pub fn write_header_lines(out: &mut String, headers: &Vec<(String, String)>)
    ensures
        final(out)@ == old(out)@ + header_lines_text(header_views(headers@)),
{
    let mut i: usize = 0;
    while i < headers.len()
        invariant
            i <= headers.len(),
            out@ == old(out)@ + header_lines_text(header_views(headers@).take(i as int)),
        decreases headers.len() - i,
    {
        let ghost all = header_views(headers@);
        out.append(headers[i].0.as_str());
        out.append(": ");
        out.append(headers[i].1.as_str());
        out.append("\r\n");
        assert(all.take(i + 1).drop_last() =~= all.take(i as int));
        i += 1;
    }
    assert(header_views(headers@).take(headers@.len() as int) =~= header_views(headers@));
}

/// Copies a header list.
pub fn clone_headers(headers: &Vec<(String, String)>) -> (out: Vec<(String, String)>)
    ensures
        header_views(out@) == header_views(headers@),
{
    let mut out: Vec<(String, String)> = Vec::new();
    let mut i: usize = 0;
    while i < headers.len()
        invariant
            i <= headers.len(),
            header_views(out@) == header_views(headers@).take(i as int),
        decreases headers.len() - i,
    {
        let ghost before = header_views(out@);
        let name = headers[i].0.clone();
        let value = headers[i].1.clone();
        out.push((name, value));
        assert(header_views(headers@).take(i + 1) =~= before.push(header_views(headers@)[i as int]));
        i += 1;
    }
    out
}

/// Tells whether the list holds a header of that name, whatever the case of
/// its ASCII letters.
pub fn contains_header(headers: &Vec<(String, String)>, name: &str) -> (found: bool)
    ensures
        found == has_header(header_views(headers@), name@),
{
    let wanted = crate::text::chars_of(name);
    let mut i: usize = 0;
    while i < headers.len()
        invariant
            i <= headers.len(),
            wanted@ == name@,
            forall|j: int|
                0 <= j < i ==> !eq_ignoring_ascii_case(
                    #[trigger] header_views(headers@)[j].0,
                    name@,
                ),
        decreases headers.len() - i,
    {
        let held = crate::text::chars_of(headers[i].0.as_str());
        if eq_ignore_ascii_case(held.as_slice(), wanted.as_slice()) {
            assert(eq_ignoring_ascii_case(header_views(headers@)[i as int].0, name@));
            return true;
        }
        i += 1;
    }
    false
}

} // verus!
