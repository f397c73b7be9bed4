//! Reading a configuration document from text.
//!
//! The text is read line by line. A line is blank, a comment that begins with `#` or `;`,
//! a section header `[name]` or `[name "subsection"]`, or an entry `key = value` of the
//! section whose header came last. Quoting inside values and lines that continue on the
//! next one are not part of this format.

use vstd::prelude::*;
use vstd::slice::slice_subrange;
use crate::document::{Document, Entry, EntryView};
use crate::text::{find, opt_view, position, to_vec};

verus! {

/// A line that is none of the forms that a document is made of, or an entry before the
/// first section header.
#[derive(Clone, Copy, Debug, PartialEq, Eq, Hash)]
pub struct ParseError {
    /// The number of the line, the first line being line 1.
    pub line: usize,
}

/// Whether the byte is a space, a tab or a carriage return.
pub open spec fn is_blank(b: u8) -> bool {
    b == 32 || b == 9 || b == 13
}

/// The text without the blanks at its beginning.
pub open spec fn trim_start(s: Seq<u8>) -> Seq<u8>
    decreases s.len(),
{
    if s.len() > 0 && is_blank(s[0]) {
        trim_start(s.skip(1))
    } else {
        s
    }
}

/// The text without the blanks at its end.
pub open spec fn trim_end(s: Seq<u8>) -> Seq<u8>
    decreases s.len(),
{
    if s.len() > 0 && is_blank(s.last()) {
        trim_end(s.drop_last())
    } else {
        s
    }
}

/// The text without the blanks at its beginning and at its end.
pub open spec fn trimmed(s: Seq<u8>) -> Seq<u8> {
    trim_end(trim_start(s))
}

/// The text without the blanks at its beginning and at its end.
fn trim(s: &[u8]) -> (r: &[u8])
    ensures
        r@ == trimmed(s@),
{
    let mut a: usize = 0;
    assert(s@.skip(0) == s@);
    while a < s.len() && (s[a] == 32 || s[a] == 9 || s[a] == 13)
        invariant
            a <= s@.len(),
            trim_start(s@) == trim_start(s@.skip(a as int)),
        decreases s@.len() - a,
    {
        assert(s@.skip(a as int).skip(1) == s@.skip(a + 1));
        a = a + 1;
    }
    let ghost t = s@.skip(a as int);
    assert(trim_start(s@) == t);
    let mut b: usize = s.len();
    assert(t.take(t.len() as int) == t);
    while b > a && (s[b - 1] == 32 || s[b - 1] == 9 || s[b - 1] == 13)
        invariant
            a <= b <= s@.len(),
            t == s@.skip(a as int),
            trim_end(t) == trim_end(t.take(b - a)),
        decreases b,
    {
        assert(t.take(b - a).drop_last() == t.take(b - a - 1));
        assert(t.take(b - a).last() == s@[b - 1]);
        b = b - 1;
    }
    proof {
        if b > a {
            assert(t.take(b - a).last() == s@[b - 1]);
        }
        assert(t.take(b - a) == s@.subrange(a as int, b as int));
    }
    slice_subrange(s, a, b)
}

/// What one line of a document says.
pub enum Line {
    /// Nothing: the line is blank or a comment.
    Blank,
    /// A section begins.
    Header { section: Seq<u8>, subsection: Option<Seq<u8>> },
    /// The section has an entry.
    Pair { key: Seq<u8>, value: Seq<u8> },
    /// The line is none of these.
    Bad,
}

/// What a section header says, given what stands between its brackets: a name without
/// blanks or quotes, or such a name, a space, and a subsection in double quotes that
/// holds neither a quote nor a backslash.
pub open spec fn read_header(inner: Seq<u8>) -> Line {
    let quote = position(inner, 34, 0);
    if quote == inner.len() {
        if inner.len() > 0 && position(inner, 32, 0) == inner.len() {
            Line::Header { section: inner, subsection: None }
        } else {
            Line::Bad
        }
    } else {
        let name = inner.take(quote - 1);
        let sub = inner.subrange(quote + 1, inner.len() - 1);
        if quote >= 2 && inner[quote - 1] == 32 && position(name, 32, 0) == name.len()
            && inner.len() - 1 > quote && inner.last() == 34 && position(sub, 34, 0) == sub.len()
            && position(sub, 92, 0) == sub.len() {
            Line::Header { section: name, subsection: Some(sub) }
        } else {
            Line::Bad
        }
    }
}

/// What a line says, given the line without the blanks around it.
pub open spec fn read_line(line: Seq<u8>) -> Line {
    if line.len() == 0 || line[0] == 35 || line[0] == 59 {
        Line::Blank
    } else if line[0] == 91 {
        if line.len() >= 2 && line.last() == 93 {
            read_header(line.subrange(1, line.len() - 1))
        } else {
            Line::Bad
        }
    } else {
        let equals = position(line, 61, 0);
        let key = trimmed(line.take(equals));
        if key.len() == 0 {
            Line::Bad
        } else if equals == line.len() {
            Line::Pair { key, value: Seq::empty() }
        } else {
            Line::Pair { key, value: trimmed(line.skip(equals + 1)) }
        }
    }
}

/// The section that entries belong to: the names of the header that came last.
pub struct Place {
    pub section: Seq<u8>,
    pub subsection: Option<Seq<u8>>,
}

/// The entries of the text from `pos` on, after `entries`, for a reader that stands in
/// the section `place` and has seen `lines` lines; or the number of the first line
/// that cannot be read.
pub open spec fn parse_from(
    text: Seq<u8>,
    pos: int,
    lines: nat,
    place: Option<Place>,
    entries: Seq<EntryView>,
) -> Result<Seq<EntryView>, nat>
    decreases text.len() - pos,
{
    if pos < 0 || pos >= text.len() {
        Ok(entries)
    } else {
        let end = position(text, 10, pos);
        let next = if pos <= end < text.len() {
            end + 1
        } else {
            text.len() as int
        };
        match read_line(trimmed(text.subrange(pos, end))) {
            Line::Blank => parse_from(text, next, lines + 1, place, entries),
            Line::Header { section, subsection } => parse_from(
                text,
                next,
                lines + 1,
                Some(Place { section, subsection }),
                entries,
            ),
            Line::Pair { key, value } => match place {
                Some(p) => parse_from(
                    text,
                    next,
                    lines + 1,
                    place,
                    entries.push(
                        EntryView { section: p.section, subsection: p.subsection, key, value },
                    ),
                ),
                None => Err(lines + 1),
            },
            Line::Bad => Err(lines + 1),
        }
    }
}

/// The document that a text writes, or the number of the first line that cannot be read.
pub open spec fn parsed(text: Seq<u8>) -> Result<Seq<EntryView>, nat> {
    parse_from(text, 0, 0, None, Seq::empty())
}

/// What one line says, in executable form.
enum Read {
    Blank,
    Header { section: Vec<u8>, subsection: Option<Vec<u8>> },
    Pair { key: Vec<u8>, value: Vec<u8> },
    Bad,
}

impl Read {
    spec fn line(self) -> Line {
        match self {
            Read::Blank => Line::Blank,
            Read::Header { section, subsection } => Line::Header {
                section: section@,
                subsection: opt_view(subsection),
            },
            Read::Pair { key, value } => Line::Pair { key: key@, value: value@ },
            Read::Bad => Line::Bad,
        }
    }
}

/// Reads what stands between the brackets of a section header.
fn header(inner: &[u8]) -> (r: Read)
    ensures
        r.line() == read_header(inner@),
{
    let quote = find(inner, 34, 0);
    if quote == inner.len() {
        if inner.len() > 0 && find(inner, 32, 0) == inner.len() {
            return Read::Header { section: to_vec(inner), subsection: None };
        }
        return Read::Bad;
    }
    if quote < 2 || inner[quote - 1] != 32 || inner.len() - 1 <= quote || inner[inner.len() - 1]
        != 34 {
        return Read::Bad;
    }
    let name = slice_subrange(inner, 0, quote - 1);
    let sub = slice_subrange(inner, quote + 1, inner.len() - 1);
    if find(name, 32, 0) == name.len() && find(sub, 34, 0) == sub.len() && find(sub, 92, 0)
        == sub.len() {
        Read::Header { section: to_vec(name), subsection: Some(to_vec(sub)) }
    } else {
        Read::Bad
    }
}

/// Reads a line that has no blanks around it.
fn read(line: &[u8]) -> (r: Read)
    ensures
        r.line() == read_line(line@),
{
    if line.len() == 0 || line[0] == 35 || line[0] == 59 {
        return Read::Blank;
    }
    if line[0] == 91 {
        if line.len() >= 2 && line[line.len() - 1] == 93 {
            return header(slice_subrange(line, 1, line.len() - 1));
        }
        return Read::Bad;
    }
    let equals = find(line, 61, 0);
    let key = trim(slice_subrange(line, 0, equals));
    if key.len() == 0 {
        return Read::Bad;
    }
    if equals == line.len() {
        return Read::Pair { key: to_vec(key), value: Vec::new() };
    }
    let value = trim(slice_subrange(line, equals + 1, line.len()));
    Read::Pair { key: to_vec(key), value: to_vec(value) }
}

/// The section that the reader stands in, in executable form.
struct Here {
    section: Vec<u8>,
    subsection: Option<Vec<u8>>,
}

spec fn place_of(here: Option<Here>) -> Option<Place> {
    match here {
        Some(h) => Some(
            Place { section: h.section@, subsection: opt_view(h.subsection) },
        ),
        None => None,
    }
}

/// A copy of optional bytes.
fn copy_opt(bytes: &Option<Vec<u8>>) -> (r: Option<Vec<u8>>)
    ensures
        opt_view(r) == opt_view(*bytes),
{
    match bytes {
        Some(b) => Some(to_vec(b.as_slice())),
        None => None,
    }
}

impl Document {
    /// Reads a document from text.
    pub fn parse(text: &[u8]) -> (r: Result<Document, ParseError>)
        ensures
            match r {
                Ok(doc) => parsed(text@) == Ok::<Seq<EntryView>, nat>(doc@),
                Err(e) => parsed(text@) == Err::<Seq<EntryView>, nat>(e.line as nat),
            },
    {
        let mut doc = Document::new();
        let mut here: Option<Here> = None;
        let mut lines: usize = 0;
        let mut pos: usize = 0;
        while pos < text.len()
            invariant
                pos <= text@.len(),
                lines <= pos,
                parsed(text@) == parse_from(text@, pos as int, lines as nat, place_of(here), doc@),
            decreases text@.len() - pos,
        {
            let end = find(text, 10, pos);
            let line = trim(slice_subrange(text, pos, end));
            match read(line) {
                Read::Blank => {},
                Read::Header { section, subsection } => {
                    here = Some(Here { section, subsection });
                },
                Read::Pair { key, value } => {
                    match &here {
                        Some(h) => {
                            let entry = Entry {
                                section: to_vec(h.section.as_slice()),
                                subsection: copy_opt(&h.subsection),
                                key,
                                value,
                            };
                            let ghost before = doc@;
                            doc.entries.push(entry);
                            assert(doc@ == before.push(entry@));
                        },
                        None => {
                            return Err(ParseError { line: lines + 1 });
                        },
                    }
                },
                Read::Bad => {
                    return Err(ParseError { line: lines + 1 });
                },
            }
            lines = lines + 1;
            if end == text.len() {
                pos = end;
            } else {
                pos = end + 1;
            }
        }
        Ok(doc)
    }
}

} // verus!
