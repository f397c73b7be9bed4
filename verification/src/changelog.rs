//! A changelog as a document of sections, and the text that it is written as.

use vstd::prelude::*;
use vstd::string::StringSliceAdditionalSpecFns;
use crate::reference::ObjectId;
use crate::render::{append, append_decimal, append_hex, append_padded, append_repeated};
use crate::render::{append_signed_padded, append_str, bytes_of, decimal, hex_of, padded};
use crate::render::{repeated, signed_padded, str_eq};

verus! {

/// The version that a release section is about.
#[derive(Clone, Debug, PartialEq, Eq, Hash)]
pub enum Version {
    /// What is not released yet.
    Unreleased,
    /// A released version, by its number as it is written, such as `1.2.3`.
    Semantic(String),
}

/// A day of the calendar.
#[derive(Clone, Copy, Debug, PartialEq, Eq, Hash)]
pub struct Date {
    pub year: i32,
    pub month: u8,
    pub day: u8,
}

/// What a commit is filed under in the details of a release.
#[derive(Clone, Debug, PartialEq, Eq, Hash)]
pub enum Category {
    /// An issue, by its number as it is written.
    Issue(String),
    /// No issue.
    Uncategorized,
}

/// A part of a release that is either kept as it was read or made anew.
#[derive(Clone, Debug, PartialEq, Eq, Hash)]
pub enum Data<T> {
    /// The part was read from an existing changelog, and nothing is written for it.
    Parsed,
    /// The part was made from the history.
    Generated(T),
}

/// One message under a conventional headline.
#[derive(Clone, Debug, PartialEq, Eq, Hash)]
pub enum Message {
    /// Text that a person wrote.
    User { markdown: String },
    /// The message of one commit.
    Generated { id: ObjectId, title: String, body: Option<String> },
}

/// The commits of one conventional kind, such as `feat` or `fix`.
#[derive(Clone, Debug, PartialEq, Eq, Hash)]
pub struct Conventional {
    /// The kind as commit messages write it.
    pub kind: String,
    /// Whether the commits break compatibility.
    pub is_breaking: bool,
    /// The commits whose messages a person removed.
    pub removed: Vec<ObjectId>,
    pub messages: Vec<Message>,
}

/// One commit in the details of a release.
#[derive(Clone, Debug, PartialEq, Eq, Hash)]
pub struct DetailsMessage {
    pub title: String,
    pub id: ObjectId,
}

/// The commits of one category.
#[derive(Clone, Debug, PartialEq, Eq, Hash)]
pub struct CategoryCommits {
    pub category: Category,
    pub messages: Vec<DetailsMessage>,
}

/// The commits of a release by category, in the order in which they are written.
#[derive(Clone, Debug, PartialEq, Eq, Hash)]
pub struct Details {
    pub commits_by_category: Vec<CategoryCommits>,
}

/// Numbers about the commits of a release.
#[derive(Clone, Debug, PartialEq, Eq, Hash)]
pub struct CommitStatistics {
    /// How many commits went into the release.
    pub count: usize,
    /// How many whole days lie between the first and the last of them, if known.
    pub duration: Option<i64>,
    /// How many of them have a conventional message.
    pub conventional_count: usize,
    /// The issues that the commits mention.
    pub unique_issues: Vec<Category>,
}

/// How often clippy helped.
#[derive(Clone, Copy, Debug, PartialEq, Eq, Hash)]
pub struct ThanksClippy {
    pub count: usize,
}

/// A part of a release section.
#[derive(Clone, Debug, PartialEq, Eq, Hash)]
pub enum Segment {
    /// Text that a person wrote.
    User { markdown: String },
    Conventional(Conventional),
    Details(Data<Details>),
    Statistics(Data<CommitStatistics>),
    Clippy(Data<ThanksClippy>),
}

/// A section of a changelog.
#[derive(Clone, Debug, PartialEq, Eq, Hash)]
pub enum Section {
    /// Text that is kept as it is.
    Verbatim { text: String, generated: bool },
    /// What one release brought.
    Release {
        name: Version,
        date: Option<Date>,
        /// How many `#` the heading of the section has.
        heading_level: usize,
        /// The commits whose messages a person removed.
        removed_messages: Vec<ObjectId>,
        segments: Vec<Segment>,
        /// What was read in the section and not understood.
        unknown: String,
    },
}

/// A changelog: its sections from top to bottom.
#[derive(Clone, Debug, PartialEq, Eq, Hash)]
pub struct ChangeLog {
    pub sections: Vec<Section>,
}

/// Opens what was not understood in a section.
pub const UNKNOWN_TAG_START: &'static str = "<csr-unknown>";

/// Closes what was not understood in a section.
pub const UNKNOWN_TAG_END: &'static str = "<csr-unknown/>";

/// Marks a part that is made anew with every release; it ends its line.
pub const READONLY_TAG: &'static str = "<csr-read-only-do-not-edit/>\n";

/// Begins the tag that names a commit.
pub const REMOVED_HTML_PREFIX: &'static str = "<csr-id-";

/// Follows the headline of commits that break compatibility.
pub const BREAKING_TITLE_ENCLOSED: &'static str = "(BREAKING)";

/// The title of the details.
pub const DETAILS_TITLE: &'static str = "Commit Details";

/// Opens the details.
pub const DETAILS_PREFIX: &'static str = "<details><summary>view details</summary>";

/// Closes the details.
pub const DETAILS_END: &'static str = "</details>";

/// The title of the statistics.
pub const STATISTICS_TITLE: &'static str = "Commit Statistics";

/// The title of the thanks to clippy.
pub const CLIPPY_TITLE: &'static str = "Thanks Clippy";

/// The line feed.
pub const NEWLINE: u8 = 10;

/// The bytes of a piece of fixed text.
pub open spec fn lit(s: &str) -> Seq<u8> {
    s.spec_bytes()
}

/// The `#` signs of a heading of the given level.
pub open spec fn hashes(level: nat) -> Seq<u8> {
    repeated(35, level)
}

/// The `#` signs of a heading of the given level.
pub fn heading(level: usize) -> (r: Vec<u8>)
    ensures
        r@ == hashes(level as nat),
{
    let mut out: Vec<u8> = Vec::new();
    append_repeated(&mut out, 35, level);
    assert(Seq::<u8>::empty() + hashes(level as nat) == hashes(level as nat));
    out
}

/// The headline under which commits of a conventional kind are listed, for the kinds that
/// have one.
pub open spec fn headline_of(kind: Seq<char>) -> Option<Seq<char>> {
    if kind == "fix"@ {
        Some("Bug Fixes"@)
    } else if kind == "add"@ || kind == "added"@ {
        Some("Added"@)
    } else if kind == "feat"@ {
        Some("New Features"@)
    } else if kind == "revert"@ {
        Some("Reverted"@)
    } else if kind == "remove"@ {
        Some("Removed"@)
    } else if kind == "change"@ {
        Some("Changed"@)
    } else if kind == "docs"@ {
        Some("Documentation"@)
    } else if kind == "perf"@ {
        Some("Performance"@)
    } else if kind == "chore"@ {
        Some("Chore"@)
    } else if kind == "test"@ {
        Some("Test"@)
    } else if kind == "refactor"@ {
        Some("Refactor"@)
    } else if kind == "other"@ {
        Some("Other"@)
    } else if kind == "style"@ {
        Some("Style"@)
    } else {
        None
    }
}

/// The headline under which commits of a conventional kind are listed, for the kinds that
/// have one.
pub fn as_headline(kind: &str) -> (r: Option<&'static str>)
    ensures
        match r {
            Some(h) => headline_of(kind@) == Some(h@),
            None => headline_of(kind@) is None,
        },
{
    if str_eq(kind, "fix") {
        Some("Bug Fixes")
    } else if str_eq(kind, "add") || str_eq(kind, "added") {
        Some("Added")
    } else if str_eq(kind, "feat") {
        Some("New Features")
    } else if str_eq(kind, "revert") {
        Some("Reverted")
    } else if str_eq(kind, "remove") {
        Some("Removed")
    } else if str_eq(kind, "change") {
        Some("Changed")
    } else if str_eq(kind, "docs") {
        Some("Documentation")
    } else if str_eq(kind, "perf") {
        Some("Performance")
    } else if str_eq(kind, "chore") {
        Some("Chore")
    } else if str_eq(kind, "test") {
        Some("Test")
    } else if str_eq(kind, "refactor") {
        Some("Refactor")
    } else if str_eq(kind, "other") {
        Some("Other")
    } else if str_eq(kind, "style") {
        Some("Style")
    } else {
        None
    }
}

/// Text with a line feed after it.
pub open spec fn line(text: Seq<u8>) -> Seq<u8> {
    text.push(NEWLINE)
}

/// Text, and a line feed after it unless it ends in one.
pub open spec fn closed_line(text: Seq<u8>) -> Seq<u8> {
    if text.len() > 0 && text.last() == NEWLINE {
        text
    } else {
        text.push(NEWLINE)
    }
}

/// Text with three spaces in front of each of its lines.
pub open spec fn indented(text: Seq<u8>) -> Seq<u8>
    decreases text.len(),
{
    if text.len() == 0 {
        Seq::empty()
    } else {
        let before = text.drop_last();
        if before.len() == 0 || before.last() == NEWLINE {
            (indented(before) + seq![32u8, 32u8, 32u8]).push(text.last())
        } else {
            indented(before).push(text.last())
        }
    }
}

/// The tag that names a commit: `<csr-id-` and the forty digits of its id.
pub open spec fn id_tag(id: ObjectId) -> Seq<u8> {
    lit(REMOVED_HTML_PREFIX) + hex_of(id.bytes@, 40)
}

/// One line for each removed commit: its tag, closed.
pub open spec fn removed_lines(ids: Seq<ObjectId>) -> Seq<u8>
    decreases ids.len(),
{
    if ids.len() == 0 {
        Seq::empty()
    } else {
        removed_lines(ids.drop_last()) + id_tag(ids.last()) + lit("/>\n")
    }
}

/// The lines for removed commits with an empty line after them; nothing if there are none.
pub open spec fn removed_block(ids: Seq<ObjectId>) -> Seq<u8> {
    if ids.len() == 0 {
        Seq::empty()
    } else {
        removed_lines(ids).push(NEWLINE)
    }
}

/// Writes the tag that names a commit.
fn write_id_tag(id: &ObjectId, out: &mut Vec<u8>)
    ensures
        final(out)@ == old(out)@ + id_tag(*id),
{
    append_str(out, REMOVED_HTML_PREFIX);
    append_hex(out, id.bytes.as_slice(), 40);
    assert(out@ == old(out)@ + id_tag(*id));
}

/// Writes the lines for removed commits, with an empty line after them.
fn write_removed(ids: &Vec<ObjectId>, out: &mut Vec<u8>)
    ensures
        final(out)@ == old(out)@ + removed_block(ids@),
{
    if ids.len() == 0 {
        assert(out@ == old(out)@ + Seq::<u8>::empty());
        return ;
    }
    let mut i: usize = 0;
    assert(ids@.take(0) == Seq::<ObjectId>::empty());
    assert(out@ == old(out)@ + Seq::<u8>::empty());
    while i < ids.len()
        invariant
            i <= ids@.len(),
            out@ == old(out)@ + removed_lines(ids@.take(i as int)),
        decreases ids@.len() - i,
    {
        let ghost before = out@;
        write_id_tag(&ids[i], out);
        append_str(out, "/>\n");
        proof {
            assert(ids@.take(i + 1).drop_last() == ids@.take(i as int));
            assert(ids@.take(i + 1).last() == ids@[i as int]);
            assert(out@ == old(out)@ + removed_lines(ids@.take(i + 1)));
        }
        i = i + 1;
    }
    assert(ids@.take(i as int) == ids@);
    out.push(NEWLINE);
    assert(out@ == old(out)@ + removed_lines(ids@).push(NEWLINE));
}

/// Writes text, and a line feed after it unless it ends in one.
fn write_closed_line(text: &str, out: &mut Vec<u8>)
    ensures
        final(out)@ == old(out)@ + closed_line(text.spec_bytes()),
{
    let bytes = text.as_bytes();
    append(out, bytes);
    if bytes.len() == 0 || bytes[bytes.len() - 1] != NEWLINE {
        out.push(NEWLINE);
        assert(out@ == old(out)@ + bytes@.push(NEWLINE));
    }
}

/// Writes text with three spaces in front of each of its lines.
fn write_indented(text: &[u8], out: &mut Vec<u8>)
    ensures
        final(out)@ == old(out)@ + indented(text@),
{
    let mut i: usize = 0;
    assert(text@.take(0) == Seq::<u8>::empty());
    assert(out@ == old(out)@ + Seq::<u8>::empty());
    while i < text.len()
        invariant
            i <= text@.len(),
            out@ == old(out)@ + indented(text@.take(i as int)),
        decreases text@.len() - i,
    {
        let ghost now = text@.take(i + 1);
        assert(now.drop_last() == text@.take(i as int));
        assert(now.last() == text@[i as int]);
        if i == 0 || text[i - 1] == NEWLINE {
            assert(i > 0 ==> text@.take(i as int).last() == text@[i - 1]);
            out.push(32);
            out.push(32);
            out.push(32);
            out.push(text[i]);
            assert(out@ == old(out)@ + (indented(text@.take(i as int)) + seq![
                32u8,
                32u8,
                32u8,
            ]).push(text@[i as int]));
        } else {
            assert(text@.take(i as int).last() == text@[i - 1]);
            out.push(text[i]);
            assert(out@ == old(out)@ + indented(text@.take(i as int)).push(text@[i as int]));
        }
        i = i + 1;
    }
    assert(text@.take(i as int) == text@);
}

impl Version {
    /// The version as a heading names it.
    pub open spec fn text(self) -> Seq<u8> {
        match self {
            Version::Unreleased => lit("Unreleased"),
            Version::Semantic(v) => lit("v") + bytes_of(v),
        }
    }

    /// Writes the version as a heading names it.
    pub fn write_to(&self, out: &mut Vec<u8>)
        ensures
            final(out)@ == old(out)@ + self.text(),
    {
        match self {
            Version::Unreleased => append_str(out, "Unreleased"),
            Version::Semantic(v) => {
                append_str(out, "v");
                append_str(out, v.as_str());
                assert(out@ == old(out)@ + (lit("v") + bytes_of(*v)));
            },
        }
    }
}

impl Date {
    /// The date as a heading shows it: year, month and day, with zeros up to four, two
    /// and two digits, and hyphens between them.
    pub open spec fn text(self) -> Seq<u8> {
        signed_padded(self.year as int, 4) + lit("-") + padded(self.month as nat, 2) + lit("-")
            + padded(self.day as nat, 2)
    }

    /// Writes the date as a heading shows it.
    pub fn write_to(&self, out: &mut Vec<u8>)
        ensures
            final(out)@ == old(out)@ + self.text(),
    {
        append_signed_padded(out, self.year, 4);
        append_str(out, "-");
        append_padded(out, self.month as u64, 2);
        append_str(out, "-");
        append_padded(out, self.day as u64, 2);
        assert(out@ == old(out)@ + self.text());
    }
}

impl Category {
    /// The category as it is written: an issue as `#` and its number.
    pub open spec fn text(self) -> Seq<u8> {
        match self {
            Category::Issue(id) => lit("#") + bytes_of(id),
            Category::Uncategorized => lit("Uncategorized"),
        }
    }

    /// Writes the category.
    pub fn write_to(&self, out: &mut Vec<u8>)
        ensures
            final(out)@ == old(out)@ + self.text(),
    {
        match self {
            Category::Issue(id) => {
                append_str(out, "#");
                append_str(out, id.as_str());
                assert(out@ == old(out)@ + (lit("#") + bytes_of(*id)));
            },
            Category::Uncategorized => append_str(out, "Uncategorized"),
        }
    }
}

/// The categories with a comma and a space between one and the next.
pub open spec fn joined(categories: Seq<Category>) -> Seq<u8>
    decreases categories.len(),
{
    if categories.len() == 0 {
        Seq::empty()
    } else if categories.len() == 1 {
        categories[0].text()
    } else {
        joined(categories.drop_last()) + lit(", ") + categories.last().text()
    }
}

/// Writes the categories with a comma and a space between one and the next.
fn write_joined(categories: &Vec<Category>, out: &mut Vec<u8>)
    ensures
        final(out)@ == old(out)@ + joined(categories@),
{
    let mut i: usize = 0;
    assert(categories@.take(0) == Seq::<Category>::empty());
    assert(out@ == old(out)@ + Seq::<u8>::empty());
    while i < categories.len()
        invariant
            i <= categories@.len(),
            out@ == old(out)@ + joined(categories@.take(i as int)),
        decreases categories@.len() - i,
    {
        let ghost now = categories@.take(i + 1);
        assert(now.drop_last() == categories@.take(i as int));
        assert(now.last() == categories@[i as int]);
        if i > 0 {
            append_str(out, ", ");
        }
        categories[i].write_to(out);
        proof {
            if i == 0 {
                assert(now[0] == categories@[0]);
                assert(out@ == old(out)@ + now[0].text());
            } else {
                assert(out@ == old(out)@ + (joined(categories@.take(i as int)) + lit(", ")
                    + categories@[i as int].text()));
            }
        }
        i = i + 1;
    }
    assert(categories@.take(i as int) == categories@);
}

impl Message {
    /// The message as it is written under a conventional headline.
    ///
    /// A person's text stands as it is, with its last line closed. A commit's message is
    /// a list item with the commit's tag and its title, and under it the body, indented,
    /// with its last line closed.
    pub open spec fn text(self) -> Seq<u8> {
        match self {
            Message::User { markdown } => closed_line(bytes_of(markdown)),
            Message::Generated { id, title, body } => lit(" - ") + id_tag(id) + lit("/> ")
                + bytes_of(title) + lit("\n") + match body {
                Some(body) => if bytes_of(body).len() > 0 && bytes_of(body).last() == NEWLINE {
                    indented(bytes_of(body))
                } else {
                    indented(bytes_of(body)).push(NEWLINE)
                },
                None => Seq::empty(),
            },
        }
    }

    /// Writes the message as it stands under a conventional headline.
    pub fn write_to(&self, out: &mut Vec<u8>)
        ensures
            final(out)@ == old(out)@ + self.text(),
    {
        match self {
            Message::User { markdown } => write_closed_line(markdown.as_str(), out),
            Message::Generated { id, title, body } => {
                append_str(out, " - ");
                write_id_tag(id, out);
                append_str(out, "/> ");
                append_str(out, title.as_str());
                append_str(out, "\n");
                let ghost head = lit(" - ") + id_tag(*id) + lit("/> ") + bytes_of(*title) + lit(
                    "\n",
                );
                assert(out@ == old(out)@ + head);
                match body {
                    Some(body) => {
                        let bytes = body.as_str().as_bytes();
                        write_indented(bytes, out);
                        if bytes.len() == 0 || bytes[bytes.len() - 1] != NEWLINE {
                            out.push(NEWLINE);
                            assert(out@ == old(out)@ + (head + indented(bytes@).push(NEWLINE)));
                        } else {
                            assert(out@ == old(out)@ + (head + indented(bytes@)));
                        }
                    },
                    None => {
                        assert(out@ == old(out)@ + (head + Seq::<u8>::empty()));
                    },
                }
            },
        }
    }
}

/// The messages one after the other.
pub open spec fn messages_text(messages: Seq<Message>) -> Seq<u8>
    decreases messages.len(),
{
    if messages.len() == 0 {
        Seq::empty()
    } else {
        messages_text(messages.drop_last()) + messages.last().text()
    }
}

/// Writes the messages one after the other.
fn write_messages(messages: &Vec<Message>, out: &mut Vec<u8>)
    ensures
        final(out)@ == old(out)@ + messages_text(messages@),
{
    let mut i: usize = 0;
    assert(messages@.take(0) == Seq::<Message>::empty());
    assert(out@ == old(out)@ + Seq::<u8>::empty());
    while i < messages.len()
        invariant
            i <= messages@.len(),
            out@ == old(out)@ + messages_text(messages@.take(i as int)),
        decreases messages@.len() - i,
    {
        messages[i].write_to(out);
        proof {
            let now = messages@.take(i + 1);
            assert(now.drop_last() == messages@.take(i as int));
            assert(now.last() == messages@[i as int]);
            assert(out@ == old(out)@ + (messages_text(messages@.take(i as int))
                + messages@[i as int].text()));
        }
        i = i + 1;
    }
    assert(messages@.take(i as int) == messages@);
}

impl Conventional {
    /// The headline of the segment: that of its kind, or the kind itself where it has no
    /// headline and the commits break compatibility. Without a headline nothing is written.
    pub open spec fn title(self) -> Option<Seq<u8>> {
        match headline_of(self.kind@) {
            Some(h) => Some(vstd::utf8::encode_utf8(h)),
            None => if self.is_breaking {
                Some(bytes_of(self.kind))
            } else {
                None
            },
        }
    }

    /// The segment as it is written under a heading of the given level: the heading with
    /// the headline, marked if the commits break compatibility, an empty line, the removed
    /// commits, the messages, and an empty line.
    pub open spec fn text(self, section_level: nat) -> Seq<u8> {
        match self.title() {
            Some(title) => hashes(section_level) + lit(" ") + title + (if self.is_breaking {
                lit(" ") + lit(BREAKING_TITLE_ENCLOSED)
            } else {
                Seq::empty()
            }) + lit("\n\n") + removed_block(self.removed@) + messages_text(self.messages@) + lit(
                "\n",
            ),
            None => Seq::empty(),
        }
    }

    /// Writes the segment under a heading of the given level.
    pub fn write_to(&self, section_level: usize, out: &mut Vec<u8>)
        ensures
            final(out)@ == old(out)@ + self.text(section_level as nat),
    {
        let headline: &str = match as_headline(self.kind.as_str()) {
            Some(h) => h,
            None => if self.is_breaking {
                self.kind.as_str()
            } else {
                assert(out@ == old(out)@ + Seq::<u8>::empty());
                return ;
            },
        };
        assert(self.title() == Some(headline.spec_bytes()));
        append_repeated(out, 35, section_level);
        append_str(out, " ");
        append_str(out, headline);
        if self.is_breaking {
            append_str(out, " ");
            append_str(out, BREAKING_TITLE_ENCLOSED);
        }
        append_str(out, "\n\n");
        let ghost head = hashes(section_level as nat) + lit(" ") + headline.spec_bytes() + (
        if self.is_breaking {
            lit(" ") + lit(BREAKING_TITLE_ENCLOSED)
        } else {
            Seq::empty()
        }) + lit("\n\n");
        assert(out@ == old(out)@ + head);
        write_removed(&self.removed, out);
        write_messages(&self.messages, out);
        append_str(out, "\n");
        assert(out@ == old(out)@ + (head + removed_block(self.removed@) + messages_text(
            self.messages@,
        ) + lit("\n")));
    }
}

/// The heading of a generated part: the `#` signs, the title, an empty line, and the
/// mark that the part is made anew with every release.
pub open spec fn generated_heading(section_level: nat, title: &str) -> Seq<u8> {
    hashes(section_level) + lit(" ") + lit(title) + lit("\n\n") + lit(READONLY_TAG) + lit("\n")
}

/// Writes the heading of a generated part.
fn write_generated_heading(section_level: usize, title: &str, out: &mut Vec<u8>)
    ensures
        final(out)@ == old(out)@ + generated_heading(section_level as nat, title),
{
    append_repeated(out, 35, section_level);
    append_str(out, " ");
    append_str(out, title);
    append_str(out, "\n\n");
    append_str(out, READONLY_TAG);
    append_str(out, "\n");
    assert(out@ == old(out)@ + generated_heading(section_level as nat, title));
}

impl DetailsMessage {
    /// The commit as a list item: its title and, in brackets, the first seven digits of
    /// its id.
    pub open spec fn text(self) -> Seq<u8> {
        lit("    - ") + bytes_of(self.title) + lit(" (") + hex_of(self.id.bytes@, 7) + lit(")\n")
    }

    /// Writes the commit as a list item.
    pub fn write_to(&self, out: &mut Vec<u8>)
        ensures
            final(out)@ == old(out)@ + self.text(),
    {
        append_str(out, "    - ");
        append_str(out, self.title.as_str());
        append_str(out, " (");
        append_hex(out, self.id.bytes.as_slice(), 7);
        append_str(out, ")\n");
        assert(out@ == old(out)@ + self.text());
    }
}

/// The commits of a category as list items, one after the other.
pub open spec fn details_messages_text(messages: Seq<DetailsMessage>) -> Seq<u8>
    decreases messages.len(),
{
    if messages.len() == 0 {
        Seq::empty()
    } else {
        details_messages_text(messages.drop_last()) + messages.last().text()
    }
}

impl CategoryCommits {
    /// The category in bold as a list item, and its commits under it.
    pub open spec fn text(self) -> Seq<u8> {
        lit(" * **") + self.category.text() + lit("**\n") + details_messages_text(self.messages@)
    }

    /// Writes the category and its commits.
    pub fn write_to(&self, out: &mut Vec<u8>)
        ensures
            final(out)@ == old(out)@ + self.text(),
    {
        append_str(out, " * **");
        self.category.write_to(out);
        append_str(out, "**\n");
        let ghost head = lit(" * **") + self.category.text() + lit("**\n");
        assert(out@ == old(out)@ + head);
        let mut i: usize = 0;
        assert(self.messages@.take(0) == Seq::<DetailsMessage>::empty());
        assert(out@ == old(out)@ + (head + Seq::<u8>::empty()));
        while i < self.messages.len()
            invariant
                i <= self.messages@.len(),
                out@ == old(out)@ + (head + details_messages_text(self.messages@.take(i as int))),
            decreases self.messages@.len() - i,
        {
            self.messages[i].write_to(out);
            proof {
                let now = self.messages@.take(i + 1);
                assert(now.drop_last() == self.messages@.take(i as int));
                assert(now.last() == self.messages@[i as int]);
                assert(out@ == old(out)@ + (head + (details_messages_text(
                    self.messages@.take(i as int),
                ) + self.messages@[i as int].text())));
            }
            i = i + 1;
        }
        assert(self.messages@.take(i as int) == self.messages@);
    }
}

/// The categories with their commits, one after the other.
pub open spec fn categories_text(categories: Seq<CategoryCommits>) -> Seq<u8>
    decreases categories.len(),
{
    if categories.len() == 0 {
        Seq::empty()
    } else {
        categories_text(categories.drop_last()) + categories.last().text()
    }
}

impl Details {
    /// The details as they are written under a heading of the given level; nothing if
    /// there is no category.
    pub open spec fn text(self, section_level: nat) -> Seq<u8> {
        if self.commits_by_category@.len() == 0 {
            Seq::empty()
        } else {
            generated_heading(section_level, DETAILS_TITLE) + lit(DETAILS_PREFIX) + lit("\n\n")
                + categories_text(self.commits_by_category@) + lit(DETAILS_END) + lit("\n\n")
        }
    }

    /// Writes the details under a heading of the given level.
    pub fn write_to(&self, section_level: usize, out: &mut Vec<u8>)
        ensures
            final(out)@ == old(out)@ + self.text(section_level as nat),
    {
        let all = &self.commits_by_category;
        if all.len() == 0 {
            assert(out@ == old(out)@ + Seq::<u8>::empty());
            return ;
        }
        write_generated_heading(section_level, DETAILS_TITLE, out);
        append_str(out, DETAILS_PREFIX);
        append_str(out, "\n\n");
        let ghost head = generated_heading(section_level as nat, DETAILS_TITLE) + lit(
            DETAILS_PREFIX,
        ) + lit("\n\n");
        assert(out@ == old(out)@ + head);
        let mut i: usize = 0;
        assert(all@.take(0) == Seq::<CategoryCommits>::empty());
        assert(out@ == old(out)@ + (head + Seq::<u8>::empty()));
        while i < all.len()
            invariant
                i <= all@.len(),
                out@ == old(out)@ + (head + categories_text(all@.take(i as int))),
            decreases all@.len() - i,
        {
            all[i].write_to(out);
            proof {
                let now = all@.take(i + 1);
                assert(now.drop_last() == all@.take(i as int));
                assert(now.last() == all@[i as int]);
                assert(out@ == old(out)@ + (head + (categories_text(all@.take(i as int))
                    + all@[i as int].text())));
            }
            i = i + 1;
        }
        assert(all@.take(i as int) == all@);
        append_str(out, DETAILS_END);
        append_str(out, "\n\n");
        assert(out@ == old(out)@ + (head + categories_text(all@) + lit(DETAILS_END) + lit("\n\n")));
    }
}

/// A number and the word for what it counts: `singular` for one, `plural` otherwise.
pub open spec fn counted(n: nat, singular: &str, plural: &str) -> Seq<u8> {
    decimal(n) + lit(" ") + if n == 1 {
        lit(singular)
    } else {
        lit(plural)
    }
}

/// Writes a number and the word for what it counts.
fn write_counted(n: u64, singular: &str, plural: &str, out: &mut Vec<u8>)
    ensures
        final(out)@ == old(out)@ + counted(n as nat, singular, plural),
{
    append_decimal(out, n);
    append_str(out, " ");
    if n == 1 {
        append_str(out, singular);
    } else {
        append_str(out, plural);
    }
    assert(out@ == old(out)@ + counted(n as nat, singular, plural));
}

impl CommitStatistics {
    /// How long the commits took, as the end of the first line says it: the days if there
    /// is at least one, and the full stop.
    pub open spec fn duration_text(self) -> Seq<u8> {
        match self.duration {
            Some(days) => if days > 0 {
                lit(" over the course of ") + counted(days as nat, "calendar day", "calendar days")
                    + lit(".")
            } else {
                lit(".")
            },
            None => lit("."),
        }
    }

    /// The line about the issues.
    pub open spec fn issues_text(self) -> Seq<u8> {
        let n = self.unique_issues@.len();
        if n == 0 {
            lit(" - 0 issues like '(#ID)' where seen in commit messages\n")
        } else {
            lit(" - ") + decimal(n) + lit(" unique ") + (if n == 1 {
                lit("issue was")
            } else {
                lit("issues were")
            }) + lit(" worked on: ") + joined(self.unique_issues@) + lit("\n")
        }
    }

    /// The statistics as they are written under a heading of the given level.
    pub open spec fn text(self, section_level: nat) -> Seq<u8> {
        generated_heading(section_level, STATISTICS_TITLE) + lit(" - ") + counted(
            self.count as nat,
            "commit",
            "commits",
        ) + lit(" contributed to the release") + self.duration_text() + lit("\n") + lit(" - ")
            + counted(self.conventional_count as nat, "commit", "commits") + lit(
            " where understood as [conventional](https://www.conventionalcommits.org).\n",
        ) + self.issues_text() + lit("\n")
    }

    /// Writes how long the commits took.
    fn write_duration(&self, out: &mut Vec<u8>)
        ensures
            final(out)@ == old(out)@ + self.duration_text(),
    {
        match self.duration {
            Some(days) => {
                if days > 0 {
                    append_str(out, " over the course of ");
                    write_counted(days as u64, "calendar day", "calendar days", out);
                    append_str(out, ".");
                    assert(out@ == old(out)@ + self.duration_text());
                } else {
                    append_str(out, ".");
                }
            },
            None => {
                append_str(out, ".");
            },
        }
    }

    /// Writes the line about the issues.
    fn write_issues(&self, out: &mut Vec<u8>)
        ensures
            final(out)@ == old(out)@ + self.issues_text(),
    {
        let n = self.unique_issues.len();
        if n == 0 {
            append_str(out, " - 0 issues like '(#ID)' where seen in commit messages\n");
        } else {
            append_str(out, " - ");
            append_decimal(out, n as u64);
            append_str(out, " unique ");
            if n == 1 {
                append_str(out, "issue was");
            } else {
                append_str(out, "issues were");
            }
            append_str(out, " worked on: ");
            let ghost head = lit(" - ") + decimal(n as nat) + lit(" unique ") + (if n == 1 {
                lit("issue was")
            } else {
                lit("issues were")
            }) + lit(" worked on: ");
            assert(out@ == old(out)@ + head);
            write_joined(&self.unique_issues, out);
            append_str(out, "\n");
            assert(out@ == old(out)@ + (head + joined(self.unique_issues@) + lit("\n")));
        }
    }

    /// Writes the statistics under a heading of the given level.
    pub fn write_to(&self, section_level: usize, out: &mut Vec<u8>)
        ensures
            final(out)@ == old(out)@ + self.text(section_level as nat),
    {
        write_generated_heading(section_level, STATISTICS_TITLE, out);
        append_str(out, " - ");
        write_counted(self.count as u64, "commit", "commits", out);
        append_str(out, " contributed to the release");
        let ghost a = generated_heading(section_level as nat, STATISTICS_TITLE) + lit(" - ")
            + counted(self.count as nat, "commit", "commits") + lit(" contributed to the release");
        assert(out@ == old(out)@ + a);
        self.write_duration(out);
        append_str(out, "\n");
        append_str(out, " - ");
        let ghost b = a + self.duration_text() + lit("\n") + lit(" - ");
        assert(out@ == old(out)@ + b);
        write_counted(self.conventional_count as u64, "commit", "commits", out);
        append_str(
            out,
            " where understood as [conventional](https://www.conventionalcommits.org).\n",
        );
        let ghost c = b + counted(self.conventional_count as nat, "commit", "commits") + lit(
            " where understood as [conventional](https://www.conventionalcommits.org).\n",
        );
        assert(out@ == old(out)@ + c);
        self.write_issues(out);
        append_str(out, "\n");
        assert(out@ == old(out)@ + (c + self.issues_text() + lit("\n")));
    }
}

impl ThanksClippy {
    /// The thanks as they are written under a heading of the given level; nothing if
    /// clippy did not help.
    pub open spec fn text(self, section_level: nat) -> Seq<u8> {
        if self.count == 0 {
            Seq::empty()
        } else {
            generated_heading(section_level, CLIPPY_TITLE) + lit(
                "[Clippy](https://github.com/rust-lang/rust-clippy) helped ",
            ) + counted(self.count as nat, "time", "times") + lit(" to make code idiomatic. \n\n")
        }
    }

    /// Writes the thanks under a heading of the given level.
    pub fn write_to(&self, section_level: usize, out: &mut Vec<u8>)
        ensures
            final(out)@ == old(out)@ + self.text(section_level as nat),
    {
        if self.count == 0 {
            assert(out@ == old(out)@ + Seq::<u8>::empty());
            return ;
        }
        write_generated_heading(section_level, CLIPPY_TITLE, out);
        append_str(out, "[Clippy](https://github.com/rust-lang/rust-clippy) helped ");
        write_counted(self.count as u64, "time", "times", out);
        append_str(out, " to make code idiomatic. \n\n");
        assert(out@ == old(out)@ + self.text(section_level as nat));
    }
}

impl Segment {
    /// The segment as it is written under a heading of the given level. A part that was
    /// read from an existing changelog writes nothing.
    pub open spec fn text(self, section_level: nat) -> Seq<u8> {
        match self {
            Segment::User { markdown } => bytes_of(markdown),
            Segment::Conventional(conventional) => conventional.text(section_level),
            Segment::Details(Data::Generated(details)) => details.text(section_level),
            Segment::Statistics(Data::Generated(statistics)) => statistics.text(section_level),
            Segment::Clippy(Data::Generated(clippy)) => clippy.text(section_level),
            _ => Seq::empty(),
        }
    }

    /// Writes the segment under a heading of the given level.
    pub fn write_to(&self, section_level: usize, out: &mut Vec<u8>)
        ensures
            final(out)@ == old(out)@ + self.text(section_level as nat),
    {
        match self {
            Segment::User { markdown } => append_str(out, markdown.as_str()),
            Segment::Conventional(conventional) => conventional.write_to(section_level, out),
            Segment::Details(Data::Generated(details)) => details.write_to(section_level, out),
            Segment::Statistics(Data::Generated(statistics)) => statistics.write_to(
                section_level,
                out,
            ),
            Segment::Clippy(Data::Generated(clippy)) => clippy.write_to(section_level, out),
            _ => {
                assert(out@ == old(out)@ + Seq::<u8>::empty());
            },
        }
    }
}

/// The segments under headings of the given level, one after the other.
pub open spec fn segments_text(segments: Seq<Segment>, section_level: nat) -> Seq<u8>
    decreases segments.len(),
{
    if segments.len() == 0 {
        Seq::empty()
    } else {
        segments_text(segments.drop_last(), section_level) + segments.last().text(section_level)
    }
}

/// What was not understood in a section, between its two tags; nothing if all was
/// understood.
pub open spec fn unknown_block(unknown: Seq<u8>) -> Seq<u8> {
    if unknown.len() == 0 {
        Seq::empty()
    } else {
        lit(UNKNOWN_TAG_START) + lit("\n") + unknown + lit(UNKNOWN_TAG_END) + lit("\n")
    }
}

/// The heading of a release: the `#` signs, the version, the date in brackets if there
/// is one, and an empty line.
pub open spec fn release_heading(name: Version, date: Option<Date>, heading_level: nat) -> Seq<u8> {
    hashes(heading_level) + lit(" ") + name.text() + match date {
        Some(date) => lit(" (") + date.text() + lit(")\n\n"),
        None => lit("\n\n"),
    }
}

/// Writes the heading of a release.
fn write_release_heading(
    name: &Version,
    date: &Option<Date>,
    heading_level: usize,
    out: &mut Vec<u8>,
)
    ensures
        final(out)@ == old(out)@ + release_heading(*name, *date, heading_level as nat),
{
    append_repeated(out, 35, heading_level);
    append_str(out, " ");
    name.write_to(out);
    let ghost head = hashes(heading_level as nat) + lit(" ") + name.text();
    assert(out@ == old(out)@ + head);
    match date {
        Some(date) => {
            append_str(out, " (");
            date.write_to(out);
            append_str(out, ")\n\n");
            assert(out@ == old(out)@ + (head + (lit(" (") + date.text() + lit(")\n\n"))));
        },
        None => {
            append_str(out, "\n\n");
            assert(out@ == old(out)@ + (head + lit("\n\n")));
        },
    }
}

/// Writes the segments under headings of the given level.
fn write_segments(segments: &Vec<Segment>, section_level: usize, out: &mut Vec<u8>)
    ensures
        final(out)@ == old(out)@ + segments_text(segments@, section_level as nat),
{
    let mut i: usize = 0;
    assert(segments@.take(0) == Seq::<Segment>::empty());
    assert(out@ == old(out)@ + Seq::<u8>::empty());
    while i < segments.len()
        invariant
            i <= segments@.len(),
            out@ == old(out)@ + segments_text(segments@.take(i as int), section_level as nat),
        decreases segments@.len() - i,
    {
        segments[i].write_to(section_level, out);
        proof {
            let now = segments@.take(i + 1);
            assert(now.drop_last() == segments@.take(i as int));
            assert(now.last() == segments@[i as int]);
            assert(out@ == old(out)@ + (segments_text(
                segments@.take(i as int),
                section_level as nat,
            ) + segments@[i as int].text(section_level as nat)));
        }
        i = i + 1;
    }
    assert(segments@.take(i as int) == segments@);
}

/// Writes what was not understood in a section, between its two tags.
fn write_unknown(unknown: &str, out: &mut Vec<u8>)
    ensures
        final(out)@ == old(out)@ + unknown_block(unknown.spec_bytes()),
{
    if unknown.as_bytes().len() > 0 {
        append_str(out, UNKNOWN_TAG_START);
        append_str(out, "\n");
        append_str(out, unknown);
        append_str(out, UNKNOWN_TAG_END);
        append_str(out, "\n");
        assert(out@ == old(out)@ + unknown_block(unknown.spec_bytes()));
    } else {
        assert(out@ == old(out)@ + Seq::<u8>::empty());
    }
}

impl Section {
    /// Whether the section can be written: the headings of the segments of a release are
    /// one level below that of the release, so that level must not be the greatest number.
    pub open spec fn writable(self) -> bool {
        match self {
            Section::Verbatim { .. } => true,
            Section::Release { heading_level, .. } => heading_level < usize::MAX,
        }
    }

    /// The section as it is written: verbatim text as it is; a release as its heading,
    /// the removed commits, the segments one level below, and what was not understood.
    pub open spec fn text(self) -> Seq<u8> {
        match self {
            Section::Verbatim { text, .. } => bytes_of(text),
            Section::Release { name, date, heading_level, removed_messages, segments, unknown } => {
                release_heading(name, date, heading_level as nat) + removed_block(removed_messages@)
                    + segments_text(segments@, (heading_level + 1) as nat) + unknown_block(
                    bytes_of(unknown),
                )
            },
        }
    }

    /// Whether the section can be written.
    pub fn is_writable(&self) -> (r: bool)
        ensures
            r == self.writable(),
    {
        match self {
            Section::Verbatim { .. } => true,
            Section::Release { heading_level, .. } => *heading_level < usize::MAX,
        }
    }

    /// Writes the section at the end of `out`.
    pub fn write_to(&self, out: &mut Vec<u8>)
        requires
            self.writable(),
        ensures
            final(out)@ == old(out)@ + self.text(),
    {
        match self {
            Section::Verbatim { text, .. } => append_str(out, text.as_str()),
            Section::Release { name, date, heading_level, removed_messages, segments, unknown } => {
                write_release_heading(name, date, *heading_level, out);
                write_removed(removed_messages, out);
                write_segments(segments, *heading_level + 1, out);
                write_unknown(unknown.as_str(), out);
                assert(out@ == old(out)@ + (release_heading(*name, *date, *heading_level as nat)
                    + removed_block(removed_messages@) + segments_text(
                    segments@,
                    (heading_level + 1) as nat,
                ) + unknown_block(bytes_of(*unknown))));
            },
        }
    }
}

/// The sections one after the other.
pub open spec fn sections_text(sections: Seq<Section>) -> Seq<u8>
    decreases sections.len(),
{
    if sections.len() == 0 {
        Seq::empty()
    } else {
        sections_text(sections.drop_last()) + sections.last().text()
    }
}

impl ChangeLog {
    /// Whether every section can be written.
    pub open spec fn writable(self) -> bool {
        forall|i: int| 0 <= i < self.sections@.len() ==> (#[trigger] self.sections@[i]).writable()
    }

    /// The changelog as it is written: its sections one after the other.
    pub open spec fn text(self) -> Seq<u8> {
        sections_text(self.sections@)
    }

    /// Whether every section can be written.
    pub fn is_writable(&self) -> (r: bool)
        ensures
            r == self.writable(),
    {
        let mut i: usize = 0;
        while i < self.sections.len()
            invariant
                i <= self.sections@.len(),
                forall|k: int| 0 <= k < i ==> (#[trigger] self.sections@[k]).writable(),
            decreases self.sections@.len() - i,
        {
            if !self.sections[i].is_writable() {
                return false;
            }
            i = i + 1;
        }
        true
    }

    /// Writes the changelog at the end of `out`.
    pub fn write_to(&self, out: &mut Vec<u8>)
        requires
            self.writable(),
        ensures
            final(out)@ == old(out)@ + self.text(),
    {
        let mut i: usize = 0;
        assert(self.sections@.take(0) == Seq::<Section>::empty());
        assert(out@ == old(out)@ + Seq::<u8>::empty());
        while i < self.sections.len()
            invariant
                i <= self.sections@.len(),
                self.writable(),
                out@ == old(out)@ + sections_text(self.sections@.take(i as int)),
            decreases self.sections@.len() - i,
        {
            self.sections[i].write_to(out);
            proof {
                let now = self.sections@.take(i + 1);
                assert(now.drop_last() == self.sections@.take(i as int));
                assert(now.last() == self.sections@[i as int]);
                assert(out@ == old(out)@ + (sections_text(self.sections@.take(i as int))
                    + self.sections@[i as int].text()));
            }
            i = i + 1;
        }
        assert(self.sections@.take(i as int) == self.sections@);
    }
}

} // verus!
