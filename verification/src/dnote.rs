//! The note tool seen from the dashboard: the records it lists, the command
//! lines that query it, and the reading of what it prints.

use crate::text::{
    chars_of, decimal_digits, find_char, first_index_of, lines, parse_u32, pieces, skip_leading,
    skip_trailing, split_lines, string_of, strip_leading, strip_trailing, trim, trim_bounds,
    u32_of, u32_to_string,
};
use std::str::FromStr;
use vstd::prelude::*;
use vstd::utf8::{decode_utf8, valid_utf8};

verus! {

/// Identifier of a page.
pub type NoteId = u32;

/// What can go wrong when the note tool is asked for data.
#[derive(Clone, Copy, Debug, PartialEq, Eq, Hash, Structural)]
pub enum DnoteClientError {
    /// The tool could not be run, reported failure, or printed something
    /// that is not text.
    CommandFailure,
    /// The tool printed text that does not have the expected form.
    ParseFailure,
}

impl DnoteClientError {
    /// The text of the message for an error.
    pub open spec fn spec_message(self) -> Seq<char> {
        match self {
            DnoteClientError::CommandFailure => "dnote command failed"@,
            DnoteClientError::ParseFailure => "could not read the output of dnote"@,
        }
    }

    /// A one-line message for the status line.
    pub fn message(&self) -> (m: &'static str)
        ensures
            m@ == self.spec_message(),
    {
        match self {
            DnoteClientError::CommandFailure => "dnote command failed",
            DnoteClientError::ParseFailure => "could not read the output of dnote",
        }
    }
}

/// A book: a named collection of pages. A book is identified by its name.
#[derive(Debug, PartialEq, Eq, Hash)]
pub struct DnoteBook {
    pub name: String,
}

impl View for DnoteBook {
    type V = Seq<char>;

    open spec fn view(&self) -> Seq<char> {
        self.name@
    }
}

impl Clone for DnoteBook {
    fn clone(&self) -> (r: Self)
        ensures
            r@ == self@,
    {
        DnoteBook { name: self.name.clone() }
    }
}

impl Default for DnoteBook {
    fn default() -> (r: Self)
        ensures
            r@ == Seq::<char>::empty(),
    {
        DnoteBook { name: String::new() }
    }
}

/// A page as the tool lists it: its identifier and the start of its text.
/// A page is identified by its identifier.
#[derive(Debug, PartialEq, Eq, Hash)]
pub struct DnotePage {
    pub id: NoteId,
    /// Truncated content of the page.
    pub summary: String,
}

/// What a page holds, as plain values.
#[verifier::ext_equal]
pub ghost struct PageView {
    pub id: NoteId,
    pub summary: Seq<char>,
}

impl View for DnotePage {
    type V = PageView;

    open spec fn view(&self) -> PageView {
        PageView { id: self.id, summary: self.summary@ }
    }
}

impl Clone for DnotePage {
    fn clone(&self) -> (r: Self)
        ensures
            r@ == self@,
    {
        DnotePage { id: self.id, summary: self.summary.clone() }
    }
}

impl Default for DnotePage {
    fn default() -> (r: Self)
        ensures
            r@ == (PageView { id: 0, summary: Seq::<char>::empty() }),
    {
        DnotePage { id: 0, summary: String::new() }
    }
}

/// The full text of one page.
#[derive(Debug)]
pub struct DnotePageInfo {
    pub content: String,
}

impl View for DnotePageInfo {
    type V = Seq<char>;

    open spec fn view(&self) -> Seq<char> {
        self.content@
    }
}

impl Clone for DnotePageInfo {
    fn clone(&self) -> (r: Self)
        ensures
            r@ == self@,
    {
        DnotePageInfo { content: self.content.clone() }
    }
}

/// The names of a list of books.
pub open spec fn book_names(books: Seq<DnoteBook>) -> Seq<Seq<char>> {
    Seq::new(books.len(), |i: int| books[i]@)
}

/// What a list of pages holds.
pub open spec fn page_views(pages: Seq<DnotePage>) -> Seq<PageView> {
    Seq::new(pages.len(), |i: int| pages[i]@)
}

/// The marker that the tool puts after a summary that was cut short.
pub open spec fn more_marker() -> Seq<char> {
    seq!['[', '-', '-', '-', 'M', 'o', 'r', 'e', '-', '-', '-', ']']
}

/// The book that a line of the book listing names: the line without the
/// whitespace around it. A blank line names no book.
pub open spec fn book_of(line: Seq<char>) -> Option<Seq<char>> {
    let name = trim(line);
    if name.len() > 0 {
        Some(name)
    } else {
        None
    }
}

/// The text of a page line that holds the identifier: what stands before
/// the first `)`, without the whitespace around it and without the `(` it
/// starts with.
pub open spec fn page_id_text(line: Seq<char>) -> Seq<char> {
    strip_leading(trim(line.take(first_index_of(line, ')') as int)), '(')
}

/// The summary on a page line: what stands after the first `)`, without the
/// marker at its end and without the whitespace around it.
pub open spec fn page_summary_text(line: Seq<char>) -> Seq<char> {
    trim(strip_trailing(trim(line.skip(first_index_of(line, ')') as int + 1)), more_marker()))
}

/// The page that a line of the page listing describes. The line has the
/// form `(<id>) <summary> [---More---]`; a line without `)` or without an
/// identifier that is a 32-bit unsigned number describes no page.
pub open spec fn page_of(line: Seq<char>) -> Option<PageView> {
    if first_index_of(line, ')') >= line.len() {
        None
    } else {
        match u32_of(page_id_text(line)) {
            Some(id) => Some(PageView { id, summary: page_summary_text(line) }),
            None => None,
        }
    }
}

/// The data lines of a page listing: all lines but the first, which is a
/// header.
pub open spec fn page_lines(output: Seq<char>) -> Seq<Seq<char>> {
    let all = lines(output);
    if all.len() == 0 {
        all
    } else {
        all.drop_first()
    }
}

/// The books that a book listing names, one per line; none if some line is
/// blank.
pub open spec fn books_of(output: Seq<char>) -> Option<Seq<Seq<char>>> {
    let ls = lines(output);
    if forall|i: int| 0 <= i < ls.len() ==> book_of(#[trigger] ls[i]) is Some {
        Some(Seq::new(ls.len(), |i: int| book_of(ls[i])->0))
    } else {
        None
    }
}

/// The pages that a page listing describes, one per data line; none if some
/// data line describes no page.
pub open spec fn pages_of(output: Seq<char>) -> Option<Seq<PageView>> {
    let ls = page_lines(output);
    if forall|i: int| 0 <= i < ls.len() ==> page_of(#[trigger] ls[i]) is Some {
        Some(Seq::new(ls.len(), |i: int| page_of(ls[i])->0))
    } else {
        None
    }
}

/// The marker as characters.
fn more_marker_chars() -> (m: Vec<char>)
    ensures
        m@ == more_marker(),
{
    let mut m: Vec<char> = Vec::new();
    m.push('[');
    m.push('-');
    m.push('-');
    m.push('-');
    m.push('M');
    m.push('o');
    m.push('r');
    m.push('e');
    m.push('-');
    m.push('-');
    m.push('-');
    m.push(']');
    assert(m@ =~= more_marker());
    m
}

/// Reads the characters of `text` from `lo` up to `hi` as a line of the book
/// listing.
fn book_in(text: &[char], lo: usize, hi: usize) -> (r: Option<DnoteBook>)
    requires
        lo <= hi <= text@.len(),
    ensures
        match r {
            Some(book) => book_of(text@.subrange(lo as int, hi as int)) == Some(book@),
            None => book_of(text@.subrange(lo as int, hi as int)) is None,
        },
{
    let (a, b) = trim_bounds(text, lo, hi);
    if a == b {
        None
    } else {
        Some(DnoteBook { name: string_of(text, a, b) })
    }
}

/// Reads the characters of `text` from `lo` up to `hi` as a line of the page
/// listing.
fn page_in(text: &[char], lo: usize, hi: usize, marker: &[char]) -> (r: Option<DnotePage>)
    requires
        lo <= hi <= text@.len(),
        marker@ == more_marker(),
    ensures
        match r {
            Some(page) => page_of(text@.subrange(lo as int, hi as int)) == Some(page@),
            None => page_of(text@.subrange(lo as int, hi as int)) is None,
        },
{
    let ghost line = text@.subrange(lo as int, hi as int);
    let close = find_char(text, lo, hi, ')');
    if close == hi {
        return None;
    }
    proof {
        assert(line.take(close - lo) == text@.subrange(lo as int, close as int));
        assert(line.skip(close - lo + 1) == text@.subrange(close + 1, hi as int));
    }
    let (a, b) = trim_bounds(text, lo, close);
    let id_start = skip_leading(text, a, b, '(');
    let id = match parse_u32(text, id_start, b) {
        Some(id) => id,
        None => {
            return None;
        },
    };
    let (c, d) = trim_bounds(text, close + 1, hi);
    let e = skip_trailing(text, c, d, marker);
    let (f, g) = trim_bounds(text, c, e);
    Some(DnotePage { id, summary: string_of(text, f, g) })
}

impl DnoteBook {
    /// Reads one line of the book listing.
    pub fn parse(line: &str) -> (r: Result<DnoteBook, DnoteClientError>)
        ensures
            match r {
                Ok(book) => book_of(line@) == Some(book@),
                Err(e) => e == DnoteClientError::ParseFailure && book_of(line@) is None,
            },
    {
        let chars = chars_of(line);
        assert(chars@.subrange(0, chars@.len() as int) == chars@);
        match book_in(chars.as_slice(), 0, chars.len()) {
            Some(book) => Ok(book),
            None => Err(DnoteClientError::ParseFailure),
        }
    }
}

impl DnotePage {
    /// Reads one line of the page listing.
    pub fn parse(line: &str) -> (r: Result<DnotePage, DnoteClientError>)
        ensures
            match r {
                Ok(page) => page_of(line@) == Some(page@),
                Err(e) => e == DnoteClientError::ParseFailure && page_of(line@) is None,
            },
    {
        let chars = chars_of(line);
        let marker = more_marker_chars();
        assert(chars@.subrange(0, chars@.len() as int) == chars@);
        match page_in(chars.as_slice(), 0, chars.len(), marker.as_slice()) {
            Some(page) => Ok(page),
            None => Err(DnoteClientError::ParseFailure),
        }
    }
}

impl DnotePageInfo {
    /// Reads the text of a page: all that the tool printed, without the
    /// whitespace around it. Empty text is a page without content.
    pub fn parse(output: &str) -> (r: Result<DnotePageInfo, DnoteClientError>)
        ensures
            r matches Ok(info) && info@ == trim(output@),
    {
        let chars = chars_of(output);
        assert(chars@.subrange(0, chars@.len() as int) == chars@);
        let (a, b) = trim_bounds(chars.as_slice(), 0, chars.len());
        Ok(DnotePageInfo { content: string_of(chars.as_slice(), a, b) })
    }
}

impl FromStr for DnoteBook {
    type Err = DnoteClientError;

    /// Reads one line of the book listing, as `DnoteBook::parse` does.
    fn from_str(s: &str) -> (r: Result<Self, Self::Err>)
        ensures
            match r {
                Ok(book) => book_of(s@) == Some(book@),
                Err(e) => e == DnoteClientError::ParseFailure && book_of(s@) is None,
            },
    {
        DnoteBook::parse(s)
    }
}

impl FromStr for DnotePage {
    type Err = DnoteClientError;

    /// Reads one line of the page listing, as `DnotePage::parse` does.
    fn from_str(s: &str) -> (r: Result<Self, Self::Err>)
        ensures
            match r {
                Ok(page) => page_of(s@) == Some(page@),
                Err(e) => e == DnoteClientError::ParseFailure && page_of(s@) is None,
            },
    {
        DnotePage::parse(s)
    }
}

impl FromStr for DnotePageInfo {
    type Err = DnoteClientError;

    /// Reads the text of a page, as `DnotePageInfo::parse` does.
    fn from_str(s: &str) -> (r: Result<Self, Self::Err>)
        ensures
            r matches Ok(info) && info@ == trim(s@),
    {
        DnotePageInfo::parse(s)
    }
}

/// Reads a book listing: one book per line.
pub fn parse_books(output: &str) -> (r: Result<Vec<DnoteBook>, DnoteClientError>)
    ensures
        match r {
            Ok(books) => books_of(output@) == Some(book_names(books@)),
            Err(e) => e == DnoteClientError::ParseFailure && books_of(output@) is None,
        },
{
    let chars = chars_of(output);
    let text = chars.as_slice();
    let ranges = split_lines(text);
    let ghost ls = lines(output@);
    let mut books: Vec<DnoteBook> = Vec::new();
    let mut i: usize = 0;
    while i < ranges.len()
        invariant
            text@ == output@,
            ls == lines(output@),
            pieces(text@, ranges@) == ls,
            forall|k: int|
                0 <= k < ranges@.len() ==> (#[trigger] ranges@[k]).0 <= ranges@[k].1 <= text@.len(),
            i <= ranges@.len(),
            books@.len() == i,
            forall|k: int| 0 <= k < i ==> book_of(#[trigger] ls[k]) == Some(books@[k]@),
        decreases ranges@.len() - i,
    {
        let (lo, hi) = ranges[i];
        assert(pieces(text@, ranges@)[i as int] == text@.subrange(lo as int, hi as int));
        match book_in(text, lo, hi) {
            Some(book) => {
                books.push(book);
            },
            None => {
                assert(book_of(ls[i as int]) is None);
                return Err(DnoteClientError::ParseFailure);
            },
        }
        i += 1;
    }
    proof {
        assert(pieces(text@, ranges@).len() == ranges@.len());
        assert(book_names(books@) =~= Seq::new(ls.len(), |k: int| book_of(ls[k])->0));
    }
    Ok(books)
}

/// Reads a page listing: a header line, then one page per line.
pub fn parse_pages(output: &str) -> (r: Result<Vec<DnotePage>, DnoteClientError>)
    ensures
        match r {
            Ok(pages) => pages_of(output@) == Some(page_views(pages@)),
            Err(e) => e == DnoteClientError::ParseFailure && pages_of(output@) is None,
        },
{
    let chars = chars_of(output);
    let text = chars.as_slice();
    let marker = more_marker_chars();
    let ranges = split_lines(text);
    let ghost ls = page_lines(output@);
    let mut pages: Vec<DnotePage> = Vec::new();
    if ranges.len() == 0 {
        proof {
            assert(pieces(text@, ranges@).len() == 0);
            assert(page_views(pages@) =~= Seq::new(ls.len(), |k: int| page_of(ls[k])->0));
        }
        return Ok(pages);
    }
    let mut i: usize = 1;
    proof {
        assert(pieces(text@, ranges@).len() == ranges@.len());
    }
    while i < ranges.len()
        invariant
            text@ == output@,
            marker@ == more_marker(),
            ls == lines(output@).drop_first(),
            pieces(text@, ranges@) == lines(output@),
            forall|k: int|
                0 <= k < ranges@.len() ==> (#[trigger] ranges@[k]).0 <= ranges@[k].1 <= text@.len(),
            1 <= i <= ranges@.len(),
            ranges@.len() == lines(output@).len(),
            pages@.len() == i - 1,
            forall|k: int| 0 <= k < i - 1 ==> page_of(#[trigger] ls[k]) == Some(pages@[k]@),
        decreases ranges@.len() - i,
    {
        let (lo, hi) = ranges[i];
        assert(pieces(text@, ranges@)[i as int] == text@.subrange(lo as int, hi as int));
        assert(ls[i - 1] == lines(output@)[i as int]);
        match page_in(text, lo, hi, marker.as_slice()) {
            Some(page) => {
                pages.push(page);
            },
            None => {
                assert(page_of(ls[i - 1]) is None);
                return Err(DnoteClientError::ParseFailure);
            },
        }
        i += 1;
    }
    proof {
        assert(page_views(pages@) =~= Seq::new(ls.len(), |k: int| page_of(ls[k])->0));
    }
    Ok(pages)
}


/// A request to the note tool.
#[derive(Debug)]
#[allow(inconsistent_fields)]
pub enum DnoteCommand {
    Add { book_name: String, note: String },
    ViewBooks,
    ViewByBook { book_name: String },
    ViewByNoteId { note_id: NoteId },
    EditNoteById { note_id: String, new_content: Option<String>, new_book: Option<String> },
    EditBook { book_name: String, new_name: Option<String> },
    RemoveBook { book_name: String },
    RemoveNoteById { note_id: NoteId },
}

/// The texts of a list of strings.
pub open spec fn texts(strings: Seq<String>) -> Seq<Seq<char>> {
    Seq::new(strings.len(), |i: int| strings[i]@)
}

/// A flag followed by its value, if there is a value.
pub open spec fn flag_with(flag: Seq<char>, value: Option<String>) -> Seq<Seq<char>> {
    match value {
        Some(v) => seq![flag, v@],
        None => Seq::empty(),
    }
}

impl DnoteCommand {
    /// The arguments that the tool is run with for this request: the
    /// subcommand first, then what it applies to.
    pub open spec fn spec_args(self) -> Seq<Seq<char>> {
        match self {
            DnoteCommand::Add { book_name, note } => seq!["add"@, book_name@, "-c"@, note@],
            DnoteCommand::ViewBooks => seq!["view"@, "--name-only"@],
            DnoteCommand::ViewByBook { book_name } => seq!["view"@, book_name@],
            DnoteCommand::ViewByNoteId { note_id } => seq![
                "view"@,
                decimal_digits(note_id as nat),
                "--content-only"@,
            ],
            DnoteCommand::EditNoteById { note_id, new_content, new_book } => seq![
                "edit"@,
                note_id@,
            ] + flag_with("-c"@, new_content) + flag_with("-b"@, new_book),
            DnoteCommand::EditBook { book_name, new_name } => seq!["edit"@, book_name@]
                + flag_with("-n"@, new_name),
            DnoteCommand::RemoveBook { book_name } => seq!["rm"@, book_name@],
            DnoteCommand::RemoveNoteById { note_id } => seq![
                "rm"@,
                decimal_digits(note_id as nat),
            ],
        }
    }

    /// Builds the arguments that the tool is run with for this request.
    pub fn args(&self) -> (a: Vec<String>)
        ensures
            texts(a@) == self.spec_args(),
    {
        let mut a: Vec<String> = Vec::new();
        match self {
            DnoteCommand::Add { book_name, note } => {
                a.push("add".to_owned());
                a.push(book_name.clone());
                a.push("-c".to_owned());
                a.push(note.clone());
            },
            DnoteCommand::ViewBooks => {
                a.push("view".to_owned());
                a.push("--name-only".to_owned());
            },
            DnoteCommand::ViewByBook { book_name } => {
                a.push("view".to_owned());
                a.push(book_name.clone());
            },
            DnoteCommand::ViewByNoteId { note_id } => {
                a.push("view".to_owned());
                a.push(u32_to_string(*note_id));
                a.push("--content-only".to_owned());
            },
            DnoteCommand::EditNoteById { note_id, new_content, new_book } => {
                a.push("edit".to_owned());
                a.push(note_id.clone());
                push_flag(&mut a, "-c", new_content);
                push_flag(&mut a, "-b", new_book);
            },
            DnoteCommand::EditBook { book_name, new_name } => {
                a.push("edit".to_owned());
                a.push(book_name.clone());
                push_flag(&mut a, "-n", new_name);
            },
            DnoteCommand::RemoveBook { book_name } => {
                a.push("rm".to_owned());
                a.push(book_name.clone());
            },
            DnoteCommand::RemoveNoteById { note_id } => {
                a.push("rm".to_owned());
                a.push(u32_to_string(*note_id));
            },
        }
        assert(texts(a@) =~= self.spec_args());
        a
    }
}

/// Appends a flag and its value to a list of arguments, if there is a value.
fn push_flag(args: &mut Vec<String>, flag: &str, value: &Option<String>)
    ensures
        texts(final(args)@) == texts(old(args)@) + flag_with(flag@, *value),
{
    match value {
        Some(v) => {
            args.push(flag.to_owned());
            args.push(v.clone());
        },
        None => {},
    }
    assert(texts(args@) =~= texts(old(args)@) + flag_with(flag@, *value));
}

/// How a run of the note tool ended.
#[derive(Debug)]
pub enum CommandOutcome {
    /// The tool could not be started, or its output could not be collected.
    NotRun,
    /// The tool ran to its end.
    Exited {
        /// Whether it reported success.
        success: bool,
        /// What it printed to its standard output.
        stdout: Vec<u8>,
    },
}

impl CommandOutcome {
    /// The text that a run produced: what it printed, if it reported success
    /// and printed valid UTF-8.
    pub open spec fn text(self) -> Option<Seq<char>> {
        match self {
            CommandOutcome::Exited { success, stdout } => if success && valid_utf8(stdout@) {
                Some(decode_utf8(stdout@))
            } else {
                None
            },
            CommandOutcome::NotRun => None,
        }
    }

    /// What a listing of books yields for this run.
    pub open spec fn books(self) -> Result<Seq<Seq<char>>, DnoteClientError> {
        match self.text() {
            None => Err(DnoteClientError::CommandFailure),
            Some(t) => match books_of(t) {
                Some(books) => Ok(books),
                None => Err(DnoteClientError::ParseFailure),
            },
        }
    }

    /// What a listing of pages yields for this run.
    pub open spec fn pages(self) -> Result<Seq<PageView>, DnoteClientError> {
        match self.text() {
            None => Err(DnoteClientError::CommandFailure),
            Some(t) => match pages_of(t) {
                Some(pages) => Ok(pages),
                None => Err(DnoteClientError::ParseFailure),
            },
        }
    }

    /// What a request for the text of a page yields for this run.
    pub open spec fn content(self) -> Result<Seq<char>, DnoteClientError> {
        match self.text() {
            None => Err(DnoteClientError::CommandFailure),
            Some(t) => Ok(trim(t)),
        }
    }
}

/// `String::from_utf8` turns bytes into a string if and only if they are
/// valid UTF-8; the string then holds the characters that the bytes encode.
#[verifier::external_body]
fn string_from_utf8(bytes: &Vec<u8>) -> (r: Option<String>)
    ensures
        match r {
            Some(s) => valid_utf8(bytes@) && s@ == decode_utf8(bytes@),
            None => !valid_utf8(bytes@),
        },
{
    String::from_utf8(bytes.clone()).ok()
}

/// The dashboard's side of the note tool: it names the program, and reads
/// what a run of it produced.
#[derive(Debug)]
pub struct DnoteClient {}

impl DnoteClient {
    /// A client for the note tool.
    pub fn new() -> (client: DnoteClient) {
        DnoteClient {  }
    }

    /// The name of the program.
    pub fn program(&self) -> (p: &'static str)
        ensures
            p@ == "dnote"@,
    {
        "dnote"
    }

    /// The text that a run of the tool produced. A run that did not take
    /// place, that reported failure or that printed something other than
    /// text is a command failure.
    pub fn output(&self, outcome: &CommandOutcome) -> (r: Result<String, DnoteClientError>)
        ensures
            match r {
                Ok(text) => outcome.text() == Some(text@),
                Err(e) => e == DnoteClientError::CommandFailure && outcome.text() is None,
            },
    {
        match outcome {
            CommandOutcome::NotRun => Err(DnoteClientError::CommandFailure),
            CommandOutcome::Exited { success, stdout } => {
                if !*success {
                    return Err(DnoteClientError::CommandFailure);
                }
                match string_from_utf8(stdout) {
                    Some(text) => Ok(text),
                    None => Err(DnoteClientError::CommandFailure),
                }
            },
        }
    }

    /// The books that a run of `view --name-only` listed.
    pub fn get_books(&self, outcome: &CommandOutcome) -> (r: Result<
        Vec<DnoteBook>,
        DnoteClientError,
    >)
        ensures
            match r {
                Ok(books) => outcome.books() == Ok::<Seq<Seq<char>>, DnoteClientError>(
                    book_names(books@),
                ),
                Err(e) => outcome.books() == Err::<Seq<Seq<char>>, DnoteClientError>(e),
            },
    {
        match self.output(outcome) {
            Ok(text) => parse_books(text.as_str()),
            Err(e) => Err(e),
        }
    }

    /// The outcome of a run that adds, edits or removes something: success
    /// or failure, no data. What the run changed is seen by asking again.
    pub fn mutate(&self, outcome: &CommandOutcome) -> (r: Result<(), DnoteClientError>)
        ensures
            match r {
                Ok(_) => outcome.text() is Some,
                Err(e) => e == DnoteClientError::CommandFailure && outcome.text() is None,
            },
    {
        match self.output(outcome) {
            Ok(_) => Ok(()),
            Err(e) => Err(e),
        }
    }

    /// The outcome of a run of `edit <book> -n <name>`, which changes a
    /// book's name: success or failure, no data.
    pub fn rename_book(&self, outcome: &CommandOutcome) -> (r: Result<(), DnoteClientError>)
        ensures
            match r {
                Ok(_) => outcome.text() is Some,
                Err(e) => e == DnoteClientError::CommandFailure && outcome.text() is None,
            },
    {
        self.mutate(outcome)
    }

    /// The pages that a run of `view <book>` listed.
    pub fn get_pages(&self, outcome: &CommandOutcome) -> (r: Result<
        Vec<DnotePage>,
        DnoteClientError,
    >)
        ensures
            match r {
                Ok(pages) => outcome.pages() == Ok::<Seq<PageView>, DnoteClientError>(
                    page_views(pages@),
                ),
                Err(e) => outcome.pages() == Err::<Seq<PageView>, DnoteClientError>(e),
            },
    {
        match self.output(outcome) {
            Ok(text) => parse_pages(text.as_str()),
            Err(e) => Err(e),
        }
    }

    /// The text of the page that a run of `view <id> --content-only`
    /// printed.
    pub fn get_page_content(&self, outcome: &CommandOutcome) -> (r: Result<
        DnotePageInfo,
        DnoteClientError,
    >)
        ensures
            match r {
                Ok(info) => outcome.content() == Ok::<Seq<char>, DnoteClientError>(info@),
                Err(e) => outcome.content() == Err::<Seq<char>, DnoteClientError>(e),
            },
    {
        match self.output(outcome) {
            Ok(text) => DnotePageInfo::parse(text.as_str()),
            Err(e) => Err(e),
        }
    }
}

} // verus!
