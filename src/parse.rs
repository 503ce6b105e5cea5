//! The records an annotation export holds, and how each is read from its marker element.
use vstd::prelude::*;

use crate::markup::{
    all_matching, child_index, child_matching, child_of, collect_text, descendant_matching,
    find_all, find_child, find_descendant, html_tree, parse_html, subtree_text, Markup, Matcher,
    NodeData, NodeKind, NodeModel, Pattern,
};
use crate::text::{
    find_chars, normalized, parse_unsigned, plain_quote_chars, push_chars, slice_chars,
    split_once, string_of, trim, trim_chars, unsigned_value,
};

verus! {

/// A structural expectation that the document did not meet.
#[derive(Clone, Copy, Debug, PartialEq, Eq, Structural)]
pub enum Missing {
    /// The first marker element (export date and title).
    HeaderElement,
    /// The second marker element (author).
    AuthorElement,
    /// An `h1` child holding the export date and the title.
    Heading,
    /// Any content inside the `h1` element.
    HeadingContents,
    /// Text as the first content of the `h1` element.
    HeadingText,
    /// A `span` child holding the author.
    AuthorSpan,
    /// Any content inside the `span` element.
    AuthorContents,
    /// Text as the first content of the `span` element.
    AuthorText,
    /// A child with class `bm-text`.
    TextBlock,
    /// A `p` element inside the `bm-text` block.
    TextParagraph,
    /// A child with class `bm-page`.
    PageBlock,
    /// Any content inside the `bm-page` block.
    PageContents,
    /// Text as the first content of the `bm-page` block.
    PageText,
    /// A child with class `bm-note`.
    NoteBlock,
    /// A `p` element inside the `bm-note` block.
    NoteParagraph,
}

/// Text that is present but fails its format check.
#[derive(Clone, Copy, Debug, PartialEq, Eq, Structural)]
pub enum Malformed {
    /// The heading has no `" - "` between export date and title.
    NoSeparator,
    /// The page text is not a positive integer that fits in `usize`.
    PageNotPositiveInteger,
    /// The highlight is empty once reconstructed.
    EmptyHighlight,
}

/// Why reading one field from one element failed: a structural expectation that was
/// not met, or text that fails its format check.
#[derive(Clone, Copy, Debug, PartialEq, Eq, Structural)]
pub enum ExtractError {
    Missing(Missing),
    Malformed(Malformed),
}

/// Why reading a whole export failed. Notes are read fail-fast: the first note element
/// that cannot be read ends the parse, and its position among the notes is reported.
#[derive(Clone, Copy, Debug, PartialEq, Eq, Structural)]
pub enum ParseError {
    Header(ExtractError),
    Author(ExtractError),
    Note(usize, ExtractError),
}

impl Missing {
    /// What was expected, in words.
    pub fn message(&self) -> &'static str {
        match self {
            Missing::HeaderElement => "expected a marker element with the export date and book title",
            Missing::AuthorElement => "expected a second marker element with the book author",
            Missing::Heading => "expected an <h1> element with export date and book title inside",
            Missing::HeadingContents => "expected contents inside the <h1> element",
            Missing::HeadingText => "expected text inside the <h1> element",
            Missing::AuthorSpan => "expected a <span> element with the book author inside",
            Missing::AuthorContents => "expected contents in the <span> element",
            Missing::AuthorText => "expected text inside the <span> element",
            Missing::TextBlock => "expected an element with 'bm-text' class",
            Missing::TextParagraph => "expected one 'p' element inside '.bm-text'",
            Missing::PageBlock => "expected an element with 'bm-page' class",
            Missing::PageContents => "expected contents inside the element with 'bm-page' class",
            Missing::PageText => "expected the page contents to be text",
            Missing::NoteBlock => "expected an element with 'bm-note' class",
            Missing::NoteParagraph => "expected one 'p' element inside '.bm-note'",
        }
    }
}

impl Malformed {
    /// What was wrong, in words.
    pub fn message(&self) -> &'static str {
        match self {
            Malformed::NoSeparator => "expected text with ' - ' inside to delimit export date and book title",
            Malformed::PageNotPositiveInteger => "expected the page text to be a positive integer",
            Malformed::EmptyHighlight => "expected the highlight text not to be empty",
        }
    }
}

impl ExtractError {
    /// What went wrong, in words.
    pub fn message(&self) -> &'static str {
        match self {
            ExtractError::Missing(m) => m.message(),
            ExtractError::Malformed(m) => m.message(),
        }
    }
}


/// The book's author, as the header gives it.
pub struct BookAuthor(String);

/// The export date, kept verbatim as the header gives it.
pub struct ExportDate(String);

/// The book's title, as the header gives it.
pub struct BookTitle(String);

/// A page number; always positive.
pub struct Page(usize);

/// The highlighted text of a note; never empty.
pub struct NoteHighlight(String);

/// The reader's own comment on a highlight.
pub struct NoteComment(String);

impl View for BookAuthor {
    type V = Seq<char>;

    closed spec fn view(&self) -> Seq<char> {
        self.0@
    }
}

impl View for ExportDate {
    type V = Seq<char>;

    closed spec fn view(&self) -> Seq<char> {
        self.0@
    }
}

impl View for BookTitle {
    type V = Seq<char>;

    closed spec fn view(&self) -> Seq<char> {
        self.0@
    }
}

impl View for Page {
    type V = nat;

    closed spec fn view(&self) -> nat {
        self.0 as nat
    }
}

impl View for NoteHighlight {
    type V = Seq<char>;

    closed spec fn view(&self) -> Seq<char> {
        self.0@
    }
}

impl View for NoteComment {
    type V = Seq<char>;

    closed spec fn view(&self) -> Seq<char> {
        self.0@
    }
}

impl Page {
    #[verifier::type_invariant]
    spec fn positive(&self) -> bool {
        self.0 > 0
    }

    /// A page number, if `value` is positive.
    pub fn new(value: usize) -> (r: Option<Page>)
        ensures
            r is Some <==> value > 0,
            r is Some ==> r->0@ == value,
    {
        if value > 0 { Some(Page(value)) } else { None }
    }

    pub fn value(&self) -> (r: usize)
        ensures
            r == self@,
            r > 0,
    {
        proof {
            use_type_invariant(self);
        }
        self.0
    }
}

impl NoteHighlight {
    #[verifier::type_invariant]
    spec fn not_empty(&self) -> bool {
        self.0@.len() > 0
    }

    /// A highlight, if `text` is not empty.
    pub fn new(text: String) -> (r: Option<NoteHighlight>)
        ensures
            r is Some <==> text@.len() > 0,
            r is Some ==> r->0@ == text@,
    {
        if !text.as_str().is_empty() {
            Some(NoteHighlight(text))
        } else {
            None
        }
    }

    pub fn as_str(&self) -> (r: &str)
        ensures
            r@ == self@,
            r@.len() > 0,
    {
        proof {
            use_type_invariant(self);
        }
        self.0.as_str()
    }
}


impl NoteComment {
    pub fn new(text: String) -> (r: NoteComment)
        ensures
            r@ == text@,
    {
        NoteComment(text)
    }

    pub fn as_str(&self) -> (r: &str)
        ensures
            r@ == self@,
    {
        self.0.as_str()
    }
}

impl BookAuthor {
    pub fn as_str(&self) -> (r: &str)
        ensures
            r@ == self@,
    {
        self.0.as_str()
    }
}

impl BookTitle {
    pub fn as_str(&self) -> (r: &str)
        ensures
            r@ == self@,
    {
        self.0.as_str()
    }
}

impl ExportDate {
    pub fn as_str(&self) -> (r: &str)
        ensures
            r@ == self@,
    {
        self.0.as_str()
    }
}

/// One annotation: the highlighted text, the page it is on, and an optional comment.
pub struct Note {
    pub highlight: NoteHighlight,
    pub comment: Option<NoteComment>,
    pub page: Page,
}

/// The mathematical model of a note.
pub struct NoteModel {
    pub highlight: Seq<char>,
    pub comment: Option<Seq<char>>,
    pub page: nat,
}

impl View for Note {
    type V = NoteModel;

    open spec fn view(&self) -> NoteModel {
        NoteModel {
            highlight: self.highlight@,
            comment: match self.comment {
                Some(c) => Some(c@),
                None => None,
            },
            page: self.page@,
        }
    }
}

/// A bare bookmark: the placeholder text `Bookmark` and no comment. It marks a place
/// and carries no content of its own.
pub open spec fn is_bookmark_model(n: NoteModel) -> bool {
    n.highlight == "Bookmark"@ && n.comment is None
}

impl Note {
    pub fn new(highlight: NoteHighlight, comment: Option<NoteComment>, page: Page) -> (r: Note)
        ensures
            r.highlight@ == highlight@,
            r.comment == comment,
            r.page@ == page@,
    {
        Note { highlight, comment, page }
    }

    /// Whether this note is a bare bookmark (see `is_bookmark_model`).
    pub fn is_bookmark(&self) -> (r: bool)
        ensures
            r == is_bookmark_model(self@),
    {
        let placeholder = String::from_str("Bookmark");
        let same = self.highlight.0 == placeholder;
        same && self.comment.is_none()
    }
}

/// The book an export is about.
pub struct Book {
    pub author: BookAuthor,
    pub title: BookTitle,
}

/// Everything an annotation export holds.
pub struct PocketBookNotesExport {
    pub book: Book,
    pub export_date: ExportDate,
    pub notes: Vec<Note>,
}

/// The mathematical model of an export.
pub struct ExportModel {
    pub title: Seq<char>,
    pub author: Seq<char>,
    pub export_date: Seq<char>,
    pub notes: Seq<NoteModel>,
}

impl View for PocketBookNotesExport {
    type V = ExportModel;

    open spec fn view(&self) -> ExportModel {
        ExportModel {
            title: self.book.title@,
            author: self.book.author@,
            export_date: self.export_date@,
            notes: self.notes@.map_values(|n: Note| n@),
        }
    }
}


/// The text that node `i` holds as its first content; `contents` is reported when it
/// has no content, `text` when that content is not text.
pub open spec fn first_text_spec(nodes: Seq<NodeModel>, i: int, contents: Missing, text: Missing) -> Result<Seq<char>, ExtractError> {
    let c = child_of(nodes, i);
    if c < nodes.len() {
        match nodes[c].kind {
            NodeKind::Text(t) => Ok(t),
            _ => Err(ExtractError::Missing(text)),
        }
    } else {
        Err(ExtractError::Missing(contents))
    }
}

/// The text of the `h1` child of the first marker element.
pub open spec fn heading_spec(nodes: Seq<NodeModel>, i: int) -> Result<Seq<char>, ExtractError> {
    match child_matching(nodes, i, Pattern::Name("h1"@)) {
        Some(h) => first_text_spec(nodes, h, Missing::HeadingContents, Missing::HeadingText),
        None => Err(ExtractError::Missing(Missing::Heading)),
    }
}

/// The heading split into export date and title around its first `" - "`.
pub open spec fn heading_parts_spec(nodes: Seq<NodeModel>, i: int) -> Result<(Seq<char>, Seq<char>), ExtractError> {
    match heading_spec(nodes, i) {
        Ok(t) => match split_once(t, " - "@) {
            Some(parts) => Ok(parts),
            None => Err(ExtractError::Malformed(Malformed::NoSeparator)),
        },
        Err(e) => Err(e),
    }
}

pub open spec fn export_date_spec(nodes: Seq<NodeModel>, i: int) -> Result<Seq<char>, ExtractError> {
    match heading_parts_spec(nodes, i) {
        Ok(parts) => Ok(parts.0),
        Err(e) => Err(e),
    }
}

pub open spec fn title_spec(nodes: Seq<NodeModel>, i: int) -> Result<Seq<char>, ExtractError> {
    match heading_parts_spec(nodes, i) {
        Ok(parts) => Ok(parts.1),
        Err(e) => Err(e),
    }
}

/// The text of the `span` child of the second marker element.
pub open spec fn author_spec(nodes: Seq<NodeModel>, i: int) -> Result<Seq<char>, ExtractError> {
    match child_matching(nodes, i, Pattern::Name("span"@)) {
        Some(sp) => first_text_spec(nodes, sp, Missing::AuthorContents, Missing::AuthorText),
        None => Err(ExtractError::Missing(Missing::AuthorSpan)),
    }
}

/// The reconstructed text of the first `p` inside the `bm-text` child: all its text in
/// document order, a line feed for each `br`, trimmed, with plain quotes.
pub open spec fn highlight_spec(nodes: Seq<NodeModel>, i: int) -> Result<Seq<char>, ExtractError> {
    match child_matching(nodes, i, Pattern::Class("bm-text"@)) {
        Some(b) => match descendant_matching(nodes, b, Pattern::Name("p"@)) {
            Some(p) => {
                let t = normalized(subtree_text(nodes, p, true));
                if t.len() > 0 {
                    Ok(t)
                } else {
                    Err(ExtractError::Malformed(Malformed::EmptyHighlight))
                }
            },
            None => Err(ExtractError::Missing(Missing::TextParagraph)),
        },
        None => Err(ExtractError::Missing(Missing::TextBlock)),
    }
}

/// The positive integer that the `bm-page` child holds as its first content.
pub open spec fn page_spec(nodes: Seq<NodeModel>, i: int) -> Result<nat, ExtractError> {
    match child_matching(nodes, i, Pattern::Class("bm-page"@)) {
        Some(b) => match first_text_spec(nodes, b, Missing::PageContents, Missing::PageText) {
            Ok(t) => match unsigned_value(t) {
                Some(v) => if v > 0 {
                    Ok(v)
                } else {
                    Err(ExtractError::Malformed(Malformed::PageNotPositiveInteger))
                },
                None => Err(ExtractError::Malformed(Malformed::PageNotPositiveInteger)),
            },
            Err(e) => Err(e),
        },
        None => Err(ExtractError::Missing(Missing::PageBlock)),
    }
}

/// The trimmed text of the first `p` inside the `bm-note` child.
pub open spec fn comment_spec(nodes: Seq<NodeModel>, i: int) -> Result<Seq<char>, ExtractError> {
    match child_matching(nodes, i, Pattern::Class("bm-note"@)) {
        Some(b) => match descendant_matching(nodes, b, Pattern::Name("p"@)) {
            Some(p) => Ok(trim(subtree_text(nodes, p, false))),
            None => Err(ExtractError::Missing(Missing::NoteParagraph)),
        },
        None => Err(ExtractError::Missing(Missing::NoteBlock)),
    }
}

/// A note element read whole: highlight and page are required, in that order; a
/// comment that cannot be read counts as absent.
pub open spec fn note_spec(nodes: Seq<NodeModel>, i: int) -> Result<NoteModel, ExtractError> {
    match highlight_spec(nodes, i) {
        Ok(h) => match page_spec(nodes, i) {
            Ok(p) => Ok(NoteModel {
                highlight: h,
                comment: match comment_spec(nodes, i) {
                    Ok(c) => Some(c),
                    Err(_) => None,
                },
                page: p,
            }),
            Err(e) => Err(e),
        },
        Err(e) => Err(e),
    }
}

/// Relates an executable result to the result of a spec function.
pub open spec fn same_result<T: View>(r: Result<T, ExtractError>, s: Result<T::V, ExtractError>) -> bool {
    match r {
        Ok(v) => s == Ok::<T::V, ExtractError>(v@),
        Err(e) => s == Err::<T::V, ExtractError>(e),
    }
}

/// The text that node `i` holds as its first content (see `first_text_spec`).
fn first_text(doc: &Markup, i: usize, contents: Missing, text: Missing) -> (r: Result<&String, ExtractError>)
    requires
        i < doc@.len(),
    ensures
        match r {
            Ok(t) => first_text_spec(doc@, i as int, contents, text) == Ok::<Seq<char>, ExtractError>(t@),
            Err(e) => first_text_spec(doc@, i as int, contents, text) == Err::<Seq<char>, ExtractError>(e),
        },
{
    let c = child_index(doc, i);
    if c < doc.nodes.len() {
        match &doc.nodes[c].data {
            NodeData::Text(t) => Ok(t),
            _ => Err(ExtractError::Missing(text)),
        }
    } else {
        Err(ExtractError::Missing(contents))
    }
}

/// The heading split into export date and title (see `heading_parts_spec`).
fn heading_parts(doc: &Markup, i: usize) -> (r: Result<(String, String), ExtractError>)
    requires
        i < doc@.len(),
    ensures
        match r {
            Ok(p) => heading_parts_spec(doc@, i as int) == Ok::<(Seq<char>, Seq<char>), ExtractError>((p.0@, p.1@)),
            Err(e) => heading_parts_spec(doc@, i as int) == Err::<(Seq<char>, Seq<char>), ExtractError>(e),
        },
{
    let h = match find_child(doc, i, &Matcher::Name("h1")) {
        Some(h) => h,
        None => return Err(ExtractError::Missing(Missing::Heading)),
    };
    let t = match first_text(doc, h, Missing::HeadingContents, Missing::HeadingText) {
        Ok(t) => t,
        Err(e) => return Err(e),
    };
    let mut chars: Vec<char> = Vec::new();
    push_chars(&mut chars, t.as_str());
    let mut sep: Vec<char> = Vec::new();
    push_chars(&mut sep, " - ");
    assert(chars@ =~= t@);
    assert(sep@ =~= " - "@);
    match find_chars(&chars, &sep) {
        Some(k) => {
            let sep_len = sep.len();
            let n = chars.len();
            assert(k + sep_len <= n);
            let before = slice_chars(&chars, 0, k);
            let after = slice_chars(&chars, k + sep_len, n);
            assert(split_once(t@, " - "@) == Some((before@, after@)));
            Ok((string_of(&before), string_of(&after)))
        },
        None => Err(ExtractError::Malformed(Malformed::NoSeparator)),
    }
}

impl ExportDate {
    /// The export date from the first marker element: the heading text before `" - "`.
    pub fn from_element(doc: &Markup, i: usize) -> (r: Result<ExportDate, ExtractError>)
        requires
            i < doc@.len(),
        ensures
            same_result(r, export_date_spec(doc@, i as int)),
    {
        match heading_parts(doc, i) {
            Ok(parts) => Ok(ExportDate(parts.0)),
            Err(e) => Err(e),
        }
    }
}

impl BookTitle {
    /// The title from the first marker element: the heading text after `" - "`.
    pub fn from_element(doc: &Markup, i: usize) -> (r: Result<BookTitle, ExtractError>)
        requires
            i < doc@.len(),
        ensures
            same_result(r, title_spec(doc@, i as int)),
    {
        match heading_parts(doc, i) {
            Ok(parts) => Ok(BookTitle(parts.1)),
            Err(e) => Err(e),
        }
    }
}

impl BookAuthor {
    /// The author from the second marker element: the text of its `span` child.
    pub fn from_element(doc: &Markup, i: usize) -> (r: Result<BookAuthor, ExtractError>)
        requires
            i < doc@.len(),
        ensures
            same_result(r, author_spec(doc@, i as int)),
    {
        let sp = match find_child(doc, i, &Matcher::Name("span")) {
            Some(sp) => sp,
            None => return Err(ExtractError::Missing(Missing::AuthorSpan)),
        };
        match first_text(doc, sp, Missing::AuthorContents, Missing::AuthorText) {
            Ok(t) => Ok(BookAuthor(t.clone())),
            Err(e) => Err(e),
        }
    }
}


impl NoteHighlight {
    /// The highlight from a note element: the reconstructed text of the first `p`
    /// inside its `bm-text` child (see `highlight_spec`).
    pub fn from_element(doc: &Markup, i: usize) -> (r: Result<NoteHighlight, ExtractError>)
        requires
            i < doc@.len(),
        ensures
            same_result(r, highlight_spec(doc@, i as int)),
    {
        let b = match find_child(doc, i, &Matcher::Class("bm-text")) {
            Some(b) => b,
            None => return Err(ExtractError::Missing(Missing::TextBlock)),
        };
        let p = match find_descendant(doc, b, &Matcher::Name("p")) {
            Some(p) => p,
            None => return Err(ExtractError::Missing(Missing::TextParagraph)),
        };
        let raw = collect_text(doc, p, true);
        let trimmed = trim_chars(&raw);
        let plain = plain_quote_chars(&trimmed);
        if plain.len() == 0 {
            return Err(ExtractError::Malformed(Malformed::EmptyHighlight));
        }
        Ok(NoteHighlight(string_of(&plain)))
    }
}

impl Page {
    /// The page from a note element: the positive integer that its `bm-page` child
    /// holds as its first content (see `page_spec`).
    pub fn from_element(doc: &Markup, i: usize) -> (r: Result<Page, ExtractError>)
        requires
            i < doc@.len(),
        ensures
            same_result(r, page_spec(doc@, i as int)),
    {
        let b = match find_child(doc, i, &Matcher::Class("bm-page")) {
            Some(b) => b,
            None => return Err(ExtractError::Missing(Missing::PageBlock)),
        };
        let t = match first_text(doc, b, Missing::PageContents, Missing::PageText) {
            Ok(t) => t,
            Err(e) => return Err(e),
        };
        let mut chars: Vec<char> = Vec::new();
        push_chars(&mut chars, t.as_str());
        assert(chars@ =~= t@);
        match parse_unsigned(&chars) {
            Some(v) => if v > 0 {
                Ok(Page(v))
            } else {
                Err(ExtractError::Malformed(Malformed::PageNotPositiveInteger))
            },
            None => Err(ExtractError::Malformed(Malformed::PageNotPositiveInteger)),
        }
    }
}

impl NoteComment {
    /// The comment from a note element: the trimmed text of the first `p` inside its
    /// `bm-note` child (see `comment_spec`).
    pub fn from_element(doc: &Markup, i: usize) -> (r: Result<NoteComment, ExtractError>)
        requires
            i < doc@.len(),
        ensures
            same_result(r, comment_spec(doc@, i as int)),
    {
        let b = match find_child(doc, i, &Matcher::Class("bm-note")) {
            Some(b) => b,
            None => return Err(ExtractError::Missing(Missing::NoteBlock)),
        };
        let p = match find_descendant(doc, b, &Matcher::Name("p")) {
            Some(p) => p,
            None => return Err(ExtractError::Missing(Missing::NoteParagraph)),
        };
        let raw = collect_text(doc, p, false);
        let trimmed = trim_chars(&raw);
        Ok(NoteComment(string_of(&trimmed)))
    }
}

impl Note {
    /// A note from a note element (see `note_spec`).
    pub fn from_element(doc: &Markup, i: usize) -> (r: Result<Note, ExtractError>)
        requires
            i < doc@.len(),
        ensures
            same_result(r, note_spec(doc@, i as int)),
    {
        let highlight = match NoteHighlight::from_element(doc, i) {
            Ok(h) => h,
            Err(e) => return Err(e),
        };
        let page = match Page::from_element(doc, i) {
            Ok(p) => p,
            Err(e) => return Err(e),
        };
        let comment = match NoteComment::from_element(doc, i) {
            Ok(c) => Some(c),
            Err(_) => None,
        };
        Ok(Note { highlight, comment, page })
    }
}


/// The class that marks every header and note element of an export.
pub open spec fn marker() -> Pattern {
    Pattern::Class("bookmark"@)
}

/// The first `n` note elements of `elems` read in order, stopping at the first that
/// cannot be read.
pub open spec fn notes_upto(nodes: Seq<NodeModel>, elems: Seq<int>, n: int) -> Result<Seq<NoteModel>, ParseError>
    decreases n,
{
    if n <= 0 {
        Ok(Seq::empty())
    } else {
        match notes_upto(nodes, elems, n - 1) {
            Ok(done) => match note_spec(nodes, elems[n - 1]) {
                Ok(note) => Ok(done.push(note)),
                Err(e) => Err(ParseError::Note((n - 1) as usize, e)),
            },
            Err(e) => Err(e),
        }
    }
}

/// What an export document holds. The first marker element gives export date and
/// title, the second the author, and every later one a note, in document order.
pub open spec fn export_spec(nodes: Seq<NodeModel>) -> Result<ExportModel, ParseError> {
    let elems = all_matching(nodes, marker());
    if elems.len() == 0 {
        Err(ParseError::Header(ExtractError::Missing(Missing::HeaderElement)))
    } else {
        match export_date_spec(nodes, elems[0]) {
            Err(e) => Err(ParseError::Header(e)),
            Ok(date) => match title_spec(nodes, elems[0]) {
                Err(e) => Err(ParseError::Header(e)),
                Ok(title) => if elems.len() < 2 {
                    Err(ParseError::Author(ExtractError::Missing(Missing::AuthorElement)))
                } else {
                    match author_spec(nodes, elems[1]) {
                        Err(e) => Err(ParseError::Author(e)),
                        Ok(author) => {
                            let note_elems = elems.subrange(2, elems.len() as int);
                            match notes_upto(nodes, note_elems, note_elems.len() as int) {
                                Err(e) => Err(e),
                                Ok(notes) => Ok(ExportModel { title, author, export_date: date, notes }),
                            }
                        },
                    }
                },
            },
        }
    }
}

proof fn lemma_notes_error_stays(nodes: Seq<NodeModel>, elems: Seq<int>, n: int, m: int)
    requires
        0 <= n <= m,
        notes_upto(nodes, elems, n) is Err,
    ensures
        notes_upto(nodes, elems, m) == notes_upto(nodes, elems, n),
    decreases m - n,
{
    if n < m {
        lemma_notes_error_stays(nodes, elems, n, m - 1);
    }
}

pub open spec fn same_export(r: Result<PocketBookNotesExport, ParseError>, s: Result<ExportModel, ParseError>) -> bool {
    match r {
        Ok(e) => s == Ok::<ExportModel, ParseError>(e@),
        Err(x) => s == Err::<ExportModel, ParseError>(x),
    }
}

impl PocketBookNotesExport {
    /// Reads an export from a parsed document (see `export_spec`).
    pub fn from_markup(doc: &Markup) -> (r: Result<PocketBookNotesExport, ParseError>)
        ensures
            same_export(r, export_spec(doc@)),
    {
        let elems = find_all(doc, &Matcher::Class("bookmark"));
        let ghost ev = elems@.map_values(|x: usize| x as int);
        assert(ev.len() == elems@.len());
        if elems.len() == 0 {
            return Err(ParseError::Header(ExtractError::Missing(Missing::HeaderElement)));
        }
        let export_date = match ExportDate::from_element(doc, elems[0]) {
            Ok(d) => d,
            Err(e) => return Err(ParseError::Header(e)),
        };
        let title = match BookTitle::from_element(doc, elems[0]) {
            Ok(t) => t,
            Err(e) => return Err(ParseError::Header(e)),
        };
        if elems.len() < 2 {
            return Err(ParseError::Author(ExtractError::Missing(Missing::AuthorElement)));
        }
        let author = match BookAuthor::from_element(doc, elems[1]) {
            Ok(a) => a,
            Err(e) => return Err(ParseError::Author(e)),
        };
        assert(ev[0] == elems@[0] as int && ev[1] == elems@[1] as int);
        assert(export_date_spec(doc@, ev[0]) == Ok::<Seq<char>, ExtractError>(export_date@));
        assert(title_spec(doc@, ev[0]) == Ok::<Seq<char>, ExtractError>(title@));
        assert(author_spec(doc@, ev[1]) == Ok::<Seq<char>, ExtractError>(author@));
        let ghost note_elems = ev.subrange(2, ev.len() as int);
        let mut notes: Vec<Note> = Vec::new();
        let mut k: usize = 2;
        assert(notes@.map_values(|n: Note| n@) =~= Seq::<NoteModel>::empty());
        while k < elems.len()
            invariant
                2 <= k <= elems@.len(),
                ev == elems@.map_values(|x: usize| x as int),
                note_elems == ev.subrange(2, ev.len() as int),
                forall|t: int| 0 <= t < elems@.len() ==> elems@[t] < doc@.len(),
                notes_upto(doc@, note_elems, k - 2) == Ok::<Seq<NoteModel>, ParseError>(notes@.map_values(|n: Note| n@)),
                export_spec(doc@) == (match notes_upto(doc@, note_elems, note_elems.len() as int) {
                    Err(e) => Err(e),
                    Ok(notes) => Ok(ExportModel { title: title@, author: author@, export_date: export_date@, notes }),
                }),
            decreases elems.len() - k,
        {
            let ghost before = notes@;
            match Note::from_element(doc, elems[k]) {
                Ok(n) => {
                    notes.push(n);
                    assert(notes@.map_values(|n: Note| n@) =~= before.map_values(|n: Note| n@).push(n@));
                },
                Err(e) => {
                    proof {
                        assert(note_elems[k - 2] == elems@[k as int] as int);
                        assert(note_spec(doc@, note_elems[k - 2]) == Err::<NoteModel, ExtractError>(e));
                        assert(notes_upto(doc@, note_elems, k - 1) == Err::<Seq<NoteModel>, ParseError>(ParseError::Note((k - 2) as usize, e)));
                        lemma_notes_error_stays(doc@, note_elems, k - 1, note_elems.len() as int);
                    }
                    return Err(ParseError::Note(k - 2, e));
                },
            }
            k += 1;
        }
        Ok(PocketBookNotesExport { book: Book { author, title }, export_date, notes })
    }

    /// Parses an export file's HTML text and reads the export from it.
    pub fn from_str(s: &str) -> (r: Result<PocketBookNotesExport, ParseError>)
        ensures
            same_export(r, export_spec(html_tree(s@))),
    {
        let doc = parse_html(s);
        PocketBookNotesExport::from_markup(&doc)
    }
}


proof fn lemma_notes_all_read(nodes: Seq<NodeModel>, elems: Seq<int>, n: int)
    requires
        0 <= n <= elems.len(),
        forall|k: int| 0 <= k < elems.len() ==> (#[trigger] note_spec(nodes, elems[k])) is Ok,
    ensures
        notes_upto(nodes, elems, n) is Ok,
        notes_upto(nodes, elems, n)->Ok_0.len() == n,
        forall|k: int| 0 <= k < n ==> #[trigger] notes_upto(nodes, elems, n)->Ok_0[k]
            == note_spec(nodes, elems[k])->Ok_0,
    decreases n,
{
    if n > 0 {
        lemma_notes_all_read(nodes, elems, n - 1);
        assert(note_spec(nodes, elems[n - 1]) is Ok);
    }
}

/// A document whose first two marker elements carry a readable header and whose `N`
/// later marker elements are readable notes parses to a book, an export date and
/// exactly those `N` notes, in document order.
pub proof fn lemma_parse_keeps_every_note(nodes: Seq<NodeModel>)
    requires
        all_matching(nodes, marker()).len() >= 2,
        export_date_spec(nodes, all_matching(nodes, marker())[0]) is Ok,
        title_spec(nodes, all_matching(nodes, marker())[0]) is Ok,
        author_spec(nodes, all_matching(nodes, marker())[1]) is Ok,
        forall|k: int| 2 <= k < all_matching(nodes, marker()).len()
            ==> (#[trigger] note_spec(nodes, all_matching(nodes, marker())[k])) is Ok,
    ensures
        export_spec(nodes) is Ok,
        export_spec(nodes)->Ok_0.title == title_spec(nodes, all_matching(nodes, marker())[0])->Ok_0,
        export_spec(nodes)->Ok_0.export_date == export_date_spec(nodes, all_matching(nodes, marker())[0])->Ok_0,
        export_spec(nodes)->Ok_0.author == author_spec(nodes, all_matching(nodes, marker())[1])->Ok_0,
        export_spec(nodes)->Ok_0.notes.len() == all_matching(nodes, marker()).len() - 2,
        forall|k: int| 0 <= k < export_spec(nodes)->Ok_0.notes.len()
            ==> #[trigger] export_spec(nodes)->Ok_0.notes[k]
                == note_spec(nodes, all_matching(nodes, marker())[k + 2])->Ok_0,
{
    let elems = all_matching(nodes, marker());
    let note_elems = elems.subrange(2, elems.len() as int);
    assert forall|k: int| 0 <= k < note_elems.len() implies (#[trigger] note_spec(nodes, note_elems[k])) is Ok by {
        assert(note_elems[k] == elems[k + 2]);
    }
    lemma_notes_all_read(nodes, note_elems, note_elems.len() as int);
    assert forall|k: int| 0 <= k < note_elems.len() implies
        #[trigger] notes_upto(nodes, note_elems, note_elems.len() as int)->Ok_0[k]
            == note_spec(nodes, elems[k + 2])->Ok_0 by {
        assert(note_elems[k] == elems[k + 2]);
    }
}

/// Whether a note is a bare bookmark does not depend on its page.
pub proof fn lemma_bookmark_ignores_page(n: NoteModel, page: nat)
    ensures
        is_bookmark_model(n) == is_bookmark_model(NoteModel { page, ..n }),
{
}

} // verus!
