use pocketbook_notes::parse::{
    ExtractError, Malformed, Missing, Note, NoteComment, NoteHighlight, Page, ParseError,
    PocketBookNotesExport,
};

fn header(date_and_title: &str, author: &str) -> String {
    format!(
        "<div class=\"bookmark bm-header\"><h1>{}</h1></div>\n<div class=\"bookmark\"><span>{}</span></div>\n",
        date_and_title, author
    )
}

fn document(body: &str) -> String {
    format!("<!DOCTYPE html><html><head><title>notes</title></head><body>{}</body></html>", body)
}

fn note(text_block: &str, page_block: &str, note_block: Option<&str>) -> String {
    let comment = match note_block {
        Some(c) => format!("<div class=\"bm-note\"><p>{}</p></div>", c),
        None => String::new(),
    };
    format!(
        "<div class=\"bookmark bm-color-yellow\">\n  <div class=\"bm-page\">{}</div>\n  <div class=\"bm-text\"><p>{}</p></div>\n  {}\n</div>\n",
        page_block, text_block, comment
    )
}

fn parse(body: &str) -> Result<PocketBookNotesExport, ParseError> {
    PocketBookNotesExport::from_str(&document(body))
}

#[test]
fn end_to_end_single_note() {
    let body = header("2021-01-01 - Building a Second Brain", "Tiago Forte") + &note("La vida es sueño", "42", None);
    let export = parse(&body).unwrap();
    assert_eq!(export.book.title.as_str(), "Building a Second Brain");
    assert_eq!(export.book.author.as_str(), "Tiago Forte");
    assert_eq!(export.export_date.as_str(), "2021-01-01");
    assert_eq!(export.notes.len(), 1);
    let n = &export.notes[0];
    assert_eq!(n.highlight.as_str(), "La vida es sueño");
    assert_eq!(n.page.value(), 42);
    assert!(n.comment.is_none());
    assert!(!n.is_bookmark());
}

#[test]
fn header_only_gives_no_notes() {
    let body = header("2021-01-01 - Building a Second Brain", "Tiago Forte");
    let export = parse(&body).unwrap();
    assert!(export.notes.is_empty());
    assert_eq!(export.book.title.as_str(), "Building a Second Brain");
}

#[test]
fn notes_keep_document_order() {
    let body = header("2022-03-04 10:11 - A Book", "Some One")
        + &note("first", "1", None)
        + &note("second", "20", Some("why"))
        + &note("third", "300", None);
    let export = parse(&body).unwrap();
    assert_eq!(export.notes.len(), 3);
    assert_eq!(export.notes[0].highlight.as_str(), "first");
    assert_eq!(export.notes[1].highlight.as_str(), "second");
    assert_eq!(export.notes[1].comment.as_ref().unwrap().as_str(), "why");
    assert_eq!(export.notes[2].highlight.as_str(), "third");
    assert_eq!(export.notes[2].page.value(), 300);
    assert_eq!(export.export_date.as_str(), "2022-03-04 10:11");
}

#[test]
fn bookmark_note_is_classified() {
    let body = header("2021-01-01 - Building a Second Brain", "Tiago Forte") + &note("Bookmark", "17", None);
    let export = parse(&body).unwrap();
    assert_eq!(export.notes.len(), 1);
    assert_eq!(export.notes[0].page.value(), 17);
    assert!(export.notes[0].is_bookmark());
}

#[test]
fn multi_line_highlight() {
    let body = header("2021-01-01 - T", "A") + &note("A<br>B", "3", None);
    let export = parse(&body).unwrap();
    assert_eq!(export.notes[0].highlight.as_str(), "A\nB");
}

#[test]
fn nested_markup_and_quotes_in_highlight() {
    let body = header("2021-01-01 - T", "A")
        + &note("  \u{201C}It\u{2019}s <i>so</i> <b>bold<br></b>\u{201D}  ", "3", None);
    let export = parse(&body).unwrap();
    assert_eq!(export.notes[0].highlight.as_str(), "\"It's so bold\n\"");
}

#[test]
fn comment_is_trimmed() {
    let body = header("2021-01-01 - T", "A") + &note("text", "3", Some("  my <i>own</i> words \n"));
    let export = parse(&body).unwrap();
    assert_eq!(export.notes[0].comment.as_ref().unwrap().as_str(), "my own words");
    assert!(!export.notes[0].is_bookmark());
}

#[test]
fn bookmark_text_with_comment_is_not_a_bookmark() {
    let body = header("2021-01-01 - T", "A") + &note("Bookmark", "9", Some("remember"));
    let export = parse(&body).unwrap();
    assert!(!export.notes[0].is_bookmark());
}

#[test]
fn malformed_page_is_content_error() {
    let body = header("2021-01-01 - T", "A") + &note("text", "forty-two", None);
    assert_eq!(
        parse(&body).err(),
        Some(ParseError::Note(0, ExtractError::Malformed(Malformed::PageNotPositiveInteger)))
    );
}

#[test]
fn page_zero_is_content_error() {
    let body = header("2021-01-01 - T", "A") + &note("ok", "1", None) + &note("text", "0", None);
    assert_eq!(
        parse(&body).err(),
        Some(ParseError::Note(1, ExtractError::Malformed(Malformed::PageNotPositiveInteger)))
    );
}

#[test]
fn page_too_large_is_content_error() {
    let body = header("2021-01-01 - T", "A") + &note("text", "99999999999999999999999", None);
    assert_eq!(
        parse(&body).err(),
        Some(ParseError::Note(0, ExtractError::Malformed(Malformed::PageNotPositiveInteger)))
    );
}

#[test]
fn page_with_plus_sign_is_read() {
    let body = header("2021-01-01 - T", "A") + &note("text", "+7", None);
    assert_eq!(parse(&body).unwrap().notes[0].page.value(), 7);
}

#[test]
fn empty_document_misses_header() {
    assert_eq!(
        parse("").err(),
        Some(ParseError::Header(ExtractError::Missing(Missing::HeaderElement)))
    );
}

#[test]
fn missing_author_element() {
    let body = "<div class=\"bookmark\"><h1>2021-01-01 - T</h1></div>";
    assert_eq!(
        parse(body).err(),
        Some(ParseError::Author(ExtractError::Missing(Missing::AuthorElement)))
    );
}

#[test]
fn header_without_separator() {
    let body = header("2021-01-01 Building", "A");
    assert_eq!(
        parse(&body).err(),
        Some(ParseError::Header(ExtractError::Malformed(Malformed::NoSeparator)))
    );
}

#[test]
fn header_without_heading() {
    let body = "<div class=\"bookmark\"><h2>2021-01-01 - T</h2></div><div class=\"bookmark\"><span>A</span></div>";
    assert_eq!(
        parse(body).err(),
        Some(ParseError::Header(ExtractError::Missing(Missing::Heading)))
    );
}

#[test]
fn empty_heading() {
    let body = "<div class=\"bookmark\"><h1></h1></div><div class=\"bookmark\"><span>A</span></div>";
    assert_eq!(
        parse(body).err(),
        Some(ParseError::Header(ExtractError::Missing(Missing::HeadingContents)))
    );
}

#[test]
fn heading_starting_with_element() {
    let body = "<div class=\"bookmark\"><h1><b>2021</b> - T</h1></div><div class=\"bookmark\"><span>A</span></div>";
    assert_eq!(
        parse(body).err(),
        Some(ParseError::Header(ExtractError::Missing(Missing::HeadingText)))
    );
}

#[test]
fn title_keeps_later_separators() {
    let body = header("2021-01-01 - Part one - Part two", "A");
    let export = parse(&body).unwrap();
    assert_eq!(export.export_date.as_str(), "2021-01-01");
    assert_eq!(export.book.title.as_str(), "Part one - Part two");
}

#[test]
fn author_without_span() {
    let body = "<div class=\"bookmark\"><h1>2021-01-01 - T</h1></div><div class=\"bookmark\"><p>A</p></div>";
    assert_eq!(
        parse(body).err(),
        Some(ParseError::Author(ExtractError::Missing(Missing::AuthorSpan)))
    );
}

#[test]
fn author_span_empty() {
    let body = "<div class=\"bookmark\"><h1>2021-01-01 - T</h1></div><div class=\"bookmark\"><span></span></div>";
    assert_eq!(
        parse(body).err(),
        Some(ParseError::Author(ExtractError::Missing(Missing::AuthorContents)))
    );
}

#[test]
fn author_span_not_text() {
    let body = "<div class=\"bookmark\"><h1>2021-01-01 - T</h1></div><div class=\"bookmark\"><span><i>A</i></span></div>";
    assert_eq!(
        parse(body).err(),
        Some(ParseError::Author(ExtractError::Missing(Missing::AuthorText)))
    );
}

#[test]
fn note_without_text_block() {
    let body = header("2021-01-01 - T", "A") + "<div class=\"bookmark\"><div class=\"bm-page\">3</div></div>";
    assert_eq!(
        parse(&body).err(),
        Some(ParseError::Note(0, ExtractError::Missing(Missing::TextBlock)))
    );
}

#[test]
fn note_without_paragraph() {
    let body = header("2021-01-01 - T", "A")
        + "<div class=\"bookmark\"><div class=\"bm-text\">loose</div><div class=\"bm-page\">3</div></div>";
    assert_eq!(
        parse(&body).err(),
        Some(ParseError::Note(0, ExtractError::Missing(Missing::TextParagraph)))
    );
}

#[test]
fn note_with_blank_highlight() {
    let body = header("2021-01-01 - T", "A") + &note("   ", "3", None);
    assert_eq!(
        parse(&body).err(),
        Some(ParseError::Note(0, ExtractError::Malformed(Malformed::EmptyHighlight)))
    );
}

#[test]
fn note_without_page_block() {
    let body = header("2021-01-01 - T", "A") + "<div class=\"bookmark\"><div class=\"bm-text\"><p>x</p></div></div>";
    assert_eq!(
        parse(&body).err(),
        Some(ParseError::Note(0, ExtractError::Missing(Missing::PageBlock)))
    );
}

#[test]
fn note_with_empty_page_block() {
    let body = header("2021-01-01 - T", "A")
        + "<div class=\"bookmark\"><div class=\"bm-text\"><p>x</p></div><div class=\"bm-page\"></div></div>";
    assert_eq!(
        parse(&body).err(),
        Some(ParseError::Note(0, ExtractError::Missing(Missing::PageContents)))
    );
}

#[test]
fn note_with_page_not_text() {
    let body = header("2021-01-01 - T", "A")
        + "<div class=\"bookmark\"><div class=\"bm-text\"><p>x</p></div><div class=\"bm-page\"><b>3</b></div></div>";
    assert_eq!(
        parse(&body).err(),
        Some(ParseError::Note(0, ExtractError::Missing(Missing::PageText)))
    );
}

#[test]
fn class_must_match_whole_token() {
    let body = header("2021-01-01 - T", "A") + "<div class=\"bookmarks\"><p>not a marker</p></div>";
    let export = parse(&body).unwrap();
    assert!(export.notes.is_empty());
}

#[test]
fn is_bookmark_needs_placeholder_and_no_comment() {
    for page in [1usize, 17, 1000] {
        let n = Note::new(
            NoteHighlight::new("Bookmark".to_string()).unwrap(),
            None,
            Page::new(page).unwrap(),
        );
        assert!(n.is_bookmark());
        let with_comment = Note::new(
            NoteHighlight::new("Bookmark".to_string()).unwrap(),
            Some(NoteComment::new("c".to_string())),
            Page::new(page).unwrap(),
        );
        assert!(!with_comment.is_bookmark());
        let other = Note::new(
            NoteHighlight::new("bookmark".to_string()).unwrap(),
            None,
            Page::new(page).unwrap(),
        );
        assert!(!other.is_bookmark());
    }
}

#[test]
fn constructors_reject_invalid_values() {
    assert!(Page::new(0).is_none());
    assert!(NoteHighlight::new(String::new()).is_none());
    assert_eq!(Page::new(5).unwrap().value(), 5);
}

#[test]
fn error_messages_name_the_expectation() {
    assert_eq!(
        ExtractError::Malformed(Malformed::PageNotPositiveInteger).message(),
        "expected the page text to be a positive integer"
    );
    assert_eq!(
        ExtractError::Missing(Missing::PageBlock).message(),
        "expected an element with 'bm-page' class"
    );
}
