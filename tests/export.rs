use pocketbook_notes::export::{readwise_highlights, HighlightCategory, HighlightLocationType, SOURCE_TYPE};
use pocketbook_notes::parse::PocketBookNotesExport;

fn doc(notes: &str) -> String {
    format!(
        "<html><body><div class=\"bookmark\"><h1>2021-01-01 - Building a Second Brain</h1></div>\
         <div class=\"bookmark\"><span>Tiago Forte</span></div>{}</body></html>",
        notes
    )
}

fn note(text: &str, page: &str, comment: Option<&str>) -> String {
    let c = comment
        .map(|c| format!("<div class=\"bm-note\"><p>{}</p></div>", c))
        .unwrap_or_default();
    format!(
        "<div class=\"bookmark\"><div class=\"bm-text\"><p>{}</p></div><div class=\"bm-page\">{}</div>{}</div>",
        text, page, c
    )
}

#[test]
fn bookmark_is_absent_from_records() {
    let export = PocketBookNotesExport::from_str(&doc(&note("Bookmark", "17", None))).unwrap();
    assert!(export.notes[0].is_bookmark());
    assert!(readwise_highlights(&export).is_empty());
}

#[test]
fn records_follow_non_bookmark_notes() {
    let body = note("one", "1", None) + &note("Bookmark", "2", None) + &note("three", "3", Some("mine"));
    let export = PocketBookNotesExport::from_str(&doc(&body)).unwrap();
    let records = readwise_highlights(&export);
    assert_eq!(records.len(), 2);
    assert_eq!(records[0].text, "one");
    assert_eq!(records[0].location, Some(1));
    assert_eq!(records[0].note, None);
    assert_eq!(records[1].text, "three");
    assert_eq!(records[1].note.as_deref(), Some("mine"));
    assert_eq!(records[1].location, Some(3));
    for r in &records {
        assert_eq!(r.title.as_deref(), Some("Building a Second Brain"));
        assert_eq!(r.author.as_deref(), Some("Tiago Forte"));
        assert_eq!(r.source_type.as_deref(), Some(SOURCE_TYPE));
        assert_eq!(r.category, Some(HighlightCategory::Books));
        assert_eq!(r.location_type, Some(HighlightLocationType::Page));
        assert_eq!(r.highlighted_at, None);
    }
}

#[test]
fn source_tag_is_fixed() {
    assert_eq!(SOURCE_TYPE, "PocketBookImporter-rs-arkus7");
}

#[test]
fn bookmark_with_comment_is_exported() {
    let export = PocketBookNotesExport::from_str(&doc(&note("Bookmark", "4", Some("see"))) ).unwrap();
    let records = readwise_highlights(&export);
    assert_eq!(records.len(), 1);
    assert_eq!(records[0].text, "Bookmark");
}
