//! Projection of an export's notes into highlight records for another tool's import
//! format. Bare bookmarks are left out.
use vstd::prelude::*;

use crate::parse::{is_bookmark_model, ExportModel, NoteModel, PocketBookNotesExport};

verus! {

/// The tag that marks records as coming from this importer.
pub const SOURCE_TYPE: &'static str = "PocketBookImporter-rs-arkus7";

/// The kind of source a highlight comes from; books are the only kind produced.
#[derive(Clone, Copy, Debug, PartialEq, Eq, Structural)]
pub enum HighlightCategory {
    Books,
}

/// How a highlight's location is counted; pages are the only kind produced.
#[derive(Clone, Copy, Debug, PartialEq, Eq, Structural)]
pub enum HighlightLocationType {
    Page,
}

/// One highlight record in the import format. Absent optional fields are left out
/// when the record is written.
pub struct ReadwiseBookHighlight {
    pub text: String,
    pub title: Option<String>,
    pub author: Option<String>,
    pub source_type: Option<String>,
    pub category: Option<HighlightCategory>,
    pub note: Option<String>,
    pub location: Option<usize>,
    pub location_type: Option<HighlightLocationType>,
    pub highlighted_at: Option<String>,
}

/// The mathematical model of a highlight record.
pub struct HighlightModel {
    pub text: Seq<char>,
    pub title: Option<Seq<char>>,
    pub author: Option<Seq<char>>,
    pub source_type: Option<Seq<char>>,
    pub category: Option<HighlightCategory>,
    pub note: Option<Seq<char>>,
    pub location: Option<nat>,
    pub location_type: Option<HighlightLocationType>,
    pub highlighted_at: Option<Seq<char>>,
}

pub open spec fn opt_view(o: Option<String>) -> Option<Seq<char>> {
    match o {
        Some(s) => Some(s@),
        None => None,
    }
}

impl View for ReadwiseBookHighlight {
    type V = HighlightModel;

    open spec fn view(&self) -> HighlightModel {
        HighlightModel {
            text: self.text@,
            title: opt_view(self.title),
            author: opt_view(self.author),
            source_type: opt_view(self.source_type),
            category: self.category,
            note: opt_view(self.note),
            location: match self.location {
                Some(l) => Some(l as nat),
                None => None,
            },
            location_type: self.location_type,
            highlighted_at: opt_view(self.highlighted_at),
        }
    }
}

/// The notes that are not bare bookmarks, in their order.
pub open spec fn kept_notes(notes: Seq<NoteModel>) -> Seq<NoteModel>
    decreases notes.len(),
{
    if notes.len() == 0 {
        Seq::empty()
    } else {
        let rest = kept_notes(notes.drop_last());
        if is_bookmark_model(notes.last()) { rest } else { rest.push(notes.last()) }
    }
}

/// The record for note `n` of export `e`. The export date is not carried over:
/// `highlighted_at` stays absent.
pub open spec fn record_of(e: ExportModel, n: NoteModel) -> HighlightModel {
    HighlightModel {
        text: n.highlight,
        title: Some(e.title),
        author: Some(e.author),
        source_type: Some(SOURCE_TYPE@),
        category: Some(HighlightCategory::Books),
        note: n.comment,
        location: Some(n.page),
        location_type: Some(HighlightLocationType::Page),
        highlighted_at: None,
    }
}

/// The records for export `e`: one per note that is not a bare bookmark, in order.
pub open spec fn records_of(e: ExportModel) -> Seq<HighlightModel> {
    kept_notes(e.notes).map_values(|n: NoteModel| record_of(e, n))
}

/// The highlight records for every note of `export` that is not a bare bookmark.
pub fn readwise_highlights(export: &PocketBookNotesExport) -> (r: Vec<ReadwiseBookHighlight>)
    ensures
        r@.map_values(|h: ReadwiseBookHighlight| h@) == records_of(export@),
{
    let ghost e = export@;
    let mut out: Vec<ReadwiseBookHighlight> = Vec::new();
    let mut i: usize = 0;
    while i < export.notes.len()
        invariant
            i <= export.notes@.len(),
            e == export@,
            out@.map_values(|h: ReadwiseBookHighlight| h@)
                == kept_notes(e.notes.subrange(0, i as int)).map_values(|n: NoteModel| record_of(e, n)),
        decreases export.notes.len() - i,
    {
        let note = &export.notes[i];
        let ghost before = out@;
        assert(e.notes.subrange(0, i + 1).drop_last() =~= e.notes.subrange(0, i as int));
        assert(e.notes.subrange(0, i + 1).last() == note@);
        if !note.is_bookmark() {
            let record = ReadwiseBookHighlight {
                text: note.highlight.as_str().to_owned(),
                title: Some(export.book.title.as_str().to_owned()),
                author: Some(export.book.author.as_str().to_owned()),
                source_type: Some(SOURCE_TYPE.to_owned()),
                category: Some(HighlightCategory::Books),
                note: match &note.comment {
                    Some(c) => Some(c.as_str().to_owned()),
                    None => None,
                },
                location: Some(note.page.value()),
                location_type: Some(HighlightLocationType::Page),
                highlighted_at: None,
            };
            out.push(record);
            assert(record@ == record_of(e, note@));
            assert(out@.map_values(|h: ReadwiseBookHighlight| h@)
                =~= before.map_values(|h: ReadwiseBookHighlight| h@).push(record_of(e, note@)));
        }
        i += 1;
    }
    assert(e.notes.subrange(0, i as int) =~= e.notes);
    out
}


/// Every note that `kept_notes` keeps is a note of the input that is not a bare
/// bookmark.
proof fn lemma_kept_are_content(notes: Seq<NoteModel>)
    ensures
        forall|j: int| 0 <= j < kept_notes(notes).len() ==> exists|i: int|
            0 <= i < notes.len() && #[trigger] kept_notes(notes)[j] == notes[i]
                && !is_bookmark_model(notes[i]),
    decreases notes.len(),
{
    if notes.len() > 0 {
        let init = notes.drop_last();
        lemma_kept_are_content(init);
        assert forall|j: int| 0 <= j < kept_notes(notes).len() implies exists|i: int|
            0 <= i < notes.len() && #[trigger] kept_notes(notes)[j] == notes[i]
                && !is_bookmark_model(notes[i]) by {
            if j < kept_notes(init).len() {
                let i = choose|i: int| 0 <= i < init.len() && kept_notes(init)[j] == init[i]
                    && !is_bookmark_model(init[i]);
                assert(notes[i] == init[i]);
            } else {
                assert(notes[notes.len() - 1] == notes.last());
            }
        }
    }
}

/// The export projection never includes a bare bookmark: each record is the record of
/// a note of the export that is not a bare bookmark.
pub proof fn lemma_bookmarks_never_exported(e: ExportModel)
    ensures
        forall|j: int| 0 <= j < records_of(e).len() ==> exists|i: int|
            0 <= i < e.notes.len() && #[trigger] records_of(e)[j] == record_of(e, e.notes[i])
                && !is_bookmark_model(e.notes[i]),
{
    lemma_kept_are_content(e.notes);
    assert forall|j: int| 0 <= j < records_of(e).len() implies exists|i: int|
        0 <= i < e.notes.len() && #[trigger] records_of(e)[j] == record_of(e, e.notes[i])
            && !is_bookmark_model(e.notes[i]) by {
        let i = choose|i: int| 0 <= i < e.notes.len() && kept_notes(e.notes)[j] == e.notes[i]
            && !is_bookmark_model(e.notes[i]);
        assert(records_of(e)[j] == record_of(e, kept_notes(e.notes)[j]));
    }
}

} // verus!
