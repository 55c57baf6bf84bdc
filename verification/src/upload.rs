//! From the entries of an uploaded archive to an ingestion run.

use crate::plan::{file_views, ingestion_plan, IngestError, TranscriptFile, TranscriptFileView};
use crate::text::{ends_with, has_suffix, to_chars};
use crate::writer::{ingest, WriterActionView, WriterStep, WriterStepView, WriterView};
use vstd::prelude::*;

verus! {

/// What the name of a transcript ends with.
pub const TRANSCRIPT_SUFFIX: &'static str = ".txt";

/// Whether an archive entry of this name is a transcript.
pub open spec fn is_transcript_name(name: Seq<char>) -> bool {
    has_suffix(name, TRANSCRIPT_SUFFIX@)
}

/// Whether an archive entry of this name is a transcript.
pub fn is_transcript_entry(name: &str) -> (r: bool)
    ensures
        r == is_transcript_name(name@),
{
    ends_with(&to_chars(name), &to_chars(TRANSCRIPT_SUFFIX))
}

/// The entries of `entries` that are transcripts, in their order.
pub open spec fn transcripts_of(entries: Seq<TranscriptFileView>) -> Seq<TranscriptFileView> {
    entries.filter(|entry: TranscriptFileView| is_transcript_name(entry.relative_path))
}

/// Picks the transcripts out of the entries of an archive.
pub fn select_transcripts(entries: &Vec<TranscriptFile>) -> (r: Vec<TranscriptFile>)
    ensures
        file_views(r@) == transcripts_of(file_views(entries@)),
{
    let ghost all = file_views(entries@);
    let ghost wanted = |entry: TranscriptFileView| is_transcript_name(entry.relative_path);
    let mut out: Vec<TranscriptFile> = Vec::new();
    let mut i: usize = 0;
    proof {
        reveal(Seq::filter);
        assert(all.take(0) =~= Seq::empty());
        assert(file_views(out@) =~= all.take(0).filter(wanted));
    }
    while i < entries.len()
        invariant
            i <= entries.len(),
            all == file_views(entries@),
            wanted == |entry: TranscriptFileView| is_transcript_name(entry.relative_path),
            file_views(out@) == all.take(i as int).filter(wanted),
        decreases entries.len() - i,
    {
        proof {
            reveal(Seq::filter);
            assert(all.take(i + 1).drop_last() == all.take(i as int));
            assert(all.take(i + 1).last() == entries[i as int]@);
        }
        let entry = &entries[i];
        if is_transcript_entry(entry.relative_path.as_str()) {
            let ghost before = file_views(out@);
            let copy = TranscriptFile {
                relative_path: entry.relative_path.clone(),
                text: entry.text.clone(),
            };
            out.push(copy);
            assert(file_views(out@) =~= before.push(entry@));
        }
        i += 1;
    }
    assert(all.take(entries.len() as int) == all);
    out
}

/// How the ingestion of an archive starts: `EmptyInput` for an archive without
/// entries; `NoRecognizedFiles` where none of its transcripts has a name that
/// gives a season and an episode; else the run that writes them.
pub open spec fn upload_start(entries: Seq<TranscriptFileView>) -> WriterStepView {
    if entries.len() == 0 {
        WriterStepView::Done(Err(IngestError::EmptyInput))
    } else {
        match ingestion_plan(transcripts_of(entries)) {
            Ok(episodes) => WriterStepView::Next(
                WriterView::initial(episodes),
                WriterActionView::Begin,
            ),
            Err(error) => WriterStepView::Done(Err(error)),
        }
    }
}

/// Starts the ingestion of the entries of an archive.
pub fn ingest_upload(entries: &Vec<TranscriptFile>) -> (r: WriterStep)
    ensures
        r@ == upload_start(file_views(entries@)),
{
    if entries.len() == 0 {
        WriterStep::Done(Err(IngestError::EmptyInput))
    } else {
        ingest(&select_transcripts(entries))
    }
}

} // verus!
