use transcript_search::filter::Value;
use transcript_search::plan::{IngestError, PlannedEpisode, PlannedLine, TranscriptFile};
use transcript_search::statement::{
    replies_with_id, write_statement, INSERT_LINE, UPSERT_EPISODE, UPSERT_SEASON, UPSERT_SPEAKER,
};
use transcript_search::upload::{ingest_upload, is_transcript_entry, select_transcripts};
use transcript_search::writer::{ingest, StoreReply, Writer, WriterAction, WriterStep};

fn said(speaker: Option<&str>, content: &str) -> PlannedLine {
    PlannedLine { speaker: speaker.map(|name| name.to_string()), content: content.to_string() }
}

fn planned(season: i32, number: i32, title: &str, lines: Vec<PlannedLine>) -> PlannedEpisode {
    PlannedEpisode { season_number: season, number, title: title.to_string(), lines }
}

fn entry(path: &str, text: &str) -> TranscriptFile {
    TranscriptFile { relative_path: path.to_string(), text: text.to_string() }
}

/// Runs the writer against scripted replies; gives the requests and the end.
fn play(first: WriterStep, replies: &[StoreReply]) -> (Vec<WriterAction>, Option<Result<(), IngestError>>) {
    let mut asked = Vec::new();
    let mut step = first;
    let mut next = 0;
    loop {
        match step {
            WriterStep::Done(result) => return (asked, Some(result)),
            WriterStep::Next(writer, action) => {
                asked.push(action);
                if next == replies.len() {
                    return (asked, None);
                }
                step = writer.step(replies[next]);
                next += 1;
            }
        }
    }
}

fn two_episode_plan() -> Vec<PlannedEpisode> {
    vec![
        planned(1, 1, "Pilot", vec![said(Some("JOHN"), "Hi"), said(None, "Just narration")]),
        planned(1, 2, "Second", vec![said(Some("JOHN"), "Bye")]),
    ]
}

#[test]
fn run_asks_for_everything_in_order_and_commits() {
    let replies = [
        StoreReply::Done,
        StoreReply::Id(10),
        StoreReply::Id(20),
        StoreReply::Id(30),
        StoreReply::Done,
        StoreReply::Done,
        StoreReply::Id(21),
        StoreReply::Id(30),
        StoreReply::Done,
        StoreReply::Done,
    ];
    let (asked, end) = play(Writer::start(two_episode_plan()), &replies);
    assert_eq!(
        asked,
        vec![
            WriterAction::Begin,
            WriterAction::UpsertSeason { number: 1 },
            WriterAction::UpsertEpisode { season_id: 10, number: 1, title: "Pilot".to_string() },
            WriterAction::UpsertSpeaker { name: "JOHN".to_string() },
            WriterAction::InsertLine {
                season_id: 10,
                episode_id: 20,
                speaker_id: Some(30),
                line_number: 1,
                content: "Hi".to_string(),
            },
            WriterAction::InsertLine {
                season_id: 10,
                episode_id: 20,
                speaker_id: None,
                line_number: 2,
                content: "Just narration".to_string(),
            },
            WriterAction::UpsertEpisode { season_id: 10, number: 2, title: "Second".to_string() },
            WriterAction::UpsertSpeaker { name: "JOHN".to_string() },
            WriterAction::InsertLine {
                season_id: 10,
                episode_id: 21,
                speaker_id: Some(30),
                line_number: 1,
                content: "Bye".to_string(),
            },
            WriterAction::Commit,
        ]
    );
    assert_eq!(end, Some(Ok(())));
}

#[test]
fn season_is_asked_for_again_when_it_changes() {
    let plan = vec![planned(1, 1, "a", vec![]), planned(2, 1, "b", vec![]), planned(2, 2, "c", vec![])];
    let replies = [
        StoreReply::Done,
        StoreReply::Id(1),
        StoreReply::Id(1),
        StoreReply::Id(2),
        StoreReply::Id(2),
        StoreReply::Id(3),
        StoreReply::Done,
    ];
    let (asked, end) = play(Writer::start(plan), &replies);
    assert_eq!(
        asked,
        vec![
            WriterAction::Begin,
            WriterAction::UpsertSeason { number: 1 },
            WriterAction::UpsertEpisode { season_id: 1, number: 1, title: "a".to_string() },
            WriterAction::UpsertSeason { number: 2 },
            WriterAction::UpsertEpisode { season_id: 2, number: 1, title: "b".to_string() },
            WriterAction::UpsertEpisode { season_id: 2, number: 2, title: "c".to_string() },
            WriterAction::Commit,
        ]
    );
    assert_eq!(end, Some(Ok(())));
}

#[test]
fn fault_on_a_line_rolls_back_and_reports_storage() {
    let replies = [
        StoreReply::Done,
        StoreReply::Id(10),
        StoreReply::Id(20),
        StoreReply::Id(30),
        StoreReply::Failed,
        StoreReply::Done,
    ];
    let (asked, end) = play(Writer::start(two_episode_plan()), &replies);
    assert_eq!(asked.len(), 6);
    assert_eq!(asked[5], WriterAction::Rollback);
    assert!(!asked.contains(&WriterAction::Commit));
    assert_eq!(end, Some(Err(IngestError::Storage)));
}

#[test]
fn fault_at_any_request_never_leads_to_a_commit() {
    let good = [
        StoreReply::Done,
        StoreReply::Id(10),
        StoreReply::Id(20),
        StoreReply::Id(30),
        StoreReply::Done,
        StoreReply::Done,
        StoreReply::Id(21),
        StoreReply::Id(30),
        StoreReply::Done,
    ];
    for at in 0..good.len() {
        let mut replies = good[..at].to_vec();
        replies.push(StoreReply::Failed);
        replies.push(StoreReply::Failed);
        let (asked, end) = play(Writer::start(two_episode_plan()), &replies);
        assert!(!asked.contains(&WriterAction::Commit), "fault at {}", at);
        assert_eq!(end, Some(Err(IngestError::Storage)), "fault at {}", at);
        if at == 0 {
            assert_eq!(asked, vec![WriterAction::Begin]);
        } else {
            assert_eq!(asked.len(), at + 2);
            assert_eq!(asked[at + 1], WriterAction::Rollback);
        }
    }
}

#[test]
fn failed_commit_reports_storage() {
    let plan = vec![planned(1, 1, "a", vec![])];
    let replies = [StoreReply::Done, StoreReply::Id(1), StoreReply::Id(1), StoreReply::Failed];
    let (asked, end) = play(Writer::start(plan), &replies);
    assert_eq!(asked.last(), Some(&WriterAction::Commit));
    assert_eq!(end, Some(Err(IngestError::Storage)));
}

#[test]
fn reply_of_another_kind_is_a_fault() {
    let plan = vec![planned(1, 1, "a", vec![said(None, "x")])];
    let replies = [StoreReply::Done, StoreReply::Done, StoreReply::Done];
    let (asked, end) = play(Writer::start(plan), &replies);
    assert_eq!(
        asked,
        vec![WriterAction::Begin, WriterAction::UpsertSeason { number: 1 }, WriterAction::Rollback]
    );
    assert_eq!(end, Some(Err(IngestError::Storage)));
}

#[test]
fn run_without_episodes_ends_before_it_begins() {
    let (asked, end) = play(Writer::start(Vec::new()), &[]);
    assert!(asked.is_empty());
    assert_eq!(end, Some(Err(IngestError::NoRecognizedFiles)));
}

#[test]
fn ingest_of_unrecognized_files_ends_before_it_begins() {
    let (asked, end) = play(ingest(&vec![entry("notes.txt", "x")]), &[]);
    assert!(asked.is_empty());
    assert_eq!(end, Some(Err(IngestError::NoRecognizedFiles)));
    let (asked, end) = play(ingest(&Vec::new()), &[]);
    assert!(asked.is_empty());
    assert_eq!(end, Some(Err(IngestError::NoRecognizedFiles)));
}

#[test]
fn ingest_plans_the_files_and_begins() {
    let files = vec![entry("2x01 - B.txt", "x"), entry("1x01 - A.txt", "JOHN: Hi")];
    let replies = [StoreReply::Done, StoreReply::Id(5)];
    let (asked, end) = play(ingest(&files), &replies);
    assert_eq!(
        asked,
        vec![
            WriterAction::Begin,
            WriterAction::UpsertSeason { number: 1 },
            WriterAction::UpsertEpisode { season_id: 5, number: 1, title: "A".to_string() },
        ]
    );
    assert_eq!(end, None);
}

#[test]
fn upload_without_entries_is_empty_input() {
    let (asked, end) = play(ingest_upload(&Vec::new()), &[]);
    assert!(asked.is_empty());
    assert_eq!(end, Some(Err(IngestError::EmptyInput)));
}

#[test]
fn upload_without_transcripts_is_no_recognized_files() {
    let entries = vec![entry("1x01 - Pilot.md", "x"), entry("cover.png", "")];
    let (asked, end) = play(ingest_upload(&entries), &[]);
    assert!(asked.is_empty());
    assert_eq!(end, Some(Err(IngestError::NoRecognizedFiles)));
}

#[test]
fn upload_ingests_its_transcripts_only() {
    let entries = vec![
        entry("1x02 - Skipped.md", "x"),
        entry("Season 1/", ""),
        entry("Season 1/e01 - Kept.txt", "A: b"),
    ];
    let replies = [StoreReply::Done, StoreReply::Id(1), StoreReply::Id(1), StoreReply::Id(1), StoreReply::Done];
    let (asked, end) = play(ingest_upload(&entries), &replies);
    assert_eq!(asked.len(), 6);
    assert_eq!(asked[2], WriterAction::UpsertEpisode { season_id: 1, number: 1, title: "Kept".to_string() });
    assert_eq!(asked[5], WriterAction::Commit);
    assert_eq!(end, None);
}

#[test]
fn transcripts_are_the_entries_that_end_in_txt() {
    assert!(is_transcript_entry("a.txt"));
    assert!(is_transcript_entry("dir/1x01 - Pilot.txt"));
    assert!(!is_transcript_entry("a.TXT"));
    assert!(!is_transcript_entry("a.txt.bak"));
    assert!(!is_transcript_entry("dir/"));
    assert!(!is_transcript_entry(""));
    let entries = vec![entry("a.txt", "1"), entry("b.md", "2"), entry("c/d.txt", "3")];
    assert_eq!(select_transcripts(&entries), vec![entry("a.txt", "1"), entry("c/d.txt", "3")]);
}

#[test]
fn requests_that_write_have_statements() {
    let season = write_statement(&WriterAction::UpsertSeason { number: 2 }).unwrap();
    assert_eq!(season.sql, UPSERT_SEASON);
    assert_eq!(season.parameters, vec![Value::Integer(2)]);
    let episode = write_statement(&WriterAction::UpsertEpisode {
        season_id: 10,
        number: 3,
        title: "Pilot".to_string(),
    })
    .unwrap();
    assert_eq!(episode.sql, UPSERT_EPISODE);
    assert_eq!(
        episode.parameters,
        vec![Value::Integer(10), Value::Integer(3), Value::Text("Pilot".to_string())]
    );
    let speaker = write_statement(&WriterAction::UpsertSpeaker { name: "JOHN".to_string() }).unwrap();
    assert_eq!(speaker.sql, UPSERT_SPEAKER);
    assert_eq!(speaker.parameters, vec![Value::Text("JOHN".to_string())]);
    let line = write_statement(&WriterAction::InsertLine {
        season_id: 10,
        episode_id: 20,
        speaker_id: Some(30),
        line_number: 4,
        content: "Hi".to_string(),
    })
    .unwrap();
    assert_eq!(line.sql, INSERT_LINE);
    assert_eq!(
        line.parameters,
        vec![
            Value::Integer(10),
            Value::Integer(20),
            Value::Integer(30),
            Value::Integer(4),
            Value::Text("Hi".to_string()),
        ]
    );
    let narration = write_statement(&WriterAction::InsertLine {
        season_id: 10,
        episode_id: 20,
        speaker_id: None,
        line_number: 5,
        content: "Just narration".to_string(),
    })
    .unwrap();
    assert_eq!(narration.parameters[2], Value::Null);
}

#[test]
fn write_statements_have_a_placeholder_for_each_value() {
    let actions = vec![
        WriterAction::UpsertSeason { number: 2 },
        WriterAction::UpsertEpisode { season_id: 1, number: 3, title: "?".to_string() },
        WriterAction::UpsertSpeaker { name: "who?".to_string() },
        WriterAction::InsertLine {
            season_id: 1,
            episode_id: 2,
            speaker_id: None,
            line_number: 1,
            content: "?".to_string(),
        },
    ];
    for action in &actions {
        let statement = write_statement(action).unwrap();
        let placeholders = statement.sql.chars().filter(|c| *c == '?').count();
        assert_eq!(placeholders, statement.parameters.len());
    }
}

#[test]
fn requests_about_the_transaction_have_no_statement() {
    assert_eq!(write_statement(&WriterAction::Begin), None);
    assert_eq!(write_statement(&WriterAction::Commit), None);
    assert_eq!(write_statement(&WriterAction::Rollback), None);
}

#[test]
fn upserts_reply_with_an_id() {
    assert!(replies_with_id(&WriterAction::UpsertSeason { number: 1 }));
    assert!(replies_with_id(&WriterAction::UpsertEpisode { season_id: 1, number: 1, title: String::new() }));
    assert!(replies_with_id(&WriterAction::UpsertSpeaker { name: String::new() }));
    assert!(!replies_with_id(&WriterAction::InsertLine {
        season_id: 1,
        episode_id: 1,
        speaker_id: None,
        line_number: 1,
        content: String::new(),
    }));
    assert!(!replies_with_id(&WriterAction::Begin));
    assert!(!replies_with_id(&WriterAction::Commit));
    assert!(!replies_with_id(&WriterAction::Rollback));
}
