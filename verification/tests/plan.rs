use transcript_search::plan::{
    is_input_error, is_not_after, parse_line, place, plan_file, plan_ingestion, plan_lines, split_path,
    IngestError, PlannedEpisode, PlannedLine, TranscriptFile,
};

fn plan_chars(text: &str) -> Vec<char> {
    text.chars().collect()
}

fn file(path: &str, text: &str) -> TranscriptFile {
    TranscriptFile { relative_path: path.to_string(), text: text.to_string() }
}

fn spoken(speaker: &str, content: &str) -> PlannedLine {
    PlannedLine { speaker: Some(speaker.to_string()), content: content.to_string() }
}

fn narrated(content: &str) -> PlannedLine {
    PlannedLine { speaker: None, content: content.to_string() }
}

fn episode(season: i32, number: i32, title: &str) -> PlannedEpisode {
    PlannedEpisode { season_number: season, number, title: title.to_string(), lines: Vec::new() }
}

fn keys(plan: &[PlannedEpisode]) -> Vec<(i32, i32, String)> {
    plan.iter().map(|e| (e.season_number, e.number, e.title.clone())).collect()
}

#[test]
fn line_without_prefix_has_no_speaker() {
    assert_eq!(parse_line(&plan_chars("Just narration")), narrated("Just narration"));
}

#[test]
fn line_with_prefix_names_its_speaker() {
    assert_eq!(parse_line(&plan_chars("JOHN: Hi")), spoken("JOHN", "Hi"));
    assert_eq!(parse_line(&plan_chars("  Mary Ann :  Good morning.  ")), spoken("Mary Ann", "Good morning."));
}

#[test]
fn line_is_split_at_its_first_colon_only() {
    assert_eq!(parse_line(&plan_chars("A: at 10:30: go")), spoken("A", "at 10:30: go"));
}

#[test]
fn line_with_empty_parts() {
    assert_eq!(parse_line(&plan_chars(": x")), spoken("", "x"));
    assert_eq!(parse_line(&plan_chars("JOHN:")), spoken("JOHN", ""));
    assert_eq!(parse_line(&plan_chars(":")), spoken("", ""));
    assert_eq!(parse_line(&plan_chars("")), narrated(""));
    assert_eq!(parse_line(&plan_chars("   ")), narrated(""));
}

#[test]
fn same_prefix_gives_same_speaker_name() {
    let hi = parse_line(&plan_chars("JOHN: Hi"));
    let bye = parse_line(&plan_chars("JOHN : Bye"));
    assert_eq!(hi.speaker, bye.speaker);
    assert_eq!(hi.speaker, Some("JOHN".to_string()));
}

#[test]
fn lines_of_a_text_in_file_order() {
    assert_eq!(
        plan_lines("JOHN: Hi\r\n\nJust narration\nMARY: Bye"),
        vec![spoken("JOHN", "Hi"), narrated(""), narrated("Just narration"), spoken("MARY", "Bye")]
    );
    assert_eq!(plan_lines(""), Vec::<PlannedLine>::new());
}

#[test]
fn path_splits_into_directory_and_file() {
    assert_eq!(
        split_path(&plan_chars("show/Season 3/e05 - Finale.txt")),
        (Some(plan_chars("Season 3")), plan_chars("e05 - Finale.txt"))
    );
    assert_eq!(split_path(&plan_chars("Season 3/a.txt")), (Some(plan_chars("Season 3")), plan_chars("a.txt")));
    assert_eq!(split_path(&plan_chars("a.txt")), (None, plan_chars("a.txt")));
    assert_eq!(split_path(&plan_chars("/a.txt")), (None, plan_chars("a.txt")));
    assert_eq!(split_path(&plan_chars("x//a.txt")), (None, plan_chars("a.txt")));
    assert_eq!(split_path(&plan_chars("dir/")), (Some(plan_chars("dir")), plan_chars("")));
    assert_eq!(split_path(&plan_chars("")), (None, plan_chars("")));
}

#[test]
fn file_is_planned_from_its_name_and_text() {
    assert_eq!(
        plan_file(&file("Season 3/e05 - Finale.txt", "JOHN: Hi\nJust narration\n")),
        Some(PlannedEpisode {
            season_number: 3,
            number: 5,
            title: "Finale".to_string(),
            lines: vec![spoken("JOHN", "Hi"), narrated("Just narration")],
        })
    );
    assert_eq!(plan_file(&file("Extras/e05 - Finale.txt", "JOHN: Hi")), None);
    assert_eq!(plan_file(&file("readme.txt", "x")), None);
}

#[test]
fn order_is_by_season_then_episode_then_title() {
    assert!(is_not_after(&episode(1, 9, "z"), &episode(2, 1, "a")));
    assert!(!is_not_after(&episode(2, 1, "a"), &episode(1, 9, "z")));
    assert!(is_not_after(&episode(1, 1, "z"), &episode(1, 2, "a")));
    assert!(!is_not_after(&episode(1, 2, "a"), &episode(1, 1, "z")));
    assert!(is_not_after(&episode(1, 1, "a"), &episode(1, 1, "b")));
    assert!(!is_not_after(&episode(1, 1, "b"), &episode(1, 1, "a")));
    assert!(is_not_after(&episode(1, 1, "a"), &episode(1, 1, "a")));
    assert!(is_not_after(&episode(-1, 5, ""), &episode(0, 0, "")));
}

#[test]
fn place_keeps_the_list_sorted() {
    let mut list = vec![episode(1, 1, "a"), episode(1, 3, "c"), episode(2, 1, "d")];
    place(&mut list, episode(1, 2, "b"));
    place(&mut list, episode(0, 7, "first"));
    place(&mut list, episode(2, 2, "last"));
    assert_eq!(
        keys(&list),
        vec![
            (0, 7, "first".to_string()),
            (1, 1, "a".to_string()),
            (1, 2, "b".to_string()),
            (1, 3, "c".to_string()),
            (2, 1, "d".to_string()),
            (2, 2, "last".to_string()),
        ]
    );
}

#[test]
fn place_puts_equals_behind_equals() {
    let mut first = episode(1, 1, "same");
    first.lines = vec![narrated("first")];
    let mut second = episode(1, 1, "same");
    second.lines = vec![narrated("second")];
    let mut list = vec![first.clone()];
    place(&mut list, second.clone());
    assert_eq!(list, vec![first, second]);
}

#[test]
fn plan_sorts_the_recognized_files() {
    let files = vec![
        file("2x01 - Return.txt", "A: back"),
        file("notes.txt", "ignored"),
        file("Season 1/e02 - Second.txt", "B: two"),
        file("s01e01 - First.txt", "C: one"),
        file("1x02 - Again.txt", "D: again"),
    ];
    let plan = plan_ingestion(&files).unwrap();
    assert_eq!(
        keys(&plan),
        vec![
            (1, 1, "First".to_string()),
            (1, 2, "Again".to_string()),
            (1, 2, "Second".to_string()),
            (2, 1, "Return".to_string()),
        ]
    );
    assert_eq!(plan[0].lines, vec![spoken("C", "one")]);
    assert_eq!(plan[3].lines, vec![spoken("A", "back")]);
}

#[test]
fn plan_does_not_depend_on_the_order_of_distinct_files() {
    let forward = vec![file("1x01 - A.txt", "a"), file("1x02 - B.txt", "b"), file("2x01 - C.txt", "c")];
    let backward = vec![file("2x01 - C.txt", "c"), file("1x02 - B.txt", "b"), file("1x01 - A.txt", "a")];
    assert_eq!(plan_ingestion(&forward), plan_ingestion(&backward));
}

#[test]
fn plan_keeps_files_of_one_identity_in_their_order() {
    let files = vec![file("a/1x01 - Pilot.txt", "first"), file("b/1x01 - Pilot.txt", "second")];
    let plan = plan_ingestion(&files).unwrap();
    assert_eq!(plan.len(), 2);
    assert_eq!(plan[0].lines, vec![narrated("first")]);
    assert_eq!(plan[1].lines, vec![narrated("second")]);
}

#[test]
fn plan_of_nothing_is_no_recognized_files() {
    assert_eq!(plan_ingestion(&Vec::new()), Err(IngestError::NoRecognizedFiles));
}

#[test]
fn plan_of_unrecognized_files_is_no_recognized_files() {
    let files = vec![file("notes.txt", "x"), file("Extras/e01 - Lost.txt", "y")];
    assert_eq!(plan_ingestion(&files), Err(IngestError::NoRecognizedFiles));
}

#[test]
fn input_errors_are_those_that_reject_the_upload() {
    assert!(is_input_error(IngestError::EmptyInput));
    assert!(is_input_error(IngestError::NoRecognizedFiles));
    assert!(!is_input_error(IngestError::Storage));
}
