use transcript_search::filter::{
    compose_random, compose_search, compose_transcript, escape_fts5_query, keeps, phrase_term,
    Column, Condition, Operator, Predicate, Value,
};
use transcript_search::models::{RandomLineQuery, SearchPhrasesQuery};

fn search(
    phrase: Option<&str>,
    season: Option<i64>,
    episode: Option<i64>,
    speaker: Option<i64>,
    similar_search: Option<bool>,
) -> SearchPhrasesQuery {
    SearchPhrasesQuery {
        phrase: phrase.map(|text| text.to_string()),
        season,
        episode,
        speaker,
        similar_search,
    }
}

fn equals(column: Column, number: i64) -> Condition {
    Condition { column, operator: Operator::Equals, value: Value::Integer(number) }
}

fn matches_text(term: &str) -> Condition {
    Condition {
        column: Column::Content,
        operator: Operator::Matches,
        value: Value::Text(term.to_string()),
    }
}

#[test]
fn kept_characters_are_letters_digits_and_whitespace() {
    for code in 0..=0x10FFFFu32 {
        if let Some(c) = char::from_u32(code) {
            assert_eq!(keeps(c), c.is_alphanumeric() || c.is_whitespace(), "code point {:x}", code);
        }
    }
}

#[test]
fn escape_replaces_punctuation_with_spaces() {
    assert_eq!(escape_fts5_query("hello, world!"), "hello  world ");
    assert_eq!(escape_fts5_query("\"quoted\" OR x*"), " quoted  OR x ");
    assert_eq!(escape_fts5_query("a-b_c:d(e)"), "a b c d e ");
    assert_eq!(escape_fts5_query("tab\there\nnow"), "tab\there\nnow");
    assert_eq!(escape_fts5_query("caf\u{e9} \u{4e16}\u{754c} \u{663}"), "caf\u{e9} \u{4e16}\u{754c} \u{663}");
    assert_eq!(escape_fts5_query(""), "");
}

#[test]
fn escape_keeps_the_length_and_settles_at_once() {
    for text in ["a\"b", "NEAR(a b, 2)", "x^2 + y", "plain words", "\u{1F600}!"] {
        let once = escape_fts5_query(text);
        assert_eq!(once.chars().count(), text.chars().count());
        assert_eq!(escape_fts5_query(&once), once);
        assert!(once.chars().all(|c| c.is_alphanumeric() || c.is_whitespace()));
    }
}

#[test]
fn phrase_as_a_whole_is_quoted() {
    assert_eq!(phrase_term("good morning", true), "\"good morning\"");
    assert_eq!(phrase_term("say \"hi\"", true), "\"say  hi \"");
    assert_eq!(phrase_term("", true), "\"\"");
}

#[test]
fn phrase_by_words_is_the_sanitized_phrase() {
    assert_eq!(phrase_term("good morning", false), "good morning");
    assert_eq!(phrase_term("a*b", false), "a b");
    assert_eq!(phrase_term("MATCH x", false), "MATCH x");
    assert_eq!(phrase_term("", false), "");
}

#[test]
fn search_with_every_field() {
    let predicate = compose_search(&search(Some("hi there"), Some(2), Some(7), Some(3), Some(true)));
    assert_eq!(
        predicate.conditions,
        vec![
            matches_text("\"hi there\""),
            equals(Column::SeasonNumber, 2),
            equals(Column::EpisodeId, 7),
            equals(Column::SpeakerId, 3),
        ]
    );
}

#[test]
fn search_leaves_absent_fields_out() {
    assert_eq!(compose_search(&search(None, None, None, None, None)).conditions, Vec::new());
    assert_eq!(
        compose_search(&search(None, None, Some(7), None, Some(true))).conditions,
        vec![equals(Column::EpisodeId, 7)]
    );
    assert_eq!(
        compose_search(&search(Some("x"), None, None, Some(0), None)).conditions,
        vec![matches_text("x"), equals(Column::SpeakerId, 0)]
    );
}

#[test]
fn search_is_by_words_unless_asked_otherwise() {
    assert_eq!(
        compose_search(&search(Some("a b"), None, None, None, None)).conditions,
        vec![matches_text("a b")]
    );
    assert_eq!(
        compose_search(&search(Some("a b"), None, None, None, Some(false))).conditions,
        vec![matches_text("a b")]
    );
    assert_eq!(
        compose_search(&search(Some("a b"), None, None, None, Some(true))).conditions,
        vec![matches_text("\"a b\"")]
    );
}

#[test]
fn search_binds_the_phrase_and_never_writes_it() {
    let predicate = compose_search(&search(Some("x\"; DROP TABLE lines; --"), None, None, None, Some(true)));
    assert_eq!(predicate.conditions, vec![matches_text("\"x   DROP TABLE lines    \"")]);
}

#[test]
fn random_line_fields() {
    let all = RandomLineQuery { season: Some(1), episode: Some(2), speaker: Some(3) };
    assert_eq!(
        compose_random(&all).conditions,
        vec![equals(Column::SeasonNumber, 1), equals(Column::EpisodeId, 2), equals(Column::SpeakerId, 3)]
    );
    let none = RandomLineQuery { season: None, episode: None, speaker: None };
    assert_eq!(compose_random(&none).conditions, Vec::new());
    let one = RandomLineQuery { season: None, episode: None, speaker: Some(-4) };
    assert_eq!(compose_random(&one).conditions, vec![equals(Column::SpeakerId, -4)]);
}

#[test]
fn transcript_fields() {
    assert_eq!(
        compose_transcript(3, 12).conditions,
        vec![equals(Column::SeasonNumber, 3), equals(Column::EpisodeNumber, 12)]
    );
}

#[test]
fn predicate_grows_by_present_fields() {
    let mut predicate = Predicate::new();
    assert!(predicate.conditions.is_empty());
    predicate.and_equals(Column::EpisodeId, None);
    predicate.and_matches(&None, true);
    assert!(predicate.conditions.is_empty());
    predicate.and_equals(Column::EpisodeId, Some(5));
    predicate.and_matches(&Some("hey".to_string()), false);
    assert_eq!(predicate.conditions, vec![equals(Column::EpisodeId, 5), matches_text("hey")]);
}
