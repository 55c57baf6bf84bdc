use transcript_search::context::{context_statement, context_window, window_bounds};
use transcript_search::filter::{Column, Condition, Operator, Predicate, Value};
use transcript_search::models::{Line, RandomLineQuery, SearchPhrasesQuery};
use transcript_search::statement::{
    bound_values, build_statement, copy_value, random_line_statement, search_statement,
    transcript_statement, where_clause, IN_READING_ORDER, ONE_AT_RANDOM, SELECT_INDEXED_LINES,
    SELECT_LINES,
};

fn condition(column: Column, operator: Operator, value: Value) -> Condition {
    Condition { column, operator, value }
}

fn line(id: i64, episode_id: i64, line_number: i32) -> Line {
    Line {
        id,
        season_id: 1,
        episode_id,
        speaker_id: None,
        speaker_name: None,
        line_number,
        content: format!("line {}", line_number),
    }
}

fn placeholders(sql: &str) -> usize {
    sql.chars().filter(|c| *c == '?').count()
}

#[test]
fn clause_of_no_condition_is_empty() {
    assert_eq!(where_clause(&Predicate::new()), "");
}

#[test]
fn clause_of_one_condition() {
    let predicate = Predicate {
        conditions: vec![condition(Column::SeasonNumber, Operator::Equals, Value::Integer(2))],
    };
    assert_eq!(where_clause(&predicate), " WHERE sn.number = ?");
}

#[test]
fn clause_joins_conditions_with_and() {
    let predicate = Predicate {
        conditions: vec![
            condition(Column::Content, Operator::Matches, Value::Text("\"hi\"".to_string())),
            condition(Column::SeasonNumber, Operator::Equals, Value::Integer(2)),
            condition(Column::EpisodeNumber, Operator::Equals, Value::Integer(4)),
            condition(Column::EpisodeId, Operator::Equals, Value::Integer(7)),
            condition(Column::SpeakerId, Operator::Equals, Value::Integer(3)),
            condition(Column::LineNumber, Operator::AtLeast, Value::Integer(1)),
            condition(Column::LineNumber, Operator::AtMost, Value::Integer(5)),
        ],
    };
    assert_eq!(
        where_clause(&predicate),
        " WHERE fts.content MATCH ? AND sn.number = ? AND e.number = ? AND e.id = ? AND l.speaker_id = ? AND l.line_number >= ? AND l.line_number <= ?"
    );
    assert_eq!(placeholders(&where_clause(&predicate)), predicate.conditions.len());
}

#[test]
fn clause_does_not_depend_on_the_values() {
    let harmless = Predicate {
        conditions: vec![condition(Column::Content, Operator::Matches, Value::Text("a".to_string()))],
    };
    let hostile = Predicate {
        conditions: vec![condition(
            Column::Content,
            Operator::Matches,
            Value::Text("' OR 1=1; -- ?".to_string()),
        )],
    };
    assert_eq!(where_clause(&harmless), where_clause(&hostile));
    assert_eq!(where_clause(&hostile), " WHERE fts.content MATCH ?");
}

#[test]
fn values_come_in_the_order_of_the_conditions() {
    let predicate = Predicate {
        conditions: vec![
            condition(Column::Content, Operator::Matches, Value::Text("t".to_string())),
            condition(Column::SpeakerId, Operator::Equals, Value::Integer(3)),
        ],
    };
    assert_eq!(bound_values(&predicate), vec![Value::Text("t".to_string()), Value::Integer(3)]);
    assert_eq!(copy_value(&Value::Text("x".to_string())), Value::Text("x".to_string()));
    assert_eq!(copy_value(&Value::Integer(-1)), Value::Integer(-1));
}

#[test]
fn statement_is_head_clause_and_tail() {
    let predicate = Predicate {
        conditions: vec![condition(Column::EpisodeId, Operator::Equals, Value::Integer(9))],
    };
    let statement = build_statement("SELECT 1 FROM t", &predicate, " LIMIT 1");
    assert_eq!(statement.sql, "SELECT 1 FROM t WHERE e.id = ? LIMIT 1");
    assert_eq!(statement.parameters, vec![Value::Integer(9)]);
}

#[test]
fn search_statement_is_ordered_for_reading() {
    let query = SearchPhrasesQuery {
        phrase: Some("hi".to_string()),
        season: Some(2),
        episode: None,
        speaker: Some(3),
        similar_search: Some(true),
    };
    let statement = search_statement(&query);
    assert_eq!(
        statement.sql,
        format!(
            "{} WHERE fts.content MATCH ? AND sn.number = ? AND l.speaker_id = ?{}",
            SELECT_INDEXED_LINES, IN_READING_ORDER
        )
    );
    assert!(statement.sql.ends_with(" ORDER BY sn.number ASC, e.number ASC, l.line_number ASC"));
    assert_eq!(
        statement.parameters,
        vec![Value::Text("\"hi\"".to_string()), Value::Integer(2), Value::Integer(3)]
    );
    assert_eq!(placeholders(&statement.sql), statement.parameters.len());
}

#[test]
fn search_statement_without_fields_has_no_clause() {
    let query =
        SearchPhrasesQuery { phrase: None, season: None, episode: None, speaker: None, similar_search: None };
    let statement = search_statement(&query);
    assert_eq!(statement.sql, format!("{}{}", SELECT_INDEXED_LINES, IN_READING_ORDER));
    assert!(statement.parameters.is_empty());
}

#[test]
fn random_line_statement_picks_one() {
    let statement = random_line_statement(&RandomLineQuery { season: None, episode: Some(4), speaker: None });
    assert_eq!(statement.sql, format!("{} WHERE e.id = ?{}", SELECT_LINES, ONE_AT_RANDOM));
    assert!(statement.sql.ends_with(" ORDER BY RANDOM() LIMIT 1"));
    assert_eq!(statement.parameters, vec![Value::Integer(4)]);
    let any = random_line_statement(&RandomLineQuery { season: None, episode: None, speaker: None });
    assert_eq!(any.sql, format!("{}{}", SELECT_LINES, ONE_AT_RANDOM));
}

#[test]
fn transcript_statement_is_by_numbers() {
    let statement = transcript_statement(3, 12);
    assert_eq!(
        statement.sql,
        format!("{} WHERE sn.number = ? AND e.number = ?{}", SELECT_LINES, IN_READING_ORDER)
    );
    assert_eq!(statement.parameters, vec![Value::Integer(3), Value::Integer(12)]);
}

#[test]
fn window_of_line_four_is_two_to_six() {
    assert_eq!(window_bounds(4), (2, 6));
    let episode: Vec<Line> = (1..=6).map(|n| line(n as i64, 1, n)).collect();
    let window = context_window(&episode, &episode[3]);
    let numbers: Vec<i32> = window.iter().map(|l| l.line_number).collect();
    assert_eq!(numbers, vec![2, 3, 4, 5, 6]);
    assert_eq!(window[2], episode[3]);
}

#[test]
fn window_is_clamped_at_line_one() {
    assert_eq!(window_bounds(1), (1, 3));
    assert_eq!(window_bounds(2), (1, 4));
    assert_eq!(window_bounds(3), (1, 5));
    assert_eq!(window_bounds(0), (1, 2));
    assert_eq!(window_bounds(-7), (1, -5));
    assert_eq!(window_bounds(i32::MIN), (1, i32::MIN + 2));
    let episode: Vec<Line> = (0..=6).map(|n| line(n as i64, 1, n)).collect();
    let numbers: Vec<i32> = context_window(&episode, &episode[1]).iter().map(|l| l.line_number).collect();
    assert_eq!(numbers, vec![1, 2, 3]);
}

#[test]
fn window_is_clamped_at_the_last_line_number() {
    assert_eq!(window_bounds(i32::MAX), (i32::MAX - 2, i32::MAX));
    assert_eq!(window_bounds(i32::MAX - 1), (i32::MAX - 3, i32::MAX));
    assert_eq!(window_bounds(i32::MAX - 2), (i32::MAX - 4, i32::MAX));
}

#[test]
fn window_holds_lines_of_the_same_episode_only() {
    let lines = vec![line(1, 1, 3), line(2, 2, 4), line(3, 1, 4), line(4, 2, 5), line(5, 1, 9)];
    let window = context_window(&lines, &lines[2]);
    assert_eq!(window, vec![lines[0].clone(), lines[2].clone()]);
    assert!(context_window(&Vec::new(), &lines[2]).is_empty());
}

#[test]
fn context_statement_selects_the_window() {
    let statement = context_statement(&line(40, 9, 4));
    assert_eq!(
        statement.sql,
        format!(
            "{} WHERE e.id = ? AND l.line_number >= ? AND l.line_number <= ?{}",
            SELECT_LINES, IN_READING_ORDER
        )
    );
    assert_eq!(statement.parameters, vec![Value::Integer(9), Value::Integer(2), Value::Integer(6)]);
    let first = context_statement(&line(1, 9, 1));
    assert_eq!(first.parameters, vec![Value::Integer(9), Value::Integer(1), Value::Integer(3)]);
}

#[test]
fn values_may_be_null() {
    assert_eq!(copy_value(&Value::Null), Value::Null);
}
