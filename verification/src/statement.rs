//! The text of the statements that the store is asked to run, with a
//! placeholder where a value goes, and the values to bind beside it: the
//! statements that select lines under a predicate, those that write what an
//! ingestion run asks for, and those that list and count.

use crate::filter::{
    compose_random, compose_search, compose_transcript, random_predicate, search_predicate,
    transcript_predicate, value_views, Column, ConditionView, Operator, Predicate, Value,
    ValueView,
};
use crate::models::{RandomLineQuery, SearchPhrasesQuery};
use crate::writer::{WriterAction, WriterActionView};
use vstd::prelude::*;
use vstd::string::*;

verus! {

/// Selects lines, each with the name of its speaker.
pub const SELECT_LINES: &'static str =
    "SELECT l.id, l.season_id, l.episode_id, l.speaker_id, s.name AS speaker_name, l.line_number, l.content FROM lines l LEFT JOIN speakers s ON l.speaker_id = s.id JOIN episodes e ON l.episode_id = e.id JOIN seasons sn ON e.season_id = sn.id";

/// Selects lines through the full-text index, each with the name of its
/// speaker.
pub const SELECT_INDEXED_LINES: &'static str =
    "SELECT l.id, l.season_id, l.episode_id, l.speaker_id, s.name AS speaker_name, l.line_number, l.content FROM lines l JOIN lines_fts fts ON l.id = fts.rowid LEFT JOIN speakers s ON l.speaker_id = s.id JOIN episodes e ON l.episode_id = e.id JOIN seasons sn ON e.season_id = sn.id";

/// Orders lines by season number, episode number and line number.
pub const IN_READING_ORDER: &'static str =
    " ORDER BY sn.number ASC, e.number ASC, l.line_number ASC";

/// Keeps one line, picked at random.
pub const ONE_AT_RANDOM: &'static str = " ORDER BY RANDOM() LIMIT 1";

/// How a statement names a column.
pub open spec fn column_sql(column: Column) -> Seq<char> {
    match column {
        Column::Content => "fts.content"@,
        Column::SeasonNumber => "sn.number"@,
        Column::EpisodeNumber => "e.number"@,
        Column::EpisodeId => "e.id"@,
        Column::SpeakerId => "l.speaker_id"@,
        Column::LineNumber => "l.line_number"@,
    }
}

/// How a statement writes an operator, with the placeholder behind it.
pub open spec fn operator_sql(operator: Operator) -> Seq<char> {
    match operator {
        Operator::Matches => " MATCH ?"@,
        Operator::Equals => " = ?"@,
        Operator::AtLeast => " >= ?"@,
        Operator::AtMost => " <= ?"@,
    }
}

/// The text of one condition: its column, its operator, and a placeholder.
pub open spec fn condition_sql(condition: ConditionView) -> Seq<char> {
    column_sql(condition.column) + operator_sql(condition.operator)
}

/// The texts of the conditions, ` AND ` between them.
pub open spec fn conjunction_sql(predicate: Seq<ConditionView>) -> Seq<char>
    decreases predicate.len(),
{
    if predicate.len() == 0 {
        Seq::empty()
    } else if predicate.len() == 1 {
        condition_sql(predicate[0])
    } else {
        conjunction_sql(predicate.drop_last()) + " AND "@ + condition_sql(predicate.last())
    }
}

/// The clause that restricts a statement to `predicate`: nothing where it
/// holds no condition.
pub open spec fn where_sql(predicate: Seq<ConditionView>) -> Seq<char> {
    if predicate.len() == 0 {
        Seq::empty()
    } else {
        " WHERE "@ + conjunction_sql(predicate)
    }
}

/// The values of the conditions, in their order.
pub open spec fn values_of(predicate: Seq<ConditionView>) -> Seq<ValueView> {
    Seq::new(predicate.len(), |i: int| predicate[i].value)
}

/// Whether two predicates compare the same columns in the same way, in the
/// same order.
pub open spec fn same_shape(a: Seq<ConditionView>, b: Seq<ConditionView>) -> bool {
    a.len() == b.len() && forall|i: int|
        0 <= i < a.len() ==> (#[trigger] a[i]).column == b[i].column && a[i].operator
            == b[i].operator
}

/// The text of a clause does not depend on the values: predicates of the same
/// shape give the same text.
pub proof fn lemma_text_ignores_values(a: Seq<ConditionView>, b: Seq<ConditionView>)
    requires
        same_shape(a, b),
    ensures
        where_sql(a) == where_sql(b),
        conjunction_sql(a) == conjunction_sql(b),
    decreases a.len(),
{
    if a.len() > 1 {
        assert(same_shape(a.drop_last(), b.drop_last())) by {
            assert forall|i: int| 0 <= i < a.drop_last().len() implies (
            #[trigger] a.drop_last()[i]).column == b.drop_last()[i].column
                && a.drop_last()[i].operator == b.drop_last()[i].operator by {
                assert(a[i].column == b[i].column);
            }
        }
        lemma_text_ignores_values(a.drop_last(), b.drop_last());
        assert(a.last().column == b.last().column && a[a.len() - 1].operator == b[a.len()
            - 1].operator);
    } else if a.len() == 1 {
        assert(a[0].column == b[0].column);
    }
}

/// How often `c` occurs in `s`.
pub open spec fn occurrences(s: Seq<char>, c: char) -> nat
    decreases s.len(),
{
    if s.len() == 0 {
        0
    } else {
        occurrences(s.drop_last(), c) + if s.last() == c {
            1nat
        } else {
            0nat
        }
    }
}

/// A character occurs in a text of two parts as often as in both parts
/// together.
pub proof fn lemma_occurrences_add(a: Seq<char>, b: Seq<char>, c: char)
    ensures
        occurrences(a + b, c) == occurrences(a, c) + occurrences(b, c),
    decreases b.len(),
{
    if b.len() == 0 {
        assert(a + b =~= a);
    } else {
        assert((a + b).drop_last() =~= a + b.drop_last());
        lemma_occurrences_add(a, b.drop_last(), c);
    }
}

/// A text in which `c` stands nowhere holds it zero times.
pub proof fn lemma_occurrences_none(s: Seq<char>, c: char)
    requires
        forall|i: int| 0 <= i < s.len() ==> #[trigger] s[i] != c,
    ensures
        occurrences(s, c) == 0,
    decreases s.len(),
{
    if s.len() > 0 {
        assert forall|i: int| 0 <= i < s.drop_last().len() implies #[trigger] s.drop_last()[i]
            != c by {
            assert(s.drop_last()[i] == s[i]);
        }
        lemma_occurrences_none(s.drop_last(), c);
    }
}

proof fn lemma_column_has_no_placeholder(column: Column)
    ensures
        occurrences(column_sql(column), '?') == 0,
{
    reveal_strlit("fts.content");
    reveal_strlit("sn.number");
    reveal_strlit("e.number");
    reveal_strlit("e.id");
    reveal_strlit("l.speaker_id");
    reveal_strlit("l.line_number");
    lemma_occurrences_none(column_sql(column), '?');
}

proof fn lemma_operator_has_one_placeholder(operator: Operator)
    ensures
        occurrences(operator_sql(operator), '?') == 1,
{
    reveal_strlit(" MATCH ?");
    reveal_strlit(" = ?");
    reveal_strlit(" >= ?");
    reveal_strlit(" <= ?");
    let text = operator_sql(operator);
    assert(text.last() == '?');
    lemma_occurrences_none(text.drop_last(), '?');
}

/// The text of a condition holds one placeholder.
pub proof fn lemma_condition_has_one_placeholder(condition: ConditionView)
    ensures
        occurrences(condition_sql(condition), '?') == 1,
{
    lemma_column_has_no_placeholder(condition.column);
    lemma_operator_has_one_placeholder(condition.operator);
    lemma_occurrences_add(column_sql(condition.column), operator_sql(condition.operator), '?');
}

/// The clause of a predicate holds as many placeholders as the predicate holds
/// values.
pub proof fn lemma_one_placeholder_for_each_value(predicate: Seq<ConditionView>)
    ensures
        occurrences(where_sql(predicate), '?') == values_of(predicate).len(),
        occurrences(conjunction_sql(predicate), '?') == predicate.len(),
    decreases predicate.len(),
{
    if predicate.len() == 1 {
        lemma_condition_has_one_placeholder(predicate[0]);
    } else if predicate.len() > 1 {
        lemma_one_placeholder_for_each_value(predicate.drop_last());
        lemma_condition_has_one_placeholder(predicate.last());
        lemma_occurrences_add(conjunction_sql(predicate.drop_last()), " AND "@, '?');
        lemma_occurrences_add(
            conjunction_sql(predicate.drop_last()) + " AND "@,
            condition_sql(predicate.last()),
            '?',
        );
        assert(occurrences(" AND "@, '?') == 0) by {
            reveal_strlit(" AND ");
            lemma_occurrences_none(" AND "@, '?');
        }
    }
    if predicate.len() > 0 {
        lemma_occurrences_add(" WHERE "@, conjunction_sql(predicate), '?');
        assert(occurrences(" WHERE "@, '?') == 0) by {
            reveal_strlit(" WHERE ");
            lemma_occurrences_none(" WHERE "@, '?');
        }
    }
}

fn column_text(column: Column) -> (r: &'static str)
    ensures
        r@ == column_sql(column),
{
    match column {
        Column::Content => "fts.content",
        Column::SeasonNumber => "sn.number",
        Column::EpisodeNumber => "e.number",
        Column::EpisodeId => "e.id",
        Column::SpeakerId => "l.speaker_id",
        Column::LineNumber => "l.line_number",
    }
}

fn operator_text(operator: Operator) -> (r: &'static str)
    ensures
        r@ == operator_sql(operator),
{
    match operator {
        Operator::Matches => " MATCH ?",
        Operator::Equals => " = ?",
        Operator::AtLeast => " >= ?",
        Operator::AtMost => " <= ?",
    }
}

/// Writes the clause that restricts a statement to `predicate`.
pub fn where_clause(predicate: &Predicate) -> (r: String)
    ensures
        r@ == where_sql(predicate@),
{
    let mut text = String::new();
    let n = predicate.conditions.len();
    if n == 0 {
        return text;
    }
    text.append(" WHERE ");
    let mut i: usize = 0;
    assert(predicate@.take(0) =~= Seq::empty());
    while i < n
        invariant
            i <= n,
            n == predicate.conditions.len(),
            n == predicate@.len(),
            text@ == " WHERE "@ + conjunction_sql(predicate@.take(i as int)),
        decreases n - i,
    {
        let ghost done = predicate@.take(i as int);
        let ghost more = predicate@.take(i + 1);
        assert(more.drop_last() == done);
        assert(more.last() == predicate.conditions[i as int]@);
        if i > 0 {
            text.append(" AND ");
        }
        text.append(column_text(predicate.conditions[i].column));
        text.append(operator_text(predicate.conditions[i].operator));
        assert(text@ =~= " WHERE "@ + conjunction_sql(more));
        i += 1;
    }
    assert(predicate@.take(n as int) == predicate@);
    text
}

/// A copy of a value.
pub fn copy_value(value: &Value) -> (r: Value)
    ensures
        r@ == value@,
{
    match value {
        Value::Text(text) => Value::Text(text.clone()),
        Value::Integer(number) => Value::Integer(*number),
        Value::Null => Value::Null,
    }
}

/// The values of `predicate`, in the order of their placeholders.
pub fn bound_values(predicate: &Predicate) -> (r: Vec<Value>)
    ensures
        value_views(r@) == values_of(predicate@),
{
    let mut out: Vec<Value> = Vec::new();
    let mut i: usize = 0;
    while i < predicate.conditions.len()
        invariant
            i <= predicate.conditions.len(),
            out.len() == i,
            forall|j: int| 0 <= j < i ==> (#[trigger] out[j])@ == predicate.conditions[j].value@,
        decreases predicate.conditions.len() - i,
    {
        out.push(copy_value(&predicate.conditions[i].value));
        i += 1;
    }
    assert(value_views(out@) =~= values_of(predicate@));
    out
}

/// A statement for the store: its text, and the values for its placeholders
/// in their order.
#[derive(Clone, Debug, PartialEq, Eq)]
pub struct Statement {
    pub sql: String,
    pub parameters: Vec<Value>,
}

/// The view of a statement.
pub struct StatementView {
    pub sql: Seq<char>,
    pub parameters: Seq<ValueView>,
}

impl View for Statement {
    type V = StatementView;

    open spec fn view(&self) -> StatementView {
        StatementView { sql: self.sql@, parameters: value_views(self.parameters@) }
    }
}

/// The statement that selects with `head` the lines that meet `predicate`
/// and ends in `tail`.
pub open spec fn statement_for(head: Seq<char>, predicate: Seq<ConditionView>, tail: Seq<char>)
    -> StatementView {
    StatementView { sql: head + where_sql(predicate) + tail, parameters: values_of(predicate) }
}

/// Puts a statement together: `head`, the clause for `predicate`, `tail`,
/// and the values of `predicate`.
pub fn build_statement(head: &str, predicate: &Predicate, tail: &str) -> (r: Statement)
    ensures
        r@ == statement_for(head@, predicate@, tail@),
{
    let mut sql = String::from_str(head);
    let clause = where_clause(predicate);
    sql.append(clause.as_str());
    sql.append(tail);
    Statement { sql, parameters: bound_values(predicate) }
}

/// The statement of a phrase search: the lines that meet every field that is
/// present, in reading order.
pub fn search_statement(query: &SearchPhrasesQuery) -> (r: Statement)
    ensures
        r@ == statement_for(
            SELECT_INDEXED_LINES@,
            search_predicate(query@),
            IN_READING_ORDER@,
        ),
{
    build_statement(SELECT_INDEXED_LINES, &compose_search(query), IN_READING_ORDER)
}

/// The statement of a request for a random line: one line, picked at random
/// among those that meet every field that is present.
pub fn random_line_statement(query: &RandomLineQuery) -> (r: Statement)
    ensures
        r@ == statement_for(SELECT_LINES@, random_predicate(*query), ONE_AT_RANDOM@),
{
    build_statement(SELECT_LINES, &compose_random(query), ONE_AT_RANDOM)
}

/// The statement of a transcript: the lines of one episode, in reading order.
pub fn transcript_statement(season_number: i64, episode_number: i32) -> (r: Statement)
    ensures
        r@ == statement_for(
            SELECT_LINES@,
            transcript_predicate(season_number, episode_number),
            IN_READING_ORDER@,
        ),
{
    build_statement(
        SELECT_LINES,
        &compose_transcript(season_number, episode_number),
        IN_READING_ORDER,
    )
}

/// Looks a season up by its number and inserts it where there is none; gives
/// its id.
pub const UPSERT_SEASON: &'static str =
    "INSERT INTO seasons (number) VALUES (?) ON CONFLICT(number) DO UPDATE SET number = excluded.number RETURNING id";

/// Looks an episode up by its season and its number, inserts it where there is
/// none, and sets its title; gives its id.
pub const UPSERT_EPISODE: &'static str =
    "INSERT INTO episodes (season_id, number, title) VALUES (?, ?, ?) ON CONFLICT(season_id, number) DO UPDATE SET title = excluded.title RETURNING id";

/// Looks a speaker up by its name and inserts it where there is none; gives
/// its id.
pub const UPSERT_SPEAKER: &'static str =
    "INSERT INTO speakers (name) VALUES (?) ON CONFLICT(name) DO UPDATE SET name = excluded.name RETURNING id";

/// Inserts a line.
pub const INSERT_LINE: &'static str =
    "INSERT INTO lines (season_id, episode_id, speaker_id, line_number, content) VALUES (?, ?, ?, ?, ?)";

/// The value to bind for an id that may be absent.
pub open spec fn optional_id(id: Option<i64>) -> ValueView {
    match id {
        Some(id) => ValueView::Integer(id),
        None => ValueView::Null,
    }
}

/// The statement that carries a request of an ingestion run out, with the
/// fields of the request as its values in the order of its placeholders. The
/// requests that begin and end the transaction are no statements.
pub open spec fn write_statement_for(action: WriterActionView) -> Option<StatementView> {
    match action {
        WriterActionView::Begin | WriterActionView::Commit | WriterActionView::Rollback => None,
        WriterActionView::UpsertSeason { number } => Some(
            StatementView {
                sql: UPSERT_SEASON@,
                parameters: seq![ValueView::Integer(number as i64)],
            },
        ),
        WriterActionView::UpsertEpisode { season_id, number, title } => Some(
            StatementView {
                sql: UPSERT_EPISODE@,
                parameters: seq![
                    ValueView::Integer(season_id),
                    ValueView::Integer(number as i64),
                    ValueView::Text(title),
                ],
            },
        ),
        WriterActionView::UpsertSpeaker { name } => Some(
            StatementView { sql: UPSERT_SPEAKER@, parameters: seq![ValueView::Text(name)] },
        ),
        WriterActionView::InsertLine {
            season_id,
            episode_id,
            speaker_id,
            line_number,
            content,
        } => Some(
            StatementView {
                sql: INSERT_LINE@,
                parameters: seq![
                    ValueView::Integer(season_id),
                    ValueView::Integer(episode_id),
                    optional_id(speaker_id),
                    ValueView::Integer(line_number as i64),
                    ValueView::Text(content),
                ],
            },
        ),
    }
}

/// Whether the store answers a request with the id of a row.
pub open spec fn gives_id(action: WriterActionView) -> bool {
    action is UpsertSeason || action is UpsertEpisode || action is UpsertSpeaker
}

/// The view of an optional statement.
pub open spec fn optional_statement_view(statement: Option<Statement>) -> Option<StatementView> {
    match statement {
        Some(statement) => Some(statement@),
        None => None,
    }
}

fn statement_of(sql: &str, parameters: Vec<Value>) -> (r: Statement)
    ensures
        r@ == (StatementView { sql: sql@, parameters: value_views(parameters@) }),
{
    Statement { sql: String::from_str(sql), parameters }
}

/// Writes the statement that carries a request of an ingestion run out.
pub fn write_statement(action: &WriterAction) -> (r: Option<Statement>)
    ensures
        optional_statement_view(r) == write_statement_for(action@),
{
    match action {
        WriterAction::Begin | WriterAction::Commit | WriterAction::Rollback => None,
        WriterAction::UpsertSeason { number } => {
            let mut parameters: Vec<Value> = Vec::new();
            parameters.push(Value::Integer(*number as i64));
            assert(value_views(parameters@) =~= seq![ValueView::Integer(*number as i64)]);
            Some(statement_of(UPSERT_SEASON, parameters))
        },
        WriterAction::UpsertEpisode { season_id, number, title } => {
            let mut parameters: Vec<Value> = Vec::new();
            parameters.push(Value::Integer(*season_id));
            parameters.push(Value::Integer(*number as i64));
            parameters.push(Value::Text(title.clone()));
            assert(value_views(parameters@) =~= seq![
                ValueView::Integer(*season_id),
                ValueView::Integer(*number as i64),
                ValueView::Text(title@),
            ]);
            Some(statement_of(UPSERT_EPISODE, parameters))
        },
        WriterAction::UpsertSpeaker { name } => {
            let mut parameters: Vec<Value> = Vec::new();
            parameters.push(Value::Text(name.clone()));
            assert(value_views(parameters@) =~= seq![ValueView::Text(name@)]);
            Some(statement_of(UPSERT_SPEAKER, parameters))
        },
        WriterAction::InsertLine { season_id, episode_id, speaker_id, line_number, content } => {
            let mut parameters: Vec<Value> = Vec::new();
            parameters.push(Value::Integer(*season_id));
            parameters.push(Value::Integer(*episode_id));
            parameters.push(
                match speaker_id {
                    Some(id) => Value::Integer(*id),
                    None => Value::Null,
                },
            );
            parameters.push(Value::Integer(*line_number as i64));
            parameters.push(Value::Text(content.clone()));
            assert(value_views(parameters@) =~= seq![
                ValueView::Integer(*season_id),
                ValueView::Integer(*episode_id),
                optional_id(*speaker_id),
                ValueView::Integer(*line_number as i64),
                ValueView::Text(content@),
            ]);
            Some(statement_of(INSERT_LINE, parameters))
        },
    }
}

/// Whether the store answers a request with the id of a row.
pub fn replies_with_id(action: &WriterAction) -> (r: bool)
    ensures
        r == gives_id(action@),
{
    match action {
        WriterAction::UpsertSeason { .. } => true,
        WriterAction::UpsertEpisode { .. } => true,
        WriterAction::UpsertSpeaker { .. } => true,
        _ => false,
    }
}

/// Selects every season.
pub const SELECT_SEASONS: &'static str = "SELECT * FROM seasons";

/// Selects every speaker.
pub const SELECT_SPEAKERS: &'static str = "SELECT * FROM speakers";

/// Selects the episodes of a season, ordered by their numbers.
pub const SELECT_EPISODES_OF_SEASON: &'static str =
    "SELECT * FROM episodes WHERE season_id = ? ORDER BY number ASC";

/// Selects the episode with an id.
pub const SELECT_EPISODE: &'static str = "SELECT * FROM episodes WHERE id = ? LIMIT 1";

/// Says whether a season has a number: 1 or 0.
pub const COUNT_SEASONS: &'static str = "SELECT EXISTS(SELECT 1 FROM seasons WHERE number = ?)";

/// Says whether an episode has a number: 1 or 0.
pub const COUNT_EPISODES: &'static str = "SELECT EXISTS(SELECT 1 FROM episodes WHERE number = ?)";

/// The statement with this text and one value, a number.
pub open spec fn about_number(sql: Seq<char>, number: i64) -> StatementView {
    StatementView { sql, parameters: seq![ValueView::Integer(number)] }
}

/// Writes the statement with this text and one value, a number.
pub fn statement_about(sql: &str, number: i64) -> (r: Statement)
    ensures
        r@ == about_number(sql@, number),
{
    let mut parameters: Vec<Value> = Vec::new();
    parameters.push(Value::Integer(number));
    assert(value_views(parameters@) =~= seq![ValueView::Integer(number)]);
    statement_of(sql, parameters)
}

/// The statement that lists the episodes of the season with this id, ordered
/// by their numbers.
pub fn episodes_statement(season_id: i64) -> (r: Statement)
    ensures
        r@ == about_number(SELECT_EPISODES_OF_SEASON@, season_id),
{
    statement_about(SELECT_EPISODES_OF_SEASON, season_id)
}

/// The statement that selects the episode with this id.
pub fn episode_statement(episode_id: i64) -> (r: Statement)
    ensures
        r@ == about_number(SELECT_EPISODE@, episode_id),
{
    statement_about(SELECT_EPISODE, episode_id)
}

} // verus!
