//! Turns the optional fields of a query into a predicate: one condition for
//! each field that is present, none for a field that is absent.
//!
//! What a query says ends up in the values of the conditions and nowhere else.
//! A phrase is sanitized before it becomes a value.

use crate::models::{RandomLineQuery, SearchPhrasesQuery, SearchPhrasesQueryView};
use crate::text::{from_chars, is_space, is_whitespace, to_chars};
use vstd::prelude::*;
use vstd::string::*;

verus! {

/// Whether `char::is_alphanumeric` holds of `c`: whether Unicode lists it as
/// alphabetic or as a number.
pub uninterp spec fn is_alphanumeric_char(c: char) -> bool;

/// `char::is_alphanumeric`. Claimed: the answer depends on the character alone.
#[verifier::external_body]
fn is_alphanumeric(c: char) -> (r: bool)
    ensures
        r == is_alphanumeric_char(c),
{
    c.is_alphanumeric()
}

/// Whether `c` is an ASCII letter or digit.
pub open spec fn is_ascii_word(c: char) -> bool {
    let n = c as u32;
    (0x30 <= n <= 0x39) || (0x41 <= n <= 0x5A) || (0x61 <= n <= 0x7A)
}

/// Whether a phrase keeps `c`: letters, digits and whitespace stay. Within
/// ASCII the letters and digits are `0-9`, `A-Z` and `a-z`; beyond it they are
/// what Unicode takes for alphabetic or numeric.
pub open spec fn is_kept(c: char) -> bool {
    is_space(c) || if (c as u32) < 0x80 {
        is_ascii_word(c)
    } else {
        is_alphanumeric_char(c)
    }
}

/// Whether a phrase keeps `c`.
pub fn keeps(c: char) -> (r: bool)
    ensures
        r == is_kept(c),
{
    let n: u32 = c as u32;
    if is_whitespace(c) {
        true
    } else if n < 0x80 {
        (0x30 <= n && n <= 0x39) || (0x41 <= n && n <= 0x5A) || (0x61 <= n && n <= 0x7A)
    } else {
        is_alphanumeric(c)
    }
}

/// `phrase` with a space in place of each character that is not kept.
pub open spec fn sanitized(phrase: Seq<char>) -> Seq<char> {
    Seq::new(
        phrase.len(),
        |i: int|
            if is_kept(phrase[i]) {
                phrase[i]
            } else {
                ' '
            },
    )
}

/// A sanitized phrase holds letters, digits and whitespace only: no quote, no
/// operator of the full-text syntax. Sanitizing changes no length, and a
/// sanitized phrase stays as it is.
pub proof fn lemma_sanitized_is_plain(phrase: Seq<char>)
    ensures
        sanitized(phrase).len() == phrase.len(),
        forall|i: int| 0 <= i < phrase.len() ==> is_kept(#[trigger] sanitized(phrase)[i]),
        forall|i: int|
            0 <= i < phrase.len() && (#[trigger] sanitized(phrase)[i] as u32) < 0x80 ==> is_space(
                sanitized(phrase)[i],
            ) || is_ascii_word(sanitized(phrase)[i]),
        sanitized(sanitized(phrase)) == sanitized(phrase),
{
    assert(is_kept(' '));
    assert(sanitized(sanitized(phrase)) =~= sanitized(phrase));
}

/// Replaces every character of `query` that is neither a letter, nor a digit,
/// nor whitespace with a space.
pub fn escape_fts5_query(query: &str) -> (r: String)
    ensures
        r@ == sanitized(query@),
{
    let chars = to_chars(query);
    let mut out: Vec<char> = Vec::new();
    let mut i: usize = 0;
    while i < chars.len()
        invariant
            i <= chars.len(),
            chars@ == query@,
            out@ == sanitized(query@).take(i as int),
        decreases chars.len() - i,
    {
        let c = chars[i];
        if keeps(c) {
            out.push(c);
        } else {
            out.push(' ');
        }
        assert(out@ =~= sanitized(query@).take(i + 1));
        i += 1;
    }
    assert(out@ =~= sanitized(query@));
    from_chars(&out)
}

/// The full-text term for `phrase`: the sanitized phrase, in double quotes
/// where it is meant as a whole, as it is where its words are meant.
pub open spec fn fts_term(phrase: Seq<char>, exact: bool) -> Seq<char> {
    if exact {
        "\""@ + sanitized(phrase) + "\""@
    } else {
        sanitized(phrase)
    }
}

/// Writes the full-text term for `phrase`.
pub fn phrase_term(phrase: &str, exact: bool) -> (r: String)
    ensures
        r@ == fts_term(phrase@, exact),
{
    let plain = escape_fts5_query(phrase);
    if exact {
        let mut term = String::from_str("\"");
        term.append(plain.as_str());
        term.append("\"");
        term
    } else {
        plain
    }
}

/// What a condition compares.
#[derive(Clone, Copy, Debug, PartialEq, Eq, Structural)]
pub enum Column {
    /// The indexed text of a line.
    Content,
    /// The number of the season of a line's episode.
    SeasonNumber,
    /// The number of a line's episode within its season.
    EpisodeNumber,
    /// The id of a line's episode.
    EpisodeId,
    /// The id of a line's speaker.
    SpeakerId,
    /// The number of a line within its episode.
    LineNumber,
}

/// How a condition compares.
#[derive(Clone, Copy, Debug, PartialEq, Eq, Structural)]
pub enum Operator {
    /// Full-text match.
    Matches,
    Equals,
    AtLeast,
    AtMost,
}

/// A value that the store binds to a placeholder.
#[derive(Clone, Debug, PartialEq, Eq)]
pub enum Value {
    Text(String),
    Integer(i64),
    /// No value.
    Null,
}

/// The view of a value.
pub enum ValueView {
    Text(Seq<char>),
    Integer(i64),
    Null,
}

impl View for Value {
    type V = ValueView;

    open spec fn view(&self) -> ValueView {
        match self {
            Value::Text(text) => ValueView::Text(text@),
            Value::Integer(number) => ValueView::Integer(*number),
            Value::Null => ValueView::Null,
        }
    }
}

/// The views of values, one for one.
pub open spec fn value_views(values: Seq<Value>) -> Seq<ValueView> {
    Seq::new(values.len(), |i: int| values[i]@)
}

/// One comparison of a column with a bound value.
#[derive(Clone, Debug, PartialEq, Eq)]
pub struct Condition {
    pub column: Column,
    pub operator: Operator,
    pub value: Value,
}

/// The view of a condition.
pub struct ConditionView {
    pub column: Column,
    pub operator: Operator,
    pub value: ValueView,
}

impl View for Condition {
    type V = ConditionView;

    open spec fn view(&self) -> ConditionView {
        ConditionView { column: self.column, operator: self.operator, value: self.value@ }
    }
}

/// Conditions that must all hold.
#[derive(Clone, Debug, PartialEq, Eq)]
pub struct Predicate {
    pub conditions: Vec<Condition>,
}

impl View for Predicate {
    type V = Seq<ConditionView>;

    open spec fn view(&self) -> Seq<ConditionView> {
        Seq::new(self.conditions@.len(), |i: int| self.conditions@[i]@)
    }
}

/// No condition for an absent field; for a present one that the column equals
/// it.
pub open spec fn equality(column: Column, field: Option<i64>) -> Seq<ConditionView> {
    match field {
        Some(number) => seq![
            ConditionView { column, operator: Operator::Equals, value: ValueView::Integer(number) },
        ],
        None => Seq::empty(),
    }
}

/// No condition for an absent phrase; for a present one that the text of the
/// line matches its full-text term.
pub open spec fn phrase_match(phrase: Option<Seq<char>>, exact: bool) -> Seq<ConditionView> {
    match phrase {
        Some(phrase) => seq![
            ConditionView {
                column: Column::Content,
                operator: Operator::Matches,
                value: ValueView::Text(fts_term(phrase, exact)),
            },
        ],
        None => Seq::empty(),
    }
}

/// Whether a query asks for its phrase as a whole.
pub open spec fn is_exact(similar_search: Option<bool>) -> bool {
    similar_search == Some(true)
}

/// The predicate of a phrase search: one condition for each field that is
/// present, in the order phrase, season, episode, speaker.
pub open spec fn search_predicate(query: SearchPhrasesQueryView) -> Seq<ConditionView> {
    phrase_match(query.phrase, is_exact(query.similar_search)) + equality(
        Column::SeasonNumber,
        query.season,
    ) + equality(Column::EpisodeId, query.episode) + equality(Column::SpeakerId, query.speaker)
}

/// The predicate of a request for a random line: one condition for each field
/// that is present, in the order season, episode, speaker.
pub open spec fn random_predicate(query: RandomLineQuery) -> Seq<ConditionView> {
    equality(Column::SeasonNumber, query.season) + equality(Column::EpisodeId, query.episode)
        + equality(Column::SpeakerId, query.speaker)
}

/// The predicate of a transcript: the lines of the episode with this number in
/// the season with this number.
pub open spec fn transcript_predicate(season_number: i64, episode_number: i32) -> Seq<
    ConditionView,
> {
    equality(Column::SeasonNumber, Some(season_number)) + equality(
        Column::EpisodeNumber,
        Some(episode_number as i64),
    )
}

impl Predicate {
    /// The predicate that everything meets.
    pub fn new() -> (r: Predicate)
        ensures
            r@ == Seq::<ConditionView>::empty(),
    {
        let r = Predicate { conditions: Vec::new() };
        assert(r@ =~= Seq::<ConditionView>::empty());
        r
    }

    /// Adds the condition that `column` equals `field`, if the field is present.
    pub fn and_equals(&mut self, column: Column, field: Option<i64>)
        ensures
            final(self)@ == old(self)@ + equality(column, field),
    {
        match field {
            Some(number) => {
                self.conditions.push(
                    Condition { column, operator: Operator::Equals, value: Value::Integer(number) },
                );
            },
            None => {},
        }
        assert(self@ =~= old(self)@ + equality(column, field));
    }

    /// Adds the condition that the text matches `phrase`, if it is present.
    pub fn and_matches(&mut self, phrase: &Option<String>, exact: bool)
        ensures
            final(self)@ == old(self)@ + phrase_match(crate::models::text_of(*phrase), exact),
    {
        match phrase {
            Some(phrase) => {
                self.conditions.push(
                    Condition {
                        column: Column::Content,
                        operator: Operator::Matches,
                        value: Value::Text(phrase_term(phrase.as_str(), exact)),
                    },
                );
            },
            None => {},
        }
        assert(self@ =~= old(self)@ + phrase_match(crate::models::text_of(*phrase), exact));
    }
}

/// Composes the predicate of a phrase search.
pub fn compose_search(query: &SearchPhrasesQuery) -> (r: Predicate)
    ensures
        r@ == search_predicate(query@),
{
    let exact = match query.similar_search {
        Some(flag) => flag,
        None => false,
    };
    let mut predicate = Predicate::new();
    predicate.and_matches(&query.phrase, exact);
    predicate.and_equals(Column::SeasonNumber, query.season);
    predicate.and_equals(Column::EpisodeId, query.episode);
    predicate.and_equals(Column::SpeakerId, query.speaker);
    assert(predicate@ =~= search_predicate(query@));
    predicate
}

/// Composes the predicate of a request for a random line.
pub fn compose_random(query: &RandomLineQuery) -> (r: Predicate)
    ensures
        r@ == random_predicate(*query),
{
    let mut predicate = Predicate::new();
    predicate.and_equals(Column::SeasonNumber, query.season);
    predicate.and_equals(Column::EpisodeId, query.episode);
    predicate.and_equals(Column::SpeakerId, query.speaker);
    assert(predicate@ =~= random_predicate(*query));
    predicate
}

/// Composes the predicate of a transcript.
pub fn compose_transcript(season_number: i64, episode_number: i32) -> (r: Predicate)
    ensures
        r@ == transcript_predicate(season_number, episode_number),
{
    let mut predicate = Predicate::new();
    predicate.and_equals(Column::SeasonNumber, Some(season_number));
    predicate.and_equals(Column::EpisodeNumber, Some(episode_number as i64));
    assert(predicate@ =~= transcript_predicate(season_number, episode_number));
    predicate
}

} // verus!
