//! The records of one tenant's dataset and the fields of the queries on it.

use vstd::prelude::*;

verus! {

/// The text of an optional string.
pub open spec fn text_of(s: Option<String>) -> Option<Seq<char>> {
    match s {
        Some(s) => Some(s@),
        None => None,
    }
}

/// Names the tenant whose dataset a request is about.
#[derive(Clone, Debug, PartialEq, Eq)]
pub struct UserQuery {
    pub user_id: String,
}

/// A season; `number` is unique within a dataset.
#[derive(Clone, Copy, Debug, PartialEq, Eq)]
pub struct Season {
    pub id: i64,
    pub number: i32,
}

/// An episode of a season; `(season_id, number)` is unique within a dataset.
#[derive(Clone, Debug, PartialEq, Eq)]
pub struct Episode {
    pub id: i64,
    pub season_id: i64,
    pub number: i32,
    pub title: String,
}

/// The view of an episode.
pub struct EpisodeView {
    pub id: i64,
    pub season_id: i64,
    pub number: i32,
    pub title: Seq<char>,
}

impl View for Episode {
    type V = EpisodeView;

    open spec fn view(&self) -> EpisodeView {
        EpisodeView { id: self.id, season_id: self.season_id, number: self.number, title: self.title@ }
    }
}

/// A speaker; `name` is unique within a dataset.
#[derive(Clone, Debug, PartialEq, Eq)]
pub struct Speaker {
    pub id: i64,
    pub name: String,
}

/// The view of a speaker.
pub struct SpeakerView {
    pub id: i64,
    pub name: Seq<char>,
}

impl View for Speaker {
    type V = SpeakerView;

    open spec fn view(&self) -> SpeakerView {
        SpeakerView { id: self.id, name: self.name@ }
    }
}

/// One line of an episode's transcript. `line_number` counts from 1 within the
/// episode; `speaker_id` and `speaker_name` are absent where the line names no
/// speaker.
#[derive(Clone, Debug, PartialEq, Eq)]
pub struct Line {
    pub id: i64,
    pub season_id: i64,
    pub episode_id: i64,
    pub speaker_id: Option<i64>,
    pub speaker_name: Option<String>,
    pub line_number: i32,
    pub content: String,
}

/// The view of a line.
pub struct LineView {
    pub id: i64,
    pub season_id: i64,
    pub episode_id: i64,
    pub speaker_id: Option<i64>,
    pub speaker_name: Option<Seq<char>>,
    pub line_number: i32,
    pub content: Seq<char>,
}

impl View for Line {
    type V = LineView;

    open spec fn view(&self) -> LineView {
        LineView {
            id: self.id,
            season_id: self.season_id,
            episode_id: self.episode_id,
            speaker_id: self.speaker_id,
            speaker_name: text_of(self.speaker_name),
            line_number: self.line_number,
            content: self.content@,
        }
    }
}

/// The views of the lines of `lines`.
pub open spec fn line_views(lines: Seq<Line>) -> Seq<LineView> {
    Seq::new(lines.len(), |i: int| lines[i]@)
}

impl Line {
    /// A copy of the line.
    pub fn duplicate(&self) -> (r: Line)
        ensures
            r@ == self@,
    {
        Line {
            id: self.id,
            season_id: self.season_id,
            episode_id: self.episode_id,
            speaker_id: self.speaker_id,
            speaker_name: match &self.speaker_name {
                Some(name) => Some(name.clone()),
                None => None,
            },
            line_number: self.line_number,
            content: self.content.clone(),
        }
    }
}

/// A copy of `lines`.
pub fn duplicate_lines(lines: &Vec<Line>) -> (r: Vec<Line>)
    ensures
        line_views(r@) == line_views(lines@),
{
    let mut out: Vec<Line> = Vec::new();
    let mut i: usize = 0;
    while i < lines.len()
        invariant
            i <= lines.len(),
            out.len() == i,
            forall|j: int| 0 <= j < i ==> (#[trigger] out[j])@ == lines[j]@,
        decreases lines.len() - i,
    {
        out.push(lines[i].duplicate());
        i += 1;
    }
    assert(line_views(out@) =~= line_views(lines@));
    out
}

/// The fields of a phrase search. An absent field restricts nothing.
/// `similar_search`, where it is `Some(true)`, asks for the phrase as a whole.
#[derive(Clone, Debug, PartialEq, Eq)]
pub struct SearchPhrasesQuery {
    pub phrase: Option<String>,
    pub season: Option<i64>,
    pub episode: Option<i64>,
    pub speaker: Option<i64>,
    pub similar_search: Option<bool>,
}

/// The view of the fields of a phrase search.
pub struct SearchPhrasesQueryView {
    pub phrase: Option<Seq<char>>,
    pub season: Option<i64>,
    pub episode: Option<i64>,
    pub speaker: Option<i64>,
    pub similar_search: Option<bool>,
}

impl View for SearchPhrasesQuery {
    type V = SearchPhrasesQueryView;

    open spec fn view(&self) -> SearchPhrasesQueryView {
        SearchPhrasesQueryView {
            phrase: text_of(self.phrase),
            season: self.season,
            episode: self.episode,
            speaker: self.speaker,
            similar_search: self.similar_search,
        }
    }
}

/// The fields of a request for one random line. An absent field restricts
/// nothing.
#[derive(Clone, Copy, Debug, PartialEq, Eq)]
pub struct RandomLineQuery {
    pub season: Option<i64>,
    pub episode: Option<i64>,
    pub speaker: Option<i64>,
}

} // verus!
