//! Looking up the transcript of one episode: is the season known, is the
//! episode known, then the lines. The lookup says what to ask the store, the
//! caller asks and reports the reply.

use crate::filter::transcript_predicate;
use crate::models::{line_views, Line, LineView};
use crate::statement::{
    about_number, optional_statement_view, statement_about, statement_for,
    transcript_statement, Statement, StatementView, COUNT_EPISODES, COUNT_SEASONS,
    IN_READING_ORDER, SELECT_LINES,
};
use vstd::prelude::*;

verus! {

/// Why a transcript has no answer.
#[derive(Clone, Copy, Debug, PartialEq, Eq, Structural)]
pub enum TranscriptError {
    /// The dataset holds no season with this number.
    SeasonNotFound(i64),
    /// The dataset holds no episode with this number.
    EpisodeNotFound(i32),
    /// The store failed.
    Storage,
}

/// What the store is asked next.
#[derive(Clone, Debug, PartialEq, Eq)]
pub enum TranscriptAction {
    /// How many seasons have this number?
    CountSeasons { number: i64 },
    /// How many episodes have this number?
    CountEpisodes { number: i32 },
    /// Select the lines.
    SelectLines(Statement),
}

/// The view of a request of a lookup.
pub enum TranscriptActionView {
    CountSeasons { number: i64 },
    CountEpisodes { number: i32 },
    SelectLines(StatementView),
}

impl View for TranscriptAction {
    type V = TranscriptActionView;

    open spec fn view(&self) -> TranscriptActionView {
        match self {
            TranscriptAction::CountSeasons { number } => TranscriptActionView::CountSeasons {
                number: *number,
            },
            TranscriptAction::CountEpisodes { number } => TranscriptActionView::CountEpisodes {
                number: *number,
            },
            TranscriptAction::SelectLines(statement) => TranscriptActionView::SelectLines(
                statement@,
            ),
        }
    }
}

/// The statement that counts what a request asks to count; none for the
/// request that selects the lines, which brings its own.
pub open spec fn count_statement_for(action: TranscriptActionView) -> Option<StatementView> {
    match action {
        TranscriptActionView::CountSeasons { number } => Some(
            about_number(COUNT_SEASONS@, number),
        ),
        TranscriptActionView::CountEpisodes { number } => Some(
            about_number(COUNT_EPISODES@, number as i64),
        ),
        TranscriptActionView::SelectLines(_) => None,
    }
}

/// Writes the statement that counts what a request asks to count.
pub fn count_statement(action: &TranscriptAction) -> (r: Option<Statement>)
    ensures
        optional_statement_view(r) == count_statement_for(action@),
{
    match action {
        TranscriptAction::CountSeasons { number } => Some(statement_about(COUNT_SEASONS, *number)),
        TranscriptAction::CountEpisodes { number } => Some(
            statement_about(COUNT_EPISODES, *number as i64),
        ),
        TranscriptAction::SelectLines(_) => None,
    }
}

/// How the store answered.
#[derive(Clone, Debug, PartialEq, Eq)]
pub enum TranscriptReply {
    Count(i64),
    Lines(Vec<Line>),
    Failed,
}

/// Which answer the lookup waits on.
#[derive(Clone, Copy, Debug, PartialEq, Eq, Structural)]
pub enum Stage {
    Season,
    Episode,
    Lines,
}

/// A lookup in progress.
#[derive(Clone, Copy, Debug, PartialEq, Eq, Structural)]
pub struct TranscriptLookup {
    pub season_number: i64,
    pub episode_number: i32,
    pub stage: Stage,
}

/// A lookup after a step: in progress, with the next question, or over.
pub enum TranscriptStep {
    Next(TranscriptLookup, TranscriptAction),
    Done(Result<Vec<Line>, TranscriptError>),
}

/// The view of a lookup after a step.
pub enum TranscriptStepView {
    Next(TranscriptLookup, TranscriptActionView),
    Done(Result<Seq<LineView>, TranscriptError>),
}

impl View for TranscriptStep {
    type V = TranscriptStepView;

    open spec fn view(&self) -> TranscriptStepView {
        match self {
            TranscriptStep::Next(lookup, action) => TranscriptStepView::Next(*lookup, action@),
            TranscriptStep::Done(Ok(lines)) => TranscriptStepView::Done(Ok(line_views(lines@))),
            TranscriptStep::Done(Err(error)) => TranscriptStepView::Done(Err(*error)),
        }
    }
}

impl TranscriptLookup {
    /// The statement that selects the lines of the episode.
    pub open spec fn lines_statement(self) -> StatementView {
        statement_for(
            SELECT_LINES@,
            transcript_predicate(self.season_number, self.episode_number),
            IN_READING_ORDER@,
        )
    }

    /// What the lookup does on a reply. The season is asked for first and the
    /// episode second; a count of zero ends the lookup with the number that is
    /// unknown. The lines are asked for once both are known. A reply of
    /// another kind than the awaited one is a fault of the store.
    pub open spec fn step_spec(self, reply: TranscriptReply) -> TranscriptStepView {
        match (self.stage, reply) {
            (Stage::Season, TranscriptReply::Count(count)) => if count == 0 {
                TranscriptStepView::Done(Err(TranscriptError::SeasonNotFound(self.season_number)))
            } else {
                TranscriptStepView::Next(
                    TranscriptLookup { stage: Stage::Episode, ..self },
                    TranscriptActionView::CountEpisodes { number: self.episode_number },
                )
            },
            (Stage::Episode, TranscriptReply::Count(count)) => if count == 0 {
                TranscriptStepView::Done(
                    Err(TranscriptError::EpisodeNotFound(self.episode_number)),
                )
            } else {
                TranscriptStepView::Next(
                    TranscriptLookup { stage: Stage::Lines, ..self },
                    TranscriptActionView::SelectLines(self.lines_statement()),
                )
            },
            (Stage::Lines, TranscriptReply::Lines(lines)) => TranscriptStepView::Done(
                Ok(line_views(lines@)),
            ),
            _ => TranscriptStepView::Done(Err(TranscriptError::Storage)),
        }
    }

    /// Starts the lookup of the transcript of episode `episode_number` of
    /// season `season_number`.
    pub fn open(season_number: i64, episode_number: i32) -> (r: TranscriptStep)
        ensures
            r@ == TranscriptStepView::Next(
                TranscriptLookup { season_number, episode_number, stage: Stage::Season },
                TranscriptActionView::CountSeasons { number: season_number },
            ),
    {
        TranscriptStep::Next(
            TranscriptLookup { season_number, episode_number, stage: Stage::Season },
            TranscriptAction::CountSeasons { number: season_number },
        )
    }

    /// Takes the store's reply and says what comes next.
    pub fn step(self, reply: TranscriptReply) -> (r: TranscriptStep)
        ensures
            r@ == self.step_spec(reply),
    {
        match (self.stage, reply) {
            (Stage::Season, TranscriptReply::Count(count)) => {
                if count == 0 {
                    TranscriptStep::Done(Err(TranscriptError::SeasonNotFound(self.season_number)))
                } else {
                    TranscriptStep::Next(
                        TranscriptLookup {
                            season_number: self.season_number,
                            episode_number: self.episode_number,
                            stage: Stage::Episode,
                        },
                        TranscriptAction::CountEpisodes { number: self.episode_number },
                    )
                }
            },
            (Stage::Episode, TranscriptReply::Count(count)) => {
                if count == 0 {
                    TranscriptStep::Done(
                        Err(TranscriptError::EpisodeNotFound(self.episode_number)),
                    )
                } else {
                    TranscriptStep::Next(
                        TranscriptLookup {
                            season_number: self.season_number,
                            episode_number: self.episode_number,
                            stage: Stage::Lines,
                        },
                        TranscriptAction::SelectLines(
                            transcript_statement(self.season_number, self.episode_number),
                        ),
                    )
                }
            },
            (Stage::Lines, TranscriptReply::Lines(lines)) => TranscriptStep::Done(Ok(lines)),
            _ => TranscriptStep::Done(Err(TranscriptError::Storage)),
        }
    }
}

/// The season is asked for before the episode: while the season is unknown the
/// lookup ends with the season's number, whatever holds of the episode.
pub proof fn lemma_season_is_checked_first(season_number: i64, episode_number: i32)
    ensures
        (TranscriptLookup { season_number, episode_number, stage: Stage::Season }).step_spec(
            TranscriptReply::Count(0),
        ) == TranscriptStepView::Done(Err(TranscriptError::SeasonNotFound(season_number))),
{
}

} // verus!
