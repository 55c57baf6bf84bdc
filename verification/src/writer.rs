//! One ingestion run as a conversation with the store: the writer says what
//! to do next, the caller does it inside one transaction and reports how it
//! went.
//!
//! A run begins the transaction, writes season by season and episode by
//! episode, each line in the order of its file, and commits once everything is
//! written. Any reply but the expected one ends the run: the writer asks for a
//! rollback and reports `IngestError::Storage`.

use crate::plan::{
    episode_views, plan_ingestion, IngestError, PlannedEpisode, PlannedEpisodeView,
    TranscriptFile,
};
use vstd::prelude::*;

verus! {

/// How the store answered the last request.
#[derive(Clone, Copy, Debug, PartialEq, Eq, Structural)]
pub enum StoreReply {
    /// The request was carried out.
    Done,
    /// The request was carried out; this is the id of the row it wrote or found.
    Id(i64),
    /// The request failed.
    Failed,
}

/// What the store is asked to do next.
#[derive(Clone, Debug, PartialEq, Eq)]
pub enum WriterAction {
    /// Open the transaction that spans the run.
    Begin,
    /// Insert the season with this number unless it exists; reply with its id.
    UpsertSeason { number: i32 },
    /// Insert the episode with this number in the season unless it exists,
    /// set its title, and reply with its id.
    UpsertEpisode { season_id: i64, number: i32, title: String },
    /// Insert the speaker with this name unless it exists; reply with its id.
    UpsertSpeaker { name: String },
    /// Insert a line.
    InsertLine {
        season_id: i64,
        episode_id: i64,
        speaker_id: Option<i64>,
        line_number: i32,
        content: String,
    },
    /// Commit the transaction.
    Commit,
    /// Roll the transaction back.
    Rollback,
}

/// The view of a request of a run.
pub enum WriterActionView {
    Begin,
    UpsertSeason { number: i32 },
    UpsertEpisode { season_id: i64, number: i32, title: Seq<char> },
    UpsertSpeaker { name: Seq<char> },
    InsertLine {
        season_id: i64,
        episode_id: i64,
        speaker_id: Option<i64>,
        line_number: i32,
        content: Seq<char>,
    },
    Commit,
    Rollback,
}

impl View for WriterAction {
    type V = WriterActionView;

    open spec fn view(&self) -> WriterActionView {
        match self {
            WriterAction::Begin => WriterActionView::Begin,
            WriterAction::UpsertSeason { number } => WriterActionView::UpsertSeason {
                number: *number,
            },
            WriterAction::UpsertEpisode {
                season_id,
                number,
                title,
            } => WriterActionView::UpsertEpisode {
                season_id: *season_id,
                number: *number,
                title: title@,
            },
            WriterAction::UpsertSpeaker { name } => WriterActionView::UpsertSpeaker { name: name@ },
            WriterAction::InsertLine {
                season_id,
                episode_id,
                speaker_id,
                line_number,
                content,
            } => WriterActionView::InsertLine {
                season_id: *season_id,
                episode_id: *episode_id,
                speaker_id: *speaker_id,
                line_number: *line_number,
                content: content@,
            },
            WriterAction::Commit => WriterActionView::Commit,
            WriterAction::Rollback => WriterActionView::Rollback,
        }
    }
}

/// Which request the writer waits on.
#[derive(Clone, Copy, Debug, PartialEq, Eq, Structural)]
pub enum Phase {
    Opening,
    Season,
    Episode,
    Speaker,
    Line,
    Committing,
    RollingBack,
}

/// A run in progress.
pub struct Writer {
    episodes: Vec<PlannedEpisode>,
    phase: Phase,
    episode: usize,
    line: usize,
    season_id: i64,
    episode_id: i64,
}

/// The state of a run: what it writes, which request is open, the episode and
/// the line it is at, and the ids that the store gave for the season and the
/// episode it is in.
pub struct WriterView {
    pub episodes: Seq<PlannedEpisodeView>,
    pub phase: Phase,
    pub episode: int,
    pub line: int,
    pub season_id: i64,
    pub episode_id: i64,
}

/// A run after a step: in progress, with the next request, or over.
pub enum WriterStep {
    Next(Writer, WriterAction),
    Done(Result<(), IngestError>),
}

/// The view of a run after a step.
pub enum WriterStepView {
    Next(WriterView, WriterActionView),
    Done(Result<(), IngestError>),
}

impl View for WriterStep {
    type V = WriterStepView;

    open spec fn view(&self) -> WriterStepView {
        match self {
            WriterStep::Next(writer, action) => WriterStepView::Next(writer@, action@),
            WriterStep::Done(result) => WriterStepView::Done(*result),
        }
    }
}

impl WriterView {
    /// The state that a run on `episodes` starts in, its transaction asked for.
    pub open spec fn initial(episodes: Seq<PlannedEpisodeView>) -> WriterView {
        WriterView {
            episodes,
            phase: Phase::Opening,
            episode: 0,
            line: 0,
            season_id: 0,
            episode_id: 0,
        }
    }

    /// Whether the state is one that a run can be in.
    pub open spec fn wf(self) -> bool {
        &&& 0 <= self.episode < self.episodes.len()
        &&& 0 <= self.line <= self.episodes[self.episode].lines.len()
        &&& self.phase == Phase::Opening ==> self.episode == 0
        &&& self.phase == Phase::Committing ==> self.episode == self.episodes.len() - 1
            && self.line == self.episodes[self.episode].lines.len()
        &&& (self.phase == Phase::Speaker || self.phase == Phase::Line) ==> self.line
            < self.episodes[self.episode].lines.len() && self.line < i32::MAX
        &&& self.phase == Phase::Speaker ==> self.episodes[self.episode].lines[self.line].speaker
            is Some
    }

    /// The request for the episode that the run is at.
    pub open spec fn episode_request(self) -> WriterActionView {
        WriterActionView::UpsertEpisode {
            season_id: self.season_id,
            number: self.episodes[self.episode].number,
            title: self.episodes[self.episode].title,
        }
    }

    /// The request for the line that the run is at, said by `speaker_id`.
    pub open spec fn line_request(self, speaker_id: Option<i64>) -> WriterActionView {
        WriterActionView::InsertLine {
            season_id: self.season_id,
            episode_id: self.episode_id,
            speaker_id,
            line_number: (self.line + 1) as i32,
            content: self.episodes[self.episode].lines[self.line].content,
        }
    }

    /// The run with another request open.
    pub open spec fn waiting(self, phase: Phase) -> WriterView {
        WriterView { phase, ..self }
    }

    /// What a run does once the season and the episode it is at are known and
    /// the lines before `self.line` are written: the next line, with its
    /// speaker first if it names one; after the last line the next episode,
    /// with its season first if that is another one; after the last episode
    /// the commit. A line whose number would not fit ends the run.
    pub open spec fn proceed(self) -> WriterStepView {
        let episode = self.episodes[self.episode];
        if self.line < episode.lines.len() {
            if self.line >= i32::MAX {
                WriterStepView::Next(self.waiting(Phase::RollingBack), WriterActionView::Rollback)
            } else {
                match episode.lines[self.line].speaker {
                    Some(name) => WriterStepView::Next(
                        self.waiting(Phase::Speaker),
                        WriterActionView::UpsertSpeaker { name },
                    ),
                    None => WriterStepView::Next(
                        self.waiting(Phase::Line),
                        self.line_request(None),
                    ),
                }
            }
        } else if self.episode + 1 < self.episodes.len() {
            let next = WriterView { episode: self.episode + 1, line: 0, ..self };
            if self.episodes[self.episode + 1].season_number != episode.season_number {
                WriterStepView::Next(
                    next.waiting(Phase::Season),
                    WriterActionView::UpsertSeason {
                        number: self.episodes[self.episode + 1].season_number,
                    },
                )
            } else {
                WriterStepView::Next(next.waiting(Phase::Episode), next.episode_request())
            }
        } else {
            WriterStepView::Next(self.waiting(Phase::Committing), WriterActionView::Commit)
        }
    }

    /// What a run does on the store's reply to its open request.
    pub open spec fn step(self, reply: StoreReply) -> WriterStepView {
        match (self.phase, reply) {
            (Phase::Opening, StoreReply::Done) => WriterStepView::Next(
                self.waiting(Phase::Season),
                WriterActionView::UpsertSeason { number: self.episodes[0].season_number },
            ),
            (Phase::Season, StoreReply::Id(id)) => {
                let known = WriterView { season_id: id, ..self };
                WriterStepView::Next(known.waiting(Phase::Episode), known.episode_request())
            },
            (Phase::Episode, StoreReply::Id(id)) => WriterView {
                episode_id: id,
                line: 0,
                ..self
            }.proceed(),
            (Phase::Speaker, StoreReply::Id(id)) => WriterStepView::Next(
                self.waiting(Phase::Line),
                self.line_request(Some(id)),
            ),
            (Phase::Line, StoreReply::Done) => WriterView { line: self.line + 1, ..self }.proceed(),
            (Phase::Committing, StoreReply::Done) => WriterStepView::Done(Ok(())),
            (Phase::Opening, _) | (Phase::Committing, _) | (Phase::RollingBack, _) => {
                WriterStepView::Done(Err(IngestError::Storage))
            },
            _ => WriterStepView::Next(self.waiting(Phase::RollingBack), WriterActionView::Rollback),
        }
    }
}

/// How many requests the episodes from index `from` on take at most: for each
/// its season and itself, and for each of its lines the speaker and the line.
pub open spec fn requests_from(episodes: Seq<PlannedEpisodeView>, from: int) -> int
    decreases episodes.len() - from,
{
    if from < 0 || from >= episodes.len() {
        0
    } else {
        2 + 2 * episodes[from].lines.len() + requests_from(episodes, from + 1)
    }
}

impl WriterView {
    /// A bound on the replies that the run still takes.
    pub open spec fn remaining(self) -> int {
        let later = requests_from(self.episodes, self.episode + 1);
        let lines = self.episodes[self.episode].lines.len();
        match self.phase {
            Phase::Opening => later + 2 * lines + 5,
            Phase::Season => later + 2 * lines + 4,
            Phase::Episode => later + 2 * lines + 3,
            Phase::Speaker => later + 2 * (lines - self.line) + 2,
            Phase::Line => later + 2 * (lines - self.line) + 1,
            Phase::Committing => 1,
            Phase::RollingBack => 0,
        }
    }
}

/// The count of requests is never negative.
pub proof fn lemma_requests_from_is_natural(episodes: Seq<PlannedEpisodeView>, from: int)
    ensures
        requests_from(episodes, from) >= 0,
    decreases episodes.len() - from,
{
    if 0 <= from < episodes.len() {
        lemma_requests_from_is_natural(episodes, from + 1);
    }
}

/// A run ends: each reply brings it closer to its end.
pub proof fn lemma_step_makes_progress(writer: WriterView, reply: StoreReply)
    requires
        writer.wf(),
    ensures
        writer.remaining() >= 0,
        writer.step(reply) matches WriterStepView::Next(next, _) ==> 0 <= next.remaining()
            < writer.remaining(),
{
    lemma_requests_from_is_natural(writer.episodes, writer.episode + 1);
    lemma_requests_from_is_natural(writer.episodes, writer.episode + 2);
}

/// What a run asks for, reply by reply, and how it ends if `replies` reach its
/// end.
pub open spec fn run(writer: WriterView, replies: Seq<StoreReply>) -> (
    Seq<WriterActionView>,
    Option<Result<(), IngestError>>,
)
    decreases replies.len(),
{
    if replies.len() == 0 {
        (Seq::empty(), None)
    } else {
        match writer.step(replies[0]) {
            WriterStepView::Done(result) => (Seq::empty(), Some(result)),
            WriterStepView::Next(next, action) => {
                let (actions, result) = run(next, replies.drop_first());
                (seq![action] + actions, result)
            },
        }
    }
}

/// A step leads from a state that a run can be in to another such state.
pub proof fn lemma_step_keeps_wf(writer: WriterView, reply: StoreReply)
    requires
        writer.wf(),
    ensures
        writer.step(reply) matches WriterStepView::Next(next, _) ==> next.wf() && next.episodes
            == writer.episodes,
{
}

/// How many lines the first `upto` episodes hold together.
pub open spec fn lines_before(episodes: Seq<PlannedEpisodeView>, upto: int) -> int
    decreases upto,
{
    if upto <= 0 || upto > episodes.len() {
        0
    } else {
        lines_before(episodes, upto - 1) + episodes[upto - 1].lines.len()
    }
}

/// How many of its lines a run has asked the store to add and got the word
/// that it did.
pub open spec fn lines_written(writer: WriterView) -> int {
    match writer.phase {
        Phase::Opening | Phase::Season | Phase::Episode => lines_before(
            writer.episodes,
            writer.episode,
        ),
        _ => lines_before(writer.episodes, writer.episode) + writer.line,
    }
}

/// Whether a request is the one that a run asks for in its phase: the season
/// and the episode that it is at; the speaker of the line that it is at; that
/// line, with the number of its place in the episode, counted from 1, and
/// under the ids that the store gave for the season and the episode.
pub open spec fn fits(writer: WriterView, action: WriterActionView) -> bool {
    match writer.phase {
        Phase::Opening => action == WriterActionView::Begin,
        Phase::Season => action == (WriterActionView::UpsertSeason {
            number: writer.episodes[writer.episode].season_number,
        }),
        Phase::Episode => action == writer.episode_request(),
        Phase::Speaker => action == (WriterActionView::UpsertSpeaker {
            name: writer.episodes[writer.episode].lines[writer.line].speaker->0,
        }),
        Phase::Line => action is InsertLine && action == writer.line_request(
            action->speaker_id,
        ),
        Phase::Committing => action == WriterActionView::Commit,
        Phase::RollingBack => action == WriterActionView::Rollback,
    }
}

/// A run asks for what its phase says. It begins the transaction once, at its
/// start, and ends well only on the reply to its commit.
pub proof fn lemma_request_fits(writer: WriterView, reply: StoreReply)
    requires
        writer.wf(),
    ensures
        writer.step(reply) matches WriterStepView::Next(next, action) ==> fits(next, action)
            && next.phase != Phase::Opening,
        writer.step(reply) == WriterStepView::Done(Ok::<(), IngestError>(())) ==> writer.phase
            == Phase::Committing && reply == StoreReply::Done,
{
}

/// A fault ends the run, whenever it comes: on a reply `Failed` the writer asks
/// for nothing more than a rollback, whatever the store says then, and the run
/// does not end well.
pub proof fn lemma_fault_ends_run(writer: WriterView, replies: Seq<StoreReply>)
    requires
        writer.wf(),
        replies.len() > 0,
        replies[0] == StoreReply::Failed,
    ensures
        run(writer, replies).0.len() <= 1,
        forall|i: int|
            0 <= i < run(writer, replies).0.len() ==> run(writer, replies).0[i]
                == WriterActionView::Rollback,
        run(writer, replies).1 != Some(Ok::<(), IngestError>(())),
        replies.len() >= 2 ==> run(writer, replies).1 == Some(
            Err::<(), IngestError>(IngestError::Storage),
        ),
{
    reveal_with_fuel(run, 3);
    match writer.step(replies[0]) {
        WriterStepView::Done(_) => {},
        WriterStepView::Next(next, action) => {
            assert(next.phase == Phase::RollingBack);
            let rest = replies.drop_first();
            if rest.len() > 0 {
                assert(next.step(rest[0]) == WriterStepView::Done(Err(IngestError::Storage)));
            }
        },
    }
}

/// The commit is asked for only when the last line of the last episode is
/// written.
pub proof fn lemma_commit_comes_last(writer: WriterView, reply: StoreReply)
    requires
        writer.wf(),
    ensures
        writer.step(reply) matches WriterStepView::Next(next, WriterActionView::Commit)
            ==> next.episode == next.episodes.len() - 1 && next.line
            == next.episodes[next.episode].lines.len(),
{
}

impl View for Writer {
    type V = WriterView;

    closed spec fn view(&self) -> WriterView {
        WriterView {
            episodes: episode_views(self.episodes@),
            phase: self.phase,
            episode: self.episode as int,
            line: self.line as int,
            season_id: self.season_id,
            episode_id: self.episode_id,
        }
    }
}

impl Writer {
    #[verifier::type_invariant]
    spec fn inv(self) -> bool {
        self@.wf()
    }

    /// Starts a run that writes `episodes`. With nothing to write it is over at
    /// once, before any transaction.
    pub fn start(episodes: Vec<PlannedEpisode>) -> (r: WriterStep)
        ensures
            r@ == if episodes.len() == 0 {
                WriterStepView::Done(Err(IngestError::NoRecognizedFiles))
            } else {
                WriterStepView::Next(
                    WriterView::initial(episode_views(episodes@)),
                    WriterActionView::Begin,
                )
            },
    {
        if episodes.len() == 0 {
            WriterStep::Done(Err(IngestError::NoRecognizedFiles))
        } else {
            let writer = Writer {
                episodes,
                phase: Phase::Opening,
                episode: 0,
                line: 0,
                season_id: 0,
                episode_id: 0,
            };
            WriterStep::Next(writer, WriterAction::Begin)
        }
    }

    fn episode_request(&self) -> (r: WriterAction)
        ensures
            r@ == self@.episode_request(),
    {
        proof {
            use_type_invariant(self);
        }
        WriterAction::UpsertEpisode {
            season_id: self.season_id,
            number: self.episodes[self.episode].number,
            title: self.episodes[self.episode].title.clone(),
        }
    }

    fn line_request(&self, speaker_id: Option<i64>) -> (r: WriterAction)
        requires
            self@.line < self@.episodes[self@.episode].lines.len(),
            self@.line < i32::MAX,
        ensures
            r@ == self@.line_request(speaker_id),
    {
        proof {
            use_type_invariant(self);
        }
        WriterAction::InsertLine {
            season_id: self.season_id,
            episode_id: self.episode_id,
            speaker_id,
            line_number: (self.line + 1) as i32,
            content: self.episodes[self.episode].lines[self.line].content.clone(),
        }
    }

    fn waiting(self, phase: Phase) -> (r: Writer)
        requires
            self@.waiting(phase).wf(),
        ensures
            r@ == self@.waiting(phase),
    {
        Writer {
            episodes: self.episodes,
            phase,
            episode: self.episode,
            line: self.line,
            season_id: self.season_id,
            episode_id: self.episode_id,
        }
    }

    fn proceed(self) -> (r: WriterStep)
        ensures
            r@ == self@.proceed(),
    {
        proof {
            use_type_invariant(&self);
            assert(self@.episodes.len() == self.episodes.len());
        }
        let lines = self.episodes[self.episode].lines.len();
        if self.line < lines {
            if self.line >= 0x7fff_ffff {
                WriterStep::Next(self.waiting(Phase::RollingBack), WriterAction::Rollback)
            } else {
                match &self.episodes[self.episode].lines[self.line].speaker {
                    Some(name) => {
                        let action = WriterAction::UpsertSpeaker { name: name.clone() };
                        WriterStep::Next(self.waiting(Phase::Speaker), action)
                    },
                    None => {
                        let action = self.line_request(None);
                        WriterStep::Next(self.waiting(Phase::Line), action)
                    },
                }
            }
        } else if self.episode + 1 < self.episodes.len() {
            let same_season = self.episodes[self.episode + 1].season_number
                == self.episodes[self.episode].season_number;
            let next = Writer {
                episodes: self.episodes,
                phase: if same_season {
                    Phase::Episode
                } else {
                    Phase::Season
                },
                episode: self.episode + 1,
                line: 0,
                season_id: self.season_id,
                episode_id: self.episode_id,
            };
            let action = if same_season {
                next.episode_request()
            } else {
                WriterAction::UpsertSeason { number: next.episodes[next.episode].season_number }
            };
            WriterStep::Next(next, action)
        } else {
            WriterStep::Next(self.waiting(Phase::Committing), WriterAction::Commit)
        }
    }

    /// Takes the store's reply to the open request and says what comes next.
    pub fn step(self, reply: StoreReply) -> (r: WriterStep)
        ensures
            r@ == self@.step(reply),
    {
        proof {
            use_type_invariant(&self);
        }
        match (self.phase, reply) {
            (Phase::Opening, StoreReply::Done) => {
                let action = WriterAction::UpsertSeason { number: self.episodes[0].season_number };
                WriterStep::Next(self.waiting(Phase::Season), action)
            },
            (Phase::Season, StoreReply::Id(id)) => {
                let known = Writer {
                    episodes: self.episodes,
                    phase: Phase::Episode,
                    episode: self.episode,
                    line: self.line,
                    season_id: id,
                    episode_id: self.episode_id,
                };
                let action = known.episode_request();
                WriterStep::Next(known, action)
            },
            (Phase::Episode, StoreReply::Id(id)) => {
                let known = Writer {
                    episodes: self.episodes,
                    phase: self.phase,
                    episode: self.episode,
                    line: 0,
                    season_id: self.season_id,
                    episode_id: id,
                };
                known.proceed()
            },
            (Phase::Speaker, StoreReply::Id(id)) => {
                let action = self.line_request(Some(id));
                WriterStep::Next(self.waiting(Phase::Line), action)
            },
            (Phase::Line, StoreReply::Done) => {
                let moved = Writer {
                    episodes: self.episodes,
                    phase: Phase::Episode,
                    episode: self.episode,
                    line: self.line + 1,
                    season_id: self.season_id,
                    episode_id: self.episode_id,
                };
                moved.proceed()
            },
            (Phase::Committing, StoreReply::Done) => WriterStep::Done(Ok(())),
            (Phase::Opening, _) | (Phase::Committing, _) | (Phase::RollingBack, _) => {
                WriterStep::Done(Err(IngestError::Storage))
            },
            _ => WriterStep::Next(self.waiting(Phase::RollingBack), WriterAction::Rollback),
        }
    }
}

/// Starts the run that ingests `files`: the episodes that their names give, in
/// the order of writing. Where no name gives one the run is over at once.
pub fn ingest(files: &Vec<TranscriptFile>) -> (r: WriterStep)
    ensures
        r@ == match crate::plan::ingestion_plan(crate::plan::file_views(files@)) {
            Ok(episodes) => WriterStepView::Next(
                WriterView::initial(episodes),
                WriterActionView::Begin,
            ),
            Err(error) => WriterStepView::Done(Err(error)),
        },
{
    match plan_ingestion(files) {
        Ok(episodes) => Writer::start(episodes),
        Err(error) => WriterStep::Done(Err(error)),
    }
}

} // verus!
