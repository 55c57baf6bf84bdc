//! A store in memory that serves the requests of an ingestion run, with one
//! open transaction at most, and the run against it from the first request to
//! the last.
//!
//! The store can be told to fail: with a limit of `n` it serves `n` requests
//! and fails every one after them.

use crate::dataset::{
    capacity, lemma_episode_found, lemma_requests_keep_rules, lemma_season_found,
    lemma_speaker_found, Dataset, DatasetView,
};
use crate::plan::{
    file_views, identified, ingestion_plan, lemma_in_order, IngestError, PlannedEpisodeView,
    TranscriptFile,
};
use crate::upload::{ingest_upload, transcripts_of, upload_start};
use crate::writer::{
    fits, lemma_request_fits, lemma_step_keeps_wf, lemma_step_makes_progress, lines_before,
    lines_written, Phase, StoreReply, WriterAction, WriterActionView, WriterStep, WriterStepView,
    WriterView,
};
use vstd::prelude::*;

verus! {

/// The state of a store: the rows as the open transaction sees them, the rows
/// as they were when it began, and how many requests the store still serves.
pub struct StoreState {
    pub current: DatasetView,
    pub saved: Option<DatasetView>,
    pub limit: Option<nat>,
}

impl StoreState {
    /// Whether the rows, and those saved for a rollback, keep the rules of a
    /// dataset.
    pub open spec fn wf(self) -> bool {
        self.current.wf() && (self.saved matches Some(saved) ==> saved.wf())
    }

    /// The rows that are committed: those that a reader outside the open
    /// transaction sees.
    pub open spec fn committed(self) -> DatasetView {
        match self.saved {
            Some(saved) => saved,
            None => self.current,
        }
    }

    /// What a request does to a store that serves it. A transaction begins
    /// where none is open and ends with a commit or a rollback; the rollback
    /// brings the rows back that the transaction began with.
    pub open spec fn serve(self, action: WriterActionView) -> (StoreState, StoreReply) {
        match action {
            WriterActionView::Begin => match self.saved {
                Some(_) => (self, StoreReply::Failed),
                None => (StoreState { saved: Some(self.current), ..self }, StoreReply::Done),
            },
            WriterActionView::Commit => match self.saved {
                Some(_) => (StoreState { saved: None, ..self }, StoreReply::Done),
                None => (self, StoreReply::Failed),
            },
            WriterActionView::Rollback => match self.saved {
                Some(saved) => (
                    StoreState { current: saved, saved: None, ..self },
                    StoreReply::Done,
                ),
                None => (self, StoreReply::Failed),
            },
            WriterActionView::UpsertSeason { number } => {
                let (current, reply) = self.current.upsert_season(number);
                (StoreState { current, ..self }, reply)
            },
            WriterActionView::UpsertEpisode { season_id, number, title } => {
                let (current, reply) = self.current.upsert_episode(season_id, number, title);
                (StoreState { current, ..self }, reply)
            },
            WriterActionView::UpsertSpeaker { name } => {
                let (current, reply) = self.current.upsert_speaker(name);
                (StoreState { current, ..self }, reply)
            },
            WriterActionView::InsertLine {
                season_id,
                episode_id,
                speaker_id,
                line_number,
                content,
            } => {
                let (current, reply) = self.current.insert_line(
                    season_id,
                    episode_id,
                    speaker_id,
                    line_number,
                    content,
                );
                (StoreState { current, ..self }, reply)
            },
        }
    }

    /// What a request does: it fails and changes nothing where the limit is
    /// used up, and is served else.
    pub open spec fn apply(self, action: WriterActionView) -> (StoreState, StoreReply) {
        match self.limit {
            Some(left) => if left == 0 {
                (self, StoreReply::Failed)
            } else {
                StoreState { limit: Some((left - 1) as nat), ..self }.serve(action)
            },
            None => self.serve(action),
        }
    }
}

/// A request leaves a store that keeps the rules. While a transaction is open,
/// only its commit changes what is committed; to begin one and to roll one
/// back never does.
pub proof fn lemma_apply(store: StoreState, action: WriterActionView)
    requires
        store.wf(),
    ensures
        store.apply(action).0.wf(),
        store.saved is Some && action != WriterActionView::Commit ==> store.apply(
            action,
        ).0.committed() == store.committed(),
        action == WriterActionView::Begin || action == WriterActionView::Rollback
            ==> store.apply(action).0.committed() == store.committed(),
        store.saved is Some && !(action == WriterActionView::Commit || action
            == WriterActionView::Rollback) ==> store.apply(action).0.saved == store.saved,
        action == WriterActionView::Begin && store.apply(action).1 == StoreReply::Done
            ==> store.apply(action).0.saved is Some,
        action == WriterActionView::Commit && store.apply(action).1 == StoreReply::Done
            ==> store.apply(action).0.saved is None,
        action != WriterActionView::Rollback ==> forall|number: i32|
            store.current.has_season(number) ==> #[trigger] store.apply(
                action,
            ).0.current.has_season(number),
        action matches WriterActionView::UpsertSeason { number } ==> (store.apply(action).1 is Id
            ==> store.apply(action).0.current.has_season(number)),
        store.apply(action).0.current.lines.len() == store.current.lines.len() + if action
            is InsertLine && store.apply(action).1 == StoreReply::Done {
            1int
        } else {
            0int
        } || action == WriterActionView::Rollback,
        action == WriterActionView::Begin && store.apply(action).1 == StoreReply::Done
            ==> store.apply(action).0.current == store.committed(),
{
    lemma_requests_keep_rules(store.current);
    let after = store.apply(action).0.current;
    if action != WriterActionView::Rollback {
        assert forall|number: i32| store.current.has_season(number) implies #[trigger]
            after.has_season(number) by {
            let i = choose|i: int| store.current.is_season(number, i);
            assert(after.is_season(number, i));
        }
    }
    if let WriterActionView::UpsertSeason { number } = action {
        if store.apply(action).1 is Id && !store.current.has_season(number) {
            assert(after.is_season(number, store.current.seasons.len() as int));
        }
    }
}

/// The store after a series of requests.
pub open spec fn apply_all(store: StoreState, actions: Seq<WriterActionView>) -> StoreState
    decreases actions.len(),
{
    if actions.len() == 0 {
        store
    } else {
        apply_all(store.apply(actions[0]).0, actions.drop_first())
    }
}

/// A speaker keeps its id: whatever is asked of the store in between, short
/// of a rollback, the speaker is there and asking for it again gives the id
/// that it had. So lines of one speaker, in whatever episodes, carry one id.
pub proof fn lemma_speaker_keeps_id(
    store: StoreState,
    actions: Seq<WriterActionView>,
    name: Seq<char>,
)
    requires
        store.wf(),
        store.current.has_speaker(name),
        forall|i: int| 0 <= i < actions.len() ==> actions[i] != WriterActionView::Rollback,
    ensures
        apply_all(store, actions).wf(),
        apply_all(store, actions).current.has_speaker(name),
        apply_all(store, actions).current.upsert_speaker(name).1 == StoreReply::Id(
            store.current.speaker_id(name),
        ),
    decreases actions.len(),
{
    if actions.len() > 0 {
        let after = store.apply(actions[0]).0;
        lemma_apply(store, actions[0]);
        let at = choose|i: int| store.current.is_speaker(name, i);
        assert(after.current.is_speaker(name, at));
        lemma_speaker_found(store.current, name, at);
        lemma_speaker_found(after.current, name, at);
        let rest = actions.drop_first();
        assert forall|i: int| 0 <= i < rest.len() implies rest[i]
            != WriterActionView::Rollback by {
            assert(rest[i] == actions[i + 1]);
        }
        lemma_speaker_keeps_id(after, rest, name);
    }
}

/// A store in memory.
pub struct MemoryStore {
    current: Dataset,
    saved: Option<Dataset>,
    limit: Option<usize>,
}

impl View for MemoryStore {
    type V = StoreState;

    closed spec fn view(&self) -> StoreState {
        StoreState {
            current: self.current@,
            saved: match self.saved {
                Some(saved) => Some(saved@),
                None => None,
            },
            limit: match self.limit {
                Some(left) => Some(left as nat),
                None => None,
            },
        }
    }
}

impl MemoryStore {
    /// A store without rows that serves every request.
    pub fn new() -> (r: MemoryStore)
        ensures
            r@ == (StoreState { current: DatasetView::empty(), saved: None, limit: None }),
            r@.wf(),
    {
        MemoryStore { current: Dataset::new(), saved: None, limit: None }
    }

    /// Lets the store serve `requests` more requests and fail all that follow;
    /// with `None` it serves every request.
    pub fn set_limit(&mut self, requests: Option<usize>)
        ensures
            final(self)@ == (StoreState {
                limit: match requests {
                    Some(left) => Some(left as nat),
                    None => None,
                },
                ..old(self)@
            }),
    {
        self.limit = requests;
    }

    /// The rows that are committed.
    pub fn committed(&self) -> (r: Dataset)
        ensures
            r@ == self@.committed(),
    {
        match &self.saved {
            Some(saved) => saved.duplicate(),
            None => self.current.duplicate(),
        }
    }

    /// Shows that the store keeps the rules.
    fn keeps_rules(&self)
        ensures
            self@.wf(),
    {
        self.current.keeps_rules();
        match &self.saved {
            Some(saved) => saved.keeps_rules(),
            None => {},
        }
    }

    fn serve(&mut self, action: WriterAction) -> (r: StoreReply)
        ensures
            (final(self)@, r) == old(self)@.serve(action@),
    {
        match action {
            WriterAction::Begin => {
                if self.saved.is_some() {
                    StoreReply::Failed
                } else {
                    self.saved = Some(self.current.duplicate());
                    StoreReply::Done
                }
            },
            WriterAction::Commit => {
                if self.saved.is_some() {
                    self.saved = None;
                    StoreReply::Done
                } else {
                    StoreReply::Failed
                }
            },
            WriterAction::Rollback => {
                match self.saved.take() {
                    Some(saved) => {
                        self.current = saved;
                        StoreReply::Done
                    },
                    None => StoreReply::Failed,
                }
            },
            WriterAction::UpsertSeason { number } => self.current.upsert_season(number),
            WriterAction::UpsertEpisode {
                season_id,
                number,
                title,
            } => self.current.upsert_episode(season_id, number, title),
            WriterAction::UpsertSpeaker { name } => self.current.upsert_speaker(name),
            WriterAction::InsertLine {
                season_id,
                episode_id,
                speaker_id,
                line_number,
                content,
            } => self.current.insert_line(season_id, episode_id, speaker_id, line_number, content),
        }
    }

    /// Takes a request and replies to it.
    pub fn apply(&mut self, action: WriterAction) -> (r: StoreReply)
        ensures
            (final(self)@, r) == old(self)@.apply(action@),
            final(self)@.wf(),
    {
        self.keeps_rules();
        proof {
            lemma_apply(self@, action@);
        }
        match self.limit {
            Some(left) => {
                if left == 0 {
                    return StoreReply::Failed;
                }
                self.limit = Some(left - 1);
            },
            None => {},
        }
        self.serve(action)
    }
}

/// How many of its episodes a run has asked the season of and got it.
pub open spec fn seasons_asked(writer: WriterView) -> int {
    match writer.phase {
        Phase::Opening | Phase::Season | Phase::RollingBack => writer.episode,
        _ => writer.episode + 1,
    }
}

/// Whether the season of each of the first `upto` episodes is a row.
pub open spec fn seasons_stored(data: DatasetView, episodes: Seq<PlannedEpisodeView>, upto: int)
    -> bool {
    forall|k: int| 0 <= k < upto <= episodes.len() ==> data.has_season(
        (#[trigger] episodes[k]).season_number,
    )
}

/// Whether the store is where a run at this step has left it, for a run that
/// writes `episodes` and started on the committed rows `before`.
pub open spec fn on_track(
    step: WriterStepView,
    store: StoreState,
    before: DatasetView,
    episodes: Seq<PlannedEpisodeView>,
) -> bool {
    match step {
        WriterStepView::Done(Ok(_)) => {
            &&& store.saved is None
            &&& seasons_stored(store.current, episodes, episodes.len() as int)
            &&& store.current.lines.len() == before.lines.len() + lines_before(
                episodes,
                episodes.len() as int,
            )
        },
        WriterStepView::Done(Err(_)) => store.committed() == before,
        WriterStepView::Next(writer, action) => {
            &&& writer.wf()
            &&& writer.episodes == episodes
            &&& fits(writer, action)
            &&& store.committed() == before
            &&& writer.phase != Phase::Opening ==> store.saved is Some
            &&& writer.phase != Phase::RollingBack ==> seasons_stored(
                store.current,
                episodes,
                seasons_asked(writer),
            )
            &&& writer.phase != Phase::RollingBack && writer.phase != Phase::Opening
                ==> store.current.lines.len() == before.lines.len() + lines_written(writer)
        },
    }
}

/// One request of a run, served by the store and answered, leaves the store
/// where the run has left it.
pub proof fn lemma_step_stays_on_track(
    writer: WriterView,
    action: WriterActionView,
    store: StoreState,
    before: DatasetView,
)
    requires
        store.wf(),
        on_track(WriterStepView::Next(writer, action), store, before, writer.episodes),
    ensures
        on_track(
            writer.step(store.apply(action).1),
            store.apply(action).0,
            before,
            writer.episodes,
        ),
{
    let (after, reply) = store.apply(action);
    let episodes = writer.episodes;
    lemma_apply(store, action);
    lemma_step_keeps_wf(writer, reply);
    lemma_request_fits(writer, reply);
    if writer.phase != Phase::RollingBack {
        assert(seasons_stored(after.current, episodes, seasons_asked(writer)));
        match writer.step(reply) {
            WriterStepView::Next(next, _) => {
                if next.phase != Phase::RollingBack {
                    assert forall|k: int| 0 <= k < seasons_asked(next) implies after.current.has_season(
                        (#[trigger] episodes[k]).season_number,
                    ) by {
                        if k >= seasons_asked(writer) {
                            if writer.phase == Phase::Season {
                                assert(k == writer.episode);
                            } else {
                                assert(k == writer.episode + 1);
                                assert(after.current.has_season(
                                    episodes[writer.episode].season_number,
                                ));
                            }
                        }
                    }
                }
            },
            WriterStepView::Done(_) => {},
        }
    }
}

/// How many replies a run at this step still takes, at most.
pub open spec fn steps_left(step: WriterStepView) -> int {
    match step {
        WriterStepView::Done(_) => 0,
        WriterStepView::Next(writer, _) => writer.remaining() + 1,
    }
}

/// The run from `step` on against `store`: each request is served and
/// answered until the run is over. What the store is then, and how the run
/// ended.
pub open spec fn drive(step: WriterStepView, store: StoreState) -> (
    StoreState,
    Result<(), IngestError>,
)
    decreases steps_left(step),
    when step matches WriterStepView::Next(writer, _) ==> writer.wf()
{
    match step {
        WriterStepView::Done(result) => (store, result),
        WriterStepView::Next(writer, action) => {
            let (after, reply) = store.apply(action);
            proof {
                lemma_step_makes_progress(writer, reply);
            }
            drive(writer.step(reply), after)
        },
    }
}

/// A run is all or nothing, a season is one row, and every line is added.
/// Where the run fails, the committed rows are those from before it. Where it
/// succeeds, no transaction is left open; the season of every episode of the
/// run is a row, and one row by the rules of a dataset, however often the
/// season was ingested before; and there are as many lines more as the
/// episodes of the run hold, whether or not such lines were there before.
pub proof fn lemma_drive_is_all_or_nothing(
    step: WriterStepView,
    store: StoreState,
    before: DatasetView,
    episodes: Seq<PlannedEpisodeView>,
)
    requires
        store.wf(),
        on_track(step, store, before, episodes),
    ensures
        drive(step, store).0.wf(),
        drive(step, store).1 is Err ==> drive(step, store).0.committed() == before,
        drive(step, store).1 is Ok ==> drive(step, store).0.saved is None && seasons_stored(
            drive(step, store).0.committed(),
            episodes,
            episodes.len() as int,
        ) && drive(step, store).0.committed().lines.len() == before.lines.len() + lines_before(
            episodes,
            episodes.len() as int,
        ),
    decreases steps_left(step),
{
    match step {
        WriterStepView::Done(_) => {},
        WriterStepView::Next(writer, action) => {
            let (after, reply) = store.apply(action);
            lemma_apply(store, action);
            lemma_step_makes_progress(writer, reply);
            lemma_step_stays_on_track(writer, action, store, before);
            lemma_drive_is_all_or_nothing(writer.step(reply), after, before, episodes);
        },
    }
}

/// The episodes that the ingestion of `entries` writes; none where it ends
/// before it begins.
pub open spec fn episodes_of(entries: Seq<crate::plan::TranscriptFileView>) -> Seq<
    PlannedEpisodeView,
> {
    match upload_start(entries) {
        WriterStepView::Next(writer, _) => writer.episodes,
        WriterStepView::Done(_) => Seq::empty(),
    }
}

/// Whether each table has room for `more` rows.
pub open spec fn has_room(data: DatasetView, more: int) -> bool {
    &&& data.seasons.len() + more <= capacity()
    &&& data.episodes.len() + more <= capacity()
    &&& data.speakers.len() + more <= capacity()
    &&& data.lines.len() + more <= capacity()
}

/// What a store without a limit answers to a request for which it has room:
/// it knows the season, the episode and the speaker that it gave an id for,
/// takes an episode of a season that it knows, and takes a line of an episode
/// and a speaker that it knows. What it knew before, it knows after.
pub proof fn lemma_served(store: StoreState, action: WriterActionView)
    requires
        store.wf(),
        store.limit is None,
        has_room(store.current, 1),
        action != WriterActionView::Rollback,
    ensures
        action == WriterActionView::Begin && store.saved is None ==> store.apply(action).1
            == StoreReply::Done,
        action == WriterActionView::Commit && store.saved is Some ==> store.apply(action).1
            == StoreReply::Done,
        action is UpsertSeason ==> (store.apply(action).1 matches StoreReply::Id(id) && 1 <= id
            <= store.apply(action).0.current.seasons.len()),
        action matches WriterActionView::UpsertEpisode { season_id, .. } ==> (1 <= season_id
            <= store.current.seasons.len() ==> (store.apply(action).1 matches StoreReply::Id(id)
            && store.apply(action).0.current.accepts(season_id, id, None))),
        action is UpsertSpeaker ==> (store.apply(action).1 matches StoreReply::Id(id) && 1 <= id
            <= store.apply(action).0.current.speakers.len()),
        action matches WriterActionView::InsertLine { season_id, episode_id, speaker_id, .. }
            ==> (store.current.accepts(season_id, episode_id, speaker_id) ==> store.apply(
            action,
        ).1 == StoreReply::Done),
        store.apply(action).0.limit is None,
        has_room(store.apply(action).0.current, 0),
        store.current.seasons.len() <= store.apply(action).0.current.seasons.len(),
        store.current.speakers.len() <= store.apply(action).0.current.speakers.len(),
        forall|season_id: i64, episode_id: i64|
            store.current.accepts(season_id, episode_id, None) ==> #[trigger] store.apply(
                action,
            ).0.current.accepts(season_id, episode_id, None),
{
    let data = store.current;
    let after = store.apply(action).0.current;
    lemma_requests_keep_rules(data);
    match action {
        WriterActionView::UpsertSeason { number } => {
            if data.has_season(number) {
                let i = choose|i: int| data.is_season(number, i);
                lemma_season_found(data, number, i);
            }
        },
        WriterActionView::UpsertEpisode { season_id, number, title } => {
            if 1 <= season_id <= data.seasons.len() {
                if data.has_episode(season_id, number) {
                    let at = data.episode_index(season_id, number);
                    assert(data.is_episode(season_id, number, at));
                    assert(after.episodes[at].season_id == season_id);
                }
            }
            assert forall|s: i64, e: i64| data.accepts(s, e, None) implies #[trigger] after.accepts(
                s,
                e,
                None,
            ) by {
                assert(after.episodes[e - 1].season_id == data.episodes[e - 1].season_id);
            }
        },
        WriterActionView::UpsertSpeaker { name } => {
            if data.has_speaker(name) {
                let i = choose|i: int| data.is_speaker(name, i);
                lemma_speaker_found(data, name, i);
            }
        },
        _ => {},
    }
}

/// Whether a run at this step is one that the store serves to its end: the
/// store has no limit and room for what is left, no transaction is open
/// before the run opens its own, no episode has more lines than there are line
/// numbers, and the ids that the run holds are ids of rows.
pub open spec fn is_served(writer: WriterView, action: WriterActionView, store: StoreState)
    -> bool {
    &&& store.limit is None
    &&& has_room(store.current, writer.remaining())
    &&& forall|k: int|
        0 <= k < writer.episodes.len() ==> (#[trigger] writer.episodes[k]).lines.len()
            <= i32::MAX
    &&& writer.phase != Phase::RollingBack
    &&& writer.phase == Phase::Opening ==> store.saved is None
    &&& writer.phase == Phase::Episode ==> 1 <= writer.season_id
        <= store.current.seasons.len()
    &&& writer.phase == Phase::Speaker ==> store.current.accepts(
        writer.season_id,
        writer.episode_id,
        None,
    )
    &&& writer.phase == Phase::Line ==> store.current.accepts(
        writer.season_id,
        writer.episode_id,
        action->speaker_id,
    )
}

/// A run that the store serves stays one: the store gives the reply that the
/// run waits on, and the run goes on or ends well.
pub proof fn lemma_step_stays_served(
    writer: WriterView,
    action: WriterActionView,
    store: StoreState,
    before: DatasetView,
)
    requires
        store.wf(),
        on_track(WriterStepView::Next(writer, action), store, before, writer.episodes),
        is_served(writer, action, store),
    ensures
        match writer.step(store.apply(action).1) {
            WriterStepView::Next(next, request) => is_served(next, request, store.apply(action).0),
            WriterStepView::Done(result) => result is Ok,
        },
{
    let (after, reply) = store.apply(action);
    lemma_step_makes_progress(writer, reply);
    lemma_step_keeps_wf(writer, reply);
    lemma_request_fits(writer, reply);
    lemma_apply(store, action);
    lemma_served(store, action);
    let lines = writer.episodes[writer.episode].lines;
    assert(lines.len() <= i32::MAX);
    match writer.step(reply) {
        WriterStepView::Next(next, request) => {
            assert(next.episodes == writer.episodes);
            if writer.phase == Phase::Speaker || writer.phase == Phase::Line {
                assert(store.current.accepts(writer.season_id, writer.episode_id, None));
                assert(after.current.accepts(writer.season_id, writer.episode_id, None));
            }
        },
        WriterStepView::Done(_) => {},
    }
}

/// A store without a limit, with room and without an open transaction serves
/// a run to its end, and the run succeeds: no request of a run refers to a row
/// that is not there.
pub proof fn lemma_served_run_succeeds(
    step: WriterStepView,
    store: StoreState,
    before: DatasetView,
    episodes: Seq<PlannedEpisodeView>,
)
    requires
        store.wf(),
        on_track(step, store, before, episodes),
        step matches WriterStepView::Next(writer, action) ==> is_served(writer, action, store),
        step matches WriterStepView::Done(result) ==> result is Ok,
    ensures
        drive(step, store).1 is Ok,
    decreases steps_left(step),
{
    match step {
        WriterStepView::Done(_) => {},
        WriterStepView::Next(writer, action) => {
            let (after, reply) = store.apply(action);
            lemma_apply(store, action);
            lemma_step_makes_progress(writer, reply);
            lemma_step_stays_on_track(writer, action, store, before);
            lemma_step_stays_served(writer, action, store, before);
            lemma_served_run_succeeds(writer.step(reply), after, before, episodes);
        },
    }
}

/// The ingestion of an archive starts on track, whatever the store holds.
pub proof fn lemma_upload_starts_on_track(
    entries: Seq<crate::plan::TranscriptFileView>,
    store: StoreState,
)
    ensures
        on_track(upload_start(entries), store, store.committed(), episodes_of(entries)),
{
    lemma_in_order(identified(transcripts_of(entries)));
}

/// Ingests the entries of an archive into the store, in one transaction: runs
/// the ingestion from its first request to its end.
///
/// The run is all or nothing: where it fails, the committed rows are those from
/// before it. Where it succeeds, no transaction is left open, the season of
/// every episode of the run is one row, and every line of the run is added.
/// Either way the rows keep the rules of a dataset. The run succeeds where the
/// store serves it: with no limit, room in its tables and no transaction open.
#[verifier::loop_isolation(false)]
pub fn ingest_into(store: &mut MemoryStore, entries: &Vec<TranscriptFile>) -> (r: Result<
    (),
    IngestError,
>)
    ensures
        (final(store)@, r) == drive(upload_start(file_views(entries@)), old(store)@),
        final(store)@.wf(),
        r is Err ==> final(store)@.committed() == old(store)@.committed(),
        r is Ok ==> final(store)@.saved is None && seasons_stored(
            final(store)@.committed(),
            episodes_of(file_views(entries@)),
            episodes_of(file_views(entries@)).len() as int,
        ) && final(store)@.committed().lines.len() == old(store)@.committed().lines.len()
            + lines_before(
            episodes_of(file_views(entries@)),
            episodes_of(file_views(entries@)).len() as int,
        ),
        upload_start(file_views(entries@)) matches WriterStepView::Next(writer, action)
            && is_served(writer, action, old(store)@) ==> r is Ok,
{
    store.keeps_rules();
    let ghost start = upload_start(file_views(entries@));
    let mut step = ingest_upload(entries);
    proof {
        lemma_upload_starts_on_track(file_views(entries@), store@);
        lemma_drive_is_all_or_nothing(
            start,
            store@,
            store@.committed(),
            episodes_of(file_views(entries@)),
        );
        if let WriterStepView::Next(writer, action) = start {
            if is_served(writer, action, store@) {
                lemma_served_run_succeeds(
                    start,
                    store@,
                    store@.committed(),
                    episodes_of(file_views(entries@)),
                );
            }
        }
    }
    loop
        invariant
            store@.wf(),
            step@ matches WriterStepView::Next(writer, _) ==> writer.wf(),
            drive(step@, store@) == drive(start, old(store)@),
        decreases steps_left(step@),
    {
        match step {
            WriterStep::Done(result) => {
                return result;
            },
            WriterStep::Next(writer, action) => {
                proof {
                    lemma_step_keeps_wf(writer@, store@.apply(action@).1);
                    lemma_step_makes_progress(writer@, store@.apply(action@).1);
                }
                let reply = store.apply(action);
                step = writer.step(reply);
            },
        }
    }
}

} // verus!
