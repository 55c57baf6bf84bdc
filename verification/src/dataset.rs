//! The rows of one tenant's dataset, held in memory, and what the requests of
//! an ingestion run do to them.
//!
//! This is the behaviour that a run counts on in a store: a season is found
//! again by its number, an episode by its season and its number, a speaker by
//! its name; a line is added every time, never merged with one that is there.
//! What refers to a row that is not there is refused. Ids count from 1 in the
//! order in which the rows came.

use crate::models::{text_of, Episode, EpisodeView, Line, LineView, Season, Speaker, SpeakerView};
use crate::text::same_text;
use crate::writer::StoreReply;
use vstd::prelude::*;

verus! {

/// The views of episodes, one for one.
pub open spec fn episode_views(episodes: Seq<Episode>) -> Seq<EpisodeView> {
    Seq::new(episodes.len(), |i: int| episodes[i]@)
}

/// The views of speakers, one for one.
pub open spec fn speaker_views(speakers: Seq<Speaker>) -> Seq<SpeakerView> {
    Seq::new(speakers.len(), |i: int| speakers[i]@)
}

/// The most rows that a table takes.
pub open spec fn capacity() -> int {
    0x7fff_ffff_ffff_fffe
}

/// The rows of a dataset.
pub struct DatasetView {
    pub seasons: Seq<Season>,
    pub episodes: Seq<EpisodeView>,
    pub speakers: Seq<SpeakerView>,
    pub lines: Seq<LineView>,
}

impl DatasetView {
    /// The dataset without rows.
    pub open spec fn empty() -> DatasetView {
        DatasetView {
            seasons: Seq::empty(),
            episodes: Seq::empty(),
            speakers: Seq::empty(),
            lines: Seq::empty(),
        }
    }

    /// Whether season `i` has this number.
    pub open spec fn is_season(self, number: i32, i: int) -> bool {
        0 <= i < self.seasons.len() && self.seasons[i].number == number
    }

    /// Whether episode `i` has this number in this season.
    pub open spec fn is_episode(self, season_id: i64, number: i32, i: int) -> bool {
        0 <= i < self.episodes.len() && self.episodes[i].season_id == season_id
            && self.episodes[i].number == number
    }

    /// Whether speaker `i` has this name.
    pub open spec fn is_speaker(self, name: Seq<char>, i: int) -> bool {
        0 <= i < self.speakers.len() && self.speakers[i].name == name
    }

    /// Whether a line refers to rows that are there: its episode is a row and
    /// belongs to the season that the line names; its speaker, if it has one,
    /// is a row, and the name that the line carries is that speaker's.
    pub open spec fn refers(self, line: LineView) -> bool {
        &&& 1 <= line.episode_id <= self.episodes.len()
        &&& self.episodes[line.episode_id - 1].season_id == line.season_id
        &&& line.speaker_id matches Some(id) ==> 1 <= id <= self.speakers.len()
        &&& line.speaker_name == self.name_of(line.speaker_id)
    }

    /// The rules of a dataset: the id of a row is its place in its table,
    /// counted from 1; no two seasons have one number, no two episodes of a
    /// season one number, no two speakers one name; the season of an episode
    /// is a row; the episode of a line is a row of the line's season, and so
    /// is its speaker if it has one.
    pub open spec fn wf(self) -> bool {
        &&& self.seasons.len() <= capacity()
        &&& self.episodes.len() <= capacity()
        &&& self.speakers.len() <= capacity()
        &&& self.lines.len() <= capacity()
        &&& forall|i: int| 0 <= i < self.seasons.len() ==> (#[trigger] self.seasons[i]).id == i + 1
        &&& forall|i: int|
            0 <= i < self.episodes.len() ==> (#[trigger] self.episodes[i]).id == i + 1
        &&& forall|i: int|
            0 <= i < self.speakers.len() ==> (#[trigger] self.speakers[i]).id == i + 1
        &&& forall|i: int| 0 <= i < self.lines.len() ==> (#[trigger] self.lines[i]).id == i + 1
        &&& forall|i: int, j: int|
            0 <= i < j < self.seasons.len() ==> (#[trigger] self.seasons[i]).number != (
            #[trigger] self.seasons[j]).number
        &&& forall|i: int, j: int|
            0 <= i < j < self.episodes.len() ==> !((#[trigger] self.episodes[i]).season_id == (
            #[trigger] self.episodes[j]).season_id && self.episodes[i].number
                == self.episodes[j].number)
        &&& forall|i: int, j: int|
            0 <= i < j < self.speakers.len() ==> (#[trigger] self.speakers[i]).name != (
            #[trigger] self.speakers[j]).name
        &&& forall|i: int|
            0 <= i < self.episodes.len() ==> 1 <= (#[trigger] self.episodes[i]).season_id
                <= self.seasons.len()
        &&& forall|i: int| 0 <= i < self.lines.len() ==> self.refers(#[trigger] self.lines[i])
    }

    /// Whether a season has this number.
    pub open spec fn has_season(self, number: i32) -> bool {
        exists|i: int| self.is_season(number, i)
    }

    /// Whether an episode has this number in this season.
    pub open spec fn has_episode(self, season_id: i64, number: i32) -> bool {
        exists|i: int| self.is_episode(season_id, number, i)
    }

    /// Whether a speaker has this name.
    pub open spec fn has_speaker(self, name: Seq<char>) -> bool {
        exists|i: int| self.is_speaker(name, i)
    }

    /// The id of the season with this number, where there is one.
    pub open spec fn season_id(self, number: i32) -> i64 {
        self.seasons[choose|i: int| self.is_season(number, i)].id
    }

    /// The place of the episode with this number in this season, where there
    /// is one.
    pub open spec fn episode_index(self, season_id: i64, number: i32) -> int {
        choose|i: int| self.is_episode(season_id, number, i)
    }

    /// The id of the speaker with this name, where there is one.
    pub open spec fn speaker_id(self, name: Seq<char>) -> i64 {
        self.speakers[choose|i: int| self.is_speaker(name, i)].id
    }

    /// The season with this number is looked up; where there is none and the
    /// table has room, it is added.
    pub open spec fn upsert_season(self, number: i32) -> (DatasetView, StoreReply) {
        if self.has_season(number) {
            (self, StoreReply::Id(self.season_id(number)))
        } else if self.seasons.len() >= capacity() {
            (self, StoreReply::Failed)
        } else {
            let id = (self.seasons.len() + 1) as i64;
            (
                DatasetView { seasons: self.seasons.push(Season { id, number }), ..self },
                StoreReply::Id(id),
            )
        }
    }

    /// The episode with this number in this season gets this title; where
    /// there is none and the table has room, it is added. The request fails
    /// where the season is no row.
    pub open spec fn upsert_episode(self, season_id: i64, number: i32, title: Seq<char>) -> (
        DatasetView,
        StoreReply,
    ) {
        if !(1 <= season_id <= self.seasons.len()) {
            (self, StoreReply::Failed)
        } else if self.has_episode(season_id, number) {
            let at = self.episode_index(season_id, number);
            let row = EpisodeView { title, ..self.episodes[at] };
            (
                DatasetView { episodes: self.episodes.update(at, row), ..self },
                StoreReply::Id(row.id),
            )
        } else if self.episodes.len() >= capacity() {
            (self, StoreReply::Failed)
        } else {
            let id = (self.episodes.len() + 1) as i64;
            let row = EpisodeView { id, season_id, number, title };
            (DatasetView { episodes: self.episodes.push(row), ..self }, StoreReply::Id(id))
        }
    }

    /// The speaker with this name is looked up; where there is none and the
    /// table has room, it is added.
    pub open spec fn upsert_speaker(self, name: Seq<char>) -> (DatasetView, StoreReply) {
        if self.has_speaker(name) {
            (self, StoreReply::Id(self.speaker_id(name)))
        } else if self.speakers.len() >= capacity() {
            (self, StoreReply::Failed)
        } else {
            let id = (self.speakers.len() + 1) as i64;
            (
                DatasetView { speakers: self.speakers.push(SpeakerView { id, name }), ..self },
                StoreReply::Id(id),
            )
        }
    }

    /// The name of the speaker with this id, where an id is given and a
    /// speaker has it.
    pub open spec fn name_of(self, speaker_id: Option<i64>) -> Option<Seq<char>> {
        match speaker_id {
            Some(id) => if 1 <= id <= self.speakers.len() {
                Some(self.speakers[id - 1].name)
            } else {
                None
            },
            None => None,
        }
    }

    /// Whether a line under these ids would refer to rows that are there.
    pub open spec fn accepts(self, season_id: i64, episode_id: i64, speaker_id: Option<i64>)
        -> bool {
        &&& 1 <= episode_id <= self.episodes.len()
        &&& self.episodes[episode_id - 1].season_id == season_id
        &&& speaker_id matches Some(id) ==> 1 <= id <= self.speakers.len()
    }

    /// A line is added, where the table has room. The request fails where the
    /// line would refer to a row that is not there.
    pub open spec fn insert_line(
        self,
        season_id: i64,
        episode_id: i64,
        speaker_id: Option<i64>,
        line_number: i32,
        content: Seq<char>,
    ) -> (DatasetView, StoreReply) {
        if self.lines.len() >= capacity() || !self.accepts(season_id, episode_id, speaker_id) {
            (self, StoreReply::Failed)
        } else {
            let row = LineView {
                id: (self.lines.len() + 1) as i64,
                season_id,
                episode_id,
                speaker_id,
                speaker_name: self.name_of(speaker_id),
                line_number,
                content,
            };
            (DatasetView { lines: self.lines.push(row), ..self }, StoreReply::Done)
        }
    }
}

/// A season is found at one place only.
pub proof fn lemma_season_found(data: DatasetView, number: i32, i: int)
    requires
        data.wf(),
        data.is_season(number, i),
    ensures
        data.has_season(number),
        data.season_id(number) == data.seasons[i].id,
        data.season_id(number) == i + 1,
{
    let j = choose|j: int| data.is_season(number, j);
    assert(data.seasons[i].number == data.seasons[j].number);
    assert(i == j);
}

/// An episode is found at one place only.
pub proof fn lemma_episode_found(data: DatasetView, season_id: i64, number: i32, i: int)
    requires
        data.wf(),
        data.is_episode(season_id, number, i),
    ensures
        data.has_episode(season_id, number),
        data.episode_index(season_id, number) == i,
{
    let j = data.episode_index(season_id, number);
    assert(data.episodes[i].season_id == data.episodes[j].season_id);
    assert(i == j);
}

/// A speaker is found at one place only.
pub proof fn lemma_speaker_found(data: DatasetView, name: Seq<char>, i: int)
    requires
        data.wf(),
        data.is_speaker(name, i),
    ensures
        data.has_speaker(name),
        data.speaker_id(name) == data.speakers[i].id,
        data.speaker_id(name) == i + 1,
{
    let j = choose|j: int| data.is_speaker(name, j);
    assert(data.speakers[i].name == data.speakers[j].name);
    assert(i == j);
}

/// Every request leaves a dataset that keeps the rules.
pub proof fn lemma_requests_keep_rules(data: DatasetView)
    requires
        data.wf(),
    ensures
        forall|number: i32| (#[trigger] data.upsert_season(number)).0.wf(),
        forall|season_id: i64, number: i32, title: Seq<char>|
            (#[trigger] data.upsert_episode(season_id, number, title)).0.wf(),
        forall|name: Seq<char>| (#[trigger] data.upsert_speaker(name)).0.wf(),
        forall|
            season_id: i64,
            episode_id: i64,
            speaker_id: Option<i64>,
            line_number: i32,
            content: Seq<char>,
        |
            (#[trigger] data.insert_line(
                season_id,
                episode_id,
                speaker_id,
                line_number,
                content,
            )).0.wf(),
{
    assert forall|number: i32| (#[trigger] data.upsert_season(number)).0.wf() by {
        let after = data.upsert_season(number).0;
        if !data.has_season(number) && data.seasons.len() < capacity() {
            assert forall|i: int, j: int| 0 <= i < j < after.seasons.len() implies (
            #[trigger] after.seasons[i]).number != (#[trigger] after.seasons[j]).number by {
                if j == data.seasons.len() {
                    assert(!data.is_season(number, i));
                }
            }
        }
    }
    assert forall|season_id: i64, number: i32, title: Seq<char>|
        (#[trigger] data.upsert_episode(season_id, number, title)).0.wf() by {
        let after = data.upsert_episode(season_id, number, title).0;
        if data.has_episode(season_id, number) {
            let at = data.episode_index(season_id, number);
            assert(data.is_episode(season_id, number, at));
            assert forall|i: int, j: int| 0 <= i < j < after.episodes.len() implies !((
            #[trigger] after.episodes[i]).season_id == (#[trigger] after.episodes[j]).season_id
                && after.episodes[i].number == after.episodes[j].number) by {
                assert(after.episodes[i].season_id == data.episodes[i].season_id);
                assert(after.episodes[j].season_id == data.episodes[j].season_id);
            }
        } else if data.episodes.len() < capacity() {
            assert forall|i: int, j: int| 0 <= i < j < after.episodes.len() implies !((
            #[trigger] after.episodes[i]).season_id == (#[trigger] after.episodes[j]).season_id
                && after.episodes[i].number == after.episodes[j].number) by {
                if j == data.episodes.len() {
                    assert(!data.is_episode(season_id, number, i));
                }
            }
        }
    }
    assert forall|name: Seq<char>| (#[trigger] data.upsert_speaker(name)).0.wf() by {
        let after = data.upsert_speaker(name).0;
        if !data.has_speaker(name) && data.speakers.len() < capacity() {
            assert forall|i: int, j: int| 0 <= i < j < after.speakers.len() implies (
            #[trigger] after.speakers[i]).name != (#[trigger] after.speakers[j]).name by {
                if j == data.speakers.len() {
                    assert(!data.is_speaker(name, i));
                }
            }
        }
    }
}

/// Asking for a season twice gives its id twice and one row: the second
/// request changes nothing, and the season stands at one place only.
pub proof fn lemma_season_upsert_is_idempotent(data: DatasetView, number: i32)
    requires
        data.wf(),
        data.upsert_season(number).1 is Id,
    ensures
        ({
            let (once, first) = data.upsert_season(number);
            let (twice, second) = once.upsert_season(number);
            &&& twice == once
            &&& second == first
            &&& once.has_season(number)
            &&& forall|i: int, j: int|
                once.is_season(number, i) && once.is_season(number, j) ==> i == j
        }),
{
    let (once, first) = data.upsert_season(number);
    lemma_requests_keep_rules(data);
    if data.has_season(number) {
    } else {
        let at = data.seasons.len() as int;
        assert(once.is_season(number, at));
        lemma_season_found(once, number, at);
    }
}

/// Asking for a speaker twice gives the same id twice: the second request
/// changes nothing.
pub proof fn lemma_speaker_upsert_is_idempotent(data: DatasetView, name: Seq<char>)
    requires
        data.wf(),
        data.upsert_speaker(name).1 is Id,
    ensures
        ({
            let (once, first) = data.upsert_speaker(name);
            let (twice, second) = once.upsert_speaker(name);
            &&& twice == once
            &&& second == first
            &&& once.has_speaker(name)
            &&& forall|i: int, j: int|
                once.is_speaker(name, i) && once.is_speaker(name, j) ==> i == j
        }),
{
    let (once, first) = data.upsert_speaker(name);
    lemma_requests_keep_rules(data);
    if data.has_speaker(name) {
    } else {
        let at = data.speakers.len() as int;
        assert(once.is_speaker(name, at));
        lemma_speaker_found(once, name, at);
    }
}

/// Asking for an episode again keeps its id and its place, adds no row, and
/// leaves it with the title of the last request.
pub proof fn lemma_episode_upsert_overwrites_title(
    data: DatasetView,
    season_id: i64,
    number: i32,
    first_title: Seq<char>,
    second_title: Seq<char>,
)
    requires
        data.wf(),
        data.upsert_episode(season_id, number, first_title).1 is Id,
    ensures
        ({
            let (once, first) = data.upsert_episode(season_id, number, first_title);
            let (twice, second) = once.upsert_episode(season_id, number, second_title);
            let at = once.episode_index(season_id, number);
            &&& second == first
            &&& twice.episodes.len() == once.episodes.len()
            &&& once.is_episode(season_id, number, at)
            &&& twice.episodes[at].title == second_title
            &&& twice.episodes[at].id == once.episodes[at].id
            &&& forall|i: int| 0 <= i < once.episodes.len() && i != at ==> twice.episodes[i] == once.episodes[i]
        }),
{
    let (once, first) = data.upsert_episode(season_id, number, first_title);
    lemma_requests_keep_rules(data);
    if data.has_episode(season_id, number) {
        let at = data.episode_index(season_id, number);
        assert(data.is_episode(season_id, number, at));
        assert(once.is_episode(season_id, number, at));
        lemma_episode_found(once, season_id, number, at);
    } else {
        let at = data.episodes.len() as int;
        assert(once.is_episode(season_id, number, at));
        lemma_episode_found(once, season_id, number, at);
    }
}

/// A dataset in memory. It keeps the rules of a dataset at all times.
pub struct Dataset {
    seasons: Vec<Season>,
    episodes: Vec<Episode>,
    speakers: Vec<Speaker>,
    lines: Vec<Line>,
}

impl View for Dataset {
    type V = DatasetView;

    closed spec fn view(&self) -> DatasetView {
        DatasetView {
            seasons: self.seasons@,
            episodes: episode_views(self.episodes@),
            speakers: speaker_views(self.speakers@),
            lines: crate::models::line_views(self.lines@),
        }
    }
}

/// Whether a table with `rows` rows is full.
fn is_full(rows: usize) -> (r: bool)
    ensures
        r == (rows >= capacity()),
{
    rows as u64 >= 0x7fff_ffff_ffff_fffe
}

/// The id of the row that comes behind `rows` rows.
fn next_id(rows: usize) -> (r: i64)
    requires
        rows < capacity(),
    ensures
        r == rows + 1,
{
    (rows as u64 + 1) as i64
}

impl Dataset {
    #[verifier::type_invariant]
    spec fn inv(&self) -> bool {
        self@.wf()
    }

    /// A dataset without rows.
    pub fn new() -> (r: Dataset)
        ensures
            r@ == DatasetView::empty(),
            r@.wf(),
    {
        let r = Dataset {
            seasons: Vec::new(),
            episodes: Vec::new(),
            speakers: Vec::new(),
            lines: Vec::new(),
        };
        assert(r@.episodes =~= Seq::empty());
        assert(r@.speakers =~= Seq::empty());
        assert(r@.lines =~= Seq::empty());
        r
    }

    /// Moves the rows out and leaves an empty dataset behind.
    fn take(&mut self) -> (r: Dataset)
        ensures
            r.seasons == old(self).seasons,
            r.episodes == old(self).episodes,
            r.speakers == old(self).speakers,
            r.lines == old(self).lines,
    {
        let mut taken = Dataset::new();
        core::mem::swap(self, &mut taken);
        taken
    }

    /// Shows that the dataset keeps the rules.
    pub(crate) fn keeps_rules(&self)
        ensures
            self@.wf(),
    {
        proof {
            use_type_invariant(self);
        }
    }

    /// Looks the season with this number up, and adds it where there is none.
    pub fn upsert_season(&mut self, number: i32) -> (r: StoreReply)
        ensures
            (final(self)@, r) == old(self)@.upsert_season(number),
            final(self)@.wf(),
    {
        proof {
            use_type_invariant(&*self);
            lemma_requests_keep_rules(self@);
        }
        let mut i: usize = 0;
        while i < self.seasons.len()
            invariant
                i <= self.seasons.len(),
                self@ == old(self)@,
                self@.wf(),
                forall|j: int| 0 <= j < i ==> !self@.is_season(number, j),
            decreases self.seasons.len() - i,
        {
            if self.seasons[i].number == number {
                proof {
                    lemma_season_found(self@, number, i as int);
                }
                return StoreReply::Id(self.seasons[i].id);
            }
            i += 1;
        }
        if is_full(self.seasons.len()) {
            return StoreReply::Failed;
        }
        let id = next_id(self.seasons.len());
        let ghost wanted = old(self)@.upsert_season(number).0;
        let Dataset { mut seasons, episodes, speakers, lines } = self.take();
        seasons.push(Season { id, number });
        assert(seasons@ == wanted.seasons);
        *self = Dataset { seasons, episodes, speakers, lines };
        assert(self@ == wanted);
        StoreReply::Id(id)
    }

    /// Gives the episode with this number in this season this title, and adds
    /// it where there is none.
    pub fn upsert_episode(&mut self, season_id: i64, number: i32, title: String) -> (r: StoreReply)
        ensures
            (final(self)@, r) == old(self)@.upsert_episode(season_id, number, title@),
            final(self)@.wf(),
    {
        proof {
            use_type_invariant(&*self);
            lemma_requests_keep_rules(self@);
        }
        let ghost wanted = old(self)@.upsert_episode(season_id, number, title@).0;
        if season_id < 1 || (season_id as u64) > (self.seasons.len() as u64) {
            return StoreReply::Failed;
        }
        let mut i: usize = 0;
        while i < self.episodes.len()
            invariant
                i <= self.episodes.len(),
                self@ == old(self)@,
                self@.wf(),
                wanted == old(self)@.upsert_episode(season_id, number, title@).0,
                wanted.wf(),
                forall|j: int| 0 <= j < i ==> !self@.is_episode(season_id, number, j),
            decreases self.episodes.len() - i,
        {
            if self.episodes[i].season_id == season_id && self.episodes[i].number == number {
                proof {
                    assert(self@.is_episode(season_id, number, i as int));
                    lemma_episode_found(self@, season_id, number, i as int);
                }
                let id = self.episodes[i].id;
                let Dataset { seasons, mut episodes, speakers, lines } = self.take();
                episodes.set(i, Episode { id, season_id, number, title });
                assert(episode_views(episodes@) =~= wanted.episodes);
                *self = Dataset { seasons, episodes, speakers, lines };
                assert(self@ == wanted);
                return StoreReply::Id(id);
            }
            i += 1;
        }
        if is_full(self.episodes.len()) {
            return StoreReply::Failed;
        }
        let id = next_id(self.episodes.len());
        let Dataset { seasons, mut episodes, speakers, lines } = self.take();
        episodes.push(Episode { id, season_id, number, title });
        assert(episode_views(episodes@) =~= wanted.episodes);
        *self = Dataset { seasons, episodes, speakers, lines };
        assert(self@ == wanted);
        StoreReply::Id(id)
    }

    /// Looks the speaker with this name up, and adds it where there is none.
    pub fn upsert_speaker(&mut self, name: String) -> (r: StoreReply)
        ensures
            (final(self)@, r) == old(self)@.upsert_speaker(name@),
            final(self)@.wf(),
    {
        proof {
            use_type_invariant(&*self);
            lemma_requests_keep_rules(self@);
        }
        let ghost wanted = old(self)@.upsert_speaker(name@).0;
        let mut i: usize = 0;
        while i < self.speakers.len()
            invariant
                i <= self.speakers.len(),
                self@ == old(self)@,
                self@.wf(),
                wanted == old(self)@.upsert_speaker(name@).0,
                wanted.wf(),
                forall|j: int| 0 <= j < i ==> !self@.is_speaker(name@, j),
            decreases self.speakers.len() - i,
        {
            if same_text(self.speakers[i].name.as_str(), name.as_str()) {
                proof {
                    assert(self@.is_speaker(name@, i as int));
                    lemma_speaker_found(self@, name@, i as int);
                }
                return StoreReply::Id(self.speakers[i].id);
            }
            i += 1;
        }
        if is_full(self.speakers.len()) {
            return StoreReply::Failed;
        }
        let id = next_id(self.speakers.len());
        let Dataset { seasons, episodes, mut speakers, lines } = self.take();
        speakers.push(Speaker { id, name });
        assert(speaker_views(speakers@) =~= wanted.speakers);
        *self = Dataset { seasons, episodes, speakers, lines };
        assert(self@ == wanted);
        StoreReply::Id(id)
    }

    fn accepts(&self, season_id: i64, episode_id: i64, speaker_id: Option<i64>) -> (r: bool)
        ensures
            r == self@.accepts(season_id, episode_id, speaker_id),
    {
        if episode_id < 1 || (episode_id as u64) > (self.episodes.len() as u64) {
            return false;
        }
        let at = (episode_id - 1) as usize;
        assert(self@.episodes[at as int] == self.episodes[at as int]@);
        if self.episodes[at].season_id != season_id {
            return false;
        }
        match speaker_id {
            Some(id) => 1 <= id && (id as u64) <= (self.speakers.len() as u64),
            None => true,
        }
    }

    fn name_of(&self, speaker_id: Option<i64>) -> (r: Option<String>)
        ensures
            text_of(r) == self@.name_of(speaker_id),
    {
        match speaker_id {
            Some(id) => {
                if 1 <= id && (id as u64) <= (self.speakers.len() as u64) {
                    let at = (id - 1) as usize;
                    assert(self@.speakers[at as int] == self.speakers[at as int]@);
                    Some(self.speakers[at].name.clone())
                } else {
                    None
                }
            },
            None => None,
        }
    }

    /// Adds a line.
    pub fn insert_line(
        &mut self,
        season_id: i64,
        episode_id: i64,
        speaker_id: Option<i64>,
        line_number: i32,
        content: String,
    ) -> (r: StoreReply)
        ensures
            (final(self)@, r) == old(self)@.insert_line(
                season_id,
                episode_id,
                speaker_id,
                line_number,
                content@,
            ),
            final(self)@.wf(),
    {
        proof {
            use_type_invariant(&*self);
            lemma_requests_keep_rules(self@);
        }
        let ghost wanted = old(self)@.insert_line(
            season_id,
            episode_id,
            speaker_id,
            line_number,
            content@,
        ).0;
        if is_full(self.lines.len()) || !self.accepts(season_id, episode_id, speaker_id) {
            return StoreReply::Failed;
        }
        let id = next_id(self.lines.len());
        let speaker_name = self.name_of(speaker_id);
        let line = Line {
            id,
            season_id,
            episode_id,
            speaker_id,
            speaker_name,
            line_number,
            content,
        };
        let Dataset { seasons, episodes, speakers, mut lines } = self.take();
        lines.push(line);
        assert(crate::models::line_views(lines@) =~= wanted.lines);
        *self = Dataset { seasons, episodes, speakers, lines };
        assert(self@ == wanted);
        StoreReply::Done
    }

    /// The seasons, in the order they came.
    pub fn seasons(&self) -> (r: Vec<Season>)
        ensures
            r@ == self@.seasons,
    {
        let mut out: Vec<Season> = Vec::new();
        let mut i: usize = 0;
        while i < self.seasons.len()
            invariant
                i <= self.seasons.len(),
                out@ == self.seasons@.take(i as int),
            decreases self.seasons.len() - i,
        {
            out.push(self.seasons[i]);
            i += 1;
        }
        assert(self.seasons@.take(self.seasons.len() as int) == self.seasons@);
        out
    }

    /// The episodes, in the order they came.
    pub fn episodes(&self) -> (r: Vec<Episode>)
        ensures
            episode_views(r@) == self@.episodes,
    {
        let mut out: Vec<Episode> = Vec::new();
        let mut i: usize = 0;
        while i < self.episodes.len()
            invariant
                i <= self.episodes.len(),
                out.len() == i,
                forall|j: int| 0 <= j < i ==> (#[trigger] out[j])@ == self.episodes[j]@,
            decreases self.episodes.len() - i,
        {
            let row = &self.episodes[i];
            out.push(
                Episode {
                    id: row.id,
                    season_id: row.season_id,
                    number: row.number,
                    title: row.title.clone(),
                },
            );
            i += 1;
        }
        assert(episode_views(out@) =~= self@.episodes);
        out
    }

    /// The speakers, in the order they came.
    pub fn speakers(&self) -> (r: Vec<Speaker>)
        ensures
            speaker_views(r@) == self@.speakers,
    {
        let mut out: Vec<Speaker> = Vec::new();
        let mut i: usize = 0;
        while i < self.speakers.len()
            invariant
                i <= self.speakers.len(),
                out.len() == i,
                forall|j: int| 0 <= j < i ==> (#[trigger] out[j])@ == self.speakers[j]@,
            decreases self.speakers.len() - i,
        {
            let row = &self.speakers[i];
            out.push(Speaker { id: row.id, name: row.name.clone() });
            i += 1;
        }
        assert(speaker_views(out@) =~= self@.speakers);
        out
    }

    /// The lines, in the order they came.
    pub fn lines(&self) -> (r: Vec<Line>)
        ensures
            crate::models::line_views(r@) == self@.lines,
    {
        crate::models::duplicate_lines(&self.lines)
    }

    /// A copy of the dataset.
    pub fn duplicate(&self) -> (r: Dataset)
        ensures
            r@ == self@,
    {
        proof {
            use_type_invariant(self);
        }
        Dataset {
            seasons: self.seasons(),
            episodes: self.episodes(),
            speakers: self.speakers(),
            lines: self.lines(),
        }
    }
}

} // verus!
