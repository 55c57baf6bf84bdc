//! From the files of an upload to the ordered list of episodes and lines that
//! an ingestion run writes.

use crate::classifier::{classify, parse_episode_filename};
use crate::text::{
    first_index, from_chars, lemma_first_index_is, lemma_lex_le_total, lemma_lex_le_transitive,
    lex_le, lines_of, precedes_or_equals, slice, split_lines, to_chars, trim_range, trimmed,
    views,
};
use vstd::prelude::*;

verus! {

/// Why an ingestion run wrote nothing.
#[derive(Clone, Copy, Debug, PartialEq, Eq, Structural)]
pub enum IngestError {
    /// The upload held no entry at all.
    EmptyInput,
    /// No file's name gave a season and an episode.
    NoRecognizedFiles,
    /// The store failed; the run was rolled back.
    Storage,
}

/// Whether an error rejects what the caller handed in, and the store was not
/// touched: so it is of an upload without entries or without recognized files.
pub open spec fn rejects_input(error: IngestError) -> bool {
    error == IngestError::EmptyInput || error == IngestError::NoRecognizedFiles
}

/// Whether an error rejects what the caller handed in.
pub fn is_input_error(error: IngestError) -> (r: bool)
    ensures
        r == rejects_input(error),
{
    match error {
        IngestError::EmptyInput => true,
        IngestError::NoRecognizedFiles => true,
        IngestError::Storage => false,
    }
}

/// One transcript of an upload: where it stood, and what it says.
#[derive(Clone, Debug, PartialEq, Eq)]
pub struct TranscriptFile {
    pub relative_path: String,
    pub text: String,
}

/// The view of a transcript file.
pub struct TranscriptFileView {
    pub relative_path: Seq<char>,
    pub text: Seq<char>,
}

impl View for TranscriptFile {
    type V = TranscriptFileView;

    open spec fn view(&self) -> TranscriptFileView {
        TranscriptFileView { relative_path: self.relative_path@, text: self.text@ }
    }
}

/// The views of files, one for one.
pub open spec fn file_views(files: Seq<TranscriptFile>) -> Seq<TranscriptFileView> {
    Seq::new(files.len(), |i: int| files[i]@)
}

/// One line of a transcript, as it will be written: the speaker named before
/// its first colon, if it has one, and what is said.
#[derive(Clone, Debug, PartialEq, Eq)]
pub struct PlannedLine {
    pub speaker: Option<String>,
    pub content: String,
}

/// The view of a planned line.
pub struct PlannedLineView {
    pub speaker: Option<Seq<char>>,
    pub content: Seq<char>,
}

impl View for PlannedLine {
    type V = PlannedLineView;

    open spec fn view(&self) -> PlannedLineView {
        PlannedLineView {
            speaker: match self.speaker {
                Some(name) => Some(name@),
                None => None,
            },
            content: self.content@,
        }
    }
}

/// The views of planned lines, one for one.
pub open spec fn line_views(lines: Seq<PlannedLine>) -> Seq<PlannedLineView> {
    Seq::new(lines.len(), |i: int| lines[i]@)
}

/// One episode of a run: its identity and its lines in the order of the file.
/// The line at index `i` gets line number `i + 1`.
#[derive(Clone, Debug, PartialEq, Eq)]
pub struct PlannedEpisode {
    pub season_number: i32,
    pub number: i32,
    pub title: String,
    pub lines: Vec<PlannedLine>,
}

/// The view of a planned episode.
pub struct PlannedEpisodeView {
    pub season_number: i32,
    pub number: i32,
    pub title: Seq<char>,
    pub lines: Seq<PlannedLineView>,
}

impl View for PlannedEpisode {
    type V = PlannedEpisodeView;

    open spec fn view(&self) -> PlannedEpisodeView {
        PlannedEpisodeView {
            season_number: self.season_number,
            number: self.number,
            title: self.title@,
            lines: line_views(self.lines@),
        }
    }
}

/// The views of planned episodes, one for one.
pub open spec fn episode_views(episodes: Seq<PlannedEpisode>) -> Seq<PlannedEpisodeView> {
    Seq::new(episodes.len(), |i: int| episodes[i]@)
}

/// The index of the last `/` in `path`, or -1 if it holds none.
pub open spec fn last_separator(path: Seq<char>) -> int
    decreases path.len(),
{
    if path.len() == 0 {
        -1
    } else if path.last() == '/' {
        path.len() - 1
    } else {
        last_separator(path.drop_last())
    }
}

/// What follows the last `/` of `path`; all of `path` if it holds none.
pub open spec fn file_name(path: Seq<char>) -> Seq<char> {
    path.skip(last_separator(path) + 1)
}

/// The name of the directory that the file of `path` stands in: what stands
/// between the last two `/`, or before the only one. `None` where `path` holds
/// no `/` or that name is empty.
pub open spec fn parent_name(path: Seq<char>) -> Option<Seq<char>> {
    let cut = last_separator(path);
    if cut < 0 {
        None
    } else {
        let name = file_name(path.take(cut));
        if name.len() == 0 {
            None
        } else {
            Some(name)
        }
    }
}

/// A `/` behind which no `/` follows is the last one; where `path` holds
/// none, the last one is at -1.
pub proof fn lemma_last_separator_is(path: Seq<char>, k: int)
    requires
        -1 <= k < path.len(),
        k >= 0 ==> path[k] == '/',
        forall|i: int| k < i < path.len() ==> #[trigger] path[i] != '/',
    ensures
        last_separator(path) == k,
    decreases path.len(),
{
    if path.len() > 0 && k < path.len() - 1 {
        let shorter = path.drop_last();
        assert forall|i: int| k < i < shorter.len() implies #[trigger] shorter[i] != '/' by {
            assert(shorter[i] == path[i]);
        }
        lemma_last_separator_is(shorter, k);
    }
}

/// The index behind the last `/` of `path[..end]`; 0 if it holds none.
fn name_start(path: &Vec<char>, end: usize) -> (r: usize)
    requires
        end <= path.len(),
    ensures
        r == last_separator(path@.take(end as int)) + 1,
        r <= end,
{
    let ghost part = path@.take(end as int);
    let mut start: usize = end;
    while start > 0 && path[start - 1] != '/'
        invariant
            start <= end <= path.len(),
            part == path@.take(end as int),
            forall|i: int| start <= i < end ==> #[trigger] part[i] != '/',
        decreases start,
    {
        start -= 1;
    }
    proof {
        lemma_last_separator_is(part, start - 1);
    }
    start
}

/// The view of an optional name.
pub open spec fn chars_view(name: Option<Vec<char>>) -> Option<Seq<char>> {
    match name {
        Some(name) => Some(name@),
        None => None,
    }
}

/// The directory's name and the file's name of a path whose parts `/` separates.
pub fn split_path(path: &Vec<char>) -> (r: (Option<Vec<char>>, Vec<char>))
    ensures
        chars_view(r.0) == parent_name(path@),
        r.1@ == file_name(path@),
{
    let n = path.len();
    assert(path@.take(n as int) == path@);
    let start = name_start(path, n);
    let name = slice(path, start, n);
    if start == 0 {
        (None, name)
    } else {
        let cut = start - 1;
        let from = name_start(path, cut);
        let ghost dir = path@.take(cut as int);
        assert(dir.skip(from as int) == path@.subrange(from as int, cut as int));
        if from == cut {
            (None, name)
        } else {
            (Some(slice(path, from, cut)), name)
        }
    }
}

/// What a line of a transcript says and who says it. A line with a colon names
/// its speaker before the first one; both parts are trimmed.
pub open spec fn line_record(line: Seq<char>) -> PlannedLineView {
    let at = first_index(line, ':') as int;
    if at < line.len() {
        PlannedLineView {
            speaker: Some(trimmed(line.take(at))),
            content: trimmed(line.skip(at + 1)),
        }
    } else {
        PlannedLineView { speaker: None, content: trimmed(line) }
    }
}

/// Reads the speaker and the content off a line.
pub fn parse_line(line: &Vec<char>) -> (r: PlannedLine)
    ensures
        r@ == line_record(line@),
{
    let n = line.len();
    let mut at: usize = 0;
    while at < n && line[at] != ':'
        invariant
            at <= n,
            n == line.len(),
            forall|i: int| 0 <= i < at ==> #[trigger] line[i] != ':',
        decreases n - at,
    {
        at += 1;
    }
    proof {
        lemma_first_index_is(line@, ':', at as int);
    }
    if at < n {
        assert(line@.take(at as int) == line@.subrange(0, at as int));
        assert(line@.skip(at + 1) == line@.subrange(at + 1, n as int));
        PlannedLine {
            speaker: Some(from_chars(&trim_range(line, 0, at))),
            content: from_chars(&trim_range(line, at + 1, n)),
        }
    } else {
        assert(line@ == line@.subrange(0, n as int));
        PlannedLine { speaker: None, content: from_chars(&trim_range(line, 0, n)) }
    }
}

/// The records of `lines`, one for one.
pub open spec fn line_records(lines: Seq<Seq<char>>) -> Seq<PlannedLineView> {
    Seq::new(lines.len(), |i: int| line_record(lines[i]))
}

/// The lines of a transcript's text, each with its speaker and its content.
pub fn plan_lines(text: &str) -> (r: Vec<PlannedLine>)
    ensures
        line_views(r@) == line_records(lines_of(text@)),
{
    let lines = split_lines(&to_chars(text));
    let mut out: Vec<PlannedLine> = Vec::new();
    let mut i: usize = 0;
    while i < lines.len()
        invariant
            i <= lines.len(),
            out.len() == i,
            forall|j: int| 0 <= j < i ==> (#[trigger] out[j])@ == line_record(lines[j]@),
        decreases lines.len() - i,
    {
        out.push(parse_line(&lines[i]));
        i += 1;
    }
    assert(line_views(out@) =~= line_records(views(lines@)));
    out
}

/// Whether `a` is written before `b` or may stand with it: by season number,
/// then by episode number, then by title.
pub open spec fn not_after(a: PlannedEpisodeView, b: PlannedEpisodeView) -> bool {
    a.season_number < b.season_number || (a.season_number == b.season_number && (a.number
        < b.number || (a.number == b.number && lex_le(a.title, b.title))))
}

/// Whether `a` is written before `b` or may stand with it.
pub fn is_not_after(a: &PlannedEpisode, b: &PlannedEpisode) -> (r: bool)
    ensures
        r == not_after(a@, b@),
{
    if a.season_number != b.season_number {
        a.season_number < b.season_number
    } else if a.number != b.number {
        a.number < b.number
    } else {
        precedes_or_equals(&to_chars(a.title.as_str()), &to_chars(b.title.as_str()))
    }
}

/// `episodes` with `episode` put behind the last one that is not after it.
pub open spec fn placed(episodes: Seq<PlannedEpisodeView>, episode: PlannedEpisodeView) -> Seq<
    PlannedEpisodeView,
>
    decreases episodes.len(),
{
    if episodes.len() == 0 || not_after(episodes.last(), episode) {
        episodes.push(episode)
    } else {
        placed(episodes.drop_last(), episode).push(episodes.last())
    }
}

/// `episodes` in the order of writing: sorted by season number, episode number
/// and title, those that agree in all three in the order they had.
pub open spec fn in_order(episodes: Seq<PlannedEpisodeView>) -> Seq<PlannedEpisodeView>
    decreases episodes.len(),
{
    if episodes.len() == 0 {
        episodes
    } else {
        placed(in_order(episodes.drop_last()), episodes.last())
    }
}

/// Whether each episode of `episodes` is not after those behind it.
pub open spec fn is_sorted(episodes: Seq<PlannedEpisodeView>) -> bool {
    forall|i: int, j: int| 0 <= i < j < episodes.len() ==> not_after(episodes[i], episodes[j])
}

/// Of two episodes, one is not after the other.
pub proof fn lemma_not_after_total(a: PlannedEpisodeView, b: PlannedEpisodeView)
    ensures
        not_after(a, b) || not_after(b, a),
{
    lemma_lex_le_total(a.title, b.title);
}

/// The order of writing is transitive.
pub proof fn lemma_not_after_transitive(
    a: PlannedEpisodeView,
    b: PlannedEpisodeView,
    c: PlannedEpisodeView,
)
    requires
        not_after(a, b),
        not_after(b, c),
    ensures
        not_after(a, c),
{
    if a.season_number == b.season_number && b.season_number == c.season_number && a.number
        == b.number && b.number == c.number {
        lemma_lex_le_transitive(a.title, b.title, c.title);
    }
}

/// Where `placed` puts an episode: at the index `at`, if the one before it is
/// not after the episode and all from `at` on are.
pub proof fn lemma_placed_at(
    episodes: Seq<PlannedEpisodeView>,
    episode: PlannedEpisodeView,
    at: int,
)
    requires
        0 <= at <= episodes.len(),
        at > 0 ==> not_after(episodes[at - 1], episode),
        forall|i: int| at <= i < episodes.len() ==> !not_after(#[trigger] episodes[i], episode),
    ensures
        placed(episodes, episode) == episodes.insert(at, episode),
    decreases episodes.len() - at,
{
    if at == episodes.len() {
        assert(episodes.push(episode) =~= episodes.insert(at, episode));
    } else {
        let shorter = episodes.drop_last();
        assert(!not_after(episodes.last(), episode));
        assert forall|i: int| at <= i < shorter.len() implies !not_after(
            #[trigger] shorter[i],
            episode,
        ) by {
            assert(shorter[i] == episodes[i]);
        }
        lemma_placed_at(shorter, episode, at);
        assert(shorter.insert(at, episode).push(episodes.last()) =~= episodes.insert(at, episode));
    }
}

/// `placed` keeps every episode, adds the new one, and keeps a sorted list
/// sorted.
pub proof fn lemma_placed(episodes: Seq<PlannedEpisodeView>, episode: PlannedEpisodeView)
    ensures
        placed(episodes, episode).len() == episodes.len() + 1,
        placed(episodes, episode).to_multiset() == episodes.to_multiset().insert(episode),
        is_sorted(episodes) ==> is_sorted(placed(episodes, episode)),
    decreases episodes.len(),
{
    broadcast use vstd::seq_lib::group_to_multiset_ensures;

    if episodes.len() == 0 || not_after(episodes.last(), episode) {
        if is_sorted(episodes) {
            let out = episodes.push(episode);
            assert forall|i: int, j: int| 0 <= i < j < out.len() implies not_after(
                out[i],
                out[j],
            ) by {
                if j == episodes.len() && i < episodes.len() - 1 {
                    lemma_not_after_transitive(episodes[i], episodes.last(), episode);
                }
            }
        }
    } else {
        let shorter = episodes.drop_last();
        let last = episodes.last();
        lemma_placed(shorter, episode);
        let inner = placed(shorter, episode);
        let out = inner.push(last);
        assert(episodes =~= shorter.push(last));
        assert(shorter.to_multiset().insert(last).insert(episode) =~= shorter.to_multiset().insert(
            episode,
        ).insert(last));
        if is_sorted(episodes) {
            assert(is_sorted(shorter)) by {
                assert forall|i: int, j: int| 0 <= i < j < shorter.len() implies not_after(
                    shorter[i],
                    shorter[j],
                ) by {
                    assert(shorter[i] == episodes[i] && shorter[j] == episodes[j]);
                }
            }
            lemma_not_after_total(last, episode);
            assert forall|i: int, j: int| 0 <= i < j < out.len() implies not_after(
                out[i],
                out[j],
            ) by {
                if j == inner.len() {
                    // every episode of `inner` is one of `shorter` or the new one
                    assert(inner.to_multiset().count(inner[i]) > 0);
                    if inner[i] != episode {
                        assert(shorter.to_multiset().count(inner[i]) > 0);
                        let k = choose|k: int| 0 <= k < shorter.len() && shorter[k] == inner[i];
                        assert(shorter[k] == episodes[k]);
                    }
                }
            }
        }
    }
}

/// The order of writing is sorted and holds exactly the episodes it was given.
pub proof fn lemma_in_order(episodes: Seq<PlannedEpisodeView>)
    ensures
        in_order(episodes).len() == episodes.len(),
        in_order(episodes).to_multiset() == episodes.to_multiset(),
        is_sorted(in_order(episodes)),
    decreases episodes.len(),
{
    broadcast use vstd::seq_lib::group_to_multiset_ensures;

    if episodes.len() > 0 {
        let shorter = episodes.drop_last();
        lemma_in_order(shorter);
        lemma_placed(in_order(shorter), episodes.last());
        assert(episodes =~= shorter.push(episodes.last()));
    }
}

/// Episodes that come sorted stay as they are: the order of writing moves an
/// episode only past episodes that are after it.
pub proof fn lemma_sorted_stays(episodes: Seq<PlannedEpisodeView>)
    requires
        is_sorted(episodes),
    ensures
        in_order(episodes) == episodes,
    decreases episodes.len(),
{
    if episodes.len() > 0 {
        let shorter = episodes.drop_last();
        assert forall|i: int, j: int| 0 <= i < j < shorter.len() implies not_after(
            shorter[i],
            shorter[j],
        ) by {
            assert(shorter[i] == episodes[i] && shorter[j] == episodes[j]);
        }
        lemma_sorted_stays(shorter);
        if shorter.len() > 0 {
            assert(shorter.last() == episodes[episodes.len() - 2]);
        }
        assert(shorter.push(episodes.last()) =~= episodes);
    }
}

/// The identity and the lines of `file`, where its name gives an identity.
pub open spec fn planned(file: TranscriptFileView) -> Option<PlannedEpisodeView> {
    match classify(file_name(file.relative_path), parent_name(file.relative_path)) {
        Some((season_number, number, title)) => Some(
            PlannedEpisodeView {
                season_number,
                number,
                title,
                lines: line_records(lines_of(file.text)),
            },
        ),
        None => None,
    }
}

/// The episodes of the files whose names give an identity, in the files' order.
pub open spec fn identified(files: Seq<TranscriptFileView>) -> Seq<PlannedEpisodeView>
    decreases files.len(),
{
    if files.len() == 0 {
        Seq::empty()
    } else {
        match planned(files.last()) {
            Some(episode) => identified(files.drop_last()).push(episode),
            None => identified(files.drop_last()),
        }
    }
}

/// The view of an optional planned episode.
pub open spec fn planned_view(episode: Option<PlannedEpisode>) -> Option<PlannedEpisodeView> {
    match episode {
        Some(episode) => Some(episode@),
        None => None,
    }
}

/// Classifies one file and splits its text into lines.
pub fn plan_file(file: &TranscriptFile) -> (r: Option<PlannedEpisode>)
    ensures
        planned_view(r) == planned(file@),
{
    let (parent, name) = split_path(&to_chars(file.relative_path.as_str()));
    let name = from_chars(&name);
    let identity = match parent {
        Some(parent) => {
            let parent = from_chars(&parent);
            parse_episode_filename(name.as_str(), Some(parent.as_str()))
        },
        None => parse_episode_filename(name.as_str(), None),
    };
    match identity {
        Some((season_number, number, title)) => Some(
            PlannedEpisode { season_number, number, title, lines: plan_lines(file.text.as_str()) },
        ),
        None => None,
    }
}

/// Puts `episode` into the sorted list `episodes`, behind those not after it.
pub fn place(episodes: &mut Vec<PlannedEpisode>, episode: PlannedEpisode)
    ensures
        episode_views(final(episodes)@) == placed(episode_views(old(episodes)@), episode@),
{
    let ghost before = episode_views(episodes@);
    let mut at: usize = episodes.len();
    while at > 0 && !is_not_after(&episodes[at - 1], &episode)
        invariant
            at <= episodes.len(),
            episodes@ == old(episodes)@,
            before == episode_views(episodes@),
            forall|i: int| at <= i < before.len() ==> !not_after(#[trigger] before[i], episode@),
        decreases at,
    {
        at -= 1;
    }
    proof {
        lemma_placed_at(before, episode@, at as int);
    }
    episodes.insert(at, episode);
    assert(episode_views(episodes@) =~= before.insert(at as int, episode@));
}

/// What a run over `files` writes: the episodes that their names give, in the
/// order of writing. `NoRecognizedFiles` where no file's name gives a season
/// and an episode, which holds of an empty list too.
pub open spec fn ingestion_plan(files: Seq<TranscriptFileView>) -> Result<
    Seq<PlannedEpisodeView>,
    IngestError,
> {
    if identified(files).len() == 0 {
        Err(IngestError::NoRecognizedFiles)
    } else {
        Ok(in_order(identified(files)))
    }
}

/// The view of a plan or of the reason why there is none.
pub open spec fn plan_view(plan: Result<Vec<PlannedEpisode>, IngestError>) -> Result<
    Seq<PlannedEpisodeView>,
    IngestError,
> {
    match plan {
        Ok(episodes) => Ok(episode_views(episodes@)),
        Err(error) => Err(error),
    }
}

/// Plans the run over `files`.
pub fn plan_ingestion(files: &Vec<TranscriptFile>) -> (r: Result<Vec<PlannedEpisode>, IngestError>)
    ensures
        plan_view(r) == ingestion_plan(file_views(files@)),
        r matches Ok(episodes) ==> episodes.len() > 0,
{
    let ghost all = file_views(files@);
    let mut out: Vec<PlannedEpisode> = Vec::new();
    let mut i: usize = 0;
    assert(all.take(0) =~= Seq::empty());
    assert(episode_views(out@) =~= Seq::empty());
    while i < files.len()
        invariant
            i <= files.len(),
            all == file_views(files@),
            episode_views(out@) == in_order(identified(all.take(i as int))),
        decreases files.len() - i,
    {
        let ghost known = identified(all.take(i as int));
        assert(all.take(i + 1).drop_last() == all.take(i as int));
        assert(all.take(i + 1).last() == files[i as int]@);
        match plan_file(&files[i]) {
            Some(episode) => {
                assert(identified(all.take(i + 1)) == known.push(episode@));
                assert(known.push(episode@).drop_last() == known);
                assert(known.push(episode@).last() == episode@);
                place(&mut out, episode);
            },
            None => {
                assert(identified(all.take(i + 1)) == known);
            },
        }
        i += 1;
    }
    assert(all.take(files.len() as int) == all);
    proof {
        lemma_in_order(identified(all));
    }
    if out.len() == 0 {
        Err(IngestError::NoRecognizedFiles)
    } else {
        Ok(out)
    }
}

} // verus!
