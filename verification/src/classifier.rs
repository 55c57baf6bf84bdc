//! Reads a season number, an episode number and a title off a transcript's
//! file name, and off the name of its directory where the file name holds no
//! season.

use crate::decimal::{parse_i32, parsed_i32};
use crate::text::{from_chars, to_chars, trim, trimmed};
use regex::Regex;
use vstd::prelude::*;

verus! {

/// `<S>x<E> - <title>.txt`
pub const SEASON_EPISODE_PATTERN: &'static str = r"(?i)^(\d{1,2})x(\d{1,2})\s*-\s*(.+)\.txt$";

/// `S<S>E<E>.txt`, or `S<S>E<E> - <title>.txt`
pub const SXXEXX_PATTERN: &'static str = r"(?i)^s(\d{1,2})e(\d{1,2})(?:\s*-\s*(.+))?\.txt$";

/// `E<E> - <title>.txt`
pub const EPISODE_PATTERN: &'static str = r"(?i)^e(\d+)\s*-\s*(.+)\.txt$";

/// A season number in a directory's name, as in `Season 3` or `S03`.
pub const SEASON_DIRECTORY_PATTERN: &'static str = r"(?i)(?:season)?\s*S?(\d{1,2})";

/// What the `regex` crate finds when it searches `text` for `pattern`: `None`
/// where the pattern does not compile or matches nowhere; else, for the
/// leftmost match, the text of each capture group by its index, `None` for a
/// group that took no part in the match. Group 0 is the whole match.
pub uninterp spec fn regex_captures(pattern: Seq<char>, text: Seq<char>) -> Option<
    Seq<Option<Seq<char>>>,
>;

/// Compiles `pattern` with `Regex::new` and searches `text` with
/// `Regex::captures`; the groups are those that `Captures::iter` yields, each
/// as the text that `Match::as_str` gives. Claimed: the result depends on the
/// pattern and the text alone.
#[verifier::external_body]
fn captures(pattern: &str, text: &str) -> (r: Option<Vec<Option<String>>>)
    ensures
        r.deep_view() == regex_captures(pattern@, text@),
{
    let regex = Regex::new(pattern).ok()?;
    let found = regex.captures(text)?;
    Some(found.iter().map(|group| group.map(|m| m.as_str().to_string())).collect())
}

/// The text of group `i`, where the match has such a group and it took part.
pub open spec fn group(groups: Seq<Option<Seq<char>>>, i: int) -> Option<Seq<char>> {
    if 0 <= i < groups.len() {
        groups[i]
    } else {
        None
    }
}

/// The number that group `i` writes.
pub open spec fn group_number(groups: Seq<Option<Seq<char>>>, i: int) -> Option<i32> {
    match group(groups, i) {
        Some(digits) => parsed_i32(digits),
        None => None,
    }
}

/// The trimmed text of group `i`; empty where the group is absent.
pub open spec fn group_title(groups: Seq<Option<Seq<char>>>, i: int) -> Seq<char> {
    match group(groups, i) {
        Some(title) => trimmed(title),
        None => Seq::empty(),
    }
}

/// The identity that a match of `SEASON_EPISODE_PATTERN` or `SXXEXX_PATTERN`
/// gives: season from group 1, episode from group 2, title from group 3.
/// Nothing where one of the two numbers cannot be read.
pub open spec fn numbered_identity(groups: Seq<Option<Seq<char>>>) -> Option<
    (i32, i32, Seq<char>),
> {
    match (group_number(groups, 1), group_number(groups, 2)) {
        (Some(season), Some(episode)) => Some((season, episode, group_title(groups, 3))),
        _ => None,
    }
}

/// The season number that a match of `SEASON_DIRECTORY_PATTERN` gives.
pub open spec fn directory_season(found: Option<Seq<Option<Seq<char>>>>) -> Option<i32> {
    match found {
        Some(groups) => group_number(groups, 1),
        None => None,
    }
}

/// The identity that a match of `EPISODE_PATTERN` gives in a directory with
/// season number `season`: episode from group 1, title from group 2.
pub open spec fn episode_identity(groups: Seq<Option<Seq<char>>>, season: Option<i32>) -> Option<
    (i32, i32, Seq<char>),
> {
    match (season, group_number(groups, 1)) {
        (Some(season), Some(episode)) => Some((season, episode, group_title(groups, 2))),
        _ => None,
    }
}

/// The season of the directory named `parent_dir`.
pub open spec fn season_of_directory(parent_dir: Option<Seq<char>>) -> Option<i32> {
    match parent_dir {
        Some(name) => directory_season(regex_captures(SEASON_DIRECTORY_PATTERN@, name)),
        None => None,
    }
}

/// The identity of the file named `filename` in the directory named
/// `parent_dir`. The three file name patterns are tried in their order on the
/// trimmed name, and the first that matches decides.
pub open spec fn classify(filename: Seq<char>, parent_dir: Option<Seq<char>>) -> Option<
    (i32, i32, Seq<char>),
> {
    let name = trimmed(filename);
    match regex_captures(SEASON_EPISODE_PATTERN@, name) {
        Some(groups) => numbered_identity(groups),
        None => match regex_captures(SXXEXX_PATTERN@, name) {
            Some(groups) => numbered_identity(groups),
            None => match regex_captures(EPISODE_PATTERN@, name) {
                Some(groups) => episode_identity(groups, season_of_directory(parent_dir)),
                None => None,
            },
        },
    }
}

/// The view of an identity.
pub open spec fn identity_view(identity: Option<(i32, i32, String)>) -> Option<
    (i32, i32, Seq<char>),
> {
    match identity {
        Some((season, episode, title)) => Some((season, episode, title@)),
        None => None,
    }
}

/// The view of an optional string slice.
pub open spec fn name_view(name: Option<&str>) -> Option<Seq<char>> {
    match name {
        Some(name) => Some(name@),
        None => None,
    }
}

fn number_of(groups: &Vec<Option<String>>, i: usize) -> (r: Option<i32>)
    ensures
        r == group_number(groups.deep_view(), i as int),
{
    if i < groups.len() {
        match &groups[i] {
            Some(digits) => parse_i32(&to_chars(digits.as_str())),
            None => None,
        }
    } else {
        None
    }
}

fn title_of(groups: &Vec<Option<String>>, i: usize) -> (r: String)
    ensures
        r@ == group_title(groups.deep_view(), i as int),
{
    if i < groups.len() {
        match &groups[i] {
            Some(title) => from_chars(&trim(&to_chars(title.as_str()))),
            None => String::new(),
        }
    } else {
        String::new()
    }
}

/// Reads the identity off the groups of a match of `SEASON_EPISODE_PATTERN`
/// or of `SXXEXX_PATTERN`.
pub fn identity_from_numbered(groups: &Vec<Option<String>>) -> (r: Option<(i32, i32, String)>)
    ensures
        identity_view(r) == numbered_identity(groups.deep_view()),
{
    let season = number_of(groups, 1);
    let episode = number_of(groups, 2);
    match (season, episode) {
        (Some(season), Some(episode)) => Some((season, episode, title_of(groups, 3))),
        _ => None,
    }
}

/// Reads the season number off what a search for `SEASON_DIRECTORY_PATTERN`
/// found in a directory's name.
pub fn season_from_directory(found: &Option<Vec<Option<String>>>) -> (r: Option<i32>)
    ensures
        r == directory_season(found.deep_view()),
{
    match found {
        Some(groups) => number_of(groups, 1),
        None => None,
    }
}

/// Reads the identity off the groups of a match of `EPISODE_PATTERN`, for a
/// file in a directory with season number `season`.
pub fn identity_from_episode(groups: &Vec<Option<String>>, season: Option<i32>) -> (r: Option<
    (i32, i32, String),
>)
    ensures
        identity_view(r) == episode_identity(groups.deep_view(), season),
{
    let episode = number_of(groups, 1);
    match (season, episode) {
        (Some(season), Some(episode)) => Some((season, episode, title_of(groups, 2))),
        _ => None,
    }
}

/// The season, the episode and the title that the name of a transcript file
/// gives, or `None` for a name that fits no pattern.
pub fn parse_episode_filename(filename: &str, parent_dir: Option<&str>) -> (r: Option<
    (i32, i32, String),
>)
    ensures
        identity_view(r) == classify(filename@, name_view(parent_dir)),
{
    let name = from_chars(&trim(&to_chars(filename)));
    match captures(SEASON_EPISODE_PATTERN, name.as_str()) {
        Some(groups) => identity_from_numbered(&groups),
        None => match captures(SXXEXX_PATTERN, name.as_str()) {
            Some(groups) => identity_from_numbered(&groups),
            None => match captures(EPISODE_PATTERN, name.as_str()) {
                Some(groups) => {
                    let season = match parent_dir {
                        Some(parent) => season_from_directory(
                            &captures(SEASON_DIRECTORY_PATTERN, parent),
                        ),
                        None => None,
                    };
                    identity_from_episode(&groups, season)
                },
                None => None,
            },
        },
    }
}

} // verus!
