//! What a query answers, given what the store returned.

use crate::models::{duplicate_lines, line_views, Line, LineView};
use vstd::prelude::*;

verus! {

/// The store could not carry out a request.
#[derive(Clone, Copy, Debug, PartialEq, Eq)]
pub struct StoreFault {}

/// Why a query has no answer.
#[derive(Clone, Copy, Debug, PartialEq, Eq, Structural)]
pub enum SearchError {
    /// Nothing meets the query.
    NotFound,
    /// The store failed.
    Storage,
}

/// The views of hits: each matching line with the lines round it.
pub open spec fn hit_views(hits: Seq<(Line, Vec<Line>)>) -> Seq<(LineView, Seq<LineView>)> {
    Seq::new(hits.len(), |i: int| (hits[i].0@, line_views(hits[i].1@)))
}

/// The context of hit `i`: what the store returned for it, and nothing where
/// the store failed on it or was not asked.
pub open spec fn context_of(contexts: Seq<Result<Vec<Line>, StoreFault>>, i: int) -> Seq<
    LineView,
> {
    if 0 <= i < contexts.len() {
        match contexts[i] {
            Ok(lines) => line_views(lines@),
            Err(_) => Seq::empty(),
        }
    } else {
        Seq::empty()
    }
}

/// The answer of a phrase search: each matching line, in the store's order,
/// with its context. No match is `NotFound`, never an empty list; a fault on
/// the matches is `Storage`; a fault on one context leaves that context empty.
pub open spec fn search_outcome(
    matches: Result<Vec<Line>, StoreFault>,
    contexts: Seq<Result<Vec<Line>, StoreFault>>,
) -> Result<Seq<(LineView, Seq<LineView>)>, SearchError> {
    match matches {
        Err(_) => Err(SearchError::Storage),
        Ok(lines) => if lines@.len() == 0 {
            Err(SearchError::NotFound)
        } else {
            Ok(Seq::new(lines@.len(), |i: int| (lines@[i]@, context_of(contexts, i))))
        },
    }
}

/// The view of an answer.
pub open spec fn response_view(response: Result<Vec<(Line, Vec<Line>)>, SearchError>) -> Result<
    Seq<(LineView, Seq<LineView>)>,
    SearchError,
> {
    match response {
        Ok(hits) => Ok(hit_views(hits@)),
        Err(error) => Err(error),
    }
}

/// Puts the answer of a phrase search together: `matches` is what the store
/// returned for the search, `contexts[i]` what it returned for the window
/// round `matches[i]`.
pub fn search_response(
    matches: Result<Vec<Line>, StoreFault>,
    contexts: &Vec<Result<Vec<Line>, StoreFault>>,
) -> (r: Result<Vec<(Line, Vec<Line>)>, SearchError>)
    ensures
        response_view(r) == search_outcome(matches, contexts@),
        r matches Ok(hits) ==> hits.len() > 0,
{
    match matches {
        Err(_) => Err(SearchError::Storage),
        Ok(lines) => {
            if lines.len() == 0 {
                return Err(SearchError::NotFound);
            }
            let mut hits: Vec<(Line, Vec<Line>)> = Vec::new();
            let mut i: usize = 0;
            while i < lines.len()
                invariant
                    i <= lines.len(),
                    hits.len() == i,
                    forall|j: int|
                        0 <= j < i ==> (#[trigger] hits[j]).0@ == lines[j]@ && line_views(
                            hits[j].1@,
                        ) == context_of(contexts@, j),
                decreases lines.len() - i,
            {
                let context = if i < contexts.len() {
                    match &contexts[i] {
                        Ok(rows) => duplicate_lines(rows),
                        Err(_) => Vec::new(),
                    }
                } else {
                    Vec::new()
                };
                assert(line_views(context@) =~= context_of(contexts@, i as int));
                hits.push((lines[i].duplicate(), context));
                i += 1;
            }
            assert(hit_views(hits@) =~= Seq::new(
                lines@.len(),
                |i: int| (lines@[i]@, context_of(contexts@, i)),
            ));
            Ok(hits)
        },
    }
}

/// The answer of a query for one row: the row, `NotFound` where the store
/// found none, `Storage` where it failed.
pub fn single_response<T>(found: Result<Option<T>, StoreFault>) -> (r: Result<T, SearchError>)
    ensures
        r == match found {
            Ok(Some(row)) => Ok::<T, SearchError>(row),
            Ok(None) => Err(SearchError::NotFound),
            Err(_) => Err(SearchError::Storage),
        },
{
    match found {
        Ok(Some(row)) => Ok(row),
        Ok(None) => Err(SearchError::NotFound),
        Err(_) => Err(SearchError::Storage),
    }
}

} // verus!
