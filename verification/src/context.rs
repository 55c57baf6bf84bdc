//! The neighbourhood of a line: the two lines before it and the two after it
//! in its episode.

use crate::filter::{Column, Condition, ConditionView, Operator, Predicate, Value, ValueView};
use crate::models::{line_views, Line, LineView};
use crate::statement::{build_statement, statement_for, Statement, IN_READING_ORDER, SELECT_LINES};
use vstd::prelude::*;

verus! {

/// The number of the first line of the window round line `number`: two before
/// it, but no less than 1.
pub open spec fn window_first(number: i32) -> int {
    if number - 2 < 1 {
        1
    } else {
        number - 2
    }
}

/// The number of the last line of the window round line `number`: two behind
/// it, as far as line numbers go.
pub open spec fn window_last(number: i32) -> int {
    if number + 2 > i32::MAX {
        i32::MAX as int
    } else {
        number + 2
    }
}

/// Whether `candidate` stands in the window round `matched`: in the same
/// episode, no more than two lines away.
pub open spec fn in_window(candidate: LineView, matched: LineView) -> bool {
    candidate.episode_id == matched.episode_id && window_first(matched.line_number)
        <= candidate.line_number <= window_last(matched.line_number)
}

/// The window holds at most five line numbers, none below 1, and the number of
/// the matched line is one of them.
pub proof fn lemma_window_holds_match(number: i32)
    requires
        number >= 1,
    ensures
        1 <= window_first(number) <= number <= window_last(number),
        window_last(number) - window_first(number) <= 4,
{
}

/// The bounds of the window round line `number`.
pub fn window_bounds(number: i32) -> (r: (i32, i32))
    ensures
        r.0 == window_first(number),
        r.1 == window_last(number),
{
    let first: i32 = if number < 3 {
        1
    } else {
        number - 2
    };
    let last: i32 = if number > 0x7fff_fffd {
        0x7fff_ffff
    } else {
        number + 2
    };
    (first, last)
}

/// The lines of `lines` that stand in the window round `matched`, in the
/// order they have in `lines`.
pub open spec fn window_of(lines: Seq<LineView>, matched: LineView) -> Seq<LineView> {
    lines.filter(|candidate: LineView| in_window(candidate, matched))
}

/// Picks the window round `matched` out of `lines`.
pub fn context_window(lines: &Vec<Line>, matched: &Line) -> (r: Vec<Line>)
    ensures
        line_views(r@) == window_of(line_views(lines@), matched@),
{
    let (first, last) = window_bounds(matched.line_number);
    let ghost all = line_views(lines@);
    let ghost wanted = |candidate: LineView| in_window(candidate, matched@);
    let mut out: Vec<Line> = Vec::new();
    let mut i: usize = 0;
    proof {
        reveal(Seq::filter);
        assert(all.take(0) =~= Seq::empty());
        assert(line_views(out@) =~= all.take(0).filter(wanted));
    }
    while i < lines.len()
        invariant
            i <= lines.len(),
            all == line_views(lines@),
            wanted == |candidate: LineView| in_window(candidate, matched@),
            first == window_first(matched.line_number),
            last == window_last(matched.line_number),
            line_views(out@) == all.take(i as int).filter(wanted),
        decreases lines.len() - i,
    {
        proof {
            reveal(Seq::filter);
            assert(all.take(i + 1).drop_last() == all.take(i as int));
            assert(all.take(i + 1).last() == lines[i as int]@);
        }
        let line = &lines[i];
        if line.episode_id == matched.episode_id && first <= line.line_number && line.line_number
            <= last {
            let ghost before = line_views(out@);
            out.push(line.duplicate());
            assert(line_views(out@) =~= before.push(line@));
        }
        i += 1;
    }
    assert(all.take(lines.len() as int) == all);
    out
}

/// The predicate that the window round `matched` meets: the episode of
/// `matched`, and the line numbers within the bounds.
pub open spec fn window_predicate(matched: LineView) -> Seq<ConditionView> {
    seq![
        ConditionView {
            column: Column::EpisodeId,
            operator: Operator::Equals,
            value: ValueView::Integer(matched.episode_id),
        },
        ConditionView {
            column: Column::LineNumber,
            operator: Operator::AtLeast,
            value: ValueView::Integer(window_first(matched.line_number) as i64),
        },
        ConditionView {
            column: Column::LineNumber,
            operator: Operator::AtMost,
            value: ValueView::Integer(window_last(matched.line_number) as i64),
        },
    ]
}

/// The statement that selects the window round `matched`, in reading order.
pub fn context_statement(matched: &Line) -> (r: Statement)
    ensures
        r@ == statement_for(SELECT_LINES@, window_predicate(matched@), IN_READING_ORDER@),
{
    let (first, last) = window_bounds(matched.line_number);
    let mut conditions: Vec<Condition> = Vec::new();
    conditions.push(
        Condition {
            column: Column::EpisodeId,
            operator: Operator::Equals,
            value: Value::Integer(matched.episode_id),
        },
    );
    conditions.push(
        Condition {
            column: Column::LineNumber,
            operator: Operator::AtLeast,
            value: Value::Integer(first as i64),
        },
    );
    conditions.push(
        Condition {
            column: Column::LineNumber,
            operator: Operator::AtMost,
            value: Value::Integer(last as i64),
        },
    );
    let predicate = Predicate { conditions };
    assert(predicate@ =~= window_predicate(matched@));
    build_statement(SELECT_LINES, &predicate, IN_READING_ORDER)
}

} // verus!
