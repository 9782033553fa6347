//! The range of a span of offsets.

use vstd::prelude::*;
use crate::line_index::{
    column_of,
    lemma_position_bounds,
    lemma_positions_in_order,
    line_of,
    position_of,
    LineIndex,
};
use crate::position::Range;
use crate::text::normalized;

verus! {

/// The range between two offsets into the text `s`.
pub open spec fn range_of(s: Seq<char>, span: (usize, usize)) -> Range {
    Range { start: position_of(s, span.0 as int), end: position_of(s, span.1 as int) }
}

/// Where a span starts no later than it ends, so does its range.
pub proof fn lemma_range_in_order(s: Seq<char>, span: (usize, usize))
    requires
        s.len() <= usize::MAX,
        span.0 <= span.1,
    ensures
        range_of(s, span).start.at_or_before(range_of(s, span).end),
{
    lemma_positions_in_order(s, span.0 as int, span.1 as int);
    lemma_position_bounds(s, span.0 as int);
    lemma_position_bounds(s, span.1 as int);
}

/// The range that the span of offsets `span` covers in `text`. The offsets count the
/// characters of the normalized text; both ends are looked up in one index of it.
pub fn compute_range(text: String, span: (usize, usize)) -> (range: Range)
    ensures
        range == range_of(normalized(text@), span),
        range.start.line == line_of(normalized(text@), span.0 as int),
        range.start.character == column_of(normalized(text@), span.0 as int),
        range.end.line == line_of(normalized(text@), span.1 as int),
        range.end.character == column_of(normalized(text@), span.1 as int),
        span.0 <= span.1 ==> range.start.at_or_before(range.end),
{
    let index = LineIndex::build(text.as_str());
    proof {
        if span.0 <= span.1 {
            lemma_positions_in_order(index.text(), span.0 as int, span.1 as int);
        }
    }
    Range { start: index.locate(span.0), end: index.locate(span.1) }
}

} // verus!
