//! Texts put together from lines, and where each line then starts.

use vstd::prelude::*;
use crate::line_index::{
    breaks_before,
    column_of,
    lemma_starts_prefix,
    lemma_starts_within,
    line_of,
    line_start_before,
    line_starts,
    starts_within,
};

verus! {

/// The text made of `lines`, with a line break between each two of them.
pub open spec fn joined(lines: Seq<Seq<char>>) -> Seq<char>
    decreases lines.len(),
{
    if lines.len() == 0 {
        Seq::empty()
    } else if lines.len() == 1 {
        lines[0]
    } else {
        joined(lines.drop_last()) + seq!['\n'] + lines.last()
    }
}

/// The offset at which line `i` starts in the text made of `lines`: the lengths of the
/// lines before it, and one for the line break after each.
pub open spec fn line_offset(lines: Seq<Seq<char>>, i: int) -> int
    decreases i,
{
    if i <= 0 {
        0
    } else {
        line_offset(lines, i - 1) + lines[i - 1].len() + 1
    }
}

/// Whether no line holds a line break.
pub open spec fn are_single_lines(lines: Seq<Seq<char>>) -> bool {
    forall|i: int, k: int|
        0 <= i < lines.len() && 0 <= k < lines[i].len() ==> (#[trigger] lines[i][k]) != '\n'
}

/// What lies before an offset decides its line breaks and its line start: text added
/// behind changes neither.
proof fn lemma_prefix_decides(a: Seq<char>, b: Seq<char>, n: int)
    requires
        n <= a.len(),
    ensures
        breaks_before(a + b, n) == breaks_before(a, n),
        line_start_before(a + b, n) == line_start_before(a, n),
    decreases n,
{
    if n > 0 {
        lemma_prefix_decides(a, b, n - 1);
    }
}

/// With only a line without line breaks behind a line break, every offset into that line
/// lies one line further than the end of what came before, and starts after the break.
proof fn lemma_last_line(a: Seq<char>, line: Seq<char>, c: int)
    requires
        0 <= c <= line.len(),
        forall|k: int| 0 <= k < line.len() ==> line[k] != '\n',
    ensures
        breaks_before(a + seq!['\n'] + line, a.len() + 1 + c) == breaks_before(
            a,
            a.len() as int,
        ) + 1,
        line_start_before(a + seq!['\n'] + line, a.len() + 1 + c) == a.len() + 1,
    decreases c,
{
    let text = a + seq!['\n'] + line;
    if c > 0 {
        lemma_last_line(a, line, c - 1);
    } else {
        lemma_prefix_decides(a, seq!['\n'] + line, a.len() as int);
        assert(a + (seq!['\n'] + line) =~= text);
    }
}

/// The text made of `lines` ends where a further line would start, less its line break.
proof fn lemma_joined_len(lines: Seq<Seq<char>>)
    requires
        lines.len() > 0,
    ensures
        joined(lines).len() + 1 == line_offset(lines, lines.len() as int),
    decreases lines.len(),
{
    let n = lines.len() as int;
    if n > 1 {
        lemma_joined_len(lines.drop_last());
        lemma_line_offset_drop_last(lines, n - 1);
    } else {
        assert(line_offset(lines, 0) == 0);
    }
}

/// Where a line starts depends on the lines before it alone.
proof fn lemma_line_offset_drop_last(lines: Seq<Seq<char>>, i: int)
    requires
        0 <= i < lines.len(),
    ensures
        line_offset(lines.drop_last(), i) == line_offset(lines, i),
    decreases i,
{
    if i > 0 {
        lemma_line_offset_drop_last(lines, i - 1);
    }
}

/// In the text made of `lines`, the place `c` characters into line `i` lies behind `i`
/// line breaks, and its line starts where line `i` starts.
proof fn lemma_joined_breaks(lines: Seq<Seq<char>>, i: int, c: int)
    requires
        are_single_lines(lines),
        0 <= i < lines.len(),
        0 <= c <= lines[i].len(),
    ensures
        breaks_before(joined(lines), line_offset(lines, i) + c) == i,
        line_start_before(joined(lines), line_offset(lines, i) + c) == line_offset(lines, i),
    decreases lines.len(),
{
    if lines.len() == 1 {
        lemma_only_line(lines[0], c);
    } else {
        let before = lines.drop_last();
        let last = lines.len() - 1;
        lemma_joined_len(before);
        if i < last {
            lemma_joined_breaks(before, i, c);
            lemma_line_offset_drop_last(lines, i);
            lemma_line_offset_drop_last(lines, i + 1);
            assert(line_offset(before, i) + c <= joined(before).len()) by {
                lemma_line_offsets_grow(before, i + 1, before.len() as int);
            }
            lemma_prefix_decides(
                joined(before),
                seq!['\n'] + lines.last(),
                line_offset(lines, i) + c,
            );
            assert(joined(before) + (seq!['\n'] + lines.last()) =~= joined(lines));
        } else {
            lemma_joined_breaks(before, last - 1, before[last - 1].len() as int);
            lemma_line_offset_drop_last(lines, last - 1);
            lemma_last_line(joined(before), lines.last(), c);
        }
    }
}

/// A text without line breaks is one line that starts at offset zero.
proof fn lemma_only_line(line: Seq<char>, c: int)
    requires
        0 <= c <= line.len(),
        forall|k: int| 0 <= k < line.len() ==> line[k] != '\n',
    ensures
        breaks_before(line, c) == 0,
        line_start_before(line, c) == 0,
    decreases c,
{
    if c > 0 {
        lemma_only_line(line, c - 1);
    }
}

/// Later lines start no earlier.
proof fn lemma_line_offsets_grow(lines: Seq<Seq<char>>, i: int, j: int)
    requires
        0 <= i <= j,
    ensures
        line_offset(lines, i) <= line_offset(lines, j),
    decreases j - i,
{
    if i < j {
        lemma_line_offsets_grow(lines, i, j - 1);
    }
}

/// In a text put together from lines, the place `c` characters into line `i` has the
/// position line `i`, column `c`; so the start of line `i` has line `i`, column zero.
pub proof fn lemma_position_in_lines(lines: Seq<Seq<char>>, i: int, c: int)
    requires
        are_single_lines(lines),
        0 <= i < lines.len(),
        0 <= c <= lines[i].len(),
    ensures
        line_of(joined(lines), line_offset(lines, i) + c) == i,
        column_of(joined(lines), line_offset(lines, i) + c) == c,
{
    lemma_joined_breaks(lines, i, c);
    if joined(lines).len() == 0 {
        lemma_joined_len(lines);
        lemma_line_offsets_grow(lines, i + 1, lines.len() as int);
        lemma_line_offsets_grow(lines, 0, i);
    }
}

/// The table of line starts of a text put together from lines has one entry for each
/// line, and each entry is the offset at which its line starts.
pub proof fn lemma_line_starts_of_lines(lines: Seq<Seq<char>>)
    requires
        are_single_lines(lines),
        lines.len() > 0,
    ensures
        line_starts(joined(lines)).len() == lines.len(),
        forall|i: int|
            0 <= i < lines.len() ==> #[trigger] line_starts(joined(lines))[i] == line_offset(
                lines,
                i,
            ),
{
    let text = joined(lines);
    let last = lines.len() - 1;
    lemma_joined_len(lines);
    lemma_joined_breaks(lines, last, lines[last].len() as int);
    lemma_starts_within(text, text.len() as int);
    assert forall|i: int| 0 <= i < lines.len() implies #[trigger] line_starts(text)[i]
        == line_offset(lines, i) by {
        let start = line_offset(lines, i);
        lemma_joined_breaks(lines, i, 0);
        lemma_line_offsets_grow(lines, 0, i);
        lemma_line_offsets_grow(lines, i + 1, lines.len() as int);
        lemma_starts_within(text, start);
        lemma_starts_prefix(text, start, text.len() as int);
    }
}

} // verus!
