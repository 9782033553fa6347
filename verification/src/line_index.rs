//! Offsets into a normalized text, mapped to line and column.
//!
//! A `LineIndex` records where each line of a text starts. Looking up an offset is a binary
//! search in that table; the result is stated directly over the text: the line is the number
//! of line breaks before the offset, the column is the distance from the last line start.

use vstd::prelude::*;
use crate::position::Position;
use crate::text::{has_no_crlf, lemma_line_endings_agree, normalized, normalized_chars, with_crlf};

verus! {

/// The number of line breaks among the first `n` characters of `s`.
pub open spec fn breaks_before(s: Seq<char>, n: int) -> nat
    decreases n,
{
    if n <= 0 {
        0
    } else if n <= s.len() && s[n - 1] == '\n' {
        breaks_before(s, n - 1) + 1
    } else {
        breaks_before(s, n - 1)
    }
}

/// The greatest line start of `s` that is at most `n`: zero, or the offset just after a
/// line break.
pub open spec fn line_start_before(s: Seq<char>, n: int) -> int
    decreases n,
{
    if n <= 0 {
        0
    } else if n <= s.len() && s[n - 1] == '\n' {
        n
    } else {
        line_start_before(s, n - 1)
    }
}

/// The line of `offset` in the text `s`. An offset past the end lies on the last line; in
/// the empty text every offset lies on line zero.
pub open spec fn line_of(s: Seq<char>, offset: int) -> nat {
    if s.len() == 0 {
        0
    } else {
        breaks_before(s, offset)
    }
}

/// The column of `offset` in the text `s`: its distance from the start of its line. In the
/// empty text every offset has column zero.
pub open spec fn column_of(s: Seq<char>, offset: int) -> int {
    if s.len() == 0 {
        0
    } else {
        offset - line_start_before(s, offset)
    }
}

/// The position of `offset` in the text `s`.
pub open spec fn position_of(s: Seq<char>, offset: int) -> Position {
    Position { line: line_of(s, offset) as usize, character: column_of(s, offset) as usize }
}

/// The line starts of `s` that are at most `n`, in increasing order.
pub open spec fn starts_within(s: Seq<char>, n: int) -> Seq<int>
    decreases n,
{
    if n <= 0 {
        seq![0int]
    } else if n <= s.len() && s[n - 1] == '\n' {
        starts_within(s, n - 1).push(n)
    } else {
        starts_within(s, n - 1)
    }
}

/// All line starts of `s`: offset zero, then the offset after each line break.
pub open spec fn line_starts(s: Seq<char>) -> Seq<int> {
    starts_within(s, s.len() as int)
}

/// The shape of the table of line starts: one entry per line, the first zero, each next one
/// greater, each after a line break, the last one the line start that `n` falls behind.
pub proof fn lemma_starts_within(s: Seq<char>, n: int)
    requires
        0 <= n,
    ensures
        starts_within(s, n).len() == breaks_before(s, n) + 1,
        starts_within(s, n)[0] == 0,
        starts_within(s, n).last() == line_start_before(s, n),
        forall|i: int, j: int|
            0 <= i < j < starts_within(s, n).len() ==> starts_within(s, n)[i] < starts_within(
                s,
                n,
            )[j],
        forall|i: int|
            0 <= i < starts_within(s, n).len() ==> 0 <= #[trigger] starts_within(s, n)[i] <= n
                && starts_within(s, n)[i] <= s.len(),
        forall|i: int|
            0 < i < starts_within(s, n).len() ==> s[#[trigger] starts_within(s, n)[i] - 1]
                == '\n',
    decreases n,
{
    if n > 0 {
        lemma_starts_within(s, n - 1);
    }
}

/// The table up to `m` is the beginning of the table up to `n`, and what follows it there
/// lies past `m`.
pub proof fn lemma_starts_prefix(s: Seq<char>, m: int, n: int)
    requires
        0 <= m <= n,
    ensures
        starts_within(s, m).len() <= starts_within(s, n).len(),
        forall|i: int|
            0 <= i < starts_within(s, m).len() ==> starts_within(s, m)[i] == starts_within(
                s,
                n,
            )[i],
        forall|i: int|
            starts_within(s, m).len() <= i < starts_within(s, n).len() ==> m
                < #[trigger] starts_within(s, n)[i],
    decreases n - m,
{
    if m < n {
        lemma_starts_prefix(s, m, n - 1);
    }
}

/// Past the end of the text there are no further line breaks.
proof fn lemma_past_end(s: Seq<char>, n: int)
    requires
        s.len() <= n,
    ensures
        breaks_before(s, n) == breaks_before(s, s.len() as int),
        line_start_before(s, n) == line_start_before(s, s.len() as int),
    decreases n,
{
    if s.len() < n {
        lemma_past_end(s, n - 1);
    }
}

/// In the table of all line starts, the last entry that is at most `offset` stands at the
/// index that is the line of `offset`, and holds the start of that line.
proof fn lemma_table_lookup(s: Seq<char>, offset: int, i: int)
    requires
        0 <= offset,
        0 <= i < line_starts(s).len(),
        line_starts(s)[i] <= offset,
        i + 1 < line_starts(s).len() ==> offset < line_starts(s)[i + 1],
    ensures
        i == breaks_before(s, offset),
        line_starts(s)[i] == line_start_before(s, offset),
{
    let len = s.len() as int;
    let m = if offset <= len {
        offset
    } else {
        len
    };
    lemma_starts_within(s, len);
    lemma_starts_within(s, m);
    lemma_starts_prefix(s, m, len);
    if len < offset {
        lemma_past_end(s, offset);
    }
}

/// A later offset has no earlier position: its line is no smaller, and on the same line its
/// column is no smaller.
pub proof fn lemma_positions_in_order(s: Seq<char>, start: int, end: int)
    requires
        0 <= start <= end,
    ensures
        line_of(s, start) < line_of(s, end) || (line_of(s, start) == line_of(s, end)
            && column_of(s, start) <= column_of(s, end)),
    decreases end - start,
{
    if start < end {
        lemma_positions_in_order(s, start, end - 1);
    }
}

/// Line and column stay within bounds: there are no more line breaks than characters, and
/// a line starts no later than an offset on it.
pub proof fn lemma_position_bounds(s: Seq<char>, offset: int)
    requires
        0 <= offset,
    ensures
        line_of(s, offset) <= s.len(),
        line_of(s, offset) <= offset,
        0 <= column_of(s, offset) <= offset,
        breaks_before(s, offset) <= s.len(),
        breaks_before(s, offset) <= offset,
        0 <= line_start_before(s, offset) <= offset,
    decreases offset,
{
    if offset > 0 {
        lemma_position_bounds(s, offset - 1);
    }
}

/// The start of line `i` has the position line `i`, column zero.
pub proof fn lemma_line_start_position(s: Seq<char>, i: int)
    requires
        0 <= i < line_starts(s).len(),
    ensures
        line_of(s, line_starts(s)[i]) == i,
        column_of(s, line_starts(s)[i]) == 0,
{
    lemma_starts_within(s, s.len() as int);
    lemma_table_lookup(s, line_starts(s)[i], i);
}

/// In the empty text every offset has the position line zero, column zero.
pub proof fn lemma_empty_text_position(offset: int)
    ensures
        line_of(Seq::empty(), offset) == 0,
        column_of(Seq::empty(), offset) == 0,
        position_of(Seq::empty(), offset) == (Position { line: 0, character: 0 }),
{
}

/// A document written with single line feeds and the same document written with pairs
/// give every offset the same line and the same column.
pub proof fn lemma_line_endings_same_position(t: Seq<char>, offset: int)
    requires
        has_no_crlf(t),
    ensures
        line_of(normalized(with_crlf(t)), offset) == line_of(normalized(t), offset),
        column_of(normalized(with_crlf(t)), offset) == column_of(normalized(t), offset),
        line_starts(normalized(with_crlf(t))) == line_starts(normalized(t)),
{
    lemma_line_endings_agree(t);
}

/// The table of line starts of one text.
pub struct LineIndex {
    starts: Vec<usize>,
    length: usize,
    text: Ghost<Seq<char>>,
}

impl View for LineIndex {
    type V = Seq<int>;

    /// The line starts, in increasing order.
    closed spec fn view(&self) -> Seq<int> {
        self.starts@.map_values(|start: usize| start as int)
    }
}

impl LineIndex {
    #[verifier::type_invariant]
    spec fn holds_table(&self) -> bool {
        &&& self@ == line_starts(self.text@)
        &&& self.length == self.text@.len()
    }

    /// The normalized text that this index was built from.
    pub closed spec fn text(&self) -> Seq<char> {
        self.text@
    }

    /// The index of `text` in normalized form, built in one scan of the normalized text.
    pub fn build(text: &str) -> (index: LineIndex)
        ensures
            index.text() == normalized(text@),
            index@ == line_starts(normalized(text@)),
    {
        let chars = normalized_chars(text);
        let mut starts: Vec<usize> = Vec::new();
        starts.push(0);
        let mut i: usize = 0;
        while i < chars.len()
            invariant
                i <= chars.len(),
                starts@.map_values(|start: usize| start as int) == starts_within(
                    chars@,
                    i as int,
                ),
            decreases chars.len() - i,
        {
            if chars[i] == '\n' {
                starts.push(i + 1);
            }
            i += 1;
        }
        LineIndex { starts, length: chars.len(), text: Ghost(chars@) }
    }

    /// The line and column of `offset`.
    pub fn locate(&self, offset: usize) -> (pos: Position)
        ensures
            pos.line == line_of(self.text(), offset as int),
            pos.character == column_of(self.text(), offset as int),
            pos == position_of(self.text(), offset as int),
    {
        proof {
            use_type_invariant(self);
            lemma_starts_within(self.text@, self.text@.len() as int);
        }
        if self.length == 0 {
            return Position { line: 0, character: 0 };
        }
        let ghost table = line_starts(self.text@);
        let mut low: usize = 0;
        let mut high: usize = self.starts.len();
        while high - low > 1
            invariant
                self@ == table,
                table.len() == self.starts.len(),
                forall|i: int, j: int| 0 <= i < j < table.len() ==> table[i] < table[j],
                low < high <= self.starts.len(),
                table[low as int] <= offset,
                high < table.len() ==> offset < table[high as int],
            decreases high - low,
        {
            let middle: usize = low + (high - low) / 2;
            if self.starts[middle] <= offset {
                low = middle;
            } else {
                high = middle;
            }
        }
        proof {
            lemma_table_lookup(self.text@, offset as int, low as int);
        }
        Position { line: low, character: offset - self.starts[low] }
    }
}

} // verus!
