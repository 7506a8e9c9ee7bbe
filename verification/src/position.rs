//! Line and column positions inside a source text.

use vstd::prelude::*;

verus! {

/// Byte value of the line feed, the only line terminator the lexer knows.
pub const LINE_FEED: u8 = 0x0a;

/// A place in the source: one-based line and one-based column, the column
/// counted in bytes.
#[derive(Copy, Clone, Ord, PartialOrd, Eq, PartialEq, Debug)]
pub struct SourcePosition {
    pub line: usize,
    pub column: usize,
}

/// A value together with the position at which it starts in the source.
#[derive(Eq, PartialEq, Debug)]
pub struct Pointed<T> {
    pub position: SourcePosition,
    pub data: T,
}

/// Line number of the byte at `offset`: one more than the number of line
/// feeds in front of it.
pub open spec fn line_of(bytes: Seq<u8>, offset: int) -> nat
    decreases offset,
{
    if offset <= 0 {
        1
    } else if bytes[offset - 1] == LINE_FEED {
        line_of(bytes, offset - 1) + 1
    } else {
        line_of(bytes, offset - 1)
    }
}

/// Column number of the byte at `offset`: one more than its distance from
/// the start of its line.
pub open spec fn column_of(bytes: Seq<u8>, offset: int) -> nat
    decreases offset,
{
    if offset <= 0 || bytes[offset - 1] == LINE_FEED {
        1
    } else {
        column_of(bytes, offset - 1) + 1
    }
}

/// The position of the byte at `offset`.
pub open spec fn position_at(bytes: Seq<u8>, offset: int) -> SourcePosition {
    SourcePosition {
        line: line_of(bytes, offset) as usize,
        column: column_of(bytes, offset) as usize,
    }
}

/// Both numbers are bounded by the offset, so they fit wherever the offset
/// leaves room for one more.
pub proof fn lemma_position_bounds(bytes: Seq<u8>, offset: int)
    requires
        0 <= offset,
    ensures
        1 <= line_of(bytes, offset) <= offset + 1,
        1 <= column_of(bytes, offset) <= offset + 1,
    decreases offset,
{
    if offset > 0 {
        lemma_position_bounds(bytes, offset - 1);
    }
}

/// Moving over bytes that hold no line feed keeps the line and adds their
/// count to the column.
pub proof fn lemma_same_line(bytes: Seq<u8>, offset: int, count: int)
    requires
        0 <= offset,
        0 <= count,
        forall|i: int| offset <= i < offset + count ==> #[trigger] bytes[i] != LINE_FEED,
    ensures
        line_of(bytes, offset + count) == line_of(bytes, offset),
        column_of(bytes, offset + count) == column_of(bytes, offset) + count,
    decreases count,
{
    if count > 0 {
        lemma_same_line(bytes, offset, count - 1);
        assert(bytes[offset + count - 1] != LINE_FEED);
    }
}

} // verus!
