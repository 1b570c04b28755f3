//! Locating a position inside a scene description, for error messages.

use vstd::prelude::*;

verus! {

/// The ASCII line feed.
pub const LINE_FEED: u8 = 10;

/// The number of line feeds in `text`.
pub open spec fn line_feeds(text: Seq<u8>) -> nat
    decreases text.len(),
{
    if text.len() == 0 {
        0
    } else {
        line_feeds(text.drop_last()) + if text.last() == LINE_FEED {
            1nat
        } else {
            0nat
        }
    }
}

/// The line, counted from one, on which the byte at `offset` of `text`
/// stands: one more than the number of line feeds before it.
pub fn line_of_offset(text: &[u8], offset: usize) -> (line: usize)
    requires
        offset <= text.len(),
        offset < usize::MAX,
    ensures
        line == 1 + line_feeds(text@.take(offset as int)),
{
    let mut line: usize = 1;
    let mut i: usize = 0;
    while i < offset
        invariant
            i <= offset <= text.len(),
            offset < usize::MAX,
            line == 1 + line_feeds(text@.take(i as int)),
            line <= 1 + i,
        decreases offset - i,
    {
        proof {
            assert(text@.take(i + 1).drop_last() =~= text@.take(i as int));
        }
        if text[i] == LINE_FEED {
            line += 1;
        }
        i += 1;
    }
    line
}

} // verus!
