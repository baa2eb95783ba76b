//! Walking a buffer line by line.
//!
//! A buffer is a run of segments separated by line feeds. The segment after
//! the last line feed is there even when it is empty, so a buffer of `n`
//! line feeds has `n + 1` segments; only the last one is not terminated.

use crate::constants::LF;
use crate::utils::{find_byte, lemma_find, spec_find};
use vstd::prelude::*;

verus! {

/// Where a walk over the segments of a buffer stands: the offset of the
/// next segment, and whether the last segment has been handed out.
pub struct Cursor {
    pub pos: int,
    pub done: bool,
}

/// The cursor of a walk that resumes at offset `at` of a buffer of `len`
/// bytes. An offset beyond the buffer leaves nothing to walk.
pub open spec fn spec_cursor_at(len: nat, at: int) -> Cursor {
    if 0 <= at <= len {
        Cursor { pos: at, done: false }
    } else {
        Cursor { pos: len as int, done: true }
    }
}

/// End of the segment that starts at `pos`: the offset of the next line
/// feed, or the end of the buffer.
pub open spec fn spec_line_end(s: Seq<u8>, pos: int) -> int {
    spec_find(s, pos, LF)
}

/// The segment that a walk hands out next, if any.
pub open spec fn spec_peek(s: Seq<u8>, c: Cursor) -> Option<(usize, usize)> {
    if c.done {
        None
    } else {
        Some((c.pos as usize, spec_line_end(s, c.pos) as usize))
    }
}

/// The cursor after the next segment was handed out.
pub open spec fn spec_advance(s: Seq<u8>, c: Cursor) -> Cursor {
    if c.done {
        c
    } else if spec_line_end(s, c.pos) < s.len() {
        Cursor { pos: spec_line_end(s, c.pos) + 1, done: false }
    } else {
        Cursor { pos: s.len() as int, done: true }
    }
}

/// A walk over the segments of a borrowed buffer.
pub struct Lines<'a> {
    buf: &'a [u8],
    pos: usize,
    done: bool,
}

impl<'a> Lines<'a> {
    #[verifier::type_invariant]
    spec fn inv(&self) -> bool {
        self.pos <= self.buf@.len()
    }

    /// The bytes that are walked.
    pub closed spec fn source(&self) -> Seq<u8> {
        self.buf@
    }

    /// Where the walk stands.
    pub closed spec fn cursor(&self) -> Cursor {
        Cursor { pos: self.pos as int, done: self.done }
    }

    /// A walk that starts at the first byte of `buf`.
    pub fn new(buf: &'a [u8]) -> (r: Lines<'a>)
        ensures
            r.source() == buf@,
            r.cursor() == (Cursor { pos: 0, done: false }),
    {
        Lines { buf, pos: 0, done: false }
    }

    /// A walk that resumes at offset `at` of `buf`.
    pub fn resume(buf: &'a [u8], at: usize) -> (r: Lines<'a>)
        ensures
            r.source() == buf@,
            r.cursor() == spec_cursor_at(buf@.len(), at as int),
    {
        if at <= buf.len() {
            Lines { buf, pos: at, done: false }
        } else {
            Lines { buf, pos: buf.len(), done: true }
        }
    }

    /// Offset of the next segment; it never lies beyond the buffer.
    pub fn position(&self) -> (r: usize)
        ensures
            r == self.cursor().pos,
            r <= self.source().len(),
    {
        proof {
            use_type_invariant(self);
        }
        self.pos
    }

    /// Whether the last segment has been handed out.
    pub fn is_done(&self) -> (r: bool)
        ensures
            r == self.cursor().done,
    {
        self.done
    }

    /// The next segment, as the range it occupies without its line feed,
    /// left in place.
    pub fn peek(&self) -> (r: Option<(usize, usize)>)
        ensures
            r == spec_peek(self.source(), self.cursor()),
            r matches Some(line) ==> self.cursor().pos == line.0 <= line.1 <= self.source().len()
                && line.1 == spec_line_end(self.source(), self.cursor().pos),
    {
        proof {
            use_type_invariant(self);
            lemma_find(self.buf@, self.pos as int, LF);
        }
        if self.done {
            None
        } else {
            let end: usize = find_byte(self.buf, self.pos, self.buf.len(), LF);
            assert(self.buf@.subrange(0, self.buf@.len() as int) =~= self.buf@);
            Some((self.pos, end))
        }
    }

    /// Hands out the next segment, as the range it occupies without its
    /// line feed.
    pub fn next(&mut self) -> (r: Option<(usize, usize)>)
        ensures
            final(self).source() == old(self).source(),
            r == spec_peek(old(self).source(), old(self).cursor()),
            final(self).cursor() == spec_advance(old(self).source(), old(self).cursor()),
            r matches Some(line) ==> old(self).cursor().pos == line.0 <= line.1 <= old(
                self,
            ).source().len() && line.1 == spec_line_end(old(self).source(), old(self).cursor().pos),
    {
        proof {
            use_type_invariant(&*self);
            lemma_find(self.buf@, self.pos as int, LF);
        }
        if self.done {
            None
        } else {
            let start: usize = self.pos;
            let end: usize = find_byte(self.buf, self.pos, self.buf.len(), LF);
            assert(self.buf@.subrange(0, self.buf@.len() as int) =~= self.buf@);
            if end < self.buf.len() {
                self.pos = end + 1;
            } else {
                self.pos = self.buf.len();
                self.done = true;
            }
            Some((start, end))
        }
    }
}

} // verus!
