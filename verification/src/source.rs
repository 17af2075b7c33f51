//! Byte-offset spans into a source document, used for diagnostics.

use vstd::prelude::*;

verus! {

/// A contiguous byte range `start..end` into the original source buffer.
///
/// Every syntax-tree node carries one so that a diagnostic can point at the
/// exact originating substring.
#[derive(Clone, Copy, Debug, PartialEq, Eq, Structural)]
pub struct Span {
    pub start: usize,
    pub end: usize,
}

impl Span {
    /// The span is well-ordered and lies inside a buffer of `n` bytes.
    pub open spec fn valid(self, n: nat) -> bool {
        self.start <= self.end && self.end <= n
    }

    /// The text that the span selects from the buffer `s`.
    pub open spec fn text(self, s: Seq<u8>) -> Seq<u8> {
        s.subrange(self.start as int, self.end as int)
    }

    /// Shrink the span by dropping `n` bytes from its start.
    pub fn trim_start(&self, n: usize) -> (r: Span)
        requires
            self.start + n <= self.end,
        ensures
            r == (Span { start: (self.start + n) as usize, end: self.end }),
    {
        Span { start: self.start + n, end: self.end }
    }

    /// Shrink the span by dropping `n` bytes from its end.
    pub fn trim_end(&self, n: usize) -> (r: Span)
        requires
            self.start + n <= self.end,
        ensures
            r == (Span { start: self.start, end: (self.end - n) as usize }),
    {
        Span { start: self.start, end: self.end - n }
    }

    /// The smallest span that covers both `self` and `other`.
    pub open spec fn spec_union(self, other: Span) -> Span {
        Span {
            start: if self.start <= other.start {
                self.start
            } else {
                other.start
            },
            end: if self.end >= other.end {
                self.end
            } else {
                other.end
            },
        }
    }

    pub fn union(&self, other: Span) -> (r: Span)
        ensures
            r == self.spec_union(other),
    {
        Span {
            start: if self.start <= other.start {
                self.start
            } else {
                other.start
            },
            end: if self.end >= other.end {
                self.end
            } else {
                other.end
            },
        }
    }

    /// Copy the selected bytes out of the source buffer.
    pub fn resolve(&self, input: &[u8]) -> (r: Vec<u8>)
        requires
            self.valid(input@.len()),
        ensures
            r@ == self.text(input@),
    {
        let mut out: Vec<u8> = Vec::new();
        let mut i: usize = self.start;
        while i < self.end
            invariant
                self.start <= i <= self.end,
                self.valid(input@.len()),
                out@ == input@.subrange(self.start as int, i as int),
            decreases self.end - i,
        {
            out.push(input[i]);
            i += 1;
            proof {
                assert(out@ =~= input@.subrange(self.start as int, i as int));
            }
        }
        proof {
            assert(out@ =~= self.text(input@));
        }
        out
    }
}

/// The union of a non-empty sequence of spans, folded from the left, exactly
/// as repeated pairwise `union` computes it.
pub open spec fn spans_union(ss: Seq<Span>) -> Span
    recommends
        ss.len() >= 1,
    decreases ss.len(),
{
    if ss.len() <= 1 {
        ss[0]
    } else {
        spans_union(ss.drop_last()).spec_union(ss.last())
    }
}

} // verus!
