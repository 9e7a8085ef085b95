//! The position mapper: a table of line-start offsets, built once from the
//! source text, that converts (line, character) cursor positions to byte
//! offsets.

use vstd::prelude::*;

use crate::model::{pos_le, Position};

verus! {

/// The offsets just after each of the first `n` bytes that are a newline:
/// the starts of every line but the first, in ascending order.
pub open spec fn newline_starts(s: Seq<u8>, n: int) -> Seq<int>
    decreases n,
{
    if n <= 0 {
        Seq::empty()
    } else if s[n - 1] == 10 {
        newline_starts(s, n - 1).push(n)
    } else {
        newline_starts(s, n - 1)
    }
}

/// The start offset of every line of the text: offset 0, then the offset
/// after each newline byte.
pub open spec fn line_starts(s: Seq<u8>) -> Seq<int> {
    seq![0int] + newline_starts(s, s.len() as int)
}

/// The last offset a cursor on line `l` may map to: the offset of the
/// newline that ends the line, or the end of the text for the last line.
pub open spec fn line_end(s: Seq<u8>, l: int) -> int {
    if l + 1 < line_starts(s).len() {
        line_starts(s)[l + 1] - 1
    } else {
        s.len() as int
    }
}

/// The byte offset of a cursor position, defined exactly when the position
/// lies within the text's line and column bounds.
pub open spec fn offset_of(s: Seq<u8>, pos: Position) -> Option<int> {
    if pos.line < line_starts(s).len()
        && line_starts(s)[pos.line as int] + pos.character <= line_end(s, pos.line as int) {
        Some(line_starts(s)[pos.line as int] + pos.character)
    } else {
        None
    }
}

proof fn lemma_newline_starts_props(s: Seq<u8>, n: int)
    requires
        0 <= n <= s.len(),
    ensures
        forall|k: int|
            0 <= k < newline_starts(s, n).len() ==> 1 <= #[trigger] newline_starts(s, n)[k] <= n,
        forall|k1: int, k2: int|
            0 <= k1 < k2 < newline_starts(s, n).len() ==> newline_starts(s, n)[k1]
                < newline_starts(s, n)[k2],
    decreases n,
{
    if n > 0 {
        lemma_newline_starts_props(s, n - 1);
        let prev = newline_starts(s, n - 1);
        let cur = newline_starts(s, n);
        if s[n - 1] == 10 {
            assert(cur == prev.push(n));
            assert forall|k: int| 0 <= k < cur.len() implies 1 <= #[trigger] cur[k] <= n by {
                if k < prev.len() {
                    assert(cur[k] == prev[k]);
                } else {
                    assert(cur[k] == n);
                }
            }
            assert forall|k1: int, k2: int| 0 <= k1 < k2 < cur.len() implies cur[k1] < cur[k2] by {
                if k2 < prev.len() {
                    assert(cur[k1] == prev[k1] && cur[k2] == prev[k2]);
                } else {
                    assert(cur[k2] == n && cur[k1] == prev[k1] && prev[k1] <= n - 1);
                }
            }
        }
    }
}

/// The facts that make the table usable: it is non-empty, begins at offset
/// 0, stays within the text, and is strictly increasing.
pub proof fn lemma_line_starts_props(s: Seq<u8>)
    ensures
        line_starts(s).len() >= 1,
        line_starts(s)[0] == 0,
        forall|k: int|
            0 <= k < line_starts(s).len() ==> 0 <= #[trigger] line_starts(s)[k] <= s.len(),
        forall|k1: int, k2: int|
            0 <= k1 < k2 < line_starts(s).len() ==> line_starts(s)[k1] < line_starts(s)[k2],
{
    lemma_newline_starts_props(s, s.len() as int);
}

/// The position map is monotonic: offsets increase with positions in
/// document order.
pub proof fn lemma_offset_monotonic(s: Seq<u8>, a: Position, b: Position)
    requires
        pos_le(a, b),
        offset_of(s, a) is Some,
        offset_of(s, b) is Some,
    ensures
        offset_of(s, a)->Some_0 <= offset_of(s, b)->Some_0,
{
    lemma_line_starts_props(s);
    if a.line < b.line {
        assert(line_starts(s)[a.line as int] + a.character <= line_end(s, a.line as int));
        assert(line_starts(s)[a.line as int + 1] <= line_starts(s)[b.line as int]) by {
            if a.line as int + 1 < b.line as int {
                assert(line_starts(s)[a.line as int + 1] < line_starts(s)[b.line as int]);
            }
        }
    }
}

/// The line-start table for one source text.
pub struct LineMap {
    starts: Vec<usize>,
}

impl LineMap {
    /// The table holds exactly the line starts of `s`.
    pub closed spec fn wf(self, s: Seq<u8>) -> bool {
        &&& self.starts@.len() == line_starts(s).len()
        &&& forall|k: int|
            0 <= k < self.starts@.len() ==> self.starts@[k] as int == #[trigger] line_starts(
                s,
            )[k]
    }

    /// Builds the table by one scan over the text.
    pub fn new(source: &Vec<u8>) -> (lm: LineMap)
        ensures
            lm.wf(source@),
    {
        let mut starts: Vec<usize> = Vec::new();
        starts.push(0);
        let mut i: usize = 0;
        while i < source.len()
            invariant
                i <= source@.len(),
                starts@.len() == newline_starts(source@, i as int).len() + 1,
                starts@[0] == 0,
                forall|k: int|
                    1 <= k < starts@.len() ==> starts@[k] as int == #[trigger] newline_starts(
                        source@,
                        i as int,
                    )[k - 1],
            decreases source@.len() - i,
        {
            if source[i] == 10 {
                starts.push(i + 1);
            }
            i = i + 1;
        }
        let lm = LineMap { starts };
        proof {
            assert forall|k: int| 0 <= k < lm.starts@.len() implies lm.starts@[k] as int
                == #[trigger] line_starts(source@)[k] by {
                if k >= 1 {
                    assert(lm.starts@[k] as int == newline_starts(source@, source@.len() as int)[k
                        - 1]);
                }
            }
        }
        lm
    }

    /// Converts a cursor position to a byte offset; yields nothing exactly
    /// when the position lies outside the text's line and column bounds.
    pub fn offset_for_position(&self, source: &Vec<u8>, pos: Position) -> (r: Option<usize>)
        requires
            self.wf(source@),
        ensures
            match r {
                Option::None => offset_of(source@, pos) is None,
                Option::Some(o) => offset_of(source@, pos) == Some(o as int),
            },
    {
        proof {
            lemma_line_starts_props(source@);
        }
        let nlines = self.starts.len();
        if pos.line as usize >= nlines {
            return None;
        }
        let l = pos.line as usize;
        let start = self.starts[l];
        let end: usize = if l + 1 < nlines {
            self.starts[l + 1] - 1
        } else {
            source.len()
        };
        let c = pos.character as usize;
        if c <= end - start {
            Some(start + c)
        } else {
            None
        }
    }
}

} // verus!
