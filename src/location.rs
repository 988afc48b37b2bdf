//! Positions in a source text, and spans between them.
use vstd::prelude::*;

verus! {

/// A position in a source text, counted in Unicode scalar values.
///
/// Both coordinates are 0-indexed.
#[derive(Copy, Clone, Debug, PartialEq, Eq, Structural)]
pub struct Location {
    /// 0-indexed line.
    pub line: usize,
    /// 0-indexed column, in characters from the start of the line.
    pub column: usize,
}

impl Default for Location {
    /// The start of the text: line 0, column 0.
    fn default() -> (r: Location)
        ensures
            r == (Location { line: 0, column: 0 }),
    {
        Location { line: 0, column: 0 }
    }
}

/// A span of source text. `ex_end` is exclusive, as in an editor selection:
/// `begin == ex_end` is an empty cursor.
#[derive(Copy, Clone, Debug, PartialEq, Eq, Structural)]
pub struct Range {
    /// First position of the span.
    pub begin: Location,
    /// Position just past the span.
    pub ex_end: Location,
}

/// Number of newline characters in `t`.
pub open spec fn newline_count(t: Seq<char>) -> nat
    decreases t.len(),
{
    if t.len() == 0 {
        0
    } else {
        newline_count(t.drop_last()) + if t.last() == '\n' { 1nat } else { 0nat }
    }
}

/// Number of characters of `t` after its last newline (all of `t` if it has none).
pub open spec fn chars_after_last_newline(t: Seq<char>) -> nat
    decreases t.len(),
{
    if t.len() == 0 {
        0
    } else if t.last() == '\n' {
        0
    } else {
        chars_after_last_newline(t.drop_last()) + 1
    }
}

/// The line reached after moving over `t` from line `line`.
pub open spec fn line_after(line: int, t: Seq<char>) -> int {
    line + newline_count(t)
}

/// The column reached after moving over `t` from column `column`.
pub open spec fn column_after(column: int, t: Seq<char>) -> int {
    if newline_count(t) > 0 {
        chars_after_last_newline(t) as int
    } else {
        column + t.len()
    }
}

/// The location reached after moving over `t` from `loc`.
pub open spec fn advanced(loc: Location, t: Seq<char>) -> Location {
    Location {
        line: line_after(loc.line as int, t) as usize,
        column: column_after(loc.column as int, t) as usize,
    }
}

/// `a` comes no later than `b` in document order.
pub open spec fn loc_le(a: Location, b: Location) -> bool {
    a.line < b.line || (a.line == b.line && a.column <= b.column)
}

/// Moving over `t` advances by at most `t.len()` on each coordinate.
pub proof fn lemma_advance_bounds(t: Seq<char>)
    ensures
        newline_count(t) <= t.len(),
        chars_after_last_newline(t) <= t.len(),
        newline_count(t) == 0 ==> chars_after_last_newline(t) == t.len(),
    decreases t.len(),
{
    if t.len() > 0 {
        lemma_advance_bounds(t.drop_last());
    }
}

/// `newline_count` and `chars_after_last_newline` after appending one character.
pub proof fn lemma_push(t: Seq<char>, c: char)
    ensures
        newline_count(t.push(c)) == newline_count(t) + if c == '\n' { 1nat } else { 0nat },
        chars_after_last_newline(t.push(c)) == if c == '\n' {
            0
        } else {
            chars_after_last_newline(t) + 1
        },
{
    assert(t.push(c).drop_last() =~= t);
}

/// Newline counts and trailing columns of a concatenation.
pub proof fn lemma_concat(t1: Seq<char>, t2: Seq<char>)
    ensures
        newline_count(t1 + t2) == newline_count(t1) + newline_count(t2),
        chars_after_last_newline(t1 + t2) == if newline_count(t2) > 0 {
            chars_after_last_newline(t2)
        } else {
            chars_after_last_newline(t1) + t2.len()
        },
    decreases t2.len(),
{
    if t2.len() == 0 {
        assert(t1 + t2 =~= t1);
    } else {
        assert((t1 + t2).drop_last() =~= t1 + t2.drop_last());
        lemma_concat(t1, t2.drop_last());
        lemma_advance_bounds(t2.drop_last());
    }
}

/// Moving over `t1` and then over `t2` is moving over `t1 + t2`, where nothing
/// overflows.
pub proof fn lemma_advanced_concat(loc: Location, t1: Seq<char>, t2: Seq<char>)
    requires
        loc.line + t1.len() + t2.len() <= usize::MAX,
        loc.column + t1.len() + t2.len() <= usize::MAX,
    ensures
        advanced(advanced(loc, t1), t2) == advanced(loc, t1 + t2),
{
    lemma_concat(t1, t2);
    lemma_advance_bounds(t1);
    lemma_advance_bounds(t2);
    lemma_advance_bounds(t1 + t2);
}

/// Moving over text never goes back, where nothing overflows; it moves to a
/// later line exactly when the text holds a newline.
pub proof fn lemma_advanced_forward(loc: Location, t: Seq<char>)
    requires
        loc.line + t.len() <= usize::MAX,
        loc.column + t.len() <= usize::MAX,
    ensures
        loc_le(loc, advanced(loc, t)),
        newline_count(t) > 0 ==> advanced(loc, t).line > loc.line,
        newline_count(t) == 0 ==> advanced(loc, t) == (Location {
            line: loc.line,
            column: (loc.column + t.len()) as usize,
        }),
        advanced(loc, t).line <= loc.line + t.len(),
        advanced(loc, t).column <= loc.column + t.len(),
{
    lemma_advance_bounds(t);
}

impl Location {
    /// Moves this location past `text`.
    ///
    /// With a newline in `text` the line grows by the number of newlines and the
    /// column becomes the number of characters after the last one; otherwise the
    /// column grows by the number of characters.
    pub fn advance(&mut self, text: &[char])
        requires
            old(self).line + text@.len() <= usize::MAX,
            old(self).column + text@.len() <= usize::MAX,
        ensures
            *final(self) == advanced(*old(self), text@),
    {
        let ghost start = *self;
        let mut newlines: usize = 0;
        let mut tail: usize = 0;
        let mut i: usize = 0;
        while i < text.len()
            invariant
                i <= text@.len(),
                newlines == newline_count(text@.take(i as int)),
                tail == chars_after_last_newline(text@.take(i as int)),
                newlines <= i,
                tail <= i,
            decreases text@.len() - i,
        {
            proof {
                assert(text@.take(i as int + 1) =~= text@.take(i as int).push(text@[i as int]));
                lemma_push(text@.take(i as int), text@[i as int]);
            }
            if text[i] == '\n' {
                newlines = newlines + 1;
                tail = 0;
            } else {
                tail = tail + 1;
            }
            i = i + 1;
        }
        proof {
            assert(text@.take(i as int) =~= text@);
            lemma_advance_bounds(text@);
        }
        if newlines > 0 {
            self.line = self.line + newlines;
            self.column = tail;
        } else {
            self.column = self.column + i;
        }
    }
}

} // verus!
