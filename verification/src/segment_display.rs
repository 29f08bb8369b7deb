//! The nine-segment glyph display and the segment difference between glyphs.

use vstd::prelude::*;

use crate::transition::Transition;

verus! {

/// One glyph position: nine segments, each lit (`true`) or dark (`false`).
pub struct SegmentDisplay {
    pub top: bool,
    pub upper_left: bool,
    pub upper_right: bool,
    pub upper_beam: bool,
    pub middle_beam: bool,
    pub pipe: bool,
    pub lower_left: bool,
    pub lower_right: bool,
    pub bottom: bool,
}

/// `1` when a segment is lit in `a` and dark in `b`, else `0`.
pub open spec fn spec_lost(a: bool, b: bool) -> int {
    if a && !b { 1 } else { 0 }
}

/// How many segments are lit in `a` but dark in `b`.
pub open spec fn removed_count(a: SegmentDisplay, b: SegmentDisplay) -> int {
    spec_lost(a.top, b.top)
    + spec_lost(a.upper_left, b.upper_left)
    + spec_lost(a.upper_right, b.upper_right)
    + spec_lost(a.upper_beam, b.upper_beam)
    + spec_lost(a.middle_beam, b.middle_beam)
    + spec_lost(a.pipe, b.pipe)
    + spec_lost(a.lower_left, b.lower_left)
    + spec_lost(a.lower_right, b.lower_right)
    + spec_lost(a.bottom, b.bottom)
}

/// How many segments are dark in `a` but lit in `b`.
pub open spec fn added_count(a: SegmentDisplay, b: SegmentDisplay) -> int {
    removed_count(b, a)
}

/// `1` when a segment is lit in `a` and dark in `b`, else `0`.
fn lost(a: bool, b: bool) -> (r: usize)
    ensures
        r == spec_lost(a, b),
{
    if a && !b { 1 } else { 0 }
}

/// How many of the three upper segments `a` must shed to become `b`.
fn removed_upper(a: &SegmentDisplay, b: &SegmentDisplay) -> (r: usize)
    ensures
        r == spec_lost(a.top, b.top) + spec_lost(a.upper_left, b.upper_left)
            + spec_lost(a.upper_right, b.upper_right),
{
    lost(a.top, b.top) + lost(a.upper_left, b.upper_left) + lost(a.upper_right, b.upper_right)
}

/// How many of the three middle segments `a` must shed to become `b`.
fn removed_middle(a: &SegmentDisplay, b: &SegmentDisplay) -> (r: usize)
    ensures
        r == spec_lost(a.upper_beam, b.upper_beam) + spec_lost(a.middle_beam, b.middle_beam)
            + spec_lost(a.pipe, b.pipe),
{
    lost(a.upper_beam, b.upper_beam) + lost(a.middle_beam, b.middle_beam) + lost(a.pipe, b.pipe)
}

/// How many of the three lower segments `a` must shed to become `b`.
fn removed_lower(a: &SegmentDisplay, b: &SegmentDisplay) -> (r: usize)
    ensures
        r == spec_lost(a.lower_left, b.lower_left) + spec_lost(a.lower_right, b.lower_right)
            + spec_lost(a.bottom, b.bottom),
{
    lost(a.lower_left, b.lower_left) + lost(a.lower_right, b.lower_right) + lost(a.bottom, b.bottom)
}

/// How many segments `a` must shed to become `b`.
fn removed_of(a: &SegmentDisplay, b: &SegmentDisplay) -> (r: usize)
    ensures
        r == removed_count(*a, *b),
{
    removed_upper(a, b) + removed_middle(a, b) + removed_lower(a, b)
}

impl SegmentDisplay {
    /// The segments to remove and to add to turn this glyph into `target`.
    pub fn delta_to(&self, target: &Self) -> (r: Transition)
        ensures
            r.remove == removed_count(*self, *target),
            r.add == added_count(*self, *target),
    {
        Transition { remove: removed_of(self, target), add: removed_of(target, self) }
    }
}

/// Turning a glyph into itself moves nothing.
pub proof fn lemma_delta_self_zero(a: SegmentDisplay)
    ensures
        removed_count(a, a) == 0,
        added_count(a, a) == 0,
{
}

/// The difference read in the opposite direction swaps removals and additions.
pub proof fn lemma_delta_symmetric(a: SegmentDisplay, b: SegmentDisplay)
    ensures
        removed_count(a, b) == added_count(b, a),
        added_count(a, b) == removed_count(b, a),
{
}

/// Two glyphs with no segment difference are the same glyph.
pub proof fn lemma_delta_zero_same_glyph(a: SegmentDisplay, b: SegmentDisplay)
    requires
        removed_count(a, b) == 0,
        added_count(a, b) == 0,
    ensures
        a == b,
{
}

/// One line of a glyph's five-line drawing.
pub open spec fn spec_line(d: SegmentDisplay, row: int) -> Seq<char> {
    if row == 1 {
        if d.top {
            (" ___ ")@
        } else {
            ("     ")@
        }
    } else if row == 2 {
        (if d.upper_left {
            ("|")@
        } else {
            (" ")@
        }) + (if d.upper_beam {
            ("_ _")@
        } else {
            ("   ")@
        }) + (if d.upper_right {
            ("|")@
        } else {
            (" ")@
        })
    } else if row == 3 {
        (if d.upper_left {
            ("|")@
        } else {
            (" ")@
        }) + (if d.middle_beam {
            ("_")@
        } else {
            (" ")@
        }) + (if d.pipe {
            ("|")@
        } else {
            (" ")@
        }) + (if d.middle_beam {
            ("_")@
        } else {
            (" ")@
        }) + (if d.upper_right {
            ("|")@
        } else {
            (" ")@
        })
    } else if row == 4 {
        (if d.lower_left {
            ("|")@
        } else {
            (" ")@
        }) + (if d.pipe {
            (" | ")@
        } else {
            ("   ")@
        }) + (if d.lower_right {
            ("|")@
        } else {
            (" ")@
        })
    } else {
        (if d.lower_left {
            ("|")@
        } else {
            (" ")@
        }) + (if d.bottom {
            ("___")@
        } else {
            ("   ")@
        }) + (if d.lower_right {
            ("|")@
        } else {
            (" ")@
        })
    }
}

/// The five-line drawing of one glyph.
pub open spec fn spec_draw(d: SegmentDisplay) -> Seq<char> {
    spec_line(d, 1) + ("\n")@ + spec_line(d, 2) + ("\n")@ + spec_line(d, 3) + ("\n")@
        + spec_line(d, 4) + ("\n")@ + spec_line(d, 5)
}

/// Append a single segment mark, `mark` when lit and blanks when dark.
fn append_mark(s: &mut String, lit: bool, mark: &'static str, blank: &'static str)
    ensures
        final(s)@ == old(s)@ + (if lit {
            mark@
        } else {
            blank@
        }),
{
    if lit {
        s.append(mark);
    } else {
        s.append(blank);
    }
}

/// One drawing line of the glyph, as a string.
pub(crate) fn line_string(d: &SegmentDisplay, row: usize) -> (r: String)
    requires
        1 <= row <= 5,
    ensures
        r@ == spec_line(*d, row as int),
{
    broadcast use Seq::add_empty_left;

    let mut s = String::new();
    if row == 1 {
        append_mark(&mut s, d.top, " ___ ", "     ");
        proof {
            assert(s@ == spec_line(*d, row as int));
        }
    } else if row == 2 {
        append_mark(&mut s, d.upper_left, "|", " ");
        append_mark(&mut s, d.upper_beam, "_ _", "   ");
        append_mark(&mut s, d.upper_right, "|", " ");
        proof {
            assert(s@ == spec_line(*d, row as int));
        }
    } else if row == 3 {
        append_mark(&mut s, d.upper_left, "|", " ");
        append_mark(&mut s, d.middle_beam, "_", " ");
        append_mark(&mut s, d.pipe, "|", " ");
        append_mark(&mut s, d.middle_beam, "_", " ");
        append_mark(&mut s, d.upper_right, "|", " ");
        proof {
            assert(s@ == spec_line(*d, row as int));
        }
    } else if row == 4 {
        append_mark(&mut s, d.lower_left, "|", " ");
        append_mark(&mut s, d.pipe, " | ", "   ");
        append_mark(&mut s, d.lower_right, "|", " ");
        proof {
            assert(s@ == spec_line(*d, row as int));
        }
    } else {
        append_mark(&mut s, d.lower_left, "|", " ");
        append_mark(&mut s, d.bottom, "___", "   ");
        append_mark(&mut s, d.lower_right, "|", " ");
        proof {
            assert(s@ == spec_line(*d, row as int));
        }
    }
    s
}

impl SegmentDisplay {
    /// The five-line text drawing of this glyph.
    pub fn draw(&self) -> (r: String)
        ensures
            r@ == spec_draw(*self),
    {
        broadcast use Seq::add_empty_left;

        let mut segment_display = String::new();
        segment_display.append(line_string(self, 1).as_str());
        segment_display.append("\n");
        segment_display.append(line_string(self, 2).as_str());
        segment_display.append("\n");
        segment_display.append(line_string(self, 3).as_str());
        segment_display.append("\n");
        segment_display.append(line_string(self, 4).as_str());
        segment_display.append("\n");
        segment_display.append(line_string(self, 5).as_str());
        proof {
            assert(segment_display@ == spec_draw(*self));
        }
        segment_display
    }
}

} // verus!
