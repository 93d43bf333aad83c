//! Lines of text split into styled segments, ready for a front end to draw.

use vstd::prelude::*;
use crate::text::{bytes_of, on_boundary, slice};

verus! {

/// How a highlighted region is drawn.
#[derive(Debug, Clone)]
pub struct HighlightedStyle {
    pub color: String,
    pub bold: bool,
    pub italic: bool,
}

/// A piece of a line, with the style it is drawn in, if any.
#[derive(Debug, Clone)]
pub struct RenderedSegment {
    pub text: String,
    pub style: Option<HighlightedStyle>,
}

/// A line made of segments, left to right.
pub struct RenderedLine {
    segments: Vec<RenderedSegment>,
}

impl View for RenderedLine {
    type V = Seq<RenderedSegment>;

    closed spec fn view(&self) -> Seq<RenderedSegment> {
        self.segments@
    }
}

impl RenderedLine {
    /// A line with no segments.
    pub fn new() -> (r: Self)
        ensures
            r@ == Seq::<RenderedSegment>::empty(),
    {
        Self { segments: Vec::new() }
    }

    /// Appends a segment at the right.
    pub fn add_segment(&mut self, segment: RenderedSegment)
        ensures
            final(self)@ == old(self)@.push(segment),
    {
        self.segments.push(segment);
    }

    /// The segments, left to right.
    pub fn get_segments(&self) -> (r: &Vec<RenderedSegment>)
        ensures
            r@ == self@,
    {
        &self.segments
    }
}

/// A styled byte range `[start, end)` of a line.
#[derive(Debug, Clone)]
pub struct HighlightedRegion {
    pub start: usize,
    pub end: usize,
    pub style: HighlightedStyle,
}

/// A segment as its bytes and style.
pub open spec fn segment_view(s: RenderedSegment) -> (Seq<u8>, Option<HighlightedStyle>) {
    (bytes_of(s.text@), s.style)
}

/// Regions `i..` follow one another from byte `cur` on, each within the line
/// and cut at character boundaries.
pub open spec fn regions_fit(t: Seq<char>, rs: Seq<HighlightedRegion>, i: int, cur: int) -> bool
    decreases rs.len() - i,
{
    if i >= rs.len() || i < 0 {
        true
    } else {
        let r = rs[i];
        &&& cur <= r.start <= r.end <= bytes_of(t).len()
        &&& on_boundary(t, r.start as int)
        &&& on_boundary(t, r.end as int)
        &&& regions_fit(t, rs, i + 1, r.end as int)
    }
}

/// The segments that regions `i..` make of the line from byte `cur` on: the
/// unstyled text before each region, the region in its style, and the
/// unstyled rest of the line.
pub open spec fn segments_from(t: Seq<char>, rs: Seq<HighlightedRegion>, i: int, cur: int) -> Seq<(Seq<u8>, Option<HighlightedStyle>)>
    decreases rs.len() - i,
{
    let b = bytes_of(t);
    if i >= rs.len() || i < 0 {
        if cur < b.len() { seq![(b.subrange(cur, b.len() as int), None)] } else { Seq::empty() }
    } else {
        let r = rs[i];
        let before: Seq<(Seq<u8>, Option<HighlightedStyle>)> =
            if cur < r.start { seq![(b.subrange(cur, r.start as int), None)] } else { Seq::empty() };
        before + seq![(b.subrange(r.start as int, r.end as int), Some(r.style))] + segments_from(t, rs, i + 1, r.end as int)
    }
}

fn copy_style(s: &HighlightedStyle) -> (r: HighlightedStyle)
    ensures
        r == *s,
{
    HighlightedStyle { color: s.color.clone(), bold: s.bold, italic: s.italic }
}

/// Turns text and highlighted regions into rendered lines.
pub struct Renderer;

impl Renderer {
    pub fn new() -> Self {
        Self {}
    }

    /// Splits `line` into segments: the text between regions unstyled, each
    /// region in its style. `None` when the regions do not follow one another
    /// within the line on character boundaries.
    pub fn render_line(&self, line: &str, highlighted_regions: &Vec<HighlightedRegion>) -> (r: Option<RenderedLine>)
        ensures
            r is Some <==> regions_fit(line@, highlighted_regions@, 0, 0),
            r matches Some(l) ==> l@.map_values(|s: RenderedSegment| segment_view(s))
                == segments_from(line@, highlighted_regions@, 0, 0),
    {
        let ghost t = line@;
        let ghost rs = highlighted_regions@;
        let len = line.as_bytes().len();
        let mut rendered_line = RenderedLine::new();
        let mut current: usize = 0;
        let mut i: usize = 0;
        proof {
            vstd::utf8::encode_utf8_valid_utf8(t);
            vstd::utf8::is_char_boundary_start_end_of_seq(bytes_of(t));
        }
        while i < highlighted_regions.len()
            invariant
                t == line@,
                rs == highlighted_regions@,
                len == bytes_of(t).len(),
                0 <= i <= rs.len(),
                current <= len,
                on_boundary(t, current as int),
                regions_fit(t, rs, 0, 0) == regions_fit(t, rs, i as int, current as int),
                rendered_line@.map_values(|s: RenderedSegment| segment_view(s)) + segments_from(t, rs, i as int, current as int)
                    == segments_from(t, rs, 0, 0),
            decreases rs.len() - i,
        {
            let region = &highlighted_regions[i];
            if !(current <= region.start && region.start <= region.end && region.end <= len
                && line.is_char_boundary(region.start) && line.is_char_boundary(region.end)) {
                return None;
            }
            let ghost prev = rendered_line@;
            let ghost pv = prev.map_values(|s: RenderedSegment| segment_view(s));
            let ghost b = bytes_of(t);
            if current < region.start {
                rendered_line.add_segment(RenderedSegment { text: slice(line, current, region.start), style: None });
            }
            let ghost mid = rendered_line@;
            rendered_line.add_segment(RenderedSegment {
                text: slice(line, region.start, region.end),
                style: Some(copy_style(&region.style)),
            });
            proof {
                let before: Seq<(Seq<u8>, Option<HighlightedStyle>)> =
                    if current < region.start { seq![(b.subrange(current as int, region.start as int), None)] } else { Seq::empty() };
                assert(mid.map_values(|s: RenderedSegment| segment_view(s)) =~= pv + before);
                assert(rendered_line@.map_values(|s: RenderedSegment| segment_view(s))
                    =~= pv + before + seq![(b.subrange(region.start as int, region.end as int), Some(region.style))]);
                assert(segments_from(t, rs, i as int, current as int) == before
                    + seq![(b.subrange(region.start as int, region.end as int), Some(region.style))]
                    + segments_from(t, rs, i + 1, region.end as int));
                assert(rendered_line@.map_values(|s: RenderedSegment| segment_view(s)) + segments_from(t, rs, i + 1, region.end as int)
                    =~= pv + segments_from(t, rs, i as int, current as int));
            }
            current = region.end;
            i += 1;
        }
        let ghost prev = rendered_line@;
        if current < len {
            rendered_line.add_segment(RenderedSegment { text: slice(line, current, len), style: None });
        }
        proof {
            assert(rendered_line@.map_values(|s: RenderedSegment| segment_view(s))
                =~= prev.map_values(|s: RenderedSegment| segment_view(s)) + segments_from(t, rs, i as int, current as int));
        }
        Some(rendered_line)
    }
}

} // verus!
