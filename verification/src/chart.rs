//! The data a donut chart is drawn from, and the arithmetic that places its
//! segments on the ring.
//!
//! The ring is a circle whose circumference is 100 units, so that a length
//! along it reads as a percentage. A segment is one dash of that length
//! followed by a gap that covers the rest of the ring, and the dash is moved
//! into place by an offset counted against the direction of drawing.

use crate::text::{decimal, decimal_string, write_decimal};
use vstd::prelude::*;
use vstd::string::StringExecFns;

verus! {

/// The length of the whole ring, and so the sum of a chart's values.
pub const WHOLE: u32 = 100;

/// The offset of a dash that is to begin at the top of the ring: without it
/// a dash begins a quarter turn later, at the right-hand side.
pub const TOP: u32 = 25;

/// One share of the whole, with what is needed to draw and to name it.
#[derive(Debug, PartialEq, Eq)]
pub struct Segment {
    /// The name shown in the legend.
    pub label: String,
    /// The share, in hundredths of the whole.
    pub value: u32,
    /// The stroke colour of the segment on the ring.
    pub color: String,
    /// The class that colours the segment's dot in the legend.
    pub marker: String,
}

/// What a [`Segment`] holds.
pub struct SegmentView {
    pub label: Seq<char>,
    pub value: nat,
    pub color: Seq<char>,
    pub marker: Seq<char>,
}

impl View for Segment {
    type V = SegmentView;

    open spec fn view(&self) -> SegmentView {
        SegmentView {
            label: self.label@,
            value: self.value as nat,
            color: self.color@,
            marker: self.marker@,
        }
    }
}

/// The segments that a sequence of segments stands for.
pub open spec fn segment_views(segments: Seq<Segment>) -> Seq<SegmentView> {
    Seq::new(segments.len(), |i: int| segments[i]@)
}

/// The sum of the values of `segments`.
pub open spec fn total(segments: Seq<SegmentView>) -> nat
    decreases segments.len(),
{
    if segments.len() == 0 {
        0
    } else {
        total(segments.drop_last()) + segments.last().value
    }
}

/// The sum of the values of the segments that come before the one at `i`.
pub open spec fn preceding(segments: Seq<SegmentView>, i: int) -> nat
    recommends
        0 <= i <= segments.len(),
{
    total(segments.take(i))
}

/// The offset of a dash that is to begin where `preceding` units of the ring
/// are already covered, counted from the top.
pub open spec fn dash_offset(preceding: nat) -> nat {
    ((TOP - preceding) % (WHOLE as int)) as nat
}

/// The dash pattern of a segment of length `value`: the dash, a space, and
/// the gap that covers the rest of the ring.
pub open spec fn dash_array(value: nat) -> Seq<char>
    recommends
        value <= WHOLE,
{
    decimal(value) + seq![' '] + decimal((WHOLE - value) as nat)
}

/// What a [`Chart`] holds.
pub struct ChartView {
    pub title: Seq<char>,
    pub segments: Seq<SegmentView>,
}

impl ChartView {
    /// The segments cover the ring exactly.
    pub open spec fn well_formed(self) -> bool {
        total(self.segments) == WHOLE
    }
}

/// Each step along the segments adds the value of the segment passed.
pub proof fn lemma_preceding_step(segments: Seq<SegmentView>, i: int)
    requires
        0 <= i < segments.len(),
    ensures
        preceding(segments, 0) == 0,
        preceding(segments, i + 1) == preceding(segments, i) + segments[i].value,
        preceding(segments, segments.len() as int) == total(segments),
{
    assert(segments.take(i + 1).drop_last() =~= segments.take(i));
    assert(segments.take(segments.len() as int) =~= segments);
}

/// What comes before a segment, and the segment itself, stay within the sum
/// of all segments.
pub proof fn lemma_preceding_bounded(segments: Seq<SegmentView>, i: int)
    requires
        0 <= i < segments.len(),
    ensures
        preceding(segments, i) + segments[i].value <= total(segments),
    decreases segments.len() - i,
{
    lemma_preceding_step(segments, i);
    if i + 1 < segments.len() {
        lemma_preceding_bounded(segments, i + 1);
    }
}

/// An offset stays within one turn of the ring, and turning on from it by
/// what is already covered leads to the top: so the first dash begins at
/// the top, and each later dash where the one before it ends.
pub proof fn lemma_dash_offset(preceding: nat)
    ensures
        dash_offset(preceding) < WHOLE,
        (dash_offset(preceding) + preceding) % (WHOLE as nat) == TOP,
        dash_offset(0) == TOP,
{
}

/// The offset for a dash that begins after `preceding` units.
pub fn dash_offset_of(preceding: u32) -> (offset: u32)
    ensures
        offset == dash_offset(preceding as nat),
{
    let covered = preceding % WHOLE;
    if covered <= TOP {
        TOP - covered
    } else {
        WHOLE + TOP - covered
    }
}

/// The dash pattern for a segment of length `value`.
pub fn dash_array_of(value: u32) -> (pattern: String)
    requires
        value <= WHOLE,
    ensures
        pattern@ == dash_array(value as nat),
{
    let mut pattern = decimal_string(value);
    pattern.append(" ");
    write_decimal(&mut pattern, WHOLE - value);
    proof {
        reveal_strlit(" ");
    }
    pattern
}

impl Segment {
    /// A segment of the given label, value, stroke colour and legend marker.
    pub fn new(label: &str, value: u32, color: &str, marker: &str) -> (segment: Segment)
        ensures
            segment@ == (SegmentView {
                label: label@,
                value: value as nat,
                color: color@,
                marker: marker@,
            }),
    {
        Segment {
            label: String::from_str(label),
            value,
            color: String::from_str(color),
            marker: String::from_str(marker),
        }
    }
}

/// A title and the segments that make up the whole.
#[derive(Debug)]
pub struct Chart {
    title: String,
    segments: Vec<Segment>,
}

impl View for Chart {
    type V = ChartView;

    closed spec fn view(&self) -> ChartView {
        ChartView { title: self.title@, segments: segment_views(self.segments@) }
    }
}

/// The chart of sales by channel.
pub open spec fn sales_view() -> ChartView {
    ChartView {
        title: "Sales"@,
        segments: seq![
            SegmentView {
                label: "App Store"@,
                value: 40,
                color: "#ce4b99"@,
                marker: "dot-red"@,
            },
            SegmentView {
                label: "Website"@,
                value: 20,
                color: "#27A844"@,
                marker: "dot-green"@,
            },
            SegmentView {
                label: "Partners"@,
                value: 40,
                color: "#377bbc"@,
                marker: "dot-blue"@,
            },
        ],
    }
}

impl Chart {
    /// Holds of every chart: what it holds is well-formed.
    #[verifier::type_invariant]
    pub open spec fn covers_the_ring(&self) -> bool {
        self@.well_formed()
    }

    /// A chart of the given segments, in the order in which they are drawn
    /// and listed; `None` unless their values add up to the whole.
    pub fn new(title: &str, segments: Vec<Segment>) -> (chart: Option<Chart>)
        ensures
            chart is Some <==> total(segment_views(segments@)) == WHOLE,
            chart matches Some(c) ==> c@ == (ChartView {
                title: title@,
                segments: segment_views(segments@),
            }),
    {
        let ghost all = segment_views(segments@);
        let mut sum: u32 = 0;
        let mut i: usize = 0;
        while i < segments.len()
            invariant
                i <= segments.len(),
                all == segment_views(segments@),
                sum == preceding(all, i as int),
                sum <= WHOLE,
            decreases segments.len() - i,
        {
            let value = segments[i].value;
            proof {
                lemma_preceding_step(all, i as int);
                lemma_preceding_bounded(all, i as int);
            }
            if value > WHOLE - sum {
                return None;
            }
            sum = sum + value;
            i += 1;
        }
        proof {
            assert(all.take(all.len() as int) =~= all);
        }
        if sum == WHOLE {
            Some(Chart { title: String::from_str(title), segments })
        } else {
            None
        }
    }

    /// The chart of sales by channel: three segments that share the whole as
    /// 40, 20 and 40.
    pub fn sales() -> (chart: Chart)
        ensures
            chart@ == sales_view(),
            chart@.well_formed(),
    {
        let mut segments: Vec<Segment> = Vec::new();
        segments.push(Segment::new("App Store", 40, "#ce4b99", "dot-red"));
        segments.push(Segment::new("Website", 20, "#27A844", "dot-green"));
        segments.push(Segment::new("Partners", 40, "#377bbc", "dot-blue"));
        proof {
            assert(segment_views(segments@) =~= sales_view().segments);
            lemma_sales_well_formed();
        }
        Chart { title: String::from_str("Sales"), segments }
    }

    /// The title, shown in the middle of the ring.
    pub fn title(&self) -> (title: &str)
        ensures
            title@ == self@.title,
    {
        self.title.as_str()
    }

    /// The segments, in the order in which they are drawn and listed.
    pub fn segments(&self) -> (segments: &Vec<Segment>)
        ensures
            segment_views(segments@) == self@.segments,
    {
        &self.segments
    }
}

/// The sales chart covers the ring exactly.
pub proof fn lemma_sales_well_formed()
    ensures
        sales_view().well_formed(),
{
    let segments = sales_view().segments;
    lemma_preceding_step(segments, 0);
    lemma_preceding_step(segments, 1);
    lemma_preceding_step(segments, 2);
}

} // verus!
