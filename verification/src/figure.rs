//! The donut chart as a tree of elements: a figure that holds the drawing and
//! its legend.

use crate::chart::{
    dash_array, dash_array_of, dash_offset, dash_offset_of, lemma_preceding_bounded,
    lemma_preceding_step, preceding, sales_view, segment_views, total, Chart, ChartView, Segment,
    SegmentView, WHOLE,
};
use crate::dom::{Element, ElementView, Namespace, PairView};
use crate::text::{decimal, decimal_string, write_decimal};
use vstd::prelude::*;
use vstd::string::StringExecFns;

verus! {

/// The white sheet behind the drawing.
pub open spec fn background_view() -> ElementView {
    ElementView {
        namespace: Namespace::Svg,
        tag: "rect"@,
        attributes: seq![("width"@, "100%"@), ("height"@, "100%"@), ("fill"@, "white"@)],
        styles: seq![],
        text: None,
        children: seq![],
    }
}

/// The white disc that covers the middle of the sheet.
pub open spec fn hole_view() -> ElementView {
    ElementView {
        namespace: Namespace::Svg,
        tag: "circle"@,
        attributes: seq![
            ("class"@, "hole"@),
            ("cx"@, "21"@),
            ("cy"@, "21"@),
            ("r"@, "15.91549430918954"@),
            ("fill"@, "#fff"@),
        ],
        styles: seq![],
        text: None,
        children: seq![],
    }
}

/// The grey ring on which the segments are drawn.
pub open spec fn ring_view() -> ElementView {
    ElementView {
        namespace: Namespace::Svg,
        tag: "circle"@,
        attributes: seq![
            ("class"@, "ring"@),
            ("cx"@, "21"@),
            ("cy"@, "21"@),
            ("r"@, "15.91549430918954"@),
            ("fill"@, "transparent"@),
            ("stroke"@, "#d2d3d4"@),
            ("stroke-width"@, "3"@),
        ],
        styles: seq![],
        text: None,
        children: seq![],
    }
}

/// The arc of one segment: a circle stroked with a single dash as long as
/// the segment's value, which begins where `before` units are covered.
pub open spec fn arc_view(segment: SegmentView, before: nat) -> ElementView {
    ElementView {
        namespace: Namespace::Svg,
        tag: "circle"@,
        attributes: seq![
            ("cx"@, "21"@),
            ("cy"@, "21"@),
            ("r"@, "15.91549430918954"@),
            ("fill"@, "transparent"@),
            ("stroke"@, segment.color),
            ("stroke-width"@, "5"@),
            ("stroke-dasharray"@, dash_array(segment.value)),
            ("stroke-dashoffset"@, decimal(dash_offset(before))),
        ],
        styles: seq![],
        text: None,
        children: seq![],
    }
}

/// The arcs of all segments, each beginning where the ones before it end.
pub open spec fn arcs_view(segments: Seq<SegmentView>) -> Seq<ElementView> {
    Seq::new(segments.len(), |i: int| arc_view(segments[i], preceding(segments, i)))
}

/// The sum of all values, written in the middle of the ring.
pub open spec fn number_view(chart: ChartView) -> ElementView {
    ElementView {
        namespace: Namespace::Svg,
        tag: "text"@,
        attributes: seq![("x"@, "50%"@), ("y"@, "50%"@), ("class"@, "doughnut-number"@)],
        styles: seq![],
        text: Some(decimal(total(chart.segments))),
        children: seq![],
    }
}

/// The chart's title, written in the middle of the ring.
pub open spec fn label_view(chart: ChartView) -> ElementView {
    ElementView {
        namespace: Namespace::Svg,
        tag: "text"@,
        attributes: seq![("x"@, "50%"@), ("y"@, "50%"@), ("class"@, "doughnut-label"@)],
        styles: seq![],
        text: Some(chart.title),
        children: seq![],
    }
}

/// The group of the two lines of text in the middle of the ring.
pub open spec fn caption_view(chart: ChartView) -> ElementView {
    ElementView {
        namespace: Namespace::Svg,
        tag: "g"@,
        attributes: seq![("class"@, "doughnut-text"@)],
        styles: seq![],
        text: None,
        children: seq![number_view(chart), label_view(chart)],
    }
}

/// The drawing. Later children are painted over earlier ones: the sheet,
/// the hole, the ring, the arcs in the order of the segments, the text.
pub open spec fn drawing_view(chart: ChartView) -> ElementView {
    ElementView {
        namespace: Namespace::Svg,
        tag: "svg"@,
        attributes: seq![("width"@, "300px"@), ("height"@, "300px"@), ("viewBox"@, "0 0 42 42"@)],
        styles: seq![],
        text: None,
        children: seq![background_view(), hole_view(), ring_view()] + arcs_view(chart.segments)
            + seq![caption_view(chart)],
    }
}

/// The block that holds the drawing.
pub open spec fn panel_view(chart: ChartView) -> ElementView {
    ElementView {
        namespace: Namespace::Html,
        tag: "div"@,
        attributes: seq![("class"@, "doughnut-main"@)],
        styles: seq![],
        text: None,
        children: seq![drawing_view(chart)],
    }
}

/// The coloured dot of a legend entry.
pub open spec fn dot_view(segment: SegmentView) -> ElementView {
    ElementView {
        namespace: Namespace::Html,
        tag: "span"@,
        attributes: seq![("class"@, "round-dot "@ + segment.marker)],
        styles: seq![],
        text: None,
        children: seq![],
    }
}

/// The wording of a legend entry: the label, then the value in brackets.
pub open spec fn wording(segment: SegmentView) -> Seq<char> {
    segment.label + " ("@ + decimal(segment.value) + ")"@
}

/// The text of a legend entry.
pub open spec fn name_view(segment: SegmentView) -> ElementView {
    ElementView {
        namespace: Namespace::Html,
        tag: "span"@,
        attributes: seq![],
        styles: seq![],
        text: Some(wording(segment)),
        children: seq![],
    }
}

/// The legend entry of one segment: its dot, then its text.
pub open spec fn entry_view(segment: SegmentView) -> ElementView {
    ElementView {
        namespace: Namespace::Html,
        tag: "li"@,
        attributes: seq![],
        styles: seq![],
        text: None,
        children: seq![dot_view(segment), name_view(segment)],
    }
}

/// The legend entries, in the order of the segments.
pub open spec fn entries_view(segments: Seq<SegmentView>) -> Seq<ElementView> {
    Seq::new(segments.len(), |i: int| entry_view(segments[i]))
}

/// The list of legend entries. It repeats what the drawing shows and is
/// hidden from assistive technology.
pub open spec fn key_list_view(chart: ChartView) -> ElementView {
    ElementView {
        namespace: Namespace::Html,
        tag: "ul"@,
        attributes: seq![("class"@, "doughnut-key-list"@), ("aria-hidden"@, "true"@)],
        styles: seq![("list-style-type"@, "none"@)],
        text: None,
        children: entries_view(chart.segments),
    }
}

/// The legend.
pub open spec fn key_view(chart: ChartView) -> ElementView {
    ElementView {
        namespace: Namespace::Html,
        tag: "figcaption"@,
        attributes: seq![("class"@, "doughnut-key"@)],
        styles: seq![],
        text: None,
        children: seq![key_list_view(chart)],
    }
}

/// The whole figure: the drawing, then the legend.
pub open spec fn figure_view(chart: ChartView) -> ElementView {
    ElementView {
        namespace: Namespace::Html,
        tag: "figure"@,
        attributes: seq![],
        styles: seq![],
        text: None,
        children: seq![panel_view(chart), key_view(chart)],
    }
}

/// A page's body once the figure of the sales chart is appended to it.
pub open spec fn mounted(body: ElementView) -> ElementView {
    body.with_child(figure_view(sales_view()))
}

/// The attribute names that meet on one element differ from each other.
pub proof fn lemma_names_differ()
    ensures
        "width"@.len() == 5,
        "height"@.len() == 6,
        "viewBox"@.len() == 7,
        "fill"@.len() == 4,
        "class"@.len() == 5,
        "cx"@.len() == 2,
        "cy"@.len() == 2,
        "r"@.len() == 1,
        "stroke"@.len() == 6,
        "stroke-width"@.len() == 12,
        "stroke-dasharray"@.len() == 16,
        "stroke-dashoffset"@.len() == 17,
        "x"@.len() == 1,
        "y"@.len() == 1,
        "aria-hidden"@.len() == 11,
        "cx"@[1] != "cy"@[1],
        "x"@[0] != "y"@[0],
{
    reveal_strlit("width");
    reveal_strlit("height");
    reveal_strlit("viewBox");
    reveal_strlit("fill");
    reveal_strlit("class");
    reveal_strlit("cx");
    reveal_strlit("cy");
    reveal_strlit("r");
    reveal_strlit("stroke");
    reveal_strlit("stroke-width");
    reveal_strlit("stroke-dasharray");
    reveal_strlit("stroke-dashoffset");
    reveal_strlit("x");
    reveal_strlit("y");
    reveal_strlit("aria-hidden");
}

fn background() -> (e: Element)
    ensures
        e@ == background_view(),
{
    let e = Element::new(Namespace::Svg, "rect").with_attribute("width", "100%").with_attribute(
        "height",
        "100%",
    ).with_attribute("fill", "white");
    proof {
        lemma_names_differ();
        assert(e@.attributes =~= background_view().attributes);
    }
    e
}

fn hole() -> (e: Element)
    ensures
        e@ == hole_view(),
{
    let e = Element::new(Namespace::Svg, "circle").with_attribute("class", "hole").with_attribute(
        "cx",
        "21",
    ).with_attribute("cy", "21").with_attribute("r", "15.91549430918954").with_attribute(
        "fill",
        "#fff",
    );
    proof {
        lemma_names_differ();
        assert(e@.attributes =~= hole_view().attributes);
    }
    e
}

fn ring() -> (e: Element)
    ensures
        e@ == ring_view(),
{
    let e = Element::new(Namespace::Svg, "circle").with_attribute("class", "ring").with_attribute(
        "cx",
        "21",
    ).with_attribute("cy", "21").with_attribute("r", "15.91549430918954").with_attribute(
        "fill",
        "transparent",
    ).with_attribute("stroke", "#d2d3d4").with_attribute("stroke-width", "3");
    proof {
        lemma_names_differ();
        assert(e@.attributes =~= ring_view().attributes);
    }
    e
}

fn arc(segment: &Segment, before: u32) -> (e: Element)
    requires
        segment.value <= WHOLE,
    ensures
        e@ == arc_view(segment@, before as nat),
{
    let pattern = dash_array_of(segment.value);
    let offset = decimal_string(dash_offset_of(before));
    let e = Element::new(Namespace::Svg, "circle").with_attribute("cx", "21").with_attribute(
        "cy",
        "21",
    ).with_attribute("r", "15.91549430918954").with_attribute(
        "fill",
        "transparent",
    ).with_attribute("stroke", segment.color.as_str()).with_attribute(
        "stroke-width",
        "5",
    ).with_attribute("stroke-dasharray", pattern.as_str()).with_attribute(
        "stroke-dashoffset",
        offset.as_str(),
    );
    proof {
        lemma_names_differ();
        assert(e@.attributes =~= arc_view(segment@, before as nat).attributes);
    }
    e
}

fn number(chart: &Chart) -> (e: Element)
    ensures
        e@ == number_view(chart@),
{
    proof {
        use_type_invariant(chart);
    }
    let sum = decimal_string(WHOLE);
    let e = Element::new(Namespace::Svg, "text").with_attribute("x", "50%").with_attribute(
        "y",
        "50%",
    ).with_attribute("class", "doughnut-number").with_text(sum.as_str());
    proof {
        lemma_names_differ();
        assert(e@.attributes =~= number_view(chart@).attributes);
    }
    e
}

fn label(chart: &Chart) -> (e: Element)
    ensures
        e@ == label_view(chart@),
{
    let e = Element::new(Namespace::Svg, "text").with_attribute("x", "50%").with_attribute(
        "y",
        "50%",
    ).with_attribute("class", "doughnut-label").with_text(chart.title());
    proof {
        lemma_names_differ();
        assert(e@.attributes =~= label_view(chart@).attributes);
    }
    e
}

fn caption(chart: &Chart) -> (e: Element)
    ensures
        e@ == caption_view(chart@),
{
    let e = Element::new(Namespace::Svg, "g").with_attribute("class", "doughnut-text").with_child(
        number(chart),
    ).with_child(label(chart));
    proof {
        assert(e@.children =~= caption_view(chart@).children);
    }
    e
}

fn drawing(chart: &Chart) -> (e: Element)
    ensures
        e@ == drawing_view(chart@),
{
    let mut e = Element::new(Namespace::Svg, "svg").with_attribute("width", "300px").with_attribute(
        "height",
        "300px",
    ).with_attribute("viewBox", "0 0 42 42").with_child(background()).with_child(hole()).with_child(
        ring(),
    );
    proof {
        lemma_names_differ();
        use_type_invariant(chart);
    }
    let segments = chart.segments();
    let ghost all = chart@.segments;
    let ghost fixed = seq![background_view(), hole_view(), ring_view()];
    let mut before: u32 = 0;
    let mut i: usize = 0;
    while i < segments.len()
        invariant
            i <= segments.len(),
            all == chart@.segments,
            all == segment_views(segments@),
            total(all) == WHOLE,
            fixed == seq![background_view(), hole_view(), ring_view()],
            before == preceding(all, i as int),
            e@.children == fixed + arcs_view(all).take(i as int),
            e@.attributes == drawing_view(chart@).attributes,
            e@.namespace == Namespace::Svg,
            e@.tag == "svg"@,
            e@.styles == Seq::<PairView>::empty(),
            e@.text is None,
        decreases segments.len() - i,
    {
        proof {
            lemma_preceding_step(all, i as int);
            lemma_preceding_bounded(all, i as int);
        }
        e = e.with_child(arc(&segments[i], before));
        proof {
            assert(arcs_view(all).take(i as int + 1) =~= arcs_view(all).take(i as int).push(
                arcs_view(all)[i as int],
            ));
        }
        before = before + segments[i].value;
        i += 1;
    }
    e = e.with_child(caption(chart));
    proof {
        assert(e@.children =~= drawing_view(chart@).children);
    }
    e
}

fn panel(chart: &Chart) -> (e: Element)
    ensures
        e@ == panel_view(chart@),
{
    Element::new(Namespace::Html, "div").with_attribute("class", "doughnut-main").with_child(
        drawing(chart),
    )
}

fn entry(segment: &Segment) -> (e: Element)
    ensures
        e@ == entry_view(segment@),
{
    let mut class = String::from_str("round-dot ");
    class.append(segment.marker.as_str());
    let dot = Element::new(Namespace::Html, "span").with_attribute("class", class.as_str());
    let mut words = segment.label.clone();
    words.append(" (");
    write_decimal(&mut words, segment.value);
    words.append(")");
    let name = Element::new(Namespace::Html, "span").with_text(words.as_str());
    let e = Element::new(Namespace::Html, "li").with_child(dot).with_child(name);
    proof {
        assert(e@.children =~= entry_view(segment@).children);
    }
    e
}

fn key_list(chart: &Chart) -> (e: Element)
    ensures
        e@ == key_list_view(chart@),
{
    let mut e = Element::new(Namespace::Html, "ul").with_attribute(
        "class",
        "doughnut-key-list",
    ).with_attribute("aria-hidden", "true").with_style("list-style-type", "none");
    proof {
        lemma_names_differ();
    }
    let segments = chart.segments();
    let ghost all = chart@.segments;
    let mut i: usize = 0;
    while i < segments.len()
        invariant
            i <= segments.len(),
            all == chart@.segments,
            all == segment_views(segments@),
            e@.children == entries_view(all).take(i as int),
            e@.attributes == key_list_view(chart@).attributes,
            e@.styles == key_list_view(chart@).styles,
            e@.namespace == Namespace::Html,
            e@.tag == "ul"@,
            e@.text is None,
        decreases segments.len() - i,
    {
        e = e.with_child(entry(&segments[i]));
        i += 1;
    }
    proof {
        assert(entries_view(all).take(all.len() as int) =~= entries_view(all));
    }
    e
}

fn key(chart: &Chart) -> (e: Element)
    ensures
        e@ == key_view(chart@),
{
    Element::new(Namespace::Html, "figcaption").with_attribute("class", "doughnut-key").with_child(
        key_list(chart),
    )
}

/// The figure that shows `chart`: the drawing with one arc for each segment,
/// then the legend with one entry for each segment.
pub fn donut_figure(chart: &Chart) -> (figure: Element)
    ensures
        figure@ == figure_view(chart@),
        figure@.well_formed(),
{
    let figure = Element::new(Namespace::Html, "figure").with_child(panel(chart)).with_child(
        key(chart),
    );
    proof {
        assert(figure@.children =~= figure_view(chart@).children);
    }
    figure
}

/// Appends the figure of the sales chart to `body`, after whatever `body`
/// holds already, and leaves the rest of `body` as it was.
pub fn rust_webassembly_svg_donut_chart(body: Element) -> (page: Element)
    ensures
        page@ == mounted(body@),
        page@.well_formed(),
{
    let chart = Chart::sales();
    body.with_child(donut_figure(&chart))
}

} // verus!
