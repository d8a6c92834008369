//! What holds of the shape of every figure: how many elements of a kind it
//! has, and how its arcs and legend entries follow the chart's segments.

use crate::chart::{
    dash_array, dash_offset, lemma_dash_offset, lemma_preceding_step, preceding, sales_view,
    ChartView, SegmentView, TOP, WHOLE,
};
use crate::dom::{lookup, ElementView};
use crate::figure::{
    arc_view, arcs_view, background_view, caption_view, dot_view, drawing_view, entries_view,
    figure_view, hole_view, key_list_view, key_view, label_view, lemma_names_differ, mounted,
    name_view, number_view, panel_view, ring_view,
};
use crate::script::{lemma_script_builds, script, Assembly};
use crate::text::{decimal, leading_number, lemma_leading_number};
use vstd::prelude::*;

verus! {

/// How many elements in the tree below and including `element` carry the
/// tag `tag`.
pub open spec fn occurrences(element: ElementView, tag: Seq<char>) -> nat
    decreases element,
{
    (if element.tag == tag {
        1nat
    } else {
        0nat
    }) + occurrences_among(element.children, tag)
}

/// How many elements in the trees of `elements` carry the tag `tag`.
pub open spec fn occurrences_among(elements: Seq<ElementView>, tag: Seq<char>) -> nat
    decreases elements,
{
    if elements.len() == 0 {
        0
    } else {
        occurrences_among(elements.drop_last(), tag) + occurrences(elements.last(), tag)
    }
}

/// One more tree adds what it holds.
pub proof fn lemma_occurrences_among_push(
    elements: Seq<ElementView>,
    last: ElementView,
    tag: Seq<char>,
)
    ensures
        occurrences_among(elements.push(last), tag) == occurrences_among(elements, tag)
            + occurrences(last, tag),
{
    assert(elements.push(last).drop_last() =~= elements);
}

/// Two runs of trees hold together what each holds.
pub proof fn lemma_occurrences_among_add(
    first: Seq<ElementView>,
    second: Seq<ElementView>,
    tag: Seq<char>,
)
    ensures
        occurrences_among(first + second, tag) == occurrences_among(first, tag)
            + occurrences_among(second, tag),
    decreases second.len(),
{
    if second.len() > 0 {
        assert((first + second).drop_last() =~= first + second.drop_last());
        lemma_occurrences_among_add(first, second.drop_last(), tag);
    }
}

/// Trees that hold `each` apiece hold `each` times their number together.
pub proof fn lemma_occurrences_among_alike(elements: Seq<ElementView>, tag: Seq<char>, each: nat)
    requires
        forall|i: int| 0 <= i < elements.len() ==> occurrences(#[trigger] elements[i], tag) == each,
    ensures
        occurrences_among(elements, tag) == each * elements.len(),
    decreases elements.len(),
{
    if elements.len() > 0 {
        let front = elements.drop_last();
        assert forall|i: int| 0 <= i < front.len() implies occurrences(#[trigger] front[i], tag)
            == each by {
            assert(front[i] == elements[i]);
        }
        lemma_occurrences_among_alike(front, tag, each);
        assert(each * front.len() + each == each * elements.len()) by (nonlinear_arith)
            requires
                front.len() + 1 == elements.len(),
        ;
    }
}

/// The tags of the figure's elements, told apart.
proof fn lemma_tags_differ()
    ensures
        "figure"@.len() == 6,
        "div"@.len() == 3,
        "svg"@.len() == 3,
        "rect"@.len() == 4,
        "circle"@.len() == 6,
        "g"@.len() == 1,
        "text"@.len() == 4,
        "figcaption"@.len() == 10,
        "ul"@.len() == 2,
        "li"@.len() == 2,
        "span"@.len() == 4,
        "figure"@[0] != "circle"@[0],
        "div"@[0] != "svg"@[0],
        "rect"@[0] != "text"@[0],
        "rect"@[0] != "span"@[0],
        "text"@[0] != "span"@[0],
        "ul"@[0] != "li"@[0],
{
    reveal_strlit("figure");
    reveal_strlit("div");
    reveal_strlit("svg");
    reveal_strlit("rect");
    reveal_strlit("circle");
    reveal_strlit("g");
    reveal_strlit("text");
    reveal_strlit("figcaption");
    reveal_strlit("ul");
    reveal_strlit("li");
    reveal_strlit("span");
}

/// An element without children counts for itself alone.
pub proof fn lemma_occurrences_of_leaf(element: ElementView, tag: Seq<char>)
    requires
        element.children.len() == 0,
    ensures
        occurrences(element, tag) == (if element.tag == tag {
            1nat
        } else {
            0nat
        }),
{
}

/// Every arc is a circle, and nothing else.
proof fn lemma_arcs_census(segments: Seq<SegmentView>, tag: Seq<char>)
    ensures
        occurrences_among(arcs_view(segments), tag) == (if tag == "circle"@ {
            segments.len()
        } else {
            0nat
        }),
{
    let arcs = arcs_view(segments);
    let each = if tag == "circle"@ {
        1nat
    } else {
        0nat
    };
    assert forall|i: int| 0 <= i < arcs.len() implies occurrences(#[trigger] arcs[i], tag)
        == each by {
        lemma_occurrences_of_leaf(arcs[i], tag);
    }
    lemma_occurrences_among_alike(arcs, tag, each);
}

/// The sheet, the hole and the ring: one rectangle and two circles.
proof fn lemma_ground_census(tag: Seq<char>)
    ensures
        occurrences_among(seq![background_view(), hole_view(), ring_view()], tag) == (if tag
            == "circle"@ {
            2nat
        } else if tag == "rect"@ {
            1nat
        } else {
            0nat
        }),
{
    lemma_tags_differ();
    let none = Seq::<ElementView>::empty();
    lemma_occurrences_of_leaf(background_view(), tag);
    lemma_occurrences_of_leaf(hole_view(), tag);
    lemma_occurrences_of_leaf(ring_view(), tag);
    lemma_occurrences_among_push(none, background_view(), tag);
    lemma_occurrences_among_push(none.push(background_view()), hole_view(), tag);
    lemma_occurrences_among_push(none.push(background_view()).push(hole_view()), ring_view(), tag);
    assert(seq![background_view(), hole_view(), ring_view()] =~= none.push(background_view()).push(
        hole_view(),
    ).push(ring_view()));
}

/// The text in the middle: a group and two lines.
proof fn lemma_caption_census(chart: ChartView, tag: Seq<char>)
    ensures
        occurrences(caption_view(chart), tag) == (if tag == "g"@ {
            1nat
        } else if tag == "text"@ {
            2nat
        } else {
            0nat
        }),
{
    lemma_tags_differ();
    let none = Seq::<ElementView>::empty();
    lemma_occurrences_of_leaf(number_view(chart), tag);
    lemma_occurrences_of_leaf(label_view(chart), tag);
    lemma_occurrences_among_push(none, number_view(chart), tag);
    lemma_occurrences_among_push(none.push(number_view(chart)), label_view(chart), tag);
    assert(caption_view(chart).children =~= none.push(number_view(chart)).push(label_view(chart)));
}

/// How many elements of each tag the drawing of `chart` holds below its
/// root.
pub open spec fn drawing_census(chart: ChartView, tag: Seq<char>) -> nat {
    if tag == "rect"@ {
        1
    } else if tag == "circle"@ {
        chart.segments.len() + 2
    } else if tag == "g"@ {
        1
    } else if tag == "text"@ {
        2
    } else {
        0
    }
}

/// How many elements of each tag the legend of `chart` holds below its
/// root.
pub open spec fn key_census(chart: ChartView, tag: Seq<char>) -> nat {
    if tag == "ul"@ {
        1
    } else if tag == "li"@ {
        chart.segments.len()
    } else if tag == "span"@ {
        2 * chart.segments.len()
    } else {
        0
    }
}

/// How many elements of each tag the figure of `chart` holds, itself
/// included.
pub open spec fn figure_census(chart: ChartView, tag: Seq<char>) -> nat {
    if tag == "figure"@ {
        1
    } else if tag == "div"@ {
        1
    } else if tag == "svg"@ {
        1
    } else if tag == "figcaption"@ {
        1
    } else {
        drawing_census(chart, tag) + key_census(chart, tag)
    }
}

/// The drawing holds one sheet, one circle for each segment besides the
/// hole and the ring, and the group of two lines of text; nothing else.
pub proof fn lemma_drawing_census(chart: ChartView, tag: Seq<char>)
    ensures
        occurrences_among(drawing_view(chart).children, tag) == drawing_census(chart, tag),
{
    lemma_tags_differ();
    let ground = seq![background_view(), hole_view(), ring_view()];
    let arcs = arcs_view(chart.segments);
    assert(drawing_view(chart).children =~= (ground + arcs).push(caption_view(chart)));
    lemma_ground_census(tag);
    lemma_arcs_census(chart.segments, tag);
    lemma_caption_census(chart, tag);
    lemma_occurrences_among_add(ground, arcs, tag);
    lemma_occurrences_among_push(ground + arcs, caption_view(chart), tag);
}

/// Whatever the chart, its drawing holds one rectangle, and two circles
/// more than the chart has segments.
pub proof fn lemma_circles_and_rectangle(chart: ChartView)
    ensures
        occurrences_among(drawing_view(chart).children, "circle"@) == chart.segments.len() + 2,
        occurrences_among(drawing_view(chart).children, "rect"@) == 1,
{
    lemma_tags_differ();
    lemma_drawing_census(chart, "circle"@);
    lemma_drawing_census(chart, "rect"@);
}

/// Every legend entry is a list item that holds two spans.
proof fn lemma_entries_census(segments: Seq<SegmentView>, tag: Seq<char>)
    ensures
        occurrences_among(entries_view(segments), tag) == (if tag == "li"@ {
            segments.len()
        } else if tag == "span"@ {
            2 * segments.len()
        } else {
            0nat
        }),
{
    lemma_tags_differ();
    let entries = entries_view(segments);
    let each = if tag == "li"@ {
        1nat
    } else if tag == "span"@ {
        2nat
    } else {
        0nat
    };
    assert forall|i: int| 0 <= i < entries.len() implies occurrences(#[trigger] entries[i], tag)
        == each by {
        let none = Seq::<ElementView>::empty();
        let dot = dot_view(segments[i]);
        let name = name_view(segments[i]);
        lemma_occurrences_of_leaf(dot, tag);
        lemma_occurrences_of_leaf(name, tag);
        lemma_occurrences_among_push(none, dot, tag);
        lemma_occurrences_among_push(none.push(dot), name, tag);
        assert(entries[i].children =~= none.push(dot).push(name));
    }
    lemma_occurrences_among_alike(entries, tag, each);
}

/// The figure holds itself, the block with the drawing, and the legend
/// with its list of one entry for each segment; nothing else.
pub proof fn lemma_figure_census(chart: ChartView, tag: Seq<char>)
    ensures
        occurrences(figure_view(chart), tag) == figure_census(chart, tag),
{
    lemma_tags_differ();
    let none = Seq::<ElementView>::empty();
    lemma_drawing_census(chart, tag);
    lemma_occurrences_among_push(none, drawing_view(chart), tag);
    lemma_entries_census(chart.segments, tag);
    lemma_occurrences_among_push(none, key_list_view(chart), tag);
    lemma_occurrences_among_push(none, panel_view(chart), tag);
    lemma_occurrences_among_push(none.push(panel_view(chart)), key_view(chart), tag);
    assert(figure_view(chart).children =~= none.push(panel_view(chart)).push(key_view(chart)));
}

/// The length of the dash that an arc is stroked with: the number that its
/// dash pattern begins with.
pub open spec fn dash_length(arc: ElementView) -> nat
    recommends
        lookup(arc.attributes, "stroke-dasharray"@) is Some,
{
    leading_number(lookup(arc.attributes, "stroke-dasharray"@)->0)
}

/// The sum of the dash lengths of `arcs`.
pub open spec fn dash_lengths(arcs: Seq<ElementView>) -> nat
    decreases arcs.len(),
{
    if arcs.len() == 0 {
        0
    } else {
        dash_lengths(arcs.drop_last()) + dash_length(arcs.last())
    }
}

/// An arc carries the colour of its segment, a dash as long as the segment's
/// value, and the offset that belongs to what comes before it.
pub proof fn lemma_arc_attributes(segment: SegmentView, before: nat)
    ensures
        lookup(arc_view(segment, before).attributes, "stroke"@) == Some(segment.color),
        lookup(arc_view(segment, before).attributes, "stroke-dasharray"@) == Some(
            dash_array(segment.value),
        ),
        lookup(arc_view(segment, before).attributes, "stroke-dashoffset"@) == Some(
            decimal(dash_offset(before)),
        ),
        dash_length(arc_view(segment, before)) == segment.value,
{
    lemma_names_differ();
    let attributes = arc_view(segment, before).attributes;
    assert(attributes[4].0 == "stroke"@);
    assert(attributes[6].0 == "stroke-dasharray"@);
    assert(attributes[7].0 == "stroke-dashoffset"@);
    let gap = seq![' '] + decimal((WHOLE - segment.value) as nat);
    assert(dash_array(segment.value) =~= decimal(segment.value) + gap);
    lemma_leading_number(segment.value, gap);
}

/// The dashes of the first arcs are as long together as the segments they
/// stand for.
proof fn lemma_dash_lengths_upto(segments: Seq<SegmentView>, n: int)
    requires
        0 <= n <= segments.len(),
    ensures
        dash_lengths(arcs_view(segments).take(n)) == preceding(segments, n),
    decreases n,
{
    let arcs = arcs_view(segments);
    if n > 0 {
        lemma_dash_lengths_upto(segments, n - 1);
        lemma_preceding_step(segments, n - 1);
        assert(arcs.take(n).drop_last() =~= arcs.take(n - 1));
        lemma_arc_attributes(segments[n - 1], preceding(segments, n - 1));
    }
}

/// The dashes of a chart's arcs add up to the whole ring.
pub proof fn lemma_dashes_cover_the_ring(chart: ChartView)
    requires
        chart.well_formed(),
    ensures
        dash_lengths(arcs_view(chart.segments)) == WHOLE,
{
    let arcs = arcs_view(chart.segments);
    lemma_dash_lengths_upto(chart.segments, chart.segments.len() as int);
    assert(arcs.take(arcs.len() as int) =~= arcs);
    assert(chart.segments.take(chart.segments.len() as int) =~= chart.segments);
}

/// The arc of each segment is the child of the drawing that follows the
/// sheet, the hole, the ring and the arcs of the segments before it. Its
/// offset is that of the sum of the values of those segments: it stays
/// within one turn, and turning on from it by that sum leads to the top.
pub proof fn lemma_offsets_follow_the_segments(chart: ChartView, i: int)
    requires
        0 <= i < chart.segments.len(),
    ensures
        drawing_view(chart).children[3 + i] == arc_view(
            chart.segments[i],
            preceding(chart.segments, i),
        ),
        lookup(drawing_view(chart).children[3 + i].attributes, "stroke-dashoffset"@) == Some(
            decimal(dash_offset(preceding(chart.segments, i))),
        ),
        dash_offset(preceding(chart.segments, i)) < WHOLE,
        (dash_offset(preceding(chart.segments, i)) + preceding(chart.segments, i)) % (WHOLE as nat)
            == TOP,
        preceding(chart.segments, 0) == 0,
        i + 1 < chart.segments.len() ==> preceding(chart.segments, i + 1) == preceding(
            chart.segments,
            i,
        ) + chart.segments[i].value,
{
    lemma_arc_attributes(chart.segments[i], preceding(chart.segments, i));
    lemma_dash_offset(preceding(chart.segments, i));
    lemma_preceding_step(chart.segments, i);
}

/// The number in the middle of a chart's ring is a hundred.
pub proof fn lemma_number_shows_the_whole(chart: ChartView)
    requires
        chart.well_formed(),
    ensures
        number_view(chart).text == Some("100"@),
{
    reveal_strlit("100");
    reveal_with_fuel(decimal, 3);
}

/// The legend lists the segments in their order: each entry holds the dot
/// with its segment's marker, then the segment's label with its value.
pub proof fn lemma_legend_follows_the_segments(chart: ChartView, i: int)
    requires
        0 <= i < chart.segments.len(),
    ensures
        key_list_view(chart).children.len() == chart.segments.len(),
        key_list_view(chart).children[i].tag == "li"@,
        key_list_view(chart).children[i].children.len() == 2,
        key_list_view(chart).children[i].children[0].tag == "span"@,
        lookup(key_list_view(chart).children[i].children[0].attributes, "class"@) == Some(
            "round-dot "@ + chart.segments[i].marker,
        ),
        key_list_view(chart).children[i].children[0].text is None,
        key_list_view(chart).children[i].children[1].tag == "span"@,
        key_list_view(chart).children[i].children[1].text == Some(
            chart.segments[i].label + " ("@ + decimal(chart.segments[i].value) + ")"@,
        ),
{
    let dot = key_list_view(chart).children[i].children[0];
    assert(dot.attributes[0].0 == "class"@);
}

/// Appending the figure adds one child to the body, a figure, after the
/// children that the body had, and one figure to those the body holds.
pub proof fn lemma_mounting_adds_one_figure(body: ElementView)
    ensures
        mounted(body).children.len() == body.children.len() + 1,
        mounted(body).children.last() == figure_view(sales_view()),
        mounted(body).children.last().tag == "figure"@,
        mounted(body).children.drop_last() == body.children,
        occurrences_among(mounted(body).children, "figure"@) == occurrences_among(
            body.children,
            "figure"@,
        ) + 1,
        body.children.len() == 0 ==> occurrences_among(mounted(body).children, "figure"@) == 1,
{
    lemma_figure_census(sales_view(), "figure"@);
    lemma_occurrences_among_push(body.children, figure_view(sales_view()), "figure"@);
}

/// Appending the figure a second time does not replace the first: the body
/// then ends with two figures.
pub proof fn lemma_mounting_again_adds_another(body: ElementView)
    ensures
        mounted(mounted(body)).children == body.children.push(figure_view(sales_view())).push(
            figure_view(sales_view()),
        ),
        occurrences_among(mounted(mounted(body)).children, "figure"@) == occurrences_among(
            body.children,
            "figure"@,
        ) + 2,
{
    lemma_mounting_adds_one_figure(body);
    lemma_mounting_adds_one_figure(mounted(body));
}

/// In the figure of any chart no attribute and no style declaration is made
/// twice on an element.
pub proof fn lemma_figure_well_formed(chart: ChartView)
    ensures
        figure_view(chart).well_formed(),
{
    lemma_names_differ();
    let drawing = drawing_view(chart);
    assert forall|i: int| 0 <= i < drawing.children.len() implies (
    #[trigger] drawing.children[i]).well_formed() by {
        if i >= 3 + chart.segments.len() {
            assert(number_view(chart).well_formed());
            assert(label_view(chart).well_formed());
        }
    }
    assert(drawing.well_formed());
    assert(panel_view(chart).well_formed());
    let list = key_list_view(chart);
    assert forall|i: int| 0 <= i < list.children.len() implies (
    #[trigger] list.children[i]).well_formed() by {
        assert(dot_view(chart.segments[i]).well_formed());
        assert(name_view(chart.segments[i]).well_formed());
    }
    assert(list.well_formed());
    assert(key_view(chart).well_formed());
}

/// Carrying out the steps of the figure where nothing is open hands the
/// figure over, after what was handed over before: on a page's body, the
/// steps do what appending the figure to its description does.
pub proof fn lemma_steps_mount_the_figure(body: ElementView)
    ensures
        (Assembly { open: Seq::empty(), finished: body.children }).run(
            script(figure_view(sales_view())),
        ) == (Assembly { open: Seq::empty(), finished: mounted(body).children }),
{
    lemma_figure_well_formed(sales_view());
    lemma_script_builds(
        Assembly { open: Seq::empty(), finished: body.children },
        figure_view(sales_view()),
    );
}

} // verus!
