use donutchart::chart::{dash_array_of, dash_offset_of, TOP, WHOLE};
use donutchart::{Chart, Segment};

fn segment(value: u32) -> Segment {
    Segment::new("part", value, "#123456", "dot")
}

#[test]
fn the_ring_is_a_hundred_long_and_starts_a_quarter_back() {
    assert_eq!(WHOLE, 100);
    assert_eq!(TOP, 25);
}

#[test]
fn segment_keeps_what_it_was_made_of() {
    let segment = Segment::new("App Store", 40, "#ce4b99", "dot-red");
    assert_eq!(segment.label, "App Store");
    assert_eq!(segment.value, 40);
    assert_eq!(segment.color, "#ce4b99");
    assert_eq!(segment.marker, "dot-red");
}

#[test]
fn sales_chart_has_three_segments_that_make_the_whole() {
    let chart = Chart::sales();
    assert_eq!(chart.title(), "Sales");
    assert_eq!(
        chart.segments(),
        &vec![
            Segment::new("App Store", 40, "#ce4b99", "dot-red"),
            Segment::new("Website", 20, "#27A844", "dot-green"),
            Segment::new("Partners", 40, "#377bbc", "dot-blue"),
        ]
    );
    let sum: u32 = chart.segments().iter().map(|segment| segment.value).sum();
    assert_eq!(sum, 100);
}

#[test]
fn chart_of_segments_that_make_the_whole() {
    let chart = Chart::new("Split", vec![segment(33), segment(67)]).unwrap();
    assert_eq!(chart.title(), "Split");
    assert_eq!(chart.segments(), &vec![segment(33), segment(67)]);
}

#[test]
fn no_chart_of_segments_that_fall_short() {
    assert!(Chart::new("Short", vec![segment(40), segment(20), segment(39)]).is_none());
    assert!(Chart::new("Empty", vec![]).is_none());
    assert!(Chart::new("Nought", vec![segment(0)]).is_none());
}

#[test]
fn no_chart_of_segments_that_go_beyond() {
    assert!(Chart::new("Long", vec![segment(40), segment(20), segment(41)]).is_none());
    assert!(Chart::new("Long", vec![segment(101)]).is_none());
    assert!(Chart::new("Long", vec![segment(100), segment(1)]).is_none());
}

#[test]
fn no_chart_of_segments_whose_sum_does_not_fit() {
    assert!(Chart::new("Huge", vec![segment(u32::MAX), segment(101)]).is_none());
    assert!(Chart::new("Huge", vec![segment(u32::MAX), segment(u32::MAX)]).is_none());
    assert!(Chart::new("Huge", vec![segment(50), segment(u32::MAX - 49)]).is_none());
}

#[test]
fn offset_of_the_first_dash_is_the_top() {
    assert_eq!(dash_offset_of(0), 25);
}

#[test]
fn offsets_of_the_sales_chart() {
    assert_eq!(dash_offset_of(0), 25);
    assert_eq!(dash_offset_of(40), 85);
    assert_eq!(dash_offset_of(60), 65);
}

#[test]
fn offset_turns_back_by_what_is_covered() {
    assert_eq!(dash_offset_of(1), 24);
    assert_eq!(dash_offset_of(24), 1);
    assert_eq!(dash_offset_of(25), 0);
    assert_eq!(dash_offset_of(26), 99);
    assert_eq!(dash_offset_of(99), 26);
    assert_eq!(dash_offset_of(100), 25);
}

#[test]
fn offset_counts_within_one_turn() {
    assert_eq!(dash_offset_of(140), 85);
    assert_eq!(dash_offset_of(1000), 25);
    assert_eq!(dash_offset_of(u32::MAX), 30);
    for before in 0..=300 {
        let offset = dash_offset_of(before);
        assert!(offset < 100);
        assert_eq!((offset + before) % 100, 25);
    }
}

#[test]
fn dash_pattern_is_the_dash_then_the_rest_of_the_ring() {
    assert_eq!(dash_array_of(40), "40 60");
    assert_eq!(dash_array_of(20), "20 80");
    assert_eq!(dash_array_of(0), "0 100");
    assert_eq!(dash_array_of(100), "100 0");
    assert_eq!(dash_array_of(7), "7 93");
    assert_eq!(dash_array_of(95), "95 5");
}
