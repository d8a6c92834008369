use donutchart::{donut_figure, script_of, write_script, Chart, Element, Namespace, Step};

fn open(namespace: Namespace, tag: &str) -> Step {
    Step::Open { namespace, tag: tag.to_string() }
}

fn attribute(name: &str, value: &str) -> Step {
    Step::SetAttribute { name: name.to_string(), value: value.to_string() }
}

fn style(name: &str, value: &str) -> Step {
    Step::SetStyle { name: name.to_string(), value: value.to_string() }
}

fn text(text: &str) -> Step {
    Step::SetText { text: text.to_string() }
}

/// Carries out the steps on descriptions: what a caller does on live nodes.
fn carry_out(steps: &[Step], finished: &mut Vec<Element>) {
    let mut begun: Vec<Element> = Vec::new();
    for step in steps {
        match step {
            Step::Open { namespace, tag } => begun.push(Element::new(*namespace, tag)),
            Step::SetAttribute { name, value } => {
                let top = begun.pop().unwrap();
                begun.push(top.with_attribute(name, value));
            }
            Step::SetStyle { name, value } => {
                let top = begun.pop().unwrap();
                begun.push(top.with_style(name, value));
            }
            Step::SetText { text } => {
                let top = begun.pop().unwrap();
                begun.push(top.with_text(text));
            }
            Step::Close => {
                let done = begun.pop().unwrap();
                match begun.pop() {
                    Some(parent) => begun.push(parent.with_child(done)),
                    None => finished.push(done),
                }
            }
        }
    }
    assert!(begun.is_empty());
}

fn same(one: &Element, other: &Element) -> bool {
    one.namespace() == other.namespace()
        && one.tag() == other.tag()
        && one.attributes() == other.attributes()
        && one.styles() == other.styles()
        && one.text() == other.text()
        && one.children().len() == other.children().len()
        && one.children().iter().zip(other.children()).all(|(a, b)| same(a, b))
}

#[test]
fn bare_element_is_begun_and_closed() {
    let steps = script_of(&Element::new(Namespace::Html, "figure"));
    assert_eq!(steps, vec![open(Namespace::Html, "figure"), Step::Close]);
}

#[test]
fn what_is_set_comes_before_the_children() {
    let list = Element::new(Namespace::Html, "ul")
        .with_child(Element::new(Namespace::Html, "li").with_text("a"))
        .with_style("list-style-type", "none")
        .with_attribute("class", "key")
        .with_text("words")
        .with_attribute("aria-hidden", "true")
        .with_child(Element::new(Namespace::Svg, "svg").with_attribute("width", "1"));
    let steps = script_of(&list);
    assert_eq!(
        steps,
        vec![
            open(Namespace::Html, "ul"),
            attribute("class", "key"),
            attribute("aria-hidden", "true"),
            style("list-style-type", "none"),
            text("words"),
            open(Namespace::Html, "li"),
            text("a"),
            Step::Close,
            open(Namespace::Svg, "svg"),
            attribute("width", "1"),
            Step::Close,
            Step::Close,
        ]
    );
}

#[test]
fn writing_appends_to_the_steps_already_there() {
    let mut steps = vec![text("kept")];
    write_script(&Element::new(Namespace::Svg, "g"), &mut steps);
    write_script(&Element::new(Namespace::Svg, "rect").with_attribute("fill", "white"), &mut steps);
    assert_eq!(
        steps,
        vec![
            text("kept"),
            open(Namespace::Svg, "g"),
            Step::Close,
            open(Namespace::Svg, "rect"),
            attribute("fill", "white"),
            Step::Close,
        ]
    );
}

#[test]
fn steps_of_the_figure_begin_and_close_every_element_once() {
    let steps = script_of(&donut_figure(&Chart::sales()));
    let begun = steps.iter().filter(|step| matches!(step, Step::Open { .. })).count();
    let closed = steps.iter().filter(|step| matches!(step, Step::Close)).count();
    assert_eq!(begun, 23);
    assert_eq!(closed, 23);
    assert_eq!(steps.first(), Some(&open(Namespace::Html, "figure")));
    assert_eq!(steps.last(), Some(&Step::Close));
    let attributes = steps.iter().filter(|step| matches!(step, Step::SetAttribute { .. })).count();
    assert_eq!(attributes, 3 + 3 + 5 + 7 + 3 * 8 + 1 + 2 * 3 + 1 + 1 + 2 + 3);
    let styles = steps.iter().filter(|step| matches!(step, Step::SetStyle { .. })).count();
    assert_eq!(styles, 1);
    let texts = steps.iter().filter(|step| matches!(step, Step::SetText { .. })).count();
    assert_eq!(texts, 5);
}

#[test]
fn figure_is_handed_over_at_the_last_step_only() {
    let steps = script_of(&donut_figure(&Chart::sales()));
    let mut depth = 0usize;
    for (i, step) in steps.iter().enumerate() {
        match step {
            Step::Open { .. } => depth += 1,
            Step::Close => depth -= 1,
            _ => assert!(depth > 0),
        }
        assert_eq!(depth == 0, i + 1 == steps.len());
    }
}

#[test]
fn carrying_out_the_steps_gives_the_figure() {
    let figure = donut_figure(&Chart::sales());
    let mut finished = Vec::new();
    carry_out(&script_of(&figure), &mut finished);
    assert_eq!(finished.len(), 1);
    assert!(same(&finished[0], &figure));
}

#[test]
fn carrying_out_the_steps_twice_gives_two_figures() {
    let figure = donut_figure(&Chart::sales());
    let steps = script_of(&figure);
    let mut finished = vec![Element::new(Namespace::Html, "h1")];
    carry_out(&steps, &mut finished);
    carry_out(&steps, &mut finished);
    assert_eq!(finished.len(), 3);
    assert_eq!(finished[0].tag(), "h1");
    assert!(same(&finished[1], &figure));
    assert!(same(&finished[2], &figure));
}

#[test]
fn carrying_out_the_steps_gives_back_any_element() {
    let element = Element::new(Namespace::Html, "div")
        .with_attribute("id", "a")
        .with_attribute("class", "b")
        .with_attribute("id", "c")
        .with_style("color", "red")
        .with_text("t")
        .with_child(
            Element::new(Namespace::Svg, "svg")
                .with_child(Element::new(Namespace::Svg, "g").with_child(Element::new(Namespace::Svg, "rect")))
                .with_child(Element::new(Namespace::Svg, "circle").with_attribute("r", "1")),
        )
        .with_child(Element::new(Namespace::Html, "p").with_text(""));
    let mut finished = Vec::new();
    carry_out(&script_of(&element), &mut finished);
    assert_eq!(finished.len(), 1);
    assert!(same(&finished[0], &element));
    assert!(!same(&finished[0], &Element::new(Namespace::Html, "div")));
}
