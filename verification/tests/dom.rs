use donutchart::{Element, Namespace};

fn pairs(element_pairs: &Vec<(String, String)>) -> Vec<(&str, &str)> {
    element_pairs.iter().map(|(name, value)| (name.as_str(), value.as_str())).collect()
}

#[test]
fn new_element_is_bare() {
    let element = Element::new(Namespace::Svg, "circle");
    assert_eq!(element.namespace(), Namespace::Svg);
    assert_eq!(element.tag(), "circle");
    assert!(element.attributes().is_empty());
    assert!(element.styles().is_empty());
    assert_eq!(element.text(), None);
    assert!(element.children().is_empty());
}

#[test]
fn namespaces_and_their_names() {
    assert_eq!(Namespace::Svg.uri(), Some("http://www.w3.org/2000/svg"));
    assert_eq!(Namespace::Html.uri(), None);
}

#[test]
fn attributes_keep_the_order_in_which_they_were_set() {
    let element = Element::new(Namespace::Svg, "circle")
        .with_attribute("cx", "21")
        .with_attribute("cy", "22")
        .with_attribute("r", "5");
    assert_eq!(pairs(element.attributes()), vec![("cx", "21"), ("cy", "22"), ("r", "5")]);
    assert_eq!(element.attribute("cx"), Some("21"));
    assert_eq!(element.attribute("cy"), Some("22"));
    assert_eq!(element.attribute("r"), Some("5"));
    assert_eq!(element.attribute("fill"), None);
    assert_eq!(element.attribute("c"), None);
    assert_eq!(element.attribute(""), None);
}

#[test]
fn attribute_set_again_keeps_its_place() {
    let element = Element::new(Namespace::Svg, "circle")
        .with_attribute("cx", "21")
        .with_attribute("cy", "22")
        .with_attribute("r", "5")
        .with_attribute("cy", "23");
    assert_eq!(pairs(element.attributes()), vec![("cx", "21"), ("cy", "23"), ("r", "5")]);
    assert_eq!(element.attribute("cy"), Some("23"));
    let element = element.with_attribute("cx", "").with_attribute("r", "6");
    assert_eq!(pairs(element.attributes()), vec![("cx", ""), ("cy", "23"), ("r", "6")]);
}

#[test]
fn attribute_names_are_told_apart_by_case() {
    let element =
        Element::new(Namespace::Svg, "svg").with_attribute("viewBox", "a").with_attribute("viewbox", "b");
    assert_eq!(pairs(element.attributes()), vec![("viewBox", "a"), ("viewbox", "b")]);
}

#[test]
fn styles_are_kept_apart_from_attributes() {
    let element = Element::new(Namespace::Html, "ul")
        .with_attribute("class", "list")
        .with_style("list-style-type", "none")
        .with_style("margin", "0")
        .with_style("list-style-type", "disc");
    assert_eq!(pairs(element.attributes()), vec![("class", "list")]);
    assert_eq!(pairs(element.styles()), vec![("list-style-type", "disc"), ("margin", "0")]);
    assert_eq!(element.style("margin"), Some("0"));
    assert_eq!(element.style("list-style-type"), Some("disc"));
    assert_eq!(element.style("class"), None);
    assert_eq!(element.attribute("margin"), None);
}

#[test]
fn text_replaces_text() {
    let element = Element::new(Namespace::Html, "span").with_text("one");
    assert_eq!(element.text(), Some("one"));
    let element = element.with_text("two");
    assert_eq!(element.text(), Some("two"));
    let element = element.with_text("");
    assert_eq!(element.text(), Some(""));
}

#[test]
fn children_keep_the_order_in_which_they_were_appended() {
    let list = Element::new(Namespace::Html, "ul")
        .with_child(Element::new(Namespace::Html, "li").with_text("a"))
        .with_child(Element::new(Namespace::Html, "li").with_text("b"))
        .with_child(Element::new(Namespace::Html, "li").with_text("c"));
    let words: Vec<&str> = list.children().iter().map(|item| item.text().unwrap()).collect();
    assert_eq!(words, vec!["a", "b", "c"]);
}

#[test]
fn what_is_set_leaves_the_rest_alone() {
    let element = Element::new(Namespace::Html, "p")
        .with_child(Element::new(Namespace::Html, "b"))
        .with_text("words")
        .with_attribute("id", "x")
        .with_style("color", "red");
    assert_eq!(element.namespace(), Namespace::Html);
    assert_eq!(element.tag(), "p");
    assert_eq!(element.children().len(), 1);
    assert_eq!(element.children()[0].tag(), "b");
    assert_eq!(element.text(), Some("words"));
    assert_eq!(pairs(element.attributes()), vec![("id", "x")]);
    assert_eq!(pairs(element.styles()), vec![("color", "red")]);
}
