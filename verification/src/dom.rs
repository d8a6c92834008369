//! A plain-value description of a tree of markup elements.
//!
//! An [`Element`] says what an element is to look like once it exists in a
//! page: its namespace and tag, its attributes and style declarations in the
//! order in which they are to be set, its text, and its child elements in
//! document order. Nothing here touches a page; turning a description into
//! live nodes is left to the caller.

use vstd::prelude::*;
use vstd::string::StringExecFns;

verus! {

/// The vocabulary an element's tag belongs to.
#[derive(Clone, Copy, Debug, PartialEq, Eq, Structural)]
pub enum Namespace {
    Html,
    Svg,
}

/// A name with the value set for it, as sequences of characters.
pub type PairView = (Seq<char>, Seq<char>);

/// Whether some pair of `pairs` is named `name`.
pub open spec fn has_name(pairs: Seq<PairView>, name: Seq<char>) -> bool {
    exists|i: int| 0 <= i < pairs.len() && #[trigger] pairs[i].0 == name
}

/// The position of a pair named `name`.
pub open spec fn index_of(pairs: Seq<PairView>, name: Seq<char>) -> int
    recommends
        has_name(pairs, name),
{
    choose|i: int| 0 <= i < pairs.len() && #[trigger] pairs[i].0 == name
}

/// No two pairs carry the same name.
pub open spec fn names_distinct(pairs: Seq<PairView>) -> bool {
    forall|i: int, j: int|
        0 <= i < j < pairs.len() ==> #[trigger] pairs[i].0 != #[trigger] pairs[j].0
}

/// `pairs` after `name` is set to `value`: a pair of that name keeps its
/// place and takes the new value, a new name goes to the end.
pub open spec fn put(pairs: Seq<PairView>, name: Seq<char>, value: Seq<char>) -> Seq<PairView> {
    if has_name(pairs, name) {
        pairs.update(index_of(pairs, name), (name, value))
    } else {
        pairs.push((name, value))
    }
}

/// The value set for `name`, if there is one.
pub open spec fn lookup(pairs: Seq<PairView>, name: Seq<char>) -> Option<Seq<char>> {
    if has_name(pairs, name) {
        Some(pairs[index_of(pairs, name)].1)
    } else {
        None
    }
}

/// The pairs of a vector of strings, each string taken by its characters.
pub open spec fn pairs_view(pairs: Seq<(String, String)>) -> Seq<PairView> {
    Seq::new(pairs.len(), |i: int| (pairs[i].0@, pairs[i].1@))
}

/// What an [`Element`] describes.
pub struct ElementView {
    pub namespace: Namespace,
    pub tag: Seq<char>,
    pub attributes: Seq<PairView>,
    pub styles: Seq<PairView>,
    pub text: Option<Seq<char>>,
    pub children: Seq<ElementView>,
}

impl ElementView {
    /// An element with nothing set on it and nothing inside it.
    pub open spec fn new(namespace: Namespace, tag: Seq<char>) -> ElementView {
        ElementView {
            namespace,
            tag,
            attributes: Seq::empty(),
            styles: Seq::empty(),
            text: None,
            children: Seq::empty(),
        }
    }

    /// The element with the attribute `name` set to `value`.
    pub open spec fn with_attribute(self, name: Seq<char>, value: Seq<char>) -> ElementView {
        ElementView { attributes: put(self.attributes, name, value), ..self }
    }

    /// The element with the style declaration `name` set to `value`.
    pub open spec fn with_style(self, name: Seq<char>, value: Seq<char>) -> ElementView {
        ElementView { styles: put(self.styles, name, value), ..self }
    }

    /// The element with `text` for its text.
    pub open spec fn with_text(self, text: Seq<char>) -> ElementView {
        ElementView { text: Some(text), ..self }
    }

    /// The element with `child` after the children it has.
    pub open spec fn with_child(self, child: ElementView) -> ElementView {
        ElementView { children: self.children.push(child), ..self }
    }

    /// No attribute and no style declaration is made twice, here and in every
    /// element below.
    pub open spec fn well_formed(self) -> bool
        decreases self,
    {
        &&& names_distinct(self.attributes)
        &&& names_distinct(self.styles)
        &&& forall|i: int|
            0 <= i < self.children.len() ==> (#[trigger] self.children[i]).well_formed()
    }
}

/// The description of one element and of everything below it.
#[derive(Debug)]
pub struct Element {
    namespace: Namespace,
    tag: String,
    attributes: Vec<(String, String)>,
    styles: Vec<(String, String)>,
    text: Option<String>,
    children: Vec<Element>,
}

impl View for Element {
    type V = ElementView;

    closed spec fn view(&self) -> ElementView
        decreases self,
    {
        ElementView {
            namespace: self.namespace,
            tag: self.tag@,
            attributes: pairs_view(self.attributes@),
            styles: pairs_view(self.styles@),
            text: match self.text {
                Some(t) => Some(t@),
                None => None,
            },
            children: Seq::new(
                self.children@.len(),
                |i: int|
                    if 0 <= i < self.children@.len() {
                        self.children@[i].view()
                    } else {
                        arbitrary()
                    },
            ),
        }
    }
}

/// The descriptions that a sequence of elements stands for.
pub open spec fn views(elements: Seq<Element>) -> Seq<ElementView> {
    Seq::new(elements.len(), |i: int| elements[i]@)
}

/// The children that an element describes are the descriptions of the
/// children it holds.
proof fn lemma_children_view(e: Element)
    ensures
        e@.children == views(e.children@),
{
    reveal_with_fuel(<Element as View>::view, 2);
}

fn put_pair(pairs: &mut Vec<(String, String)>, name: &str, value: &str)
    requires
        names_distinct(pairs_view(old(pairs)@)),
    ensures
        pairs_view(final(pairs)@) == put(pairs_view(old(pairs)@), name@, value@),
        names_distinct(pairs_view(final(pairs)@)),
{
    let key = String::from_str(name);
    let mut i: usize = 0;
    while i < pairs.len()
        invariant
            i <= pairs.len(),
            *pairs == *old(pairs),
            key@ == name@,
            names_distinct(pairs_view(pairs@)),
            forall|k: int| 0 <= k < i ==> (#[trigger] pairs_view(pairs@)[k]).0 != name@,
        decreases pairs.len() - i,
    {
        if pairs[i].0 == key {
            pairs.set(i, (key, String::from_str(value)));
            proof {
                let before = pairs_view(old(pairs)@);
                assert(before[i as int].0 == name@);
                assert(pairs_view(pairs@) =~= before.update(i as int, (name@, value@)));
                lemma_put_keeps_names_distinct(before, name@, value@);
            }
            return ;
        }
        i += 1;
    }
    pairs.push((key, String::from_str(value)));
    proof {
        let before = pairs_view(old(pairs)@);
        lemma_put_keeps_names_distinct(before, name@, value@);
    }
}

fn find_pair<'a>(pairs: &'a Vec<(String, String)>, name: &str) -> (value: Option<&'a str>)
    requires
        names_distinct(pairs_view(pairs@)),
    ensures
        value is Some <==> lookup(pairs_view(pairs@), name@) is Some,
        value matches Some(v) ==> lookup(pairs_view(pairs@), name@) == Some(v@),
{
    let key = String::from_str(name);
    let mut i: usize = 0;
    while i < pairs.len()
        invariant
            i <= pairs.len(),
            key@ == name@,
            names_distinct(pairs_view(pairs@)),
            forall|k: int| 0 <= k < i ==> (#[trigger] pairs_view(pairs@)[k]).0 != name@,
        decreases pairs.len() - i,
    {
        if pairs[i].0 == key {
            proof {
                let all = pairs_view(pairs@);
                assert(all[i as int].0 == name@);
            }
            return Some(pairs[i].1.as_str());
        }
        i += 1;
    }
    None
}

/// Setting a name keeps the names distinct.
pub proof fn lemma_put_keeps_names_distinct(pairs: Seq<PairView>, name: Seq<char>, value: Seq<char>)
    requires
        names_distinct(pairs),
    ensures
        names_distinct(put(pairs, name, value)),
{
    let after = put(pairs, name, value);
    assert forall|i: int, j: int| 0 <= i < j < after.len() implies #[trigger] after[i].0
        != #[trigger] after[j].0 by {
        if has_name(pairs, name) {
            assert(after[i].0 == pairs[i].0);
            assert(after[j].0 == pairs[j].0);
        } else if j < pairs.len() {
            assert(after[j].0 == pairs[j].0);
        }
    }
}

impl Namespace {
    /// The namespace name under which elements of this vocabulary are
    /// created, where one has to be given.
    pub open spec fn uri_view(self) -> Option<Seq<char>> {
        match self {
            Namespace::Html => None,
            Namespace::Svg => Some("http://www.w3.org/2000/svg"@),
        }
    }

    /// The namespace name to create an element of this vocabulary under;
    /// `None` for the vocabulary that a page's document creates by itself.
    pub fn uri(self) -> (uri: Option<&'static str>)
        ensures
            uri is Some <==> self.uri_view() is Some,
            uri matches Some(u) ==> self.uri_view() == Some(u@),
    {
        match self {
            Namespace::Html => None,
            Namespace::Svg => Some("http://www.w3.org/2000/svg"),
        }
    }
}

impl Element {
    /// Holds of every element: what it describes is well-formed.
    #[verifier::type_invariant]
    pub open spec fn set_once_throughout(&self) -> bool {
        self@.well_formed()
    }

    /// An element of the given namespace and tag, with nothing set on it and
    /// nothing inside it.
    pub fn new(namespace: Namespace, tag: &str) -> (e: Element)
        ensures
            e@ == ElementView::new(namespace, tag@),
            e@.well_formed(),
    {
        let ghost view = ElementView::new(namespace, tag@);
        let tag = String::from_str(tag);
        let attributes = Vec::new();
        let styles = Vec::new();
        let children = Vec::new();
        proof {
            let e = Element { namespace, tag, attributes, styles, text: None, children };
            lemma_children_view(e);
            assert(e@.attributes =~= view.attributes);
            assert(e@.styles =~= view.styles);
            assert(e@.children =~= view.children);
        }
        Element { namespace, tag, attributes, styles, text: None, children }
    }

    /// Sets the attribute `name` to `value`. An attribute that is already
    /// there keeps its place; a new one comes after those there.
    pub fn with_attribute(self, name: &str, value: &str) -> (e: Element)
        ensures
            e@ == self@.with_attribute(name@, value@),
            e@.well_formed(),
    {
        proof {
            use_type_invariant(&self);
        }
        let Element { namespace, tag, mut attributes, styles, text, children } = self;
        put_pair(&mut attributes, name, value);
        proof {
            let e = Element { namespace, tag, attributes, styles, text, children };
            lemma_children_view(e);
            lemma_children_view(self);
        }
        Element { namespace, tag, attributes, styles, text, children }
    }

    /// Sets the style declaration `name` to `value`, as `with_attribute`
    /// does for attributes.
    pub fn with_style(self, name: &str, value: &str) -> (e: Element)
        ensures
            e@ == self@.with_style(name@, value@),
            e@.well_formed(),
    {
        proof {
            use_type_invariant(&self);
        }
        let Element { namespace, tag, attributes, mut styles, text, children } = self;
        put_pair(&mut styles, name, value);
        proof {
            let e = Element { namespace, tag, attributes, styles, text, children };
            lemma_children_view(e);
            lemma_children_view(self);
        }
        Element { namespace, tag, attributes, styles, text, children }
    }

    /// Sets the element's text, in place of any text it had.
    pub fn with_text(self, text: &str) -> (e: Element)
        ensures
            e@ == self@.with_text(text@),
            e@.well_formed(),
    {
        proof {
            use_type_invariant(&self);
        }
        let Element { namespace, tag, attributes, styles, text: _, children } = self;
        let text = Some(String::from_str(text));
        proof {
            let e = Element { namespace, tag, attributes, styles, text, children };
            lemma_children_view(e);
            lemma_children_view(self);
        }
        Element { namespace, tag, attributes, styles, text, children }
    }

    /// Appends `child` after the children already there.
    pub fn with_child(self, child: Element) -> (e: Element)
        ensures
            e@ == self@.with_child(child@),
            e@.well_formed(),
    {
        proof {
            use_type_invariant(&self);
            use_type_invariant(&child);
        }
        let Element { namespace, tag, attributes, styles, text, mut children } = self;
        children.push(child);
        proof {
            let e = Element { namespace, tag, attributes, styles, text, children };
            lemma_children_view(e);
            lemma_children_view(self);
            assert(e@.children =~= self@.children.push(child@));
        }
        Element { namespace, tag, attributes, styles, text, children }
    }

    /// The vocabulary that the tag belongs to.
    pub fn namespace(&self) -> (namespace: Namespace)
        ensures
            namespace == self@.namespace,
    {
        self.namespace
    }

    /// The tag.
    pub fn tag(&self) -> (tag: &str)
        ensures
            tag@ == self@.tag,
    {
        self.tag.as_str()
    }

    /// The attributes, in the order in which they were first set.
    pub fn attributes(&self) -> (attributes: &Vec<(String, String)>)
        ensures
            pairs_view(attributes@) == self@.attributes,
    {
        &self.attributes
    }

    /// The style declarations, in the order in which they were first set.
    pub fn styles(&self) -> (styles: &Vec<(String, String)>)
        ensures
            pairs_view(styles@) == self@.styles,
    {
        &self.styles
    }

    /// The value of the attribute `name`, if it is set.
    pub fn attribute(&self, name: &str) -> (value: Option<&str>)
        ensures
            value is Some <==> lookup(self@.attributes, name@) is Some,
            value matches Some(v) ==> lookup(self@.attributes, name@) == Some(v@),
    {
        proof {
            use_type_invariant(self);
        }
        find_pair(&self.attributes, name)
    }

    /// The value of the style declaration `name`, if it is made.
    pub fn style(&self, name: &str) -> (value: Option<&str>)
        ensures
            value is Some <==> lookup(self@.styles, name@) is Some,
            value matches Some(v) ==> lookup(self@.styles, name@) == Some(v@),
    {
        proof {
            use_type_invariant(self);
        }
        find_pair(&self.styles, name)
    }

    /// The text, if any is set.
    pub fn text(&self) -> (text: Option<&str>)
        ensures
            text is Some <==> self@.text is Some,
            text matches Some(t) ==> self@.text == Some(t@),
    {
        match &self.text {
            Some(t) => Some(t.as_str()),
            None => None,
        }
    }

    /// The child elements, in document order.
    pub fn children(&self) -> (children: &Vec<Element>)
        ensures
            views(children@) == self@.children,
    {
        proof {
            lemma_children_view(*self);
        }
        &self.children
    }
}

} // verus!
