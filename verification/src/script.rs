//! An element's description as a run of steps that builds it.
//!
//! Whoever holds a live page can create the described elements by carrying
//! out the steps in order, with no more state than the elements begun and
//! not yet closed. A parent is begun before its children, children are
//! closed in document order, and a tree is handed over only when it is
//! complete.

use crate::dom::{
    has_name, names_distinct, pairs_view, put, views, Element, ElementView, Namespace, PairView,
};
use vstd::prelude::*;

verus! {

/// One step of building.
#[derive(Debug, PartialEq, Eq)]
pub enum Step {
    /// Begin an element; the steps up to the matching `Close` are about it.
    Open { namespace: Namespace, tag: String },
    /// Set an attribute of the element begun last and not yet closed.
    SetAttribute { name: String, value: String },
    /// Set a style declaration of that element.
    SetStyle { name: String, value: String },
    /// Set the text of that element.
    SetText { text: String },
    /// Close that element: append it to the one begun before it, or hand it
    /// over where there is none.
    Close,
}

/// What a [`Step`] says.
pub enum StepView {
    Open { namespace: Namespace, tag: Seq<char> },
    SetAttribute { name: Seq<char>, value: Seq<char> },
    SetStyle { name: Seq<char>, value: Seq<char> },
    SetText { text: Seq<char> },
    Close,
}

impl View for Step {
    type V = StepView;

    open spec fn view(&self) -> StepView {
        match self {
            Step::Open { namespace, tag } => StepView::Open { namespace: *namespace, tag: tag@ },
            Step::SetAttribute { name, value } => StepView::SetAttribute {
                name: name@,
                value: value@,
            },
            Step::SetStyle { name, value } => StepView::SetStyle {
                name: name@,
                value: value@,
            },
            Step::SetText { text } => StepView::SetText { text: text@ },
            Step::Close => StepView::Close,
        }
    }
}

/// The steps that a sequence of steps stands for.
pub open spec fn step_views(steps: Seq<Step>) -> Seq<StepView> {
    Seq::new(steps.len(), |i: int| steps[i]@)
}

/// One step for each attribute, in order.
pub open spec fn attribute_steps(pairs: Seq<PairView>) -> Seq<StepView> {
    Seq::new(pairs.len(), |i: int| StepView::SetAttribute { name: pairs[i].0, value: pairs[i].1 })
}

/// One step for each style declaration, in order.
pub open spec fn style_steps(pairs: Seq<PairView>) -> Seq<StepView> {
    Seq::new(pairs.len(), |i: int| StepView::SetStyle { name: pairs[i].0, value: pairs[i].1 })
}

/// The step that sets the text, where there is text.
pub open spec fn text_steps(text: Option<Seq<char>>) -> Seq<StepView> {
    match text {
        Some(text) => seq![StepView::SetText { text }],
        None => seq![],
    }
}

/// The steps that begin `element` and set what is set on it: its
/// attributes, then its style declarations, then its text.
pub open spec fn head(element: ElementView) -> Seq<StepView> {
    seq![StepView::Open { namespace: element.namespace, tag: element.tag }] + attribute_steps(
        element.attributes,
    ) + style_steps(element.styles) + text_steps(element.text)
}

/// The steps that build `element`: begin it and set what is set on it,
/// build its children in order, close it.
pub open spec fn script(element: ElementView) -> Seq<StepView>
    decreases element,
{
    head(element) + scripts(element.children) + seq![StepView::Close]
}

/// The steps that build `elements` one after the other.
pub open spec fn scripts(elements: Seq<ElementView>) -> Seq<StepView>
    decreases elements,
{
    if elements.len() == 0 {
        seq![]
    } else {
        scripts(elements.drop_last()) + script(elements.last())
    }
}

/// Where a building stands: the elements begun and not yet closed,
/// outermost first, and the trees handed over so far.
pub struct Assembly {
    pub open: Seq<ElementView>,
    pub finished: Seq<ElementView>,
}

impl Assembly {
    /// The assembly with `top` in place of the element begun last.
    pub open spec fn with_top(self, top: ElementView) -> Assembly
        recommends
            self.open.len() > 0,
    {
        Assembly { open: self.open.update(self.open.len() - 1, top), ..self }
    }

    /// The assembly once the complete tree `element` has arrived: as the
    /// last child of the element begun last, or handed over where none is
    /// open.
    pub open spec fn receive(self, element: ElementView) -> Assembly {
        if self.open.len() > 0 {
            self.with_top(self.open.last().with_child(element))
        } else {
            Assembly { finished: self.finished.push(element), ..self }
        }
    }

    /// The assembly after one step. A step about the element begun last
    /// changes nothing where none is open.
    pub open spec fn apply(self, step: StepView) -> Assembly {
        if step is Open {
            Assembly {
                open: self.open.push(ElementView::new(step->namespace, step->tag)),
                ..self
            }
        } else if self.open.len() == 0 {
            self
        } else {
            let top = self.open.last();
            match step {
                StepView::Open { .. } => self,
                StepView::SetAttribute { name, value } => self.with_top(
                    top.with_attribute(name, value),
                ),
                StepView::SetStyle { name, value } => self.with_top(
                    top.with_style(name, value),
                ),
                StepView::SetText { text } => self.with_top(top.with_text(text)),
                StepView::Close => (Assembly { open: self.open.drop_last(), ..self }).receive(top),
            }
        }
    }

    /// The assembly after `steps`, carried out in order.
    pub open spec fn run(self, steps: Seq<StepView>) -> Assembly
        decreases steps.len(),
    {
        if steps.len() == 0 {
            self
        } else {
            self.run(steps.drop_last()).apply(steps.last())
        }
    }
}

/// One more step is carried out after those before it.
pub proof fn lemma_run_push(assembly: Assembly, steps: Seq<StepView>, step: StepView)
    ensures
        assembly.run(steps.push(step)) == assembly.run(steps).apply(step),
{
    assert(steps.push(step).drop_last() =~= steps);
}

/// A run of steps is carried out after the run before it.
pub proof fn lemma_run_add(assembly: Assembly, first: Seq<StepView>, second: Seq<StepView>)
    ensures
        assembly.run(first + second) == assembly.run(first).run(second),
    decreases second.len(),
{
    if second.len() > 0 {
        assert((first + second).drop_last() =~= first + second.drop_last());
        lemma_run_add(assembly, first, second.drop_last());
    }
}

/// Setting distinct names one after the other on an element that has none
/// set leaves it with just these, in order.
proof fn lemma_run_attributes(assembly: Assembly, pairs: Seq<PairView>, n: int)
    requires
        assembly.open.len() > 0,
        assembly.open.last().attributes.len() == 0,
        names_distinct(pairs),
        0 <= n <= pairs.len(),
    ensures
        assembly.run(attribute_steps(pairs).take(n)) == assembly.with_top(
            ElementView { attributes: pairs.take(n), ..assembly.open.last() },
        ),
    decreases n,
{
    let top = assembly.open.last();
    let steps = attribute_steps(pairs);
    if n == 0 {
        assert(pairs.take(0) =~= top.attributes);
        assert(assembly.open.update(assembly.open.len() - 1, top) =~= assembly.open);
    } else {
        lemma_run_attributes(assembly, pairs, n - 1);
        assert(steps.take(n) =~= steps.take(n - 1).push(steps[n - 1]));
        lemma_run_push(assembly, steps.take(n - 1), steps[n - 1]);
        let before = assembly.with_top(ElementView { attributes: pairs.take(n - 1), ..top });
        let set = pairs.take(n - 1);
        assert(!has_name(set, pairs[n - 1].0));
        assert(put(set, pairs[n - 1].0, pairs[n - 1].1) =~= pairs.take(n));
        assert(before.apply(steps[n - 1]).open =~= assembly.with_top(
            ElementView { attributes: pairs.take(n), ..top },
        ).open);
    }
}

/// As `lemma_run_attributes`, for style declarations.
proof fn lemma_run_styles(assembly: Assembly, pairs: Seq<PairView>, n: int)
    requires
        assembly.open.len() > 0,
        assembly.open.last().styles.len() == 0,
        names_distinct(pairs),
        0 <= n <= pairs.len(),
    ensures
        assembly.run(style_steps(pairs).take(n)) == assembly.with_top(
            ElementView { styles: pairs.take(n), ..assembly.open.last() },
        ),
    decreases n,
{
    let top = assembly.open.last();
    let steps = style_steps(pairs);
    if n == 0 {
        assert(pairs.take(0) =~= top.styles);
        assert(assembly.open.update(assembly.open.len() - 1, top) =~= assembly.open);
    } else {
        lemma_run_styles(assembly, pairs, n - 1);
        assert(steps.take(n) =~= steps.take(n - 1).push(steps[n - 1]));
        lemma_run_push(assembly, steps.take(n - 1), steps[n - 1]);
        let before = assembly.with_top(ElementView { styles: pairs.take(n - 1), ..top });
        let set = pairs.take(n - 1);
        assert(!has_name(set, pairs[n - 1].0));
        assert(put(set, pairs[n - 1].0, pairs[n - 1].1) =~= pairs.take(n));
        assert(before.apply(steps[n - 1]).open =~= assembly.with_top(
            ElementView { styles: pairs.take(n), ..top },
        ).open);
    }
}

/// The steps that begin an element leave it open, with all set on it that
/// is set on it, and without children yet.
proof fn lemma_head_builds(assembly: Assembly, element: ElementView)
    requires
        names_distinct(element.attributes),
        names_distinct(element.styles),
    ensures
        assembly.run(head(element)) == (Assembly {
            open: assembly.open.push(ElementView { children: Seq::empty(), ..element }),
            ..assembly
        }),
{
    let begin = seq![StepView::Open { namespace: element.namespace, tag: element.tag }];
    let attributes = attribute_steps(element.attributes);
    let styles = style_steps(element.styles);
    let text = text_steps(element.text);
    let bare = ElementView::new(element.namespace, element.tag);

    let begun = assembly.run(begin);
    assert(begun == assembly.apply(begin[0])) by {
        lemma_run_push(assembly, Seq::empty(), begin[0]);
    }

    let named = begun.run(attributes);
    let with_names = ElementView { attributes: element.attributes, ..bare };
    assert(named == begun.with_top(with_names)) by {
        lemma_run_attributes(begun, element.attributes, element.attributes.len() as int);
        assert(attributes.take(element.attributes.len() as int) =~= attributes);
        assert(element.attributes.take(element.attributes.len() as int) =~= element.attributes);
    }

    let styled = named.run(styles);
    let with_styles = ElementView { styles: element.styles, ..with_names };
    assert(styled == named.with_top(with_styles)) by {
        lemma_run_styles(named, element.styles, element.styles.len() as int);
        assert(styles.take(element.styles.len() as int) =~= styles);
        assert(element.styles.take(element.styles.len() as int) =~= element.styles);
    }

    let worded = styled.run(text);
    let with_text = ElementView { text: element.text, ..with_styles };
    assert(worded == styled.with_top(with_text)) by {
        match element.text {
            Some(words) => {
                lemma_run_push(styled, Seq::empty(), StepView::SetText { text: words });
            },
            None => {
                assert(styled.open.update(styled.open.len() - 1, with_text) =~= styled.open);
            },
        }
    }
    assert(worded.open =~= assembly.open.push(with_text));

    lemma_run_add(assembly, begin, attributes);
    lemma_run_add(assembly, begin + attributes, styles);
    lemma_run_add(assembly, begin + attributes + styles, text);
}

/// The steps of a well-formed element build that element: carried out from
/// any state, they leave the element, complete, as the last child of the
/// element that was open, or hand it over where none was.
pub proof fn lemma_script_builds(assembly: Assembly, element: ElementView)
    requires
        element.well_formed(),
    ensures
        assembly.run(script(element)) == assembly.receive(element),
    decreases element, 1nat,
{
    let children = scripts(element.children);
    let end = seq![StepView::Close];
    let childless = ElementView { children: Seq::empty(), ..element };

    lemma_head_builds(assembly, element);
    let begun = assembly.run(head(element));

    let filled = begun.run(children);
    assert(filled == begun.with_top(element)) by {
        lemma_scripts_build(begun, element.children);
    }

    let closed = filled.run(end);
    assert(closed == assembly.receive(element)) by {
        lemma_run_push(filled, Seq::empty(), StepView::Close);
        assert(filled.open.drop_last() =~= assembly.open);
    }

    lemma_run_add(assembly, head(element), children);
    lemma_run_add(assembly, head(element) + children, end);
}

/// The steps of well-formed elements build them as further children, in
/// order, of the element that is open.
pub proof fn lemma_scripts_build(assembly: Assembly, elements: Seq<ElementView>)
    requires
        assembly.open.len() > 0,
        forall|i: int| 0 <= i < elements.len() ==> (#[trigger] elements[i]).well_formed(),
    ensures
        assembly.run(scripts(elements)) == assembly.with_top(
            ElementView {
                children: assembly.open.last().children + elements,
                ..assembly.open.last()
            },
        ),
    decreases elements, 0nat,
{
    let top = assembly.open.last();
    if elements.len() == 0 {
        assert(assembly.open.update(assembly.open.len() - 1, top) =~= assembly.open);
    } else {
        let front = elements.drop_last();
        lemma_scripts_build(assembly, front);
        let before = assembly.run(scripts(front));
        lemma_script_builds(before, elements.last());
        lemma_run_add(assembly, scripts(front), script(elements.last()));
        assert((top.children + front).push(elements.last()) =~= top.children + elements);
        assert(before.receive(elements.last()).open =~= assembly.with_top(
            ElementView { children: top.children + elements, ..top },
        ).open);
    }
}

/// Steps that neither begin nor close an element leave as many elements
/// open, and hand nothing over.
proof fn lemma_setting_keeps_shape(assembly: Assembly, steps: Seq<StepView>)
    requires
        forall|i: int| 0 <= i < steps.len() ==> !(#[trigger] steps[i] is Open) && !(steps[i] is Close),
    ensures
        assembly.run(steps).open.len() == assembly.open.len(),
        assembly.run(steps).finished == assembly.finished,
    decreases steps.len(),
{
    if steps.len() > 0 {
        lemma_setting_keeps_shape(assembly, steps.drop_last());
        assert(!(steps.last() is Open) && !(steps.last() is Close));
    }
}

/// Nothing is handed over before an element's last step: up to there the
/// element is open, on top of what was open, and what was handed over is
/// what was handed over before.
pub proof fn lemma_handed_over_at_last_step_only(assembly: Assembly, element: ElementView, n: int)
    requires
        element.well_formed(),
        0 <= n < script(element).len(),
    ensures
        assembly.run(script(element).take(n)).finished == assembly.finished,
        n > 0 ==> assembly.run(script(element).take(n)).open.len() > assembly.open.len(),
        n == 0 ==> assembly.run(script(element).take(n)) == assembly,
    decreases element, 1nat,
{
    let all = script(element);
    let begin = seq![StepView::Open { namespace: element.namespace, tag: element.tag }];
    let setting = attribute_steps(element.attributes) + style_steps(element.styles) + text_steps(
        element.text,
    );
    let children = scripts(element.children);
    lemma_head_builds(assembly, element);
    let h = head(element).len() as int;
    if 0 < n <= h {
        let some = setting.take(n - 1);
        assert(all.take(n) =~= begin + some);
        lemma_run_add(assembly, begin, some);
        lemma_run_push(assembly, Seq::empty(), begin[0]);
        lemma_setting_keeps_shape(assembly.run(begin), some);
    } else if n > h {
        let begun = assembly.run(head(element));
        assert(all.take(n) =~= head(element) + children.take(n - h));
        lemma_run_add(assembly, head(element), children.take(n - h));
        lemma_children_handed_to_parent(begun, element.children, n - h);
    }
}

/// While the children of an open element are built, that element stays
/// open and nothing is handed over.
pub proof fn lemma_children_handed_to_parent(
    assembly: Assembly,
    elements: Seq<ElementView>,
    n: int,
)
    requires
        assembly.open.len() > 0,
        forall|i: int| 0 <= i < elements.len() ==> (#[trigger] elements[i]).well_formed(),
        0 <= n <= scripts(elements).len(),
    ensures
        assembly.run(scripts(elements).take(n)).finished == assembly.finished,
        assembly.run(scripts(elements).take(n)).open.len() >= assembly.open.len(),
    decreases elements, 0nat,
{
    if elements.len() > 0 {
        let front = elements.drop_last();
        let last = elements.last();
        let f = scripts(front).len() as int;
        if n <= f {
            assert(scripts(elements).take(n) =~= scripts(front).take(n));
            lemma_children_handed_to_parent(assembly, front, n);
        } else {
            let before = assembly.run(scripts(front));
            lemma_scripts_build(assembly, front);
            assert(scripts(elements).take(n) =~= scripts(front) + script(last).take(n - f));
            lemma_run_add(assembly, scripts(front), script(last).take(n - f));
            if n - f < script(last).len() {
                lemma_handed_over_at_last_step_only(before, last, n - f);
            } else {
                assert(script(last).take(n - f) =~= script(last));
                lemma_script_builds(before, last);
            }
        }
    }
}

/// Building one element more takes the steps of that element more.
proof fn lemma_scripts_take(elements: Seq<ElementView>, n: int)
    requires
        0 <= n < elements.len(),
    ensures
        scripts(elements.take(0)) == Seq::<StepView>::empty(),
        scripts(elements.take(n + 1)) == scripts(elements.take(n)) + script(elements[n]),
        scripts(elements.take(elements.len() as int)) == scripts(elements),
{
    assert(elements.take(n + 1).drop_last() =~= elements.take(n));
    assert(elements.take(elements.len() as int) =~= elements);
}

fn write_attributes(pairs: &Vec<(String, String)>, out: &mut Vec<Step>)
    ensures
        step_views(final(out)@) == step_views(old(out)@) + attribute_steps(pairs_view(pairs@)),
{
    let ghost steps = attribute_steps(pairs_view(pairs@));
    let mut i: usize = 0;
    while i < pairs.len()
        invariant
            i <= pairs.len(),
            steps == attribute_steps(pairs_view(pairs@)),
            step_views(out@) == step_views(old(out)@) + steps.take(i as int),
        decreases pairs.len() - i,
    {
        let ghost before = out@;
        out.push(Step::SetAttribute { name: pairs[i].0.clone(), value: pairs[i].1.clone() });
        proof {
            assert(step_views(out@) =~= step_views(before).push(steps[i as int]));
        }
        i += 1;
    }
}

fn write_styles(pairs: &Vec<(String, String)>, out: &mut Vec<Step>)
    ensures
        step_views(final(out)@) == step_views(old(out)@) + style_steps(pairs_view(pairs@)),
{
    let ghost steps = style_steps(pairs_view(pairs@));
    let mut i: usize = 0;
    while i < pairs.len()
        invariant
            i <= pairs.len(),
            steps == style_steps(pairs_view(pairs@)),
            step_views(out@) == step_views(old(out)@) + steps.take(i as int),
        decreases pairs.len() - i,
    {
        let ghost before = out@;
        out.push(Step::SetStyle { name: pairs[i].0.clone(), value: pairs[i].1.clone() });
        proof {
            assert(step_views(out@) =~= step_views(before).push(steps[i as int]));
        }
        i += 1;
    }
}

/// Appends to `out` the steps that build `element`.
pub fn write_script(element: &Element, out: &mut Vec<Step>)
    ensures
        step_views(final(out)@) == step_views(old(out)@) + script(element@),
    decreases element@,
{
    let ghost start = step_views(out@);
    out.push(Step::Open { namespace: element.namespace(), tag: String::from_str(element.tag()) });
    write_attributes(element.attributes(), out);
    write_styles(element.styles(), out);
    let ghost styled = step_views(out@);
    match element.text() {
        Some(text) => {
            out.push(Step::SetText { text: String::from_str(text) });
        },
        None => {},
    }
    proof {
        assert(step_views(out@) =~= styled + text_steps(element@.text));
    }
    let ghost set = start + head(element@);
    let children = element.children();
    let mut i: usize = 0;
    proof {
        if children.len() > 0 {
            lemma_scripts_take(element@.children, 0);
        }
    }
    while i < children.len()
        invariant
            i <= children.len(),
            views(children@) == element@.children,
            step_views(out@) == set + scripts(element@.children.take(i as int)),
        decreases children.len() - i,
    {
        proof {
            lemma_scripts_take(element@.children, i as int);
        }
        write_script(&children[i], out);
        i += 1;
    }
    let ghost filled = step_views(out@);
    out.push(Step::Close);
    proof {
        assert(step_views(out@) =~= filled.push(StepView::Close));
    }
}

/// The steps that build `element`. Carried out in order from any state,
/// they leave what `element` describes, complete, as the last child of the
/// element that was open, or hand it over where none was.
pub fn script_of(element: &Element) -> (steps: Vec<Step>)
    ensures
        step_views(steps@) == script(element@),
        forall|assembly: Assembly| #[trigger]
            assembly.run(step_views(steps@)) == assembly.receive(element@),
{
    let mut steps = Vec::new();
    write_script(element, &mut steps);
    proof {
        use_type_invariant(element);
        assert forall|assembly: Assembly| #[trigger]
            assembly.run(step_views(steps@)) == assembly.receive(element@) by {
            lemma_script_builds(assembly, element@);
        }
    }
    steps
}

} // verus!
