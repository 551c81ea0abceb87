//! The widget layer: typed components (panels, labels, splitters, buttons)
//! with style lists, children and a data bag, plus the builders that
//! assemble them.

use vstd::prelude::*;
use crate::data_bag::DataBag;
use crate::model::{BuildContext, ComponentId};
use crate::styles::FlexStyle;

verus! {

/// The built-in component kinds.
#[derive(Clone, Copy, Debug, PartialEq, Eq, Structural)]
pub enum Type {
    Panel,
    Label,
    Splitter,
    Button,
}

/// The token under which a label's caption is stored in its data bag.
pub const CAPTION_TOKEN: u64 = 0;

/// A label's caption.
#[derive(Clone, Copy, Debug, PartialEq)]
pub struct Caption {
    pub caption: &'static str,
}

/// A typed widget node: identity, kind, styles, ordered children, and a data
/// bag for extra attributes such as a caption.
pub struct Component {
    pub id: ComponentId,
    pub component_type: Type,
    pub styles: Vec<FlexStyle>,
    pub children: Vec<Component>,
    pub data_bag: DataBag<Caption>,
}

/// The first component with identity `id` in the subtree rooted at `c`, in
/// depth-first pre-order.
pub open spec fn spec_find(c: Component, id: ComponentId) -> Option<Component>
    decreases c,
{
    if c.id == id {
        Some(c)
    } else {
        spec_find_in(c.children@, id)
    }
}

/// The first match over a forest, searching each subtree in order.
pub open spec fn spec_find_in(s: Seq<Component>, id: ComponentId) -> Option<Component>
    decreases s,
{
    if s.len() == 0 {
        None
    } else {
        match spec_find(s[0], id) {
            Some(f) => Some(f),
            None => spec_find_in(s.drop_first(), id),
        }
    }
}

impl Component {
    /// Creates a component of kind `t` with the given styles and children,
    /// an empty data bag, and a fresh id.
    pub fn new(
        ctx: &mut BuildContext,
        t: Type,
        styles: Vec<FlexStyle>,
        children: Vec<Component>,
    ) -> (c: Component)
        ensures
            c.id.value == old(ctx).spec_next(),
            final(ctx).spec_next() >= old(ctx).spec_next(),
            old(ctx).spec_next() < u64::MAX ==> final(ctx).spec_next() == old(ctx).spec_next()
                + 1,
            c.component_type == t,
            c.styles == styles,
            c.children == children,
            c.data_bag.spec_entries() == Seq::<(u64, Caption)>::empty(),
    {
        Component {
            id: ctx.fresh_id(),
            component_type: t,
            styles,
            children,
            data_bag: DataBag::new(),
        }
    }

    pub fn id(&self) -> (r: &ComponentId)
        ensures
            r == self.id,
    {
        &self.id
    }

    pub fn data(&self) -> (r: &DataBag<Caption>)
        ensures
            r == self.data_bag,
    {
        &self.data_bag
    }

    pub fn children(&self) -> (r: &Vec<Component>)
        ensures
            r == self.children,
    {
        &self.children
    }

    pub fn styles(&self) -> (r: &Vec<FlexStyle>)
        ensures
            r == self.styles,
    {
        &self.styles
    }

    /// Returns the first component in depth-first pre-order whose identity
    /// is `id`, or `None`.
    pub fn find<'a>(&'a self, id: &ComponentId) -> (r: Option<&'a Component>)
        ensures
            match r {
                Some(f) => spec_find(*self, *id) == Some(*f),
                None => spec_find(*self, *id) is None,
            },
        decreases *self,
    {
        if self.id == *id {
            return Some(self);
        }
        let ghost kids = self.children@;
        proof {
            assert(kids.skip(0) == kids);
        }
        let mut i: usize = 0;
        while i < self.children.len()
            invariant
                i <= kids.len(),
                self.id != *id,
                spec_find_in(kids, *id) == spec_find_in(kids.skip(i as int), *id),
            decreases kids.len() - i,
        {
            proof {
                assert(kids.skip(i as int)[0] == kids[i as int]);
                assert(kids.skip(i as int).drop_first() == kids.skip(i + 1));
            }
            if let Some(f) = self.children[i].find(id) {
                return Some(f);
            }
            i = i + 1;
        }
        proof {
            assert(kids.skip(kids.len() as int).len() == 0);
        }
        None
    }
}

/// Builds a panel from explicit style and child lists.
pub fn panel(ctx: &mut BuildContext, styles: Vec<FlexStyle>, children: Vec<Component>) -> (c:
    Component)
    ensures
        c.id.value == old(ctx).spec_next(),
        final(ctx).spec_next() >= old(ctx).spec_next(),
        old(ctx).spec_next() < u64::MAX ==> final(ctx).spec_next() == old(ctx).spec_next() + 1,
        c.component_type == Type::Panel,
        c.styles == styles,
        c.children == children,
        c.data_bag.spec_entries() == Seq::<(u64, Caption)>::empty(),
{
    Component::new(ctx, Type::Panel, styles, children)
}

/// One piece of a panel's configuration: a style or a child, singly or in
/// batches.
pub enum Configuration {
    Style(FlexStyle),
    Styles(Vec<FlexStyle>),
    Child(Component),
    Children(Vec<Component>),
}

/// The styles a configuration list contributes, in order.
pub open spec fn spec_config_styles(cfgs: Seq<Configuration>) -> Seq<FlexStyle>
    decreases cfgs.len(),
{
    if cfgs.len() == 0 {
        Seq::empty()
    } else {
        (match cfgs[0] {
            Configuration::Style(s) => seq![s],
            Configuration::Styles(ss) => ss@,
            _ => Seq::empty(),
        }) + spec_config_styles(cfgs.drop_first())
    }
}

/// The children a configuration list contributes, in order.
pub open spec fn spec_config_children(cfgs: Seq<Configuration>) -> Seq<Component>
    decreases cfgs.len(),
{
    if cfgs.len() == 0 {
        Seq::empty()
    } else {
        (match cfgs[0] {
            Configuration::Child(c) => seq![c],
            Configuration::Children(cs) => cs@,
            _ => Seq::empty(),
        }) + spec_config_children(cfgs.drop_first())
    }
}

/// Assembles a panel from a configuration list.
pub struct PanelBuilder {
    pub component: Component,
}

impl PanelBuilder {
    /// Collects the styles and children out of `configurations`, keeping
    /// their order, and wraps them into a panel component.
    pub fn new(ctx: &mut BuildContext, configurations: Vec<Configuration>) -> (b: PanelBuilder)
        ensures
            b.component.id.value == old(ctx).spec_next(),
            final(ctx).spec_next() >= old(ctx).spec_next(),
            old(ctx).spec_next() < u64::MAX ==> final(ctx).spec_next() == old(ctx).spec_next()
                + 1,
            b.component.component_type == Type::Panel,
            b.component.styles@ == spec_config_styles(configurations@),
            b.component.children@ == spec_config_children(configurations@),
            b.component.data_bag.spec_entries() == Seq::<(u64, Caption)>::empty(),
    {
        let ghost cfgs = configurations@;
        let mut styles: Vec<FlexStyle> = Vec::new();
        let mut children: Vec<Component> = Vec::new();
        let mut rest = configurations;
        proof {
            assert(styles@ + spec_config_styles(cfgs) == spec_config_styles(cfgs));
            assert(children@ + spec_config_children(cfgs) == spec_config_children(cfgs));
        }
        while rest.len() > 0
            invariant
                styles@ + spec_config_styles(rest@) == spec_config_styles(cfgs),
                children@ + spec_config_children(rest@) == spec_config_children(cfgs),
            decreases rest@.len(),
        {
            let ghost before = rest@;
            let config = rest.remove(0);
            proof {
                assert(rest@ == before.drop_first());
                assert(config == before[0]);
            }
            match config {
                Configuration::Style(s) => {
                    styles.push(s);
                    proof {
                        assert(styles@ + spec_config_styles(rest@) == spec_config_styles(cfgs));
                    }
                },
                Configuration::Styles(mut ss) => {
                    let ghost added = ss@;
                    styles.append(&mut ss);
                    proof {
                        assert(styles@ + spec_config_styles(rest@) == spec_config_styles(cfgs));
                    }
                },
                Configuration::Child(c) => {
                    children.push(c);
                    proof {
                        assert(children@ + spec_config_children(rest@) == spec_config_children(
                            cfgs,
                        ));
                    }
                },
                Configuration::Children(mut cs) => {
                    let ghost added = cs@;
                    children.append(&mut cs);
                    proof {
                        assert(children@ + spec_config_children(rest@) == spec_config_children(
                            cfgs,
                        ));
                    }
                },
            }
        }
        proof {
            assert(spec_config_styles(rest@).len() == 0);
            assert(spec_config_children(rest@).len() == 0);
            assert(styles@ == spec_config_styles(cfgs));
            assert(children@ == spec_config_children(cfgs));
        }
        PanelBuilder { component: Component::new(ctx, Type::Panel, styles, children) }
    }

    /// The assembled panel.
    pub fn build(self) -> (c: Component)
        ensures
            c == self.component,
    {
        self.component
    }
}

/// Assembles a button.
pub struct ButtonBuilder {
    pub styles: Vec<FlexStyle>,
}

impl ButtonBuilder {
    pub fn new(styles: Vec<FlexStyle>) -> (b: ButtonBuilder)
        ensures
            b.styles == styles,
    {
        ButtonBuilder { styles }
    }

    pub fn build(self, ctx: &mut BuildContext) -> (c: Component)
        ensures
            c.id.value == old(ctx).spec_next(),
            final(ctx).spec_next() >= old(ctx).spec_next(),
            old(ctx).spec_next() < u64::MAX ==> final(ctx).spec_next() == old(ctx).spec_next()
                + 1,
            c.component_type == Type::Button,
            c.styles == self.styles,
            c.children@ == Seq::<Component>::empty(),
            c.data_bag.spec_entries() == Seq::<(u64, Caption)>::empty(),
    {
        Component::new(ctx, Type::Button, self.styles, Vec::new())
    }
}

/// Assembles a splitter.
pub struct SplitterBuilder {
    pub styles: Vec<FlexStyle>,
}

impl SplitterBuilder {
    pub fn new(styles: Vec<FlexStyle>) -> (b: SplitterBuilder)
        ensures
            b.styles == styles,
    {
        SplitterBuilder { styles }
    }

    pub fn build(self, ctx: &mut BuildContext) -> (c: Component)
        ensures
            c.id.value == old(ctx).spec_next(),
            final(ctx).spec_next() >= old(ctx).spec_next(),
            old(ctx).spec_next() < u64::MAX ==> final(ctx).spec_next() == old(ctx).spec_next()
                + 1,
            c.component_type == Type::Splitter,
            c.styles == self.styles,
            c.children@ == Seq::<Component>::empty(),
            c.data_bag.spec_entries() == Seq::<(u64, Caption)>::empty(),
    {
        Component::new(ctx, Type::Splitter, self.styles, Vec::new())
    }
}

/// Assembles a label with a caption.
pub struct LabelBuilder {
    pub caption: &'static str,
}

impl LabelBuilder {
    pub fn new() -> (b: LabelBuilder)
        ensures
            b.caption@ == "Untitled"@,
    {
        LabelBuilder { caption: "Untitled" }
    }

    pub fn caption(self, caption: &'static str) -> (b: LabelBuilder)
        ensures
            b.caption == caption,
    {
        LabelBuilder { caption }
    }

    pub fn build(self, ctx: &mut BuildContext) -> (c: Component)
        ensures
            c.id.value == old(ctx).spec_next(),
            final(ctx).spec_next() >= old(ctx).spec_next(),
            old(ctx).spec_next() < u64::MAX ==> final(ctx).spec_next() == old(ctx).spec_next()
                + 1,
            c.component_type == Type::Label,
            c.data_bag.spec_get(CAPTION_TOKEN) matches Some(cap) && cap.caption == self.caption,
            c.styles@ == Seq::<FlexStyle>::empty(),
            c.children@ == Seq::<Component>::empty(),
    {
        let mut c = Component::new(ctx, Type::Label, Vec::new(), Vec::new());
        c.data_bag.put(CAPTION_TOKEN, Caption { caption: self.caption });
        c
    }
}

/// The captioned capability of label components.
pub trait Label {
    fn get_caption(&self) -> Option<&Caption>;
}

impl Label for Component {
    /// The caption stored in the component's data bag, if any.
    fn get_caption(&self) -> Option<&Caption> {
        self.data_bag.get(CAPTION_TOKEN)
    }
}

} // verus!
