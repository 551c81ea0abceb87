//! The component model: identities, the component tree, typed event dispatch,
//! and the capabilities an application supplies (state, handlers, render
//! delegates).
//!
//! A [`Component`] carries an identity, an optional name, the stable string
//! identifier of its render delegate, a style list, a callback table keyed by
//! event-type token, and an ordered list of child components. Handlers are
//! registered as plain `(event token, handler key)` pairs and dispatched
//! through a [`Handler`] implementation supplied by the application, so the
//! routing decision itself is fully specified here while the handler bodies
//! stay with the application.

use vstd::prelude::*;
use crate::geometry::{Color, Layout};
use crate::styles::FlexStyle;

verus! {

broadcast use vstd::std_specs::vec::group_vec_axioms;

/// A component identity: unique among all ids drawn from one [`BuildContext`].
#[derive(Clone, Copy, Debug, PartialEq, Eq, Hash, Structural)]
pub struct ComponentId {
    pub value: u64,
}

/// Hands out component identities for one process run.
///
/// The counter only moves forward, so no two draws below `u64::MAX` return the
/// same id (see [`lemma_fresh_ids_distinct`]).
pub struct BuildContext {
    next_id: u64,
}

impl BuildContext {
    /// The next id this context will hand out.
    pub closed spec fn spec_next(&self) -> u64 {
        self.next_id
    }

    pub fn new() -> (ctx: BuildContext)
        ensures
            ctx.spec_next() == 0,
    {
        BuildContext { next_id: 0 }
    }

    /// Draws a fresh component id. The counter saturates at `u64::MAX`;
    /// below that it strictly increases, which makes the ids unique.
    pub fn fresh_id(&mut self) -> (id: ComponentId)
        ensures
            id.value == old(self).spec_next(),
            old(self).spec_next() < u64::MAX ==> final(self).spec_next() == old(self).spec_next() + 1,
            old(self).spec_next() == u64::MAX ==> final(self).spec_next() == u64::MAX,
            final(self).spec_next() >= old(self).spec_next(),
    {
        let id = ComponentId { value: self.next_id };
        if self.next_id < u64::MAX {
            self.next_id = self.next_id + 1;
        }
        id
    }
}

/// Component identities are unique within a run: an id drawn after the
/// context's counter has moved past an earlier id differs from it.
pub proof fn lemma_fresh_ids_distinct(first: ComponentId, later: BuildContext, second: ComponentId)
    requires
        first.value < later.spec_next(),
        second.value == later.spec_next(),
    ensures
        first != second,
{
}

/// What went wrong while dispatching an event to a component.
#[derive(Clone, Copy, Debug, PartialEq, Eq, Structural)]
pub enum InvocationErrorKind {
    /// No handler is registered for the event's type token.
    Routing,
    /// The application's own handler reported a failure.
    UserHandler,
}

/// Returned by [`Component::invoke`] when an event could not produce a new state.
#[derive(Clone, Copy, Debug, PartialEq, Eq, Structural)]
pub struct InvocationError {
    pub kind: InvocationErrorKind,
}

/// Reported by an application handler that declines to produce a new state.
#[derive(Clone, Copy, Debug, PartialEq, Eq, Structural)]
pub struct UserHandlerError;

/// A drawable primitive emitted by render traversal.
#[derive(Clone, Copy, Debug, PartialEq, Eq, Structural)]
pub enum RenderElement {
    Rect(Layout, Color),
}

/// An application event value, tagged with a token that identifies its type.
///
/// The token plays the role a type identifier plays in a dynamically typed
/// callback table: handlers are registered under a token and an event is
/// routed to the handler registered under its own token. The token must be a
/// function of the event's type alone.
pub trait Event {
    /// The event type's token. Left at its default, it promises nothing; an
    /// implementation verified against this trait gives it the type's token.
    open spec fn token_spec(&self) -> u64 {
        arbitrary()
    }

    fn type_token(&self) -> (t: u64)
        ensures
            t == self.token_spec(),
    ;
}

/// The application's handler table: called with the key under which a handler
/// was registered, the current state and the event, it returns the new state
/// or declines.
///
/// A handler is a function of its inputs: what `call` answers depends on the
/// table, the key, the state value and the event value alone, never on
/// anything it mutates (it borrows the state and event, and returns a fresh
/// state).
pub trait Handler<S, E> {
    /// What the table answers for a key, state and event. Left at its
    /// default, it promises nothing; an implementation verified against this
    /// trait gives the answer as a function of the inputs.
    open spec fn call_spec(&self, key: u64, state: S, event: E) -> Result<S, UserHandlerError> {
        arbitrary()
    }

    fn call(&self, key: u64, state: &S, event: &E) -> (r: Result<S, UserHandlerError>)
        ensures
            r == self.call_spec(key, *state, *event),
    ;
}

/// An application state: a cloneable value that can materialize the component
/// tree that displays it.
///
/// `build` must be a pure function of the state value: the shape of the tree
/// it returns (render delegates, names, style lists, callback tables and
/// child counts, in depth-first pre-order) depends on `self` alone, even
/// though the component ids differ from build to build. Within any one built
/// tree, each component's id appears exactly once.
pub trait State: Sized + Clone {
    /// The shape of the tree `build` produces for this state. Left at its
    /// default, it promises nothing; an implementation verified against this
    /// trait gives the shape as a function of the state value.
    open spec fn shape_spec(&self) -> Seq<ShapeNode> {
        arbitrary()
    }

    fn build(&self, ctx: &mut BuildContext) -> (c: Component)
        ensures
            spec_shape(c) == self.shape_spec(),
            spec_ids_distinct(c),
    ;
}

/// A render-delegate registry: given a delegate's stable string identifier and
/// the component's computed rectangle, it returns the primitives the delegate
/// paints for the component itself (children are traversed by the caller).
pub trait Renderer {
    /// The primitives the delegate paints, as a function of the delegate id
    /// and bounds alone. Left at its default, it promises nothing.
    open spec fn render_spec(&self, renderer: Seq<char>, bounds: Layout) -> Seq<RenderElement> {
        arbitrary()
    }

    fn render(&self, renderer: &str, bounds: Layout) -> (r: Vec<RenderElement>)
        ensures
            r@ == self.render_spec(renderer@, bounds),
    ;
}

/// One node of a tree's shape: everything [`State::build`] determines about a
/// component except its identity — its render delegate, name, style list,
/// callback table and child count.
pub ghost struct ShapeNode {
    pub renderer: Seq<char>,
    pub name: Option<Seq<char>>,
    pub styles: Seq<FlexStyle>,
    pub callbacks: Seq<(u64, u64)>,
    pub child_count: nat,
}

/// A node in the user-interface description tree.
pub struct Component {
    pub id: ComponentId,
    pub name: Option<String>,
    pub renderer: String,
    pub children: Vec<Component>,
    pub callbacks: Vec<(u64, u64)>,
    pub styles: Vec<FlexStyle>,
}

/// All components of the subtree rooted at `c`, in depth-first pre-order.
pub open spec fn spec_nodes(c: Component) -> Seq<Component>
    decreases c,
{
    seq![c] + spec_forest_nodes(c.children@)
}

/// The components of a forest, each subtree flattened in pre-order, in order.
pub open spec fn spec_forest_nodes(s: Seq<Component>) -> Seq<Component>
    decreases s,
{
    if s.len() == 0 {
        Seq::empty()
    } else {
        spec_nodes(s[0]) + spec_forest_nodes(s.drop_first())
    }
}

/// The shape of the subtree rooted at `c`, in depth-first pre-order.
pub open spec fn spec_shape(c: Component) -> Seq<ShapeNode>
    decreases c,
{
    seq![shape_of(c)] + spec_forest_shape(c.children@)
}

/// The shape of a forest, subtree by subtree.
pub open spec fn spec_forest_shape(s: Seq<Component>) -> Seq<ShapeNode>
    decreases s,
{
    if s.len() == 0 {
        Seq::empty()
    } else {
        spec_shape(s[0]) + spec_forest_shape(s.drop_first())
    }
}

/// The shape entry of a single component.
pub open spec fn shape_of(c: Component) -> ShapeNode {
    ShapeNode {
        renderer: c.renderer@,
        name: match c.name {
            Some(n) => Some(n@),
            None => None,
        },
        styles: c.styles@,
        callbacks: c.callbacks@,
        child_count: c.children@.len(),
    }
}

/// Whether every component of the subtree rooted at `c` has its own
/// identity: no id occurs at two pre-order positions.
pub open spec fn spec_ids_distinct(c: Component) -> bool {
    forall|i: int, j: int|
        0 <= i < j < spec_nodes(c).len() ==> #[trigger] spec_nodes(c)[i].id
            != #[trigger] spec_nodes(c)[j].id
}

/// Appending a tree to a forest appends its nodes to the forest's flattening.
pub proof fn lemma_forest_nodes_push(s: Seq<Component>, x: Component)
    ensures
        spec_forest_nodes(s.push(x)) == spec_forest_nodes(s) + spec_nodes(x),
    decreases s,
{
    if s.len() == 0 {
        assert(s.push(x)[0] == x);
        assert(s.push(x).drop_first() =~= Seq::<Component>::empty());
        assert(spec_forest_nodes(Seq::<Component>::empty()) == Seq::<Component>::empty());
        assert(spec_forest_nodes(s.push(x)) == spec_nodes(x) + Seq::<Component>::empty());
        assert(spec_nodes(x) + Seq::<Component>::empty() =~= spec_nodes(x));
        assert(spec_forest_nodes(s) + spec_nodes(x) =~= spec_nodes(x));
    } else {
        assert(s.push(x)[0] == s[0]);
        assert(s.push(x).drop_first() =~= s.drop_first().push(x));
        lemma_forest_nodes_push(s.drop_first(), x);
        assert(spec_nodes(s[0]) + (spec_forest_nodes(s.drop_first()) + spec_nodes(x)) =~= (
        spec_nodes(s[0]) + spec_forest_nodes(s.drop_first())) + spec_nodes(x));
    }
}

/// A tree with no children flattens to itself alone.
pub proof fn lemma_nodes_of_leaf(c: Component)
    requires
        c.children@.len() == 0,
    ensures
        spec_nodes(c) == seq![c],
{
    assert(spec_forest_nodes(c.children@).len() == 0);
    assert(spec_nodes(c) =~= seq![c]);
}

/// A childless component's id appears only once in its subtree.
pub proof fn lemma_ids_distinct_leaf(c: Component)
    requires
        c.children@.len() == 0,
    ensures
        spec_ids_distinct(c),
{
    lemma_nodes_of_leaf(c);
}

/// Appending a child subtree keeps ids distinct, provided both subtrees have
/// distinct ids of their own and share none — as when the child's ids were
/// all drawn after the parent's from one [`BuildContext`].
pub proof fn lemma_ids_distinct_after_child(
    parent: Component,
    child: Component,
    combined: Component,
)
    requires
        combined.id == parent.id,
        combined.children@ == parent.children@.push(child),
        spec_ids_distinct(parent),
        spec_ids_distinct(child),
        forall|i: int, j: int|
            0 <= i < spec_nodes(parent).len() && 0 <= j < spec_nodes(child).len()
                ==> #[trigger] spec_nodes(parent)[i].id != #[trigger] spec_nodes(child)[j].id,
    ensures
        spec_ids_distinct(combined),
{
    lemma_forest_nodes_push(parent.children@, child);
    let pn = spec_nodes(parent);
    let cn = spec_nodes(child);
    let all = spec_nodes(combined);
    assert(all == seq![combined] + (spec_forest_nodes(parent.children@) + cn));
    assert(all.len() == pn.len() + cn.len());
    assert forall|i: int| 0 <= i < pn.len() implies #[trigger] all[i].id == pn[i].id by {
        if i == 0 {
            assert(all[0] == combined);
            assert(pn[0] == parent);
        } else {
            assert(pn[i] == spec_forest_nodes(parent.children@)[i - 1]);
            assert(all[i] == spec_forest_nodes(parent.children@)[i - 1]);
        }
    }
    assert forall|j: int| 0 <= j < cn.len() implies #[trigger] all[pn.len() + j] == cn[j] by {}
    assert forall|i: int, j: int| 0 <= i < j < all.len() implies all[i].id != all[j].id by {
        if j < pn.len() {
            assert(pn[i].id != pn[j].id);
            assert(all[i].id == pn[i].id);
            assert(all[j].id == pn[j].id);
        } else if i >= pn.len() {
            assert(all[i] == cn[i - pn.len()]);
            assert(all[j] == cn[j - pn.len()]);
            assert(cn[i - pn.len()].id != cn[j - pn.len()].id);
        } else {
            assert(all[i].id == pn[i].id);
            assert(all[j] == cn[j - pn.len()]);
            assert(pn[i].id != cn[j - pn.len()].id);
        }
    }
}

/// Two builds of one state produce trees of equal shape, component ids aside.
pub proof fn lemma_build_deterministic<S: State>(s: S, c1: Component, c2: Component)
    requires
        spec_shape(c1) == s.shape_spec(),
        spec_shape(c2) == s.shape_spec(),
    ensures
        spec_shape(c1) == spec_shape(c2),
{
}

/// The first component of the subtree rooted at `c`, in depth-first
/// pre-order, whose name is `name`.
pub open spec fn spec_find_by_name(c: Component, name: Seq<char>) -> Option<Component>
    decreases c,
{
    if c.name matches Some(n) && n@ == name {
        Some(c)
    } else {
        spec_find_by_name_in(c.children@, name)
    }
}

/// The first match over a forest, searching each subtree in order.
pub open spec fn spec_find_by_name_in(s: Seq<Component>, name: Seq<char>) -> Option<Component>
    decreases s,
{
    if s.len() == 0 {
        None
    } else {
        match spec_find_by_name(s[0], name) {
            Some(f) => Some(f),
            None => spec_find_by_name_in(s.drop_first(), name),
        }
    }
}

/// The handler key registered under `token`, scanning the table front to back.
pub open spec fn spec_lookup(cbs: Seq<(u64, u64)>, token: u64) -> Option<u64>
    decreases cbs.len(),
{
    if cbs.len() == 0 {
        None
    } else if cbs[0].0 == token {
        Some(cbs[0].1)
    } else {
        spec_lookup(cbs.drop_first(), token)
    }
}

/// The callback table after registering `key` under `token`: the first entry
/// for `token` is replaced, or a new entry is appended.
pub open spec fn spec_register(cbs: Seq<(u64, u64)>, token: u64, key: u64) -> Seq<(u64, u64)>
    decreases cbs.len(),
{
    if cbs.len() == 0 {
        seq![(token, key)]
    } else if cbs[0].0 == token {
        seq![(token, key)] + cbs.drop_first()
    } else {
        seq![cbs[0]] + spec_register(cbs.drop_first(), token, key)
    }
}

impl Component {
    /// Creates a leaf component with a fresh id, the given render delegate
    /// identifier, and no name, styles, children or handlers.
    pub fn new(ctx: &mut BuildContext, renderer: &str) -> (c: Component)
        ensures
            c.id.value == old(ctx).spec_next(),
            final(ctx).spec_next() >= old(ctx).spec_next(),
            old(ctx).spec_next() < u64::MAX ==> final(ctx).spec_next() == old(ctx).spec_next() + 1,
            c.renderer@ == renderer@,
            c.name is None,
            c.children@ == Seq::<Component>::empty(),
            c.callbacks@ == Seq::<(u64, u64)>::empty(),
            c.styles@ == Seq::<FlexStyle>::empty(),
    {
        Component {
            id: ctx.fresh_id(),
            name: None,
            renderer: renderer.to_owned(),
            children: Vec::new(),
            callbacks: Vec::new(),
            styles: Vec::new(),
        }
    }

    /// Sets the component's name.
    pub fn name(self, name: &str) -> (r: Component)
        ensures
            r.name matches Some(n) && n@ == name@,
            r.id == self.id,
            r.renderer == self.renderer,
            r.children == self.children,
            r.callbacks == self.callbacks,
            r.styles == self.styles,
    {
        Component { name: Some(name.to_owned()), ..self }
    }

    /// Appends one child.
    pub fn child(self, child: Component) -> (r: Component)
        ensures
            r.children@ == self.children@.push(child),
            r.id == self.id,
            r.name == self.name,
            r.renderer == self.renderer,
            r.callbacks == self.callbacks,
            r.styles == self.styles,
    {
        let mut r = self;
        r.children.push(child);
        r
    }

    /// Appends children, keeping their order.
    pub fn children(self, children: Vec<Component>) -> (r: Component)
        ensures
            r.children@ == self.children@ + children@,
            r.id == self.id,
            r.name == self.name,
            r.renderer == self.renderer,
            r.callbacks == self.callbacks,
            r.styles == self.styles,
    {
        let mut r = self;
        let mut rest = children;
        r.children.append(&mut rest);
        r
    }

    /// Appends one style attribute.
    pub fn style(self, style: FlexStyle) -> (r: Component)
        ensures
            r.styles@ == self.styles@.push(style),
            r.id == self.id,
            r.name == self.name,
            r.renderer == self.renderer,
            r.children == self.children,
            r.callbacks == self.callbacks,
    {
        let mut r = self;
        r.styles.push(style);
        r
    }

    /// Appends style attributes, keeping their order.
    pub fn styles(self, styles: Vec<FlexStyle>) -> (r: Component)
        ensures
            r.styles@ == self.styles@ + styles@,
            r.id == self.id,
            r.name == self.name,
            r.renderer == self.renderer,
            r.children == self.children,
            r.callbacks == self.callbacks,
    {
        let mut r = self;
        let mut rest = styles;
        r.styles.append(&mut rest);
        r
    }

    /// Registers a handler for the event type `token`: the handler key is
    /// stored in the callback table, replacing any earlier entry for `token`.
    pub fn on(self, token: u64, key: u64) -> (r: Component)
        ensures
            r.callbacks@ == spec_register(self.callbacks@, token, key),
            r.id == self.id,
            r.name == self.name,
            r.renderer == self.renderer,
            r.children == self.children,
            r.styles == self.styles,
    {
        let mut r = self;
        let ghost cbs = r.callbacks@;
        proof {
            assert(cbs.skip(0) == cbs);
            assert(cbs.take(0) + spec_register(cbs.skip(0), token, key) == spec_register(
                cbs,
                token,
                key,
            ));
        }
        let mut i: usize = 0;
        while i < r.callbacks.len()
            invariant
                i <= cbs.len(),
                r.callbacks@ == cbs,
                forall|j: int| 0 <= j < i ==> cbs[j].0 != token,
                spec_register(cbs, token, key) == cbs.take(i as int) + spec_register(
                    cbs.skip(i as int),
                    token,
                    key,
                ),
                r.id == self.id,
                r.name == self.name,
                r.renderer == self.renderer,
                r.children == self.children,
                r.styles == self.styles,
            decreases cbs.len() - i,
        {
            let (t, _) = r.callbacks[i];
            if t == token {
                r.callbacks.set(i, (token, key));
                proof {
                    assert(cbs.skip(i as int)[0] == cbs[i as int]);
                    assert(cbs.skip(i as int).drop_first() == cbs.skip(i + 1));
                    assert(spec_register(cbs.skip(i as int), token, key) == seq![(token, key)]
                        + cbs.skip(i + 1));
                    assert(r.callbacks@ == cbs.take(i as int) + (seq![(token, key)] + cbs.skip(
                        i + 1,
                    )));
                }
                return r;
            }
            proof {
                assert(cbs.skip(i as int)[0] == cbs[i as int]);
                assert(cbs.skip(i as int).drop_first() == cbs.skip(i + 1));
                assert(spec_register(cbs.skip(i as int), token, key) == seq![cbs[i as int]]
                    + spec_register(cbs.skip(i + 1), token, key));
                assert(cbs.take(i as int) + (seq![cbs[i as int]] + spec_register(
                    cbs.skip(i + 1),
                    token,
                    key,
                )) == cbs.take(i + 1) + spec_register(cbs.skip(i + 1), token, key));
            }
            i = i + 1;
        }
        proof {
            assert(cbs.skip(cbs.len() as int).len() == 0);
            assert(spec_register(cbs.skip(cbs.len() as int), token, key) == seq![(token, key)]);
            assert(cbs.take(cbs.len() as int) + seq![(token, key)] == cbs.push((token, key)));
        }
        r.callbacks.push((token, key));
        r
    }

    /// A read-only view of the component for inspection.
    pub fn inspect(&self) -> (r: InspectableComponent)
        ensures
            r.component == self,
    {
        InspectableComponent { component: self }
    }

    /// Looks up the handler key registered for `token`.
    fn lookup_callback(&self, token: u64) -> (r: Option<u64>)
        ensures
            r == spec_lookup(self.callbacks@, token),
    {
        let ghost cbs = self.callbacks@;
        proof {
            assert(cbs.skip(0) == cbs);
        }
        let mut i: usize = 0;
        while i < self.callbacks.len()
            invariant
                i <= cbs.len(),
                self.callbacks@ == cbs,
                spec_lookup(cbs, token) == spec_lookup(cbs.skip(i as int), token),
            decreases cbs.len() - i,
        {
            let (t, k) = self.callbacks[i];
            proof {
                assert(cbs.skip(i as int)[0] == cbs[i as int]);
                assert(cbs.skip(i as int).drop_first() == cbs.skip(i + 1));
            }
            if t == token {
                return Some(k);
            }
            i = i + 1;
        }
        None
    }

    /// Dispatches `event` to the handler registered for its type token.
    ///
    /// Returns a routing error exactly when no handler is registered for the
    /// token; otherwise the registered handler decides: its new state is
    /// passed through unchanged, and its failure is reported as a
    /// user-handler error. Because state and event types are fixed by the
    /// call itself, the typed table has no failing downcast: a mismatched
    /// registration can only surface as a key the application's handler table
    /// declines.
    pub fn invoke<S: State, E: Event, H: Handler<S, E>>(
        &self,
        handlers: &H,
        state: &S,
        event: &E,
    ) -> (r: Result<S, InvocationError>)
        ensures
            spec_lookup(self.callbacks@, event.token_spec()) is None <==> r == (Err::<
                S,
                InvocationError,
            >(InvocationError { kind: InvocationErrorKind::Routing })),
            spec_lookup(self.callbacks@, event.token_spec()) matches Some(key) ==> r == (match
                handlers.call_spec(key, *state, *event) {
                Ok(new_state) => Ok::<S, InvocationError>(new_state),
                Err(_) => Err::<S, InvocationError>(
                    InvocationError { kind: InvocationErrorKind::UserHandler },
                ),
            }),
    {
        let token = event.type_token();
        match self.lookup_callback(token) {
            None => Err(InvocationError { kind: InvocationErrorKind::Routing }),
            Some(key) => match handlers.call(key, state, event) {
                Ok(new_state) => Ok(new_state),
                Err(_) => Err(InvocationError { kind: InvocationErrorKind::UserHandler }),
            },
        }
    }

    /// Returns the first component in depth-first pre-order whose name is
    /// `name`, or `None`.
    pub fn find_by_name<'a>(&'a self, name: &str) -> (r: Option<&'a Component>)
        ensures
            match r {
                Some(f) => spec_find_by_name(*self, name@) == Some(*f),
                None => spec_find_by_name(*self, name@) is None,
            },
    {
        let owned: String = name.to_owned();
        self.find_by_name_impl(&owned)
    }

    fn find_by_name_impl<'a>(&'a self, name: &String) -> (r: Option<&'a Component>)
        ensures
            match r {
                Some(f) => spec_find_by_name(*self, name@) == Some(*f),
                None => spec_find_by_name(*self, name@) is None,
            },
        decreases *self,
    {
        if let Some(n) = &self.name {
            if n.eq(name) {
                return Some(self);
            }
        }
        let ghost kids = self.children@;
        proof {
            assert(kids.skip(0) == kids);
        }
        let mut i: usize = 0;
        while i < self.children.len()
            invariant
                i <= kids.len(),
                self.children@ == kids,
                !(self.name matches Some(n) && n@ == name@),
                spec_find_by_name_in(kids, name@) == spec_find_by_name_in(
                    kids.skip(i as int),
                    name@,
                ),
            decreases kids.len() - i,
        {
            proof {
                assert(kids.skip(i as int)[0] == kids[i as int]);
                assert(kids.skip(i as int).drop_first() == kids.skip(i + 1));
            }
            if let Some(f) = self.children[i].find_by_name_impl(name) {
                return Some(f);
            }
            i = i + 1;
        }
        proof {
            assert(kids.skip(kids.len() as int).len() == 0);
        }
        None
    }
}

/// A read-only inspection view of a [`Component`].
pub struct InspectableComponent<'a> {
    pub component: &'a Component,
}

impl<'a> InspectableComponent<'a> {
    pub fn id(&self) -> (r: &'a ComponentId)
        ensures
            r == self.component.id,
    {
        &self.component.id
    }

    pub fn name(&self) -> (r: &'a Option<String>)
        ensures
            r == self.component.name,
    {
        &self.component.name
    }

    pub fn renderer(&self) -> (r: &'a String)
        ensures
            r == self.component.renderer,
    {
        &self.component.renderer
    }

    pub fn children(&self) -> (r: &'a Vec<Component>)
        ensures
            r == self.component.children,
    {
        &self.component.children
    }

    pub fn styles(&self) -> (r: &'a Vec<FlexStyle>)
        ensures
            r == self.component.styles,
    {
        &self.component.styles
    }

    pub fn callbacks(&self) -> (r: &'a Vec<(u64, u64)>)
        ensures
            r == self.component.callbacks,
    {
        &self.component.callbacks
    }
}

/// Whether a component's name is `name`.
pub open spec fn name_matches(c: Component, name: Seq<char>) -> bool {
    c.name matches Some(n) && n@ == name
}

/// Looking up by name answers the first component in depth-first pre-order
/// whose name matches: the answer sits at a pre-order position before which
/// nothing matches, and a `None` answer means no position matches.
pub proof fn lemma_find_by_name_first(c: Component, name: Seq<char>)
    ensures
        match spec_find_by_name(c, name) {
            Some(f) => exists|i: int|
                {
                    &&& 0 <= i < spec_nodes(c).len()
                    &&& #[trigger] spec_nodes(c)[i] == f
                    &&& name_matches(f, name)
                    &&& forall|j: int|
                        0 <= j < i ==> !name_matches(#[trigger] spec_nodes(c)[j], name)
                },
            None => forall|i: int|
                0 <= i < spec_nodes(c).len() ==> !name_matches(#[trigger] spec_nodes(c)[i], name),
        },
    decreases c,
{
    let nodes = spec_nodes(c);
    let kids = c.children@;
    let rest = spec_forest_nodes(kids);
    assert(nodes[0] == c);
    assert(forall|j: int| 0 <= j < rest.len() ==> nodes[j + 1] == #[trigger] rest[j]);
    if name_matches(c, name) {
        assert(spec_find_by_name(c, name) == Some(c));
        assert({
            &&& 0 <= 0 < nodes.len()
            &&& nodes[0] == c
            &&& name_matches(c, name)
            &&& forall|j: int| 0 <= j < 0 ==> !name_matches(#[trigger] nodes[j], name)
        });
    } else {
        lemma_find_by_name_in_first(kids, name);
        match spec_find_by_name_in(kids, name) {
            Some(f) => {
                let i = choose|i: int|
                    {
                        &&& 0 <= i < rest.len()
                        &&& #[trigger] rest[i] == f
                        &&& name_matches(f, name)
                        &&& forall|j: int| 0 <= j < i ==> !name_matches(#[trigger] rest[j], name)
                    };
                assert(nodes[i + 1] == f);
                assert(forall|j: int|
                    0 <= j < i + 1 ==> !name_matches(#[trigger] nodes[j], name)) by {
                    assert(forall|j: int|
                        1 <= j < i + 1 ==> #[trigger] nodes[j] == rest[j - 1]);
                }
                assert({
                    &&& 0 <= i + 1 < nodes.len()
                    &&& nodes[i + 1] == f
                    &&& name_matches(f, name)
                    &&& forall|j: int| 0 <= j < i + 1 ==> !name_matches(#[trigger] nodes[j], name)
                });
            },
            None => {
                assert(forall|i: int|
                    0 <= i < nodes.len() ==> !name_matches(#[trigger] nodes[i], name)) by {
                    assert(forall|i: int| 1 <= i < nodes.len() ==> #[trigger] nodes[i] == rest[i - 1]);
                }
            },
        }
    }
}

/// The forest version of [`lemma_find_by_name_first`], over the forest's
/// pre-order node sequence.
proof fn lemma_find_by_name_in_first(s: Seq<Component>, name: Seq<char>)
    ensures
        match spec_find_by_name_in(s, name) {
            Some(f) => exists|i: int|
                {
                    &&& 0 <= i < spec_forest_nodes(s).len()
                    &&& #[trigger] spec_forest_nodes(s)[i] == f
                    &&& name_matches(f, name)
                    &&& forall|j: int|
                        0 <= j < i ==> !name_matches(#[trigger] spec_forest_nodes(s)[j], name)
                },
            None => forall|i: int|
                0 <= i < spec_forest_nodes(s).len() ==> !name_matches(
                    #[trigger] spec_forest_nodes(s)[i],
                    name,
                ),
        },
    decreases s,
{
    if s.len() == 0 {
    } else {
        let all = spec_forest_nodes(s);
        let head = spec_nodes(s[0]);
        let rest = spec_forest_nodes(s.drop_first());
        assert(all == head + rest);
        assert(forall|j: int| 0 <= j < head.len() ==> #[trigger] all[j] == head[j]);
        assert(forall|j: int|
            0 <= j < rest.len() ==> #[trigger] rest[j] == all[j + head.len()]);
        lemma_find_by_name_first(s[0], name);
        match spec_find_by_name(s[0], name) {
            Some(f) => {
                let i = choose|i: int|
                    {
                        &&& 0 <= i < head.len()
                        &&& #[trigger] head[i] == f
                        &&& name_matches(f, name)
                        &&& forall|j: int| 0 <= j < i ==> !name_matches(#[trigger] head[j], name)
                    };
                assert(all[i] == f);
                assert(forall|j: int| 0 <= j < i ==> !name_matches(#[trigger] all[j], name));
                assert({
                    &&& 0 <= i < all.len()
                    &&& all[i] == f
                    &&& name_matches(f, name)
                    &&& forall|j: int| 0 <= j < i ==> !name_matches(#[trigger] all[j], name)
                });
            },
            None => {
                lemma_find_by_name_in_first(s.drop_first(), name);
                match spec_find_by_name_in(s.drop_first(), name) {
                    Some(f) => {
                        let i = choose|i: int|
                            {
                                &&& 0 <= i < rest.len()
                                &&& #[trigger] rest[i] == f
                                &&& name_matches(f, name)
                                &&& forall|j: int|
                                    0 <= j < i ==> !name_matches(#[trigger] rest[j], name)
                            };
                        assert(all[i + head.len()] == f);
                        assert(forall|j: int|
                            0 <= j < i + head.len() ==> !name_matches(
                                #[trigger] all[j],
                                name,
                            )) by {
                            assert(forall|j: int|
                                head.len() <= j < i + head.len() ==> #[trigger] all[j] == rest[j
                                    - head.len()]);
                        }
                        assert({
                            &&& 0 <= i + head.len() < all.len()
                            &&& all[i + head.len()] == f
                            &&& name_matches(f, name)
                            &&& forall|j: int|
                                0 <= j < i + head.len() ==> !name_matches(
                                    #[trigger] all[j],
                                    name,
                                )
                        });
                    },
                    None => {
                        assert(forall|i: int|
                            0 <= i < all.len() ==> !name_matches(#[trigger] all[i], name)) by {
                            assert(forall|i: int|
                                head.len() <= i < all.len() ==> #[trigger] all[i] == rest[i
                                    - head.len()]);
                        }
                    },
                }
            },
        }
    }
}

/// Registering a handler makes it the one that lookup finds for its token,
/// and leaves every other token's handler unchanged.
pub proof fn lemma_register_lookup(cbs: Seq<(u64, u64)>, token: u64, key: u64, other: u64)
    ensures
        spec_lookup(spec_register(cbs, token, key), token) == Some(key),
        other != token ==> spec_lookup(spec_register(cbs, token, key), other) == spec_lookup(
            cbs,
            other,
        ),
    decreases cbs.len(),
{
    if cbs.len() == 0 {
        assert(spec_register(cbs, token, key) == seq![(token, key)]);
    } else if cbs[0].0 == token {
        let r = spec_register(cbs, token, key);
        assert(r == seq![(token, key)] + cbs.drop_first());
        assert(r[0] == (token, key));
        assert(r.drop_first() == cbs.drop_first());
    } else {
        let r = spec_register(cbs, token, key);
        assert(r == seq![cbs[0]] + spec_register(cbs.drop_first(), token, key));
        assert(r[0] == cbs[0]);
        assert(r.drop_first() == spec_register(cbs.drop_first(), token, key));
        lemma_register_lookup(cbs.drop_first(), token, key, other);
    }
}

} // verus!
