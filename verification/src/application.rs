//! The state driver: owns the current application state, the component tree
//! built from it, and the layout context; routes pointer interactions through
//! hit-testing to the struck component's handler; and replaces the state and
//! rebuilds the tree when a handler succeeds.
//!
//! Each event is one atomic step: the collaborator's event loop feeds
//! [`Application::handle_event`] one event at a time and performs the
//! [`Action`] it answers.

use vstd::prelude::*;
use crate::events::{Event, Interaction};
use crate::geometry::{Layout, Size};
use crate::layout_context::{
    covered, spec_find_at, spec_layout_of, spec_render, LayoutContext, LayoutSolver, SolverError,
};
use crate::model::{
    spec_ids_distinct, spec_lookup, spec_shape, BuildContext, Component, Handler,
    InvocationError, InvocationErrorKind, RenderElement, Renderer, State,
};
use crate::model::Event as EventCapability;
use crate::styles::Direction;
use crate::window::Epoch;

verus! {

/// What the collaborator's loop should do after a driver step.
#[derive(Clone, Copy, Debug, PartialEq, Eq, Structural)]
pub enum Action {
    /// Nothing: wait for the next event.
    Idle,
    /// The tree changed: generate and present a new frame.
    EmitFrame,
    /// The renderer finished a frame: swap it in.
    SwapFrame,
    /// Shut down.
    Quit,
}

/// The driver: the single owner of the application state and of the tree and
/// layout derived from it.
pub struct Application<S: State> {
    title: &'static str,
    state: S,
    tree: Option<Component>,
    layout_context: LayoutContext,
    build_context: BuildContext,
    epoch: Epoch,
}

impl<S: State> Application<S> {
    /// The current application state.
    pub closed spec fn spec_state(&self) -> S {
        self.state
    }

    /// The current component tree, if one has been built.
    pub closed spec fn spec_tree(&self) -> Option<Component> {
        self.tree
    }

    /// The rectangles of the latest layout pass, keyed by component id.
    pub closed spec fn spec_rects(&self) -> Map<u64, Layout> {
        self.layout_context.spec_rects()
    }

    /// The current frame epoch.
    pub closed spec fn spec_epoch(&self) -> u32 {
        self.epoch.0
    }

    /// The window title the application asked for.
    pub closed spec fn spec_title(&self) -> Seq<char> {
        self.title@
    }

    /// The driver's invariant: whenever a tree is installed, the layout
    /// context holds a rectangle for every component in it.
    pub open spec fn wf(&self) -> bool {
        match self.spec_tree() {
            Some(t) => covered(self.spec_rects(), t),
            None => true,
        }
    }

    /// Creates a driver holding `state`, with no tree built yet.
    pub fn new(title: &'static str, state: S) -> (app: Application<S>)
        ensures
            app.wf(),
            app.spec_title() == title@,
            app.spec_state() == state,
            app.spec_tree() is None,
            app.spec_epoch() == 0,
    {
        Application {
            title,
            state,
            tree: None,
            layout_context: LayoutContext::new(),
            build_context: BuildContext::new(),
            epoch: Epoch(0),
        }
    }

    /// The window title the application asked for.
    pub fn title(&self) -> (r: &'static str)
        ensures
            r@ == self.spec_title(),
    {
        self.title
    }

    /// The current application state.
    pub fn state(&self) -> (r: &S)
        ensures
            r == self.spec_state(),
    {
        &self.state
    }

    /// The current component tree.
    pub fn tree(&self) -> (r: &Option<Component>)
        ensures
            r == self.spec_tree(),
    {
        &self.tree
    }

    /// Installs `new_state` together with the tree built from it: the state
    /// is replaced by `new_state`, the tree by `tree`, and the layout is
    /// recomputed for viewport `size`.
    ///
    /// A solver failure is fatal to the cycle: the tree is dropped (the
    /// state stays replaced) and the error is passed on.
    pub fn install_tree<L: LayoutSolver>(
        &mut self,
        solver: &L,
        size: &Size,
        new_state: S,
        tree: Component,
    ) -> (r: Result<(), SolverError>)
        ensures
            final(self).wf(),
            final(self).spec_state() == new_state,
            final(self).spec_epoch() == old(self).spec_epoch(),
            match r {
                Ok(_) => final(self).spec_tree() == Some(tree) && spec_layout_of(
                    *solver,
                    tree,
                    *size,
                    Direction::LTR,
                ) == Some(final(self).spec_rects()),
                Err(_) => final(self).spec_tree() is None && spec_layout_of(
                    *solver,
                    tree,
                    *size,
                    Direction::LTR,
                ) is None,
            },
    {
        self.state = new_state;
        match self.layout_context.update_layout(solver, &tree, size) {
            Ok(_) => {
                self.tree = Some(tree);
                Ok(())
            },
            Err(e) => {
                self.tree = None;
                Err(e)
            },
        }
    }

    /// Builds the tree for `new_state` and installs both.
    ///
    /// On success the installed tree is the one `new_state` builds: its
    /// shape is `new_state.shape_spec()`, with every component id distinct.
    pub fn update_tree<L: LayoutSolver>(
        &mut self,
        solver: &L,
        size: &Size,
        new_state: S,
    ) -> (r: Result<(), SolverError>)
        ensures
            final(self).wf(),
            final(self).spec_state() == new_state,
            final(self).spec_epoch() == old(self).spec_epoch(),
            match r {
                Ok(_) => {
                    &&& final(self).spec_tree() matches Some(t)
                    &&& spec_shape(t) == new_state.shape_spec()
                    &&& spec_ids_distinct(t)
                },
                Err(_) => final(self).spec_tree() is None,
            },
    {
        let tree = new_state.build(&mut self.build_context);
        self.install_tree(solver, size, new_state, tree)
    }

    /// Routes a pointer interaction: hit-tests it against the current tree
    /// and dispatches it to the struck component's handler.
    ///
    /// A miss — no tree, or the point outside every rectangle — is a routing
    /// error, as is a struck component without a handler for interactions.
    pub fn handle_interaction<H: Handler<S, Interaction>>(
        &self,
        handlers: &H,
        interaction: Interaction,
    ) -> (r: Result<S, InvocationError>)
        requires
            self.wf(),
        ensures
            match self.spec_tree() {
                None => r == (Err::<S, InvocationError>(
                    InvocationError { kind: InvocationErrorKind::Routing },
                )),
                Some(t) => match spec_find_at(
                    self.spec_rects(),
                    t,
                    interaction.spec_point(),
                ) {
                    None => r == (Err::<S, InvocationError>(
                        InvocationError { kind: InvocationErrorKind::Routing },
                    )),
                    Some(struck) => {
                        &&& (spec_lookup(struck.callbacks@, interaction.token_spec()) is None
                            <==> r == (Err::<S, InvocationError>(
                            InvocationError { kind: InvocationErrorKind::Routing },
                        )))
                        &&& (spec_lookup(struck.callbacks@, interaction.token_spec())
                            matches Some(key) ==> r == (match handlers.call_spec(
                            key,
                            self.spec_state(),
                            interaction,
                        ) {
                            Ok(new_state) => Ok::<S, InvocationError>(new_state),
                            Err(_) => Err::<S, InvocationError>(
                                InvocationError { kind: InvocationErrorKind::UserHandler },
                            ),
                        }))
                    },
                },
            },
    {
        match &self.tree {
            None => Err(InvocationError { kind: InvocationErrorKind::Routing }),
            Some(t) => match self.layout_context.find_node_at(interaction.point(), t) {
                None => Err(InvocationError { kind: InvocationErrorKind::Routing }),
                Some(node) => node.invoke(handlers, &self.state, &interaction),
            },
        }
    }

    /// One step of the driver's state machine.
    ///
    /// Interactions are routed through [`Self::handle_interaction`]: on a
    /// miss, a missing handler or a declining handler the state and tree are
    /// untouched and the step answers `Idle`; when the struck component's
    /// handler answers a new state, that state is installed, the tree
    /// rebuilt from it, and a new frame requested (or, should the solver
    /// reject the rebuilt tree's styles, the error is passed on with the
    /// tree dropped). `NotifyRenderComplete` asks for a frame swap, closing
    /// events ask for shutdown, and everything else is ignored.
    pub fn handle_event<L: LayoutSolver, H: Handler<S, Interaction>>(
        &mut self,
        solver: &L,
        handlers: &H,
        size: &Size,
        event: Event,
    ) -> (r: Result<Action, SolverError>)
        requires
            old(self).wf(),
        ensures
            final(self).wf(),
            match event {
                Event::ApplicationClosed | Event::WindowClosed => r == (Ok::<Action, SolverError>(Action::Quit)) && *final(self) == *old(self),
                Event::NotifyRenderComplete => r == (Ok::<Action, SolverError>(Action::SwapFrame))
                    && *final(self) == *old(self),
                Event::Other => r == (Ok::<Action, SolverError>(Action::Idle)) && *final(self)
                    == *old(self),
                Event::Interaction(i) => {
                    &&& (match old(self).spec_tree() {
                        None => r == (Ok::<Action, SolverError>(Action::Idle)) && *final(self)
                            == *old(self),
                        Some(t) => spec_find_at(
                            old(self).spec_rects(),
                            t,
                            i.spec_point(),
                        ) is None ==> (r == (Ok::<Action, SolverError>(Action::Idle)) && *final(self)
                            == *old(self)),
                    })
                    &&& (match old(self).spec_tree() {
                        None => true,
                        Some(t) => match spec_find_at(
                            old(self).spec_rects(),
                            t,
                            i.spec_point(),
                        ) {
                            None => true,
                            Some(struck) => match spec_lookup(
                                struck.callbacks@,
                                i.token_spec(),
                            ) {
                                None => r == (Ok::<Action, SolverError>(Action::Idle))
                                    && *final(self) == *old(self),
                                Some(key) => match handlers.call_spec(
                                    key,
                                    old(self).spec_state(),
                                    i,
                                ) {
                                    Err(_) => r == (Ok::<Action, SolverError>(Action::Idle))
                                        && *final(self) == *old(self),
                                    Ok(new_state) => {
                                        &&& final(self).spec_state() == new_state
                                        &&& (match r {
                                            Ok(a) => {
                                                &&& a == Action::EmitFrame
                                                &&& final(self).spec_tree() matches Some(t2)
                                                &&& spec_shape(t2) == new_state.shape_spec()
                                                &&& spec_ids_distinct(t2)
                                            },
                                            Err(_) => final(self).spec_tree() is None,
                                        })
                                    },
                                },
                            },
                        },
                    })
                    &&& (match r {
                        Ok(a) => {
                            &&& (a == Action::Idle || a == Action::EmitFrame)
                            &&& (a == Action::Idle ==> *final(self) == *old(self))
                            &&& (a == Action::EmitFrame ==> {
                                &&& final(self).spec_tree() matches Some(t)
                                &&& spec_shape(t) == final(self).spec_state().shape_spec()
                            })
                        },
                        Err(_) => final(self).spec_tree() is None,
                    })
                },
            },
    {
        match event {
            Event::ApplicationClosed => Ok(Action::Quit),
            Event::WindowClosed => Ok(Action::Quit),
            Event::NotifyRenderComplete => Ok(Action::SwapFrame),
            Event::Other => Ok(Action::Idle),
            Event::Interaction(i) => {
                let outcome = match self.handle_interaction(handlers, i) {
                    Ok(new_state) => Some(new_state),
                    Err(_) => None,
                };
                match outcome {
                    None => Ok(Action::Idle),
                    Some(new_state) => match self.update_tree(solver, size, new_state) {
                        Ok(_) => Ok(Action::EmitFrame),
                        Err(e) => Err(e),
                    },
                }
            },
        }
    }

    /// Emits one frame: the display list of the current tree (empty when no
    /// tree is installed), tagged with the frame epoch, which advances and
    /// wraps.
    pub fn frame<R: Renderer>(&mut self, reg: &R) -> (r: (Epoch, Vec<RenderElement>))
        requires
            old(self).wf(),
        ensures
            final(self).wf(),
            r.0 == Epoch(old(self).spec_epoch()),
            old(self).spec_epoch() < u32::MAX ==> final(self).spec_epoch() == old(
                self,
            ).spec_epoch() + 1,
            old(self).spec_epoch() == u32::MAX ==> final(self).spec_epoch() == 0,
            match old(self).spec_tree() {
                Some(t) => r.1@ == spec_render(*reg, old(self).spec_rects(), t),
                None => r.1@ == Seq::<RenderElement>::empty(),
            },
            final(self).spec_state() == old(self).spec_state(),
            final(self).spec_tree() == old(self).spec_tree(),
            final(self).spec_rects() == old(self).spec_rects(),
    {
        let epoch = self.epoch.next();
        let list = match &self.tree {
            Some(t) => self.layout_context.build_display_list(reg, t),
            None => Vec::new(),
        };
        (epoch, list)
    }
}

} // verus!
