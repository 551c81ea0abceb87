use weld::application::{Action, Application};
use weld::events::{Event, Interaction, INTERACTION_TOKEN};
use weld::geometry::{Color, Layout, Point, Size};
use weld::layout_context::{LayoutPlan, LayoutSolver};
use weld::model::{
    BuildContext, Component, Handler, RenderElement, Renderer, State, UserHandlerError,
};
use weld::styles::{Direction, FlexStyle, StyleUnit};
use weld::window::{Epoch, FrameScheduler, PlatformEvent, PointerTracker};

const BUTTON_KEY: u64 = 1;

/// Places every component at the origin; extents come from `Width`/`Height`
/// point styles, the viewport being the default.
struct OriginSolver;

impl LayoutSolver for OriginSolver {
    fn solve(
        &self,
        plan: &LayoutPlan,
        width: u32,
        height: u32,
        _direction: Direction,
    ) -> Option<Vec<Layout>> {
        let mut out = Vec::new();
        for node in plan.iter() {
            let mut w = width;
            let mut h = height;
            for s in node.styles.iter() {
                match s {
                    FlexStyle::Width(StyleUnit::Point(p)) => w = *p as u32,
                    FlexStyle::Height(StyleUnit::Point(p)) => h = *p as u32,
                    _ => {},
                }
            }
            out.push(Layout { left: 0, top: 0, width: w, height: h });
        }
        Some(out)
    }
}

#[derive(Clone, Debug, PartialEq)]
struct CounterState {
    counter: u32,
}

impl State for CounterState {
    fn build(&self, ctx: &mut BuildContext) -> Component {
        let button = Component::new(ctx, "Button")
            .name("button")
            .style(FlexStyle::Width(StyleUnit::Point(100)))
            .style(FlexStyle::Height(StyleUnit::Point(100)))
            .on(INTERACTION_TOKEN, BUTTON_KEY);
        Component::new(ctx, "Panel").name("root").child(button)
    }
}

struct CounterHandlers;

impl Handler<CounterState, Interaction> for CounterHandlers {
    fn call(
        &self,
        key: u64,
        state: &CounterState,
        event: &Interaction,
    ) -> Result<CounterState, UserHandlerError> {
        match (key, event) {
            (BUTTON_KEY, Interaction::Pressed(_)) => {
                Ok(CounterState { counter: state.counter + 1 })
            },
            (BUTTON_KEY, Interaction::Released(_)) => Ok(state.clone()),
            _ => Err(UserHandlerError),
        }
    }
}

fn started_app() -> Application<CounterState> {
    let state = CounterState { counter: 0 };
    let mut app = Application::new("counter", state.clone());
    app.update_tree(&OriginSolver, &Size { width: 200, height: 200 }, state).unwrap();
    app
}

#[test]
fn button_presses_accumulate() {
    let mut app = started_app();
    let size = Size { width: 200, height: 200 };
    let inside = Point { x: 10, y: 10 };

    let action = app
        .handle_event(
            &OriginSolver,
            &CounterHandlers,
            &size,
            Event::Interaction(Interaction::Pressed(inside)),
        )
        .unwrap();
    assert_eq!(action, Action::EmitFrame);
    assert_eq!(app.state().counter, 1);

    for _ in 0..3 {
        app.handle_event(
            &OriginSolver,
            &CounterHandlers,
            &size,
            Event::Interaction(Interaction::Pressed(inside)),
        )
        .unwrap();
    }
    assert_eq!(app.state().counter, 4);
}

#[test]
fn a_miss_leaves_the_state_alone() {
    let mut app = started_app();
    let size = Size { width: 200, height: 200 };
    let outside = Point { x: 1000, y: 1000 };

    let action = app
        .handle_event(
            &OriginSolver,
            &CounterHandlers,
            &size,
            Event::Interaction(Interaction::Pressed(outside)),
        )
        .unwrap();
    assert_eq!(action, Action::Idle);
    assert_eq!(app.state().counter, 0);
}

#[test]
fn the_driver_keeps_its_title() {
    let app = started_app();
    assert_eq!(app.title(), "counter");
}

#[test]
fn closing_quits_and_frames_swap() {
    let mut app = started_app();
    let size = Size { width: 200, height: 200 };
    let quit = app
        .handle_event(&OriginSolver, &CounterHandlers, &size, Event::ApplicationClosed)
        .unwrap();
    assert_eq!(quit, Action::Quit);
    let swap = app
        .handle_event(&OriginSolver, &CounterHandlers, &size, Event::NotifyRenderComplete)
        .unwrap();
    assert_eq!(swap, Action::SwapFrame);
    let idle = app.handle_event(&OriginSolver, &CounterHandlers, &size, Event::Other).unwrap();
    assert_eq!(idle, Action::Idle);
    assert_eq!(app.state().counter, 0);
}

/// Paints one rectangle per component, tagged by the delegate's identifier.
struct TaggingRenderer;

impl Renderer for TaggingRenderer {
    fn render(&self, renderer: &str, bounds: Layout) -> Vec<RenderElement> {
        let tag: u8 = match renderer {
            "Panel" => 1,
            "Button" => 2,
            _ => 0,
        };
        vec![RenderElement::Rect(bounds, Color { r: tag, g: 0, b: 0, a: 255 })]
    }
}

#[test]
fn render_emits_parents_before_children() {
    let mut app = started_app();
    let (epoch, list) = app.frame(&TaggingRenderer);
    assert_eq!(epoch, Epoch(0));
    let tags: Vec<u8> = list
        .iter()
        .map(|e| match e {
            RenderElement::Rect(_, color) => color.r,
        })
        .collect();
    assert_eq!(tags, vec![1, 2]);

    let (epoch, _) = app.frame(&TaggingRenderer);
    assert_eq!(epoch, Epoch(1));
}

#[test]
fn random_colors_are_opaque() {
    for _ in 0..8 {
        let color = weld::geometry::random_color();
        assert_eq!(color.a, 255);
    }
}

#[test]
fn epoch_wraps_after_the_maximum() {
    let mut epoch = Epoch(u32::MAX);
    assert_eq!(epoch.next(), Epoch(u32::MAX));
    assert_eq!(epoch, Epoch(0));
    assert_eq!(epoch.next(), Epoch(0));
    assert_eq!(epoch, Epoch(1));
}

#[test]
fn frames_are_scheduled_one_at_a_time() {
    let mut scheduler = FrameScheduler::new();
    assert!(scheduler.should_render(), "a fresh scheduler wants a first frame");
    assert!(!scheduler.should_render(), "no second frame while the first is underway");
    scheduler.invalidate();
    assert!(!scheduler.should_render(), "still busy with the first frame");
    scheduler.frame_done();
    assert!(scheduler.should_render(), "the pending want is served once idle");
    scheduler.frame_done();
    assert!(!scheduler.should_render(), "nothing stale, nothing to render");
}

#[test]
fn pointer_tracker_stamps_the_last_cursor_position() {
    let mut tracker = PointerTracker::new();
    assert_eq!(
        tracker.step(PlatformEvent::LeftPressed),
        Event::Interaction(Interaction::Pressed(Point { x: 0, y: 0 }))
    );
    assert_eq!(tracker.step(PlatformEvent::CursorMoved(Point { x: 7, y: 9 })), Event::Other);
    assert_eq!(
        tracker.step(PlatformEvent::LeftPressed),
        Event::Interaction(Interaction::Pressed(Point { x: 7, y: 9 }))
    );
    assert_eq!(
        tracker.step(PlatformEvent::LeftReleased),
        Event::Interaction(Interaction::Released(Point { x: 7, y: 9 }))
    );
    assert_eq!(tracker.step(PlatformEvent::Closed), Event::WindowClosed);
}
