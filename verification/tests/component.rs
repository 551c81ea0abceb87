use weld::model::{
    BuildContext, Component, Event, Handler, InvocationError, InvocationErrorKind, State,
    UserHandlerError,
};

const PRESSED_TOKEN: u64 = 10;
const PARENT_KEY: u64 = 1;
const CHILD2_KEY: u64 = 2;

fn com_a(ctx: &mut BuildContext) -> Component {
    Component::new(ctx, "ComA")
}

fn com_b(ctx: &mut BuildContext) -> Component {
    Component::new(ctx, "ComB")
}

#[derive(Clone, Debug)]
struct MyAppState {
    counter: u32,
    child: ChildState,
}

#[derive(Debug)]
enum MyAppEvent {
    Pressed,
}

impl Event for MyAppEvent {
    fn type_token(&self) -> u64 {
        PRESSED_TOKEN
    }
}

struct MyApp;

impl MyApp {
    fn new() -> MyAppState {
        MyAppState { counter: 0, child: ChildState { counter: 0 } }
    }
}

impl State for MyAppState {
    fn build(&self, ctx: &mut BuildContext) -> Component {
        let child2 = self.child.build(ctx).name("child2").on(PRESSED_TOKEN, CHILD2_KEY);
        com_a(ctx)
            .name("parent")
            .on(PRESSED_TOKEN, PARENT_KEY)
            .child(com_b(ctx).name("child1"))
            .child(child2)
    }
}

#[derive(Clone, Debug)]
struct ChildState {
    counter: u32,
}

impl State for ChildState {
    fn build(&self, ctx: &mut BuildContext) -> Component {
        com_a(ctx)
    }
}

struct MyAppHandlers;

impl Handler<MyAppState, MyAppEvent> for MyAppHandlers {
    fn call(
        &self,
        key: u64,
        state: &MyAppState,
        event: &MyAppEvent,
    ) -> Result<MyAppState, UserHandlerError> {
        match (key, event) {
            (PARENT_KEY, MyAppEvent::Pressed) => Ok(MyAppState {
                counter: state.counter + 1,
                child: state.child.clone(),
            }),
            (CHILD2_KEY, MyAppEvent::Pressed) => Ok(MyAppState {
                counter: state.counter,
                child: ChildState { counter: state.child.counter + 1 },
            }),
            _ => Err(UserHandlerError),
        }
    }
}

#[test]
fn test_invoke() {
    let mut ctx = BuildContext::new();
    let state = MyApp::new();
    let component = state.build(&mut ctx);
    let new_state = component
        .invoke(&MyAppHandlers, &state, &MyAppEvent::Pressed)
        .and_then(|state| {
            let rebuilt = state.build(&mut ctx);
            rebuilt
                .find_by_name("child2")
                .unwrap()
                .invoke(&MyAppHandlers, &state, &MyAppEvent::Pressed)
        })
        .unwrap();
    assert_eq!(new_state.counter, 1);
    assert_eq!(new_state.child.counter, 1);
}

fn collect_rendered(c: &Component, out: &mut Vec<(String, String)>) {
    let name: String = c.inspect().name().clone().unwrap_or_else(|| "Unknown".into());
    let renderer: String = c.inspect().renderer().clone();
    out.push((name, renderer));
    for child in c.inspect().children() {
        collect_rendered(child, out);
    }
}

#[test]
fn test_rendering() {
    let mut ctx = BuildContext::new();
    let state = MyApp::new();
    let component = state.build(&mut ctx);

    let mut elements: Vec<(String, String)> = Vec::new();
    collect_rendered(&component, &mut elements);
    assert_eq!(
        elements,
        vec![
            ("parent".into(), "ComA".into()),
            ("child1".into(), "ComB".into()),
            ("child2".into(), "ComA".into()),
        ]
    );
}

#[derive(Debug)]
enum OtherEvent {
    Nudge,
}

impl Event for OtherEvent {
    fn type_token(&self) -> u64 {
        99
    }
}

struct NoHandlers;

impl Handler<MyAppState, OtherEvent> for NoHandlers {
    fn call(
        &self,
        _key: u64,
        _state: &MyAppState,
        _event: &OtherEvent,
    ) -> Result<MyAppState, UserHandlerError> {
        Err(UserHandlerError)
    }
}

#[test]
fn wrong_event_type_is_routing_error() {
    let mut ctx = BuildContext::new();
    let state = MyApp::new();
    let component = state.build(&mut ctx);
    let result = component.invoke(&NoHandlers, &state, &OtherEvent::Nudge);
    match result {
        Err(InvocationError { kind }) => assert_eq!(kind, InvocationErrorKind::Routing),
        Ok(_) => panic!("a handler answered for an unregistered event type"),
    }
    assert_eq!(state.counter, 0);
}

struct FailingHandlers;

impl Handler<MyAppState, MyAppEvent> for FailingHandlers {
    fn call(
        &self,
        _key: u64,
        _state: &MyAppState,
        _event: &MyAppEvent,
    ) -> Result<MyAppState, UserHandlerError> {
        Err(UserHandlerError)
    }
}

#[test]
fn failing_handler_is_user_handler_error() {
    let mut ctx = BuildContext::new();
    let state = MyApp::new();
    let component = state.build(&mut ctx);
    let result = component.invoke(&FailingHandlers, &state, &MyAppEvent::Pressed);
    match result {
        Err(InvocationError { kind }) => assert_eq!(kind, InvocationErrorKind::UserHandler),
        Ok(_) => panic!("a failing handler produced a state"),
    }
}

#[test]
fn equal_inputs_dispatch_equally() {
    let mut ctx = BuildContext::new();
    let state = MyApp::new();
    let component = state.build(&mut ctx);
    let first = component.invoke(&MyAppHandlers, &state, &MyAppEvent::Pressed).unwrap();
    let second = component.invoke(&MyAppHandlers, &state, &MyAppEvent::Pressed).unwrap();
    assert_eq!(first.counter, second.counter);
    assert_eq!(first.child.counter, second.child.counter);
}

#[test]
fn component_ids_are_unique() {
    let mut ctx = BuildContext::new();
    let a = com_a(&mut ctx);
    let b = com_b(&mut ctx);
    let c = com_a(&mut ctx);
    assert_ne!(a.inspect().id(), b.inspect().id());
    assert_ne!(b.inspect().id(), c.inspect().id());
    assert_ne!(a.inspect().id(), c.inspect().id());
}

#[test]
fn last_registration_for_a_token_wins() {
    let mut ctx = BuildContext::new();
    let state = MyApp::new();
    let component = com_a(&mut ctx).on(PRESSED_TOKEN, CHILD2_KEY).on(PRESSED_TOKEN, PARENT_KEY);
    let new_state = component.invoke(&MyAppHandlers, &state, &MyAppEvent::Pressed).unwrap();
    assert_eq!(new_state.counter, 1);
    assert_eq!(new_state.child.counter, 0);
}
