use weld::geometry::{Layout, Point, Size};
use weld::layout_context::{LayoutContext, LayoutPlan, LayoutSolver, SolverError};
use weld::model::{BuildContext, Component};
use weld::styles::{Direction, FlexStyle, StyleUnit};

/// Places every component at the origin; a component's extent is taken from
/// `Width`/`Height` point styles, the viewport being the default.
struct FixedSolver;

impl LayoutSolver for FixedSolver {
    fn solve(
        &self,
        plan: &LayoutPlan,
        width: u32,
        height: u32,
        _direction: Direction,
    ) -> Option<Vec<Layout>> {
        let mut out = Vec::new();
        for node in plan.iter() {
            let mut w = width;
            let mut h = height;
            for s in node.styles.iter() {
                match s {
                    FlexStyle::Width(StyleUnit::Point(p)) => w = *p as u32,
                    FlexStyle::Height(StyleUnit::Point(p)) => h = *p as u32,
                    _ => {},
                }
            }
            out.push(Layout { left: 0, top: 0, width: w, height: h });
        }
        Some(out)
    }
}

/// Rejects every style list, as a solver does for contradictory styles.
struct RejectingSolver;

impl LayoutSolver for RejectingSolver {
    fn solve(
        &self,
        _plan: &LayoutPlan,
        _width: u32,
        _height: u32,
        _direction: Direction,
    ) -> Option<Vec<Layout>> {
        None
    }
}

fn sized(ctx: &mut BuildContext, renderer: &str, w: i32, h: i32) -> Component {
    Component::new(ctx, renderer)
        .style(FlexStyle::Width(StyleUnit::Point(w)))
        .style(FlexStyle::Height(StyleUnit::Point(h)))
}

fn sample_tree(ctx: &mut BuildContext) -> Component {
    let a = sized(ctx, "A", 50, 50).name("a");
    let b = sized(ctx, "B", 80, 80).name("b");
    sized(ctx, "Root", 200, 200).name("root").child(a).child(b)
}

fn every_component_has_a_rectangle(lc: &LayoutContext, c: &Component) {
    let l = lc.get_layout(c);
    assert!(l.width as i64 >= 0 && l.height as i64 >= 0);
    for child in c.inspect().children() {
        every_component_has_a_rectangle(lc, child);
    }
}

#[test]
fn layout_covers_every_component() {
    let mut ctx = BuildContext::new();
    let tree = sample_tree(&mut ctx);
    let mut lc = LayoutContext::new();
    lc.update_layout(&FixedSolver, &tree, &Size { width: 200, height: 200 }).unwrap();
    every_component_has_a_rectangle(&lc, &tree);
    assert_eq!(
        lc.get_layout(&tree),
        Layout { left: 0, top: 0, width: 200, height: 200 }
    );
}

#[test]
fn hit_inside_root_strikes_a_containing_component() {
    let mut ctx = BuildContext::new();
    let tree = sample_tree(&mut ctx);
    let mut lc = LayoutContext::new();
    lc.update_layout(&FixedSolver, &tree, &Size { width: 200, height: 200 }).unwrap();

    let p = Point { x: 150, y: 150 };
    let struck = lc.find_node_at(p, &tree).expect("a point inside the root must strike");
    let bounds = lc.get_layout(struck);
    assert!(bounds.left <= p.x && p.x < bounds.left + bounds.width as i32);
    assert!(bounds.top <= p.y && p.y < bounds.top + bounds.height as i32);
}

#[test]
fn hit_outside_root_misses() {
    let mut ctx = BuildContext::new();
    let tree = sample_tree(&mut ctx);
    let mut lc = LayoutContext::new();
    lc.update_layout(&FixedSolver, &tree, &Size { width: 200, height: 200 }).unwrap();
    assert!(lc.find_node_at(Point { x: 500, y: 10 }, &tree).is_none());
    assert!(lc.find_node_at(Point { x: -1, y: 10 }, &tree).is_none());
}

#[test]
fn overlapping_siblings_strike_the_first_child() {
    let mut ctx = BuildContext::new();
    let tree = sample_tree(&mut ctx);
    let mut lc = LayoutContext::new();
    lc.update_layout(&FixedSolver, &tree, &Size { width: 200, height: 200 }).unwrap();

    // (10, 10) lies inside both children; the first declared child wins.
    let struck = lc.find_node_at(Point { x: 10, y: 10 }, &tree).unwrap();
    assert_eq!(struck.inspect().name().clone(), Some("a".to_owned()));

    // (60, 60) lies only inside the second child.
    let struck = lc.find_node_at(Point { x: 60, y: 60 }, &tree).unwrap();
    assert_eq!(struck.inspect().name().clone(), Some("b".to_owned()));

    // (190, 190) lies inside no child, so the root itself is struck.
    let struck = lc.find_node_at(Point { x: 190, y: 190 }, &tree).unwrap();
    assert_eq!(struck.inspect().name().clone(), Some("root".to_owned()));
}

fn rectangles_of(lc: &LayoutContext, c: &Component, out: &mut Vec<Layout>) {
    out.push(lc.get_layout(c));
    for child in c.inspect().children() {
        rectangles_of(lc, child, out);
    }
}

#[test]
fn repeating_a_layout_pass_repeats_the_rectangles() {
    let mut ctx = BuildContext::new();
    let tree = sample_tree(&mut ctx);
    let size = Size { width: 200, height: 200 };
    let mut lc = LayoutContext::new();

    lc.update_layout(&FixedSolver, &tree, &size).unwrap();
    let mut first = Vec::new();
    rectangles_of(&lc, &tree, &mut first);

    lc.update_layout(&FixedSolver, &tree, &size).unwrap();
    let mut second = Vec::new();
    rectangles_of(&lc, &tree, &mut second);

    assert_eq!(first, second);
}

/// A minimal row-direction flexbox: a component's extent comes from its
/// `Width`/`Height` styles (points, or percent of the parent), defaulting to
/// the parent's extent, and children stack left to right.
struct RowSolver;

impl RowSolver {
    fn layout_rec(
        &self,
        plan: &LayoutPlan,
        idx: usize,
        parent_w: u32,
        parent_h: u32,
        origin_x: i32,
        origin_y: i32,
        out: &mut Vec<Layout>,
    ) -> usize {
        let node = &plan[idx];
        let mut w = parent_w;
        let mut h = parent_h;
        for s in node.styles.iter() {
            match s {
                FlexStyle::Width(StyleUnit::Point(p)) => w = *p as u32,
                FlexStyle::Width(StyleUnit::Percent(p)) => w = parent_w * (*p as u32) / 100,
                FlexStyle::Height(StyleUnit::Point(p)) => h = *p as u32,
                FlexStyle::Height(StyleUnit::Percent(p)) => h = parent_h * (*p as u32) / 100,
                _ => {},
            }
        }
        out[idx] = Layout { left: origin_x, top: origin_y, width: w, height: h };
        let mut next = idx + 1;
        let mut cursor_x = origin_x;
        for _ in 0..node.child_count {
            let child_idx = next;
            next = self.layout_rec(plan, child_idx, w, h, cursor_x, origin_y, out);
            cursor_x += out[child_idx].width as i32;
        }
        next
    }
}

impl LayoutSolver for RowSolver {
    fn solve(
        &self,
        plan: &LayoutPlan,
        width: u32,
        height: u32,
        _direction: Direction,
    ) -> Option<Vec<Layout>> {
        let mut out = vec![Layout { left: 0, top: 0, width: 0, height: 0 }; plan.len()];
        if !plan.is_empty() {
            self.layout_rec(plan, 0, width, height, 0, 0, &mut out);
        }
        Some(out)
    }
}

#[test]
fn can_build_list() {
    let mut ctx = BuildContext::new();
    let left_child = Component::new(&mut ctx, "panel")
        .style(FlexStyle::Width(StyleUnit::Percent(30)))
        .style(FlexStyle::Height(StyleUnit::Percent(100)));
    let right_child = Component::new(&mut ctx, "panel")
        .style(FlexStyle::Width(StyleUnit::Percent(70)))
        .style(FlexStyle::Height(StyleUnit::Percent(100)));
    let tree = Component::new(&mut ctx, "panel")
        .style(FlexStyle::Width(StyleUnit::Point(1000)))
        .style(FlexStyle::Height(StyleUnit::Point(1000)))
        .style(FlexStyle::FlexDirection(weld::styles::FlexDirection::Row))
        .child(left_child)
        .child(right_child);

    let size = Size { width: 1000, height: 1000 };
    let mut theme = LayoutContext::new();
    theme.update_layout(&RowSolver, &tree, &size).unwrap();

    let sizes = vec![
        theme.get_layout(&tree),
        theme.get_layout(&tree.inspect().children()[0]),
        theme.get_layout(&tree.inspect().children()[1]),
    ];

    assert_eq!(
        sizes,
        vec![
            Layout { left: 0, top: 0, width: 1000, height: 1000 },
            Layout { left: 0, top: 0, width: 300, height: 1000 },
            Layout { left: 300, top: 0, width: 700, height: 1000 },
        ]
    );
}

#[test]
fn a_rejecting_solver_fails_the_pass() {
    let mut ctx = BuildContext::new();
    let tree = sample_tree(&mut ctx);
    let mut lc = LayoutContext::new();
    let r = lc.update_layout(&RejectingSolver, &tree, &Size { width: 200, height: 200 });
    assert_eq!(r, Err(SolverError));
}
