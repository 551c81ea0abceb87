//! The layout context: mirrors the component tree into the flex-layout
//! solver, stores the computed rectangle of every component, and answers
//! geometry queries — which rectangle a component got, and which component
//! lies under a point.
//!
//! The solver itself is a collaborator behind [`LayoutSolver`]: the context
//! flattens the tree into a [`LayoutPlan`] in depth-first pre-order (each
//! entry carrying the component's id, styles and child count, which together
//! encode the tree's shape), hands the plan to the solver, and installs the
//! returned rectangles keyed by component id.

use vstd::prelude::*;
use std::collections::HashMap;
use crate::geometry::{Layout, Point, Size};
use crate::model::{spec_forest_nodes, spec_nodes, Component, RenderElement, Renderer};
use crate::styles::{Direction, FlexStyle};

verus! {

broadcast use vstd::std_specs::hash::group_hash_axioms;

/// The ghost image of a plan entry.
pub ghost struct PlanEntry {
    pub id: u64,
    pub styles: Seq<FlexStyle>,
    pub child_count: nat,
}

/// One entry of a layout plan: a component's id, its style list, and how many
/// of the entries that follow are its immediate children's subtrees.
pub struct PlanNode {
    pub id: u64,
    pub styles: Vec<FlexStyle>,
    pub child_count: usize,
}

impl View for PlanNode {
    type V = PlanEntry;

    open spec fn view(&self) -> PlanEntry {
        PlanEntry { id: self.id, styles: self.styles@, child_count: self.child_count as nat }
    }
}

impl DeepView for PlanNode {
    type V = PlanEntry;

    open spec fn deep_view(&self) -> PlanEntry {
        self.view()
    }
}

/// A component tree flattened in depth-first pre-order.
pub type LayoutPlan = Vec<PlanNode>;

/// The plan entry of a single component.
pub open spec fn plan_entry(c: Component) -> PlanEntry {
    PlanEntry { id: c.id.value, styles: c.styles@, child_count: c.children@.len() }
}

/// The layout plan of the subtree rooted at `c`, in depth-first pre-order.
pub open spec fn spec_plan(c: Component) -> Seq<PlanEntry>
    decreases c,
{
    seq![plan_entry(c)] + spec_forest_plan(c.children@)
}

/// The layout plan of a forest, subtree by subtree.
pub open spec fn spec_forest_plan(s: Seq<Component>) -> Seq<PlanEntry>
    decreases s,
{
    if s.len() == 0 {
        Seq::empty()
    } else {
        spec_plan(s[0]) + spec_forest_plan(s.drop_first())
    }
}

/// The flex-layout solver, supplied by a collaborator.
///
/// The solver is a black box, but a deterministic one: what it returns is a
/// function of the plan and the viewport alone (`solve_spec`). It answers
/// `None` when the styles are malformed or contradictory; on success it
/// returns one rectangle per plan entry, in plan order.
pub trait LayoutSolver {
    /// The rectangles this solver computes for a plan and viewport. Left at
    /// its default, it promises nothing of them.
    open spec fn solve_spec(
        &self,
        plan: Seq<PlanEntry>,
        width: u32,
        height: u32,
        direction: Direction,
    ) -> Option<Seq<Layout>> {
        arbitrary()
    }

    fn solve(
        &self,
        plan: &LayoutPlan,
        width: u32,
        height: u32,
        direction: Direction,
    ) -> (r: Option<Vec<Layout>>)
        ensures
            match r {
                Some(rects) => self.solve_spec(plan.deep_view(), width, height, direction)
                    == Some(rects@),
                None => self.solve_spec(plan.deep_view(), width, height, direction) is None,
            },
    ;
}

/// The solver rejected the styles, or answered with the wrong number of
/// rectangles; the layout pass is abandoned.
#[derive(Clone, Copy, Debug, PartialEq, Eq, Structural)]
pub struct SolverError;

/// Copies a style list.
fn copy_styles(styles: &Vec<FlexStyle>) -> (r: Vec<FlexStyle>)
    ensures
        r@ == styles@,
{
    let mut r: Vec<FlexStyle> = Vec::new();
    let mut i: usize = 0;
    while i < styles.len()
        invariant
            i <= styles@.len(),
            r@ == styles@.take(i as int),
        decreases styles@.len() - i,
    {
        r.push(styles[i]);
        proof {
            assert(styles@.take(i + 1) == styles@.take(i as int).push(styles@[i as int]));
        }
        i = i + 1;
    }
    proof {
        assert(styles@.take(styles@.len() as int) == styles@);
    }
    r
}

/// Appends the plan of the subtree rooted at `c` to `out`.
fn build_plan_rec(c: &Component, out: &mut Vec<PlanNode>)
    ensures
        final(out).deep_view() == old(out).deep_view() + spec_plan(*c),
    decreases *c,
{
    let ghost prefix = out.deep_view();
    let node = PlanNode {
        id: c.id.value,
        styles: copy_styles(&c.styles),
        child_count: c.children.len(),
    };
    proof {
        assert(node@ == plan_entry(*c));
    }
    out.push(node);
    proof {
        assert(out.deep_view() == prefix + seq![plan_entry(*c)]);
    }
    let ghost kids = c.children@;
    let ghost target = prefix + spec_plan(*c);
    proof {
        assert(kids.skip(0) == kids);
        assert(out.deep_view() + spec_forest_plan(kids.skip(0)) == target);
    }
    let mut i: usize = 0;
    while i < c.children.len()
        invariant
            i <= kids.len(),
            out.deep_view() + spec_forest_plan(kids.skip(i as int)) == target,
        decreases kids.len() - i,
    {
        proof {
            assert(kids.skip(i as int)[0] == kids[i as int]);
            assert(kids.skip(i as int).drop_first() == kids.skip(i + 1));
        }
        let ghost before = out.deep_view();
        build_plan_rec(&c.children[i], out);
        proof {
            assert(before + (spec_plan(kids[i as int]) + spec_forest_plan(kids.skip(i + 1)))
                == (before + spec_plan(kids[i as int])) + spec_forest_plan(kids.skip(i + 1)));
        }
        i = i + 1;
    }
    proof {
        assert(kids.skip(kids.len() as int).len() == 0);
        assert(out.deep_view() + spec_forest_plan(kids.skip(kids.len() as int))
            == out.deep_view());
    }
}

/// Flattens the tree rooted at `root` into its layout plan.
pub fn build_plan(root: &Component) -> (plan: LayoutPlan)
    ensures
        plan.deep_view() == spec_plan(*root),
{
    let mut out: Vec<PlanNode> = Vec::new();
    proof {
        assert(out.deep_view() == Seq::<PlanEntry>::empty());
        assert(Seq::<PlanEntry>::empty() + spec_plan(*root) == spec_plan(*root));
    }
    build_plan_rec(root, &mut out);
    out
}

/// The rectangle map a plan and the solver's rectangles install: each entry's
/// id keyed to the rectangle at the same position.
pub open spec fn spec_install(plan: Seq<PlanEntry>, rects: Seq<Layout>) -> Map<u64, Layout>
    decreases plan.len(),
{
    if plan.len() == 0 {
        Map::empty()
    } else {
        spec_install(plan.drop_last(), rects.drop_last()).insert(plan.last().id, rects.last())
    }
}

/// What one layout pass computes: the rectangle map for `root` under
/// `solver`, or `None` when the solver rejects the styles.
pub open spec fn spec_layout_of<L: LayoutSolver>(
    solver: L,
    root: Component,
    size: Size,
    direction: Direction,
) -> Option<Map<u64, Layout>> {
    match solver.solve_spec(spec_plan(root), size.width, size.height, direction) {
        Some(rects) => if rects.len() == spec_plan(root).len() {
            Some(spec_install(spec_plan(root), rects))
        } else {
            None
        },
        None => None,
    }
}

/// Whether `m` has a rectangle for every component of the subtree rooted at `c`.
pub open spec fn covered(m: Map<u64, Layout>, c: Component) -> bool
    decreases c,
{
    m.contains_key(c.id.value) && forest_covered(m, c.children@)
}

/// Whether `m` has a rectangle for every component of every tree in `s`.
pub open spec fn forest_covered(m: Map<u64, Layout>, s: Seq<Component>) -> bool
    decreases s,
{
    s.len() == 0 || (covered(m, s[0]) && forest_covered(m, s.drop_first()))
}

/// Installing a plan's rectangles covers every id the plan mentions.
proof fn lemma_install_covers_ids(plan: Seq<PlanEntry>, rects: Seq<Layout>)
    ensures
        forall|j: int|
            0 <= j < plan.len() ==> spec_install(plan, rects).contains_key(#[trigger] plan[j].id),
    decreases plan.len(),
{
    if plan.len() > 0 {
        lemma_install_covers_ids(plan.drop_last(), rects.drop_last());
        assert forall|j: int| 0 <= j < plan.len() implies spec_install(plan, rects).contains_key(
            plan[j].id,
        ) by {
            if j < plan.len() - 1 {
                assert(plan.drop_last()[j] == plan[j]);
            } else {
                assert(plan.last() == plan[j]);
            }
        }
    }
}

/// A map with every plan id covers the tree the plan came from.
proof fn lemma_covered_from_plan(m: Map<u64, Layout>, c: Component)
    requires
        forall|j: int|
            0 <= j < spec_plan(c).len() ==> m.contains_key(#[trigger] spec_plan(c)[j].id),
    ensures
        covered(m, c),
    decreases c,
{
    assert(spec_plan(c)[0] == plan_entry(c));
    assert(m.contains_key(spec_plan(c)[0].id));
    assert(m.contains_key(c.id.value));
    assert forall|j: int| 0 <= j < spec_forest_plan(c.children@).len() implies m.contains_key(
        #[trigger] spec_forest_plan(c.children@)[j].id,
    ) by {
        assert(spec_plan(c)[j + 1] == spec_forest_plan(c.children@)[j]);
    }
    lemma_forest_covered_from_plan(m, c.children@);
}

proof fn lemma_forest_covered_from_plan(m: Map<u64, Layout>, s: Seq<Component>)
    requires
        forall|j: int|
            0 <= j < spec_forest_plan(s).len() ==> m.contains_key(
                #[trigger] spec_forest_plan(s)[j].id,
            ),
    ensures
        forest_covered(m, s),
    decreases s,
{
    if s.len() > 0 {
        let head = spec_plan(s[0]);
        let rest = spec_forest_plan(s.drop_first());
        assert forall|j: int| 0 <= j < head.len() implies m.contains_key(
            #[trigger] head[j].id,
        ) by {
            assert(spec_forest_plan(s)[j] == head[j]);
        }
        lemma_covered_from_plan(m, s[0]);
        assert forall|j: int| 0 <= j < rest.len() implies m.contains_key(
            #[trigger] rest[j].id,
        ) by {
            assert(spec_forest_plan(s)[head.len() + j] == rest[j]);
        }
        lemma_forest_covered_from_plan(m, s.drop_first());
    }
}

/// Every component reachable from `c` has a rectangle in a map that covers `c`.
pub proof fn lemma_covered_all_nodes(m: Map<u64, Layout>, c: Component)
    requires
        covered(m, c),
    ensures
        forall|i: int|
            0 <= i < spec_nodes(c).len() ==> m.contains_key(
                #[trigger] spec_nodes(c)[i].id.value,
            ),
    decreases c,
{
    lemma_forest_covered_all_nodes(m, c.children@);
    assert forall|i: int| 0 <= i < spec_nodes(c).len() implies m.contains_key(
        spec_nodes(c)[i].id.value,
    ) by {
        if i == 0 {
            assert(spec_nodes(c)[0] == c);
        } else {
            assert(spec_nodes(c)[i] == spec_forest_nodes(c.children@)[i - 1]);
        }
    }
}

proof fn lemma_forest_covered_all_nodes(m: Map<u64, Layout>, s: Seq<Component>)
    requires
        forest_covered(m, s),
    ensures
        forall|i: int|
            0 <= i < spec_forest_nodes(s).len() ==> m.contains_key(
                #[trigger] spec_forest_nodes(s)[i].id.value,
            ),
    decreases s,
{
    if s.len() > 0 {
        let head = spec_nodes(s[0]);
        lemma_covered_all_nodes(m, s[0]);
        lemma_forest_covered_all_nodes(m, s.drop_first());
        assert forall|i: int| 0 <= i < spec_forest_nodes(s).len() implies m.contains_key(
            spec_forest_nodes(s)[i].id.value,
        ) by {
            if i < head.len() {
                assert(spec_forest_nodes(s)[i] == head[i]);
            } else {
                assert(spec_forest_nodes(s)[i] == spec_forest_nodes(s.drop_first())[i
                    - head.len()]);
            }
        }
    }
}

/// A layout pass is a function of the tree, the viewport and the solver: two
/// passes over the same inputs install the same rectangle for every
/// component.
pub proof fn lemma_update_layout_deterministic<L: LayoutSolver>(
    solver: L,
    root: Component,
    size: Size,
    m1: Map<u64, Layout>,
    m2: Map<u64, Layout>,
)
    requires
        spec_layout_of(solver, root, size, Direction::LTR) == Some(m1),
        spec_layout_of(solver, root, size, Direction::LTR) == Some(m2),
    ensures
        m1 == m2,
{
}

/// The parallel map from component identity to computed rectangle.
///
/// Rebuilt wholesale by every [`LayoutContext::update_layout`] pass, so the
/// stored rectangles always reflect exactly the tree of the latest pass.
pub struct LayoutContext {
    rects: HashMap<u64, Layout>,
}

impl LayoutContext {
    /// The stored rectangles, keyed by component id.
    pub closed spec fn spec_rects(&self) -> Map<u64, Layout> {
        self.rects@
    }

    pub fn new() -> (c: LayoutContext)
        ensures
            c.spec_rects() == (Map::<u64, Layout>::empty()),
    {
        LayoutContext { rects: HashMap::new() }
    }

    /// Runs one layout pass: discards the old rectangles, flattens the tree,
    /// asks the solver, and installs one rectangle per component.
    ///
    /// Fails exactly when the solver rejects the styles (or does not answer
    /// one rectangle per component); the context is then left empty.
    pub fn update_layout<L: LayoutSolver>(
        &mut self,
        solver: &L,
        root: &Component,
        size: &Size,
    ) -> (r: Result<(), SolverError>)
        ensures
            match r {
                Ok(_) => {
                    &&& spec_layout_of(*solver, *root, *size, Direction::LTR) == Some(
                        final(self).spec_rects(),
                    )
                    &&& covered(final(self).spec_rects(), *root)
                },
                Err(_) => spec_layout_of(*solver, *root, *size, Direction::LTR) is None
                    && final(self).spec_rects() == (Map::<u64, Layout>::empty()),
            },
    {
        self.rects = HashMap::new();
        let plan = build_plan(root);
        let rects = match solver.solve(&plan, size.width, size.height, Direction::LTR) {
            Some(rects) => rects,
            None => {
                return Err(SolverError);
            },
        };
        if rects.len() != plan.len() {
            return Err(SolverError);
        }
        let ghost p = plan.deep_view();
        let ghost rs = rects@;
        proof {
            assert(p.take(0).len() == 0);
            assert(self.rects@ == spec_install(p.take(0), rs.take(0)));
        }
        let mut i: usize = 0;
        while i < plan.len()
            invariant
                i <= p.len(),
                rs.len() == p.len(),
                self.rects@ == spec_install(p.take(i as int), rs.take(i as int)),
            decreases p.len() - i,
        {
            self.rects.insert(plan[i].id, rects[i]);
            proof {
                assert(plan[i as int]@ == p[i as int]);
                assert(p.take(i + 1).drop_last() == p.take(i as int));
                assert(rs.take(i + 1).drop_last() == rs.take(i as int));
                assert(p.take(i + 1).last() == p[i as int]);
                assert(rs.take(i + 1).last() == rs[i as int]);
            }
            i = i + 1;
        }
        proof {
            assert(p.take(p.len() as int) == p);
            assert(rs.take(rs.len() as int) == rs);
            lemma_install_covers_ids(p, rs);
            lemma_covered_from_plan(self.rects@, *root);
        }
        Ok(())
    }

    /// The rectangle computed for `node` by the latest layout pass.
    pub fn get_layout(&self, node: &Component) -> (l: Layout)
        requires
            self.spec_rects().contains_key(node.id.value),
        ensures
            l == self.spec_rects()[node.id.value],
    {
        *self.rects.get(&node.id.value).unwrap()
    }

    /// The deepest component whose rectangle contains `point`, ties between
    /// siblings going to the earlier child; `None` when the point lies
    /// outside the root's rectangle.
    pub fn find_node_at<'a>(&self, point: Point, root: &'a Component) -> (r: Option<&'a Component>)
        requires
            covered(self.spec_rects(), *root),
        ensures
            match r {
                Some(f) => spec_find_at(self.spec_rects(), *root, point) == Some(*f),
                None => spec_find_at(self.spec_rects(), *root, point) is None,
            },
    {
        self.find_node_at_recursive(point, root)
    }

    fn find_node_at_recursive<'a>(&self, point: Point, node: &'a Component) -> (r: Option<
        &'a Component,
    >)
        requires
            covered(self.spec_rects(), *node),
        ensures
            match r {
                Some(f) => spec_find_at(self.spec_rects(), *node, point) == Some(*f),
                None => spec_find_at(self.spec_rects(), *node, point) is None,
            },
        decreases *node,
    {
        let layout = self.get_layout(node);
        if !layout.contains(point) {
            return None;
        }
        let ghost m = self.spec_rects();
        let ghost kids = node.children@;
        proof {
            assert(kids.skip(0) == kids);
        }
        let mut i: usize = 0;
        while i < node.children.len()
            invariant
                i <= kids.len(),
                forest_covered(m, kids.skip(i as int)),
                spec_find_at_forest(m, kids, point) == spec_find_at_forest(
                    m,
                    kids.skip(i as int),
                    point,
                ),
            decreases kids.len() - i,
        {
            proof {
                assert(kids.skip(i as int)[0] == kids[i as int]);
                assert(kids.skip(i as int).drop_first() == kids.skip(i + 1));
            }
            if let Some(f) = self.find_node_at_recursive(point, &node.children[i]) {
                return Some(f);
            }
            i = i + 1;
        }
        proof {
            assert(kids.skip(kids.len() as int).len() == 0);
        }
        Some(node)
    }

    /// Emits the display list for the tree rooted at `root`: for each
    /// component in depth-first pre-order, the primitives its render
    /// delegate paints into its computed rectangle, its own before its
    /// children's.
    pub fn build_display_list<R: Renderer>(&self, reg: &R, root: &Component) -> (out: Vec<
        RenderElement,
    >)
        requires
            covered(self.spec_rects(), *root),
        ensures
            out@ == spec_render(*reg, self.spec_rects(), *root),
    {
        let mut out: Vec<RenderElement> = Vec::new();
        self.render_recursive(reg, root, &mut out);
        out
    }

    fn render_recursive<R: Renderer>(&self, reg: &R, node: &Component, out: &mut Vec<
        RenderElement,
    >)
        requires
            covered(self.spec_rects(), *node),
        ensures
            final(out)@ == old(out)@ + spec_render(*reg, self.spec_rects(), *node),
        decreases *node,
    {
        let ghost m = self.spec_rects();
        let ghost prefix = out@;
        let bounds = self.get_layout(node);
        let mut own = reg.render(node.renderer.as_str(), bounds);
        out.append(&mut own);
        let ghost kids = node.children@;
        let ghost target = prefix + spec_render(*reg, m, *node);
        proof {
            assert(kids.skip(0) == kids);
            assert(out@ + spec_render_forest(*reg, m, kids.skip(0)) == target);
        }
        let mut i: usize = 0;
        while i < node.children.len()
            invariant
                i <= kids.len(),
                forest_covered(m, kids.skip(i as int)),
                out@ + spec_render_forest(*reg, m, kids.skip(i as int)) == target,
            decreases kids.len() - i,
        {
            proof {
                assert(kids.skip(i as int)[0] == kids[i as int]);
                assert(kids.skip(i as int).drop_first() == kids.skip(i + 1));
            }
            let ghost before = out@;
            self.render_recursive(reg, &node.children[i], out);
            proof {
                assert(before + (spec_render(*reg, m, kids[i as int]) + spec_render_forest(
                    *reg,
                    m,
                    kids.skip(i + 1),
                )) == (before + spec_render(*reg, m, kids[i as int])) + spec_render_forest(
                    *reg,
                    m,
                    kids.skip(i + 1),
                ));
            }
            i = i + 1;
        }
        proof {
            assert(kids.skip(kids.len() as int).len() == 0);
            assert(out@ + spec_render_forest(*reg, m, kids.skip(kids.len() as int)) == out@);
        }
    }
}

/// Where hit-testing looks: `None` outside the node's rectangle; otherwise
/// the first child subtree that contains the point, or the node itself when
/// no child does.
pub open spec fn spec_find_at(m: Map<u64, Layout>, c: Component, p: Point) -> Option<Component>
    decreases c,
{
    if !m[c.id.value].spec_contains(p) {
        None
    } else {
        match spec_find_at_forest(m, c.children@, p) {
            Some(f) => Some(f),
            None => Some(c),
        }
    }
}

/// The first subtree of `s`, in order, that yields a hit.
pub open spec fn spec_find_at_forest(m: Map<u64, Layout>, s: Seq<Component>, p: Point) -> Option<
    Component,
>
    decreases s,
{
    if s.len() == 0 {
        None
    } else {
        match spec_find_at(m, s[0], p) {
            Some(f) => Some(f),
            None => spec_find_at_forest(m, s.drop_first(), p),
        }
    }
}

/// Hit-testing is sound and complete: it answers something exactly when the
/// point lies inside the root's rectangle, and whatever component it answers
/// has a rectangle that contains the point.
pub proof fn lemma_find_node_at_sound(m: Map<u64, Layout>, c: Component, p: Point)
    ensures
        spec_find_at(m, c, p) is Some <==> m[c.id.value].spec_contains(p),
        spec_find_at(m, c, p) matches Some(f) ==> m[f.id.value].spec_contains(p),
    decreases c,
{
    if m[c.id.value].spec_contains(p) {
        lemma_find_forest_sound(m, c.children@, p);
    }
}

proof fn lemma_find_forest_sound(m: Map<u64, Layout>, s: Seq<Component>, p: Point)
    ensures
        spec_find_at_forest(m, s, p) matches Some(f) ==> m[f.id.value].spec_contains(p),
    decreases s,
{
    if s.len() > 0 {
        lemma_find_node_at_sound(m, s[0], p);
        lemma_find_forest_sound(m, s.drop_first(), p);
    }
}

/// The primitives one render pass emits for the subtree rooted at `c`: what
/// the delegate paints for `c` itself, then each child subtree's primitives,
/// in child order.
pub open spec fn spec_render<R: Renderer>(reg: R, m: Map<u64, Layout>, c: Component) -> Seq<
    RenderElement,
>
    decreases c,
{
    reg.render_spec(c.renderer@, m[c.id.value]) + spec_render_forest(reg, m, c.children@)
}

/// The primitives of a forest, subtree by subtree.
pub open spec fn spec_render_forest<R: Renderer>(
    reg: R,
    m: Map<u64, Layout>,
    s: Seq<Component>,
) -> Seq<RenderElement>
    decreases s,
{
    if s.len() == 0 {
        Seq::empty()
    } else {
        spec_render(reg, m, s[0]) + spec_render_forest(reg, m, s.drop_first())
    }
}

} // verus!
