//! An id-addressed store of widget components, backed by the `id_tree`
//! crate: nodes are inserted as the root or under a parent, and looked up by
//! the `NodeId` the insertion returned.
//!
//! The store only ever grows: nothing here removes nodes, so every id handed
//! out stays valid for the life of the tree.

use vstd::prelude::*;
use crate::components::Component;
use id_tree::{NodeId, Tree};

verus! {

#[verifier::external_type_specification]
#[verifier::external_body]
#[verifier::reject_recursive_types(T)]
pub struct ExTree<T>(Tree<T>);

#[verifier::external_type_specification]
#[verifier::external_body]
pub struct ExNodeId(NodeId);

/// What a tree holds: its components, keyed by the node ids that inserting
/// them returned.
pub uninterp spec fn tree_entries(t: Tree<Component>) -> Map<NodeId, Component>;

/// Relies on id_tree::TreeBuilder::build: a freshly built tree holds no
/// nodes.
#[verifier::external_body]
fn tree_new() -> (t: Tree<Component>)
    ensures
        tree_entries(t) == (Map::<NodeId, Component>::empty()),
{
    id_tree::TreeBuilder::new().build()
}

/// Relies on id_tree::Tree::insert with InsertBehavior::AsRoot, which always
/// succeeds: the node is stored under an id that no current node has (a new
/// slot, or a vacated one), and that id is returned; an existing root
/// becomes a child of the new one, which changes no stored data.
#[verifier::external_body]
fn tree_insert_root(t: &mut Tree<Component>, component: Component) -> (id: NodeId)
    ensures
        !tree_entries(*old(t)).contains_key(id),
        tree_entries(*final(t)) == tree_entries(*old(t)).insert(id, component),
{
    t.insert(id_tree::Node::new(component), id_tree::InsertBehavior::AsRoot).unwrap()
}

/// Relies on id_tree::Tree::insert with InsertBehavior::UnderNode, which
/// succeeds whenever the parent id names a current node: the node is stored
/// under an id that no current node has, appended to the parent's children,
/// and that id is returned.
#[verifier::external_body]
fn tree_insert_under(t: &mut Tree<Component>, component: Component, parent: &NodeId) -> (id:
    NodeId)
    requires
        tree_entries(*old(t)).contains_key(*parent),
    ensures
        !tree_entries(*old(t)).contains_key(id),
        tree_entries(*final(t)) == tree_entries(*old(t)).insert(id, component),
{
    t.insert(id_tree::Node::new(component), id_tree::InsertBehavior::UnderNode(parent)).unwrap()
}

/// Relies on id_tree::Tree::get, which succeeds for the id of any current
/// node and hands back that node, whose data is the stored component.
#[verifier::external_body]
fn tree_get<'a>(t: &'a Tree<Component>, id: &NodeId) -> (c: &'a Component)
    requires
        tree_entries(*t).contains_key(*id),
    ensures
        *c == tree_entries(*t)[*id],
{
    t.get(id).unwrap().data()
}

/// An id-addressed component store.
pub struct ComponentTree {
    tree: Tree<Component>,
}

impl ComponentTree {
    /// The stored components, keyed by node id.
    pub closed spec fn spec_entries(&self) -> Map<NodeId, Component> {
        tree_entries(self.tree)
    }

    pub fn new() -> (t: ComponentTree)
        ensures
            t.spec_entries() == (Map::<NodeId, Component>::empty()),
    {
        ComponentTree { tree: tree_new() }
    }

    /// Stores `component` as the root (when `parent` is `None`) or under the
    /// given parent, and returns its fresh node id.
    pub fn add_node(&mut self, component: Component, parent: Option<&NodeId>) -> (id: NodeId)
        requires
            match parent {
                Some(p) => old(self).spec_entries().contains_key(*p),
                None => true,
            },
        ensures
            !old(self).spec_entries().contains_key(id),
            final(self).spec_entries() == old(self).spec_entries().insert(id, component),
    {
        match parent {
            Some(parent_id) => tree_insert_under(&mut self.tree, component, parent_id),
            None => tree_insert_root(&mut self.tree, component),
        }
    }

    /// The component stored under `id`.
    pub fn get<'a>(&'a self, id: &NodeId) -> (c: &'a Component)
        requires
            self.spec_entries().contains_key(*id),
        ensures
            *c == self.spec_entries()[*id],
    {
        tree_get(&self.tree, id)
    }
}

} // verus!
