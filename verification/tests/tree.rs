use weld::component_tree::ComponentTree;
use weld::components::{panel, Label, LabelBuilder};
use weld::model::BuildContext;

#[test]
fn test_tree_test_tree() {
    let mut ctx = BuildContext::new();
    let mut tree = ComponentTree::new();

    let root = tree.add_node(LabelBuilder::new().caption("Parent").build(&mut ctx), None);
    let _child = tree.add_node(
        LabelBuilder::new().caption("Child").build(&mut ctx),
        Some(&root),
    );
    let _child2 = tree.add_node(
        LabelBuilder::new().caption("Child2").build(&mut ctx),
        Some(&root),
    );

    assert_eq!(tree.get(&root).get_caption().unwrap().caption, "Parent");
}

#[test]
fn component_test_tree() {
    let mut ctx = BuildContext::new();
    let mut tree = ComponentTree::new();

    let root = tree.add_node(LabelBuilder::new().caption("Parent").build(&mut ctx), None);
    let _child = tree.add_node(
        LabelBuilder::new().caption("Child").build(&mut ctx),
        Some(&root),
    );
    let _child2 = tree.add_node(
        LabelBuilder::new().caption("Child2").build(&mut ctx),
        Some(&root),
    );

    assert_eq!(tree.get(&root).get_caption().unwrap().caption, "Parent");
}

#[test]
fn can_create_tree() {
    let mut ctx = BuildContext::new();
    let children = vec![
        panel(&mut ctx, vec![], vec![]),
        panel(&mut ctx, vec![], vec![]),
    ];
    let tree = panel(&mut ctx, vec![], children);

    assert_eq!(tree.children().len(), 2);
}
