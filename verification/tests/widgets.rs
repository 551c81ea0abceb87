use std::collections::HashMap;
use weld::component_tree::ComponentTree;
use weld::components::{panel, Configuration, PanelBuilder, SplitterBuilder, Type};
use weld::components::ButtonBuilder;
use weld::geometry::Layout;
use weld::layout::{CassowaryLayout, Layout as LayoutStrategy};
use weld::model::BuildContext;
use weld::styles::{FlexStyle, StyleUnit};

#[test]
fn panel_builder_collects_styles_and_children_in_order() {
    let mut ctx = BuildContext::new();
    let child_a = panel(&mut ctx, vec![], vec![]);
    let child_b = panel(&mut ctx, vec![], vec![]);
    let child_c = panel(&mut ctx, vec![], vec![]);
    let built = PanelBuilder::new(
        &mut ctx,
        vec![
            Configuration::Style(FlexStyle::Width(StyleUnit::Point(10))),
            Configuration::Child(child_a),
            Configuration::Styles(vec![
                FlexStyle::Height(StyleUnit::Point(20)),
                FlexStyle::Flex(1),
            ]),
            Configuration::Children(vec![child_b, child_c]),
        ],
    )
    .build();

    assert!(matches!(built.component_type, Type::Panel));
    assert_eq!(
        built.styles().clone(),
        vec![
            FlexStyle::Width(StyleUnit::Point(10)),
            FlexStyle::Height(StyleUnit::Point(20)),
            FlexStyle::Flex(1),
        ]
    );
    assert_eq!(built.children().len(), 3);
}

#[test]
fn builders_tag_their_component_kind() {
    let mut ctx = BuildContext::new();
    let button = ButtonBuilder::new(vec![]).build(&mut ctx);
    let splitter = SplitterBuilder::new(vec![]).build(&mut ctx);
    assert!(matches!(button.component_type, Type::Button));
    assert!(matches!(splitter.component_type, Type::Splitter));
}

#[test]
fn find_walks_depth_first() {
    let mut ctx = BuildContext::new();
    let grandchild = panel(&mut ctx, vec![], vec![]);
    let wanted = *grandchild.id();
    let child = panel(&mut ctx, vec![], vec![grandchild]);
    let root = panel(&mut ctx, vec![], vec![child]);

    let found = root.find(&wanted).expect("the grandchild is in the tree");
    assert_eq!(*found.id(), wanted);

    let missing = weld::model::ComponentId { value: 999 };
    assert!(root.find(&missing).is_none());
}

#[test]
fn cassowary_strategy_determines_no_sizes() {
    let mut ctx = BuildContext::new();
    let mut tree = ComponentTree::new();
    tree.add_node(panel(&mut ctx, vec![], vec![]), None);

    let strategy = CassowaryLayout::new();
    let mut result: HashMap<i64, Layout> = HashMap::new();
    result.insert(3, Layout { left: 1, top: 2, width: 3, height: 4 });
    strategy.determine_sizes(
        &tree,
        Layout { left: 0, top: 0, width: 100, height: 100 },
        &mut result,
    );
    assert_eq!(result.len(), 1);
    assert_eq!(result.get(&3), Some(&Layout { left: 1, top: 2, width: 3, height: 4 }));
}
