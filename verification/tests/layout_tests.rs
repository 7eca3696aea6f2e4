//! Render-tree building and block-flow layout: shape preservation,
//! stacking, heights, idempotence, and resizing.

use essentia_browser::{
    Color, ComputedStyle, CssRule, Document, Element, HtmlParser, LayoutBox, RenderEngine,
    RenderNode, RenderTree, StyleSheet,
};

fn doc(root: Element) -> Document {
    Document { title: "t".to_string(), root, url: "u".to_string() }
}

fn count_nodes(n: &RenderNode) -> usize {
    1 + n.children.iter().map(count_nodes).sum::<usize>()
}

fn preorder_tags(n: &RenderNode, out: &mut Vec<String>) {
    out.push(n.element.tag.clone());
    for c in &n.children {
        preorder_tags(c, out);
    }
}

fn element_preorder_tags(e: &Element, out: &mut Vec<String>) {
    out.push(e.tag.clone());
    for c in &e.children {
        element_preorder_tags(c, out);
    }
}

fn collect_boxes(n: &RenderNode, out: &mut Vec<LayoutBox>) {
    out.push(n.layout);
    for c in &n.children {
        collect_boxes(c, out);
    }
}

fn three_leaf_root() -> Element {
    Element::new("body")
        .with_child(Element::new("p"))
        .with_child(Element::new("p"))
        .with_child(Element::new("p"))
}

#[test]
fn test_build_preserves_shape() {
    let root = Element::new("html")
        .with_child(Element::new("head").with_child(Element::new("title")))
        .with_child(
            Element::new("body")
                .with_child(Element::new("p"))
                .with_child(Element::new("p")),
        );
    let mut want = Vec::new();
    element_preorder_tags(&root, &mut want);
    let engine = RenderEngine::new(800, 600);
    let tree = engine.build_render_tree(&doc(root), &StyleSheet::default());
    assert_eq!(count_nodes(&tree.root), 6);
    let mut got = Vec::new();
    preorder_tags(&tree.root, &mut got);
    assert_eq!(got, want);
}

#[test]
fn test_build_zeroes_geometry() {
    let engine = RenderEngine::new(800, 600);
    let tree = engine.build_render_tree(&doc(three_leaf_root()), &StyleSheet::default());
    let mut boxes = Vec::new();
    collect_boxes(&tree.root, &mut boxes);
    assert_eq!(boxes.len(), 4);
    for b in boxes {
        assert_eq!(b, LayoutBox { x: 0, y: 0, width: 0, height: 0 });
    }
}

#[test]
fn test_block_stacking() {
    let engine = RenderEngine::new(800, 600);
    let mut tree = engine.build_render_tree(&doc(three_leaf_root()), &StyleSheet::default());
    engine.layout(&mut tree);
    let root = &tree.root;
    assert_eq!(root.children.len(), 3);
    assert_eq!(root.children[0].layout.y, 0);
    assert_eq!(root.children[1].layout.y, 8);
    assert_eq!(root.children[2].layout.y, 16);
    for c in &root.children {
        assert_eq!(c.layout.height, 0);
        assert_eq!(c.layout.x, 0);
        assert_eq!(c.layout.width, 800);
    }
    assert_eq!(root.layout.height, 16);
    assert_eq!(root.layout.x, 0);
    assert_eq!(root.layout.y, 0);
    assert_eq!(root.layout.width, 800);
}

#[test]
fn test_nested_heights() {
    // A child with two leaf grandchildren is 8 tall (two stacked leaves
    // with one gap); the root's height reaches that child's bottom edge.
    let root = Element::new("div").with_child(
        Element::new("section")
            .with_child(Element::new("p"))
            .with_child(Element::new("p")),
    );
    let engine = RenderEngine::new(400, 300);
    let mut tree = engine.build_render_tree(&doc(root), &StyleSheet::default());
    engine.layout(&mut tree);
    let section = &tree.root.children[0];
    assert_eq!(section.layout.y, 0);
    assert_eq!(section.layout.height, 8);
    assert_eq!(section.children[0].layout.y, 0);
    assert_eq!(section.children[1].layout.y, 8);
    assert_eq!(tree.root.layout.height, 8);
}

#[test]
fn test_childless_root_has_zero_height() {
    let engine = RenderEngine::new(1024, 768);
    let mut tree = engine.build_render_tree(&doc(Element::new("html")), &StyleSheet::default());
    engine.layout(&mut tree);
    assert_eq!(
        tree.root.layout,
        LayoutBox { x: 0, y: 0, width: 1024, height: 0 }
    );
}

#[test]
fn test_layout_idempotent() {
    let engine = RenderEngine::new(800, 600);
    let mut tree = engine.build_render_tree(&doc(three_leaf_root()), &StyleSheet::default());
    engine.layout(&mut tree);
    let mut first = Vec::new();
    collect_boxes(&tree.root, &mut first);
    engine.layout(&mut tree);
    let mut second = Vec::new();
    collect_boxes(&tree.root, &mut second);
    assert_eq!(first, second);
}

#[test]
fn test_resize_updates_widths() {
    let mut engine = RenderEngine::new(800, 600);
    let mut tree = engine.build_render_tree(&doc(three_leaf_root()), &StyleSheet::default());
    engine.layout(&mut tree);
    let mut before = Vec::new();
    collect_boxes(&tree.root, &mut before);
    for b in &before {
        assert_eq!(b.width, 800);
    }
    engine.resize(400, 600);
    engine.layout(&mut tree);
    let mut after = Vec::new();
    collect_boxes(&tree.root, &mut after);
    assert_eq!(after.len(), before.len());
    for b in &after {
        assert_eq!(b.width, 400);
    }
}

#[test]
fn test_resize_takes_effect_only_on_next_layout() {
    let mut engine = RenderEngine::new(800, 600);
    let mut tree = engine.build_render_tree(&doc(Element::new("html")), &StyleSheet::default());
    engine.layout(&mut tree);
    engine.resize(400, 300);
    // No layout call yet: the tree still carries the old geometry.
    assert_eq!(tree.root.layout.width, 800);
    engine.layout(&mut tree);
    assert_eq!(tree.root.layout.width, 400);
}

#[test]
fn test_render_engine_default_viewport() {
    let engine = RenderEngine::default();
    assert_eq!(engine.viewport_width, 1920);
    assert_eq!(engine.viewport_height, 1080);
}

#[test]
fn test_build_resolves_styles() {
    let sheet = StyleSheet {
        rules: vec![CssRule {
            selector: "p".to_string(),
            declarations: vec![("color".to_string(), "red".to_string())],
        }],
    };
    let root = Element::new("body").with_child(Element::new("p"));
    let engine = RenderEngine::new(800, 600);
    let tree = engine.build_render_tree(&doc(root), &sheet);
    assert_eq!(tree.root.computed_style.color, Color { r: 0, g: 0, b: 0, a: 255 });
    assert_eq!(
        tree.root.children[0].computed_style.color,
        Color { r: 255, g: 0, b: 0, a: 255 }
    );
    let empty = engine.build_render_tree(&doc(Element::new("p")), &StyleSheet::default());
    assert_eq!(empty.root.computed_style, ComputedStyle::default());
}

#[test]
fn test_render_tree_from_parsed_document() {
    let document = HtmlParser::parse("<html></html>", "u").unwrap();
    let engine = RenderEngine::new(640, 480);
    let mut tree: RenderTree = engine.build_render_tree(&document, &StyleSheet::default());
    engine.layout(&mut tree);
    assert_eq!(tree.root.element.tag.as_str(), "html");
    assert_eq!(
        tree.root.layout,
        LayoutBox { x: 0, y: 0, width: 640, height: 0 }
    );
}
