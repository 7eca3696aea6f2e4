//! The render-tree builder and the layout engine. Building pairs every
//! element with its resolved style, preserving tree shape exactly; layout
//! then assigns every node a box by single-pass top-down block flow: each
//! node spans the available width, children stack downward with a fixed
//! 8-pixel gap between blocks, and a node's height is the extent from its
//! own top to its last child's bottom edge (childless nodes have height 0).
//! Geometry is in whole layout pixels.

use crate::style::{resolve, resolve_spec, ComputedStyle, CssRule, StyleSheet};
use crate::types::{elem_like, esize, esize_seq, pre_tags, pre_tags_seq, Document, Element};
use vstd::prelude::*;

verus! {

/// The inter-block gap inserted between consecutive siblings.
pub const BLOCK_GAP: u64 = 8;

/// Geometry assigned to a render node: top-left position and size, in
/// layout pixels, with the origin at the viewport's top-left corner and y
/// growing downward.
#[derive(Debug, Clone, Copy, PartialEq, Eq, Structural)]
pub struct LayoutBox {
    pub x: u64,
    pub y: u64,
    pub width: u64,
    pub height: u64,
}

/// The placeholder box a freshly built node carries before layout runs.
pub open spec fn zero_box() -> LayoutBox {
    LayoutBox { x: 0, y: 0, width: 0, height: 0 }
}

/// One node of the render tree: a copy of its source element, the resolved
/// style, the computed box, and children mirroring the element tree.
#[derive(Debug)]
pub struct RenderNode {
    /// Copy of the source element, kept for painting.
    pub element: Element,
    /// Resolved style for this node.
    pub computed_style: ComputedStyle,
    /// Computed geometry; placeholder zeros until layout runs.
    pub layout: LayoutBox,
    /// Child render nodes, in the same order as the element's children.
    pub children: Vec<RenderNode>,
}

/// A render tree: one root render node.
#[derive(Debug)]
pub struct RenderTree {
    /// Root render node.
    pub root: RenderNode,
}

/// Number of nodes in a render tree.
pub open spec fn rsize(n: RenderNode) -> nat
    decreases n, 1int,
{
    1 + rsize_seq(n.children@)
}

/// Number of nodes in a forest of render trees.
pub open spec fn rsize_seq(s: Seq<RenderNode>) -> nat
    decreases s, 0int,
{
    if s.len() == 0 {
        0
    } else {
        rsize(s[0]) + rsize_seq(s.drop_first())
    }
}

/// The pre-order sequence of tag names of a render tree.
pub open spec fn rtags(n: RenderNode) -> Seq<Seq<char>>
    decreases n, 1int,
{
    seq![n.element.tag@] + rtags_seq(n.children@)
}

/// The concatenated pre-order tag sequences of a render forest.
pub open spec fn rtags_seq(s: Seq<RenderNode>) -> Seq<Seq<char>>
    decreases s, 0int,
{
    if s.len() == 0 {
        Seq::empty()
    } else {
        rtags(s[0]) + rtags_seq(s.drop_first())
    }
}

/// The pre-order sequence of layout boxes of a render tree.
pub open spec fn rboxes(n: RenderNode) -> Seq<LayoutBox>
    decreases n, 1int,
{
    seq![n.layout] + rboxes_seq(n.children@)
}

/// The concatenated pre-order box sequences of a render forest.
pub open spec fn rboxes_seq(s: Seq<RenderNode>) -> Seq<LayoutBox>
    decreases s, 0int,
{
    if s.len() == 0 {
        Seq::empty()
    } else {
        rboxes(s[0]) + rboxes_seq(s.drop_first())
    }
}

/// What building guarantees: the node carries a structural copy of the
/// element, the style the resolver assigns to it, a zeroed placeholder
/// box, and one child node per child element, recursively, in order.
pub open spec fn built_from(n: RenderNode, e: Element, rules: Seq<CssRule>) -> bool
    decreases e,
{
    &&& elem_like(n.element, e)
    &&& n.computed_style == resolve_spec(e.tag@, rules)
    &&& n.layout == zero_box()
    &&& n.children@.len() == e.children@.len()
    &&& forall|i: int|
        0 <= i < e.children@.len() ==> built_from(
            n.children@[i],
            #[trigger] e.children@[i],
            rules,
        )
}

/// The vertical distance from a node's top to child `i`'s top: the heights
/// of the earlier siblings plus one inter-block gap per sibling boundary.
pub open spec fn child_offset(s: Seq<RenderNode>, i: int) -> int
    decreases s, 0int, i,
{
    if i <= 0 || i > s.len() {
        0
    } else {
        child_offset(s, i - 1) + subtree_height(s[i - 1]) + BLOCK_GAP
    }
}

/// The block-flow height of a node: 0 for a childless node, otherwise the
/// extent from the node's top to its last child's bottom edge. Height
/// depends on tree shape alone.
pub open spec fn subtree_height(n: RenderNode) -> int
    decreases n, 1int, 0int,
{
    if n.children@.len() == 0 {
        0
    } else {
        child_offset(n.children@, n.children@.len() - 1) + subtree_height(
            n.children@[n.children@.len() - 1],
        )
    }
}

/// What layout guarantees, relating the tree before the pass (`o`) to the
/// tree after it (`n`): element and style are untouched, the node sits at
/// (x, y) spanning the available width `w`, its height is its block-flow
/// extent, and each child is laid out below its predecessor with the
/// inter-block gap.
pub open spec fn laid_out(o: RenderNode, n: RenderNode, x: int, y: int, w: int) -> bool
    decreases o,
{
    &&& n.element == o.element
    &&& n.computed_style == o.computed_style
    &&& n.layout.x == x
    &&& n.layout.y == y
    &&& n.layout.width == w
    &&& n.layout.height == subtree_height(o)
    &&& n.children@.len() == o.children@.len()
    &&& forall|i: int|
        0 <= i < o.children@.len() ==> laid_out(
            #[trigger] o.children@[i],
            n.children@[i],
            x,
            y + child_offset(o.children@, i),
            w,
        )
}

/// Splitting off the last counted element of a prefix.
proof fn lemma_rsize_seq_snoc(s: Seq<RenderNode>, i: int)
    requires
        0 <= i < s.len(),
    ensures
        rsize_seq(s.subrange(0, i + 1)) == rsize_seq(s.subrange(0, i)) + rsize(s[i]),
    decreases i,
{
    if i == 0 {
        assert(s.subrange(0, 1)[0] == s[0]);
        assert(s.subrange(0, 1).drop_first() =~= s.subrange(0, 0));
    } else {
        lemma_rsize_seq_snoc(s.drop_first(), i - 1);
        assert(s.subrange(0, i + 1)[0] == s[0]);
        assert(s.subrange(0, i + 1).drop_first() =~= s.drop_first().subrange(0, i));
        assert(s.subrange(0, i)[0] == s[0]);
        assert(s.subrange(0, i).drop_first() =~= s.drop_first().subrange(0, i - 1));
        assert(s.drop_first()[i - 1] == s[i]);
    }
}

/// A prefix never counts more nodes than the whole forest.
proof fn lemma_rsize_seq_prefix(s: Seq<RenderNode>, i: int)
    requires
        0 <= i <= s.len(),
    ensures
        rsize_seq(s.subrange(0, i)) <= rsize_seq(s),
    decreases s.len() - i,
{
    if i == s.len() {
        assert(s.subrange(0, i) =~= s);
    } else {
        lemma_rsize_seq_snoc(s, i);
        lemma_rsize_seq_prefix(s, i + 1);
    }
}

/// Offsets are non-negative and bounded by the gap times the nodes that
/// precede them.
proof fn lemma_offset_bound(s: Seq<RenderNode>, i: int)
    requires
        0 <= i <= s.len(),
    ensures
        0 <= child_offset(s, i),
        child_offset(s, i) <= BLOCK_GAP * rsize_seq(s.subrange(0, i)),
    decreases s, 0int, i,
{
    if i > 0 {
        lemma_offset_bound(s, i - 1);
        lemma_height_bound(s[i - 1]);
        lemma_rsize_seq_snoc(s, i - 1);
        assert(BLOCK_GAP * rsize_seq(s.subrange(0, i)) == BLOCK_GAP * rsize_seq(
            s.subrange(0, i - 1),
        ) + BLOCK_GAP * rsize(s[i - 1])) by (nonlinear_arith)
            requires
                rsize_seq(s.subrange(0, i)) == rsize_seq(s.subrange(0, i - 1)) + rsize(s[i - 1]),
        ;
    }
}

/// A subtree's height is non-negative and strictly below the gap times its
/// node count.
pub proof fn lemma_height_bound(n: RenderNode)
    ensures
        0 <= subtree_height(n),
        subtree_height(n) <= BLOCK_GAP * (rsize(n) - 1),
    decreases n, 1int, 0int,
{
    let cs = n.children@;
    let m = cs.len() as int;
    if m > 0 {
        lemma_offset_bound(cs, m - 1);
        lemma_height_bound(cs[m - 1]);
        lemma_rsize_seq_snoc(cs, m - 1);
        assert(cs.subrange(0, m) =~= cs);
        assert(BLOCK_GAP * rsize_seq(cs) == BLOCK_GAP * rsize_seq(cs.subrange(0, m - 1))
            + BLOCK_GAP * rsize(cs[m - 1])) by (nonlinear_arith)
            requires
                rsize_seq(cs) == rsize_seq(cs.subrange(0, m - 1)) + rsize(cs[m - 1]),
        ;
        assert(BLOCK_GAP * (rsize(cs[m - 1]) - 1) + BLOCK_GAP <= BLOCK_GAP * rsize(cs[m - 1]))
            by (nonlinear_arith);
    }
}

/// The render engine: holds the viewport and drives building and layout.
#[derive(Debug, Clone)]
pub struct RenderEngine {
    /// Viewport width in layout pixels.
    pub viewport_width: u64,
    /// Viewport height in layout pixels; recorded for the host, not read
    /// by block-flow layout.
    pub viewport_height: u64,
}

/// Build one render node per element, recursively.
fn build_render_node(element: &Element, sheet: &StyleSheet) -> (n: RenderNode)
    ensures
        built_from(n, *element, sheet.rules@),
    decreases *element,
{
    let computed_style = resolve(element, sheet);
    let mut children: Vec<RenderNode> = Vec::new();
    let m = element.children.len();
    let mut i: usize = 0;
    while i < m
        invariant
            m == element.children@.len(),
            i <= m,
            children@.len() == i,
            forall|k: int|
                0 <= k < i ==> built_from(
                    children@[k],
                    #[trigger] element.children@[k],
                    sheet.rules@,
                ),
        decreases m - i,
    {
        let c = &element.children[i];
        proof {
            assert(decreases_to!(*element => element.children@[i as int]));
        }
        children.push(build_render_node(c, sheet));
        i = i + 1;
    }
    RenderNode {
        element: element.clone(),
        computed_style,
        layout: LayoutBox { x: 0, y: 0, width: 0, height: 0 },
        children,
    }
}

/// Lay out one node at (x, y) with available width `w`, consuming it and
/// returning the laid-out node.
#[verifier::rlimit(60)]
fn layout_node(node: RenderNode, x: u64, y: u64, w: u64) -> (r: RenderNode)
    requires
        y + BLOCK_GAP * rsize(node) <= u64::MAX,
    ensures
        laid_out(node, r, x as int, y as int, w as int),
    decreases node,
{
    let RenderNode { element, computed_style, layout: _, mut children } = node;
    let ghost gc = node.children@;
    let n = children.len();
    let mut new_children: Vec<RenderNode> = Vec::new();
    let mut cursor: u64 = y;
    let mut height: u64 = 0;
    let mut i: usize = 0;
    proof {
        assert(gc.subrange(i as int, n as int) =~= gc);
    }
    while i < n
        invariant
            gc == node.children@,
            n == gc.len(),
            i <= n,
            children@ =~= gc.subrange(i as int, n as int),
            new_children@.len() == i,
            forall|k: int|
                0 <= k < i ==> laid_out(
                    #[trigger] gc[k],
                    new_children@[k],
                    x as int,
                    y + child_offset(gc, k),
                    w as int,
                ),
            cursor == y + child_offset(gc, i as int),
            i > 0 ==> height == child_offset(gc, i - 1) + subtree_height(gc[i - 1]),
            i == 0 ==> height == 0,
            y + BLOCK_GAP * (1 + rsize_seq(gc)) <= u64::MAX,
        decreases n - i,
    {
        let c = children.remove(0);
        proof {
            assert(gc.subrange(i as int, n as int)[0] == gc[i as int]);
            assert(c == gc[i as int]);
            assert(children@ =~= gc.subrange(i as int + 1, n as int));
            assert(decreases_to!(node => node.children@[i as int]));
            lemma_offset_bound(gc, i as int);
            lemma_rsize_seq_snoc(gc, i as int);
            lemma_rsize_seq_prefix(gc, i as int + 1);
            assert(BLOCK_GAP * rsize_seq(gc.subrange(0, i as int + 1)) == BLOCK_GAP * rsize_seq(
                gc.subrange(0, i as int),
            ) + BLOCK_GAP * rsize(gc[i as int])) by (nonlinear_arith)
                requires
                    rsize_seq(gc.subrange(0, i as int + 1)) == rsize_seq(gc.subrange(0, i as int))
                        + rsize(gc[i as int]),
            ;
            assert(BLOCK_GAP * rsize_seq(gc.subrange(0, i as int + 1)) <= BLOCK_GAP * rsize_seq(gc))
                by (nonlinear_arith)
                requires
                    rsize_seq(gc.subrange(0, i as int + 1)) <= rsize_seq(gc),
            ;
        }
        let laid = layout_node(c, x, cursor, w);
        proof {
            lemma_height_bound(gc[i as int]);
        }
        let bottom: u64 = laid.layout.y + laid.layout.height;
        height = bottom - y;
        cursor = bottom + BLOCK_GAP;
        new_children.push(laid);
        i = i + 1;
    }
    proof {
        if n == 0 {
            assert(subtree_height(node) == 0);
        } else {
            assert(subtree_height(node) == child_offset(gc, n - 1) + subtree_height(gc[n - 1]));
        }
    }
    RenderNode {
        element,
        computed_style,
        layout: LayoutBox { x, y, width: w, height },
        children: new_children,
    }
}

impl RenderEngine {
    /// Create a render engine for the given viewport.
    pub fn new(width: u64, height: u64) -> (e: RenderEngine)
        ensures
            e.viewport_width == width,
            e.viewport_height == height,
    {
        RenderEngine { viewport_width: width, viewport_height: height }
    }

    /// Change the viewport; the change takes effect on the next explicit
    /// layout call, never retroactively.
    pub fn resize(&mut self, width: u64, height: u64)
        ensures
            final(self).viewport_width == width,
            final(self).viewport_height == height,
    {
        self.viewport_width = width;
        self.viewport_height = height;
    }

    /// Build the render tree for a document: one render node per element
    /// in the same shape and order, each with the style the resolver
    /// assigns against the given stylesheet, and placeholder geometry.
    pub fn build_render_tree(&self, document: &Document, sheet: &StyleSheet) -> (tree: RenderTree)
        ensures
            built_from(tree.root, document.root, sheet.rules@),
    {
        RenderTree { root: build_render_node(&document.root, sheet) }
    }

    /// Lay out the render tree for the current viewport: the root lands at
    /// the origin spanning the viewport width, children stack downward
    /// with the inter-block gap, and every box is recomputed from scratch.
    /// The node-count bound keeps all positions within 64-bit pixels.
    pub fn layout(&self, tree: &mut RenderTree)
        requires
            BLOCK_GAP * rsize(old(tree).root) <= u64::MAX,
        ensures
            laid_out(old(tree).root, final(tree).root, 0, 0, self.viewport_width as int),
    {
        let mut root = RenderNode {
            element: Element::new("div"),
            computed_style: ComputedStyle::default(),
            layout: LayoutBox { x: 0, y: 0, width: 0, height: 0 },
            children: Vec::new(),
        };
        core::mem::swap(&mut root, &mut tree.root);
        tree.root = layout_node(root, 0, 0, self.viewport_width);
    }
}

impl Default for RenderEngine {
    /// A render engine for a 1920 by 1080 viewport.
    fn default() -> (e: RenderEngine)
        ensures
            e.viewport_width == 1920,
            e.viewport_height == 1080,
    {
        RenderEngine { viewport_width: 1920, viewport_height: 1080 }
    }
}

/// Every node of a laid-out tree spans exactly `w`.
pub open spec fn all_widths(n: RenderNode, w: int) -> bool
    decreases n,
{
    &&& n.layout.width == w
    &&& forall|i: int| 0 <= i < n.children@.len() ==> all_widths(#[trigger] n.children@[i], w)
}

/// Law: building is a structural isomorphism. The render tree carries
/// exactly the element tree's pre-order tag sequence, and therefore the
/// same node count in the same order.
pub proof fn lemma_build_isomorphism(n: RenderNode, e: Element, rules: Seq<CssRule>)
    requires
        built_from(n, e, rules),
    ensures
        rtags(n) == pre_tags(e),
        rsize(n) == esize(e),
    decreases e, 1int,
{
    lemma_build_isomorphism_seq(n.children@, e.children@, rules);
    assert(rtags(n) =~= pre_tags(e));
}

/// The forest form of the isomorphism law.
proof fn lemma_build_isomorphism_seq(ns: Seq<RenderNode>, es: Seq<Element>, rules: Seq<CssRule>)
    requires
        ns.len() == es.len(),
        forall|i: int| 0 <= i < es.len() ==> built_from(ns[i], #[trigger] es[i], rules),
    ensures
        rtags_seq(ns) == pre_tags_seq(es),
        rsize_seq(ns) == esize_seq(es),
    decreases es, 0int,
{
    if es.len() > 0 {
        lemma_build_isomorphism(ns[0], es[0], rules);
        assert forall|i: int|
            0 <= i < es.drop_first().len() implies built_from(
            ns.drop_first()[i],
            #[trigger] es.drop_first()[i],
            rules,
        ) by {
            assert(es.drop_first()[i] == es[i + 1]);
            assert(ns.drop_first()[i] == ns[i + 1]);
        }
        lemma_build_isomorphism_seq(ns.drop_first(), es.drop_first(), rules);
        assert(rtags_seq(ns) =~= pre_tags_seq(es));
    }
}

/// Law: after a layout pass at available width `w`, every node's width
/// field equals `w` — re-laying out after a resize leaves no stale width.
pub proof fn lemma_layout_sets_widths(o: RenderNode, n: RenderNode, x: int, y: int, w: int)
    requires
        laid_out(o, n, x, y, w),
    ensures
        all_widths(n, w),
    decreases o,
{
    assert forall|i: int| 0 <= i < n.children@.len() implies all_widths(
        #[trigger] n.children@[i],
        w,
    ) by {
        lemma_layout_sets_widths(
            o.children@[i],
            n.children@[i],
            x,
            y + child_offset(o.children@, i),
            w,
        );
    }
}

/// A layout pass preserves each subtree's block-flow height, which
/// depends on tree shape alone.
proof fn lemma_laid_height(o: RenderNode, n: RenderNode, x: int, y: int, w: int)
    requires
        laid_out(o, n, x, y, w),
    ensures
        subtree_height(n) == subtree_height(o),
    decreases o,
{
    assert forall|i: int|
        0 <= i < o.children@.len() implies subtree_height(#[trigger] n.children@[i])
        == subtree_height(o.children@[i]) by {
        lemma_laid_height(
            o.children@[i],
            n.children@[i],
            x,
            y + child_offset(o.children@, i),
            w,
        );
    }
    if o.children@.len() > 0 {
        lemma_offsets_eq(n.children@, o.children@, o.children@.len() - 1);
    }
}

/// Offsets agree when the sibling heights before them agree.
proof fn lemma_offsets_eq(a: Seq<RenderNode>, b: Seq<RenderNode>, i: int)
    requires
        a.len() == b.len(),
        0 <= i <= a.len(),
        forall|k: int| 0 <= k < i ==> subtree_height(#[trigger] a[k]) == subtree_height(b[k]),
    ensures
        child_offset(a, i) == child_offset(b, i),
    decreases i,
{
    if i > 0 {
        lemma_offsets_eq(a, b, i - 1);
    }
}

/// Laying out an already laid-out tree is a layout of the original:
/// geometry depends only on shape, which the first pass preserved.
proof fn lemma_relaid(o: RenderNode, a: RenderNode, b: RenderNode, x: int, y: int, w: int)
    requires
        laid_out(o, a, x, y, w),
        laid_out(a, b, x, y, w),
    ensures
        laid_out(o, b, x, y, w),
    decreases o,
{
    lemma_laid_height(o, a, x, y, w);
    assert forall|k: int|
        0 <= k < a.children@.len() implies subtree_height(#[trigger] a.children@[k])
        == subtree_height(o.children@[k]) by {
        lemma_laid_height(
            o.children@[k],
            a.children@[k],
            x,
            y + child_offset(o.children@, k),
            w,
        );
    }
    assert forall|i: int| 0 <= i < o.children@.len() implies laid_out(
        #[trigger] o.children@[i],
        b.children@[i],
        x,
        y + child_offset(o.children@, i),
        w,
    ) by {
        lemma_offsets_eq(a.children@, o.children@, i);
        lemma_relaid(
            o.children@[i],
            a.children@[i],
            b.children@[i],
            x,
            y + child_offset(o.children@, i),
            w,
        );
    }
}

/// Pre-order box sequences agree when they agree subtree by subtree.
proof fn lemma_rboxes_seq_congruent(a: Seq<RenderNode>, b: Seq<RenderNode>)
    requires
        a.len() == b.len(),
        forall|i: int| 0 <= i < a.len() ==> rboxes(#[trigger] a[i]) == rboxes(b[i]),
    ensures
        rboxes_seq(a) == rboxes_seq(b),
    decreases a.len(),
{
    if a.len() > 0 {
        assert forall|i: int|
            0 <= i < a.drop_first().len() implies rboxes(#[trigger] a.drop_first()[i]) == rboxes(
            b.drop_first()[i],
        ) by {
            assert(a.drop_first()[i] == a[i + 1]);
            assert(b.drop_first()[i] == b[i + 1]);
        }
        lemma_rboxes_seq_congruent(a.drop_first(), b.drop_first());
    }
}

/// Law: layout is deterministic — two layout passes over the same tree at
/// the same position and width produce identical boxes at every node.
pub proof fn lemma_layout_deterministic(
    o: RenderNode,
    a: RenderNode,
    b: RenderNode,
    x: int,
    y: int,
    w: int,
)
    requires
        laid_out(o, a, x, y, w),
        laid_out(o, b, x, y, w),
    ensures
        rboxes(a) == rboxes(b),
    decreases o,
{
    assert forall|i: int|
        0 <= i < a.children@.len() implies rboxes(#[trigger] a.children@[i]) == rboxes(
        b.children@[i],
    ) by {
        lemma_layout_deterministic(
            o.children@[i],
            a.children@[i],
            b.children@[i],
            x,
            y + child_offset(o.children@, i),
            w,
        );
    }
    lemma_rboxes_seq_congruent(a.children@, b.children@);
}

/// Law: layout is idempotent. Laying out the same tree twice with an
/// unchanged viewport yields identical geometry both times, with no
/// hidden state carried between runs.
pub proof fn lemma_layout_idempotent(
    o: RenderNode,
    a: RenderNode,
    b: RenderNode,
    x: int,
    y: int,
    w: int,
)
    requires
        laid_out(o, a, x, y, w),
        laid_out(a, b, x, y, w),
    ensures
        rboxes(b) == rboxes(a),
{
    lemma_relaid(o, a, b, x, y, w);
    lemma_layout_deterministic(o, a, b, x, y, w);
}

} // verus!
