//! What holds of every scene that scene construction builds.
use vstd::prelude::*;
use crate::layout::{Alignment, Layout, LayoutNode, LayoutVariant};
use crate::scene::{
    SceneSettings, SceneShape, built_scene, buildable, debug_shape, hbox_node_shapes, hbox_run,
    hbox_shapes, hbox_start, rgba_color, vbox_node_shapes, vbox_run,
};

verus! {

// ---------------------------------------------------------------------
// Removing debug boxes.
// ---------------------------------------------------------------------

/// A shape with every debug box inside it removed.
pub open spec fn strip_shape(s: SceneShape) -> Seq<SceneShape>
    decreases s, 0nat,
{
    match s {
        SceneShape::DebugBox { .. } => Seq::empty(),
        SceneShape::Color { color, contents } => seq![SceneShape::Color { color, contents: strip_debug(contents) }],
        _ => seq![s],
    }
}

/// Shapes with every debug box, at any depth, removed; the rest keeps its order.
pub open spec fn strip_debug(s: Seq<SceneShape>) -> Seq<SceneShape>
    decreases s, 1nat,
{
    if s.len() == 0 {
        Seq::empty()
    } else {
        strip_debug(s.drop_last()) + strip_shape(s.last())
    }
}

/// Whether a shape holds no debug box at any depth.
pub open spec fn shape_free_of_debug(s: SceneShape) -> bool
    decreases s, 0nat,
{
    match s {
        SceneShape::DebugBox { .. } => false,
        SceneShape::Color { contents, .. } => free_of_debug(contents),
        _ => true,
    }
}

/// Whether shapes hold no debug box at any depth.
pub open spec fn free_of_debug(s: Seq<SceneShape>) -> bool
    decreases s, 1nat,
{
    s.len() == 0 || (free_of_debug(s.drop_last()) && shape_free_of_debug(s.last()))
}

proof fn lemma_strip_append(a: Seq<SceneShape>, b: Seq<SceneShape>)
    ensures
        strip_debug(a + b) == strip_debug(a) + strip_debug(b),
    decreases b.len(),
{
    if b.len() == 0 {
        assert(a + b =~= a);
        assert(strip_debug(a) + strip_debug(b) =~= strip_debug(a));
    } else {
        lemma_strip_append(a, b.drop_last());
        assert((a + b).drop_last() =~= a + b.drop_last());
        assert((a + b).last() == b.last());
        assert(strip_debug(a + b) =~= strip_debug(a) + strip_debug(b));
    }
}

proof fn lemma_strip_single(s: SceneShape)
    ensures
        strip_debug(seq![s]) == strip_shape(s),
{
    assert(seq![s].drop_last() =~= Seq::<SceneShape>::empty());
    assert(strip_debug(Seq::<SceneShape>::empty()) =~= Seq::<SceneShape>::empty());
    assert(seq![s].last() == s);
    assert(strip_debug(seq![s]) =~= strip_shape(s));
}

proof fn lemma_free_append(a: Seq<SceneShape>, b: Seq<SceneShape>)
    ensures
        free_of_debug(a + b) == (free_of_debug(a) && free_of_debug(b)),
    decreases b.len(),
{
    if b.len() == 0 {
        assert(a + b =~= a);
    } else {
        lemma_free_append(a, b.drop_last());
        assert((a + b).drop_last() =~= a + b.drop_last());
        assert((a + b).last() == b.last());
    }
}

proof fn lemma_free_single(s: SceneShape)
    ensures
        free_of_debug(seq![s]) == shape_free_of_debug(s),
{
    assert(seq![s].drop_last() =~= Seq::<SceneShape>::empty());
    assert(free_of_debug(Seq::<SceneShape>::empty()));
    assert(seq![s].last() == s);
}

proof fn lemma_stripped_is_free(s: Seq<SceneShape>)
    ensures
        free_of_debug(strip_debug(s)),
    decreases s, 1nat,
{
    if s.len() > 0 {
        lemma_stripped_is_free(s.drop_last());
        lemma_stripped_shape_is_free(s.last());
        lemma_free_append(strip_debug(s.drop_last()), strip_shape(s.last()));
    }
}

proof fn lemma_stripped_shape_is_free(s: SceneShape)
    ensures
        free_of_debug(strip_shape(s)),
    decreases s, 0nat,
{
    match s {
        SceneShape::DebugBox { .. } => {},
        SceneShape::Color { color, contents } => {
            lemma_stripped_is_free(contents);
            lemma_free_single(SceneShape::Color { color, contents: strip_debug(contents) });
        },
        _ => {
            lemma_free_single(s);
        },
    }
}

proof fn lemma_strip_debug_shape(x: int, y: int, w: int, h: int, kind: crate::scene::DebugBoxKind)
    ensures
        strip_debug(debug_shape(true, x, y, w, h, kind)) == Seq::<SceneShape>::empty(),
        debug_shape(false, x, y, w, h, kind) == Seq::<SceneShape>::empty(),
{
    lemma_strip_single(SceneShape::DebugBox { x, y, width: w, height: h, kind });
}

proof fn lemma_strip_hbox_node(x: int, y: int, node: LayoutNode)
    ensures
        strip_debug(hbox_node_shapes(true, x, y, node).0) == hbox_node_shapes(false, x, y, node).0,
        hbox_node_shapes(true, x, y, node).1 ==> hbox_node_shapes(false, x, y, node).1,
    decreases node, 0nat,
{
    let w = node.width as int;
    let h = node.height as int;
    let d = node.depth as int;
    match node.node {
        LayoutVariant::Glyph(g) => {
            let glyph = SceneShape::Glyph { x, y, unicode: g.unicode, scale: g.scale as int };
            lemma_strip_debug_shape(x, y - h, w, h - d, crate::scene::DebugBoxKind::Glyph);
            lemma_strip_append(debug_shape(true, x, y - h, w, h - d, crate::scene::DebugBoxKind::Glyph), seq![glyph]);
            lemma_strip_single(glyph);
            assert(Seq::<SceneShape>::empty() + seq![glyph] =~= seq![glyph]);
        },
        LayoutVariant::Rule => {
            lemma_strip_single(SceneShape::Rule { x, y: y - h, width: w, height: h });
        },
        LayoutVariant::VerticalBox(vb) => {
            lemma_strip_vbox_run(x, y - h, vb.contents@);
            let inner = vbox_run(true, x, y - h, vb.contents@).0;
            lemma_strip_debug_shape(x, y - h, w, h - d, crate::scene::DebugBoxKind::VerticalBox);
            lemma_strip_append(debug_shape(true, x, y - h, w, h - d, crate::scene::DebugBoxKind::VerticalBox), inner);
            assert(Seq::<SceneShape>::empty() + strip_debug(inner) =~= strip_debug(inner));
            assert(Seq::<SceneShape>::empty() + vbox_run(false, x, y - h, vb.contents@).0
                =~= vbox_run(false, x, y - h, vb.contents@).0);
        },
        LayoutVariant::HorizontalBox(hb) => {
            lemma_strip_hbox_shapes(x, y, hb.contents@, h, w, hb.alignment);
        },
        LayoutVariant::Color(c) => {
            lemma_strip_hbox_shapes(x, y, c.inner@, h, w, Alignment::Default);
            let inner = hbox_shapes(true, x, y, c.inner@, h, w, Alignment::Default).0;
            lemma_strip_single(SceneShape::Color { color: crate::scene::rgba_color(c.color), contents: inner });
        },
        LayoutVariant::Kern => {},
    }
}

proof fn lemma_strip_hbox_run(x: int, y: int, nodes: Seq<LayoutNode>)
    ensures
        strip_debug(hbox_run(true, x, y, nodes).0) == hbox_run(false, x, y, nodes).0,
        hbox_run(true, x, y, nodes).1 == hbox_run(false, x, y, nodes).1,
        hbox_run(true, x, y, nodes).2 ==> hbox_run(false, x, y, nodes).2,
    decreases nodes, 1nat,
{
    if nodes.len() > 0 {
        lemma_strip_hbox_run(x, y, nodes.drop_last());
        let before = hbox_run(true, x, y, nodes.drop_last());
        lemma_strip_hbox_node(before.1, y, nodes.last());
        lemma_strip_append(before.0, hbox_node_shapes(true, before.1, y, nodes.last()).0);
    } else {
        assert(strip_debug(Seq::<SceneShape>::empty()) == Seq::<SceneShape>::empty());
    }
}

proof fn lemma_strip_hbox_shapes(
    x: int,
    y: int,
    nodes: Seq<LayoutNode>,
    height: int,
    nodes_width: int,
    alignment: Alignment,
)
    ensures
        strip_debug(hbox_shapes(true, x, y, nodes, height, nodes_width, alignment).0)
            == hbox_shapes(false, x, y, nodes, height, nodes_width, alignment).0,
        hbox_shapes(true, x, y, nodes, height, nodes_width, alignment).1
            ==> hbox_shapes(false, x, y, nodes, height, nodes_width, alignment).1,
    decreases nodes, 2nat,
{
    let start = hbox_start(x, nodes_width, alignment);
    lemma_strip_hbox_run(start, y, nodes);
    let run = hbox_run(true, start, y, nodes).0;
    let dbg = debug_shape(true, start, y - height, nodes_width, height, crate::scene::DebugBoxKind::HorizontalBox);
    lemma_strip_debug_shape(start, y - height, nodes_width, height, crate::scene::DebugBoxKind::HorizontalBox);
    lemma_strip_append(dbg, run);
    assert(Seq::<SceneShape>::empty() + strip_debug(run) =~= strip_debug(run));
    assert(Seq::<SceneShape>::empty() + hbox_run(false, start, y, nodes).0 =~= hbox_run(false, start, y, nodes).0);
}

proof fn lemma_strip_vbox_node(x: int, y: int, node: LayoutNode)
    ensures
        strip_debug(vbox_node_shapes(true, x, y, node).0) == vbox_node_shapes(false, x, y, node).0,
        vbox_node_shapes(true, x, y, node).1 ==> vbox_node_shapes(false, x, y, node).1,
    decreases node, 0nat,
{
    let w = node.width as int;
    let h = node.height as int;
    let d = node.depth as int;
    match node.node {
        LayoutVariant::Glyph(g) => {
            let glyph = SceneShape::Glyph { x, y: y + h, unicode: g.unicode, scale: g.scale as int };
            lemma_strip_debug_shape(x, y, w, h - d, crate::scene::DebugBoxKind::Glyph);
            lemma_strip_append(debug_shape(true, x, y, w, h - d, crate::scene::DebugBoxKind::Glyph), seq![glyph]);
            lemma_strip_single(glyph);
            assert(Seq::<SceneShape>::empty() + seq![glyph] =~= seq![glyph]);
        },
        LayoutVariant::Rule => {
            lemma_strip_single(SceneShape::Rule { x, y, width: w, height: h });
        },
        LayoutVariant::VerticalBox(vb) => {
            lemma_strip_vbox_run(x, y, vb.contents@);
            let inner = vbox_run(true, x, y, vb.contents@).0;
            lemma_strip_debug_shape(x, y, w, h - d, crate::scene::DebugBoxKind::VerticalBox);
            lemma_strip_append(debug_shape(true, x, y, w, h - d, crate::scene::DebugBoxKind::VerticalBox), inner);
            assert(Seq::<SceneShape>::empty() + strip_debug(inner) =~= strip_debug(inner));
            assert(Seq::<SceneShape>::empty() + vbox_run(false, x, y, vb.contents@).0
                =~= vbox_run(false, x, y, vb.contents@).0);
        },
        LayoutVariant::HorizontalBox(hb) => {
            lemma_strip_hbox_shapes(x, y + h, hb.contents@, h, w, hb.alignment);
        },
        LayoutVariant::Color(c) => {
            lemma_strip_hbox_shapes(x, y + h, c.inner@, h, w, Alignment::Default);
            let inner = hbox_shapes(true, x, y + h, c.inner@, h, w, Alignment::Default).0;
            lemma_strip_single(SceneShape::Color { color: crate::scene::rgba_color(c.color), contents: inner });
        },
        LayoutVariant::Kern => {},
    }
}

proof fn lemma_strip_vbox_run(x: int, y: int, nodes: Seq<LayoutNode>)
    ensures
        strip_debug(vbox_run(true, x, y, nodes).0) == vbox_run(false, x, y, nodes).0,
        vbox_run(true, x, y, nodes).1 == vbox_run(false, x, y, nodes).1,
        vbox_run(true, x, y, nodes).2 ==> vbox_run(false, x, y, nodes).2,
    decreases nodes, 1nat,
{
    if nodes.len() > 0 {
        lemma_strip_vbox_run(x, y, nodes.drop_last());
        let before = vbox_run(true, x, y, nodes.drop_last());
        lemma_strip_vbox_node(x, before.1, nodes.last());
        lemma_strip_append(before.0, vbox_node_shapes(true, x, before.1, nodes.last()).0);
    } else {
        assert(strip_debug(Seq::<SceneShape>::empty()) == Seq::<SceneShape>::empty());
    }
}

/// The same settings with debugging switched on or off.
pub open spec fn with_debug(settings: SceneSettings, debug: bool) -> SceneSettings {
    SceneSettings {
        horizontal_padding: settings.horizontal_padding,
        vertical_padding: settings.vertical_padding,
        debug,
    }
}

/// Debug boxes are scene data added on top of the drawing: removing every
/// debug box from the scene built with debugging on gives exactly the
/// scene built with it off (same size, same nodes in the same order), and
/// a layout that can be built with debugging on can be built with it off.
pub proof fn law_debug_boxes_only_add(settings: SceneSettings, layout: Layout)
    ensures
        strip_debug(built_scene(with_debug(settings, true), layout).shapes)
            == built_scene(with_debug(settings, false), layout).shapes,
        built_scene(with_debug(settings, true), layout).width
            == built_scene(with_debug(settings, false), layout).width,
        built_scene(with_debug(settings, true), layout).height
            == built_scene(with_debug(settings, false), layout).height,
        buildable(with_debug(settings, true), layout) ==> buildable(with_debug(settings, false), layout),
{
    let hp = settings.horizontal_padding as int;
    let vp = settings.vertical_padding as int;
    lemma_strip_hbox_shapes(hp, vp + layout.height, layout.contents@, layout.height as int, layout.width as int, Alignment::Default);
}

/// With debugging off, a built scene holds no debug box at any depth.
pub proof fn law_no_debug_boxes_without_debug(settings: SceneSettings, layout: Layout)
    requires
        !settings.debug,
    ensures
        free_of_debug(built_scene(settings, layout).shapes),
{
    law_debug_boxes_only_add(settings, layout);
    assert(with_debug(settings, false) == settings);
    lemma_stripped_is_free(built_scene(with_debug(settings, true), layout).shapes);
}


// ---------------------------------------------------------------------
// Moving a drawing.
// ---------------------------------------------------------------------

/// A shape moved by `(dx, dy)`, with everything inside it.
pub open spec fn shift_shape(s: SceneShape, dx: int, dy: int) -> SceneShape
    decreases s, 0nat,
{
    match s {
        SceneShape::Glyph { x, y, unicode, scale } => SceneShape::Glyph { x: x + dx, y: y + dy, unicode, scale },
        SceneShape::Rule { x, y, width, height } => SceneShape::Rule { x: x + dx, y: y + dy, width, height },
        SceneShape::Color { color, contents } => SceneShape::Color { color, contents: shift_shapes(contents, dx, dy) },
        SceneShape::DebugBox { x, y, width, height, kind } => SceneShape::DebugBox {
            x: x + dx,
            y: y + dy,
            width,
            height,
            kind,
        },
    }
}

/// Shapes moved by `(dx, dy)`, element by element.
pub open spec fn shift_shapes(s: Seq<SceneShape>, dx: int, dy: int) -> Seq<SceneShape>
    decreases s, 1nat,
{
    Seq::new(
        s.len(),
        |i: int|
            if 0 <= i < s.len() {
                shift_shape(s[i], dx, dy)
            } else {
                SceneShape::Rule { x: 0, y: 0, width: 0, height: 0 }
            },
    )
}

proof fn lemma_shift_append(a: Seq<SceneShape>, b: Seq<SceneShape>, dx: int, dy: int)
    ensures
        shift_shapes(a + b, dx, dy) == shift_shapes(a, dx, dy) + shift_shapes(b, dx, dy),
{
    assert(shift_shapes(a + b, dx, dy) =~= shift_shapes(a, dx, dy) + shift_shapes(b, dx, dy));
}

proof fn lemma_shift_single(s: SceneShape, dx: int, dy: int)
    ensures
        shift_shapes(seq![s], dx, dy) == seq![shift_shape(s, dx, dy)],
{
    assert(shift_shapes(seq![s], dx, dy) =~= seq![shift_shape(s, dx, dy)]);
}

proof fn lemma_shift_empty(dx: int, dy: int)
    ensures
        shift_shapes(Seq::<SceneShape>::empty(), dx, dy) == Seq::<SceneShape>::empty(),
{
    assert(shift_shapes(Seq::<SceneShape>::empty(), dx, dy) =~= Seq::<SceneShape>::empty());
}

proof fn lemma_shift_debug_shape(
    debug: bool,
    x: int,
    y: int,
    w: int,
    h: int,
    kind: crate::scene::DebugBoxKind,
    dx: int,
    dy: int,
)
    ensures
        debug_shape(debug, x + dx, y + dy, w, h, kind) == shift_shapes(debug_shape(debug, x, y, w, h, kind), dx, dy),
{
    lemma_shift_empty(dx, dy);
    lemma_shift_single(SceneShape::DebugBox { x, y, width: w, height: h, kind }, dx, dy);
}

proof fn lemma_shift_hbox_node(debug: bool, x: int, y: int, node: LayoutNode, dx: int, dy: int)
    ensures
        hbox_node_shapes(debug, x + dx, y + dy, node).0 == shift_shapes(hbox_node_shapes(debug, x, y, node).0, dx, dy),
    decreases node, 0nat,
{
    let w = node.width as int;
    let h = node.height as int;
    let d = node.depth as int;
    match node.node {
        LayoutVariant::Glyph(g) => {
            let glyph = SceneShape::Glyph { x, y, unicode: g.unicode, scale: g.scale as int };
            lemma_shift_debug_shape(debug, x, y - h, w, h - d, crate::scene::DebugBoxKind::Glyph, dx, dy);
            assert(y + dy - h == y - h + dy);
            lemma_shift_single(glyph, dx, dy);
            lemma_shift_append(debug_shape(debug, x, y - h, w, h - d, crate::scene::DebugBoxKind::Glyph), seq![glyph], dx, dy);
        },
        LayoutVariant::Rule => {
            lemma_shift_single(SceneShape::Rule { x, y: y - h, width: w, height: h }, dx, dy);
            assert(y + dy - h == y - h + dy);
        },
        LayoutVariant::VerticalBox(vb) => {
            lemma_shift_vbox_run(debug, x, y - h, vb.contents@, dx, dy);
            assert(y + dy - h == y - h + dy);
            lemma_shift_debug_shape(debug, x, y - h, w, h - d, crate::scene::DebugBoxKind::VerticalBox, dx, dy);
            lemma_shift_append(
                debug_shape(debug, x, y - h, w, h - d, crate::scene::DebugBoxKind::VerticalBox),
                vbox_run(debug, x, y - h, vb.contents@).0,
                dx,
                dy,
            );
        },
        LayoutVariant::HorizontalBox(hb) => {
            lemma_shift_hbox_shapes(debug, x, y, hb.contents@, h, w, hb.alignment, dx, dy);
        },
        LayoutVariant::Color(c) => {
            lemma_shift_hbox_shapes(debug, x, y, c.inner@, h, w, Alignment::Default, dx, dy);
            let inner = hbox_shapes(debug, x, y, c.inner@, h, w, Alignment::Default).0;
            lemma_shift_single(SceneShape::Color { color: crate::scene::rgba_color(c.color), contents: inner }, dx, dy);
        },
        LayoutVariant::Kern => {
            lemma_shift_empty(dx, dy);
        },
    }
}

proof fn lemma_shift_hbox_run(debug: bool, x: int, y: int, nodes: Seq<LayoutNode>, dx: int, dy: int)
    ensures
        hbox_run(debug, x + dx, y + dy, nodes).0 == shift_shapes(hbox_run(debug, x, y, nodes).0, dx, dy),
        hbox_run(debug, x + dx, y + dy, nodes).1 == hbox_run(debug, x, y, nodes).1 + dx,
    decreases nodes, 1nat,
{
    if nodes.len() > 0 {
        lemma_shift_hbox_run(debug, x, y, nodes.drop_last(), dx, dy);
        let before = hbox_run(debug, x, y, nodes.drop_last());
        lemma_shift_hbox_node(debug, before.1, y, nodes.last(), dx, dy);
        lemma_shift_append(before.0, hbox_node_shapes(debug, before.1, y, nodes.last()).0, dx, dy);
    } else {
        lemma_shift_empty(dx, dy);
    }
}

proof fn lemma_shift_hbox_shapes(
    debug: bool,
    x: int,
    y: int,
    nodes: Seq<LayoutNode>,
    height: int,
    nodes_width: int,
    alignment: Alignment,
    dx: int,
    dy: int,
)
    ensures
        hbox_shapes(debug, x + dx, y + dy, nodes, height, nodes_width, alignment).0
            == shift_shapes(hbox_shapes(debug, x, y, nodes, height, nodes_width, alignment).0, dx, dy),
    decreases nodes, 2nat,
{
    let start = hbox_start(x, nodes_width, alignment);
    assert(hbox_start(x + dx, nodes_width, alignment) == start + dx);
    lemma_shift_hbox_run(debug, start, y, nodes, dx, dy);
    assert(y + dy - height == y - height + dy);
    lemma_shift_debug_shape(debug, start, y - height, nodes_width, height, crate::scene::DebugBoxKind::HorizontalBox, dx, dy);
    lemma_shift_append(
        debug_shape(debug, start, y - height, nodes_width, height, crate::scene::DebugBoxKind::HorizontalBox),
        hbox_run(debug, start, y, nodes).0,
        dx,
        dy,
    );
}

proof fn lemma_shift_vbox_node(debug: bool, x: int, y: int, node: LayoutNode, dx: int, dy: int)
    ensures
        vbox_node_shapes(debug, x + dx, y + dy, node).0 == shift_shapes(vbox_node_shapes(debug, x, y, node).0, dx, dy),
    decreases node, 0nat,
{
    let w = node.width as int;
    let h = node.height as int;
    let d = node.depth as int;
    match node.node {
        LayoutVariant::Glyph(g) => {
            let glyph = SceneShape::Glyph { x, y: y + h, unicode: g.unicode, scale: g.scale as int };
            lemma_shift_debug_shape(debug, x, y, w, h - d, crate::scene::DebugBoxKind::Glyph, dx, dy);
            assert(y + dy + h == y + h + dy);
            lemma_shift_single(glyph, dx, dy);
            lemma_shift_append(debug_shape(debug, x, y, w, h - d, crate::scene::DebugBoxKind::Glyph), seq![glyph], dx, dy);
        },
        LayoutVariant::Rule => {
            lemma_shift_single(SceneShape::Rule { x, y, width: w, height: h }, dx, dy);
        },
        LayoutVariant::VerticalBox(vb) => {
            lemma_shift_vbox_run(debug, x, y, vb.contents@, dx, dy);
            lemma_shift_debug_shape(debug, x, y, w, h - d, crate::scene::DebugBoxKind::VerticalBox, dx, dy);
            lemma_shift_append(
                debug_shape(debug, x, y, w, h - d, crate::scene::DebugBoxKind::VerticalBox),
                vbox_run(debug, x, y, vb.contents@).0,
                dx,
                dy,
            );
        },
        LayoutVariant::HorizontalBox(hb) => {
            assert(y + dy + h == y + h + dy);
            lemma_shift_hbox_shapes(debug, x, y + h, hb.contents@, h, w, hb.alignment, dx, dy);
        },
        LayoutVariant::Color(c) => {
            assert(y + dy + h == y + h + dy);
            lemma_shift_hbox_shapes(debug, x, y + h, c.inner@, h, w, Alignment::Default, dx, dy);
            let inner = hbox_shapes(debug, x, y + h, c.inner@, h, w, Alignment::Default).0;
            lemma_shift_single(SceneShape::Color { color: crate::scene::rgba_color(c.color), contents: inner }, dx, dy);
        },
        LayoutVariant::Kern => {
            lemma_shift_empty(dx, dy);
        },
    }
}

proof fn lemma_shift_vbox_run(debug: bool, x: int, y: int, nodes: Seq<LayoutNode>, dx: int, dy: int)
    ensures
        vbox_run(debug, x + dx, y + dy, nodes).0 == shift_shapes(vbox_run(debug, x, y, nodes).0, dx, dy),
        vbox_run(debug, x + dx, y + dy, nodes).1 == vbox_run(debug, x, y, nodes).1 + dy,
    decreases nodes, 1nat,
{
    if nodes.len() > 0 {
        lemma_shift_vbox_run(debug, x, y, nodes.drop_last(), dx, dy);
        let before = vbox_run(debug, x, y, nodes.drop_last());
        lemma_shift_vbox_node(debug, x, before.1, nodes.last(), dx, dy);
        lemma_shift_append(before.0, vbox_node_shapes(debug, x, before.1, nodes.last()).0, dx, dy);
    } else {
        lemma_shift_empty(dx, dy);
    }
}

/// The same settings without padding.
pub open spec fn unpadded(settings: SceneSettings) -> SceneSettings {
    SceneSettings { horizontal_padding: 0, vertical_padding: 0, debug: settings.debug }
}

/// Padding only moves the drawing: the scene built with padding is the
/// scene built without it, every node moved right by the horizontal and
/// down by the vertical padding, and grown by twice each padding.
pub proof fn law_padding_translates(settings: SceneSettings, layout: Layout)
    ensures
        built_scene(settings, layout).shapes == shift_shapes(
            built_scene(unpadded(settings), layout).shapes,
            settings.horizontal_padding as int,
            settings.vertical_padding as int,
        ),
        built_scene(settings, layout).width
            == built_scene(unpadded(settings), layout).width + 2 * settings.horizontal_padding,
        built_scene(settings, layout).height
            == built_scene(unpadded(settings), layout).height + 2 * settings.vertical_padding,
{
    let hp = settings.horizontal_padding as int;
    let vp = settings.vertical_padding as int;
    lemma_shift_hbox_shapes(
        settings.debug,
        0,
        0 + layout.height,
        layout.contents@,
        layout.height as int,
        layout.width as int,
        Alignment::Default,
        hp,
        vp,
    );
    assert(0 + hp == hp);
    assert(0 + layout.height + vp == vp + layout.height);
}

// ---------------------------------------------------------------------
// Where boxes place their contents.
// ---------------------------------------------------------------------

/// In a vertical box, a horizontal box (or a color group) is drawn as it
/// would be in a horizontal list whose baseline lies the child's height
/// below the top of its row.
pub proof fn law_vbox_rows_sit_on_their_baseline(debug: bool, x: int, y: int, node: LayoutNode)
    requires
        node.node is HorizontalBox || node.node is Color,
    ensures
        vbox_node_shapes(debug, x, y, node).0 == hbox_node_shapes(debug, x, y + node.height, node).0,
{
}

/// A glyph alone in a horizontal box, itself a row of a vertical box, is
/// drawn at the row's top plus the box's height: where the glyph would be
/// drawn standing in the vertical box directly, were it as high as the box.
pub proof fn law_vbox_hbox_glyph_position(x: int, y: int, node: LayoutNode, g: LayoutNode)
    requires
        node.node matches LayoutVariant::HorizontalBox(hb) && hb.contents@ == seq![g] && !(hb.alignment is Centered),
        g.node is Glyph,
    ensures
        vbox_node_shapes(false, x, y, node).0 == seq![
            SceneShape::Glyph {
                x,
                y: y + node.height,
                unicode: g.node->Glyph_0.unicode,
                scale: g.node->Glyph_0.scale as int,
            },
        ],
        g.height == node.height ==> vbox_node_shapes(false, x, y, node).0 == vbox_node_shapes(false, x, y, g).0,
{
    let hb = node.node->HorizontalBox_0;
    let run = hbox_run(false, x, y + node.height, hb.contents@);
    assert(hb.contents@.drop_last() =~= Seq::<LayoutNode>::empty());
    assert(hbox_run(false, x, y + node.height, Seq::<LayoutNode>::empty()).1 == x);
    assert(hbox_run(false, x, y + node.height, hb.contents@.drop_last()).1 == x);
    assert(hbox_run(false, x, y + node.height, hb.contents@.drop_last()).0 =~= Seq::<SceneShape>::empty());
    assert(hb.contents@.last() == g);
    assert(run.0 =~= Seq::<SceneShape>::empty() + hbox_node_shapes(false, x, y + node.height, g).0);
    assert(debug_shape(false, x, y, node.width as int, node.height as int, crate::scene::DebugBoxKind::HorizontalBox)
        =~= Seq::<SceneShape>::empty());
    assert(debug_shape(false, x, y + node.height - g.height, g.width as int, g.height - g.depth, crate::scene::DebugBoxKind::Glyph)
        =~= Seq::<SceneShape>::empty());
    assert(debug_shape(false, x, y, g.width as int, g.height - g.depth, crate::scene::DebugBoxKind::Glyph)
        =~= Seq::<SceneShape>::empty());
    assert(vbox_node_shapes(false, x, y, node).0 =~= seq![
        SceneShape::Glyph {
            x,
            y: y + node.height,
            unicode: g.node->Glyph_0.unicode,
            scale: g.node->Glyph_0.scale as int,
        },
    ]);
}

/// A color group does not move what it colors: in a horizontal list, its
/// contents are exactly what its inner nodes give as a horizontal box of
/// the same extent at the same origin.
pub proof fn law_color_group_keeps_position(debug: bool, x: int, y: int, node: LayoutNode, plain: LayoutNode)
    requires
        node.node is Color,
        plain.node matches LayoutVariant::HorizontalBox(hb) && hb.contents@ == node.node->Color_0.inner@
            && hb.alignment == Alignment::Default,
        plain.width == node.width,
        plain.height == node.height,
    ensures
        hbox_node_shapes(debug, x, y, node).0 == seq![
            SceneShape::Color {
                color: rgba_color(node.node->Color_0.color),
                contents: hbox_node_shapes(debug, x, y, plain).0,
            },
        ],
{
}

/// A glyph alone in a color group stays on the baseline it was set on.
pub proof fn law_colored_glyph_stays_on_baseline(x: int, y: int, node: LayoutNode, g: LayoutNode)
    requires
        node.node matches LayoutVariant::Color(c) && c.inner@ == seq![g],
        g.node is Glyph,
    ensures
        hbox_node_shapes(false, x, y, node).0 == seq![
            SceneShape::Color {
                color: rgba_color(node.node->Color_0.color),
                contents: seq![
                    SceneShape::Glyph {
                        x,
                        y,
                        unicode: g.node->Glyph_0.unicode,
                        scale: g.node->Glyph_0.scale as int,
                    },
                ],
            },
        ],
{
    let c = node.node->Color_0;
    let run = hbox_run(false, x, y, c.inner@);
    assert(c.inner@.drop_last() =~= Seq::<LayoutNode>::empty());
    assert(hbox_run(false, x, y, Seq::<LayoutNode>::empty()).1 == x);
    assert(hbox_run(false, x, y, c.inner@.drop_last()).1 == x);
    assert(hbox_run(false, x, y, c.inner@.drop_last()).0 =~= Seq::<SceneShape>::empty());
    assert(c.inner@.last() == g);
    assert(run.0 =~= Seq::<SceneShape>::empty() + hbox_node_shapes(false, x, y, g).0);
    assert(debug_shape(false, x, y - g.height, g.width as int, g.height - g.depth, crate::scene::DebugBoxKind::Glyph)
        =~= Seq::<SceneShape>::empty());
    assert(debug_shape(false, x, y - node.height, node.width as int, node.height as int, crate::scene::DebugBoxKind::HorizontalBox)
        =~= Seq::<SceneShape>::empty());
    let inner = hbox_shapes(false, x, y, c.inner@, node.height as int, node.width as int, Alignment::Default);
    assert(inner.0 =~= seq![
        SceneShape::Glyph { x, y, unicode: g.node->Glyph_0.unicode, scale: g.node->Glyph_0.scale as int },
    ]);
}

} // verus!
