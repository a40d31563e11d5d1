//! Scenes: absolute, renderer-independent drawing data built from layout
//! boxes. A scene is an ordered list of nodes (painter order) holding
//! glyphs, rules, color groups and, on request, debug boxes.
pub mod laws;

use vstd::prelude::*;
use crate::font::{FontUnit, fits};
use crate::layout::{Alignment, Layout, LayoutNode, LayoutVariant};
use crate::parser::color::RGBA;

verus! {

/// A position in font units; `y` grows downwards.
#[derive(Copy, Clone, Debug, PartialEq, Eq, Structural)]
pub struct Point {
    pub x: FontUnit,
    pub y: FontUnit,
}

impl Point {
    /// The point moved by `dx` across and `dy` down.
    pub fn translate(self, dx: FontUnit, dy: FontUnit) -> (p: Point)
        requires
            fits(self.x + dx),
            fits(self.y + dy),
        ensures
            p.x == self.x + dx,
            p.y == self.y + dy,
    {
        Point { x: self.x + dx, y: self.y + dy }
    }

    /// The point moved left by `dx`.
    pub fn left(self, dx: FontUnit) -> (p: Point)
        requires
            fits(self.x - dx),
        ensures
            p.x == self.x - dx,
            p.y == self.y,
    {
        Point { x: self.x - dx, y: self.y }
    }

    /// The point moved right by `dx`.
    pub fn right(self, dx: FontUnit) -> (p: Point)
        requires
            fits(self.x + dx),
        ensures
            p.x == self.x + dx,
            p.y == self.y,
    {
        Point { x: self.x + dx, y: self.y }
    }

    /// The point moved up by `dy`.
    pub fn up(self, dy: FontUnit) -> (p: Point)
        requires
            fits(self.y - dy),
        ensures
            p.x == self.x,
            p.y == self.y - dy,
    {
        Point { x: self.x, y: self.y - dy }
    }

    /// The point moved down by `dy`.
    pub fn down(self, dy: FontUnit) -> (p: Point)
        requires
            fits(self.y + dy),
        ensures
            p.x == self.x,
            p.y == self.y + dy,
    {
        Point { x: self.x, y: self.y + dy }
    }
}

impl Default for Point {
    fn default() -> (p: Point)
        ensures
            p.x == 0,
            p.y == 0,
    {
        Point { x: 0, y: 0 }
    }
}

/// A color with red, green, blue and alpha channels.
#[derive(Copy, Clone, Debug, PartialEq, Eq, Structural)]
pub struct Color {
    pub red: u8,
    pub green: u8,
    pub blue: u8,
    pub alpha: u8,
}

impl Color {
    /// Whether the color is not fully opaque.
    pub fn has_alpha(&self) -> (b: bool)
        ensures
            b == (self.alpha != 0xff),
    {
        self.alpha != 0xff
    }
}

/// The scene color of a parsed color: the channels carried over one for one.
pub open spec fn rgba_color(c: RGBA) -> Color {
    Color { red: c.0, green: c.1, blue: c.2, alpha: c.3 }
}

impl From<RGBA> for Color {
    fn from(color: RGBA) -> (c: Color) {
        Color { red: color.0, green: color.1, blue: color.2, alpha: color.3 }
    }
}

impl vstd::std_specs::convert::FromSpecImpl<RGBA> for Color {
    open spec fn obeys_from_spec() -> bool {
        true
    }

    open spec fn from_spec(color: RGBA) -> Color {
        rgba_color(color)
    }
}

/// Which kind of layout box a debug box outlines.
#[derive(Copy, Clone, Debug, PartialEq, Eq, Structural)]
pub enum DebugBoxKind {
    HorizontalBox,
    VerticalBox,
    Glyph,
}

/// A glyph drawn with its baseline origin at `position`.
#[derive(Copy, Clone, Debug, PartialEq, Eq, Structural)]
pub struct SceneGlyph {
    pub position: Point,
    pub unicode: u32,
    pub scale: FontUnit,
}

/// A filled rectangle whose top-left corner is `position`.
#[derive(Copy, Clone, Debug, PartialEq, Eq, Structural)]
pub struct SceneRule {
    pub position: Point,
    pub width: FontUnit,
    pub height: FontUnit,
}

/// An outlined rectangle marking a layout box.
#[derive(Copy, Clone, Debug, PartialEq, Eq, Structural)]
pub struct SceneDebugBox {
    pub position: Point,
    pub width: FontUnit,
    pub height: FontUnit,
    pub kind: DebugBoxKind,
}

/// Nodes drawn in a color.
#[derive(Debug, PartialEq)]
pub struct SceneColor {
    pub color: Color,
    pub contents: Vec<SceneNode>,
}

/// One node of a scene.
#[derive(Debug, PartialEq)]
pub enum SceneNode {
    Glyph(SceneGlyph),
    Rule(SceneRule),
    Color(SceneColor),
    DebugBox(SceneDebugBox),
}

/// A whole scene: its size and its nodes in painter order.
#[derive(Debug, PartialEq)]
pub struct MathScene {
    pub width: FontUnit,
    pub height: FontUnit,
    pub nodes: Vec<SceneNode>,
}

/// What scene construction needs from the render settings.
#[derive(Copy, Clone, Debug, PartialEq, Eq, Structural)]
pub struct SceneSettings {
    pub horizontal_padding: FontUnit,
    pub vertical_padding: FontUnit,
    pub debug: bool,
}

impl Default for SceneSettings {
    fn default() -> (s: SceneSettings)
        ensures
            s.horizontal_padding == 0,
            s.vertical_padding == 0,
            !s.debug,
    {
        SceneSettings { horizontal_padding: 0, vertical_padding: 0, debug: false }
    }
}

// ---------------------------------------------------------------------
// The mathematical model of a scene.
// ---------------------------------------------------------------------

/// A scene node as mathematics: coordinates are integers.
pub enum SceneShape {
    Glyph { x: int, y: int, unicode: u32, scale: int },
    Rule { x: int, y: int, width: int, height: int },
    Color { color: Color, contents: Seq<SceneShape> },
    DebugBox { x: int, y: int, width: int, height: int, kind: DebugBoxKind },
}

/// The model of a scene node.
pub open spec fn node_shape(n: SceneNode) -> SceneShape
    decreases n, 0nat,
{
    match n {
        SceneNode::Glyph(g) => SceneShape::Glyph {
            x: g.position.x as int,
            y: g.position.y as int,
            unicode: g.unicode,
            scale: g.scale as int,
        },
        SceneNode::Rule(r) => SceneShape::Rule {
            x: r.position.x as int,
            y: r.position.y as int,
            width: r.width as int,
            height: r.height as int,
        },
        SceneNode::Color(c) => SceneShape::Color { color: c.color, contents: node_shapes(c.contents@) },
        SceneNode::DebugBox(d) => SceneShape::DebugBox {
            x: d.position.x as int,
            y: d.position.y as int,
            width: d.width as int,
            height: d.height as int,
            kind: d.kind,
        },
    }
}

/// The model of a list of scene nodes, element by element.
pub open spec fn node_shapes(s: Seq<SceneNode>) -> Seq<SceneShape>
    decreases s, 1nat,
{
    Seq::new(
        s.len(),
        |i: int|
            if 0 <= i < s.len() {
                node_shape(s[i])
            } else {
                SceneShape::Rule { x: 0, y: 0, width: 0, height: 0 }
            },
    )
}

/// A debug box, in a sequence of its own, when `debug` is set.
pub open spec fn debug_shape(debug: bool, x: int, y: int, width: int, height: int, kind: DebugBoxKind) -> Seq<SceneShape> {
    if debug {
        seq![SceneShape::DebugBox { x, y, width, height, kind }]
    } else {
        Seq::empty()
    }
}

/// The shapes that one node of a horizontal box yields when its baseline
/// origin is at `(x, y)`, and whether every intermediate coordinate fits a
/// `FontUnit`.
pub open spec fn hbox_node_shapes(debug: bool, x: int, y: int, node: LayoutNode) -> (Seq<SceneShape>, bool)
    decreases node, 0nat,
{
    let w = node.width as int;
    let h = node.height as int;
    let d = node.depth as int;
    match node.node {
        LayoutVariant::Glyph(g) => (
            debug_shape(debug, x, y - h, w, h - d, DebugBoxKind::Glyph)
                + seq![SceneShape::Glyph { x, y, unicode: g.unicode, scale: g.scale as int }],
            debug ==> fits(y - h) && fits(h - d),
        ),
        LayoutVariant::Rule => (
            seq![SceneShape::Rule { x, y: y - h, width: w, height: h }],
            fits(y - h),
        ),
        LayoutVariant::VerticalBox(vb) => {
            let inner = vbox_run(debug, x, y - h, vb.contents@);
            (
                debug_shape(debug, x, y - h, w, h - d, DebugBoxKind::VerticalBox) + inner.0,
                fits(y - h) && (debug ==> fits(h - d)) && inner.2,
            )
        },
        LayoutVariant::HorizontalBox(hb) => hbox_shapes(debug, x, y, hb.contents@, h, w, hb.alignment),
        LayoutVariant::Color(c) => {
            let inner = hbox_shapes(debug, x, y, c.inner@, h, w, Alignment::Default);
            (seq![SceneShape::Color { color: rgba_color(c.color), contents: inner.0 }], inner.1)
        },
        LayoutVariant::Kern => (Seq::empty(), true),
    }
}

/// The nodes of a horizontal box set from `x` on the baseline `y`: their
/// shapes, the `x` after the last node, and whether everything fits.
pub open spec fn hbox_run(debug: bool, x: int, y: int, nodes: Seq<LayoutNode>) -> (Seq<SceneShape>, int, bool)
    decreases nodes, 1nat,
{
    if nodes.len() == 0 {
        (Seq::empty(), x, true)
    } else {
        let before = hbox_run(debug, x, y, nodes.drop_last());
        let last = nodes.last();
        let here = hbox_node_shapes(debug, before.1, y, last);
        (before.0 + here.0, before.1 + last.width, before.2 && here.1 && fits(before.1 + last.width))
    }
}

/// The x at which a horizontal box starts drawing its contents.
pub open spec fn hbox_start(x: int, nodes_width: int, alignment: Alignment) -> int {
    match alignment {
        Alignment::Centered(width) => x + half_toward_zero(nodes_width - width),
        _ => x,
    }
}

/// Half of `v`, rounded toward zero as integer division rounds.
pub open spec fn half_toward_zero(v: int) -> int {
    if v >= 0 {
        v / 2
    } else {
        -((-v) / 2)
    }
}

/// A horizontal box of the given height and width whose baseline origin
/// is at `(x, y)`: its shapes and whether every intermediate fits.
pub open spec fn hbox_shapes(
    debug: bool,
    x: int,
    y: int,
    nodes: Seq<LayoutNode>,
    height: int,
    nodes_width: int,
    alignment: Alignment,
) -> (Seq<SceneShape>, bool)
    decreases nodes, 2nat,
{
    let start = hbox_start(x, nodes_width, alignment);
    let start_fits = match alignment {
        Alignment::Centered(width) => fits(nodes_width - width) && fits(start),
        _ => true,
    };
    let run = hbox_run(debug, start, y, nodes);
    (
        debug_shape(debug, start, y - height, nodes_width, height, DebugBoxKind::HorizontalBox) + run.0,
        start_fits && (debug ==> fits(y - height)) && run.2,
    )
}

/// The shapes that one node of a vertical box yields when its top-left
/// corner is at `(x, y)`, and whether every intermediate fits.
pub open spec fn vbox_node_shapes(debug: bool, x: int, y: int, node: LayoutNode) -> (Seq<SceneShape>, bool)
    decreases node, 0nat,
{
    let w = node.width as int;
    let h = node.height as int;
    let d = node.depth as int;
    match node.node {
        LayoutVariant::Rule => (seq![SceneShape::Rule { x, y, width: w, height: h }], true),
        LayoutVariant::HorizontalBox(hb) => {
            let inner = hbox_shapes(debug, x, y + h, hb.contents@, h, w, hb.alignment);
            (inner.0, fits(y + h) && inner.1)
        },
        LayoutVariant::VerticalBox(vb) => {
            let inner = vbox_run(debug, x, y, vb.contents@);
            (
                debug_shape(debug, x, y, w, h - d, DebugBoxKind::VerticalBox) + inner.0,
                (debug ==> fits(h - d)) && inner.2,
            )
        },
        LayoutVariant::Glyph(g) => (
            debug_shape(debug, x, y, w, h - d, DebugBoxKind::Glyph)
                + seq![SceneShape::Glyph { x, y: y + h, unicode: g.unicode, scale: g.scale as int }],
            (debug ==> fits(h - d)) && fits(y + h),
        ),
        LayoutVariant::Color(c) => {
            let inner = hbox_shapes(debug, x, y + h, c.inner@, h, w, Alignment::Default);
            (
                seq![SceneShape::Color { color: rgba_color(c.color), contents: inner.0 }],
                fits(y + h) && inner.1,
            )
        },
        LayoutVariant::Kern => (Seq::empty(), true),
    }
}

/// The nodes of a vertical box stacked from `y` downwards at `x`: their
/// shapes, the `y` below the last node, and whether everything fits.
pub open spec fn vbox_run(debug: bool, x: int, y: int, nodes: Seq<LayoutNode>) -> (Seq<SceneShape>, int, bool)
    decreases nodes, 1nat,
{
    if nodes.len() == 0 {
        (Seq::empty(), y, true)
    } else {
        let before = vbox_run(debug, x, y, nodes.drop_last());
        let last = nodes.last();
        let here = vbox_node_shapes(debug, x, before.1, last);
        (before.0 + here.0, before.1 + last.height, before.2 && here.1 && fits(before.1 + last.height))
    }
}


/// The model of a whole scene.
pub struct SceneModel {
    pub width: int,
    pub height: int,
    pub shapes: Seq<SceneShape>,
}

impl View for MathScene {
    type V = SceneModel;

    open spec fn view(&self) -> SceneModel {
        SceneModel { width: self.width as int, height: self.height as int, shapes: node_shapes(self.nodes@) }
    }
}

/// The scene that `settings` make of `layout`: the layout's extent plus
/// padding on both sides, and its contents set as a horizontal box whose
/// baseline origin sits at the padding, below the layout's height.
pub open spec fn built_scene(settings: SceneSettings, layout: Layout) -> SceneModel {
    let hp = settings.horizontal_padding as int;
    let vp = settings.vertical_padding as int;
    SceneModel {
        width: layout.width + 2 * hp,
        height: layout.height - layout.depth + 2 * vp,
        shapes: hbox_shapes(
            settings.debug,
            hp,
            vp + layout.height,
            layout.contents@,
            layout.height as int,
            layout.width as int,
            Alignment::Default,
        ).0,
    }
}

/// Whether every coordinate computed while building the scene of `layout`
/// fits a `FontUnit`.
pub open spec fn buildable(settings: SceneSettings, layout: Layout) -> bool {
    let hp = settings.horizontal_padding as int;
    let vp = settings.vertical_padding as int;
    &&& fits(2 * hp)
    &&& fits(layout.width + 2 * hp)
    &&& fits(layout.height - layout.depth)
    &&& fits(2 * vp)
    &&& fits(layout.height - layout.depth + 2 * vp)
    &&& fits(vp + layout.height)
    &&& hbox_shapes(
        settings.debug,
        hp,
        vp + layout.height,
        layout.contents@,
        layout.height as int,
        layout.width as int,
        Alignment::Default,
    ).1
}

/// Turns a layout into a scene.
pub trait SceneBuilder {
    /// Whether this builder can build a scene of `layout`.
    spec fn can_build(&self, layout: &Layout) -> bool;

    /// The model of the scene this builder makes of `layout`.
    spec fn scene_of(&self, layout: &Layout) -> SceneModel;

    fn build(&self, layout: &Layout) -> (scene: MathScene)
        requires
            self.can_build(layout),
        ensures
            scene@ == self.scene_of(layout),
    ;
}

/// Builds scenes from layout boxes.
#[derive(Copy, Clone, Debug)]
pub struct LayoutSceneBuilder {
    settings: SceneSettings,
}

proof fn lemma_node_shapes_append(a: Seq<SceneNode>, b: Seq<SceneNode>)
    ensures
        node_shapes(a + b) == node_shapes(a) + node_shapes(b),
{
    assert(node_shapes(a + b) =~= node_shapes(a) + node_shapes(b));
}

proof fn lemma_node_shapes_push(a: Seq<SceneNode>, n: SceneNode)
    ensures
        node_shapes(a.push(n)) == node_shapes(a).push(node_shape(n)),
{
    assert(node_shapes(a.push(n)) =~= node_shapes(a).push(node_shape(n)));
}

proof fn lemma_node_shapes_empty(a: Seq<SceneNode>)
    requires
        a.len() == 0,
    ensures
        node_shapes(a) == Seq::<SceneShape>::empty(),
{
    assert(node_shapes(a) =~= Seq::<SceneShape>::empty());
}

proof fn lemma_hbox_run_prefix(debug: bool, x: int, y: int, nodes: Seq<LayoutNode>, i: int)
    requires
        0 <= i <= nodes.len(),
        hbox_run(debug, x, y, nodes).2,
    ensures
        hbox_run(debug, x, y, nodes.take(i)).2,
    decreases nodes.len(),
{
    if i < nodes.len() {
        lemma_hbox_run_prefix(debug, x, y, nodes.drop_last(), i);
        assert(nodes.drop_last().take(i) =~= nodes.take(i));
    } else {
        assert(nodes.take(i) =~= nodes);
    }
}

proof fn lemma_vbox_run_prefix(debug: bool, x: int, y: int, nodes: Seq<LayoutNode>, i: int)
    requires
        0 <= i <= nodes.len(),
        vbox_run(debug, x, y, nodes).2,
    ensures
        vbox_run(debug, x, y, nodes.take(i)).2,
    decreases nodes.len(),
{
    if i < nodes.len() {
        lemma_vbox_run_prefix(debug, x, y, nodes.drop_last(), i);
        assert(nodes.drop_last().take(i) =~= nodes.take(i));
    } else {
        assert(nodes.take(i) =~= nodes);
    }
}

impl LayoutSceneBuilder {
    /// The settings this builder was made with.
    pub closed spec fn config(self) -> SceneSettings {
        self.settings
    }

    pub fn new(settings: SceneSettings) -> (b: LayoutSceneBuilder)
        ensures
            b.config() == settings,
    {
        LayoutSceneBuilder { settings: settings }
    }

    fn build_hbox(
        &self,
        position: Point,
        nodes: &[LayoutNode],
        height: FontUnit,
        nodes_width: FontUnit,
        alignment: Alignment,
    ) -> (out: Vec<SceneNode>)
        requires
            hbox_shapes(
                self.settings.debug,
                position.x as int,
                position.y as int,
                nodes@,
                height as int,
                nodes_width as int,
                alignment,
            ).1,
        ensures
            node_shapes(out@) == hbox_shapes(
                self.settings.debug,
                position.x as int,
                position.y as int,
                nodes@,
                height as int,
                nodes_width as int,
                alignment,
            ).0,
        decreases nodes@, 2nat,
    {
        let ghost debug = self.settings.debug;
        let mut position = position;
        if let Alignment::Centered(width) = alignment {
            position.x = position.x + (nodes_width - width) / 2;
        }
        let ghost x0 = position.x as int;
        let ghost y0 = position.y as int;
        let mut output: Vec<SceneNode> = Vec::new();
        if self.settings.debug {
            output.push(
                SceneNode::DebugBox(
                    SceneDebugBox {
                        position: position.up(height),
                        width: nodes_width,
                        height: height,
                        kind: DebugBoxKind::HorizontalBox,
                    },
                ),
            );
        }
        let ghost prefix = node_shapes(output@);
        proof {
            lemma_node_shapes_empty(Seq::<SceneNode>::empty());
            if debug {
                lemma_node_shapes_push(Seq::<SceneNode>::empty(), output@[0]);
                assert(output@ =~= Seq::<SceneNode>::empty().push(output@[0]));
            } else {
                lemma_node_shapes_empty(output@);
            }
            assert(prefix =~= debug_shape(debug, x0, y0 - height, nodes_width as int, height as int, DebugBoxKind::HorizontalBox));
            assert(nodes@.take(0) =~= Seq::<LayoutNode>::empty());
        }
        let mut i: usize = 0;
        while i < nodes.len()
            invariant
                i <= nodes@.len(),
                debug == self.settings.debug,
                position.y == y0,
                hbox_run(debug, x0, y0, nodes@).2,
                position.x == hbox_run(debug, x0, y0, nodes@.take(i as int)).1,
                node_shapes(output@) == prefix + hbox_run(debug, x0, y0, nodes@.take(i as int)).0,
            decreases nodes.len() - i,
        {
            proof {
                lemma_hbox_run_prefix(debug, x0, y0, nodes@, i + 1);
                assert(nodes@.take(i + 1).drop_last() =~= nodes@.take(i as int));
            }
            let node = &nodes[i];
            let mut part = self.hbox_node(position, node);
            let ghost before = output@;
            let ghost added = part@;
            output.append(&mut part);
            proof {
                lemma_node_shapes_append(before, added);
            }
            position.x = position.x + node.width;
            i = i + 1;
        }
        proof {
            assert(nodes@.take(nodes@.len() as int) =~= nodes@);
        }
        output
    }

    fn hbox_node(&self, position: Point, node: &LayoutNode) -> (out: Vec<SceneNode>)
        requires
            hbox_node_shapes(self.settings.debug, position.x as int, position.y as int, *node).1,
        ensures
            node_shapes(out@) == hbox_node_shapes(self.settings.debug, position.x as int, position.y as int, *node).0,
        decreases *node, 0nat,
    {
        let ghost debug = self.settings.debug;
        let mut output: Vec<SceneNode> = Vec::new();
        proof {
            lemma_node_shapes_empty(output@);
        }
        match &node.node {
            LayoutVariant::Glyph(glyph) => {
                if self.settings.debug {
                    let ghost before = output@;
                    let n = SceneNode::DebugBox(
                        SceneDebugBox {
                            position: position.up(node.height),
                            width: node.width,
                            height: node.height - node.depth,
                            kind: DebugBoxKind::Glyph,
                        },
                    );
                    output.push(n);
                    proof {
                        lemma_node_shapes_push(before, n);
                    }
                }
                let ghost before = output@;
                let n = SceneNode::Glyph(SceneGlyph { position: position, unicode: glyph.unicode, scale: glyph.scale });
                output.push(n);
                proof {
                    lemma_node_shapes_push(before, n);
                }
            },
            LayoutVariant::Rule => {
                let n = SceneNode::Rule(
                    SceneRule { position: position.up(node.height), width: node.width, height: node.height },
                );
                output.push(n);
                proof {
                    lemma_node_shapes_push(Seq::<SceneNode>::empty(), n);
                    assert(output@ =~= Seq::<SceneNode>::empty().push(n));
                }
            },
            LayoutVariant::VerticalBox(vbox) => {
                if self.settings.debug {
                    let ghost before = output@;
                    let n = SceneNode::DebugBox(
                        SceneDebugBox {
                            position: position.up(node.height),
                            width: node.width,
                            height: node.height - node.depth,
                            kind: DebugBoxKind::VerticalBox,
                        },
                    );
                    output.push(n);
                    proof {
                        lemma_node_shapes_push(before, n);
                    }
                }
                let mut inner = self.build_vbox(position.up(node.height), vbox.contents.as_slice());
                let ghost before = output@;
                let ghost added = inner@;
                output.append(&mut inner);
                proof {
                    lemma_node_shapes_append(before, added);
                }
            },
            LayoutVariant::HorizontalBox(hbox) => {
                output = self.build_hbox(position, hbox.contents.as_slice(), node.height, node.width, hbox.alignment);
            },
            LayoutVariant::Color(color) => {
                let contents = self.build_hbox(
                    position,
                    color.inner.as_slice(),
                    node.height,
                    node.width,
                    Alignment::Default,
                );
                let n = SceneNode::Color(SceneColor { color: Color::from(color.color), contents: contents });
                output.push(n);
                proof {
                    lemma_node_shapes_push(Seq::<SceneNode>::empty(), n);
                    assert(output@ =~= Seq::<SceneNode>::empty().push(n));
                }
            },
            LayoutVariant::Kern => {},
        }
        output
    }

    fn build_vbox(&self, position: Point, nodes: &[LayoutNode]) -> (out: Vec<SceneNode>)
        requires
            vbox_run(self.settings.debug, position.x as int, position.y as int, nodes@).2,
        ensures
            node_shapes(out@) == vbox_run(self.settings.debug, position.x as int, position.y as int, nodes@).0,
        decreases nodes@, 1nat,
    {
        let ghost debug = self.settings.debug;
        let ghost x0 = position.x as int;
        let ghost y0 = position.y as int;
        let mut position = position;
        let mut output: Vec<SceneNode> = Vec::new();
        proof {
            lemma_node_shapes_empty(output@);
            assert(nodes@.take(0) =~= Seq::<LayoutNode>::empty());
        }
        let mut i: usize = 0;
        while i < nodes.len()
            invariant
                i <= nodes@.len(),
                debug == self.settings.debug,
                position.x == x0,
                vbox_run(debug, x0, y0, nodes@).2,
                position.y == vbox_run(debug, x0, y0, nodes@.take(i as int)).1,
                node_shapes(output@) == vbox_run(debug, x0, y0, nodes@.take(i as int)).0,
            decreases nodes.len() - i,
        {
            proof {
                lemma_vbox_run_prefix(debug, x0, y0, nodes@, i + 1);
                assert(nodes@.take(i + 1).drop_last() =~= nodes@.take(i as int));
            }
            let node = &nodes[i];
            let mut part = self.vbox_node(position, node);
            let ghost before = output@;
            let ghost added = part@;
            output.append(&mut part);
            proof {
                lemma_node_shapes_append(before, added);
            }
            position.y = position.y + node.height;
            i = i + 1;
        }
        proof {
            assert(nodes@.take(nodes@.len() as int) =~= nodes@);
        }
        output
    }

    fn vbox_node(&self, position: Point, node: &LayoutNode) -> (out: Vec<SceneNode>)
        requires
            vbox_node_shapes(self.settings.debug, position.x as int, position.y as int, *node).1,
        ensures
            node_shapes(out@) == vbox_node_shapes(self.settings.debug, position.x as int, position.y as int, *node).0,
        decreases *node, 0nat,
    {
        let ghost debug = self.settings.debug;
        let mut output: Vec<SceneNode> = Vec::new();
        proof {
            lemma_node_shapes_empty(output@);
        }
        match &node.node {
            LayoutVariant::Rule => {
                let n = SceneNode::Rule(SceneRule { position: position, width: node.width, height: node.height });
                output.push(n);
                proof {
                    lemma_node_shapes_push(Seq::<SceneNode>::empty(), n);
                    assert(output@ =~= Seq::<SceneNode>::empty().push(n));
                }
            },
            LayoutVariant::HorizontalBox(hbox) => {
                output = self.build_hbox(
                    position.down(node.height),
                    hbox.contents.as_slice(),
                    node.height,
                    node.width,
                    hbox.alignment,
                );
            },
            LayoutVariant::VerticalBox(vbox) => {
                if self.settings.debug {
                    let ghost before = output@;
                    let n = SceneNode::DebugBox(
                        SceneDebugBox {
                            position: position,
                            width: node.width,
                            height: node.height - node.depth,
                            kind: DebugBoxKind::VerticalBox,
                        },
                    );
                    output.push(n);
                    proof {
                        lemma_node_shapes_push(before, n);
                    }
                }
                let mut inner = self.build_vbox(position, vbox.contents.as_slice());
                let ghost before = output@;
                let ghost added = inner@;
                output.append(&mut inner);
                proof {
                    lemma_node_shapes_append(before, added);
                }
            },
            LayoutVariant::Glyph(glyph) => {
                if self.settings.debug {
                    let ghost before = output@;
                    let n = SceneNode::DebugBox(
                        SceneDebugBox {
                            position: position,
                            width: node.width,
                            height: node.height - node.depth,
                            kind: DebugBoxKind::Glyph,
                        },
                    );
                    output.push(n);
                    proof {
                        lemma_node_shapes_push(before, n);
                    }
                }
                let ghost before = output@;
                let n = SceneNode::Glyph(
                    SceneGlyph { position: position.down(node.height), unicode: glyph.unicode, scale: glyph.scale },
                );
                output.push(n);
                proof {
                    lemma_node_shapes_push(before, n);
                }
            },
            LayoutVariant::Color(color) => {
                let contents = self.build_hbox(
                    position.down(node.height),
                    color.inner.as_slice(),
                    node.height,
                    node.width,
                    Alignment::Default,
                );
                let n = SceneNode::Color(SceneColor { color: Color::from(color.color), contents: contents });
                output.push(n);
                proof {
                    lemma_node_shapes_push(Seq::<SceneNode>::empty(), n);
                    assert(output@ =~= Seq::<SceneNode>::empty().push(n));
                }
            },
            LayoutVariant::Kern => {},
        }
        output
    }
}

impl SceneBuilder for LayoutSceneBuilder {
    open spec fn can_build(&self, layout: &Layout) -> bool {
        buildable(self.config(), *layout)
    }

    open spec fn scene_of(&self, layout: &Layout) -> SceneModel {
        built_scene(self.config(), *layout)
    }

    fn build(&self, layout: &Layout) -> (scene: MathScene) {
        let width = layout.width + 2 * self.settings.horizontal_padding;
        let height = layout.height - layout.depth + 2 * self.settings.vertical_padding;
        let position = Point {
            x: self.settings.horizontal_padding,
            y: self.settings.vertical_padding + layout.height,
        };
        MathScene {
            width: width,
            height: height,
            nodes: self.build_hbox(
                position,
                layout.contents.as_slice(),
                layout.height,
                layout.width,
                Alignment::Default,
            ),
        }
    }
}


/// A copy of a scene node, with everything inside it.
pub fn clone_node(node: &SceneNode) -> (c: SceneNode)
    ensures
        node_shape(c) == node_shape(*node),
    decreases *node, 0nat,
{
    match node {
        SceneNode::Glyph(g) => SceneNode::Glyph(*g),
        SceneNode::Rule(r) => SceneNode::Rule(*r),
        SceneNode::DebugBox(d) => SceneNode::DebugBox(*d),
        SceneNode::Color(c) => {
            let contents = clone_nodes(c.contents.as_slice());
            SceneNode::Color(SceneColor { color: c.color, contents })
        },
    }
}

/// A copy of scene nodes, element by element.
pub fn clone_nodes(nodes: &[SceneNode]) -> (c: Vec<SceneNode>)
    ensures
        node_shapes(c@) == node_shapes(nodes@),
    decreases nodes@, 1nat,
{
    let mut out: Vec<SceneNode> = Vec::new();
    let mut i: usize = 0;
    while i < nodes.len()
        invariant
            i <= nodes@.len(),
            out@.len() == i,
            forall|j: int| 0 <= j < i ==> node_shape(#[trigger] out@[j]) == node_shape(nodes@[j]),
        decreases nodes.len() - i,
    {
        let n = clone_node(&nodes[i]);
        out.push(n);
        i = i + 1;
    }
    assert(node_shapes(out@) =~= node_shapes(nodes@));
    out
}

impl Clone for SceneNode {
    fn clone(&self) -> (c: SceneNode)
        ensures
            node_shape(c) == node_shape(*self),
    {
        clone_node(self)
    }
}

impl Clone for SceneColor {
    fn clone(&self) -> (c: SceneColor)
        ensures
            c.color == self.color,
            node_shapes(c.contents@) == node_shapes(self.contents@),
    {
        SceneColor { color: self.color, contents: clone_nodes(self.contents.as_slice()) }
    }
}

impl Clone for MathScene {
    fn clone(&self) -> (c: MathScene)
        ensures
            c@ == self@,
    {
        MathScene { width: self.width, height: self.height, nodes: clone_nodes(self.nodes.as_slice()) }
    }
}


proof fn lemma_hbox_run_stops(debug: bool, x: int, y: int, nodes: Seq<LayoutNode>, k: int)
    requires
        0 <= k <= nodes.len(),
        !hbox_run(debug, x, y, nodes.take(k)).2,
    ensures
        !hbox_run(debug, x, y, nodes).2,
{
    if hbox_run(debug, x, y, nodes).2 {
        lemma_hbox_run_prefix(debug, x, y, nodes, k);
    }
}

proof fn lemma_vbox_run_stops(debug: bool, x: int, y: int, nodes: Seq<LayoutNode>, k: int)
    requires
        0 <= k <= nodes.len(),
        !vbox_run(debug, x, y, nodes.take(k)).2,
    ensures
        !vbox_run(debug, x, y, nodes).2,
{
    if vbox_run(debug, x, y, nodes).2 {
        lemma_vbox_run_prefix(debug, x, y, nodes, k);
    }
}

fn in_font_units(v: i64) -> (b: bool)
    ensures
        b == fits(v as int),
{
    i32::MIN as i64 <= v && v <= i32::MAX as i64
}

fn hbox_fits(debug: bool, x: i64, y: i64, nodes: &[LayoutNode], height: i64, nodes_width: i64, alignment: Alignment) -> (b: bool)
    requires
        fits(x as int),
        fits(y as int),
        fits(height as int),
        fits(nodes_width as int),
    ensures
        b == hbox_shapes(debug, x as int, y as int, nodes@, height as int, nodes_width as int, alignment).1,
    decreases nodes@, 2nat,
{
    let mut start = x;
    if let Alignment::Centered(width) = alignment {
        let slack = nodes_width - width as i64;
        if !in_font_units(slack) {
            return false;
        }
        start = x + slack / 2;
        if !in_font_units(start) {
            return false;
        }
    }
    assert(start == hbox_start(x as int, nodes_width as int, alignment));
    if debug && !in_font_units(y - height) {
        return false;
    }
    let mut cur = start;
    proof {
        assert(nodes@.take(0) =~= Seq::<LayoutNode>::empty());
    }
    let mut i: usize = 0;
    while i < nodes.len()
        invariant
            i <= nodes@.len(),
            fits(y as int),
            fits(cur as int),
            hbox_shapes(debug, x as int, y as int, nodes@, height as int, nodes_width as int, alignment).1
                == hbox_run(debug, start as int, y as int, nodes@).2,
            hbox_run(debug, start as int, y as int, nodes@.take(i as int)).2,
            cur == hbox_run(debug, start as int, y as int, nodes@.take(i as int)).1,
        decreases nodes.len() - i,
    {
        proof {
            assert(nodes@.take(i + 1).drop_last() =~= nodes@.take(i as int));
        }
        let node = &nodes[i];
        if !hbox_node_fits(debug, cur, y, node) {
            proof {
                lemma_hbox_run_stops(debug, start as int, y as int, nodes@, i + 1);
            }
            return false;
        }
        let next = cur + node.width as i64;
        if !in_font_units(next) {
            proof {
                lemma_hbox_run_stops(debug, start as int, y as int, nodes@, i + 1);
            }
            return false;
        }
        cur = next;
        i = i + 1;
    }
    proof {
        assert(nodes@.take(nodes@.len() as int) =~= nodes@);
    }
    true
}

fn hbox_node_fits(debug: bool, x: i64, y: i64, node: &LayoutNode) -> (b: bool)
    requires
        fits(x as int),
        fits(y as int),
    ensures
        b == hbox_node_shapes(debug, x as int, y as int, *node).1,
    decreases *node, 0nat,
{
    let w = node.width as i64;
    let h = node.height as i64;
    let d = node.depth as i64;
    match &node.node {
        LayoutVariant::Glyph(_) => !debug || (in_font_units(y - h) && in_font_units(h - d)),
        LayoutVariant::Rule => in_font_units(y - h),
        LayoutVariant::VerticalBox(vbox) => {
            if !in_font_units(y - h) || (debug && !in_font_units(h - d)) {
                return false;
            }
            vbox_fits(debug, x, y - h, vbox.contents.as_slice())
        },
        LayoutVariant::HorizontalBox(hbox) => hbox_fits(debug, x, y, hbox.contents.as_slice(), h, w, hbox.alignment),
        LayoutVariant::Color(color) => hbox_fits(debug, x, y, color.inner.as_slice(), h, w, Alignment::Default),
        LayoutVariant::Kern => true,
    }
}

fn vbox_fits(debug: bool, x: i64, y: i64, nodes: &[LayoutNode]) -> (b: bool)
    requires
        fits(x as int),
        fits(y as int),
    ensures
        b == vbox_run(debug, x as int, y as int, nodes@).2,
    decreases nodes@, 1nat,
{
    let mut cur = y;
    proof {
        assert(nodes@.take(0) =~= Seq::<LayoutNode>::empty());
    }
    let mut i: usize = 0;
    while i < nodes.len()
        invariant
            i <= nodes@.len(),
            fits(x as int),
            fits(cur as int),
            vbox_run(debug, x as int, y as int, nodes@.take(i as int)).2,
            cur == vbox_run(debug, x as int, y as int, nodes@.take(i as int)).1,
        decreases nodes.len() - i,
    {
        proof {
            assert(nodes@.take(i + 1).drop_last() =~= nodes@.take(i as int));
        }
        let node = &nodes[i];
        if !vbox_node_fits(debug, x, cur, node) {
            proof {
                lemma_vbox_run_stops(debug, x as int, y as int, nodes@, i + 1);
            }
            return false;
        }
        let next = cur + node.height as i64;
        if !in_font_units(next) {
            proof {
                lemma_vbox_run_stops(debug, x as int, y as int, nodes@, i + 1);
            }
            return false;
        }
        cur = next;
        i = i + 1;
    }
    proof {
        assert(nodes@.take(nodes@.len() as int) =~= nodes@);
    }
    true
}

fn vbox_node_fits(debug: bool, x: i64, y: i64, node: &LayoutNode) -> (b: bool)
    requires
        fits(x as int),
        fits(y as int),
    ensures
        b == vbox_node_shapes(debug, x as int, y as int, *node).1,
    decreases *node, 0nat,
{
    let w = node.width as i64;
    let h = node.height as i64;
    let d = node.depth as i64;
    match &node.node {
        LayoutVariant::Rule => true,
        LayoutVariant::HorizontalBox(hbox) => {
            if !in_font_units(y + h) {
                return false;
            }
            hbox_fits(debug, x, y + h, hbox.contents.as_slice(), h, w, hbox.alignment)
        },
        LayoutVariant::VerticalBox(vbox) => {
            if debug && !in_font_units(h - d) {
                return false;
            }
            vbox_fits(debug, x, y, vbox.contents.as_slice())
        },
        LayoutVariant::Glyph(_) => (!debug || in_font_units(h - d)) && in_font_units(y + h),
        LayoutVariant::Color(color) => {
            if !in_font_units(y + h) {
                return false;
            }
            hbox_fits(debug, x, y + h, color.inner.as_slice(), h, w, Alignment::Default)
        },
        LayoutVariant::Kern => true,
    }
}

impl LayoutSceneBuilder {
    /// Whether every coordinate computed while building the scene of
    /// `layout` fits a `FontUnit`, that is, whether `build` may be called.
    pub fn fits_font_units(&self, layout: &Layout) -> (b: bool)
        ensures
            b == buildable(self.config(), *layout),
    {
        let hp = self.settings.horizontal_padding as i64;
        let vp = self.settings.vertical_padding as i64;
        let width = layout.width as i64;
        let height = layout.height as i64;
        let depth = layout.depth as i64;
        in_font_units(2 * hp) && in_font_units(width + 2 * hp) && in_font_units(height - depth) && in_font_units(
            2 * vp,
        ) && in_font_units(height - depth + 2 * vp) && in_font_units(vp + height) && hbox_fits(
            self.settings.debug,
            hp,
            vp + height,
            layout.contents.as_slice(),
            height,
            width,
            Alignment::Default,
        )
    }
}

} // verus!
