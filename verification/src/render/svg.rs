//! The SVG backend: a scene written as an SVG document.
use vstd::prelude::*;
use crate::error::Error;
use crate::font::{FontUnit, UNITS_PER_EM};
use crate::render::RenderSettings;
use crate::scene::{Color, DebugBoxKind, MathScene, Point, SceneNode, SceneShape, node_shape, node_shapes};
use crate::text::{char_from_u32, decimal, is_scalar, push_int, push_str};

verus! {

/// The size of the drawing in pixels, as the text of the document's
/// `width` and `height` attributes: the scene size in font units scaled
/// by font size over units per em, each written at least two characters
/// wide.
pub struct PixelSize {
    pub width: String,
    pub height: String,
}

/// The lines that open a document whose scene is `width` by `height`
/// font units.
pub open spec fn svg_header(width: int, height: int, size: PixelSize, font_src: Seq<char>) -> Seq<char> {
    "<?xml version=\"1.0\" encoding=\"UTF-8\" standalone=\"no\"?>\n<!DOCTYPE svg PUBLIC \"-//W3C//DTD SVG 1.1//EN\" \"http://www.w3.org/Graphics/SVG/1.1/DTD/svg11.dtd\">\n<svg width=\""@
        + size.width@ + "\" height=\""@ + size.height@ + "\" viewBox=\"0 0 "@ + decimal(width) + " "@
        + decimal(height)
        + "\" xmlns=\"http://www.w3.org/2000/svg\">\n    <defs>\n    <style type=\"text/css\">@font-face{font-family:rex;src:url('"@
        + font_src + "');}</style>\n    </defs>\n    <g font-family=\"rex\" font-size=\""@ + decimal(
        UNITS_PER_EM as int,
    ) + "\">\n"@
}

/// The lines that close a document.
pub open spec fn svg_footer() -> Seq<char> {
    "</g>\n</svg>\n\n"@
}

/// The stroke color that outlines a debug box of the given kind.
pub open spec fn debug_color_name(kind: DebugBoxKind) -> Seq<char> {
    match kind {
        DebugBoxKind::HorizontalBox => "blue"@,
        DebugBoxKind::VerticalBox => "red"@,
        DebugBoxKind::Glyph => "green"@,
    }
}

/// The element that draws a glyph whose baseline origin is `(x, y)`; a
/// scale other than one is written with two decimals.
pub open spec fn glyph_text(x: int, y: int, unicode: u32, scale: int) -> Seq<char> {
    if scale != 1 {
        "<text transform=\"translate("@ + decimal(x) + ", "@ + decimal(y) + ") scale("@ + decimal(scale)
            + ".00)\">"@ + seq![unicode as char] + "</text>\n"@
    } else {
        "<text transform=\"translate("@ + decimal(x) + ", "@ + decimal(y) + ")\">"@ + seq![unicode as char]
            + "</text>\n"@
    }
}

/// The element that fills a rule.
pub open spec fn rule_text(x: int, y: int, width: int, height: int) -> Seq<char> {
    "<rect x=\""@ + decimal(x) + "\" y =\""@ + decimal(y) + "\" width=\""@ + decimal(width) + "\" height=\""@
        + decimal(height) + "\" fill=\"#000\"/>\n"@
}

/// The element that outlines a debug box.
pub open spec fn debug_box_text(x: int, y: int, width: int, height: int, kind: DebugBoxKind) -> Seq<char> {
    "<rect x=\""@ + decimal(x) + "\" y=\""@ + decimal(y) + "\" width=\""@ + decimal(width) + "\" height=\""@
        + decimal(height) + "\" fill=\"none\" stroke=\""@ + debug_color_name(kind) + "\" stroke-width=\"8\"/>\n"@
}

/// The tag that opens a color group. A color that is not fully opaque is
/// written as `#` followed by the decimal red, green and blue channels; an
/// opaque one as `rgba(..)` with all four channels.
pub open spec fn color_open_text(c: Color) -> Seq<char> {
    if c.alpha != 0xff {
        "<g fill=\"#"@ + decimal(c.red as int) + decimal(c.green as int) + decimal(c.blue as int) + "\">\n"@
    } else {
        "<g fill=\"rgba("@ + decimal(c.red as int) + ","@ + decimal(c.green as int) + ","@ + decimal(
            c.blue as int,
        ) + ","@ + decimal(c.alpha as int) + ")\">\n"@
    }
}

/// The SVG text of one shape.
pub open spec fn svg_shape(s: SceneShape) -> Seq<char>
    decreases s, 0nat,
{
    match s {
        SceneShape::Glyph { x, y, unicode, scale } => glyph_text(x, y, unicode, scale),
        SceneShape::Rule { x, y, width, height } => rule_text(x, y, width, height),
        SceneShape::DebugBox { x, y, width, height, kind } => debug_box_text(x, y, width, height, kind),
        SceneShape::Color { color, contents } => color_open_text(color) + svg_shapes(contents) + "</g>\n"@,
    }
}

/// The SVG text of shapes, one after the other in painter order.
pub open spec fn svg_shapes(s: Seq<SceneShape>) -> Seq<char>
    decreases s, 1nat,
{
    if s.len() == 0 {
        Seq::empty()
    } else {
        svg_shapes(s.drop_last()) + svg_shape(s.last())
    }
}

/// Whether every glyph of a shape, at any depth, has a Unicode scalar
/// value as its code.
pub open spec fn drawable_shape(s: SceneShape) -> bool
    decreases s, 0nat,
{
    match s {
        SceneShape::Glyph { unicode, .. } => is_scalar(unicode),
        SceneShape::Color { contents, .. } => drawable(contents),
        _ => true,
    }
}

/// Whether every glyph of the shapes, at any depth, has a Unicode scalar
/// value as its code.
pub open spec fn drawable(s: Seq<SceneShape>) -> bool
    decreases s, 1nat,
{
    s.len() == 0 || (drawable(s.drop_last()) && drawable_shape(s.last()))
}

/// The whole document of a scene.
pub open spec fn svg_document(font_src: Seq<char>, scene: MathScene, size: PixelSize) -> Seq<char> {
    svg_header(scene.width as int, scene.height as int, size, font_src) + svg_shapes(scene@.shapes) + svg_footer()
}

proof fn lemma_drawable_at(s: Seq<SceneShape>, i: int)
    requires
        drawable(s),
        0 <= i < s.len(),
    ensures
        drawable_shape(s[i]),
    decreases s.len(),
{
    if i < s.len() - 1 {
        lemma_drawable_at(s.drop_last(), i);
    }
}

proof fn lemma_svg_prefix(nodes: Seq<SceneNode>, i: int)
    requires
        0 <= i < nodes.len(),
    ensures
        svg_shapes(node_shapes(nodes.take(i + 1))) == svg_shapes(node_shapes(nodes.take(i))) + svg_shape(
            node_shape(nodes[i]),
        ),
{
    assert(node_shapes(nodes.take(i + 1)).drop_last() =~= node_shapes(nodes.take(i)));
    assert(node_shapes(nodes.take(i + 1)).last() == node_shape(nodes[i]));
}

/// Writes scenes as SVG documents.
#[derive(Clone)]
pub struct SVGRenderer<'a> {
    settings: &'a RenderSettings,
}

impl<'a> SVGRenderer<'a> {
    /// The render settings this renderer writes with.
    pub closed spec fn config(self) -> RenderSettings {
        *self.settings
    }

    /// The render settings this renderer uses.
    pub fn settings(&self) -> (s: &RenderSettings)
        ensures
            *s == self.config(),
    {
        self.settings
    }

    pub fn new(settings: &'a RenderSettings) -> (r: SVGRenderer<'a>)
        ensures
            r.config() == *settings,
    {
        SVGRenderer { settings }
    }

    fn prepare(&self, out: &mut String, width: FontUnit, height: FontUnit, size: &PixelSize)
        ensures
            final(out)@ == old(out)@ + svg_header(width as int, height as int, *size, self.settings.font_src@),
    {
        push_str(
            out,
            "<?xml version=\"1.0\" encoding=\"UTF-8\" standalone=\"no\"?>\n<!DOCTYPE svg PUBLIC \"-//W3C//DTD SVG 1.1//EN\" \"http://www.w3.org/Graphics/SVG/1.1/DTD/svg11.dtd\">\n<svg width=\"",
        );
        push_str(out, size.width.as_str());
        push_str(out, "\" height=\"");
        push_str(out, size.height.as_str());
        push_str(out, "\" viewBox=\"0 0 ");
        push_int(out, width as i64);
        push_str(out, " ");
        push_int(out, height as i64);
        push_str(
            out,
            "\" xmlns=\"http://www.w3.org/2000/svg\">\n    <defs>\n    <style type=\"text/css\">@font-face{font-family:rex;src:url('",
        );
        push_str(out, self.settings.font_src.as_str());
        push_str(out, "');}</style>\n    </defs>\n    <g font-family=\"rex\" font-size=\"");
        push_int(out, UNITS_PER_EM as i64);
        push_str(out, "\">\n");
        assert(final(out)@ =~= old(out)@ + svg_header(width as int, height as int, *size, self.settings.font_src@));
    }

    fn finish(&self, out: &mut String)
        ensures
            final(out)@ == old(out)@ + svg_footer(),
    {
        push_str(out, "</g>\n</svg>\n\n");
    }

    fn debug_box(&self, out: &mut String, position: Point, width: FontUnit, height: FontUnit, kind: DebugBoxKind)
        ensures
            final(out)@ == old(out)@ + debug_box_text(
                position.x as int,
                position.y as int,
                width as int,
                height as int,
                kind,
            ),
    {
        let color = match kind {
            DebugBoxKind::HorizontalBox => "blue",
            DebugBoxKind::VerticalBox => "red",
            DebugBoxKind::Glyph => "green",
        };
        push_str(out, "<rect x=\"");
        push_int(out, position.x as i64);
        push_str(out, "\" y=\"");
        push_int(out, position.y as i64);
        push_str(out, "\" width=\"");
        push_int(out, width as i64);
        push_str(out, "\" height=\"");
        push_int(out, height as i64);
        push_str(out, "\" fill=\"none\" stroke=\"");
        push_str(out, color);
        push_str(out, "\" stroke-width=\"8\"/>\n");
        assert(final(out)@ =~= old(out)@ + debug_box_text(
            position.x as int,
            position.y as int,
            width as int,
            height as int,
            kind,
        ));
    }

    fn symbol(&self, out: &mut String, position: Point, symbol: u32, scale: FontUnit)
        requires
            is_scalar(symbol),
        ensures
            final(out)@ == old(out)@ + glyph_text(position.x as int, position.y as int, symbol, scale as int),
    {
        let c = char_from_u32(symbol).unwrap();
        if scale != 1 {
            push_str(out, "<text transform=\"translate(");
            push_int(out, position.x as i64);
            push_str(out, ", ");
            push_int(out, position.y as i64);
            push_str(out, ") scale(");
            push_int(out, scale as i64);
            push_str(out, ".00)\">");
            crate::text::push_char(out, c);
            push_str(out, "</text>\n");
        } else {
            push_str(out, "<text transform=\"translate(");
            push_int(out, position.x as i64);
            push_str(out, ", ");
            push_int(out, position.y as i64);
            push_str(out, ")\">");
            crate::text::push_char(out, c);
            push_str(out, "</text>\n");
        }
        assert(final(out)@ =~= old(out)@ + glyph_text(position.x as int, position.y as int, symbol, scale as int));
    }

    fn rule(&self, out: &mut String, position: Point, width: FontUnit, height: FontUnit)
        ensures
            final(out)@ == old(out)@ + rule_text(position.x as int, position.y as int, width as int, height as int),
    {
        push_str(out, "<rect x=\"");
        push_int(out, position.x as i64);
        push_str(out, "\" y =\"");
        push_int(out, position.y as i64);
        push_str(out, "\" width=\"");
        push_int(out, width as i64);
        push_str(out, "\" height=\"");
        push_int(out, height as i64);
        push_str(out, "\" fill=\"#000\"/>\n");
        assert(final(out)@ =~= old(out)@ + rule_text(
            position.x as int,
            position.y as int,
            width as int,
            height as int,
        ));
    }

    fn begin_color(&self, out: &mut String, color: Color)
        ensures
            final(out)@ == old(out)@ + color_open_text(color),
    {
        if color.has_alpha() {
            push_str(out, "<g fill=\"#");
            push_int(out, color.red as i64);
            push_int(out, color.green as i64);
            push_int(out, color.blue as i64);
            push_str(out, "\">\n");
        } else {
            push_str(out, "<g fill=\"rgba(");
            push_int(out, color.red as i64);
            push_str(out, ",");
            push_int(out, color.green as i64);
            push_str(out, ",");
            push_int(out, color.blue as i64);
            push_str(out, ",");
            push_int(out, color.alpha as i64);
            push_str(out, ")\">\n");
        }
        assert(final(out)@ =~= old(out)@ + color_open_text(color));
    }

    fn render_nodes(&self, out: &mut String, nodes: &[SceneNode])
        requires
            drawable(node_shapes(nodes@)),
        ensures
            final(out)@ == old(out)@ + svg_shapes(node_shapes(nodes@)),
        decreases nodes@,
    {
        let ghost start = out@;
        proof {
            assert(node_shapes(nodes@.take(0)) =~= Seq::<SceneShape>::empty());
        }
        let mut i: usize = 0;
        while i < nodes.len()
            invariant
                i <= nodes@.len(),
                drawable(node_shapes(nodes@)),
                out@ == start + svg_shapes(node_shapes(nodes@.take(i as int))),
            decreases nodes.len() - i,
        {
            proof {
                lemma_svg_prefix(nodes@, i as int);
                lemma_drawable_at(node_shapes(nodes@), i as int);
            }
            let ghost before = out@;
            match &nodes[i] {
                SceneNode::Glyph(glyph) => self.symbol(out, glyph.position, glyph.unicode, glyph.scale),
                SceneNode::Rule(rule) => self.rule(out, rule.position, rule.width, rule.height),
                SceneNode::DebugBox(debug) => self.debug_box(
                    out,
                    debug.position,
                    debug.width,
                    debug.height,
                    debug.kind,
                ),
                SceneNode::Color(color) => {
                    self.begin_color(out, color.color);
                    self.render_nodes(out, color.contents.as_slice());
                    push_str(out, "</g>\n");
                    assert(out@ =~= before + svg_shape(node_shape(nodes@[i as int])));
                },
            }
            assert(out@ =~= start + svg_shapes(node_shapes(nodes@.take(i + 1))));
            i = i + 1;
        }
        proof {
            assert(nodes@.take(nodes@.len() as int) =~= nodes@);
        }
    }

    /// Appends the SVG document of `scene`, whose pixel size text is `size`.
    pub fn render_scene_to(&self, out: &mut String, scene: &MathScene, size: &PixelSize) -> (r: Result<(), Error>)
        requires
            drawable(scene@.shapes),
        ensures
            r is Ok,
            final(out)@ == old(out)@ + svg_document(self.config().font_src@, *scene, *size),
    {
        self.prepare(out, scene.width, scene.height, size);
        self.render_nodes(out, scene.nodes.as_slice());
        self.finish(out);
        assert(final(out)@ =~= old(out)@ + svg_document(self.config().font_src@, *scene, *size));
        Ok(())
    }

    /// The SVG document of `scene`, whose pixel size text is `size`.
    pub fn render_scene(&self, scene: &MathScene, size: &PixelSize) -> (r: Result<String, Error>)
        requires
            drawable(scene@.shapes),
        ensures
            r matches Ok(s) && s@ == svg_document(self.config().font_src@, *scene, *size),
    {
        let mut out = String::new();
        let r = self.render_scene_to(&mut out, scene, size);
        assert(out@ =~= svg_document(self.config().font_src@, *scene, *size));
        match r {
            Ok(()) => Ok(out),
            Err(e) => Err(e),
        }
    }
}

/// The SVG document of `scene` drawn with `settings`, whose pixel size
/// text is `size`.
pub fn render_scene_to_string(settings: &RenderSettings, scene: &MathScene, size: &PixelSize) -> (r: Result<
    String,
    Error,
>)
    requires
        drawable(scene@.shapes),
    ensures
        r matches Ok(s) && s@ == svg_document(settings.font_src@, *scene, *size),
{
    let renderer = SVGRenderer::new(settings);
    renderer.render_scene(scene, size)
}


proof fn lemma_drawable_prefix(nodes: Seq<SceneNode>, i: int)
    requires
        0 <= i < nodes.len(),
    ensures
        drawable(node_shapes(nodes.take(i + 1))) == (drawable(node_shapes(nodes.take(i))) && drawable_shape(
            node_shape(nodes[i]),
        )),
{
    assert(node_shapes(nodes.take(i + 1)).drop_last() =~= node_shapes(nodes.take(i)));
    assert(node_shapes(nodes.take(i + 1)).last() == node_shape(nodes[i]));
}

/// Whether every glyph among `nodes`, at any depth, has a Unicode scalar
/// value as its code, so that the SVG backend can write it.
pub fn nodes_are_drawable(nodes: &[SceneNode]) -> (b: bool)
    ensures
        b == drawable(node_shapes(nodes@)),
    decreases nodes@,
{
    proof {
        assert(node_shapes(nodes@.take(0)) =~= Seq::<SceneShape>::empty());
    }
    let mut i: usize = 0;
    while i < nodes.len()
        invariant
            i <= nodes@.len(),
            drawable(node_shapes(nodes@.take(i as int))),
        decreases nodes.len() - i,
    {
        proof {
            lemma_drawable_prefix(nodes@, i as int);
        }
        let ok = match &nodes[i] {
            SceneNode::Glyph(glyph) => char_from_u32(glyph.unicode).is_some(),
            SceneNode::Color(color) => nodes_are_drawable(color.contents.as_slice()),
            _ => true,
        };
        if !ok {
            proof {
                assert(!drawable(node_shapes(nodes@.take(i + 1))));
                assert(nodes@.take(i + 1) =~= nodes@.take(i + 1));
                lemma_drawable_stops(nodes@, i + 1);
            }
            return false;
        }
        i = i + 1;
    }
    proof {
        assert(nodes@.take(nodes@.len() as int) =~= nodes@);
    }
    true
}

proof fn lemma_drawable_stops(nodes: Seq<SceneNode>, k: int)
    requires
        0 <= k <= nodes.len(),
        !drawable(node_shapes(nodes.take(k))),
    ensures
        !drawable(node_shapes(nodes)),
    decreases nodes.len(),
{
    if k < nodes.len() {
        assert(nodes.drop_last().take(k) =~= nodes.take(k));
        lemma_drawable_stops(nodes.drop_last(), k);
        assert(node_shapes(nodes).drop_last() =~= node_shapes(nodes.drop_last()));
    } else {
        assert(nodes.take(k) =~= nodes);
    }
}

/// A debug box is outlined in the color of its kind alone: horizontal
/// boxes in blue, vertical boxes in red, glyph boxes in green; the rest of
/// its element is the same for every kind.
pub proof fn law_debug_box_stroke_follows_kind(x: int, y: int, width: int, height: int, kind: DebugBoxKind)
    ensures
        svg_shape(SceneShape::DebugBox { x, y, width, height, kind }) == "<rect x=\""@ + decimal(x) + "\" y=\""@
            + decimal(y) + "\" width=\""@ + decimal(width) + "\" height=\""@ + decimal(height)
            + "\" fill=\"none\" stroke=\""@ + match kind {
            DebugBoxKind::HorizontalBox => "blue"@,
            DebugBoxKind::VerticalBox => "red"@,
            DebugBoxKind::Glyph => "green"@,
        } + "\" stroke-width=\"8\"/>\n"@,
{
}

} // verus!
