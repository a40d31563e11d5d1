//! Layout boxes: the geometry that the layout engine produces in font units
//! and that scene construction consumes.
use vstd::prelude::*;
use crate::font::{FontUnit, fits};
use crate::parser::color::RGBA;

verus! {

/// The TeX math style a formula is set in.
#[derive(Copy, Clone, Debug, PartialEq, Eq, Structural)]
pub enum Style {
    ScriptScriptCramped,
    ScriptScript,
    ScriptCramped,
    Script,
    TextCramped,
    Text,
    DisplayCramped,
    Display,
}

/// What the layout engine needs from the render settings.
#[derive(Copy, Clone, Debug, PartialEq, Eq, Structural)]
pub struct LayoutSettings {
    pub font_size: u16,
    pub style: Style,
}

/// How the contents of a horizontal box sit inside the box.
#[derive(Copy, Clone, Debug, PartialEq, Eq, Structural)]
pub enum Alignment {
    /// Centered within a box of the given width.
    Centered(FontUnit),
    Right(FontUnit),
    Left,
    Inherit,
    Default,
}

/// A glyph placed by the layout engine.
#[derive(Copy, Clone, Debug, PartialEq, Eq, Structural)]
pub struct LayoutGlyph {
    pub unicode: u32,
    pub scale: FontUnit,
    pub offset: FontUnit,
    pub attachment: FontUnit,
    pub italics: FontUnit,
}

/// Nodes stacked top to bottom.
#[derive(Debug)]
pub struct VerticalBox {
    pub contents: Vec<LayoutNode>,
}

/// Nodes set left to right on a common baseline.
#[derive(Debug)]
pub struct HorizontalBox {
    pub contents: Vec<LayoutNode>,
    pub alignment: Alignment,
}

/// Nodes drawn in a color.
#[derive(Debug)]
pub struct ColorChange {
    pub color: RGBA,
    pub inner: Vec<LayoutNode>,
}

/// The kind of a layout node.
#[derive(Debug)]
pub enum LayoutVariant {
    Glyph(LayoutGlyph),
    Rule,
    VerticalBox(VerticalBox),
    HorizontalBox(HorizontalBox),
    Color(ColorChange),
    Kern,
}

/// A layout node with its box dimensions: width, height above the
/// baseline, and depth (negative below the baseline).
#[derive(Debug)]
pub struct LayoutNode {
    pub node: LayoutVariant,
    pub width: FontUnit,
    pub height: FontUnit,
    pub depth: FontUnit,
}

/// A laid-out formula: a horizontal list of nodes with its extent.
#[derive(Debug)]
pub struct Layout {
    pub contents: Vec<LayoutNode>,
    pub width: FontUnit,
    pub height: FontUnit,
    pub depth: FontUnit,
}

impl Layout {
    /// An empty layout.
    pub fn new() -> (l: Layout)
        ensures
            l.contents@.len() == 0,
            l.width == 0,
            l.height == 0,
            l.depth == 0,
    {
        Layout { contents: Vec::new(), width: 0, height: 0, depth: 0 }
    }

    /// Appends a node to the horizontal list: the width grows by the
    /// node's width, the height is the larger and the depth the lower
    /// of the two.
    pub fn add_node(&mut self, node: LayoutNode)
        requires
            fits(old(self).width + node.width),
        ensures
            final(self).contents@ == old(self).contents@.push(node),
            final(self).width == old(self).width + node.width,
            final(self).height == if node.height > old(self).height { node.height } else { old(self).height },
            final(self).depth == if node.depth < old(self).depth { node.depth } else { old(self).depth },
    {
        self.width = self.width + node.width;
        if node.height > self.height {
            self.height = node.height;
        }
        if node.depth < self.depth {
            self.depth = node.depth;
        }
        self.contents.push(node);
    }
}

impl Default for Layout {
    fn default() -> (l: Layout)
        ensures
            l.contents@.len() == 0,
            l.width == 0,
            l.height == 0,
            l.depth == 0,
    {
        Layout::new()
    }
}

} // verus!
