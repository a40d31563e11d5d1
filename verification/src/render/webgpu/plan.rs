//! What the WebGPU backend draws for a scene, before any pixel geometry:
//! each glyph in the color of its innermost color group (black outside
//! any), each rule in black, each debug box as an outline, in painter
//! order.
use vstd::prelude::*;
use crate::render::webgpu::WebGpuError;
use crate::scene::{Color, SceneDebugBox, SceneGlyph, SceneNode, SceneRule, SceneShape, node_shape, node_shapes};
use crate::text::{char_from_u32, is_scalar};

verus! {

/// One thing the WebGPU backend draws.
#[derive(Clone, Debug)]
pub enum PlanItem {
    /// A glyph, as the character it shows, drawn in `color`.
    Glyph { glyph: SceneGlyph, character: char, color: Color },
    /// A rule, filled in black.
    Rule(SceneRule),
    /// A debug box, drawn as the four bars of its outline.
    Outline(SceneDebugBox),
}

/// A drawing step as mathematics.
pub enum PlanStep {
    Glyph { x: int, y: int, unicode: u32, scale: int, character: char, color: Color },
    Rule { x: int, y: int, width: int, height: int },
    Outline { x: int, y: int, width: int, height: int, kind: crate::scene::DebugBoxKind },
}

impl View for PlanItem {
    type V = PlanStep;

    open spec fn view(&self) -> PlanStep {
        match *self {
            PlanItem::Glyph { glyph, character, color } => PlanStep::Glyph {
                x: glyph.position.x as int,
                y: glyph.position.y as int,
                unicode: glyph.unicode,
                scale: glyph.scale as int,
                character,
                color,
            },
            PlanItem::Rule(r) => PlanStep::Rule {
                x: r.position.x as int,
                y: r.position.y as int,
                width: r.width as int,
                height: r.height as int,
            },
            PlanItem::Outline(d) => PlanStep::Outline {
                x: d.position.x as int,
                y: d.position.y as int,
                width: d.width as int,
                height: d.height as int,
                kind: d.kind,
            },
        }
    }
}

/// The steps of a list of plan items.
pub open spec fn plan_view(items: Seq<PlanItem>) -> Seq<PlanStep> {
    items.map_values(|i: PlanItem| i@)
}

/// Opaque black, the color of everything outside a color group.
pub open spec fn black() -> Color {
    Color { red: 0, green: 0, blue: 0, alpha: 255 }
}

/// The steps that draw a shape whose enclosing color is `color`.
pub open spec fn plan_shape(s: SceneShape, color: Color) -> Seq<PlanStep>
    decreases s, 0nat,
{
    match s {
        SceneShape::Glyph { x, y, unicode, scale } => seq![
            PlanStep::Glyph { x, y, unicode, scale, character: unicode as char, color },
        ],
        SceneShape::Rule { x, y, width, height } => seq![PlanStep::Rule { x, y, width, height }],
        SceneShape::Color { color: inner, contents } => plan_shapes(contents, inner),
        SceneShape::DebugBox { x, y, width, height, kind } => seq![
            PlanStep::Outline { x, y, width, height, kind },
        ],
    }
}

/// The steps that draw shapes in order, whose enclosing color is `color`.
pub open spec fn plan_shapes(s: Seq<SceneShape>, color: Color) -> Seq<PlanStep>
    decreases s, 1nat,
{
    if s.len() == 0 {
        Seq::empty()
    } else {
        plan_shapes(s.drop_last(), color) + plan_shape(s.last(), color)
    }
}

/// The code of the first glyph of a shape, in drawing order, that is no
/// Unicode scalar value.
pub open spec fn first_invalid_in(s: SceneShape) -> Option<u32>
    decreases s, 0nat,
{
    match s {
        SceneShape::Glyph { unicode, .. } => if is_scalar(unicode) {
            None
        } else {
            Some(unicode)
        },
        SceneShape::Color { contents, .. } => first_invalid(contents),
        _ => None,
    }
}

/// The code of the first glyph among shapes, in drawing order, that is no
/// Unicode scalar value.
pub open spec fn first_invalid(s: Seq<SceneShape>) -> Option<u32>
    decreases s, 1nat,
{
    if s.len() == 0 {
        None
    } else {
        match first_invalid(s.drop_last()) {
            Some(u) => Some(u),
            None => first_invalid_in(s.last()),
        }
    }
}

proof fn lemma_prefix_shapes(nodes: Seq<SceneNode>, i: int)
    requires
        0 <= i < nodes.len(),
    ensures
        node_shapes(nodes.take(i + 1)).drop_last() == node_shapes(nodes.take(i)),
        node_shapes(nodes.take(i + 1)).last() == node_shape(nodes[i]),
        node_shapes(nodes.take(i + 1)).len() > 0,
{
    assert(node_shapes(nodes.take(i + 1)).drop_last() =~= node_shapes(nodes.take(i)));
}

proof fn lemma_invalid_stays(nodes: Seq<SceneNode>, k: int, u: u32)
    requires
        0 <= k <= nodes.len(),
        first_invalid(node_shapes(nodes.take(k))) == Some(u),
    ensures
        first_invalid(node_shapes(nodes)) == Some(u),
    decreases nodes.len(),
{
    if k < nodes.len() {
        assert(nodes.drop_last().take(k) =~= nodes.take(k));
        lemma_invalid_stays(nodes.drop_last(), k, u);
        assert(node_shapes(nodes).drop_last() =~= node_shapes(nodes.drop_last()));
    } else {
        assert(nodes.take(k) =~= nodes);
    }
}

fn collect_plan(nodes: &[SceneNode], color: Color, out: &mut Vec<PlanItem>) -> (r: Result<(), WebGpuError>)
    ensures
        match first_invalid(node_shapes(nodes@)) {
            Some(u) => r == Err::<(), WebGpuError>(WebGpuError::InvalidGlyph(u)),
            None => r is Ok && plan_view(final(out)@) == plan_view(old(out)@) + plan_shapes(
                node_shapes(nodes@),
                color,
            ),
        },
    decreases nodes@,
{
    let ghost start = plan_view(out@);
    proof {
        assert(node_shapes(nodes@.take(0)) =~= Seq::<SceneShape>::empty());
        assert(plan_view(out@) =~= start + Seq::<PlanStep>::empty());
    }
    let mut i: usize = 0;
    while i < nodes.len()
        invariant
            i <= nodes@.len(),
            first_invalid(node_shapes(nodes@.take(i as int))) is None,
            plan_view(out@) == start + plan_shapes(node_shapes(nodes@.take(i as int)), color),
        decreases nodes.len() - i,
    {
        proof {
            lemma_prefix_shapes(nodes@, i as int);
        }
        let ghost before = plan_view(out@);
        match &nodes[i] {
            SceneNode::Glyph(glyph) => {
                match char_from_u32(glyph.unicode) {
                    Some(character) => {
                        out.push(PlanItem::Glyph { glyph: *glyph, character, color });
                        proof {
                            assert(plan_view(out@) =~= before + plan_shape(node_shape(nodes@[i as int]), color));
                        }
                    },
                    None => {
                        proof {
                            let t = node_shapes(nodes@.take(i + 1));
                            assert(first_invalid_in(t.last()) == Some(glyph.unicode));
                            assert(first_invalid(t) == Some(glyph.unicode));
                            lemma_invalid_stays(nodes@, i + 1, glyph.unicode);
                        }
                        return Err(WebGpuError::InvalidGlyph(glyph.unicode));
                    },
                }
            },
            SceneNode::Rule(rule) => {
                out.push(PlanItem::Rule(*rule));
                proof {
                    assert(plan_view(out@) =~= before + plan_shape(node_shape(nodes@[i as int]), color));
                }
            },
            SceneNode::DebugBox(debug) => {
                out.push(PlanItem::Outline(*debug));
                proof {
                    assert(plan_view(out@) =~= before + plan_shape(node_shape(nodes@[i as int]), color));
                }
            },
            SceneNode::Color(group) => {
                let inner = collect_plan(group.contents.as_slice(), group.color, out);
                match inner {
                    Ok(()) => {},
                    Err(e) => {
                        proof {
                            let u = first_invalid(node_shapes(group.contents@))->0;
                            assert(first_invalid(node_shapes(group.contents@)) == Some(u));
                            let t = node_shapes(nodes@.take(i + 1));
                            assert(first_invalid_in(t.last()) == Some(u));
                            assert(first_invalid(t) == Some(u));
                            lemma_invalid_stays(nodes@, i + 1, u);
                        }
                        return Err(e);
                    },
                }
            },
        }
        proof {
            assert(plan_shapes(node_shapes(nodes@.take(i + 1)), color) == plan_shapes(
                node_shapes(nodes@.take(i as int)),
                color,
            ) + plan_shape(node_shape(nodes@[i as int]), color));
            assert(plan_view(out@) =~= start + plan_shapes(node_shapes(nodes@.take(i + 1)), color));
        }
        i = i + 1;
    }
    proof {
        assert(nodes@.take(nodes@.len() as int) =~= nodes@);
    }
    Ok(())
}

/// What the WebGPU backend draws for the nodes of a scene, in painter
/// order: each glyph as its character, in the color of its innermost
/// color group (black outside any); each rule in black; each debug box as
/// an outline. The first glyph, in drawing order, whose code is no
/// Unicode scalar value is refused with `InvalidGlyph` and its code.
pub fn plan_primitives(nodes: &[SceneNode]) -> (r: Result<Vec<PlanItem>, WebGpuError>)
    ensures
        match first_invalid(node_shapes(nodes@)) {
            Some(u) => r == Err::<Vec<PlanItem>, WebGpuError>(WebGpuError::InvalidGlyph(u)),
            None => r matches Ok(items) && plan_view(items@) == plan_shapes(node_shapes(nodes@), black()),
        },
{
    let mut out: Vec<PlanItem> = Vec::new();
    let black_color = Color { red: 0, green: 0, blue: 0, alpha: 255 };
    match collect_plan(nodes, black_color, &mut out) {
        Ok(()) => {
            assert(plan_view(Seq::<PlanItem>::empty()) =~= Seq::<PlanStep>::empty());
            assert(plan_view(out@) =~= plan_shapes(node_shapes(nodes@), black()));
            Ok(out)
        },
        Err(e) => Err(e),
    }
}

/// The rule steps among drawing steps, in order.
pub open spec fn rule_steps(steps: Seq<PlanStep>) -> Seq<PlanStep>
    decreases steps.len(),
{
    if steps.len() == 0 {
        Seq::empty()
    } else {
        rule_steps(steps.drop_last()) + if steps.last() is Rule {
            seq![steps.last()]
        } else {
            Seq::empty()
        }
    }
}

/// The rules of a shape, at any depth, each as the step that fills it with
/// its own geometry, in drawing order.
pub open spec fn rules_in(s: SceneShape) -> Seq<PlanStep>
    decreases s, 0nat,
{
    match s {
        SceneShape::Rule { x, y, width, height } => seq![PlanStep::Rule { x, y, width, height }],
        SceneShape::Color { contents, .. } => rules_in_all(contents),
        _ => Seq::empty(),
    }
}

/// The rules of shapes, at any depth, in drawing order.
pub open spec fn rules_in_all(s: Seq<SceneShape>) -> Seq<PlanStep>
    decreases s, 1nat,
{
    if s.len() == 0 {
        Seq::empty()
    } else {
        rules_in_all(s.drop_last()) + rules_in(s.last())
    }
}

proof fn lemma_rule_steps_add(a: Seq<PlanStep>, b: Seq<PlanStep>)
    ensures
        rule_steps(a + b) == rule_steps(a) + rule_steps(b),
    decreases b.len(),
{
    if b.len() == 0 {
        assert(a + b =~= a);
        assert(rule_steps(a) + rule_steps(b) =~= rule_steps(a));
    } else {
        assert((a + b).drop_last() =~= a + b.drop_last());
        assert((a + b).last() == b.last());
        lemma_rule_steps_add(a, b.drop_last());
        assert(rule_steps(a + b) =~= rule_steps(a) + rule_steps(b));
    }
}

proof fn lemma_rules_of_shape(s: SceneShape, color: Color)
    ensures
        rule_steps(plan_shape(s, color)) == rules_in(s),
    decreases s, 0nat,
{
    match s {
        SceneShape::Color { color: inner, contents } => {
            lemma_rules_of_shapes(contents, inner);
        },
        SceneShape::Glyph { x, y, unicode, scale } => {
            let one = plan_shape(s, color);
            assert(one.drop_last() =~= Seq::<PlanStep>::empty());
            assert(rule_steps(Seq::<PlanStep>::empty()) =~= Seq::<PlanStep>::empty());
            assert(rule_steps(one) =~= Seq::<PlanStep>::empty());
        },
        SceneShape::Rule { .. } => {
            let one = plan_shape(s, color);
            assert(one.drop_last() =~= Seq::<PlanStep>::empty());
            assert(rule_steps(Seq::<PlanStep>::empty()) =~= Seq::<PlanStep>::empty());
            assert(rule_steps(one) =~= rules_in(s));
        },
        SceneShape::DebugBox { .. } => {
            let one = plan_shape(s, color);
            assert(one.drop_last() =~= Seq::<PlanStep>::empty());
            assert(rule_steps(Seq::<PlanStep>::empty()) =~= Seq::<PlanStep>::empty());
            assert(rule_steps(one) =~= Seq::<PlanStep>::empty());
        },
    }
}

proof fn lemma_rules_of_shapes(s: Seq<SceneShape>, color: Color)
    ensures
        rule_steps(plan_shapes(s, color)) == rules_in_all(s),
    decreases s, 1nat,
{
    if s.len() > 0 {
        lemma_rules_of_shapes(s.drop_last(), color);
        lemma_rules_of_shape(s.last(), color);
        lemma_rule_steps_add(plan_shapes(s.drop_last(), color), plan_shape(s.last(), color));
    }
}

/// Every rule of a scene is drawn, whatever color encloses it: the rule
/// steps of the plan are exactly the scene's rules, at any depth, each
/// with its own geometry, in drawing order.
pub proof fn law_every_rule_is_drawn(s: Seq<SceneShape>, color: Color)
    ensures
        rule_steps(plan_shapes(s, color)) == rules_in_all(s),
{
    lemma_rules_of_shapes(s, color);
}

} // verus!
