//! The integer parts of the WebGPU backend: the image it returns, its
//! errors, the row alignment of GPU read-back and the removal of that
//! padding, and the packing of glyph bitmaps into one atlas texture.
pub mod plan;

use vstd::prelude::*;
use vstd::arithmetic::div_mod::{lemma_fundamental_div_mod, lemma_fundamental_div_mod_converse};
use crate::render::RenderSettings;
use crate::text::{decimal, push_int, push_str};

verus! {

/// The widest or highest atlas the renderer builds.
pub const MAX_ATLAS_DIMENSION: u32 = 2048;

/// The gap kept around every glyph in the atlas.
pub const ATLAS_PADDING: u32 = 1;

/// An RGBA image, four bytes per pixel, rows top to bottom.
#[derive(Clone, Debug, PartialEq)]
pub struct WebGpuImage {
    pub width: u32,
    pub height: u32,
    pub rgba: Vec<u8>,
}

/// Why the WebGPU backend could not draw a scene.
#[derive(Clone, Debug, PartialEq, Eq)]
pub enum WebGpuError {
    AdapterUnavailable(String),
    DeviceUnavailable(String),
    InvalidGlyph(u32),
    Font(String),
    AtlasTooLarge,
    BufferMap(String),
    DevicePoll(String),
}

/// The text that describes a WebGPU error.
pub open spec fn webgpu_error_text(e: WebGpuError) -> Seq<char> {
    match e {
        WebGpuError::AdapterUnavailable(m) => "WebGPU adapter unavailable: "@ + m@,
        WebGpuError::DeviceUnavailable(m) => "WebGPU device unavailable: "@ + m@,
        WebGpuError::InvalidGlyph(c) => "invalid Unicode code point: "@ + decimal(c as int),
        WebGpuError::Font(m) => "font rasterization failed: "@ + m@,
        WebGpuError::AtlasTooLarge => "glyph atlas exceeds the supported renderer size"@,
        WebGpuError::BufferMap(m) => "WebGPU readback buffer mapping failed: "@ + m@,
        WebGpuError::DevicePoll(m) => "WebGPU device polling failed: "@ + m@,
    }
}

impl WebGpuError {
    /// The text that describes this error.
    pub fn message(&self) -> (m: String)
        ensures
            m@ == webgpu_error_text(*self),
    {
        let mut out = String::new();
        match self {
            WebGpuError::AdapterUnavailable(message) => {
                push_str(&mut out, "WebGPU adapter unavailable: ");
                push_str(&mut out, message.as_str());
            },
            WebGpuError::DeviceUnavailable(message) => {
                push_str(&mut out, "WebGPU device unavailable: ");
                push_str(&mut out, message.as_str());
            },
            WebGpuError::InvalidGlyph(codepoint) => {
                push_str(&mut out, "invalid Unicode code point: ");
                push_int(&mut out, *codepoint as i64);
            },
            WebGpuError::Font(message) => {
                push_str(&mut out, "font rasterization failed: ");
                push_str(&mut out, message.as_str());
            },
            WebGpuError::AtlasTooLarge => {
                push_str(&mut out, "glyph atlas exceeds the supported renderer size");
            },
            WebGpuError::BufferMap(message) => {
                push_str(&mut out, "WebGPU readback buffer mapping failed: ");
                push_str(&mut out, message.as_str());
            },
            WebGpuError::DevicePoll(message) => {
                push_str(&mut out, "WebGPU device polling failed: ");
                push_str(&mut out, message.as_str());
            },
        }
        assert(out@ =~= webgpu_error_text(*self));
        out
    }
}

/// Draws scenes on the GPU with the given render settings.
#[derive(Copy, Clone)]
pub struct WebGpuRenderer<'a> {
    settings: &'a RenderSettings,
}

impl<'a> WebGpuRenderer<'a> {
    /// The render settings this renderer draws with.
    pub closed spec fn config(self) -> RenderSettings {
        *self.settings
    }

    /// The render settings this renderer uses.
    pub fn settings(&self) -> (s: &RenderSettings)
        ensures
            *s == self.config(),
    {
        self.settings
    }

    pub fn new(settings: &'a RenderSettings) -> (r: WebGpuRenderer<'a>)
        ensures
            r.config() == *settings,
    {
        WebGpuRenderer { settings }
    }
}

/// The smallest multiple of `alignment` that is at least `value`.
pub fn align_to(value: u32, alignment: u32) -> (r: u32)
    requires
        alignment > 0,
        value + alignment - 1 <= u32::MAX,
    ensures
        r % alignment == 0,
        value <= r < value + alignment,
{
    let sum = value + (alignment - 1);
    let q = sum / alignment;
    proof {
        lemma_fundamental_div_mod(sum as int, alignment as int);
        assert(sum as int == alignment * q + sum % alignment);
        assert(q * alignment <= sum) by (nonlinear_arith)
            requires
                sum as int == alignment * q + sum % alignment,
                sum % alignment >= 0,
        ;
        lemma_fundamental_div_mod_converse((q * alignment) as int, alignment as int, q as int, 0);
    }
    q * alignment
}


/// The first `unpadded` bytes of each of the first `rows` rows of
/// `mapped`, whose rows start `padded` bytes apart, one after another.
pub open spec fn unpadded_rows(mapped: Seq<u8>, rows: nat, unpadded: nat, padded: nat) -> Seq<u8>
    decreases rows,
{
    if rows == 0 {
        Seq::empty()
    } else {
        let start = (rows - 1) * padded;
        unpadded_rows(mapped, (rows - 1) as nat, unpadded, padded) + mapped.subrange(
            start,
            start + unpadded,
        )
    }
}

/// The pixel bytes of an image read back from the GPU, whose rows lie
/// `padded_bytes_per_row` apart in `mapped`: the first
/// `unpadded_bytes_per_row` bytes of each of the `height` rows, in order.
pub fn unpad_rows(
    mapped: &[u8],
    height: u32,
    unpadded_bytes_per_row: u32,
    padded_bytes_per_row: u32,
) -> (rgba: Vec<u8>)
    requires
        unpadded_bytes_per_row * height <= u32::MAX,
        height > 0 ==> (height - 1) * padded_bytes_per_row <= u32::MAX,
        height > 0 ==> (height - 1) * padded_bytes_per_row + unpadded_bytes_per_row <= mapped@.len(),
    ensures
        rgba@ == unpadded_rows(
            mapped@,
            height as nat,
            unpadded_bytes_per_row as nat,
            padded_bytes_per_row as nat,
        ),
        rgba@.len() == unpadded_bytes_per_row * height,
{
    let ghost u = unpadded_bytes_per_row as nat;
    let ghost p = padded_bytes_per_row as nat;
    let n: usize = mapped.len();
    let mut rgba: Vec<u8> = Vec::new();
    let mut row: u32 = 0;
    while row < height
        invariant
            n == mapped@.len(),
            row <= height,
            u == unpadded_bytes_per_row,
            p == padded_bytes_per_row,
            height > 0 ==> (height - 1) * p <= u32::MAX,
            height > 0 ==> (height - 1) * p + u <= mapped@.len(),
            rgba@ == unpadded_rows(mapped@, row as nat, u, p),
            rgba@.len() == u * row,
        decreases height - row,
    {
        assert(row * p <= (height - 1) * p) by (nonlinear_arith)
            requires
                row < height,
        ;
        let start: usize = (row * padded_bytes_per_row) as usize;
        let end: usize = start + unpadded_bytes_per_row as usize;
        let ghost before = rgba@;
        let mut k: usize = start;
        while k < end
            invariant
                start <= k <= end,
                end == start + u,
                end <= mapped@.len(),
                rgba@ == before + mapped@.subrange(start as int, k as int),
            decreases end - k,
        {
            rgba.push(mapped[k]);
            assert(mapped@.subrange(start as int, k + 1) =~= mapped@.subrange(start as int, k as int).push(
                mapped@[k as int],
            ));
            k = k + 1;
        }
        assert(unpadded_rows(mapped@, (row + 1) as nat, u, p) == before + mapped@.subrange(
            start as int,
            end as int,
        ));
        assert(u * (row + 1) == u * row + u) by (nonlinear_arith);
        row = row + 1;
    }
    rgba
}

/// A rasterized glyph waiting for its place in the atlas: its bitmap has
/// one byte of coverage per pixel, rows top to bottom.
#[derive(Clone, Debug)]
pub struct AtlasGlyph {
    pub width: u32,
    pub height: u32,
    pub bitmap: Vec<u8>,
    pub atlas_x: u32,
    pub atlas_y: u32,
}

/// Whether a glyph has pixels to place; empty glyphs are left where they are.
pub open spec fn is_drawn(g: AtlasGlyph) -> bool {
    g.width > 0 && g.height > 0
}

/// The cursor of shelf packing: where the next glyph goes on the current
/// shelf, how high that shelf is, and how much of the atlas is used.
pub struct Shelf {
    pub x: int,
    pub y: int,
    pub row_height: int,
    pub used_width: int,
    pub used_height: int,
}

/// The cursor before any glyph is placed.
pub open spec fn first_shelf() -> Shelf {
    Shelf {
        x: ATLAS_PADDING as int,
        y: ATLAS_PADDING as int,
        row_height: 0,
        used_width: 1,
        used_height: 1,
    }
}

/// Whether a glyph, with padding on both sides, is wider or higher than
/// an atlas can be.
pub open spec fn too_large(g: AtlasGlyph) -> bool {
    g.width + 2 * ATLAS_PADDING > MAX_ATLAS_DIMENSION || g.height + 2 * ATLAS_PADDING > MAX_ATLAS_DIMENSION
}

/// Where a glyph goes: on the current shelf if it still fits its width,
/// else at the start of a new shelf below it. Gives x, y and the height
/// of the shelf so far.
pub open spec fn slot(s: Shelf, g: AtlasGlyph) -> (int, int, int) {
    if s.x + g.width + ATLAS_PADDING > MAX_ATLAS_DIMENSION {
        (ATLAS_PADDING as int, s.y + s.row_height + ATLAS_PADDING, 0)
    } else {
        (s.x, s.y, s.row_height)
    }
}

/// Whether a drawn glyph can be placed at its slot.
pub open spec fn placeable(s: Shelf, g: AtlasGlyph) -> bool {
    !too_large(g) && slot(s, g).1 + g.height + ATLAS_PADDING <= MAX_ATLAS_DIMENSION
}

pub open spec fn max_int(a: int, b: int) -> int {
    if a >= b { a } else { b }
}

/// The cursor after a glyph is placed at its slot.
pub open spec fn after_place(s: Shelf, g: AtlasGlyph) -> Shelf {
    let (x, y, row) = slot(s, g);
    Shelf {
        x: x + g.width + ATLAS_PADDING,
        y: y,
        row_height: max_int(row, g.height as int),
        used_width: max_int(s.used_width, x + g.width + ATLAS_PADDING),
        used_height: max_int(s.used_height, y + g.height + ATLAS_PADDING),
    }
}

/// Shelf packing of glyphs in order: whether every drawn glyph found a
/// place, the cursor at the end, and the position of each glyph handled
/// (an empty glyph keeps its own). When a glyph does not fit, packing
/// stops there and the positions cover the glyphs before it.
pub open spec fn pack_run(gs: Seq<AtlasGlyph>) -> (bool, Shelf, Seq<(int, int)>)
    decreases gs.len(),
{
    if gs.len() == 0 {
        (true, first_shelf(), Seq::empty())
    } else {
        let before = pack_run(gs.drop_last());
        let g = gs.last();
        if !before.0 {
            before
        } else if !is_drawn(g) {
            (true, before.1, before.2.push((g.atlas_x as int, g.atlas_y as int)))
        } else if !placeable(before.1, g) {
            (false, before.1, before.2)
        } else {
            let (x, y, row) = slot(before.1, g);
            (true, after_place(before.1, g), before.2.push((x, y)))
        }
    }
}

/// Whether packing can run without an arithmetic overflow: every drawn
/// glyph it reaches is narrow enough to add the padding to, and, when its
/// width passes that test, low enough as well.
pub open spec fn pack_safe(gs: Seq<AtlasGlyph>) -> bool {
    forall|i: int|
        0 <= i < gs.len() && #[trigger] pack_run(gs.take(i)).0 && is_drawn(gs[i]) ==> {
            &&& gs[i].width + 2 * ATLAS_PADDING <= u32::MAX
            &&& (gs[i].width + 2 * ATLAS_PADDING <= MAX_ATLAS_DIMENSION ==> gs[i].height + 2 * ATLAS_PADDING
                <= u32::MAX)
        }
}

/// Whether every drawn glyph holds at least one byte per pixel.
pub open spec fn bitmaps_complete(gs: Seq<AtlasGlyph>) -> bool {
    forall|i: int| 0 <= i < gs.len() && is_drawn(#[trigger] gs[i]) ==> gs[i].bitmap@.len() >= gs[i].width * gs[i].height
}

/// The width of the atlas after packing.
pub open spec fn atlas_width(gs: Seq<AtlasGlyph>) -> int {
    max_int(pack_run(gs).1.used_width, 1)
}

/// The height of the atlas after packing.
pub open spec fn atlas_height(gs: Seq<AtlasGlyph>) -> int {
    max_int(pack_run(gs).1.used_height, 1)
}

/// Whether the pixel at column `px`, row `py` lies in a glyph placed at `p`.
pub open spec fn covers(p: (int, int), g: AtlasGlyph, px: int, py: int) -> bool {
    &&& is_drawn(g)
    &&& p.0 <= px < p.0 + g.width
    &&& p.1 <= py < p.1 + g.height
}

/// The byte of the atlas at index `q` of an atlas `width` wide: the
/// coverage from the last glyph placed over that pixel, or zero.
pub open spec fn atlas_pixel(gs: Seq<AtlasGlyph>, pos: Seq<(int, int)>, width: int, q: int) -> u8
    decreases gs.len(),
{
    if gs.len() == 0 {
        0
    } else {
        let k = gs.len() - 1;
        let g = gs[k];
        let p = pos[k];
        let px = q % width;
        let py = q / width;
        if covers(p, g, px, py) {
            g.bitmap@[(py - p.1) * g.width + (px - p.0)]
        } else {
            atlas_pixel(gs.drop_last(), pos.drop_last(), width, q)
        }
    }
}

proof fn lemma_pack_stops(gs: Seq<AtlasGlyph>, k: int)
    requires
        0 <= k <= gs.len(),
        !pack_run(gs.take(k)).0,
    ensures
        pack_run(gs) == pack_run(gs.take(k)),
    decreases gs.len(),
{
    if k < gs.len() {
        assert(gs.drop_last().take(k) =~= gs.take(k));
        lemma_pack_stops(gs.drop_last(), k);
    } else {
        assert(gs.take(k) =~= gs);
    }
}

/// What holds of the cursor and of every placed glyph after packing that
/// has not stopped.
pub open spec fn pack_invariant(gs: Seq<AtlasGlyph>) -> bool {
    let r = pack_run(gs);
    let s = r.1;
    &&& r.2.len() == gs.len()
    &&& 1 <= s.x <= MAX_ATLAS_DIMENSION
    &&& 1 <= s.y
    &&& 0 <= s.row_height
    &&& s.y + s.row_height + ATLAS_PADDING <= MAX_ATLAS_DIMENSION
    &&& s.x <= s.used_width <= MAX_ATLAS_DIMENSION
    &&& 1 <= s.used_height <= MAX_ATLAS_DIMENSION
    &&& s.y + s.row_height + ATLAS_PADDING <= s.used_height || s.row_height == 0
    &&& forall|j: int|
        0 <= j < gs.len() && is_drawn(#[trigger] gs[j]) ==> {
            let p = r.2[j];
            &&& 1 <= p.0
            &&& 1 <= p.1
            &&& p.0 + gs[j].width + ATLAS_PADDING <= s.used_width
            &&& p.1 + gs[j].height + ATLAS_PADDING <= s.used_height
            &&& (p.1 + gs[j].height < s.y || (p.1 == s.y && p.0 + gs[j].width < s.x && gs[j].height
                <= s.row_height))
        }
}

proof fn lemma_pack_invariant(gs: Seq<AtlasGlyph>)
    requires
        pack_run(gs).0,
    ensures
        pack_invariant(gs),
    decreases gs.len(),
{
    if gs.len() > 0 {
        let before = pack_run(gs.drop_last());
        lemma_pack_invariant(gs.drop_last());
        let g = gs.last();
        let r = pack_run(gs);
        assert forall|j: int| 0 <= j < gs.len() && is_drawn(#[trigger] gs[j]) implies {
            let p = r.2[j];
            &&& 1 <= p.0
            &&& 1 <= p.1
            &&& p.0 + gs[j].width + ATLAS_PADDING <= r.1.used_width
            &&& p.1 + gs[j].height + ATLAS_PADDING <= r.1.used_height
            &&& (p.1 + gs[j].height < r.1.y || (p.1 == r.1.y && p.0 + gs[j].width < r.1.x && gs[j].height
                <= r.1.row_height))
        } by {
            if j < gs.len() - 1 {
                assert(gs.drop_last()[j] == gs[j]);
                assert(is_drawn(gs.drop_last()[j]));
            }
        }
    }
}

/// Packing places every drawn glyph inside the atlas, one pixel clear of
/// its left and top edges, and no two drawn glyphs overlap.
pub proof fn law_packed_glyphs_are_disjoint(gs: Seq<AtlasGlyph>)
    requires
        pack_run(gs).0,
    ensures
        forall|j: int|
            0 <= j < gs.len() && is_drawn(#[trigger] gs[j]) ==> {
                let p = pack_run(gs).2[j];
                &&& 1 <= p.0 && p.0 + gs[j].width < atlas_width(gs)
                &&& 1 <= p.1 && p.1 + gs[j].height < atlas_height(gs)
            },
        forall|i: int, j: int, px: int, py: int|
            0 <= i < j < gs.len() && #[trigger] covers(pack_run(gs).2[i], gs[i], px, py) ==> !#[trigger] covers(
                pack_run(gs).2[j],
                gs[j],
                px,
                py,
            ),
    decreases gs.len(),
{
    lemma_pack_invariant(gs);
    if gs.len() > 0 {
        let prev = gs.drop_last();
        law_packed_glyphs_are_disjoint(prev);
        lemma_pack_invariant(prev);
        let r = pack_run(gs);
        let before = pack_run(prev);
        assert(forall|j: int| 0 <= j < prev.len() ==> r.2[j] == before.2[j]);
        assert forall|i: int, j: int, px: int, py: int|
            0 <= i < j < gs.len() && #[trigger] covers(r.2[i], gs[i], px, py) implies !#[trigger] covers(
                r.2[j],
                gs[j],
                px,
                py,
            ) by {
            assert(prev[i] == gs[i]);
            if j < gs.len() - 1 {
                assert(prev[j] == gs[j]);
                assert(covers(before.2[i], prev[i], px, py));
            } else {
                assert(is_drawn(prev[i]));
            }
        }
    }
}


proof fn lemma_grid_index(q: int, width: int, row: int, col: int)
    requires
        width > 0,
        0 <= col < width,
        row >= 0,
        q == row * width + col,
    ensures
        q % width == col,
        q / width == row,
{
    lemma_fundamental_div_mod_converse(q, width, row, col);
}

proof fn lemma_grid_split(q: int, width: int)
    requires
        width > 0,
        q >= 0,
    ensures
        q == (q / width) * width + q % width,
        0 <= q % width < width,
        q / width >= 0,
{
    lemma_fundamental_div_mod(q, width);
    assert((q / width) * width == width * (q / width)) by (nonlinear_arith);
    assert(q / width >= 0) by (nonlinear_arith)
        requires
            q >= 0,
            width > 0,
            q == width * (q / width) + q % width,
            0 <= q % width < width,
    ;
}

proof fn lemma_atlas_pixel_from(gs: Seq<AtlasGlyph>, pos: Seq<(int, int)>, width: int, q: int, j: int)
    requires
        0 <= j < gs.len(),
        pos.len() == gs.len(),
        covers(pos[j], gs[j], q % width, q / width),
        forall|i: int| j < i < gs.len() ==> !#[trigger] covers(pos[i], gs[i], q % width, q / width),
    ensures
        atlas_pixel(gs, pos, width, q) == gs[j].bitmap@[(q / width - pos[j].1) * gs[j].width + (q % width
            - pos[j].0)],
    decreases gs.len(),
{
    if j < gs.len() - 1 {
        let k = gs.len() - 1;
        assert(!covers(pos[k], gs[k], q % width, q / width));
        assert(gs.drop_last()[j] == gs[j]);
        assert(pos.drop_last()[j] == pos[j]);
        assert forall|i: int| j < i < gs.drop_last().len() implies !#[trigger] covers(
            pos.drop_last()[i],
            gs.drop_last()[i],
            q % width,
            q / width,
        ) by {
            assert(gs.drop_last()[i] == gs[i]);
            assert(pos.drop_last()[i] == pos[i]);
        }
        lemma_atlas_pixel_from(gs.drop_last(), pos.drop_last(), width, q, j);
    }
}

/// Every pixel of every drawn glyph reaches the atlas unchanged: row `r`,
/// column `c` of its bitmap is the atlas byte `r` rows below and `c`
/// columns right of the glyph's position.
pub proof fn law_atlas_holds_each_glyph_unchanged(gs: Seq<AtlasGlyph>, j: int, r: int, c: int)
    requires
        pack_run(gs).0,
        0 <= j < gs.len(),
        is_drawn(gs[j]),
        0 <= r < gs[j].height,
        0 <= c < gs[j].width,
    ensures
        ({
            let p = pack_run(gs).2[j];
            let w = atlas_width(gs);
            atlas_pixel(gs, pack_run(gs).2, w, (p.1 + r) * w + p.0 + c) == gs[j].bitmap@[r * gs[j].width + c]
        }),
{
    let pos = pack_run(gs).2;
    let p = pos[j];
    let w = atlas_width(gs);
    let q = (p.1 + r) * w + p.0 + c;
    law_packed_glyphs_are_disjoint(gs);
    lemma_pack_invariant(gs);
    assert(1 <= p.0 && p.0 + gs[j].width < w && 1 <= p.1);
    lemma_grid_index(q, w, p.1 + r, p.0 + c);
    assert(covers(p, gs[j], q % w, q / w));
    assert forall|i: int| j < i < gs.len() implies !#[trigger] covers(pos[i], gs[i], q % w, q / w) by {
        assert(covers(pos[j], gs[j], q % w, q / w));
    }
    lemma_atlas_pixel_from(gs, pos, w, q, j);
}

proof fn lemma_pack_take_step(gs: Seq<AtlasGlyph>, i: int)
    requires
        0 <= i < gs.len(),
    ensures
        gs.take(i + 1).drop_last() == gs.take(i),
        gs.take(i + 1).last() == gs[i],
{
    assert(gs.take(i + 1).drop_last() =~= gs.take(i));
}

/// Packs the drawn glyphs into one atlas, shelf by shelf, with one pixel
/// of padding, and copies their bitmaps into it. Each drawn glyph gets its
/// position in `atlas_x` and `atlas_y`; the result is the atlas width,
/// height and bytes. Fails when a glyph cannot be placed within the
/// largest atlas.
pub fn pack_atlas(glyphs: &mut Vec<AtlasGlyph>) -> (r: Result<(u32, u32, Vec<u8>), WebGpuError>)
    requires
        pack_safe(old(glyphs)@),
        pack_run(old(glyphs)@).0 ==> bitmaps_complete(old(glyphs)@),
    ensures
        final(glyphs)@.len() == old(glyphs)@.len(),
        forall|i: int|
            0 <= i < old(glyphs)@.len() ==> {
                &&& (#[trigger] final(glyphs)@[i]).width == old(glyphs)@[i].width
                &&& final(glyphs)@[i].height == old(glyphs)@[i].height
                &&& final(glyphs)@[i].bitmap@ == old(glyphs)@[i].bitmap@
                &&& i < pack_run(old(glyphs)@).2.len() ==> final(glyphs)@[i].atlas_x == pack_run(
                    old(glyphs)@,
                ).2[i].0 && final(glyphs)@[i].atlas_y == pack_run(old(glyphs)@).2[i].1
                &&& i >= pack_run(old(glyphs)@).2.len() ==> final(glyphs)@[i].atlas_x == old(glyphs)@[i].atlas_x
                    && final(glyphs)@[i].atlas_y == old(glyphs)@[i].atlas_y
            },
        r is Ok <==> pack_run(old(glyphs)@).0,
        r matches Err(e) ==> e == WebGpuError::AtlasTooLarge,
        r matches Ok((w, h, atlas)) ==> {
            &&& w == atlas_width(old(glyphs)@)
            &&& h == atlas_height(old(glyphs)@)
            &&& atlas@.len() == w * h
            &&& forall|q: int|
                0 <= q < w * h ==> #[trigger] atlas@[q] == atlas_pixel(
                    old(glyphs)@,
                    pack_run(old(glyphs)@).2,
                    w as int,
                    q,
                )
        },
{
    let ghost gs = glyphs@;
    let mut x: u32 = ATLAS_PADDING;
    let mut y: u32 = ATLAS_PADDING;
    let mut row_height: u32 = 0;
    let mut used_width: u32 = 1;
    let mut used_height: u32 = 1;
    proof {
        assert(gs.take(0) =~= Seq::<AtlasGlyph>::empty());
    }
    let mut i: usize = 0;
    while i < glyphs.len()
        invariant
            gs == old(glyphs)@,
            i <= gs.len(),
            glyphs@.len() == gs.len(),
            pack_safe(gs),
            pack_run(gs).0 ==> bitmaps_complete(gs),
            pack_run(gs.take(i as int)).0,
            pack_invariant(gs.take(i as int)),
            pack_run(gs.take(i as int)).1 == (Shelf {
                x: x as int,
                y: y as int,
                row_height: row_height as int,
                used_width: used_width as int,
                used_height: used_height as int,
            }),
            forall|j: int|
                0 <= j < gs.len() ==> {
                    &&& (#[trigger] glyphs@[j]).width == gs[j].width
                    &&& glyphs@[j].height == gs[j].height
                    &&& glyphs@[j].bitmap@ == gs[j].bitmap@
                    &&& j < i ==> glyphs@[j].atlas_x == pack_run(gs.take(i as int)).2[j].0 && glyphs@[j].atlas_y
                        == pack_run(gs.take(i as int)).2[j].1
                    &&& j >= i ==> glyphs@[j].atlas_x == gs[j].atlas_x && glyphs@[j].atlas_y == gs[j].atlas_y
                },
        decreases gs.len() - i,
    {
        proof {
            lemma_pack_take_step(gs, i as int);
            assert(gs.take(i as int + 1).drop_last() == gs.take(i as int));
        }
        let width = glyphs[i].width;
        let height = glyphs[i].height;
        if width > 0 && height > 0 {
            assert(pack_run(gs.take(i as int)).0 && is_drawn(gs[i as int]));
            let too_big = width + 2 * ATLAS_PADDING > MAX_ATLAS_DIMENSION || height + 2 * ATLAS_PADDING
                > MAX_ATLAS_DIMENSION;
            if too_big {
                proof {
                    assert(too_large(gs[i as int]));
                    assert(!pack_run(gs.take(i + 1)).0);
                    lemma_pack_stops(gs, i + 1);
                    assert(pack_run(gs).2 == pack_run(gs.take(i as int)).2);
                }
                return Err(WebGpuError::AtlasTooLarge);
            }
            if x + width + ATLAS_PADDING > MAX_ATLAS_DIMENSION {
                x = ATLAS_PADDING;
                y = y + row_height + ATLAS_PADDING;
                row_height = 0;
            }
            if y + height + ATLAS_PADDING > MAX_ATLAS_DIMENSION {
                proof {
                    lemma_pack_stops(gs, i + 1);
                }
                return Err(WebGpuError::AtlasTooLarge);
            }
            glyphs[i].atlas_x = x;
            glyphs[i].atlas_y = y;
            x = x + width + ATLAS_PADDING;
            if height > row_height {
                row_height = height;
            }
            if x > used_width {
                used_width = x;
            }
            if y + height + ATLAS_PADDING > used_height {
                used_height = y + height + ATLAS_PADDING;
            }
        }
        proof {
            lemma_pack_invariant(gs.take(i + 1));
        }
        i = i + 1;
    }
    proof {
        assert(gs.take(gs.len() as int) =~= gs);
    }
    let width = if used_width > 1 { used_width } else { 1 };
    let height = if used_height > 1 { used_height } else { 1 };
    let ghost pos = pack_run(gs).2;
    let ghost wi = width as int;
    proof {
        assert(width * height <= MAX_ATLAS_DIMENSION * MAX_ATLAS_DIMENSION) by (nonlinear_arith)
            requires
                width <= MAX_ATLAS_DIMENSION,
                height <= MAX_ATLAS_DIMENSION,
        ;
    }
    let size = (width * height) as usize;
    let mut atlas: Vec<u8> = Vec::new();
    while atlas.len() < size
        invariant
            atlas@.len() <= size,
            forall|q: int| 0 <= q < atlas@.len() ==> #[trigger] atlas@[q] == 0,
        decreases size - atlas@.len(),
    {
        atlas.push(0);
    }
    proof {
        assert forall|q: int| 0 <= q < size implies #[trigger] atlas@[q] == atlas_pixel(
            gs.take(0),
            pos.take(0),
            wi,
            q,
        ) by {}
    }
    let mut k: usize = 0;
    while k < glyphs.len()
        invariant
            k <= gs.len(),
            glyphs@.len() == gs.len(),
            pack_run(gs).0,
            pack_invariant(gs),
            bitmaps_complete(gs),
            pos == pack_run(gs).2,
            wi == width,
            width == atlas_width(gs),
            height == atlas_height(gs),
            size == width * height,
            atlas@.len() == size,
            forall|j: int|
                0 <= j < gs.len() ==> {
                    &&& (#[trigger] glyphs@[j]).width == gs[j].width
                    &&& glyphs@[j].height == gs[j].height
                    &&& glyphs@[j].bitmap@ == gs[j].bitmap@
                    &&& glyphs@[j].atlas_x == pos[j].0
                    &&& glyphs@[j].atlas_y == pos[j].1
                },
            forall|q: int| 0 <= q < size ==> #[trigger] atlas@[q] == atlas_pixel(gs.take(k as int), pos.take(k as int), wi, q),
        decreases gs.len() - k,
    {
        proof {
            lemma_pack_take_step(gs, k as int);
            assert(pos.take(k as int + 1).drop_last() =~= pos.take(k as int));
            assert(pos.take(k as int + 1).last() == pos[k as int]);
        }
        let gw = glyphs[k].width;
        let gh = glyphs[k].height;
        if gw > 0 && gh > 0 {
            let ax = glyphs[k].atlas_x;
            let ay = glyphs[k].atlas_y;
            let ghost g = gs[k as int];
            assert(is_drawn(g));
            assert(ax + gw + ATLAS_PADDING <= width);
            assert(ay + gh + ATLAS_PADDING <= height);
            let mut row: u32 = 0;
            while row < gh
                invariant
                    k < gs.len(),
                    glyphs@.len() == gs.len(),
                    g == gs[k as int],
                    is_drawn(g),
                    gw == g.width,
                    gh == g.height,
                    g.bitmap@.len() >= gw * gh,
                    glyphs@[k as int].bitmap@ == g.bitmap@,
                    ax == pos[k as int].0,
                    ay == pos[k as int].1,
                    1 <= ax,
                    1 <= ay,
                    ax + gw + ATLAS_PADDING <= width,
                    ay + gh + ATLAS_PADDING <= height,
                    width <= MAX_ATLAS_DIMENSION,
                    height <= MAX_ATLAS_DIMENSION,
                    wi == width,
                    size == width * height,
                    atlas@.len() == size,
                    row <= gh,
                    forall|q: int|
                        0 <= q < size ==> #[trigger] atlas@[q] == if covers(
                            (ax as int, ay as int),
                            g,
                            q % wi,
                            q / wi,
                        ) && q / wi < ay + row {
                            g.bitmap@[(q / wi - ay) * gw + (q % wi - ax)]
                        } else {
                            atlas_pixel(gs.take(k as int), pos.take(k as int), wi, q)
                        },
                decreases gh - row,
            {
                let mut col: u32 = 0;
                while col < gw
                    invariant
                        k < gs.len(),
                        glyphs@.len() == gs.len(),
                        is_drawn(g),
                        gw == g.width,
                        gh == g.height,
                        g.bitmap@.len() >= gw * gh,
                        glyphs@[k as int].bitmap@ == g.bitmap@,
                        1 <= ax,
                        1 <= ay,
                        ax + gw + ATLAS_PADDING <= width,
                        ay + gh + ATLAS_PADDING <= height,
                        width <= MAX_ATLAS_DIMENSION,
                        height <= MAX_ATLAS_DIMENSION,
                        wi == width,
                        size == width * height,
                        atlas@.len() == size,
                        row < gh,
                        col <= gw,
                        forall|q: int|
                            0 <= q < size ==> #[trigger] atlas@[q] == if covers(
                                (ax as int, ay as int),
                                g,
                                q % wi,
                                q / wi,
                            ) && (q / wi < ay + row || (q / wi == ay + row && q % wi < ax + col)) {
                                g.bitmap@[(q / wi - ay) * gw + (q % wi - ax)]
                            } else {
                                atlas_pixel(gs.take(k as int), pos.take(k as int), wi, q)
                            },
                    decreases gw - col,
                {
                    proof {
                        assert((ay + row) * width + ax + col < width * height) by (nonlinear_arith)
                            requires
                                ay + row < height,
                                ax + col < width,
                        ;
                        assert(row * gw + col < gw * gh) by (nonlinear_arith)
                            requires
                                row < gh,
                                col < gw,
                        ;
                    }
                    proof {
                        assert((ay + row) * width <= (height - 1) * width) by (nonlinear_arith)
                            requires
                                ay + row <= height - 1,
                                width >= 0,
                        ;
                        assert((height - 1) * width <= MAX_ATLAS_DIMENSION * MAX_ATLAS_DIMENSION) by (nonlinear_arith)
                            requires
                                1 <= height <= MAX_ATLAS_DIMENSION,
                                0 <= width <= MAX_ATLAS_DIMENSION,
                        ;
                        assert(row * gw <= gh * gw) by (nonlinear_arith)
                            requires
                                row <= gh,
                                gw >= 0,
                        ;
                        assert(gh * gw <= MAX_ATLAS_DIMENSION * MAX_ATLAS_DIMENSION) by (nonlinear_arith)
                            requires
                                gh <= MAX_ATLAS_DIMENSION,
                                gw <= MAX_ATLAS_DIMENSION,
                        ;
                    }
                    let destination = ((ay + row) * width + ax + col) as usize;
                    let source = (row * gw + col) as usize;
                    let value = glyphs[k].bitmap[source];
                    proof {
                        lemma_grid_index(destination as int, wi, (ay + row) as int, (ax + col) as int);
                    }
                    atlas.set(destination, value);
                    proof {
                        assert forall|q: int| 0 <= q < size implies #[trigger] atlas@[q] == if covers(
                            (ax as int, ay as int),
                            g,
                            q % wi,
                            q / wi,
                        ) && (q / wi < ay + row || (q / wi == ay + row && q % wi < ax + col + 1)) {
                            g.bitmap@[(q / wi - ay) * gw + (q % wi - ax)]
                        } else {
                            atlas_pixel(gs.take(k as int), pos.take(k as int), wi, q)
                        } by {
                            lemma_grid_split(q, wi);
                            if q != destination {
                                if q / wi == ay + row && q % wi == ax + col {
                                    assert(q == (ay + row) * wi + ax + col);
                                }
                            }
                        }
                    }
                    col = col + 1;
                }
                row = row + 1;
            }
            proof {
                assert forall|q: int| 0 <= q < size implies #[trigger] atlas@[q] == atlas_pixel(
                    gs.take(k as int + 1),
                    pos.take(k as int + 1),
                    wi,
                    q,
                ) by {
                    lemma_grid_split(q, wi);
                }
            }
        } else {
            proof {
                assert forall|q: int| 0 <= q < size implies #[trigger] atlas@[q] == atlas_pixel(
                    gs.take(k as int + 1),
                    pos.take(k as int + 1),
                    wi,
                    q,
                ) by {}
            }
        }
        k = k + 1;
    }
    proof {
        assert(pos.take(gs.len() as int) =~= pos);
    }
    Ok((width, height, atlas))
}

} // verus!
