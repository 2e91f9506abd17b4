//! Renderer selection, glyph tables and the presentation-time star twinkle.

use vstd::prelude::*;
use vstd::string::StringSliceAdditionalSpecFns;
use crate::engine::ArtModel;
use crate::hash::{hash_cell, hash_cell_spec};
use crate::seed::{derive_feature_seed, feature_seed_spec, ANIMATION_STAR_TWINKLE_V1};
use crate::topology::CellSamplingShape;
use crate::text::{push_char, push_str};
use crate::ansi::{style_text, AnsiHalfBlockLine};
use crate::color::{
    galaxy_background_for_level, galaxy_background_spec, galaxy_foreground_for_level,
    galaxy_foreground_spec, lemma_styles_are_csi, ColorPalette, StarBrightness, StarHue, RESET,
};
use crate::starfield::{
    foreground_cell_is_well_styled, foreground_fold, foreground_line_spec, lemma_foreground_line_width,
    lemma_plain_foreground_fold,
};
use crate::terminal::{
    ends_ground, is_csi_sequence, lemma_csi_sequence, lemma_single_char, lemma_width_concat,
    visible_width_spec,
};
use crate::seed::{wadd, wmul, FNV_OFFSET_BASIS, FNV_PRIME};

verus! {

/// Half-block glyph for the visibility of the two halves of a cell.
pub open spec fn half_block_glyph_spec(top_visible: bool, bottom_visible: bool) -> char {
    if top_visible && bottom_visible {
        '█'
    } else if top_visible {
        '▀'
    } else if bottom_visible {
        '▄'
    } else {
        ' '
    }
}

/// Returns the glyph for half-block rendering from the visibility of the
/// top and bottom halves (never styled).
pub fn glyph_for_half_block(top_visible: bool, bottom_visible: bool) -> (c: char)
    ensures
        c == half_block_glyph_spec(top_visible, bottom_visible),
{
    match (top_visible, bottom_visible) {
        (true, true) => '█',
        (true, false) => '▀',
        (false, true) => '▄',
        (false, false) => ' ',
    }
}

/// ASCII intensity ramp, faintest first.
pub const ASCII_GLYPHS: [char; 9] = ['.', ':', '-', '=', '+', '*', '#', '%', '@'];

/// Shade intensity ramp, faintest first.
pub const SHADE_GLYPHS: [char; 4] = ['░', '▒', '▓', '█'];

/// Quadrant glyphs indexed by the 4-bit visibility mask
/// (bit 0 top-left, bit 1 top-right, bit 2 bottom-left, bit 3 bottom-right).
pub const QUADRANT_GLYPHS: [char; 16] = [
    ' ',
    '▘',
    '▝',
    '▀',
    '▖',
    '▌',
    '▞',
    '▛',
    '▗',
    '▚',
    '▐',
    '▜',
    '▄',
    '▙',
    '▟',
    '█',
];

/// Renderer family of a resolved model's profile.
#[derive(Debug, Clone, Copy, PartialEq, Eq, Structural)]
pub enum RendererKind {
    /// Shade renderer with vertical supersampling for galaxy-like models.
    Shade,
    /// Sparse starfield renderer.
    Starfield,
}

/// Renderer family of a concrete model: the starfield has its own
/// renderer, every galaxy model uses the shade family.
pub open spec fn renderer_kind_spec(model: ArtModel) -> RendererKind {
    if model == ArtModel::Starfield {
        RendererKind::Starfield
    } else {
        RendererKind::Shade
    }
}

/// Renderer family of a resolved model (never `Random`).
pub fn renderer_kind_for_model(model: ArtModel) -> (kind: RendererKind)
    requires
        model != ArtModel::Random,
    ensures
        kind == renderer_kind_spec(model),
{
    match model {
        ArtModel::Starfield => RendererKind::Starfield,
        _ => RendererKind::Shade,
    }
}

/// Renderer effectively used after model and renderer choice resolution.
#[derive(Debug, Clone, Copy, PartialEq, Eq, Structural)]
pub enum EffectiveRenderer {
    /// Starfield dedicated renderer.
    Starfield,
    /// Half-block renderer (▄▀█).
    HalfBlock,
    /// Shade renderer (░▒▓█).
    Shade,
    /// ASCII renderer (.:-=+*#%@).
    Ascii,
    /// 2×2 quadrant renderer (Spiral only).
    Quadrant,
}

/// Deterministic presentation context of one star-twinkle frame.
///
/// `frame_count` includes both static endpoint frames, so frame `0` and
/// frame `frame_count - 1` are always the exact base render.
#[derive(Debug, Clone, Copy, PartialEq, Eq)]
pub struct StarTwinkleFrame {
    /// Concrete seed captured from the resolved scene.
    pub scene_seed: u64,
    /// Zero-based frame index in the fixed intro sequence.
    pub frame_index: u32,
    /// Total number of frames in the fixed intro sequence.
    pub frame_count: u32,
}

/// Length of the per-star twinkle cycle in frames.
pub const TWINKLE_CYCLE_STEPS: u64 = 8;

/// Brightness tier of a star glyph: `.` faint, `*` medium, `+` bright.
pub open spec fn star_tier(c: char) -> Option<int> {
    if c == '.' {
        Some(0)
    } else if c == '*' {
        Some(1)
    } else if c == '+' {
        Some(2)
    } else {
        None
    }
}

/// Star glyph of a tier.
pub open spec fn tier_glyph(tier: int) -> char {
    if tier <= 0 {
        '.'
    } else if tier == 1 {
        '*'
    } else {
        '+'
    }
}

/// Frame `0`, the last frame, and every frame of a sequence of at most one
/// frame show the base render.
pub open spec fn is_static_frame(frame_index: u32, frame_count: u32) -> bool {
    frame_count <= 1 || frame_index == 0 || frame_index + 1 >= frame_count
}

/// Stable per-cell phase of the twinkle cycle.
pub open spec fn twinkle_phase(scene_seed: u64, x: usize, y: usize) -> int {
    hash_cell_spec(
        x as u64,
        y as u64,
        feature_seed_spec(scene_seed, ANIMATION_STAR_TWINKLE_V1.spec_bytes()),
    ) as int % TWINKLE_CYCLE_STEPS as int
}

/// Tier change at a step of the cycle: brighter on steps 2 and 3, fainter
/// on steps 6 and 7, unchanged otherwise.
pub open spec fn twinkle_delta(step: int) -> int {
    if step == 2 || step == 3 {
        1
    } else if step == 6 || step == 7 {
        -1
    } else {
        0
    }
}

/// Tier clamped to the three existing tiers.
pub open spec fn clamp_tier(t: int) -> int {
    if t < 0 {
        0
    } else if t > 2 {
        2
    } else {
        t
    }
}

/// The twinkled glyph of a base star decision at one frame.
pub open spec fn twinkle_spec(
    base: Option<char>,
    scene_seed: u64,
    x: usize,
    y: usize,
    frame_index: u32,
    frame_count: u32,
) -> Option<char> {
    match base {
        None => None,
        Some(c) => match star_tier(c) {
            None => Some(c),
            Some(tier) => if is_static_frame(frame_index, frame_count) {
                Some(c)
            } else {
                let step = (twinkle_phase(scene_seed, x, y) + frame_index as int)
                    % TWINKLE_CYCLE_STEPS as int;
                Some(tier_glyph(clamp_tier(tier + twinkle_delta(step))))
            },
        },
    }
}

/// Applies deterministic tier modulation to an existing star glyph.
///
/// The base decision stays authoritative: no star stays no star, any glyph
/// other than the three star tiers is returned as it is, and a star keeps
/// being a star whose tier moves by at most one; the two endpoint frames
/// show the base glyph.
pub fn twinkle_star_glyph(
    base: Option<char>,
    scene_seed: u64,
    x: usize,
    y: usize,
    frame_index: u32,
    frame_count: u32,
) -> (r: Option<char>)
    ensures
        r == twinkle_spec(base, scene_seed, x, y, frame_index, frame_count),
        r.is_none() <==> base.is_none(),
        is_static_frame(frame_index, frame_count) ==> r == base,
        base.is_some() && star_tier(base.unwrap()).is_none() ==> r == base,
        base.is_some() && star_tier(base.unwrap()).is_some() ==> {
            &&& r.is_some()
            &&& star_tier(r.unwrap()).is_some()
            &&& -1 <= star_tier(r.unwrap()).unwrap() - star_tier(base.unwrap()).unwrap() <= 1
        },
{
    let c = match base {
        None => {
            return None;
        },
        Some(c) => c,
    };
    if c == ' ' {
        return Some(c);
    }
    let tier: u64 = if c == '.' {
        0
    } else if c == '*' {
        1
    } else if c == '+' {
        2
    } else {
        return Some(c);
    };
    if frame_count <= 1 || frame_index == 0 || frame_index >= frame_count - 1 {
        return Some(c);
    }
    let twinkle_seed = derive_feature_seed(scene_seed, ANIMATION_STAR_TWINKLE_V1);
    let phase = hash_cell(x, y, twinkle_seed) % TWINKLE_CYCLE_STEPS;
    let step = (phase + frame_index as u64) % TWINKLE_CYCLE_STEPS;
    let modulated: u64 = if step == 2 || step == 3 {
        if tier < 2 { tier + 1 } else { 2 }
    } else if step == 6 || step == 7 {
        if tier > 0 { tier - 1 } else { 0 }
    } else {
        tier
    };
    let glyph = if modulated == 0 {
        '.'
    } else if modulated == 1 {
        '*'
    } else {
        '+'
    };
    Some(glyph)
}

/// The frame-dependent glyph of a base star: twinkled when a frame is given,
/// the base itself otherwise.
pub open spec fn maybe_twinkle_spec(
    base: Option<char>,
    x: usize,
    y: usize,
    frame: Option<StarTwinkleFrame>,
) -> Option<char> {
    match frame {
        Some(f) => twinkle_spec(base, f.scene_seed, x, y, f.frame_index, f.frame_count),
        None => base,
    }
}

/// Applies a frame context to a base star when animation is enabled.
pub fn maybe_twinkle_star(
    base: Option<char>,
    x: usize,
    y: usize,
    frame: Option<StarTwinkleFrame>,
) -> (r: Option<char>)
    ensures
        r == maybe_twinkle_spec(base, x, y, frame),
{
    match frame {
        Some(f) => twinkle_star_glyph(base, f.scene_seed, x, y, f.frame_index, f.frame_count),
        None => base,
    }
}

/// Sampling shape of a resolved model and effective renderer: the quadrant
/// shape for a spiral drawn with the quadrant renderer, the half-block shape
/// for every other pair.
pub open spec fn sampling_shape_spec(model: ArtModel, renderer: EffectiveRenderer) -> CellSamplingShape {
    if model == ArtModel::Spiral && renderer == EffectiveRenderer::Quadrant {
        CellSamplingShape::spec_quadrant()
    } else {
        CellSamplingShape::spec_half_block()
    }
}

/// Maps a resolved model and effective renderer to the terminal-cell
/// sampling shape used for density generation and preparation.
pub fn sampling_shape_for(model: ArtModel, renderer: EffectiveRenderer) -> (shape: CellSamplingShape)
    requires
        model != ArtModel::Random,
    ensures
        shape == sampling_shape_spec(model, renderer),
        shape.wf(),
{
    proof {
        CellSamplingShape::lemma_constants();
    }
    match (model, renderer) {
        (ArtModel::Spiral, EffectiveRenderer::Quadrant) => CellSamplingShape::quadrant(),
        _ => CellSamplingShape::half_block(),
    }
}

/// Largest value of `hash >> 11` that still draws a bright star.
pub const BRIGHT_STAR_LIMIT: u64 = 3602879701897;

/// Largest value of `hash >> 11` (exclusive) that draws a medium star.
pub const MEDIUM_STAR_LIMIT: u64 = 19815838360431;

/// Largest value of `hash >> 11` (exclusive) that draws a faint star.
pub const FAINT_STAR_LIMIT: u64 = 118895030162582;

/// Background-star tier drawn for a cell hash: the top 53 bits of the
/// hash, read as a fraction of one, select `+` below 0.0004, `*` below
/// 0.0022, `.` below 0.0132, and no star otherwise (the limits are those
/// fractions scaled by 2^53 and rounded up, so the integer comparison is
/// exact).
pub open spec fn star_tier_spec(hash: u64) -> Option<char> {
    let k = hash >> 11u64;
    if k < BRIGHT_STAR_LIMIT {
        Some('+')
    } else if k < MEDIUM_STAR_LIMIT {
        Some('*')
    } else if k < FAINT_STAR_LIMIT {
        Some('.')
    } else {
        None
    }
}

/// The background-star glyph a cell hash draws, if any.
pub fn star_tier_for_hash(hash: u64) -> (r: Option<char>)
    ensures
        r == star_tier_spec(hash),
{
    let k = hash >> 11u64;
    if k < BRIGHT_STAR_LIMIT {
        Some('+')
    } else if k < MEDIUM_STAR_LIMIT {
        Some('*')
    } else if k < FAINT_STAR_LIMIT {
        Some('.')
    } else {
        None
    }
}

/// Golden-ratio increment that separates sample positions in the star seed.
pub const STAR_SEED_POSITION_MIX: u64 = 0x9e3779b97f4a7c15;

/// Star-field seed of a canvas from its quantized samples (row-major): an
/// FNV-style fold of each sample plus its mixed position.
pub open spec fn star_field_seed_spec(values: Seq<u64>) -> u64
    decreases values.len(),
{
    if values.len() == 0 {
        FNV_OFFSET_BASIS
    } else {
        let i = (values.len() - 1) as u64;
        let h = star_field_seed_spec(values.drop_last());
        wmul(h ^ wadd(values.last(), wmul(i, STAR_SEED_POSITION_MIX)), FNV_PRIME)
    }
}

/// The star-field seed of a canvas whose samples, in row-major order, were
/// quantized to `values`.
pub fn star_field_seed_from_quantized(values: &[u64]) -> (seed: u64)
    ensures
        seed == star_field_seed_spec(values@),
{
    let mut hash: u64 = FNV_OFFSET_BASIS;
    let mut i: usize = 0;
    while i < values.len()
        invariant
            i <= values@.len(),
            hash == star_field_seed_spec(values@.take(i as int)),
        decreases values@.len() - i,
    {
        proof {
            assert(values@.take(i + 1).drop_last() =~= values@.take(i as int));
        }
        let mixed = values[i].wrapping_add((i as u64).wrapping_mul(STAR_SEED_POSITION_MIX));
        hash = (hash ^ mixed).wrapping_mul(FNV_PRIME);
        i = i + 1;
    }
    proof {
        assert(values@.take(values@.len() as int) =~= values@);
    }
    hash
}

/// Quadrant visibility mask: bit 0 top-left, bit 1 top-right, bit 2
/// bottom-left, bit 3 bottom-right.
pub open spec fn visibility_mask_spec(tl: bool, tr: bool, bl: bool, br: bool) -> u8 {
    ((if tl { 1u8 } else { 0u8 }) + (if tr { 2u8 } else { 0u8 }) + (if bl { 4u8 } else { 0u8 }) + (if br {
        8u8
    } else {
        0u8
    })) as u8
}

/// Builds the 4-bit visibility mask of one terminal cell.
pub fn visibility_mask(tl: bool, tr: bool, bl: bool, br: bool) -> (mask: u8)
    ensures
        mask == visibility_mask_spec(tl, tr, bl, br),
        mask < 16,
{
    let mut mask: u8 = 0;
    if tl {
        mask = mask + 1;
    }
    if tr {
        mask = mask + 2;
    }
    if bl {
        mask = mask + 4;
    }
    if br {
        mask = mask + 8;
    }
    mask
}

/// The quadrant glyph of the visible subcells of one terminal cell.
pub fn quadrant_glyph(tl: bool, tr: bool, bl: bool, br: bool) -> (c: char)
    ensures
        c == QUADRANT_GLYPHS[visibility_mask_spec(tl, tr, bl, br) as int],
{
    let mask = visibility_mask(tl, tr, bl, br);
    QUADRANT_GLYPHS[mask as usize]
}

/// A half-block cell as the line builder receives it: glyph, foreground and
/// background.
pub open spec fn half_block_cell_spec(
    top: Option<usize>,
    bottom: Option<usize>,
    star: Option<char>,
    x: usize,
    y: usize,
    colors_enabled: bool,
    palette: ColorPalette,
    frame: Option<StarTwinkleFrame>,
) -> (char, Option<Seq<char>>, Option<Seq<char>>) {
    let twinkled = maybe_twinkle_spec(star, x, y, frame);
    if !colors_enabled {
        let g = half_block_glyph_spec(top is Some, bottom is Some);
        if g == ' ' && twinkled is Some {
            (twinkled.unwrap(), None, None)
        } else {
            (g, None, None)
        }
    } else {
        match (top, bottom) {
            (Some(t), Some(b)) => (
                '▀',
                Some(galaxy_foreground_spec(palette, t)),
                Some(galaxy_background_spec(palette, b)),
            ),
            (Some(t), None) => ('▀', Some(galaxy_foreground_spec(palette, t)), None),
            (None, Some(b)) => ('▄', Some(galaxy_foreground_spec(palette, b)), None),
            (None, None) => (
                match twinkled {
                    Some(c) => c,
                    None => ' ',
                },
                None,
                None,
            ),
        }
    }
}

/// Text, active foreground and active background after pushing `cells` to
/// an empty half-block line builder.
pub open spec fn half_block_fold(cells: Seq<(char, Option<Seq<char>>, Option<Seq<char>>)>) -> (
    Seq<char>,
    Option<Seq<char>>,
    Option<Seq<char>>,
)
    decreases cells.len(),
{
    if cells.len() == 0 {
        (Seq::empty(), None, None)
    } else {
        let (out, fg, bg) = half_block_fold(cells.drop_last());
        let (ch, f, b) = cells.last();
        if fg == f && bg == b {
            (out + seq![ch], fg, bg)
        } else {
            (
                out + (if fg is Some || bg is Some {
                    RESET@
                } else {
                    Seq::empty()
                }) + style_text(f) + style_text(b) + seq![ch],
                f,
                b,
            )
        }
    }
}

/// The finished text of a half-block line built from `cells`.
pub open spec fn half_block_line_spec(cells: Seq<(char, Option<Seq<char>>, Option<Seq<char>>)>) -> Seq<char> {
    let (out, fg, bg) = half_block_fold(cells);
    if fg is Some || bg is Some {
        out + RESET@
    } else {
        out
    }
}

/// Entry `(x, y)` of a grid, `None` outside it.
pub open spec fn grid_get<T>(grid: Seq<Vec<Option<T>>>, x: int, y: int) -> Option<T> {
    if 0 <= y < grid.len() && 0 <= x < grid[y]@.len() {
        grid[y]@[x]
    } else {
        None
    }
}

/// The cells of terminal row `row` of a half-block rendering.
pub open spec fn half_block_row_cells(
    levels: Seq<Vec<Option<usize>>>,
    stars: Seq<Vec<Option<char>>>,
    row: int,
    width: int,
    colors_enabled: bool,
    palette: ColorPalette,
    frame: Option<StarTwinkleFrame>,
) -> Seq<(char, Option<Seq<char>>, Option<Seq<char>>)> {
    Seq::new(
        width as nat,
        |x: int|
            half_block_cell_spec(
                grid_get(levels, x, 2 * row),
                grid_get(levels, x, 2 * row + 1),
                grid_get(stars, x, row),
                x as usize,
                row as usize,
                colors_enabled,
                palette,
                frame,
            ),
    )
}

/// Renders a half-block picture from visibility levels.
///
/// `levels` holds one entry per density sample (`None`: invisible,
/// `Some(level)`: visible at that color level); each terminal row pairs
/// two sample rows, missing samples are invisible, and the width is that of
/// the first sample row. `stars` holds the background-star decision of each
/// terminal cell, drawn (twinkled on an animation frame) only where neither
/// half is visible. Without colors both halves draw `█` and stars stay
/// plain; with colors a visible top half is drawn with the foreground, a
/// visible bottom half with the background (or the foreground when alone).
pub fn render_half_block_rows(
    levels: &Vec<Vec<Option<usize>>>,
    stars: &Vec<Vec<Option<char>>>,
    colors_enabled: bool,
    palette: ColorPalette,
    frame: Option<StarTwinkleFrame>,
) -> (lines: Vec<String>)
    ensures
        lines@.len() == levels@.len() / 2 + levels@.len() % 2,
        forall|r: int|
            0 <= r < lines@.len() ==> #[trigger] lines@[r]@ == half_block_line_spec(
                half_block_row_cells(
                    levels@,
                    stars@,
                    r,
                    if levels@.len() == 0 {
                        0int
                    } else {
                        levels@[0]@.len() as int
                    },
                    colors_enabled,
                    palette,
                    frame,
                ),
            ),
{
    let height = levels.len();
    let width = if height == 0 {
        0
    } else {
        levels[0].len()
    };
    let rows = height / 2 + height % 2;
    let mut lines: Vec<String> = Vec::new();
    let mut row: usize = 0;
    while row < rows
        invariant
            height == levels@.len(),
            rows == height / 2 + height % 2,
            width == (if height == 0 {
                0int
            } else {
                levels@[0]@.len() as int
            }),
            row <= rows,
            lines@.len() == row,
            forall|r: int|
                0 <= r < lines@.len() ==> #[trigger] lines@[r]@ == half_block_line_spec(
                    half_block_row_cells(levels@, stars@, r, width as int, colors_enabled, palette, frame),
                ),
        decreases rows - row,
    {
        let y = row * 2;
        let mut line = AnsiHalfBlockLine::with_capacity(width);
        let ghost cells = half_block_row_cells(levels@, stars@, row as int, width as int, colors_enabled, palette, frame);
        let mut x: usize = 0;
        while x < width
            invariant
                height == levels@.len(),
                y < height,
                y == 2 * row,
                x <= width,
                cells == half_block_row_cells(levels@, stars@, row as int, width as int, colors_enabled, palette, frame),
                (line.output(), line.foreground(), line.background()) == half_block_fold(cells.take(x as int)),
            decreases width - x,
        {
            let top = cell_of(levels, x, y);
            let bottom = if y + 1 < height {
                cell_of(levels, x, y + 1)
            } else {
                None
            };
            let star = cell_of(stars, x, row);
            let twinkled = maybe_twinkle_star(star, x, row, frame);
            proof {
                assert(cells.take(x + 1).drop_last() =~= cells.take(x as int));
                assert(cells.take(x + 1).last() == cells[x as int]);
            }
            if !colors_enabled {
                let g = glyph_for_half_block(top.is_some(), bottom.is_some());
                if g == ' ' && twinkled.is_some() {
                    line.push_cell(twinkled.unwrap(), None, None);
                } else {
                    line.push_cell(g, None, None);
                }
            } else {
                match (top, bottom) {
                    (Some(t), Some(b)) => {
                        let fg = galaxy_foreground_for_level(palette, t);
                        let bg = galaxy_background_for_level(palette, b);
                        line.push_cell('▀', Some(fg), Some(bg));
                    },
                    (Some(t), None) => {
                        let fg = galaxy_foreground_for_level(palette, t);
                        line.push_cell('▀', Some(fg), None);
                    },
                    (None, Some(b)) => {
                        let fg = galaxy_foreground_for_level(palette, b);
                        line.push_cell('▄', Some(fg), None);
                    },
                    (None, None) => {
                        let ch = match twinkled {
                            Some(c) => c,
                            None => ' ',
                        };
                        line.push_cell(ch, None, None);
                    },
                }
            }
            x = x + 1;
        }
        proof {
            assert(cells.take(width as int) =~= cells);
        }
        lines.push(line.finish());
        row = row + 1;
    }
    lines
}

/// Entry `(x, y)` of a grid, `None` outside it.
pub fn cell_of<T: Copy>(grid: &Vec<Vec<Option<T>>>, x: usize, y: usize) -> (r: Option<T>)
    ensures
        r == grid_get(grid@, x as int, y as int),
{
    if y < grid.len() && x < grid[y].len() {
        grid[y][x]
    } else {
        None
    }
}

/// The two static endpoint frames render exactly the static picture: the
/// cells of every row are those of the render without an animation frame.
pub proof fn lemma_static_frames_render_static_picture(
    levels: Seq<Vec<Option<usize>>>,
    stars: Seq<Vec<Option<char>>>,
    row: int,
    width: int,
    colors_enabled: bool,
    palette: ColorPalette,
    frame: StarTwinkleFrame,
)
    requires
        is_static_frame(frame.frame_index, frame.frame_count),
    ensures
        half_block_row_cells(levels, stars, row, width, colors_enabled, palette, Some(frame))
            == half_block_row_cells(levels, stars, row, width, colors_enabled, palette, None),
{
    assert(half_block_row_cells(levels, stars, row, width, colors_enabled, palette, Some(frame))
        =~= half_block_row_cells(levels, stars, row, width, colors_enabled, palette, None));
}

/// A background-star glyph.
pub open spec fn is_star_glyph(c: char) -> bool {
    c == '.' || c == '*' || c == '+'
}

/// Pushing only unstyled cells writes exactly their glyphs.
proof fn lemma_unstyled_fold(cells: Seq<(char, Option<Seq<char>>, Option<Seq<char>>)>)
    requires
        forall|i: int| 0 <= i < cells.len() ==> (#[trigger] cells[i]).1 is None && cells[i].2 is None,
    ensures
        half_block_fold(cells) == (Seq::new(cells.len(), |i: int| cells[i].0), None::<Seq<char>>, None::<
            Seq<char>,
        >),
    decreases cells.len(),
{
    if cells.len() > 0 {
        let prefix = cells.drop_last();
        assert forall|i: int| 0 <= i < prefix.len() implies (#[trigger] prefix[i]).1 is None && prefix[i].2
            is None by {
            assert(prefix[i] == cells[i]);
        }
        lemma_unstyled_fold(prefix);
        assert(cells[cells.len() - 1] == cells.last());
        assert(Seq::new(prefix.len(), |i: int| prefix[i].0).push(cells.last().0) =~= Seq::new(
            cells.len(),
            |i: int| cells[i].0,
        ));
    }
}

/// Without colors a half-block row is exactly one plain glyph per cell: no
/// escape sequence, and as many characters as the row is wide (as long as
/// the background-star decisions are star glyphs).
pub proof fn lemma_plain_half_block_row(
    levels: Seq<Vec<Option<usize>>>,
    stars: Seq<Vec<Option<char>>>,
    row: int,
    width: int,
    palette: ColorPalette,
    frame: Option<StarTwinkleFrame>,
)
    requires
        width >= 0,
        forall|x: int, y: int| #[trigger] grid_get(stars, x, y) is Some ==> is_star_glyph(
            grid_get(stars, x, y).unwrap(),
        ),
    ensures
        ({
            let line = half_block_line_spec(half_block_row_cells(levels, stars, row, width, false, palette, frame));
            &&& line.len() == width
            &&& forall|i: int| 0 <= i < line.len() ==> line[i] != '\u{1b}'
        }),
{
    let cells = half_block_row_cells(levels, stars, row, width, false, palette, frame);
    lemma_unstyled_fold(cells);
    let line = half_block_line_spec(cells);
    assert forall|i: int| 0 <= i < line.len() implies line[i] != '\u{1b}' by {
        let star = grid_get(stars, i, row);
        assert(star is Some ==> is_star_glyph(star.unwrap()));
        assert(line[i] == cells[i].0);
    }
}

/// An empty text or a complete CSI sequence: no columns, and reading ends
/// outside escape sequences.
proof fn lemma_invisible_piece(p: Seq<char>)
    requires
        p.len() == 0 || is_csi_sequence(p),
    ensures
        visible_width_spec(p) == 0,
        ends_ground(p),
{
    if p.len() > 0 {
        lemma_csi_sequence(p);
    }
}

/// A cell whose glyph is not ESC and whose styles are complete CSI
/// sequences.
spec fn cell_is_well_styled(cell: (char, Option<Seq<char>>, Option<Seq<char>>)) -> bool {
    &&& cell.0 != '\u{1b}'
    &&& (cell.1 is Some ==> is_csi_sequence(cell.1.unwrap()))
    &&& (cell.2 is Some ==> is_csi_sequence(cell.2.unwrap()))
}

/// Cells whose glyphs are not ESC and whose styles are complete CSI
/// sequences fold to a text as wide on screen as there are cells.
proof fn lemma_half_block_fold_width(cells: Seq<(char, Option<Seq<char>>, Option<Seq<char>>)>)
    requires
        forall|i: int| 0 <= i < cells.len() ==> cell_is_well_styled(#[trigger] cells[i]),
    ensures
        visible_width_spec(half_block_fold(cells).0) == cells.len(),
        ends_ground(half_block_fold(cells).0),
    decreases cells.len(),
{
    if cells.len() == 0 {
        lemma_invisible_piece(Seq::<char>::empty());
    } else {
        let prefix = cells.drop_last();
        assert forall|i: int| 0 <= i < prefix.len() implies (#[trigger] prefix[i]) == cells[i] by {}
        lemma_half_block_fold_width(prefix);
        let (out, fg, bg) = half_block_fold(prefix);
        let (ch, f, b) = cells.last();
        assert(cells.last() == cells[cells.len() - 1]);
        lemma_single_char(ch);
        if fg == f && bg == b {
            lemma_width_concat(out, seq![ch]);
        } else {
            let r = if fg is Some || bg is Some {
                RESET@
            } else {
                Seq::<char>::empty()
            };
            lemma_styles_are_csi(ColorPalette::Nebula, 0, StarBrightness::Faint, StarHue::Low);
            lemma_invisible_piece(r);
            lemma_invisible_piece(style_text(f));
            lemma_invisible_piece(style_text(b));
            lemma_width_concat(out, r);
            lemma_width_concat(out + r, style_text(f));
            lemma_width_concat(out + r + style_text(f), style_text(b));
            lemma_width_concat(out + r + style_text(f) + style_text(b), seq![ch]);
        }
    }
}

/// A half-block row takes exactly as many terminal columns as the picture
/// is wide, with or without colors: its escape sequences take none (as
/// long as no background-star decision is an escape character).
pub proof fn lemma_half_block_row_width(
    levels: Seq<Vec<Option<usize>>>,
    stars: Seq<Vec<Option<char>>>,
    row: int,
    width: int,
    colors_enabled: bool,
    palette: ColorPalette,
    frame: Option<StarTwinkleFrame>,
)
    requires
        width >= 0,
        forall|x: int, y: int| #[trigger] grid_get(stars, x, y) is Some ==> grid_get(stars, x, y).unwrap()
            != '\u{1b}',
    ensures
        visible_width_spec(
            half_block_line_spec(
                half_block_row_cells(levels, stars, row, width, colors_enabled, palette, frame),
            ),
        ) == width,
{
    let cells = half_block_row_cells(levels, stars, row, width, colors_enabled, palette, frame);
    assert forall|i: int| 0 <= i < cells.len() implies cell_is_well_styled(#[trigger] cells[i]) by {
        let star = grid_get(stars, i, row);
        assert(star is Some ==> star.unwrap() != '\u{1b}');
        let top = grid_get(levels, i, 2 * row);
        let bottom = grid_get(levels, i, 2 * row + 1);
        if let Some(t) = top {
            lemma_styles_are_csi(palette, t, StarBrightness::Faint, StarHue::Low);
        }
        if let Some(b) = bottom {
            lemma_styles_are_csi(palette, b, StarBrightness::Faint, StarHue::Low);
        }
    }
    lemma_half_block_fold_width(cells);
    let (out, fg, bg) = half_block_fold(cells);
    if fg is Some || bg is Some {
        lemma_styles_are_csi(palette, 0, StarBrightness::Faint, StarHue::Low);
        lemma_csi_sequence(RESET@);
        lemma_width_concat(out, RESET@);
    }
}

/// Without colors, a half-block row drawn on any animation frame is as wide
/// as the static row, shows a star glyph exactly where the static row shows
/// one, and every other character as the static row does, whatever the
/// background-star decisions are.
pub proof fn lemma_twinkle_row_keeps_picture(
    levels: Seq<Vec<Option<usize>>>,
    stars: Seq<Vec<Option<char>>>,
    row: int,
    width: int,
    palette: ColorPalette,
    frame: StarTwinkleFrame,
)
    requires
        width >= 0,
    ensures
        ({
            let a = half_block_line_spec(
                half_block_row_cells(levels, stars, row, width, false, palette, Some(frame)),
            );
            let s = half_block_line_spec(half_block_row_cells(levels, stars, row, width, false, palette, None));
            &&& a.len() == width
            &&& s.len() == width
            &&& forall|i: int|
                0 <= i < width ==> (is_star_glyph(#[trigger] a[i]) <==> is_star_glyph(s[i])) && (
                !is_star_glyph(s[i]) ==> a[i] == s[i])
        }),
{
    let ca = half_block_row_cells(levels, stars, row, width, false, palette, Some(frame));
    let cs = half_block_row_cells(levels, stars, row, width, false, palette, None);
    lemma_unstyled_fold(ca);
    lemma_unstyled_fold(cs);
    let a = half_block_line_spec(ca);
    let s = half_block_line_spec(cs);
    assert forall|i: int| 0 <= i < width implies (is_star_glyph(#[trigger] a[i]) <==> is_star_glyph(s[i]))
        && (!is_star_glyph(s[i]) ==> a[i] == s[i]) by {
        assert(a[i] == ca[i].0);
        assert(s[i] == cs[i].0);
    }
}

/// The higher of two optional color levels (`None` when both are).
pub open spec fn max_level(a: Option<usize>, b: Option<usize>) -> Option<usize> {
    match (a, b) {
        (Some(x), Some(y)) => Some(if x >= y { x } else { y }),
        (Some(x), None) => Some(x),
        (None, other) => other,
    }
}

fn max_level_exec(a: Option<usize>, b: Option<usize>) -> (r: Option<usize>)
    ensures
        r == max_level(a, b),
{
    match (a, b) {
        (Some(x), Some(y)) => Some(if x >= y { x } else { y }),
        (Some(x), None) => Some(x),
        (None, other) => other,
    }
}

/// How quadrant cell `(x, y)` reaches the line builder. Its four subcells
/// are logical samples `(2x, 2y)`, `(2x+1, 2y)`, `(2x, 2y+1)` and
/// `(2x+1, 2y+1)` of `levels` (`None`, or missing: invisible). A cell with a
/// visible subcell shows the glyph of its visibility mask, in the color of
/// its highest level when colors are on; an empty cell shows its
/// background star (twinkled on an animation frame) or a space, plain.
pub open spec fn quadrant_cell_spec(
    levels: Seq<Vec<Option<usize>>>,
    stars: Seq<Vec<Option<char>>>,
    x: int,
    y: int,
    colors_enabled: bool,
    palette: ColorPalette,
    frame: Option<StarTwinkleFrame>,
) -> (char, Option<Seq<char>>) {
    let tl = grid_get(levels, 2 * x, 2 * y);
    let tr = grid_get(levels, 2 * x + 1, 2 * y);
    let bl = grid_get(levels, 2 * x, 2 * y + 1);
    let br = grid_get(levels, 2 * x + 1, 2 * y + 1);
    let mask = visibility_mask_spec(tl is Some, tr is Some, bl is Some, br is Some);
    if mask == 0 {
        (sky_glyph(grid_get(stars, x, y), x as usize, y as usize, frame), None)
    } else {
        let level = max_level(max_level(tl, tr), max_level(bl, br)).unwrap();
        (
            QUADRANT_GLYPHS[mask as int],
            if colors_enabled {
                Some(galaxy_foreground_spec(palette, level))
            } else {
                None
            },
        )
    }
}

/// The cells of terminal row `row` of a quadrant picture `width` cells wide.
pub open spec fn quadrant_row_cells(
    levels: Seq<Vec<Option<usize>>>,
    stars: Seq<Vec<Option<char>>>,
    row: int,
    width: nat,
    colors_enabled: bool,
    palette: ColorPalette,
    frame: Option<StarTwinkleFrame>,
) -> Seq<(char, Option<Seq<char>>)> {
    Seq::new(width, |x: int| quadrant_cell_spec(levels, stars, x, row, colors_enabled, palette, frame))
}

/// Renders a logical field of `2W × 2H` samples into `W × H` quadrant
/// cells: terminal width and height are the halves of the first row's
/// length and of the row count, rounded up, and missing samples are
/// invisible. `levels` holds the color level of each visible sample, and
/// `stars` the background-star decision of each terminal cell, drawn only
/// where all four subcells are invisible. Runs of one color share a single
/// color sequence.
pub fn render_quadrant_rows(
    levels: &Vec<Vec<Option<usize>>>,
    stars: &Vec<Vec<Option<char>>>,
    colors_enabled: bool,
    palette: ColorPalette,
    frame: Option<StarTwinkleFrame>,
) -> (lines: Vec<String>)
    ensures
        lines@.len() == levels@.len() / 2 + levels@.len() % 2,
        forall|r: int|
            0 <= r < lines@.len() ==> #[trigger] lines@[r]@ == foreground_line_spec(
                quadrant_row_cells(
                    levels@,
                    stars@,
                    r,
                    if levels@.len() == 0 {
                        0nat
                    } else {
                        levels@[0]@.len() / 2 + levels@[0]@.len() % 2
                    },
                    colors_enabled,
                    palette,
                    frame,
                ),
            ),
{
    let shape = CellSamplingShape::quadrant();
    proof {
        CellSamplingShape::lemma_constants();
    }
    let first_len = if levels.len() == 0 {
        0
    } else {
        levels[0].len()
    };
    let terminal_width = first_len / 2 + first_len % 2;
    let total_rows = levels.len();
    let terminal_height = total_rows / 2 + total_rows % 2;
    let mut lines: Vec<String> = Vec::new();
    let mut cell_y: usize = 0;
    while cell_y < terminal_height
        invariant
            shape == CellSamplingShape::spec_quadrant(),
            shape.spec_columns() == 2,
            shape.spec_rows() == 2,
            shape.wf(),
            total_rows == levels@.len(),
            terminal_height == levels@.len() / 2 + levels@.len() % 2,
            terminal_width == first_len / 2 + first_len % 2,
            first_len == (if levels@.len() == 0 {
                0int
            } else {
                levels@[0]@.len() as int
            }),
            cell_y <= terminal_height,
            lines@.len() == cell_y,
            forall|r: int|
                0 <= r < cell_y ==> #[trigger] lines@[r]@ == foreground_line_spec(
                    quadrant_row_cells(levels@, stars@, r, terminal_width as nat, colors_enabled, palette, frame),
                ),
        decreases terminal_height - cell_y,
    {
        let ghost rc = quadrant_row_cells(
            levels@,
            stars@,
            cell_y as int,
            terminal_width as nat,
            colors_enabled,
            palette,
            frame,
        );
        let mut line = crate::ansi::AnsiForegroundLine::with_capacity(terminal_width);
        let mut cell_x: usize = 0;
        while cell_x < terminal_width
            invariant
                shape == CellSamplingShape::spec_quadrant(),
                shape.spec_columns() == 2,
                shape.spec_rows() == 2,
                shape.wf(),
                total_rows == levels@.len(),
                terminal_height == levels@.len() / 2 + levels@.len() % 2,
                terminal_width == first_len / 2 + first_len % 2,
                cell_y < terminal_height,
                cell_x <= terminal_width,
                first_len == (if levels@.len() == 0 {
                    0int
                } else {
                    levels@[0]@.len() as int
                }),
                rc == quadrant_row_cells(
                    levels@,
                    stars@,
                    cell_y as int,
                    terminal_width as nat,
                    colors_enabled,
                    palette,
                    frame,
                ),
                (line.output(), line.style()) == foreground_fold(rc.take(cell_x as int)),
            decreases terminal_width - cell_x,
        {
            proof {
                let h = total_rows as int;
                let w = first_len as int;
                assert(cell_y * 2 + 1 <= h) by (nonlinear_arith)
                    requires
                        cell_y < h / 2 + h % 2,
                        h >= 0,
                ;
                assert(cell_x * 2 + 1 <= w) by (nonlinear_arith)
                    requires
                        cell_x < w / 2 + w % 2,
                        w >= 0,
                ;
                assert(cell_y * shape.spec_rows() + 1 <= usize::MAX);
                assert(cell_x * shape.spec_columns() + 1 <= usize::MAX);
                assert(rc.take(cell_x + 1).drop_last() =~= rc.take(cell_x as int));
                assert(rc.take(cell_x + 1).last() == rc[cell_x as int]);
            }
            let (tlx, tly) = shape.logical_index(cell_x, cell_y, 0, 0);
            let (trx, try_) = shape.logical_index(cell_x, cell_y, 1, 0);
            let (blx, bly) = shape.logical_index(cell_x, cell_y, 0, 1);
            let (brx, bry) = shape.logical_index(cell_x, cell_y, 1, 1);
            let tl = cell_of(levels, tlx, tly);
            let tr = cell_of(levels, trx, try_);
            let bl = cell_of(levels, blx, bly);
            let br = cell_of(levels, brx, bry);
            let mask = visibility_mask(tl.is_some(), tr.is_some(), bl.is_some(), br.is_some());
            if mask == 0 {
                let star = cell_of(stars, cell_x, cell_y);
                let ch = match maybe_twinkle_star(star, cell_x, cell_y, frame) {
                    Some(c) => c,
                    None => ' ',
                };
                line.push_plain(ch);
            } else {
                let glyph = quadrant_glyph(tl.is_some(), tr.is_some(), bl.is_some(), br.is_some());
                if colors_enabled {
                    let level = max_level_exec(max_level_exec(tl, tr), max_level_exec(bl, br));
                    let lv = match level {
                        Some(v) => v,
                        None => 0,
                    };
                    line.push_styled(glyph, galaxy_foreground_for_level(palette, lv));
                } else {
                    line.push_plain(glyph);
                }
            }
            cell_x = cell_x + 1;
        }
        proof {
            assert(rc.take(terminal_width as int) =~= rc);
        }
        lines.push(line.finish());
        cell_y = cell_y + 1;
    }
    lines
}

/// A quadrant row takes exactly as many terminal columns as the picture is
/// wide, with or without colors (as long as no background-star decision is
/// ESC).
pub proof fn lemma_quadrant_row_width(
    levels: Seq<Vec<Option<usize>>>,
    stars: Seq<Vec<Option<char>>>,
    row: int,
    width: nat,
    colors_enabled: bool,
    palette: ColorPalette,
    frame: Option<StarTwinkleFrame>,
)
    requires
        forall|x: int, y: int| #[trigger] grid_get(stars, x, y) is Some ==> grid_get(stars, x, y).unwrap()
            != '\u{1b}',
    ensures
        visible_width_spec(
            foreground_line_spec(quadrant_row_cells(levels, stars, row, width, colors_enabled, palette, frame)),
        ) == width,
{
    let cells = quadrant_row_cells(levels, stars, row, width, colors_enabled, palette, frame);
    assert forall|i: int| 0 <= i < cells.len() implies foreground_cell_is_well_styled(#[trigger] cells[i]) by {
        let star = grid_get(stars, i, row);
        assert(star is Some ==> star.unwrap() != '\u{1b}');
        let tl = grid_get(levels, 2 * i, 2 * row);
        let tr = grid_get(levels, 2 * i + 1, 2 * row);
        let bl = grid_get(levels, 2 * i, 2 * row + 1);
        let br = grid_get(levels, 2 * i + 1, 2 * row + 1);
        let mask = visibility_mask_spec(tl is Some, tr is Some, bl is Some, br is Some);
        assert(mask < 16);
        assert(QUADRANT_GLYPHS[mask as int] != '\u{1b}');
        if mask != 0 {
            let level = max_level(max_level(tl, tr), max_level(bl, br)).unwrap();
            lemma_styles_are_csi(palette, level, StarBrightness::Faint, StarHue::Low);
        }
    }
    lemma_foreground_line_width(cells);
}

/// Without colors a quadrant row is plain text, one character per cell:
/// the quadrant glyphs, and the background stars in the empty cells. On an
/// animation frame a star keeps its cell and stays a star glyph, and every
/// other character is the one of the static row.
pub proof fn lemma_plain_quadrant_row(
    levels: Seq<Vec<Option<usize>>>,
    stars: Seq<Vec<Option<char>>>,
    row: int,
    width: nat,
    palette: ColorPalette,
    frame: StarTwinkleFrame,
)
    ensures
        ({
            let a = foreground_line_spec(quadrant_row_cells(levels, stars, row, width, false, palette, Some(frame)));
            let s = foreground_line_spec(quadrant_row_cells(levels, stars, row, width, false, palette, None));
            &&& a.len() == width
            &&& s.len() == width
            &&& forall|i: int|
                0 <= i < width ==> s[i] == quadrant_cell_spec(levels, stars, i, row, false, palette, None).0
            &&& forall|i: int|
                0 <= i < width ==> (is_star_glyph(#[trigger] a[i]) <==> is_star_glyph(s[i])) && (
                !is_star_glyph(s[i]) ==> a[i] == s[i])
        }),
{
    let ca = quadrant_row_cells(levels, stars, row, width, false, palette, Some(frame));
    let cs = quadrant_row_cells(levels, stars, row, width, false, palette, None);
    assert forall|i: int| 0 <= i < ca.len() implies (#[trigger] ca[i]).1 is None by {}
    assert forall|i: int| 0 <= i < cs.len() implies (#[trigger] cs[i]).1 is None by {}
    lemma_plain_foreground_fold(ca);
    lemma_plain_foreground_fold(cs);
    let a = foreground_line_spec(ca);
    let s = foreground_line_spec(cs);
    assert forall|i: int| 0 <= i < width implies (is_star_glyph(#[trigger] a[i]) <==> is_star_glyph(s[i]))
        && (!is_star_glyph(s[i]) ==> a[i] == s[i]) by {
        assert(a[i] == ca[i].0);
        assert(s[i] == cs[i].0);
        let tl = grid_get(levels, 2 * i, 2 * row);
        let tr = grid_get(levels, 2 * i + 1, 2 * row);
        let bl = grid_get(levels, 2 * i, 2 * row + 1);
        let br = grid_get(levels, 2 * i + 1, 2 * row + 1);
        let mask = visibility_mask_spec(tl is Some, tr is Some, bl is Some, br is Some);
        assert(mask < 16);
        assert(!is_star_glyph(QUADRANT_GLYPHS[mask as int]));
    }
}

/// With colors on, a quadrant cell with at least one visible subcell is
/// drawn in the color of a level that one of its visible subcells has and
/// that no visible subcell exceeds: the highest level among its four
/// subcells.
pub proof fn lemma_quadrant_color_is_highest_level(
    levels: Seq<Vec<Option<usize>>>,
    stars: Seq<Vec<Option<char>>>,
    x: int,
    y: int,
    palette: ColorPalette,
    frame: Option<StarTwinkleFrame>,
)
    requires
        grid_get(levels, 2 * x, 2 * y) is Some || grid_get(levels, 2 * x + 1, 2 * y) is Some
            || grid_get(levels, 2 * x, 2 * y + 1) is Some || grid_get(levels, 2 * x + 1, 2 * y + 1)
            is Some,
    ensures
        exists|l: usize|
            {
                &&& (grid_get(levels, 2 * x, 2 * y) matches Some(a) ==> a <= l)
                &&& (grid_get(levels, 2 * x + 1, 2 * y) matches Some(a) ==> a <= l)
                &&& (grid_get(levels, 2 * x, 2 * y + 1) matches Some(a) ==> a <= l)
                &&& (grid_get(levels, 2 * x + 1, 2 * y + 1) matches Some(a) ==> a <= l)
                &&& (grid_get(levels, 2 * x, 2 * y) == Some(l) || grid_get(levels, 2 * x + 1, 2 * y)
                    == Some(l) || grid_get(levels, 2 * x, 2 * y + 1) == Some(l) || grid_get(
                    levels,
                    2 * x + 1,
                    2 * y + 1,
                ) == Some(l))
                &&& quadrant_cell_spec(levels, stars, x, y, true, palette, frame).1 == Some(
                    galaxy_foreground_spec(palette, l),
                )
            },
{
    let tl = grid_get(levels, 2 * x, 2 * y);
    let tr = grid_get(levels, 2 * x + 1, 2 * y);
    let bl = grid_get(levels, 2 * x, 2 * y + 1);
    let br = grid_get(levels, 2 * x + 1, 2 * y + 1);
    let mask = visibility_mask_spec(tl is Some, tr is Some, bl is Some, br is Some);
    assert(mask != 0);
    let l = max_level(max_level(tl, tr), max_level(bl, br)).unwrap();
    assert(quadrant_cell_spec(levels, stars, x, y, true, palette, frame).1 == Some(
        galaxy_foreground_spec(palette, l),
    ));
}

/// One terminal cell of a shade or ASCII picture: a visible galaxy cell
/// with its ramp glyph and color level, or sky with its background-star
/// decision.
#[derive(Debug, Clone, Copy, PartialEq, Eq)]
pub enum RampCell {
    Galaxy { glyph: char, level: usize },
    Sky { star: Option<char> },
}

/// The glyph of a sky cell: its star (twinkled on an animation frame) or a
/// space.
pub open spec fn sky_glyph(star: Option<char>, x: usize, y: usize, frame: Option<StarTwinkleFrame>) -> char {
    match maybe_twinkle_spec(star, x, y, frame) {
        Some(c) => c,
        None => ' ',
    }
}

/// Text of one shade cell: a colored galaxy cell is its color, its glyph
/// and a reset; without colors just the glyph.
pub open spec fn shade_cell_text(
    cell: RampCell,
    x: usize,
    y: usize,
    colors_enabled: bool,
    palette: ColorPalette,
    frame: Option<StarTwinkleFrame>,
) -> Seq<char> {
    match cell {
        RampCell::Galaxy { glyph, level } => if colors_enabled {
            galaxy_foreground_spec(palette, level) + seq![glyph] + RESET@
        } else {
            seq![glyph]
        },
        RampCell::Sky { star } => seq![sky_glyph(star, x, y, frame)],
    }
}

/// Concatenation of the texts of the first `n` cells of shade row `y`.
pub open spec fn shade_row_text(
    row: Seq<RampCell>,
    n: int,
    y: usize,
    colors_enabled: bool,
    palette: ColorPalette,
    frame: Option<StarTwinkleFrame>,
) -> Seq<char>
    decreases n,
{
    if n <= 0 {
        Seq::empty()
    } else {
        shade_row_text(row, n - 1, y, colors_enabled, palette, frame) + shade_cell_text(
            row[n - 1],
            (n - 1) as usize,
            y,
            colors_enabled,
            palette,
            frame,
        )
    }
}

/// Renders shade rows: every colored galaxy cell carries its own color and
/// reset, sky cells show their background star or a space.
pub fn render_shade_rows(
    cells: &Vec<Vec<RampCell>>,
    colors_enabled: bool,
    palette: ColorPalette,
    frame: Option<StarTwinkleFrame>,
) -> (lines: Vec<String>)
    ensures
        lines@.len() == cells@.len(),
        forall|r: int|
            0 <= r < lines@.len() ==> #[trigger] lines@[r]@ == shade_row_text(
                cells@[r]@,
                cells@[r]@.len() as int,
                r as usize,
                colors_enabled,
                palette,
                frame,
            ),
{
    let mut lines: Vec<String> = Vec::new();
    let mut r: usize = 0;
    while r < cells.len()
        invariant
            r <= cells@.len(),
            lines@.len() == r,
            forall|r2: int|
                0 <= r2 < r ==> #[trigger] lines@[r2]@ == shade_row_text(
                    cells@[r2]@,
                    cells@[r2]@.len() as int,
                    r2 as usize,
                    colors_enabled,
                    palette,
                    frame,
                ),
        decreases cells@.len() - r,
    {
        let row = &cells[r];
        let mut line = String::new();
        let mut x: usize = 0;
        while x < row.len()
            invariant
                r < cells@.len(),
                *row == cells@[r as int],
                x <= row@.len(),
                line@ == shade_row_text(row@, x as int, r as usize, colors_enabled, palette, frame),
            decreases row@.len() - x,
        {
            match row[x] {
                RampCell::Galaxy { glyph, level } => {
                    if colors_enabled {
                        push_str(&mut line, galaxy_foreground_for_level(palette, level));
                        push_char(&mut line, glyph);
                        push_str(&mut line, RESET);
                    } else {
                        push_char(&mut line, glyph);
                    }
                },
                RampCell::Sky { star } => {
                    let ch = match maybe_twinkle_star(star, x, r, frame) {
                        Some(c) => c,
                        None => ' ',
                    };
                    push_char(&mut line, ch);
                },
            }
            proof {
                assert(line@ =~= shade_row_text(row@, x + 1, r as usize, colors_enabled, palette, frame));
            }
            x = x + 1;
        }
        lines.push(line);
        r = r + 1;
    }
    lines
}

/// How one ASCII cell reaches the line builder: a colored galaxy cell is
/// styled with its color, everything else is plain.
pub open spec fn ascii_cell_spec(
    cell: RampCell,
    x: usize,
    y: usize,
    colors_enabled: bool,
    palette: ColorPalette,
    frame: Option<StarTwinkleFrame>,
) -> (char, Option<Seq<char>>) {
    match cell {
        RampCell::Galaxy { glyph, level } => if colors_enabled {
            (glyph, Some(galaxy_foreground_spec(palette, level)))
        } else {
            (glyph, None)
        },
        RampCell::Sky { star } => (sky_glyph(star, x, y, frame), None),
    }
}

/// Renders ASCII rows through the grouping line builder: runs of one color
/// share a single color sequence.
pub fn render_ascii_rows(
    cells: &Vec<Vec<RampCell>>,
    colors_enabled: bool,
    palette: ColorPalette,
    frame: Option<StarTwinkleFrame>,
) -> (lines: Vec<String>)
    ensures
        lines@.len() == cells@.len(),
        forall|r: int|
            0 <= r < lines@.len() ==> #[trigger] lines@[r]@ == crate::starfield::foreground_line_spec(
                Seq::new(
                    cells@[r]@.len(),
                    |x: int| ascii_cell_spec(cells@[r]@[x], x as usize, r as usize, colors_enabled, palette, frame),
                ),
            ),
{
    let mut lines: Vec<String> = Vec::new();
    let mut r: usize = 0;
    while r < cells.len()
        invariant
            r <= cells@.len(),
            lines@.len() == r,
            forall|r2: int|
                0 <= r2 < r ==> #[trigger] lines@[r2]@ == crate::starfield::foreground_line_spec(
                    Seq::new(
                        cells@[r2]@.len(),
                        |x: int| ascii_cell_spec(cells@[r2]@[x], x as usize, r2 as usize, colors_enabled, palette, frame),
                    ),
                ),
        decreases cells@.len() - r,
    {
        let row = &cells[r];
        let ghost rc = Seq::new(
            row@.len(),
            |x: int| ascii_cell_spec(row@[x], x as usize, r as usize, colors_enabled, palette, frame),
        );
        let mut line = crate::ansi::AnsiForegroundLine::with_capacity(row.len());
        let mut x: usize = 0;
        while x < row.len()
            invariant
                r < cells@.len(),
                *row == cells@[r as int],
                x <= row@.len(),
                rc == Seq::new(
                    row@.len(),
                    |x: int| ascii_cell_spec(row@[x], x as usize, r as usize, colors_enabled, palette, frame),
                ),
                (line.output(), line.style()) == crate::starfield::foreground_fold(rc.take(x as int)),
            decreases row@.len() - x,
        {
            proof {
                assert(rc.take(x + 1).drop_last() =~= rc.take(x as int));
                assert(rc.take(x + 1).last() == rc[x as int]);
            }
            match row[x] {
                RampCell::Galaxy { glyph, level } => {
                    if colors_enabled {
                        line.push_styled(glyph, galaxy_foreground_for_level(palette, level));
                    } else {
                        line.push_plain(glyph);
                    }
                },
                RampCell::Sky { star } => {
                    let ch = match maybe_twinkle_star(star, x, r, frame) {
                        Some(c) => c,
                        None => ' ',
                    };
                    line.push_plain(ch);
                },
            }
            x = x + 1;
        }
        proof {
            assert(rc.take(row@.len() as int) =~= rc);
        }
        lines.push(line.finish());
        r = r + 1;
    }
    lines
}

/// No galaxy glyph and no background-star decision of `row` is ESC.
pub open spec fn ramp_row_lacks_escape(row: Seq<RampCell>) -> bool {
    forall|i: int|
        0 <= i < row.len() ==> match #[trigger] row[i] {
            RampCell::Galaxy { glyph, level } => glyph != '\u{1b}',
            RampCell::Sky { star } => star is Some ==> star.unwrap() != '\u{1b}',
        }
}

proof fn lemma_shade_prefix_width(
    row: Seq<RampCell>,
    n: int,
    y: usize,
    colors_enabled: bool,
    palette: ColorPalette,
    frame: Option<StarTwinkleFrame>,
)
    requires
        0 <= n <= row.len(),
        ramp_row_lacks_escape(row),
    ensures
        visible_width_spec(shade_row_text(row, n, y, colors_enabled, palette, frame)) == n,
        ends_ground(shade_row_text(row, n, y, colors_enabled, palette, frame)),
    decreases n,
{
    if n == 0 {
        lemma_invisible_piece(Seq::<char>::empty());
    } else {
        lemma_shade_prefix_width(row, n - 1, y, colors_enabled, palette, frame);
        let prev = shade_row_text(row, n - 1, y, colors_enabled, palette, frame);
        let cell = row[n - 1];
        let text = shade_cell_text(cell, (n - 1) as usize, y, colors_enabled, palette, frame);
        match cell {
            RampCell::Galaxy { glyph, level } => {
                lemma_single_char(glyph);
                if colors_enabled {
                    let fg = galaxy_foreground_spec(palette, level);
                    lemma_styles_are_csi(palette, level, StarBrightness::Faint, StarHue::Low);
                    lemma_csi_sequence(fg);
                    lemma_csi_sequence(RESET@);
                    lemma_width_concat(fg, seq![glyph]);
                    lemma_width_concat(fg + seq![glyph], RESET@);
                }
            },
            RampCell::Sky { star } => {
                lemma_single_char(sky_glyph(star, (n - 1) as usize, y, frame));
            },
        }
        lemma_width_concat(prev, text);
    }
}

/// A shade row takes exactly one terminal column per cell, with or without
/// colors: each color sequence and reset takes none (as long as no glyph or
/// star decision is ESC).
pub proof fn lemma_shade_row_width(
    row: Seq<RampCell>,
    y: usize,
    colors_enabled: bool,
    palette: ColorPalette,
    frame: Option<StarTwinkleFrame>,
)
    requires
        ramp_row_lacks_escape(row),
    ensures
        visible_width_spec(shade_row_text(row, row.len() as int, y, colors_enabled, palette, frame))
            == row.len(),
{
    lemma_shade_prefix_width(row, row.len() as int, y, colors_enabled, palette, frame);
}

/// An ASCII row takes exactly one terminal column per cell, with or without
/// colors (as long as no glyph or star decision is ESC).
pub proof fn lemma_ascii_row_width(
    row: Seq<RampCell>,
    y: usize,
    colors_enabled: bool,
    palette: ColorPalette,
    frame: Option<StarTwinkleFrame>,
)
    requires
        ramp_row_lacks_escape(row),
    ensures
        visible_width_spec(
            foreground_line_spec(
                Seq::new(
                    row.len(),
                    |x: int| ascii_cell_spec(row[x], x as usize, y, colors_enabled, palette, frame),
                ),
            ),
        ) == row.len(),
{
    let cells = Seq::new(
        row.len(),
        |x: int| ascii_cell_spec(row[x], x as usize, y, colors_enabled, palette, frame),
    );
    assert forall|i: int| 0 <= i < cells.len() implies foreground_cell_is_well_styled(
        #[trigger] cells[i],
    ) by {
        if let RampCell::Galaxy { glyph, level } = row[i] {
            lemma_styles_are_csi(palette, level, StarBrightness::Faint, StarHue::Low);
        }
    }
    lemma_foreground_line_width(cells);
}

proof fn lemma_plain_shade_prefix(
    row: Seq<RampCell>,
    n: int,
    y: usize,
    palette: ColorPalette,
    frame: Option<StarTwinkleFrame>,
)
    requires
        0 <= n <= row.len(),
        ramp_row_lacks_escape(row),
    ensures
        shade_row_text(row, n, y, false, palette, frame).len() == n,
        forall|i: int|
            0 <= i < n ==> #[trigger] shade_row_text(row, n, y, false, palette, frame)[i] != '\u{1b}',
    decreases n,
{
    if n > 0 {
        lemma_plain_shade_prefix(row, n - 1, y, palette, frame);
        let prev = shade_row_text(row, n - 1, y, false, palette, frame);
        let text = shade_row_text(row, n, y, false, palette, frame);
        assert forall|i: int| 0 <= i < n implies #[trigger] text[i] != '\u{1b}' by {
            if i < n - 1 {
                assert(text[i] == prev[i]);
            }
        }
    }
}

/// Without colors a shade or ASCII row is plain text: one glyph per cell
/// and no escape character (as long as no glyph or star decision is ESC).
pub proof fn lemma_plain_ramp_rows(
    row: Seq<RampCell>,
    y: usize,
    palette: ColorPalette,
    frame: Option<StarTwinkleFrame>,
)
    requires
        ramp_row_lacks_escape(row),
    ensures
        ({
            let shade = shade_row_text(row, row.len() as int, y, false, palette, frame);
            &&& shade.len() == row.len()
            &&& forall|i: int| 0 <= i < shade.len() ==> shade[i] != '\u{1b}'
        }),
        ({
            let ascii = foreground_line_spec(
                Seq::new(row.len(), |x: int| ascii_cell_spec(row[x], x as usize, y, false, palette, frame)),
            );
            &&& ascii.len() == row.len()
            &&& forall|i: int| 0 <= i < ascii.len() ==> ascii[i] != '\u{1b}'
        }),
{
    lemma_plain_shade_prefix(row, row.len() as int, y, palette, frame);
    let cells = Seq::new(
        row.len(),
        |x: int| ascii_cell_spec(row[x], x as usize, y, false, palette, frame),
    );
    assert forall|i: int| 0 <= i < cells.len() implies (#[trigger] cells[i]).1 is None by {}
    lemma_plain_foreground_fold(cells);
    let ascii = foreground_line_spec(cells);
    assert forall|i: int| 0 <= i < ascii.len() implies ascii[i] != '\u{1b}' by {
        assert(ascii[i] == cells[i].0);
    }
}

/// Twinkling never moves, adds or removes a background star: on any frame a
/// cell shows a star exactly where the static picture shows one (as long
/// as the star decisions are star glyphs).
pub proof fn lemma_twinkle_keeps_star_positions(
    top: Option<usize>,
    bottom: Option<usize>,
    star: Option<char>,
    x: usize,
    y: usize,
    colors_enabled: bool,
    palette: ColorPalette,
    frame: StarTwinkleFrame,
)
    requires
        star is Some ==> is_star_glyph(star.unwrap()),
    ensures
        ({
            let animated = half_block_cell_spec(top, bottom, star, x, y, colors_enabled, palette, Some(frame));
            let still = half_block_cell_spec(top, bottom, star, x, y, colors_enabled, palette, None);
            &&& (animated.0 == ' ' <==> still.0 == ' ')
            &&& (is_star_glyph(animated.0) <==> is_star_glyph(still.0))
            &&& animated.1 == still.1
            &&& animated.2 == still.2
        }),
{
}

} // verus!
