//! Deterministic, collision-safe micro-motion of starfield stars between the
//! two static endpoint frames of the intro.
//!
//! A star proposes a move when its per-frame motion hash is a multiple of
//! eight; the direction comes from the hash, the destination is one cardinal
//! step away, must lie inside the grid and must be empty in the prepared
//! frame. When several stars propose the same destination the one with the
//! smallest hash wins, ties going to the earlier star in row-major order.

use vstd::prelude::*;
use vstd::string::StringSliceAdditionalSpecFns;
use crate::hash::{hash_cell, hash_cell_spec};
use crate::ansi::AnsiForegroundLine;
use crate::color::{lemma_styles_are_csi, ColorPalette, StarBrightness, StarHue, RESET};
use crate::terminal::{
    ends_ground, is_csi_sequence, lemma_csi_sequence, lemma_single_char, lemma_width_concat,
    visible_width_spec,
};
use crate::render::{is_static_frame, twinkle_spec, twinkle_star_glyph, StarTwinkleFrame};
use crate::seed::{derive_feature_seed, feature_seed_spec, ANIMATION_STAR_MOTION_V1};

verus! {

/// One star in this many proposes a move on a given frame.
pub const STAR_MOTION_SUBSET_MODULUS: u64 = 8;

/// Salt that separates the per-frame seed from the per-star hash.
pub const STAR_MOTION_FRAME_SALT: u64 = 0x4f1b_2d93_8a7c_65e1;

/// Number of cardinal directions (up, right, down, left).
pub const STAR_MOTION_DIRECTION_COUNT: u64 = 4;

/// True only for frames strictly between the two static endpoint frames.
pub fn is_intermediate_frame(frame: StarTwinkleFrame) -> (b: bool)
    ensures
        b == !is_static_frame(frame.frame_index, frame.frame_count),
{
    frame.frame_count > 1 && frame.frame_index > 0 && frame.frame_index < frame.frame_count - 1
}

/// `v` rotated left by 23 bits.
pub open spec fn rotl23(v: u64) -> u64 {
    (v << 23u64) | (v >> 41u64)
}

/// Per-star, per-frame motion hash.
pub open spec fn star_motion_hash_spec(sx: u64, sy: u64, frame_index: u32, motion_seed: u64) -> u64 {
    let frame_seed = hash_cell_spec(frame_index as u64, 0, motion_seed ^ STAR_MOTION_FRAME_SALT);
    hash_cell_spec(sx, sy, motion_seed ^ rotl23(frame_seed))
}

/// Derives a stable per-star, per-frame motion value without consuming any
/// generation RNG stream.
pub fn star_motion_hash(source_x: usize, source_y: usize, frame_index: u32, motion_seed: u64) -> (h: u64)
    ensures
        h == star_motion_hash_spec(source_x as u64, source_y as u64, frame_index, motion_seed),
{
    let frame_seed = hash_cell(frame_index as usize, 0, motion_seed ^ STAR_MOTION_FRAME_SALT);
    let rotated = (frame_seed << 23u64) | (frame_seed >> 41u64);
    hash_cell(source_x, source_y, motion_seed ^ rotated)
}

/// The cell one step from `(x, y)` in `direction` (0 up, 1 right, 2 down,
/// 3 left), if it lies inside a `width × height` grid.
pub open spec fn cardinal_spec(x: int, y: int, direction: int, width: int, height: int) -> Option<(int, int)> {
    if direction == 0 {
        if y > 0 { Some((x, y - 1)) } else { None }
    } else if direction == 1 {
        if x < width - 1 { Some((x + 1, y)) } else { None }
    } else if direction == 2 {
        if y < height - 1 { Some((x, y + 1)) } else { None }
    } else if direction == 3 {
        if x > 0 { Some((x - 1, y)) } else { None }
    } else {
        None
    }
}

/// Returns a cardinal destination one terminal cell from `(x, y)`.
///
/// Out-of-bounds directions are rejected instead of clamped or wrapped, so
/// edge stars remain inside the terminal frame.
pub fn cardinal_destination(
    x: usize,
    y: usize,
    direction: usize,
    width: usize,
    height: usize,
) -> (r: Option<(usize, usize)>)
    requires
        direction < 4,
    ensures
        r.is_some() == cardinal_spec(x as int, y as int, direction as int, width as int, height as int).is_some(),
        r matches Some(d) ==> cardinal_spec(x as int, y as int, direction as int, width as int, height as int)
            == Some((d.0 as int, d.1 as int)),
{
    if direction == 0 {
        if y > 0 { Some((x, y - 1)) } else { None }
    } else if direction == 1 {
        if width > 0 && x < width - 1 { Some((x + 1, y)) } else { None }
    } else if direction == 2 {
        if height > 0 && y < height - 1 { Some((x, y + 1)) } else { None }
    } else {
        if x > 0 { Some((x - 1, y)) } else { None }
    }
}

/// A grid whose rows all have length `width`.
pub open spec fn is_rect<T>(grid: Seq<Vec<Option<T>>>, width: int) -> bool {
    forall|y: int| 0 <= y < grid.len() ==> #[trigger] grid[y]@.len() == width
}

/// Width of a grid: the length of its first row, `0` when it has none.
pub open spec fn grid_width<T>(grid: Seq<Vec<Option<T>>>) -> int {
    if grid.len() == 0 { 0 } else { grid[0]@.len() as int }
}

/// Cell `(x, y)` of a grid, `None` outside it.
pub open spec fn cell_at<T>(grid: Seq<Vec<Option<T>>>, x: int, y: int) -> Option<T> {
    if 0 <= y < grid.len() && 0 <= x < grid[y]@.len() {
        grid[y]@[x]
    } else {
        None
    }
}

/// Cell `(x, y)` holds a star.
pub open spec fn occupied<T>(grid: Seq<Vec<Option<T>>>, x: int, y: int) -> bool {
    cell_at(grid, x, y).is_some()
}

/// Motion seed of a scene.
pub open spec fn motion_seed_spec(scene_seed: u64) -> u64 {
    feature_seed_spec(scene_seed, ANIMATION_STAR_MOTION_V1.spec_bytes())
}

/// Motion hash of the star at `(x, y)` on a frame.
#[verifier::opaque]
pub open spec fn motion_at(frame: StarTwinkleFrame, x: int, y: int) -> u64 {
    star_motion_hash_spec(x as u64, y as u64, frame.frame_index, motion_seed_spec(frame.scene_seed))
}

/// Direction encoded in a motion hash.
pub open spec fn motion_direction(m: u64) -> int {
    ((m >> 8u64) % STAR_MOTION_DIRECTION_COUNT) as int
}

/// The destination the star at `(x, y)` proposes on a frame, if any.
pub open spec fn proposal_spec<T>(grid: Seq<Vec<Option<T>>>, frame: StarTwinkleFrame, x: int, y: int) -> Option<(int, int)> {
    if !occupied(grid, x, y) {
        None
    } else {
        let m = motion_at(frame, x, y);
        if m % STAR_MOTION_SUBSET_MODULUS != 0 {
            None
        } else {
            match cardinal_spec(x, y, motion_direction(m), grid_width(grid), grid.len() as int) {
                None => None,
                Some(d) => if occupied(grid, d.0, d.1) {
                    None
                } else {
                    Some(d)
                },
            }
        }
    }
}

/// The star at `(x1, y1)` takes precedence over the one at `(x2, y2)`: a
/// smaller motion hash, ties broken by row-major order.
pub open spec fn beats(frame: StarTwinkleFrame, x1: int, y1: int, x2: int, y2: int) -> bool {
    let m1 = motion_at(frame, x1, y1);
    let m2 = motion_at(frame, x2, y2);
    m1 < m2 || (m1 == m2 && (y1 < y2 || (y1 == y2 && x1 < x2)))
}

/// The star at `(x, y)` proposes a move and takes precedence over every
/// other star proposing the same destination.
pub open spec fn is_winner<T>(grid: Seq<Vec<Option<T>>>, frame: StarTwinkleFrame, x: int, y: int) -> bool {
    &&& proposal_spec(grid, frame, x, y).is_some()
    &&& forall|x2: int, y2: int|
        #![trigger proposal_spec(grid, frame, x2, y2)]
        (x2 != x || y2 != y) && proposal_spec(grid, frame, x2, y2) == proposal_spec(grid, frame, x, y)
            ==> beats(frame, x, y, x2, y2)
}

/// The winning star `s` moves into `(x, y)`.
pub open spec fn moves_into<T>(grid: Seq<Vec<Option<T>>>, frame: StarTwinkleFrame, s: (int, int), x: int, y: int) -> bool {
    is_winner(grid, frame, s.0, s.1) && proposal_spec(grid, frame, s.0, s.1) == Some((x, y))
}

/// The star that moves into `(x, y)`, looked for among its four neighbours.
pub open spec fn incoming_spec<T>(grid: Seq<Vec<Option<T>>>, frame: StarTwinkleFrame, x: int, y: int) -> Option<(int, int)> {
    if moves_into(grid, frame, (x, y + 1), x, y) {
        Some((x, y + 1))
    } else if moves_into(grid, frame, (x - 1, y), x, y) {
        Some((x - 1, y))
    } else if moves_into(grid, frame, (x, y - 1), x, y) {
        Some((x, y - 1))
    } else if moves_into(grid, frame, (x + 1, y), x, y) {
        Some((x + 1, y))
    } else {
        None
    }
}

/// Cell `(x, y)` after the motion step: a winning star leaves its cell, the
/// winner proposing an empty cell arrives there, every other cell keeps its
/// content.
pub open spec fn moved_cell_spec<T>(grid: Seq<Vec<Option<T>>>, frame: StarTwinkleFrame, x: int, y: int) -> Option<T> {
    if occupied(grid, x, y) {
        if is_winner(grid, frame, x, y) {
            None
        } else {
            cell_at(grid, x, y)
        }
    } else {
        match incoming_spec(grid, frame, x, y) {
            Some(s) => cell_at(grid, s.0, s.1),
            None => None,
        }
    }
}

/// Every destination proposed by some star is a cardinal neighbour of it.
proof fn lemma_proposal_neighbour<T>(grid: Seq<Vec<Option<T>>>, frame: StarTwinkleFrame, x: int, y: int)
    requires
        is_rect(grid, grid_width(grid)),
        proposal_spec(grid, frame, x, y).is_some(),
    ensures
        ({
            let d = proposal_spec(grid, frame, x, y).unwrap();
            &&& (d == (x, y - 1) || d == (x + 1, y) || d == (x, y + 1) || d == (x - 1, y))
            &&& 0 <= d.1 < grid.len()
            &&& 0 <= d.0 < grid_width(grid)
            &&& !occupied(grid, d.0, d.1)
            &&& occupied(grid, x, y)
        }),
{
    let m = motion_at(frame, x, y);
    let dir = motion_direction(m);
    assert(0 <= dir < 4);
    assert(grid[y]@.len() == grid_width(grid));
}

/// Motion keeps stars inside the grid and moves a star only one cardinal
/// step, into a cell that was empty in the prepared frame.
pub proof fn lemma_motion_is_one_step_into_empty<T>(grid: Seq<Vec<Option<T>>>, frame: StarTwinkleFrame, x: int, y: int)
    requires
        is_rect(grid, grid_width(grid)),
        0 <= y < grid.len(),
        0 <= x < grid_width(grid),
        proposal_spec(grid, frame, x, y).is_some(),
    ensures
        ({
            let d = proposal_spec(grid, frame, x, y).unwrap();
            &&& 0 <= d.0 < grid_width(grid)
            &&& 0 <= d.1 < grid.len()
            &&& (if d.0 >= x { d.0 - x } else { x - d.0 }) + (if d.1 >= y { d.1 - y } else { y - d.1 }) == 1
            &&& occupied(grid, x, y)
            &&& !occupied(grid, d.0, d.1)
        }),
{
    lemma_proposal_neighbour(grid, frame, x, y);
}

/// No two winning stars claim the same destination.
pub proof fn lemma_winners_never_collide<T>(
    grid: Seq<Vec<Option<T>>>,
    frame: StarTwinkleFrame,
    x1: int,
    y1: int,
    x2: int,
    y2: int,
)
    requires
        is_winner(grid, frame, x1, y1),
        is_winner(grid, frame, x2, y2),
        x1 != x2 || y1 != y2,
    ensures
        proposal_spec(grid, frame, x1, y1) != proposal_spec(grid, frame, x2, y2),
{
    if proposal_spec(grid, frame, x1, y1) == proposal_spec(grid, frame, x2, y2) {
        assert(beats(frame, x1, y1, x2, y2));
        assert(beats(frame, x2, y2, x1, y1));
    }
}

/// A winner is the star that `incoming_spec` finds at its destination.
proof fn lemma_incoming_is_winner<T>(grid: Seq<Vec<Option<T>>>, frame: StarTwinkleFrame, x: int, y: int)
    requires
        is_rect(grid, grid_width(grid)),
        is_winner(grid, frame, x, y),
    ensures
        ({
            let d = proposal_spec(grid, frame, x, y).unwrap();
            incoming_spec(grid, frame, d.0, d.1) == Some((x, y))
        }),
{
    let d = proposal_spec(grid, frame, x, y).unwrap();
    lemma_proposal_neighbour(grid, frame, x, y);
    let cands: Seq<(int, int)> = seq![(d.0, d.1 + 1), (d.0 - 1, d.1), (d.0, d.1 - 1), (d.0 + 1, d.1)];
    assert forall|k: int| 0 <= k < 4 && cands[k] != (x, y) implies !moves_into(grid, frame, cands[k], d.0, d.1) by {
        if moves_into(grid, frame, cands[k], d.0, d.1) {
            lemma_winners_never_collide(grid, frame, x, y, cands[k].0, cands[k].1);
        }
    }
    assert(cands[0] != (x, y) ==> !moves_into(grid, frame, cands[0], d.0, d.1));
    assert(cands[1] != (x, y) ==> !moves_into(grid, frame, cands[1], d.0, d.1));
    assert(cands[2] != (x, y) ==> !moves_into(grid, frame, cands[2], d.0, d.1));
}

/// Where the content of cell `(x, y)` after the motion step comes from.
pub open spec fn origin_spec<T>(grid: Seq<Vec<Option<T>>>, frame: StarTwinkleFrame, x: int, y: int) -> (int, int) {
    if occupied(grid, x, y) {
        (x, y)
    } else {
        match incoming_spec(grid, frame, x, y) {
            Some(s) => s,
            None => (x, y),
        }
    }
}

/// Motion neither creates nor loses stars: every star after the step comes
/// from a star of the prepared frame at most one cell away (and a star that
/// moved lands in a cell that was empty), no two stars come from the same
/// source, and every star of the prepared frame is found after the step.
pub proof fn lemma_motion_preserves_stars<T>(grid: Seq<Vec<Option<T>>>, frame: StarTwinkleFrame)
    requires
        is_rect(grid, grid_width(grid)),
    ensures
        forall|x: int, y: int|
            #![trigger moved_cell_spec(grid, frame, x, y)]
            0 <= y < grid.len() && 0 <= x < grid_width(grid) && moved_cell_spec(grid, frame, x, y).is_some()
                ==> {
                let o = origin_spec(grid, frame, x, y);
                &&& occupied(grid, o.0, o.1)
                &&& moved_cell_spec(grid, frame, x, y) == cell_at(grid, o.0, o.1)
                &&& (if o.0 >= x { o.0 - x } else { x - o.0 }) + (if o.1 >= y { o.1 - y } else { y - o.1 }) <= 1
                &&& (o != (x, y) ==> !occupied(grid, x, y))
            },
        forall|x1: int, y1: int, x2: int, y2: int|
            #![trigger moved_cell_spec(grid, frame, x1, y1), moved_cell_spec(grid, frame, x2, y2)]
            moved_cell_spec(grid, frame, x1, y1).is_some() && moved_cell_spec(grid, frame, x2, y2).is_some()
                && (x1 != x2 || y1 != y2) ==> origin_spec(grid, frame, x1, y1) != origin_spec(grid, frame, x2, y2),
        forall|sx: int, sy: int|
            #![trigger occupied(grid, sx, sy)]
            occupied(grid, sx, sy) ==> exists|x: int, y: int|
                #![trigger moved_cell_spec(grid, frame, x, y)]
                0 <= y < grid.len() && 0 <= x < grid_width(grid) && moved_cell_spec(grid, frame, x, y).is_some()
                    && origin_spec(grid, frame, x, y) == (sx, sy),
{
    assert forall|x: int, y: int|
        #![trigger moved_cell_spec(grid, frame, x, y)]
        0 <= y < grid.len() && 0 <= x < grid_width(grid) && moved_cell_spec(grid, frame, x, y).is_some()
        implies {
            let o = origin_spec(grid, frame, x, y);
            &&& occupied(grid, o.0, o.1)
            &&& moved_cell_spec(grid, frame, x, y) == cell_at(grid, o.0, o.1)
            &&& (if o.0 >= x { o.0 - x } else { x - o.0 }) + (if o.1 >= y { o.1 - y } else { y - o.1 }) <= 1
        } by {
        if !occupied(grid, x, y) {
            let s = incoming_spec(grid, frame, x, y).unwrap();
            lemma_proposal_neighbour(grid, frame, s.0, s.1);
        }
    }
    assert forall|x1: int, y1: int, x2: int, y2: int|
        #![trigger moved_cell_spec(grid, frame, x1, y1), moved_cell_spec(grid, frame, x2, y2)]
        moved_cell_spec(grid, frame, x1, y1).is_some() && moved_cell_spec(grid, frame, x2, y2).is_some()
            && (x1 != x2 || y1 != y2)
        implies origin_spec(grid, frame, x1, y1) != origin_spec(grid, frame, x2, y2) by {
        let o1 = origin_spec(grid, frame, x1, y1);
        let o2 = origin_spec(grid, frame, x2, y2);
        if occupied(grid, x1, y1) && !occupied(grid, x2, y2) {
            let s = incoming_spec(grid, frame, x2, y2).unwrap();
            assert(is_winner(grid, frame, s.0, s.1));
        } else if !occupied(grid, x1, y1) && occupied(grid, x2, y2) {
            let s = incoming_spec(grid, frame, x1, y1).unwrap();
            assert(is_winner(grid, frame, s.0, s.1));
        } else if !occupied(grid, x1, y1) && !occupied(grid, x2, y2) {
            let s1 = incoming_spec(grid, frame, x1, y1).unwrap();
            let s2 = incoming_spec(grid, frame, x2, y2).unwrap();
            assert(proposal_spec(grid, frame, s1.0, s1.1) == Some((x1, y1)));
            assert(proposal_spec(grid, frame, s2.0, s2.1) == Some((x2, y2)));
        }
    }
    assert forall|sx: int, sy: int|
        #![trigger occupied(grid, sx, sy)]
        occupied(grid, sx, sy) implies exists|x: int, y: int|
            #![trigger moved_cell_spec(grid, frame, x, y)]
            0 <= y < grid.len() && 0 <= x < grid_width(grid) && moved_cell_spec(grid, frame, x, y).is_some()
                && origin_spec(grid, frame, x, y) == (sx, sy) by {
        assert(0 <= sy < grid.len());
        assert(grid[sy]@.len() == grid_width(grid));
        if is_winner(grid, frame, sx, sy) {
            let d = proposal_spec(grid, frame, sx, sy).unwrap();
            lemma_proposal_neighbour(grid, frame, sx, sy);
            lemma_incoming_is_winner(grid, frame, sx, sy);
            assert(moved_cell_spec(grid, frame, d.0, d.1).is_some());
        } else {
            assert(moved_cell_spec(grid, frame, sx, sy).is_some());
        }
    }
}

/// Motion hash of the star at `(x, y)` on a frame.
fn motion_of(frame: StarTwinkleFrame, motion_seed: u64, x: usize, y: usize) -> (m: u64)
    requires
        motion_seed == motion_seed_spec(frame.scene_seed),
    ensures
        m == motion_at(frame, x as int, y as int),
{
    proof {
        reveal(motion_at);
    }
    star_motion_hash(x, y, frame.frame_index, motion_seed)
}

/// Whether the star at `(x, y)` proposes a move, and where.
fn proposal_at<T: Copy>(
    grid: &Vec<Vec<Option<T>>>,
    width: usize,
    frame: StarTwinkleFrame,
    motion_seed: u64,
    x: usize,
    y: usize,
) -> (r: Option<(usize, usize)>)
    requires
        width == grid_width(grid@),
        is_rect(grid@, width as int),
        motion_seed == motion_seed_spec(frame.scene_seed),
        y < grid@.len(),
        x < width,
    ensures
        r.is_some() == proposal_spec(grid@, frame, x as int, y as int).is_some(),
        r matches Some(d) ==> proposal_spec(grid@, frame, x as int, y as int) == Some((d.0 as int, d.1 as int)),
{
    proof {
        assert(grid@[y as int]@.len() == width);
    }
    if grid[y][x].is_none() {
        return None;
    }
    let motion = motion_of(frame, motion_seed, x, y);
    if motion % STAR_MOTION_SUBSET_MODULUS != 0 {
        return None;
    }
    let direction = ((motion >> 8u64) % STAR_MOTION_DIRECTION_COUNT) as usize;
    match cardinal_destination(x, y, direction, width, grid.len()) {
        None => None,
        Some((dx, dy)) => {
            proof {
                assert(grid@[dy as int]@.len() == width);
            }
            if grid[dy][dx].is_some() {
                None
            } else {
                Some((dx, dy))
            }
        },
    }
}

/// Whether the star at `(cx, cy)` proposes `d` too and takes precedence over
/// the star at `(x, y)`, whose motion hash is `m`.
fn rival_prevails<T: Copy>(
    grid: &Vec<Vec<Option<T>>>,
    width: usize,
    frame: StarTwinkleFrame,
    motion_seed: u64,
    x: usize,
    y: usize,
    m: u64,
    cx: usize,
    cy: usize,
    d: (usize, usize),
) -> (b: bool)
    requires
        width == grid_width(grid@),
        is_rect(grid@, width as int),
        motion_seed == motion_seed_spec(frame.scene_seed),
        cy < grid@.len(),
        cx < width,
        m == motion_at(frame, x as int, y as int),
    ensures
        b == (proposal_spec(grid@, frame, cx as int, cy as int) == Some((d.0 as int, d.1 as int))
            && !beats(frame, x as int, y as int, cx as int, cy as int)),
{
    match proposal_at(grid, width, frame, motion_seed, cx, cy) {
        Some(p) => {
            if p.0 == d.0 && p.1 == d.1 {
                let mc = motion_of(frame, motion_seed, cx, cy);
                let first = m < mc || (m == mc && (y < cy || (y == cy && x < cx)));
                !first
            } else {
                false
            }
        },
        None => false,
    }
}

/// Whether the star at `(x, y)` proposes a move and wins its destination.
fn wins_at<T: Copy>(
    grid: &Vec<Vec<Option<T>>>,
    width: usize,
    frame: StarTwinkleFrame,
    motion_seed: u64,
    x: usize,
    y: usize,
) -> (b: bool)
    requires
        width == grid_width(grid@),
        is_rect(grid@, width as int),
        motion_seed == motion_seed_spec(frame.scene_seed),
        y < grid@.len(),
        x < width,
    ensures
        b == is_winner(grid@, frame, x as int, y as int),
{
    let d = match proposal_at(grid, width, frame, motion_seed, x, y) {
        None => {
            return false;
        },
        Some(d) => d,
    };
    proof {
        lemma_proposal_neighbour(grid@, frame, x as int, y as int);
    }
    let m = motion_of(frame, motion_seed, x, y);
    let height = grid.len();
    let (dx, dy) = d;
    if dy + 1 < height && !(dx == x && dy + 1 == y) {
        if rival_prevails(grid, width, frame, motion_seed, x, y, m, dx, dy + 1, d) {
            return false;
        }
    }
    if dx > 0 && !(dx - 1 == x && dy == y) {
        if rival_prevails(grid, width, frame, motion_seed, x, y, m, dx - 1, dy, d) {
            return false;
        }
    }
    if dy > 0 && !(dx == x && dy - 1 == y) {
        if rival_prevails(grid, width, frame, motion_seed, x, y, m, dx, dy - 1, d) {
            return false;
        }
    }
    if dx + 1 < width && !(dx + 1 == x && dy == y) {
        if rival_prevails(grid, width, frame, motion_seed, x, y, m, dx + 1, dy, d) {
            return false;
        }
    }
    proof {
        let g = grid@;
        assert forall|x2: int, y2: int|
            #![trigger proposal_spec(g, frame, x2, y2)]
            (x2 != x || y2 != y) && proposal_spec(g, frame, x2, y2) == proposal_spec(g, frame, x as int, y as int)
            implies beats(frame, x as int, y as int, x2, y2) by {
            lemma_proposal_neighbour(g, frame, x2, y2);
        }
    }
    true
}

/// Whether the star at `(sx, sy)` wins the move into `(x, y)`.
fn moves_into_at<T: Copy>(
    grid: &Vec<Vec<Option<T>>>,
    width: usize,
    frame: StarTwinkleFrame,
    motion_seed: u64,
    sx: usize,
    sy: usize,
    x: usize,
    y: usize,
) -> (b: bool)
    requires
        width == grid_width(grid@),
        is_rect(grid@, width as int),
        motion_seed == motion_seed_spec(frame.scene_seed),
        sy < grid@.len(),
        sx < width,
    ensures
        b == moves_into(grid@, frame, (sx as int, sy as int), x as int, y as int),
{
    match proposal_at(grid, width, frame, motion_seed, sx, sy) {
        Some(p) => p.0 == x && p.1 == y && wins_at(grid, width, frame, motion_seed, sx, sy),
        None => false,
    }
}

/// The star that moves into `(x, y)`, if any.
fn incoming_at<T: Copy>(
    grid: &Vec<Vec<Option<T>>>,
    width: usize,
    frame: StarTwinkleFrame,
    motion_seed: u64,
    x: usize,
    y: usize,
) -> (r: Option<(usize, usize)>)
    requires
        width == grid_width(grid@),
        is_rect(grid@, width as int),
        motion_seed == motion_seed_spec(frame.scene_seed),
        y < grid@.len(),
        x < width,
    ensures
        r.is_some() == incoming_spec(grid@, frame, x as int, y as int).is_some(),
        r matches Some(s) ==> {
            &&& incoming_spec(grid@, frame, x as int, y as int) == Some((s.0 as int, s.1 as int))
            &&& s.0 < width
            &&& s.1 < grid@.len()
        },
{
    let height = grid.len();
    let g = Ghost(grid@);
    if y + 1 < height {
        if moves_into_at(grid, width, frame, motion_seed, x, y + 1, x, y) {
            return Some((x, y + 1));
        }
    } else {
        assert(!occupied(g@, x as int, y + 1));
    }
    if x > 0 {
        if moves_into_at(grid, width, frame, motion_seed, x - 1, y, x, y) {
            return Some((x - 1, y));
        }
    } else {
        assert(!occupied(g@, x - 1, y as int));
    }
    if y > 0 {
        if moves_into_at(grid, width, frame, motion_seed, x, y - 1, x, y) {
            return Some((x, y - 1));
        }
    } else {
        assert(!occupied(g@, x as int, y - 1));
    }
    if x + 1 < width {
        if moves_into_at(grid, width, frame, motion_seed, x + 1, y, x, y) {
            return Some((x + 1, y));
        }
    } else {
        assert(!occupied(g@, x + 1, y as int));
    }
    None
}

/// Applies deterministic, collision-safe micro-motion to prepared stars:
/// every winning star moves one cardinal step into the empty cell it
/// proposed, every other cell keeps its content.
pub fn move_starfield_cells<T: Copy>(base_cells: &Vec<Vec<Option<T>>>, frame: StarTwinkleFrame) -> (moved: Vec<Vec<Option<T>>>)
    requires
        is_rect(base_cells@, grid_width(base_cells@)),
    ensures
        moved@.len() == base_cells@.len(),
        is_rect(moved@, grid_width(base_cells@)),
        forall|x: int, y: int|
            0 <= y < base_cells@.len() && 0 <= x < grid_width(base_cells@) ==> #[trigger] moved@[y]@[x]
                == moved_cell_spec(base_cells@, frame, x, y),
{
    let height = base_cells.len();
    let width = if height == 0 {
        0
    } else {
        base_cells[0].len()
    };
    let motion_seed = derive_feature_seed(frame.scene_seed, ANIMATION_STAR_MOTION_V1);
    let mut moved: Vec<Vec<Option<T>>> = Vec::new();
    for y in 0..height
        invariant
            height == base_cells@.len(),
            width == grid_width(base_cells@),
            is_rect(base_cells@, width as int),
            motion_seed == motion_seed_spec(frame.scene_seed),
            moved@.len() == y,
            is_rect(moved@, width as int),
            forall|x2: int, y2: int|
                0 <= y2 < y && 0 <= x2 < width ==> #[trigger] moved@[y2]@[x2]
                    == moved_cell_spec(base_cells@, frame, x2, y2),
    {
        let mut row: Vec<Option<T>> = Vec::new();
        proof {
            assert(base_cells@[y as int]@.len() == width);
        }
        for x in 0..width
            invariant
                height == base_cells@.len(),
                width == grid_width(base_cells@),
                is_rect(base_cells@, width as int),
                motion_seed == motion_seed_spec(frame.scene_seed),
                y < height,
                row@.len() == x,
                forall|x2: int| 0 <= x2 < x ==> #[trigger] row@[x2] == moved_cell_spec(base_cells@, frame, x2, y as int),
        {
            proof {
                assert(base_cells@[y as int]@.len() == width);
            }
            let here = base_cells[y][x];
            let cell = if here.is_some() {
                if wins_at(base_cells, width, frame, motion_seed, x, y) {
                    None
                } else {
                    here
                }
            } else {
                match incoming_at(base_cells, width, frame, motion_seed, x, y) {
                    Some((sx, sy)) => {
                        proof {
                            assert(base_cells@[sy as int]@.len() == width);
                        }
                        base_cells[sy][sx]
                    },
                    None => None,
                }
            };
            row.push(cell);
        }
        moved.push(row);
    }
    moved
}

/// One visible star of the starfield: its glyph, the cell it was prepared
/// in (its identity for twinkling), and its color.
#[derive(Debug, Clone, Copy, PartialEq, Eq)]
pub struct StarCell {
    pub glyph: char,
    pub source_x: usize,
    pub source_y: usize,
    pub color: &'static str,
}

/// Text and active style after pushing `cells` (glyph, optional style) to
/// an empty foreground line builder.
pub open spec fn foreground_fold(cells: Seq<(char, Option<Seq<char>>)>) -> (Seq<char>, Option<Seq<char>>)
    decreases cells.len(),
{
    if cells.len() == 0 {
        (Seq::empty(), None)
    } else {
        let (out, style) = foreground_fold(cells.drop_last());
        let (ch, s) = cells.last();
        match s {
            None => (
                out + (if style is Some {
                    RESET@
                } else {
                    Seq::empty()
                }) + seq![ch],
                None,
            ),
            Some(st) => match style {
                None => (out + st + seq![ch], Some(st)),
                Some(cur) => if cur == st {
                    (out + seq![ch], Some(st))
                } else {
                    (out + RESET@ + st + seq![ch], Some(st))
                },
            },
        }
    }
}

/// The finished text of a foreground line built from `cells`.
pub open spec fn foreground_line_spec(cells: Seq<(char, Option<Seq<char>>)>) -> Seq<char> {
    let (out, style) = foreground_fold(cells);
    if style is Some {
        out + RESET@
    } else {
        out
    }
}

/// A foreground cell whose glyph is not ESC and whose style, if any, is a
/// complete CSI sequence.
pub open spec fn foreground_cell_is_well_styled(cell: (char, Option<Seq<char>>)) -> bool {
    &&& cell.0 != '\u{1b}'
    &&& (cell.1 is Some ==> is_csi_sequence(cell.1.unwrap()))
}

proof fn lemma_foreground_fold_width(cells: Seq<(char, Option<Seq<char>>)>)
    requires
        forall|i: int| 0 <= i < cells.len() ==> foreground_cell_is_well_styled(#[trigger] cells[i]),
    ensures
        visible_width_spec(foreground_fold(cells).0) == cells.len(),
        ends_ground(foreground_fold(cells).0),
    decreases cells.len(),
{
    lemma_styles_are_csi(ColorPalette::Nebula, 0, StarBrightness::Faint, StarHue::Low);
    lemma_csi_sequence(RESET@);
    if cells.len() == 0 {
        assert(visible_width_spec(Seq::<char>::empty()) == 0);
        assert(ends_ground(Seq::<char>::empty()));
    } else {
        let prefix = cells.drop_last();
        assert forall|i: int| 0 <= i < prefix.len() implies (#[trigger] prefix[i]) == cells[i] by {}
        lemma_foreground_fold_width(prefix);
        let (out, style) = foreground_fold(prefix);
        let (ch, st) = cells.last();
        assert(cells.last() == cells[cells.len() - 1]);
        lemma_single_char(ch);
        match st {
            None => {
                if style is Some {
                    lemma_width_concat(out, RESET@);
                    lemma_width_concat(out + RESET@, seq![ch]);
                } else {
                    assert(out + Seq::<char>::empty() =~= out);
                    lemma_width_concat(out, seq![ch]);
                }
            },
            Some(t) => {
                lemma_csi_sequence(t);
                match style {
                    None => {
                        lemma_width_concat(out, t);
                        lemma_width_concat(out + t, seq![ch]);
                    },
                    Some(cur) => if cur == t {
                        lemma_width_concat(out, seq![ch]);
                    } else {
                        lemma_width_concat(out, RESET@);
                        lemma_width_concat(out + RESET@, t);
                        lemma_width_concat(out + RESET@ + t, seq![ch]);
                    },
                }
            },
        }
    }
}

/// A finished foreground line takes one terminal column per cell when its
/// glyphs are not ESC and its styles are complete CSI sequences.
pub proof fn lemma_foreground_line_width(cells: Seq<(char, Option<Seq<char>>)>)
    requires
        forall|i: int| 0 <= i < cells.len() ==> foreground_cell_is_well_styled(#[trigger] cells[i]),
    ensures
        visible_width_spec(foreground_line_spec(cells)) == cells.len(),
{
    lemma_foreground_fold_width(cells);
    let (out, style) = foreground_fold(cells);
    if style is Some {
        lemma_styles_are_csi(ColorPalette::Nebula, 0, StarBrightness::Faint, StarHue::Low);
        lemma_csi_sequence(RESET@);
        lemma_width_concat(out, RESET@);
    }
}

/// How one starfield cell is drawn: empty cells are spaces; a star shows
/// its glyph, twinkled on an animation frame by its source cell, in its
/// color when colors are on.
pub open spec fn star_cell_spec(cell: Option<StarCell>, colors_enabled: bool, frame: Option<StarTwinkleFrame>) -> (
    char,
    Option<Seq<char>>,
) {
    match cell {
        None => (' ', None),
        Some(c) => {
            let ch = match frame {
                Some(f) => match twinkle_spec(Some(c.glyph), f.scene_seed, c.source_x, c.source_y, f.frame_index, f.frame_count) {
                    Some(d) => d,
                    None => c.glyph,
                },
                None => c.glyph,
            };
            if colors_enabled {
                (ch, Some(c.color@))
            } else {
                (ch, None)
            }
        },
    }
}

/// The cells of row `row` of a starfield picture.
pub open spec fn star_row_cells(
    grid: Seq<Vec<Option<StarCell>>>,
    row: int,
    colors_enabled: bool,
    frame: Option<StarTwinkleFrame>,
) -> Seq<(char, Option<Seq<char>>)> {
    Seq::new(grid[row]@.len(), |x: int| star_cell_spec(grid[row]@[x], colors_enabled, frame))
}

/// The grid actually drawn: stars move only on frames between the two
/// static endpoints.
pub open spec fn drawn_star_grid(grid: Seq<Vec<Option<StarCell>>>, frame: Option<StarTwinkleFrame>) -> Seq<
    Seq<Option<StarCell>>,
> {
    match frame {
        Some(f) => if !is_static_frame(f.frame_index, f.frame_count) {
            Seq::new(
                grid.len(),
                |y: int| Seq::new(grid_width(grid) as nat, |x: int| moved_cell_spec(grid, f, x, y)),
            )
        } else {
            Seq::new(grid.len(), |y: int| grid[y]@)
        },
        None => Seq::new(grid.len(), |y: int| grid[y]@),
    }
}

/// Draws one prepared starfield grid row by row.
fn render_star_grid(cells: &Vec<Vec<Option<StarCell>>>, colors_enabled: bool, frame: Option<StarTwinkleFrame>) -> (lines: Vec<String>)
    ensures
        lines@.len() == cells@.len(),
        forall|r: int|
            0 <= r < lines@.len() ==> #[trigger] lines@[r]@ == foreground_line_spec(
                star_row_cells(cells@, r, colors_enabled, frame),
            ),
{
    let mut lines: Vec<String> = Vec::new();
    let mut r: usize = 0;
    while r < cells.len()
        invariant
            r <= cells@.len(),
            lines@.len() == r,
            forall|r2: int|
                0 <= r2 < r ==> #[trigger] lines@[r2]@ == foreground_line_spec(
                    star_row_cells(cells@, r2, colors_enabled, frame),
                ),
        decreases cells@.len() - r,
    {
        let row = &cells[r];
        let ghost rc = star_row_cells(cells@, r as int, colors_enabled, frame);
        let mut line = AnsiForegroundLine::with_capacity(row.len());
        let mut x: usize = 0;
        while x < row.len()
            invariant
                r < cells@.len(),
                *row == cells@[r as int],
                x <= row@.len(),
                rc == star_row_cells(cells@, r as int, colors_enabled, frame),
                (line.output(), line.style()) == foreground_fold(rc.take(x as int)),
            decreases row@.len() - x,
        {
            proof {
                assert(rc.take(x + 1).drop_last() =~= rc.take(x as int));
                assert(rc.take(x + 1).last() == rc[x as int]);
            }
            match row[x] {
                None => {
                    line.push_plain(' ');
                },
                Some(cell) => {
                    let ch = match frame {
                        Some(f) => match twinkle_star_glyph(
                            Some(cell.glyph),
                            f.scene_seed,
                            cell.source_x,
                            cell.source_y,
                            f.frame_index,
                            f.frame_count,
                        ) {
                            Some(d) => d,
                            None => cell.glyph,
                        },
                        None => cell.glyph,
                    };
                    if colors_enabled {
                        line.push_styled(ch, cell.color);
                    } else {
                        line.push_plain(ch);
                    }
                },
            }
            x = x + 1;
        }
        proof {
            assert(rc.take(row@.len() as int) =~= rc);
        }
        lines.push(line.finish());
        r = r + 1;
    }
    lines
}

/// Renders a prepared starfield grid: on frames between the static
/// endpoints the stars first take their motion step, then every row is
/// drawn with each star twinkled by its source cell and colored when colors
/// are on.
pub fn render_star_cells(
    base_cells: &Vec<Vec<Option<StarCell>>>,
    colors_enabled: bool,
    frame: Option<StarTwinkleFrame>,
) -> (lines: Vec<String>)
    requires
        is_rect(base_cells@, grid_width(base_cells@)),
    ensures
        lines@.len() == base_cells@.len(),
        forall|r: int|
            0 <= r < lines@.len() ==> #[trigger] lines@[r]@ == foreground_line_spec(
                Seq::new(
                    drawn_star_grid(base_cells@, frame)[r].len(),
                    |x: int| star_cell_spec(drawn_star_grid(base_cells@, frame)[r][x], colors_enabled, frame),
                ),
            ),
{
    let moving = match frame {
        Some(f) => is_intermediate_frame(f),
        None => false,
    };
    if moving {
        let f = frame.unwrap();
        let moved = move_starfield_cells(base_cells, f);
        let lines = render_star_grid(&moved, colors_enabled, frame);
        proof {
            let d = drawn_star_grid(base_cells@, frame);
            assert forall|r: int| 0 <= r < lines@.len() implies #[trigger] lines@[r]@ == foreground_line_spec(
                Seq::new(d[r].len(), |x: int| star_cell_spec(d[r][x], colors_enabled, frame)),
            ) by {
                assert(moved@[r]@ =~= d[r]);
                assert(star_row_cells(moved@, r, colors_enabled, frame) =~= Seq::new(
                    d[r].len(),
                    |x: int| star_cell_spec(d[r][x], colors_enabled, frame),
                ));
            }
        }
        lines
    } else {
        let lines = render_star_grid(base_cells, colors_enabled, frame);
        proof {
            let d = drawn_star_grid(base_cells@, frame);
            assert forall|r: int| 0 <= r < lines@.len() implies #[trigger] lines@[r]@ == foreground_line_spec(
                Seq::new(d[r].len(), |x: int| star_cell_spec(d[r][x], colors_enabled, frame)),
            ) by {
                assert(base_cells@[r]@ =~= d[r]);
                assert(star_row_cells(base_cells@, r, colors_enabled, frame) =~= Seq::new(
                    d[r].len(),
                    |x: int| star_cell_spec(d[r][x], colors_enabled, frame),
                ));
            }
        }
        lines
    }
}

/// Every star of `grid` has a glyph other than ESC and, when colors are
/// on, a color that is a complete CSI sequence.
pub open spec fn stars_are_drawable(grid: Seq<Vec<Option<StarCell>>>, colors_enabled: bool) -> bool {
    forall|x: int, y: int|
        #[trigger] cell_at(grid, x, y) is Some ==> cell_at(grid, x, y).unwrap().glyph != '\u{1b}' && (
        colors_enabled ==> is_csi_sequence(cell_at(grid, x, y).unwrap().color@))
}

/// Every drawn starfield row, on any frame, takes exactly as many terminal
/// columns as the grid is wide: moving and twinkling stars and their colors
/// never change the width.
pub proof fn lemma_star_row_width(
    grid: Seq<Vec<Option<StarCell>>>,
    colors_enabled: bool,
    frame: Option<StarTwinkleFrame>,
    r: int,
)
    requires
        is_rect(grid, grid_width(grid)),
        0 <= r < grid.len(),
        stars_are_drawable(grid, colors_enabled),
    ensures
        visible_width_spec(
            foreground_line_spec(
                Seq::new(
                    drawn_star_grid(grid, frame)[r].len(),
                    |x: int| star_cell_spec(drawn_star_grid(grid, frame)[r][x], colors_enabled, frame),
                ),
            ),
        ) == grid_width(grid),
{
    let d = drawn_star_grid(grid, frame);
    let cells = Seq::new(d[r].len(), |x: int| star_cell_spec(d[r][x], colors_enabled, frame));
    assert(grid[r]@.len() == grid_width(grid));
    assert forall|i: int| 0 <= i < cells.len() implies foreground_cell_is_well_styled(#[trigger] cells[i]) by {
        let cell = d[r][i];
        let moving = match frame {
            Some(f) => !is_static_frame(f.frame_index, f.frame_count),
            None => false,
        };
        if moving {
            let f = frame.unwrap();
            assert(cell == moved_cell_spec(grid, f, i, r));
            if occupied(grid, i, r) {
                assert(cell is Some ==> cell == cell_at(grid, i, r));
            } else if let Some(s) = incoming_spec(grid, f, i, r) {
                assert(cell == cell_at(grid, s.0, s.1));
            }
        } else {
            assert(cell == cell_at(grid, i, r));
        }
        if let Some(c) = cell {
            assert(c.glyph != '\u{1b}');
        }
    }
    lemma_foreground_line_width(cells);
}

/// Pushing only unstyled cells writes exactly their glyphs and leaves no
/// style active.
pub proof fn lemma_plain_foreground_fold(cells: Seq<(char, Option<Seq<char>>)>)
    requires
        forall|i: int| 0 <= i < cells.len() ==> (#[trigger] cells[i]).1 is None,
    ensures
        foreground_fold(cells) == (Seq::new(cells.len(), |i: int| cells[i].0), None::<Seq<char>>),
    decreases cells.len(),
{
    if cells.len() > 0 {
        let prefix = cells.drop_last();
        assert forall|i: int| 0 <= i < prefix.len() implies (#[trigger] prefix[i]).1 is None by {
            assert(prefix[i] == cells[i]);
        }
        lemma_plain_foreground_fold(prefix);
        assert(cells.last() == cells[cells.len() - 1]);
        assert(Seq::new(prefix.len(), |i: int| prefix[i].0).push(cells.last().0) =~= Seq::new(
            cells.len(),
            |i: int| cells[i].0,
        ));
        assert(Seq::new(prefix.len(), |i: int| prefix[i].0) + Seq::<char>::empty() =~= Seq::new(
            prefix.len(),
            |i: int| prefix[i].0,
        ));
    }
}

/// Without colors, a drawn starfield row on any frame is plain text as
/// wide as the grid, showing only spaces and the star glyphs `.`, `*` and
/// `+` (when every star of the grid is one of those glyphs).
pub proof fn lemma_plain_star_row_glyphs(
    grid: Seq<Vec<Option<StarCell>>>,
    frame: Option<StarTwinkleFrame>,
    r: int,
)
    requires
        is_rect(grid, grid_width(grid)),
        0 <= r < grid.len(),
        forall|x: int, y: int| #[trigger] cell_at(grid, x, y) is Some ==> {
            let g = cell_at(grid, x, y).unwrap().glyph;
            g == '.' || g == '*' || g == '+'
        },
    ensures
        ({
            let line = foreground_line_spec(
                Seq::new(
                    drawn_star_grid(grid, frame)[r].len(),
                    |x: int| star_cell_spec(drawn_star_grid(grid, frame)[r][x], false, frame),
                ),
            );
            &&& line.len() == grid_width(grid)
            &&& forall|i: int|
                0 <= i < line.len() ==> line[i] == ' ' || line[i] == '.' || line[i] == '*' || line[i]
                    == '+'
        }),
{
    let d = drawn_star_grid(grid, frame);
    let cells = Seq::new(d[r].len(), |x: int| star_cell_spec(d[r][x], false, frame));
    assert(grid[r]@.len() == grid_width(grid));
    assert forall|i: int| 0 <= i < cells.len() implies (#[trigger] cells[i]).1 is None && (
    cells[i].0 == ' ' || cells[i].0 == '.' || cells[i].0 == '*' || cells[i].0 == '+') by {
        let cell = d[r][i];
        let moving = match frame {
            Some(f) => !is_static_frame(f.frame_index, f.frame_count),
            None => false,
        };
        if moving {
            let f = frame.unwrap();
            assert(cell == moved_cell_spec(grid, f, i, r));
            if occupied(grid, i, r) {
                assert(cell is Some ==> cell == cell_at(grid, i, r));
            } else if let Some(s) = incoming_spec(grid, f, i, r) {
                assert(cell == cell_at(grid, s.0, s.1));
            }
        } else {
            assert(cell == cell_at(grid, i, r));
        }
    }
    lemma_plain_foreground_fold(cells);
}

/// The positions `(x, y)` with `0 <= x < width` and `0 <= y < height`.
pub open spec fn grid_positions(width: int, height: int) -> Set<(int, int)> {
    Set::new(|p: (int, int)| 0 <= p.0 < width && 0 <= p.1 < height)
}

proof fn lemma_grid_positions_finite(width: int, height: int)
    requires
        width >= 0,
        height >= 0,
    ensures
        grid_positions(width, height).finite(),
    decreases height,
{
    if height == 0 {
        assert(grid_positions(width, height) =~= Set::<(int, int)>::empty());
    } else {
        lemma_grid_positions_finite(width, height - 1);
        vstd::set_lib::lemma_int_range(0, width);
        let columns = vstd::set_lib::set_int_range(0, width);
        let row = columns.map(|x: int| (x, height - 1));
        columns.lemma_map_finite(|x: int| (x, height - 1));
        assert forall|p: (int, int)| #[trigger] grid_positions(width, height).contains(p) implies grid_positions(
            width,
            height - 1,
        ).union(row).contains(p) by {
            if p.1 == height - 1 {
                assert(columns.contains(p.0));
                assert(row.contains(p));
            }
        }
        assert(grid_positions(width, height) =~= grid_positions(width, height - 1).union(row));
    }
}

/// The positions of the stars of a grid.
pub open spec fn star_positions<T>(grid: Seq<Vec<Option<T>>>) -> Set<(int, int)> {
    Set::new(|p: (int, int)| 0 <= p.1 < grid.len() && 0 <= p.0 < grid_width(grid) && occupied(grid, p.0, p.1))
}

/// The positions of the stars after the motion step of `frame`.
pub open spec fn moved_star_positions<T>(grid: Seq<Vec<Option<T>>>, frame: StarTwinkleFrame) -> Set<(int, int)> {
    Set::new(
        |p: (int, int)|
            0 <= p.1 < grid.len() && 0 <= p.0 < grid_width(grid) && moved_cell_spec(grid, frame, p.0, p.1)
                is Some,
    )
}

/// The motion step keeps the number of stars: as many cells hold a star
/// after the step as before it.
pub proof fn lemma_motion_keeps_star_count<T>(grid: Seq<Vec<Option<T>>>, frame: StarTwinkleFrame)
    requires
        is_rect(grid, grid_width(grid)),
    ensures
        star_positions(grid).finite(),
        moved_star_positions(grid, frame).finite(),
        moved_star_positions(grid, frame).len() == star_positions(grid).len(),
{
    lemma_motion_preserves_stars(grid, frame);
    let w = grid_width(grid);
    let h = grid.len() as int;
    let xs = moved_star_positions(grid, frame);
    let ys = star_positions(grid);
    let f = |p: (int, int)| origin_spec(grid, frame, p.0, p.1);
    lemma_grid_positions_finite(if w >= 0 { w } else { 0 }, h);
    assert(xs.subset_of(grid_positions(if w >= 0 { w } else { 0 }, h)));
    vstd::set_lib::lemma_set_subset_finite(grid_positions(if w >= 0 { w } else { 0 }, h), xs);
    assert forall|a: (int, int), b: (int, int)|
        xs.contains(a) && xs.contains(b) && #[trigger] f(a) == #[trigger] f(b) implies a == b by {
        assert(moved_cell_spec(grid, frame, a.0, a.1) is Some);
        assert(moved_cell_spec(grid, frame, b.0, b.1) is Some);
    }
    assert forall|q: (int, int)| xs.map(f).contains(q) <==> ys.contains(q) by {
        if xs.map(f).contains(q) {
            let a = choose|a: (int, int)| xs.contains(a) && q == f(a);
            assert(moved_cell_spec(grid, frame, a.0, a.1) is Some);
            let o = origin_spec(grid, frame, a.0, a.1);
            assert(occupied(grid, o.0, o.1));
            assert(o == q);
        }
        if ys.contains(q) {
            assert(occupied(grid, q.0, q.1));
            let (x, y) = choose|x: int, y: int|
                #![trigger moved_cell_spec(grid, frame, x, y)]
                0 <= y < grid.len() && 0 <= x < grid_width(grid) && moved_cell_spec(grid, frame, x, y).is_some()
                    && origin_spec(grid, frame, x, y) == (q.0, q.1);
            assert(xs.contains((x, y)));
            assert(f((x, y)) == q);
        }
    }
    assert(xs.map(f) =~= ys);
    vstd::set_lib::lemma_map_size(xs, ys, f);
}

} // verus!
