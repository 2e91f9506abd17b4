use astrofetch::color::{star_hue_for_hash, ColorPalette, StarBrightness, StarHue};
use astrofetch::render::{
    render_ascii_rows, render_half_block_rows, render_quadrant_rows, render_shade_rows,
    star_field_seed_from_quantized, star_tier_for_hash, visibility_mask, RampCell,
    StarTwinkleFrame,
};
use astrofetch::starfield::{render_star_cells, StarCell};
use astrofetch::terminal::visible_width;

const NEBULA: ColorPalette = ColorPalette::Nebula;

fn half(levels: Vec<Vec<Option<usize>>>, colors: bool) -> Vec<String> {
    let rows = levels.len().div_ceil(2);
    let width = levels.first().map_or(0, Vec::len);
    let stars = vec![vec![None; width]; rows];
    render_half_block_rows(&levels, &stars, colors, NEBULA, None)
}

#[test]
fn half_blocks_follow_visibility_without_colors() {
    assert_eq!(half(vec![vec![Some(3)], vec![None]], false), vec!["▀"]);
    assert_eq!(half(vec![vec![None], vec![Some(3)]], false), vec!["▄"]);
    assert_eq!(half(vec![vec![Some(3)], vec![Some(3)]], false), vec!["█"]);
    assert_eq!(half(vec![vec![None], vec![None]], false), vec![" "]);
}

#[test]
fn half_blocks_odd_height_reads_missing_rows_as_invisible() {
    let levels = vec![
        vec![Some(3), None],
        vec![None, Some(3)],
        vec![Some(3), None],
    ];
    assert_eq!(half(levels, false), vec!["▀▄", "▀ "]);
}

#[test]
fn half_blocks_colored_cells() {
    assert_eq!(half(vec![vec![Some(3)], vec![None]], true), vec!["\x1b[38;5;65m▀\x1b[0m"]);
    assert_eq!(half(vec![vec![None], vec![Some(3)]], true), vec!["\x1b[38;5;65m▄\x1b[0m"]);
    assert_eq!(
        half(vec![vec![Some(3)], vec![Some(5)]], true),
        vec!["\x1b[38;5;65m\x1b[48;5;130m▀\x1b[0m"]
    );
    let levels = vec![vec![Some(3), None, Some(3)], vec![None, Some(3), Some(3)]];
    assert_eq!(
        half(levels, true),
        vec!["\x1b[38;5;65m▀▄\x1b[0m\x1b[38;5;65m\x1b[48;5;65m▀\x1b[0m"]
    );
}

#[test]
fn half_block_stars_only_fill_empty_cells() {
    let levels = vec![vec![Some(3), None], vec![None, None]];
    let stars = vec![vec![Some('*'), Some('+')]];
    assert_eq!(
        render_half_block_rows(&levels, &stars, false, NEBULA, None),
        vec!["▀+"]
    );
    assert_eq!(
        render_half_block_rows(&levels, &stars, true, NEBULA, None),
        vec!["\x1b[38;5;65m▀\x1b[0m+"]
    );
}

#[test]
fn half_block_endpoint_frames_match_static_render() {
    let levels = vec![vec![None; 32], vec![None; 32]];
    let stars = vec![(0..32).map(|x| if x % 3 == 0 { Some('.') } else { None }).collect::<Vec<_>>()];
    let static_render = render_half_block_rows(&levels, &stars, false, NEBULA, None);
    for frame_index in [0u32, 5] {
        let frame = StarTwinkleFrame {
            scene_seed: 42,
            frame_index,
            frame_count: 6,
        };
        assert_eq!(
            render_half_block_rows(&levels, &stars, false, NEBULA, Some(frame)),
            static_render
        );
    }
}

#[test]
fn star_tiers_match_the_unit_interval_thresholds() {
    let scale = 1.0 / ((1_u64 << 53) as f64);
    let mut state = 0x1234_5678_9abc_def0_u64;
    let reference = |h: u64| {
        let r = ((h >> 11) as f64) * scale;
        if r < 0.0004 {
            Some('+')
        } else if r < 0.0022 {
            Some('*')
        } else if r < 0.0132 {
            Some('.')
        } else {
            None
        }
    };
    for _ in 0..20000 {
        state = state.wrapping_mul(6364136223846793005).wrapping_add(1442695040888963407);
        // Bias toward small hashes so every tier is exercised.
        let h = state >> (state % 8);
        assert_eq!(star_tier_for_hash(h), reference(h), "hash {h:#x}");
    }
    for k in [3602879701896_u64, 3602879701897, 19815838360430, 19815838360431, 118895030162581, 118895030162582] {
        let h = k << 11;
        assert_eq!(star_tier_for_hash(h), reference(h), "boundary {k}");
    }
}

#[test]
fn star_field_seed_matches_reference_fold() {
    let canvas = vec![vec![0.0, 0.25, 1.5], vec![-1.0, 0.5, 0.999]];
    let quantized: Vec<u64> = canvas
        .iter()
        .flatten()
        .map(|v: &f64| (v.clamp(0.0, 1.0) * 4096.0).round() as u64)
        .collect();
    let mut hash = 0xcbf29ce484222325_u64;
    for (i, q) in quantized.iter().enumerate() {
        hash ^= q.wrapping_add((i as u64).wrapping_mul(0x9e3779b97f4a7c15));
        hash = hash.wrapping_mul(0x100000001b3);
    }
    assert_eq!(star_field_seed_from_quantized(&quantized), hash);
    assert_eq!(star_field_seed_from_quantized(&[]), 0xcbf29ce484222325);
}

#[test]
fn quadrant_rows_pick_mask_glyphs() {
    let quad = |visible: Vec<Vec<bool>>| {
        let levels: Vec<Vec<Option<usize>>> =
            visible.iter().map(|row| row.iter().map(|&v| v.then_some(3)).collect()).collect();
        let width = levels.first().map_or(0, Vec::len).div_ceil(2);
        let stars = vec![vec![None; width]; levels.len().div_ceil(2)];
        render_quadrant_rows(&levels, &stars, false, NEBULA, None)
    };
    assert_eq!(quad(vec![vec![true, true, true, false], vec![false, false, true, false]]), vec!["▀▌"]);
    assert!(quad(Vec::new()).is_empty());
    let odd = vec![vec![true, false, true], vec![false, false, false], vec![false, true, false]];
    assert_eq!(quad(odd), vec!["▘▘", "▝ "]);
    assert_eq!(visibility_mask(true, false, true, true), 0b1101);
}

#[test]
fn shade_rows_reset_after_every_colored_cell() {
    let cells = vec![vec![
        RampCell::Galaxy { glyph: '▒', level: 3 },
        RampCell::Galaxy { glyph: '▒', level: 3 },
        RampCell::Sky { star: Some('.') },
        RampCell::Sky { star: None },
    ]];
    assert_eq!(
        render_shade_rows(&cells, true, NEBULA, None),
        vec!["\x1b[38;5;65m▒\x1b[0m\x1b[38;5;65m▒\x1b[0m. "]
    );
    assert_eq!(render_shade_rows(&cells, false, NEBULA, None), vec!["▒▒. "]);
}

#[test]
fn ascii_rows_group_runs_of_one_color() {
    let cells = vec![vec![
        RampCell::Galaxy { glyph: '=', level: 3 },
        RampCell::Galaxy { glyph: '+', level: 3 },
        RampCell::Galaxy { glyph: '#', level: 5 },
        RampCell::Sky { star: None },
    ]];
    assert_eq!(
        render_ascii_rows(&cells, true, NEBULA, None),
        vec!["\x1b[38;5;65m=+\x1b[0m\x1b[38;5;130m#\x1b[0m "]
    );
    assert_eq!(render_ascii_rows(&cells, false, NEBULA, None), vec!["=+# "]);
}

#[test]
fn starfield_cells_render_glyphs_and_colors() {
    let star = |x: usize, y: usize, glyph: char| {
        Some(StarCell {
            glyph,
            source_x: x,
            source_y: y,
            color: "\x1b[38;5;67m",
        })
    };
    let cells = vec![vec![star(0, 0, '*'), None, star(2, 0, '.')]];
    assert_eq!(render_star_cells(&cells, false, None), vec!["* ."]);
    assert_eq!(
        render_star_cells(&cells, true, None),
        vec!["\x1b[38;5;67m*\x1b[0m \x1b[38;5;67m.\x1b[0m"]
    );
    let endpoint = StarTwinkleFrame {
        scene_seed: 42,
        frame_index: 0,
        frame_count: 6,
    };
    assert_eq!(render_star_cells(&cells, false, Some(endpoint)), vec!["* ."]);
}

#[test]
fn colored_rows_are_as_wide_as_their_cells() {
    let levels = vec![
        vec![Some(0), None, Some(6), Some(2), None],
        vec![Some(1), Some(4), None, Some(2), None],
        vec![None, Some(5), Some(3), None, None],
    ];
    let stars = vec![vec![None, None, None, None, Some('*')]; 2];
    let frame = StarTwinkleFrame {
        scene_seed: 7,
        frame_index: 2,
        frame_count: 6,
    };
    for palette in [ColorPalette::Nebula, ColorPalette::Cividis, ColorPalette::Amber, ColorPalette::Mono] {
        for line in render_half_block_rows(&levels, &stars, true, palette, Some(frame)) {
            assert_eq!(visible_width(&line), 5);
        }
        let cells = vec![vec![
            RampCell::Galaxy { glyph: '=', level: 0 },
            RampCell::Galaxy { glyph: '+', level: 6 },
            RampCell::Sky { star: Some('.') },
            RampCell::Galaxy { glyph: '#', level: 6 },
        ]];
        assert_eq!(visible_width(&render_ascii_rows(&cells, true, palette, Some(frame))[0]), 4);
        assert_eq!(visible_width(&render_shade_rows(&cells, true, palette, Some(frame))[0]), 4);
    }
    let star = |x: usize, glyph: char| {
        Some(StarCell {
            glyph,
            source_x: x,
            source_y: 1,
            color: "\x1b[2;38;5;240m",
        })
    };
    let grid = vec![
        vec![None, star(1, '*'), None, None],
        vec![star(0, '+'), None, None, star(3, '.')],
        vec![None, None, star(2, '*'), None],
    ];
    for frame_index in 0..6 {
        let frame = StarTwinkleFrame {
            scene_seed: 99,
            frame_index,
            frame_count: 6,
        };
        for line in render_star_cells(&grid, true, Some(frame)) {
            assert_eq!(visible_width(&line), 4);
        }
    }
}

#[test]
fn star_hues_match_the_unit_interval_thresholds() {
    let scale = 1.0 / ((1_u64 << 53) as f64);
    let reference = |brightness: StarBrightness, h: u64| {
        let hue = ((h >> 11) as f64) * scale;
        match brightness {
            StarBrightness::Faint => StarHue::Low,
            StarBrightness::Medium => {
                if hue < 0.50 {
                    StarHue::Low
                } else {
                    StarHue::High
                }
            }
            StarBrightness::Bright => {
                if hue < 0.58 {
                    StarHue::Low
                } else if hue < 0.84 {
                    StarHue::Middle
                } else {
                    StarHue::High
                }
            }
        }
    };
    let mut state = 0x0dd_ba11_u64;
    let brightnesses = [StarBrightness::Faint, StarBrightness::Medium, StarBrightness::Bright];
    for _ in 0..20000 {
        state = state.wrapping_mul(6364136223846793005).wrapping_add(1442695040888963407);
        for b in brightnesses {
            assert_eq!(star_hue_for_hash(b, state), reference(b, state), "hash {state:#x}");
        }
    }
    for k in [
        4503599627370495_u64,
        4503599627370496,
        5224175567749774,
        5224175567749775,
        7566047373982432,
        7566047373982433,
    ] {
        let h = k << 11;
        for b in brightnesses {
            assert_eq!(star_hue_for_hash(b, h), reference(b, h), "boundary {k}");
        }
    }
}
