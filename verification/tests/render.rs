use astrofetch::color::{galaxy_foreground_for_level, ColorPalette};
use astrofetch::engine::ArtModel;
use astrofetch::render::{
    glyph_for_half_block, maybe_twinkle_star, renderer_kind_for_model, sampling_shape_for,
    twinkle_star_glyph, EffectiveRenderer, RendererKind, StarTwinkleFrame, ASCII_GLYPHS,
    QUADRANT_GLYPHS, SHADE_GLYPHS,
};
use astrofetch::starfield::cardinal_destination;
use astrofetch::topology::CellSamplingShape;

#[test]
fn test_sampling_shape_spiral_quadrant_is_quadrant() {
    assert_eq!(
        sampling_shape_for(ArtModel::Spiral, EffectiveRenderer::Quadrant),
        CellSamplingShape::quadrant()
    );
}

#[test]
fn test_sampling_shape_all_other_valid_pairs_are_half_block() {
    let models = [
        ArtModel::Spiral,
        ArtModel::Elliptical,
        ArtModel::Cluster,
        ArtModel::Starfield,
    ];
    let renderers = [
        EffectiveRenderer::HalfBlock,
        EffectiveRenderer::Shade,
        EffectiveRenderer::Ascii,
        EffectiveRenderer::Starfield,
    ];
    for model in models {
        for renderer in renderers {
            assert_eq!(
                sampling_shape_for(model, renderer),
                CellSamplingShape::half_block(),
                "{model:?} + {renderer:?} must keep HALF_BLOCK"
            );
        }
    }
    assert_eq!(
        sampling_shape_for(ArtModel::Spiral, EffectiveRenderer::HalfBlock),
        CellSamplingShape::half_block()
    );
}

#[test]
fn test_twinkle_helper_is_deterministic_and_preserves_endpoints() {
    let base = Some('*');
    let first = twinkle_star_glyph(base, 42, 7, 3, 2, 6);
    let second = twinkle_star_glyph(base, 42, 7, 3, 2, 6);

    assert_eq!(first, second);
    assert_eq!(twinkle_star_glyph(base, 42, 7, 3, 0, 6), base);
    assert_eq!(twinkle_star_glyph(base, 42, 7, 3, 5, 6), base);
}

#[test]
fn test_twinkle_helper_never_invents_or_hides_stars() {
    for frame_index in 0..6 {
        assert_eq!(twinkle_star_glyph(None, 42, 0, 0, frame_index, 6), None);
        assert_eq!(
            twinkle_star_glyph(Some(' '), 42, 0, 0, frame_index, 6),
            Some(' ')
        );

        for base in ['.', '*', '+'] {
            let glyph = twinkle_star_glyph(Some(base), 42, 0, 0, frame_index, 6)
                .expect("existing star must remain present");
            assert!(
                matches!(glyph, '.' | '*' | '+'),
                "unexpected twinkle glyph {glyph:?}"
            );
        }
    }
}

#[test]
fn test_twinkle_helper_uses_asynchronous_per_star_phases() {
    let outputs: Vec<Option<char>> = (0..64)
        .map(|x| twinkle_star_glyph(Some('*'), 42, x, 0, 1, 6))
        .collect();

    assert!(
        outputs.windows(2).any(|pair| pair[0] != pair[1]),
        "different star coordinates must not all blink in lockstep"
    );
}

#[test]
fn test_twinkle_helper_changes_a_controlled_intermediate_tier() {
    let changed = (0..64).any(|x| twinkle_star_glyph(Some('.'), 42, x, 0, 1, 6) != Some('.'));

    assert!(changed, "the deterministic fixture must visibly twinkle");
}

#[test]
fn twinkle_keeps_non_star_glyphs() {
    for frame_index in 0..6 {
        assert_eq!(twinkle_star_glyph(Some('#'), 42, 3, 4, frame_index, 6), Some('#'));
        assert_eq!(twinkle_star_glyph(Some('█'), 7, 0, 9, frame_index, 6), Some('█'));
    }
}

#[test]
fn twinkle_moves_a_star_at_most_one_tier() {
    let tier = |c: char| match c {
        '.' => 0i32,
        '*' => 1,
        '+' => 2,
        other => panic!("not a star tier: {other:?}"),
    };
    for x in 0..32 {
        for frame_index in 0..6 {
            for base in ['.', '*', '+'] {
                let glyph = twinkle_star_glyph(Some(base), 9, x, 2, frame_index, 6).unwrap();
                assert!((tier(glyph) - tier(base)).abs() <= 1);
            }
        }
    }
}

#[test]
fn twinkle_with_short_sequences_is_static() {
    for x in 0..16 {
        assert_eq!(twinkle_star_glyph(Some('*'), 42, x, 0, 0, 1), Some('*'));
        assert_eq!(twinkle_star_glyph(Some('*'), 42, x, 0, 1, 2), Some('*'));
        assert_eq!(twinkle_star_glyph(Some('+'), 42, x, 0, 0, 0), Some('+'));
    }
}

#[test]
fn maybe_twinkle_without_frame_returns_base() {
    assert_eq!(maybe_twinkle_star(Some('.'), 1, 2, None), Some('.'));
    assert_eq!(maybe_twinkle_star(None, 1, 2, None), None);
    let frame = StarTwinkleFrame {
        scene_seed: 42,
        frame_index: 2,
        frame_count: 6,
    };
    assert_eq!(
        maybe_twinkle_star(Some('*'), 7, 3, Some(frame)),
        twinkle_star_glyph(Some('*'), 42, 7, 3, 2, 6)
    );
}

#[test]
fn half_block_glyphs_follow_visibility() {
    assert_eq!(glyph_for_half_block(true, true), '█');
    assert_eq!(glyph_for_half_block(true, false), '▀');
    assert_eq!(glyph_for_half_block(false, true), '▄');
    assert_eq!(glyph_for_half_block(false, false), ' ');
}

#[test]
fn renderer_kind_matches_model_family() {
    assert_eq!(renderer_kind_for_model(ArtModel::Starfield), RendererKind::Starfield);
    for model in [ArtModel::Spiral, ArtModel::Elliptical, ArtModel::Cluster] {
        assert_eq!(renderer_kind_for_model(model), RendererKind::Shade);
    }
}

#[test]
fn test_ascii_glyphs_const_is_correct() {
    assert_eq!(ASCII_GLYPHS.len(), 9);
    assert_eq!(ASCII_GLYPHS[0], '.');
    assert_eq!(ASCII_GLYPHS[8], '@');
}

#[test]
fn test_shade_glyphs_const_is_correct() {
    assert_eq!(SHADE_GLYPHS.len(), 4);
    assert_eq!(SHADE_GLYPHS[0], '░');
    assert_eq!(SHADE_GLYPHS[1], '▒');
    assert_eq!(SHADE_GLYPHS[2], '▓');
    assert_eq!(SHADE_GLYPHS[3], '█');
}

#[test]
fn test_glyph_table_pins_all_16_masks() {
    let pinned: [(u8, char, u32); 16] = [
        (0b0000, ' ', 0x0020),
        (0b0001, '▘', 0x2598),
        (0b0010, '▝', 0x259D),
        (0b0011, '▀', 0x2580),
        (0b0100, '▖', 0x2596),
        (0b0101, '▌', 0x258C),
        (0b0110, '▞', 0x259E),
        (0b0111, '▛', 0x259B),
        (0b1000, '▗', 0x2597),
        (0b1001, '▚', 0x259A),
        (0b1010, '▐', 0x2590),
        (0b1011, '▜', 0x259C),
        (0b1100, '▄', 0x2584),
        (0b1101, '▙', 0x2599),
        (0b1110, '▟', 0x259F),
        (0b1111, '█', 0x2588),
    ];

    assert_eq!(QUADRANT_GLYPHS.len(), 16);
    for (mask, expected_char, expected_codepoint) in pinned {
        assert_eq!(
            QUADRANT_GLYPHS[mask as usize], expected_char,
            "mask {mask:04b} glyph mismatch"
        );
        assert_eq!(
            QUADRANT_GLYPHS[mask as usize] as u32, expected_codepoint,
            "mask {mask:04b} code point mismatch"
        );
    }
}

#[test]
fn test_starfield_motion_rejects_edge_destinations() {
    assert_eq!(cardinal_destination(0, 0, 0, 4, 4), None);
    assert_eq!(cardinal_destination(0, 0, 3, 4, 4), None);
    assert_eq!(cardinal_destination(3, 3, 1, 4, 4), None);
    assert_eq!(cardinal_destination(3, 3, 2, 4, 4), None);
    assert_eq!(cardinal_destination(0, 0, 1, 4, 4), Some((1, 0)));
    assert_eq!(cardinal_destination(0, 0, 2, 4, 4), Some((0, 1)));
}

#[test]
fn test_color_palette_is_copy() {
    let palette = ColorPalette::Nebula;
    let cloned = palette;
    assert_eq!(palette, cloned);
}

#[test]
fn test_color_palette_is_eq() {
    assert_eq!(ColorPalette::Nebula, ColorPalette::Nebula);
    assert_eq!(ColorPalette::Cividis, ColorPalette::Cividis);
    assert_eq!(ColorPalette::Amber, ColorPalette::Amber);
    assert_eq!(ColorPalette::Mono, ColorPalette::Mono);
}

#[test]
fn galaxy_foreground_levels_match_palette_ramps() {
    let nebula = [
        "\x1b[2;38;5;17m",
        "\x1b[2;38;5;24m",
        "\x1b[38;5;30m",
        "\x1b[38;5;65m",
        "\x1b[38;5;136m",
        "\x1b[38;5;130m",
        "\x1b[38;5;255m",
    ];
    let mono = [
        "\x1b[2;38;5;236m",
        "\x1b[2;38;5;239m",
        "\x1b[38;5;242m",
        "\x1b[38;5;245m",
        "\x1b[38;5;248m",
        "\x1b[38;5;252m",
        "\x1b[38;5;255m",
    ];
    for level in 0..7 {
        assert_eq!(galaxy_foreground_for_level(ColorPalette::Nebula, level), nebula[level]);
        assert_eq!(galaxy_foreground_for_level(ColorPalette::Mono, level), mono[level]);
    }
}
