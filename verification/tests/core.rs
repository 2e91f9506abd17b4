use astrofetch::engine::{model_for_draw, ArtModel, ResolvedScene};
use astrofetch::error::AppError;
use astrofetch::hash::hash_cell;
use astrofetch::terminal::{validate_dimensions, visible_width, TerminalDimensions};

#[test]
fn visible_width_skips_csi_sequences() {
    assert_eq!(visible_width("plain"), 5);
    assert_eq!(visible_width("\x1b[38;5;17m▀▄█\x1b[0m"), 3);
    assert_eq!(visible_width(""), 0);
    assert_eq!(visible_width("\x1b[2K"), 0);
}

#[test]
fn dimensions_must_be_positive() {
    assert_eq!(validate_dimensions(0, 10), None);
    assert_eq!(validate_dimensions(10, 0), None);
    assert_eq!(
        validate_dimensions(80, 24),
        Some(TerminalDimensions {
            width: 80,
            height: 24
        })
    );
}

#[test]
fn hash_cell_is_a_pure_mix() {
    let h = hash_cell(3, 4, 5);
    assert_eq!(h, hash_cell(3, 4, 5));
    assert_ne!(h, hash_cell(4, 3, 5));
    assert_ne!(h, hash_cell(3, 4, 6));
}

#[test]
fn concrete_models_resolve_to_themselves() {
    for model in [ArtModel::Spiral, ArtModel::Elliptical, ArtModel::Cluster, ArtModel::Starfield] {
        assert_eq!(
            model.resolve_scene(Some(7)).unwrap(),
            ResolvedScene {
                resolved_model: model,
                seed: 7
            }
        );
    }
}

#[test]
fn random_model_resolves_reproducibly() {
    for seed in [4u64, 16, 42, 1000] {
        let first = ArtModel::Random.resolve_scene(Some(seed)).unwrap();
        let second = ArtModel::Random.resolve_scene(Some(seed)).unwrap();
        assert_eq!(first, second);
        assert_eq!(first.seed, seed);
        assert_ne!(first.resolved_model, ArtModel::Random);
    }
}

#[test]
fn random_model_frozen_table() {
    assert_eq!(ArtModel::Random.resolve_scene(Some(4)).unwrap().resolved_model, ArtModel::Spiral);
    assert_eq!(ArtModel::Random.resolve_scene(Some(16)).unwrap().resolved_model, ArtModel::Cluster);
    assert_eq!(ArtModel::Random.resolve_scene(Some(42)).unwrap().resolved_model, ArtModel::Starfield);
}

#[test]
fn missing_seed_still_resolves_to_a_concrete_model() {
    let scene = ArtModel::Random.resolve_scene(None).unwrap();
    assert_ne!(scene.resolved_model, ArtModel::Random);
}

#[test]
fn error_messages_have_their_prefixes() {
    assert_eq!(AppError::Cli("bad".to_string()).message(), "CLI error: bad");
    assert_eq!(AppError::Render("x".to_string()).message(), "failed to render art: x");
    assert_eq!(AppError::Interrupted.message(), "interrupted (Ctrl+C)");
    assert_eq!(AppError::Animation("io".to_string()).message(), "animation failed: io");
}

#[test]
fn test_resolve_scene_fixed_seed_model_resolution() {
    const RANDOM_RESOLUTION_FREEZE: &[(u64, ArtModel)] = &[
        (0, ArtModel::Cluster),
        (1, ArtModel::Cluster),
        (4, ArtModel::Spiral),
        (7, ArtModel::Elliptical),
        (16, ArtModel::Cluster),
        (42, ArtModel::Starfield),
        (100, ArtModel::Cluster),
        (999, ArtModel::Spiral),
        (12345, ArtModel::Spiral),
    ];
    for &(seed, expected) in RANDOM_RESOLUTION_FREEZE {
        let resolved = ArtModel::Random.resolve_scene(Some(seed)).unwrap();
        assert_eq!(
            resolved.resolved_model, expected,
            "Random seed {seed} deve resolver como o algoritmo legado"
        );
        assert_eq!(resolved.seed, seed);
    }

    for model in [ArtModel::Elliptical, ArtModel::Spiral, ArtModel::Cluster, ArtModel::Starfield] {
        for &(seed, _) in RANDOM_RESOLUTION_FREEZE {
            let resolved = model.resolve_scene(Some(seed)).unwrap();
            assert_eq!(resolved.resolved_model, model, "{model:?} seed {seed}");
            assert_eq!(resolved.seed, seed);
        }
    }
}

#[test]
fn resolving_again_with_the_drawn_seed_reproduces_the_scene() {
    let resolved = ArtModel::Random.resolve_scene(None).unwrap();
    let re_resolved = ArtModel::Random.resolve_scene(Some(resolved.seed)).unwrap();
    assert_eq!(re_resolved, resolved);
}

#[test]
fn draw_indices_map_to_the_concrete_models_in_order() {
    assert_eq!(model_for_draw(0), ArtModel::Starfield);
    assert_eq!(model_for_draw(1), ArtModel::Elliptical);
    assert_eq!(model_for_draw(2), ArtModel::Spiral);
    assert_eq!(model_for_draw(3), ArtModel::Cluster);
}
