use astrofetch::seed::{derive_feature_seed, GenerationContext, ANIMATION_STAR_MOTION_V1, ANIMATION_STAR_TWINKLE_V1, SPIRAL_BAR_V1};

#[test]
fn test_generation_context_preserves_base_seed() {
    let context = GenerationContext::new(42);
    assert_eq!(context.base_seed(), 42);
    assert_eq!(
        context.feature_seed(SPIRAL_BAR_V1),
        derive_feature_seed(42, SPIRAL_BAR_V1)
    );
}

#[test]
fn test_feature_seed_fixed_anchors() {
    assert_eq!(derive_feature_seed(0, SPIRAL_BAR_V1), 0x51facbdfc907bb45);
    assert_eq!(derive_feature_seed(4, SPIRAL_BAR_V1), 0x78326439aca3a060);
    assert_eq!(derive_feature_seed(16, SPIRAL_BAR_V1), 0x9bcdc08f70035478);
    assert_eq!(derive_feature_seed(42, SPIRAL_BAR_V1), 0x13ca583ea0675dce);
}

#[test]
fn test_feature_seed_namespaces_are_independent() {
    let base_seed = 42;
    let bar = derive_feature_seed(base_seed, SPIRAL_BAR_V1);
    let other = derive_feature_seed(base_seed, "test/other/v1");

    assert_ne!(bar, other);
}

#[test]
fn test_feature_seed_changes_with_base_seed() {
    assert_ne!(
        derive_feature_seed(41, SPIRAL_BAR_V1),
        derive_feature_seed(42, SPIRAL_BAR_V1)
    );
}

#[test]
fn feature_seed_is_deterministic_across_calls() {
    for base in [0u64, 1, 42, u64::MAX] {
        assert_eq!(
            derive_feature_seed(base, ANIMATION_STAR_TWINKLE_V1),
            derive_feature_seed(base, ANIMATION_STAR_TWINKLE_V1)
        );
    }
}

#[test]
fn animation_namespaces_differ_from_each_other() {
    assert_ne!(
        derive_feature_seed(42, ANIMATION_STAR_TWINKLE_V1),
        derive_feature_seed(42, ANIMATION_STAR_MOTION_V1)
    );
}
