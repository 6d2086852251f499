use derky::{Environment, Mat4, SceneView, Vec2, LUMINANCE_SLOTS};

fn scene_view() -> SceneView {
    let identity = Mat4 { m: [0u32; 16] };
    SceneView::new(identity, identity, Vec2::from_bits(1280f32.to_bits(), 720f32.to_bits()))
}

#[test]
fn luminance_history_is_a_shift_register() {
    let mut env: Environment<()> = Environment::new(scene_view());
    for i in 1..=17u32 {
        env.update_luminance((i as f32).to_bits());
    }
    assert_eq!(env.luminance.len(), LUMINANCE_SLOTS);
    let expected: Vec<u32> = (2..=17u32).map(|i| (i as f32).to_bits()).collect();
    assert_eq!(env.luminance, expected);
}

#[test]
fn fresh_environment_is_dark_and_at_time_zero() {
    let env: Environment<()> = Environment::new(scene_view());
    assert_eq!(env.elapsed_nanos, 0);
    assert!(env.image_light.is_none());
    assert!(env.directional_lights.is_empty());
    assert!(env.point_lights.is_empty());
    assert_eq!(env.luminance, vec![0u32; LUMINANCE_SLOTS]);
    assert_eq!(env.ambient_light.intensity.x, 0);
}

#[test]
fn tick_accumulates_elapsed_time() {
    let mut env: Environment<()> = Environment::new(scene_view());
    env.tick(33_333_333);
    env.tick(16_666_667);
    assert_eq!(env.elapsed_nanos, 50_000_000);
}

#[test]
fn update_luminance_touches_nothing_else() {
    let mut env: Environment<()> = Environment::new(scene_view());
    env.tick(5);
    env.update_luminance(0x3f80_0000);
    assert_eq!(env.elapsed_nanos, 5);
    assert_eq!(env.luminance[LUMINANCE_SLOTS - 1], 0x3f80_0000);
    assert_eq!(env.luminance[LUMINANCE_SLOTS - 2], 0);
}
