use derky::{
    BlendStateKind, Command, DirectionalLight, DrawRun, Environment, FrameThrottle, ImageLight,
    Mat4, PointLight, SceneView, ShaderKind, TargetGroup, Vec2, Vec3,
};
use derky::pipeline::{plan_composition_pass, plan_frame, plan_geometry_pass, plan_lighting_pass};
use derky::generate_view_matrices;

fn scene_view() -> SceneView {
    let identity = Mat4 { m: [0u32; 16] };
    SceneView::new(identity, identity, Vec2::from_bits(1280f32.to_bits(), 720f32.to_bits()))
}

fn white() -> Vec3 {
    Vec3::from_bits(1.0f32.to_bits(), 1.0f32.to_bits(), 1.0f32.to_bits())
}

fn count_draws(cmds: &[Command]) -> usize {
    cmds.iter().filter(|c| matches!(c, Command::DrawIndexed { .. })).count()
}

fn lit_environment() -> Environment<()> {
    let mut env: Environment<()> = Environment::new(scene_view());
    env.directional_lights.push(DirectionalLight { intensity: white(), direction: white() });
    env.directional_lights.push(DirectionalLight { intensity: white(), direction: white() });
    env.point_lights.push(PointLight { intensity: white(), position: white() });
    env.point_lights.push(PointLight { intensity: white(), position: white() });
    env.point_lights.push(PointLight { intensity: white(), position: white() });
    env.image_light = Some(ImageLight { texture: (), intensity: 0.5f32.to_bits() });
    env
}

#[test]
fn throttled_frame_plans_nothing() {
    let env = lit_environment();
    let runs = vec![DrawRun { index_count: 36, material: Some(0) }];
    let throttle = FrameThrottle::new(33_333_333);
    let vm = generate_view_matrices(&env);
    let plan = plan_frame(&env, &vm, &runs, &throttle, 33_333_332);
    assert!(plan.is_empty());
    assert_eq!(count_draws(&plan), 0);
    assert!(!plan.contains(&Command::Present));
}

#[test]
fn full_frame_runs_all_passes_and_presents() {
    let env = lit_environment();
    let runs = vec![
        DrawRun { index_count: 36, material: Some(0) },
        DrawRun { index_count: 12, material: None },
    ];
    let throttle = FrameThrottle::new(33_333_333);
    let vm = generate_view_matrices(&env);
    let plan = plan_frame(&env, &vm, &runs, &throttle, 33_333_333);
    assert_eq!(plan.first(), Some(&Command::UpdateViewMatrices(vm)));
    assert_eq!(plan.last(), Some(&Command::Present));
    // Two model draws, six light draws, one composition draw.
    assert_eq!(count_draws(&plan), 2 + (2 + 3 + 1) + 1);
}

#[test]
fn geometry_pass_draws_once_per_run() {
    let runs = vec![
        DrawRun { index_count: 3, material: Some(1) },
        DrawRun { index_count: 6, material: None },
        DrawRun { index_count: 9, material: Some(0) },
    ];
    let cmds = plan_geometry_pass(&runs);
    assert_eq!(count_draws(&cmds), 3);
    assert_eq!(cmds[0], Command::ClearGBufferDepth);
    assert!(cmds.contains(&Command::BindTargets(TargetGroup::GBuffer)));
    assert!(cmds.contains(&Command::SetShaders(ShaderKind::Geometry)));
    assert!(cmds.contains(&Command::SetBlendState(BlendStateKind::AlphaBlend)));
    assert_eq!(cmds.last(), Some(&Command::ResetTargets));
    assert!(cmds.contains(&Command::DrawIndexed { index_count: 9 }));
}

#[test]
fn lighting_pass_draws_once_per_light() {
    let env = lit_environment();
    let cmds = plan_lighting_pass(&env);
    assert_eq!(count_draws(&cmds), 2 + 3 + 1);
    assert_eq!(cmds[0], Command::ClearLightingBuffer);
    assert!(cmds.contains(&Command::SetBlendState(BlendStateKind::TotallyAdditional)));
    assert!(cmds.contains(&Command::SetShaders(ShaderKind::ImageLighting)));
    assert!(cmds.contains(&Command::SetShaders(ShaderKind::DirectionalLighting)));
    assert!(cmds.contains(&Command::SetShaders(ShaderKind::PointLighting)));
}

#[test]
fn lighting_pass_without_lights_still_runs() {
    let env: Environment<()> = Environment::new(scene_view());
    let cmds = plan_lighting_pass(&env);
    assert_eq!(count_draws(&cmds), 0);
    assert_eq!(cmds[0], Command::ClearLightingBuffer);
    assert!(!cmds.contains(&Command::SetShaders(ShaderKind::ImageLighting)));
    assert!(cmds.contains(&Command::SetShaders(ShaderKind::DirectionalLighting)));
}

#[test]
fn composition_pass_draws_one_quad_and_reads_luminance() {
    let cmds = plan_composition_pass();
    assert_eq!(count_draws(&cmds), 1);
    assert_eq!(cmds[0], Command::ClearTarget);
    assert_eq!(cmds.last(), Some(&Command::ReadLuminance));
    assert!(cmds.contains(&Command::ZeroLuminanceBuffer));
    assert!(cmds.contains(&Command::BindTargets(TargetGroup::SwapchainWithLuminance)));
}

#[test]
fn throttle_gate_is_the_target_interval() {
    let throttle = FrameThrottle::new(1_000);
    assert!(!throttle.should_process(999));
    assert!(throttle.should_process(1_000));
    assert!(throttle.should_process(2_000));
}

#[test]
fn view_matrices_carry_the_scene_state() {
    let mut env = lit_environment();
    env.tick(1_500_000_000);
    env.update_luminance(0.25f32.to_bits());
    let vm = generate_view_matrices(&env);
    assert_eq!(vm.view, env.view.view_matrix);
    assert_eq!(vm.projection, env.view.projection_matrix);
    assert_eq!(vm.screen_time.0, 1280f32.to_bits());
    assert_eq!(vm.screen_time.1, 720f32.to_bits());
    assert_eq!(vm.screen_time.2, 1.5f32.to_bits());
    assert_eq!(vm.screen_time.3, 0);
    assert_eq!(vm.luminances.m[15], 0.25f32.to_bits());
}
