//! The render pipeline orchestrator: each frame is the fixed three-pass
//! sequence — geometry, lighting, composition — planned as an explicit
//! command list against an abstract graphics context. Every pass always
//! runs; the lights and materials determine what is drawn, never whether a
//! pass runs. A frame below the throttle interval plans nothing.

use crate::environment::{
    elapsed_seconds_bits, inverted_of, mat4_inverted, seconds_bits_of, DirectionalLight,
    Environment, Mat4, PointLight, LUMINANCE_SLOTS,
};
use crate::vector::Vec3;
use vstd::prelude::*;

verus! {

/// How many color layers the geometry buffer holds.
pub const G_BUFFER_LAYERS: usize = 4;

/// How many indices the full-screen quad is drawn with.
pub const SCREEN_QUAD_INDEX_COUNT: usize = 6;

/// Primitive topology of a draw.
#[derive(Clone, Copy, Debug, PartialEq, Eq, Hash, PartialOrd, Ord)]
pub enum Topology {
    Points,
    Lines,
    LinesStrip,
    Triangles,
    TrianglesStrip,
}

/// The shader pair a pass binds.
#[derive(Clone, Copy, Debug, PartialEq, Eq, Hash, PartialOrd, Ord)]
pub enum ShaderKind {
    Screen,
    Geometry,
    DirectionalLighting,
    ImageLighting,
    PointLighting,
    AmbientLighting,
}

/// The blend state a pass binds.
#[derive(Clone, Copy, Debug, PartialEq, Eq, Hash, PartialOrd, Ord)]
pub enum BlendStateKind {
    AlphaBlend,
    TotallyAdditional,
}

/// The draw targets a pass binds as one atomic set.
#[derive(Clone, Copy, Debug, PartialEq, Eq)]
pub enum TargetGroup {
    /// All geometry-buffer layers with their depth buffer.
    GBuffer,
    /// The lighting accumulation buffer alone, without depth.
    LightingBuffer,
    /// The swapchain target with its depth buffer and the luminance
    /// read-write buffer.
    SwapchainWithLuminance,
}

/// A texture an input slot is bound to.
#[derive(Clone, Copy, Debug, PartialEq, Eq)]
pub enum TextureId {
    /// One color layer of the geometry buffer.
    GBufferColor(usize),
    /// The geometry buffer's depth texture.
    GBufferDepth,
    /// The lighting accumulation buffer.
    LightingBuffer,
    /// The image-based light's texture.
    ImageLight,
    /// The material texture of one vertex group of the model.
    ModelMaterial(usize),
}

/// The shader stage a constant buffer is bound to.
#[derive(Clone, Copy, Debug, PartialEq, Eq)]
pub enum StageSlot {
    VertexStage,
    PixelStage,
}

/// A constant buffer.
#[derive(Clone, Copy, Debug, PartialEq, Eq)]
pub enum BufferId {
    /// View and projection matrices, screen size, time and luminance
    /// history.
    ViewMatrices,
    /// The per-light parameter block.
    LightParameters,
    /// The model transform.
    ModelMatrix,
}

/// The parameters written into the light constant buffer for one light.
#[derive(Clone, Copy, Debug, PartialEq, Eq)]
pub enum LightParameters {
    Directional { intensity: Vec3, direction: Vec3 },
    Point { intensity: Vec3, position: Vec3 },
    Image { intensity: u32 },
}

/// The per-frame view constants the shaders read: the view and projection
/// matrices with their inverses, the screen size and elapsed seconds, and
/// the luminance history packed as a matrix.
#[derive(Clone, Copy, Debug, PartialEq, Eq)]
pub struct ViewMatrices {
    pub view: Mat4,
    pub projection: Mat4,
    pub view_inv: Mat4,
    pub projection_inv: Mat4,
    pub screen_time: (u32, u32, u32, u32),
    pub luminances: Mat4,
}

/// One abstract graphics-context operation of a frame.
#[derive(Clone, Copy, Debug, PartialEq, Eq)]
pub enum Command {
    UpdateViewMatrices(ViewMatrices),
    ClearGBufferDepth,
    ClearGBufferTarget(usize),
    ClearLightingBuffer,
    ClearTarget,
    ClearTargetDepth,
    ZeroLuminanceBuffer,
    BindTargets(TargetGroup),
    ResetTargets,
    SetBlendState(BlendStateKind),
    SetViewport,
    SetSampler(usize),
    SetShaders(ShaderKind),
    SetConstantBuffer { stage: StageSlot, slot: usize, buffer: BufferId },
    UpdateLightParameters(LightParameters),
    SetTexture { slot: usize, texture: Option<TextureId> },
    SetModelVertices { group: usize, topology: Topology },
    SetScreenVertices { topology: Topology },
    DrawIndexed { index_count: usize },
    ReadLuminance,
    Present,
}

/// One draw run of a model: the index count of its vertex group and the
/// material mapped to it, as `Model::material_mapping` holds it.
#[derive(Clone, Copy, Debug, PartialEq, Eq)]
pub struct DrawRun {
    pub index_count: usize,
    pub material: Option<usize>,
}

/// How many indexed draws a command list issues.
pub open spec fn count_draws(cmds: Seq<Command>) -> nat
    decreases cmds.len(),
{
    if cmds.len() == 0 {
        0
    } else {
        (match cmds[0] {
            Command::DrawIndexed { .. } => 1nat,
            _ => 0nat,
        }) + count_draws(cmds.skip(1))
    }
}

/// Draw counts add over concatenation.
pub proof fn lemma_count_draws_add(a: Seq<Command>, b: Seq<Command>)
    ensures
        count_draws(a + b) == count_draws(a) + count_draws(b),
    decreases a.len(),
{
    if a.len() == 0 {
        assert(a + b =~= b);
    } else {
        lemma_count_draws_add(a.skip(1), b);
        assert((a + b).skip(1) =~= a.skip(1) + b);
        assert((a + b)[0] == a[0]);
    }
}

// ---------------------------------------------------------------------------
// Geometry pass
// ---------------------------------------------------------------------------
/// The fixed opening of the geometry pass: clear the geometry buffer and its
/// depth, bind it, and set up blending, shaders, constants and the sampler.
pub open spec fn geometry_prelude() -> Seq<Command> {
    seq![
        Command::ClearGBufferDepth,
        Command::ClearGBufferTarget(0),
        Command::ClearGBufferTarget(1),
        Command::ClearGBufferTarget(2),
        Command::ClearGBufferTarget(3),
        Command::BindTargets(TargetGroup::GBuffer),
        Command::SetBlendState(BlendStateKind::AlphaBlend),
        Command::SetViewport,
        Command::SetShaders(ShaderKind::Geometry),
        Command::SetConstantBuffer {
            stage: StageSlot::VertexStage,
            slot: 0,
            buffer: BufferId::ViewMatrices,
        },
        Command::SetConstantBuffer {
            stage: StageSlot::VertexStage,
            slot: 1,
            buffer: BufferId::ModelMatrix,
        },
        Command::SetConstantBuffer {
            stage: StageSlot::PixelStage,
            slot: 0,
            buffer: BufferId::ViewMatrices,
        },
        Command::SetConstantBuffer {
            stage: StageSlot::PixelStage,
            slot: 1,
            buffer: BufferId::ModelMatrix,
        },
        Command::SetSampler(0),
    ]
}

/// One draw run: bind its material texture, bind its vertex group, draw it.
pub open spec fn run_commands(k: int, run: DrawRun) -> Seq<Command> {
    seq![
        Command::SetTexture {
            slot: 0,
            texture: match run.material {
                Some(m) => Some(TextureId::ModelMaterial(m)),
                None => None,
            },
        },
        Command::SetModelVertices { group: k as usize, topology: Topology::Triangles },
        Command::DrawIndexed { index_count: run.index_count },
    ]
}

/// The draws of the runs from `k` on, in order.
pub open spec fn runs_commands(runs: Seq<DrawRun>, k: int) -> Seq<Command>
    decreases runs.len() - k,
{
    if k < 0 || k >= runs.len() {
        Seq::<Command>::empty()
    } else {
        run_commands(k, runs[k]) + runs_commands(runs, k + 1)
    }
}

/// The whole geometry pass: the fixed opening, one draw per run in model
/// order, and the target reset.
pub open spec fn spec_geometry_commands(runs: Seq<DrawRun>) -> Seq<Command> {
    geometry_prelude() + runs_commands(runs, 0) + seq![Command::ResetTargets]
}

/// The geometry pass issues exactly one draw per run.
pub proof fn lemma_geometry_draw_count(runs: Seq<DrawRun>)
    ensures
        count_draws(spec_geometry_commands(runs)) == runs.len(),
{
    reveal_with_fuel(count_draws, 8);
    lemma_count_draws_literal_zero(geometry_prelude());
    lemma_runs_draw_count(runs, 0);
    lemma_count_draws_add(geometry_prelude(), runs_commands(runs, 0));
    lemma_count_draws_add(geometry_prelude() + runs_commands(runs, 0), seq![Command::ResetTargets]);
    assert(count_draws(seq![Command::ResetTargets]) == 0) by {
        assert(seq![Command::ResetTargets].skip(1) =~= Seq::<Command>::empty());
    }
}

proof fn lemma_runs_draw_count(runs: Seq<DrawRun>, k: int)
    requires
        0 <= k <= runs.len(),
    ensures
        count_draws(runs_commands(runs, k)) == runs.len() - k,
    decreases runs.len() - k,
{
    reveal_with_fuel(count_draws, 8);
    if k < runs.len() {
        lemma_runs_draw_count(runs, k + 1);
        lemma_count_draws_add(run_commands(k, runs[k]), runs_commands(runs, k + 1));
        let rc = run_commands(k, runs[k]);
        assert(count_draws(rc) == 1) by {
            assert(rc.skip(1).skip(1).skip(1) =~= Seq::<Command>::empty());
            assert(rc.skip(1)[0] == rc[1]);
            assert(rc.skip(1).skip(1)[0] == rc[2]);
        }
    }
}

/// A command list without draws counts zero; proved for the fixed preludes.
proof fn lemma_count_draws_literal_zero(cmds: Seq<Command>)
    requires
        forall|i: int|
            0 <= i < cmds.len() ==> !(#[trigger] cmds[i] matches Command::DrawIndexed { .. }),
    ensures
        count_draws(cmds) == 0,
    decreases cmds.len(),
{
    if cmds.len() > 0 {
        assert forall|i: int|
            0 <= i < cmds.skip(1).len() implies !(#[trigger] cmds.skip(1)[i] matches Command::DrawIndexed { .. }) by {
            assert(cmds.skip(1)[i] == cmds[i + 1]);
        }
        lemma_count_draws_literal_zero(cmds.skip(1));
    }
}

/// Plans the geometry pass over the model's draw runs.
pub fn plan_geometry_pass(runs: &Vec<DrawRun>) -> (r: Vec<Command>)
    ensures
        r@ == spec_geometry_commands(runs@),
{
    let mut out: Vec<Command> = Vec::new();
    out.push(Command::ClearGBufferDepth);
    out.push(Command::ClearGBufferTarget(0));
    out.push(Command::ClearGBufferTarget(1));
    out.push(Command::ClearGBufferTarget(2));
    out.push(Command::ClearGBufferTarget(3));
    out.push(Command::BindTargets(TargetGroup::GBuffer));
    out.push(Command::SetBlendState(BlendStateKind::AlphaBlend));
    out.push(Command::SetViewport);
    out.push(Command::SetShaders(ShaderKind::Geometry));
    out.push(
        Command::SetConstantBuffer {
            stage: StageSlot::VertexStage,
            slot: 0,
            buffer: BufferId::ViewMatrices,
        },
    );
    out.push(
        Command::SetConstantBuffer {
            stage: StageSlot::VertexStage,
            slot: 1,
            buffer: BufferId::ModelMatrix,
        },
    );
    out.push(
        Command::SetConstantBuffer {
            stage: StageSlot::PixelStage,
            slot: 0,
            buffer: BufferId::ViewMatrices,
        },
    );
    out.push(
        Command::SetConstantBuffer {
            stage: StageSlot::PixelStage,
            slot: 1,
            buffer: BufferId::ModelMatrix,
        },
    );
    out.push(Command::SetSampler(0));
    proof {
        assert(out@ =~= geometry_prelude());
    }
    let mut k: usize = 0;
    while k < runs.len()
        invariant
            0 <= k <= runs@.len(),
            out@ + runs_commands(runs@, k as int) =~= geometry_prelude() + runs_commands(runs@, 0),
        decreases runs@.len() - k,
    {
        let run = runs[k];
        let ghost prev = out@;
        out.push(
            Command::SetTexture {
                slot: 0,
                texture: match run.material {
                    Some(m) => Some(TextureId::ModelMaterial(m)),
                    None => None,
                },
            },
        );
        out.push(Command::SetModelVertices { group: k, topology: Topology::Triangles });
        out.push(Command::DrawIndexed { index_count: run.index_count });
        proof {
            assert(out@ =~= prev + run_commands(k as int, runs@[k as int]));
        }
        k = k + 1;
    }
    proof {
        assert(runs_commands(runs@, k as int) =~= Seq::<Command>::empty());
        assert(out@ =~= geometry_prelude() + runs_commands(runs@, 0));
    }
    out.push(Command::ResetTargets);
    proof {
        assert(out@ =~= spec_geometry_commands(runs@));
    }
    out
}

// ---------------------------------------------------------------------------
// Lighting pass
// ---------------------------------------------------------------------------
/// The fixed opening of the lighting pass: clear and bind the lighting
/// buffer, additive blending, the geometry buffer as input, and the screen
/// quad.
pub open spec fn lighting_prelude() -> Seq<Command> {
    seq![
        Command::ClearLightingBuffer,
        Command::BindTargets(TargetGroup::LightingBuffer),
        Command::SetBlendState(BlendStateKind::TotallyAdditional),
        Command::SetViewport,
        Command::SetSampler(0),
        Command::SetTexture { slot: 0, texture: Some(TextureId::GBufferColor(0)) },
        Command::SetTexture { slot: 1, texture: Some(TextureId::GBufferColor(1)) },
        Command::SetTexture { slot: 2, texture: Some(TextureId::GBufferColor(2)) },
        Command::SetTexture { slot: 3, texture: Some(TextureId::GBufferColor(3)) },
        Command::SetConstantBuffer {
            stage: StageSlot::VertexStage,
            slot: 0,
            buffer: BufferId::ViewMatrices,
        },
        Command::SetConstantBuffer {
            stage: StageSlot::PixelStage,
            slot: 0,
            buffer: BufferId::ViewMatrices,
        },
        Command::SetScreenVertices { topology: Topology::Triangles },
    ]
}

/// One full-screen draw for one light's parameters.
pub open spec fn light_draw_commands(params: LightParameters) -> Seq<Command> {
    seq![
        Command::UpdateLightParameters(params),
        Command::SetConstantBuffer {
            stage: StageSlot::PixelStage,
            slot: 1,
            buffer: BufferId::LightParameters,
        },
        Command::DrawIndexed { index_count: SCREEN_QUAD_INDEX_COUNT },
    ]
}

/// The image-based light section: one draw where an image light is set,
/// nothing otherwise.
pub open spec fn image_commands(image: Option<u32>) -> Seq<Command> {
    match image {
        Some(intensity) => seq![Command::SetShaders(ShaderKind::ImageLighting)]
            + light_draw_commands(LightParameters::Image { intensity }).insert(
            2,
            Command::SetTexture { slot: 3, texture: Some(TextureId::ImageLight) },
        ),
        None => Seq::<Command>::empty(),
    }
}

/// The directional-light draws from `k` on.
pub open spec fn directional_commands(lights: Seq<DirectionalLight>, k: int) -> Seq<Command>
    decreases lights.len() - k,
{
    if k < 0 || k >= lights.len() {
        Seq::<Command>::empty()
    } else {
        light_draw_commands(
            LightParameters::Directional {
                intensity: lights[k].intensity,
                direction: lights[k].direction,
            },
        ) + directional_commands(lights, k + 1)
    }
}

/// The point-light draws from `k` on.
pub open spec fn point_commands(lights: Seq<PointLight>, k: int) -> Seq<Command>
    decreases lights.len() - k,
{
    if k < 0 || k >= lights.len() {
        Seq::<Command>::empty()
    } else {
        light_draw_commands(
            LightParameters::Point {
                intensity: lights[k].intensity,
                position: lights[k].position,
            },
        ) + point_commands(lights, k + 1)
    }
}

/// The fixed closing of the lighting pass: release targets and inputs.
pub open spec fn lighting_postlude() -> Seq<Command> {
    seq![
        Command::ResetTargets,
        Command::SetTexture { slot: 0, texture: None },
        Command::SetTexture { slot: 1, texture: None },
        Command::SetTexture { slot: 2, texture: None },
        Command::SetTexture { slot: 3, texture: None },
    ]
}

/// The whole lighting pass: the opening, the light categories in their
/// fixed order — image-based, directional, point — and the closing. Each
/// single light is one full-screen draw.
pub open spec fn spec_lighting_commands(
    dirs: Seq<DirectionalLight>,
    points: Seq<PointLight>,
    image: Option<u32>,
) -> Seq<Command> {
    lighting_prelude() + image_commands(image) + (seq![
        Command::SetShaders(ShaderKind::DirectionalLighting),
    ] + directional_commands(dirs, 0)) + (seq![Command::SetShaders(ShaderKind::PointLighting)]
        + point_commands(points, 0)) + lighting_postlude()
}

/// The intensity of the scene's image-based light, if one is set.
pub open spec fn spec_image_intensity<T>(env: Environment<T>) -> Option<u32> {
    match env.image_light {
        Some(light) => Some(light.intensity),
        None => None,
    }
}

/// The lighting pass issues exactly one draw per light: one per directional
/// light, one per point light, and one for the image-based light where it
/// is set.
pub proof fn lemma_lighting_draw_count(
    dirs: Seq<DirectionalLight>,
    points: Seq<PointLight>,
    image: Option<u32>,
)
    ensures
        count_draws(spec_lighting_commands(dirs, points, image)) == dirs.len() + points.len() + (
        match image {
            Some(_) => 1nat,
            None => 0nat,
        }),
{
    reveal_with_fuel(count_draws, 8);
    let pre = lighting_prelude();
    let img = image_commands(image);
    let dsec = seq![Command::SetShaders(ShaderKind::DirectionalLighting)] + directional_commands(
        dirs,
        0,
    );
    let psec = seq![Command::SetShaders(ShaderKind::PointLighting)] + point_commands(points, 0);
    let post = lighting_postlude();
    lemma_count_draws_literal_zero(pre);
    lemma_count_draws_literal_zero(post);
    assert(count_draws(img) == (match image {
        Some(_) => 1nat,
        None => 0nat,
    })) by {
        if image is Some {
            lemma_count_draws_single_light(img);
        }
    }
    lemma_directional_draw_count(dirs, 0);
    lemma_point_draw_count(points, 0);
    lemma_count_draws_add(seq![Command::SetShaders(ShaderKind::DirectionalLighting)],
        directional_commands(dirs, 0));
    assert(count_draws(seq![Command::SetShaders(ShaderKind::DirectionalLighting)]) == 0) by {
        assert(seq![Command::SetShaders(ShaderKind::DirectionalLighting)].skip(1)
            =~= Seq::<Command>::empty());
    }
    lemma_count_draws_add(seq![Command::SetShaders(ShaderKind::PointLighting)],
        point_commands(points, 0));
    assert(count_draws(seq![Command::SetShaders(ShaderKind::PointLighting)]) == 0) by {
        assert(seq![Command::SetShaders(ShaderKind::PointLighting)].skip(1)
            =~= Seq::<Command>::empty());
    }
    lemma_count_draws_add(pre, img);
    lemma_count_draws_add(pre + img, dsec);
    lemma_count_draws_add(pre + img + dsec, psec);
    lemma_count_draws_add(pre + img + dsec + psec, post);
}

/// A five-command section holding exactly one draw, as the image-light
/// section is laid out.
proof fn lemma_count_draws_single_light(cmds: Seq<Command>)
    requires
        cmds.len() == 5,
        forall|i: int|
            0 <= i < 5 && i != 4 ==> !(#[trigger] cmds[i] matches Command::DrawIndexed { .. }),
        cmds[4] matches Command::DrawIndexed { .. },
    ensures
        count_draws(cmds) == 1,
{
    reveal_with_fuel(count_draws, 8);
    assert(cmds.skip(1)[0] == cmds[1]);
    assert(cmds.skip(1).skip(1)[0] == cmds[2]);
    assert(cmds.skip(1).skip(1).skip(1)[0] == cmds[3]);
    assert(cmds.skip(1).skip(1).skip(1).skip(1)[0] == cmds[4]);
    assert(cmds.skip(1).skip(1).skip(1).skip(1).skip(1) =~= Seq::<Command>::empty());
}

proof fn lemma_light_draw_commands_one(params: LightParameters)
    ensures
        count_draws(light_draw_commands(params)) == 1,
{
    reveal_with_fuel(count_draws, 8);
    let c = light_draw_commands(params);
    assert(c.skip(1)[0] == c[1]);
    assert(c.skip(1).skip(1)[0] == c[2]);
    assert(c.skip(1).skip(1).skip(1) =~= Seq::<Command>::empty());
}

proof fn lemma_directional_draw_count(lights: Seq<DirectionalLight>, k: int)
    requires
        0 <= k <= lights.len(),
    ensures
        count_draws(directional_commands(lights, k)) == lights.len() - k,
    decreases lights.len() - k,
{
    if k < lights.len() {
        lemma_directional_draw_count(lights, k + 1);
        let params = LightParameters::Directional {
            intensity: lights[k].intensity,
            direction: lights[k].direction,
        };
        lemma_light_draw_commands_one(params);
        lemma_count_draws_add(light_draw_commands(params), directional_commands(lights, k + 1));
    }
}

proof fn lemma_point_draw_count(lights: Seq<PointLight>, k: int)
    requires
        0 <= k <= lights.len(),
    ensures
        count_draws(point_commands(lights, k)) == lights.len() - k,
    decreases lights.len() - k,
{
    if k < lights.len() {
        lemma_point_draw_count(lights, k + 1);
        let params = LightParameters::Point {
            intensity: lights[k].intensity,
            position: lights[k].position,
        };
        lemma_light_draw_commands_one(params);
        lemma_count_draws_add(light_draw_commands(params), point_commands(lights, k + 1));
    }
}

/// Plans the lighting pass over the scene's lights.
pub fn plan_lighting_pass<T>(env: &Environment<T>) -> (r: Vec<Command>)
    ensures
        r@ == spec_lighting_commands(
            env.directional_lights@,
            env.point_lights@,
            spec_image_intensity(*env),
        ),
{
    let mut out: Vec<Command> = Vec::new();
    out.push(Command::ClearLightingBuffer);
    out.push(Command::BindTargets(TargetGroup::LightingBuffer));
    out.push(Command::SetBlendState(BlendStateKind::TotallyAdditional));
    out.push(Command::SetViewport);
    out.push(Command::SetSampler(0));
    out.push(Command::SetTexture { slot: 0, texture: Some(TextureId::GBufferColor(0)) });
    out.push(Command::SetTexture { slot: 1, texture: Some(TextureId::GBufferColor(1)) });
    out.push(Command::SetTexture { slot: 2, texture: Some(TextureId::GBufferColor(2)) });
    out.push(Command::SetTexture { slot: 3, texture: Some(TextureId::GBufferColor(3)) });
    out.push(
        Command::SetConstantBuffer {
            stage: StageSlot::VertexStage,
            slot: 0,
            buffer: BufferId::ViewMatrices,
        },
    );
    out.push(
        Command::SetConstantBuffer {
            stage: StageSlot::PixelStage,
            slot: 0,
            buffer: BufferId::ViewMatrices,
        },
    );
    out.push(Command::SetScreenVertices { topology: Topology::Triangles });
    proof {
        assert(out@ =~= lighting_prelude());
    }
    match &env.image_light {
        Some(light) => {
            out.push(Command::SetShaders(ShaderKind::ImageLighting));
            out.push(
                Command::UpdateLightParameters(
                    LightParameters::Image { intensity: light.intensity },
                ),
            );
            out.push(
                Command::SetConstantBuffer {
                    stage: StageSlot::PixelStage,
                    slot: 1,
                    buffer: BufferId::LightParameters,
                },
            );
            out.push(Command::SetTexture { slot: 3, texture: Some(TextureId::ImageLight) });
            out.push(Command::DrawIndexed { index_count: SCREEN_QUAD_INDEX_COUNT });
        },
        None => {},
    }
    proof {
        assert(out@ =~= lighting_prelude() + image_commands(spec_image_intensity(*env)));
    }
    let ghost after_image = out@;
    out.push(Command::SetShaders(ShaderKind::DirectionalLighting));
    let mut k: usize = 0;
    while k < env.directional_lights.len()
        invariant
            0 <= k <= env.directional_lights@.len(),
            out@ + directional_commands(env.directional_lights@, k as int) =~= after_image + (seq![
                Command::SetShaders(ShaderKind::DirectionalLighting),
            ] + directional_commands(env.directional_lights@, 0)),
        decreases env.directional_lights@.len() - k,
    {
        let light = env.directional_lights[k];
        let ghost prev = out@;
        out.push(
            Command::UpdateLightParameters(
                LightParameters::Directional {
                    intensity: light.intensity,
                    direction: light.direction,
                },
            ),
        );
        out.push(
            Command::SetConstantBuffer {
                stage: StageSlot::PixelStage,
                slot: 1,
                buffer: BufferId::LightParameters,
            },
        );
        out.push(Command::DrawIndexed { index_count: SCREEN_QUAD_INDEX_COUNT });
        proof {
            assert(out@ =~= prev + light_draw_commands(
                LightParameters::Directional {
                    intensity: env.directional_lights@[k as int].intensity,
                    direction: env.directional_lights@[k as int].direction,
                },
            ));
        }
        k = k + 1;
    }
    proof {
        assert(directional_commands(env.directional_lights@, k as int)
            =~= Seq::<Command>::empty());
        assert(out@ + Seq::<Command>::empty() =~= out@);
    }
    let ghost after_directional = out@;
    out.push(Command::SetShaders(ShaderKind::PointLighting));
    let mut j: usize = 0;
    while j < env.point_lights.len()
        invariant
            0 <= j <= env.point_lights@.len(),
            out@ + point_commands(env.point_lights@, j as int) =~= after_directional + (seq![
                Command::SetShaders(ShaderKind::PointLighting),
            ] + point_commands(env.point_lights@, 0)),
        decreases env.point_lights@.len() - j,
    {
        let light = env.point_lights[j];
        let ghost prev = out@;
        out.push(
            Command::UpdateLightParameters(
                LightParameters::Point { intensity: light.intensity, position: light.position },
            ),
        );
        out.push(
            Command::SetConstantBuffer {
                stage: StageSlot::PixelStage,
                slot: 1,
                buffer: BufferId::LightParameters,
            },
        );
        out.push(Command::DrawIndexed { index_count: SCREEN_QUAD_INDEX_COUNT });
        proof {
            assert(out@ =~= prev + light_draw_commands(
                LightParameters::Point {
                    intensity: env.point_lights@[j as int].intensity,
                    position: env.point_lights@[j as int].position,
                },
            ));
        }
        j = j + 1;
    }
    proof {
        assert(point_commands(env.point_lights@, j as int) =~= Seq::<Command>::empty());
        assert(out@ + Seq::<Command>::empty() =~= out@);
    }
    out.push(Command::ResetTargets);
    out.push(Command::SetTexture { slot: 0, texture: None });
    out.push(Command::SetTexture { slot: 1, texture: None });
    out.push(Command::SetTexture { slot: 2, texture: None });
    out.push(Command::SetTexture { slot: 3, texture: None });
    proof {
        assert(out@ =~= spec_lighting_commands(
            env.directional_lights@,
            env.point_lights@,
            spec_image_intensity(*env),
        ));
    }
    out
}

// ---------------------------------------------------------------------------
// Composition pass
// ---------------------------------------------------------------------------
/// The whole composition pass: clear the swapchain target, zero the
/// luminance buffer, blend the unlit and lit buffers over one full-screen
/// draw, and read the luminance back for the next frame's exposure.
pub open spec fn spec_composition_commands() -> Seq<Command> {
    seq![
        Command::ClearTarget,
        Command::ClearTargetDepth,
        Command::ZeroLuminanceBuffer,
        Command::BindTargets(TargetGroup::SwapchainWithLuminance),
        Command::SetBlendState(BlendStateKind::AlphaBlend),
        Command::SetViewport,
        Command::SetSampler(0),
        Command::SetTexture { slot: 4, texture: Some(TextureId::GBufferDepth) },
        Command::SetTexture { slot: 5, texture: Some(TextureId::LightingBuffer) },
        Command::SetShaders(ShaderKind::Screen),
        Command::SetConstantBuffer {
            stage: StageSlot::PixelStage,
            slot: 0,
            buffer: BufferId::ViewMatrices,
        },
        Command::SetScreenVertices { topology: Topology::Triangles },
        Command::DrawIndexed { index_count: SCREEN_QUAD_INDEX_COUNT },
        Command::SetTexture { slot: 4, texture: None },
        Command::ReadLuminance,
    ]
}

/// Plans the composition pass.
pub fn plan_composition_pass() -> (r: Vec<Command>)
    ensures
        r@ == spec_composition_commands(),
{
    let mut out: Vec<Command> = Vec::new();
    out.push(Command::ClearTarget);
    out.push(Command::ClearTargetDepth);
    out.push(Command::ZeroLuminanceBuffer);
    out.push(Command::BindTargets(TargetGroup::SwapchainWithLuminance));
    out.push(Command::SetBlendState(BlendStateKind::AlphaBlend));
    out.push(Command::SetViewport);
    out.push(Command::SetSampler(0));
    out.push(Command::SetTexture { slot: 4, texture: Some(TextureId::GBufferDepth) });
    out.push(Command::SetTexture { slot: 5, texture: Some(TextureId::LightingBuffer) });
    out.push(Command::SetShaders(ShaderKind::Screen));
    out.push(
        Command::SetConstantBuffer {
            stage: StageSlot::PixelStage,
            slot: 0,
            buffer: BufferId::ViewMatrices,
        },
    );
    out.push(Command::SetScreenVertices { topology: Topology::Triangles });
    out.push(Command::DrawIndexed { index_count: SCREEN_QUAD_INDEX_COUNT });
    out.push(Command::SetTexture { slot: 4, texture: None });
    out.push(Command::ReadLuminance);
    proof {
        assert(out@ =~= spec_composition_commands());
    }
    out
}

// ---------------------------------------------------------------------------
// The frame
// ---------------------------------------------------------------------------
/// The frame throttle: a frame is processed only once at least the target
/// interval has passed since the last processed frame.
#[derive(Clone, Copy, Debug, PartialEq, Eq)]
pub struct FrameThrottle {
    pub frame_time_nanos: u64,
}

impl FrameThrottle {
    /// A throttle with the given target interval.
    pub fn new(frame_time_nanos: u64) -> (r: FrameThrottle)
        ensures
            r.frame_time_nanos == frame_time_nanos,
    {
        FrameThrottle { frame_time_nanos }
    }

    /// Whether a frame whose delta is `delta_nanos` is processed: only once
    /// the target interval has elapsed.
    pub fn should_process(&self, delta_nanos: u64) -> (r: bool)
        ensures
            r == (delta_nanos >= self.frame_time_nanos),
    {
        delta_nanos >= self.frame_time_nanos
    }
}

/// Assembles the per-frame view constants from the scene: the viewpoint's
/// matrices and their inverses, the screen size with the elapsed seconds,
/// and the luminance history.
pub fn generate_view_matrices<T>(env: &Environment<T>) -> (r: ViewMatrices)
    requires
        env.wf(),
    ensures
        r.view == env.view.view_matrix,
        r.projection == env.view.projection_matrix,
        r.view_inv.m@ == inverted_of(env.view.view_matrix.m@),
        r.projection_inv.m@ == inverted_of(env.view.projection_matrix.m@),
        r.screen_time == (
            env.view.screen_dimensions.x,
            env.view.screen_dimensions.y,
            seconds_bits_of(env.elapsed_nanos),
            0u32,
        ),
        r.luminances.m@ == env.luminance@,
{
    let view_inv = mat4_inverted(&env.view.view_matrix);
    let projection_inv = mat4_inverted(&env.view.projection_matrix);
    let seconds = elapsed_seconds_bits(env.elapsed_nanos);
    let lum = &env.luminance;
    let luminances = Mat4 {
        m: [
            lum[0],
            lum[1],
            lum[2],
            lum[3],
            lum[4],
            lum[5],
            lum[6],
            lum[7],
            lum[8],
            lum[9],
            lum[10],
            lum[11],
            lum[12],
            lum[13],
            lum[14],
            lum[15],
        ],
    };
    proof {
        assert(luminances.m@ =~= env.luminance@);
    }
    ViewMatrices {
        view: env.view.view_matrix,
        projection: env.view.projection_matrix,
        view_inv,
        projection_inv,
        screen_time: (
            env.view.screen_dimensions.x,
            env.view.screen_dimensions.y,
            seconds,
            0u32,
        ),
        luminances,
    }
}

/// One whole frame: the view constants upload, the three passes in their
/// fixed order, and the present.
pub open spec fn spec_frame_commands(
    vm: ViewMatrices,
    runs: Seq<DrawRun>,
    dirs: Seq<DirectionalLight>,
    points: Seq<PointLight>,
    image: Option<u32>,
) -> Seq<Command> {
    seq![Command::UpdateViewMatrices(vm)] + spec_geometry_commands(runs)
        + spec_lighting_commands(dirs, points, image) + spec_composition_commands()
        + seq![Command::Present]
}

/// Plans one frame. A frame below the throttle's target interval plans no
/// command at all — no pass runs, nothing is drawn, nothing is presented;
/// otherwise the frame is the fixed three-pass sequence and the present.
pub fn plan_frame<T>(
    env: &Environment<T>,
    vm: &ViewMatrices,
    runs: &Vec<DrawRun>,
    throttle: &FrameThrottle,
    delta_nanos: u64,
) -> (r: Vec<Command>)
    ensures
        delta_nanos < throttle.frame_time_nanos ==> r@ == Seq::<Command>::empty(),
        delta_nanos >= throttle.frame_time_nanos ==> r@ == spec_frame_commands(
            *vm,
            runs@,
            env.directional_lights@,
            env.point_lights@,
            spec_image_intensity(*env),
        ),
{
    let mut out: Vec<Command> = Vec::new();
    if !throttle.should_process(delta_nanos) {
        proof {
            assert(out@ =~= Seq::<Command>::empty());
        }
        return out;
    }
    out.push(Command::UpdateViewMatrices(*vm));
    let mut geometry = plan_geometry_pass(runs);
    let mut lighting = plan_lighting_pass(env);
    let mut composition = plan_composition_pass();
    let ghost g = geometry@;
    let ghost l = lighting@;
    let ghost c = composition@;
    out.append(&mut geometry);
    out.append(&mut lighting);
    out.append(&mut composition);
    out.push(Command::Present);
    proof {
        assert(out@ =~= seq![Command::UpdateViewMatrices(*vm)] + g + l + c + seq![
            Command::Present,
        ]);
    }
    out
}


} // verus!
