//! A deferred-rendering engine core: a verified Wavefront OBJ/MTL parser,
//! a generic model builder driven by caller-supplied mappers, per-frame
//! scene state with a rolling luminance history, and the fixed three-pass
//! frame plan — geometry, lighting, composition — over an abstract graphics
//! context.

pub mod environment;
pub mod error;
pub mod laws;
pub mod model;
pub mod mtl;
pub mod numbers;
pub mod obj;
pub mod parser;
pub mod pipeline;
pub mod text;
pub mod vector;

pub use environment::{
    AmbientLight, DirectionalLight, Environment, ImageLight, Mat4, PointLight, SceneView,
    LUMINANCE_SLOTS,
};
pub use error::Error;
pub use model::{FaceVertex, Model};
pub use mtl::{Material, MaterialProperty, MaterialView, PropertyView};
pub use obj::{FaceIndexPair, Group, GroupView, Object, ObjectView, WavefrontObj, WavefrontObjView};
pub use parser::{
    mtllib_paths, parse_face, take_integer, take_normal, take_single, take_vec2, take_vec3, Parser,
};
pub use pipeline::{
    generate_view_matrices, BlendStateKind, BufferId, Command, DrawRun, FrameThrottle, LightParameters, ShaderKind,
    StageSlot, TargetGroup, TextureId, Topology, ViewMatrices, G_BUFFER_LAYERS,
    SCREEN_QUAD_INDEX_COUNT,
};
pub use vector::Vec2;
pub use vector::Vec3;
