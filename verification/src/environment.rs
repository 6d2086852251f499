//! Per-frame scene state: lights, the viewpoint, elapsed time and the
//! rolling luminance history that drives auto-exposure.

use crate::vector::{Vec2, Vec3};
use vstd::prelude::*;

verus! {

/// How many luminance samples the rolling history holds.
pub const LUMINANCE_SLOTS: usize = 16;

/// An ambient light: a light intensity per channel.
#[derive(Clone, Copy, Debug, PartialEq, Eq, Structural)]
pub struct AmbientLight {
    pub intensity: Vec3,
}

/// An image-based light: a backend texture and an intensity multiplier bit
/// pattern.
#[derive(Clone, Debug)]
pub struct ImageLight<T> {
    pub texture: T,
    pub intensity: u32,
}

/// A directional light.
#[derive(Clone, Copy, Debug, PartialEq, Eq, Structural)]
pub struct DirectionalLight {
    pub intensity: Vec3,
    pub direction: Vec3,
}

/// A point light.
#[derive(Clone, Copy, Debug, PartialEq, Eq, Structural)]
pub struct PointLight {
    pub intensity: Vec3,
    pub position: Vec3,
}

/// A four-by-four matrix as sixteen component bit patterns, row major.
#[derive(Clone, Copy, Debug, PartialEq, Eq)]
pub struct Mat4 {
    pub m: [u32; 16],
}

/// The viewpoint of the scene: view and projection matrices and the screen
/// size.
#[derive(Clone, Copy, Debug, PartialEq, Eq)]
pub struct SceneView {
    pub view_matrix: Mat4,
    pub projection_matrix: Mat4,
    pub screen_dimensions: Vec2,
}

impl SceneView {
    /// Builds a viewpoint from matrices and the screen size.
    pub fn new(view_matrix: Mat4, projection_matrix: Mat4, screen_dimensions: Vec2) -> (r:
        SceneView)
        ensures
            r == (SceneView { view_matrix, projection_matrix, screen_dimensions }),
    {
        SceneView { view_matrix, projection_matrix, screen_dimensions }
    }
}

/// The scene state a frame reads and updates: light collections, the
/// viewpoint, the elapsed-time accumulator in nanoseconds, and the rolling
/// luminance history, oldest first.
pub struct Environment<T> {
    pub ambient_light: AmbientLight,
    pub image_light: Option<ImageLight<T>>,
    pub directional_lights: Vec<DirectionalLight>,
    pub point_lights: Vec<PointLight>,
    pub view: SceneView,
    pub elapsed_nanos: u64,
    pub luminance: Vec<u32>,
}

impl<T> Environment<T> {
    /// The luminance history always holds exactly its fixed number of slots.
    pub open spec fn wf(self) -> bool {
        self.luminance@.len() == LUMINANCE_SLOTS
    }

    /// A fresh scene: no lights, zero elapsed time, an all-zero luminance
    /// history.
    pub fn new(view: SceneView) -> (r: Environment<T>)
        ensures
            r.wf(),
            r.ambient_light == (AmbientLight { intensity: Vec3 { x: 0, y: 0, z: 0 } }),
            r.image_light is None,
            r.directional_lights@ == Seq::<DirectionalLight>::empty(),
            r.point_lights@ == Seq::<PointLight>::empty(),
            r.view == view,
            r.elapsed_nanos == 0,
            forall|i: int| 0 <= i < LUMINANCE_SLOTS ==> r.luminance@[i] == 0,
    {
        let mut luminance: Vec<u32> = Vec::new();
        let mut i: usize = 0;
        while i < LUMINANCE_SLOTS
            invariant
                0 <= i <= LUMINANCE_SLOTS,
                luminance@.len() == i,
                forall|j: int| 0 <= j < i ==> luminance@[j] == 0,
            decreases LUMINANCE_SLOTS - i,
        {
            luminance.push(0);
            i = i + 1;
        }
        Environment {
            ambient_light: AmbientLight { intensity: Vec3 { x: 0, y: 0, z: 0 } },
            image_light: None,
            directional_lights: Vec::new(),
            point_lights: Vec::new(),
            view,
            elapsed_nanos: 0,
            luminance,
        }
    }

    /// Advances the elapsed-time accumulator by the frame delta.
    pub fn tick(&mut self, delta_nanos: u64)
        requires
            old(self).elapsed_nanos + delta_nanos <= u64::MAX,
        ensures
            final(self).elapsed_nanos == old(self).elapsed_nanos + delta_nanos,
            final(self).ambient_light == old(self).ambient_light,
            final(self).image_light == old(self).image_light,
            final(self).directional_lights == old(self).directional_lights,
            final(self).point_lights == old(self).point_lights,
            final(self).view == old(self).view,
            final(self).luminance == old(self).luminance,
    {
        self.elapsed_nanos = self.elapsed_nanos + delta_nanos;
    }

    /// Pushes a new luminance sample: the history shifts down one slot, the
    /// oldest sample falls out, the newest lands in the last slot, and the
    /// length stays fixed.
    pub fn update_luminance(&mut self, value: u32)
        requires
            old(self).wf(),
        ensures
            final(self).wf(),
            final(self).luminance@ == old(self).luminance@.skip(1).push(value),
            final(self).elapsed_nanos == old(self).elapsed_nanos,
            final(self).ambient_light == old(self).ambient_light,
            final(self).image_light == old(self).image_light,
            final(self).directional_lights == old(self).directional_lights,
            final(self).point_lights == old(self).point_lights,
            final(self).view == old(self).view,
    {
        let mut i: usize = 0;
        while i < LUMINANCE_SLOTS - 1
            invariant
                0 <= i <= LUMINANCE_SLOTS - 1,
                self.luminance@.len() == LUMINANCE_SLOTS,
                forall|j: int|
                    0 <= j < i ==> self.luminance@[j] == old(self).luminance@[j + 1],
                forall|j: int|
                    i <= j < LUMINANCE_SLOTS ==> self.luminance@[j] == old(self).luminance@[j],
                self.elapsed_nanos == old(self).elapsed_nanos,
                self.ambient_light == old(self).ambient_light,
                self.image_light == old(self).image_light,
                self.directional_lights == old(self).directional_lights,
                self.point_lights == old(self).point_lights,
                self.view == old(self).view,
            decreases LUMINANCE_SLOTS - 1 - i,
        {
            let next = self.luminance[i + 1];
            self.luminance.set(i, next);
            i = i + 1;
        }
        self.luminance.set(LUMINANCE_SLOTS - 1, value);
        proof {
            assert(self.luminance@ =~= old(self).luminance@.skip(1).push(value));
        }
    }
}

/// The entry bit patterns of the inverse of the matrix with the given entry
/// bit patterns. Single precision arithmetic is exactly determined by its
/// operands, so the inverse is a function of the entries alone.
pub uninterp spec fn inverted_of(m: Seq<u32>) -> Seq<u32>;

/// Relies on `ultraviolet::Mat4::inversed`: the inverse entries are a
/// function of the input entries alone; `bytemuck` casts carry the bit
/// patterns in and out unchanged. A singular matrix yields the entries of
/// an invalid inverse, still determined by the input.
#[verifier::external_body]
pub fn mat4_inverted(m: &Mat4) -> (r: Mat4)
    ensures
        r.m@ == inverted_of(m.m@),
{
    let inner: ultraviolet::Mat4 = bytemuck::cast(m.m);
    Mat4 { m: bytemuck::cast(inner.inversed()) }
}

/// The bit pattern of the single precision number of seconds that the given
/// nanosecond count spans: a function of the count alone.
pub uninterp spec fn seconds_bits_of(nanos: u64) -> u32;

/// Relies on `core::time::Duration::as_secs_f32`: the seconds value is a
/// function of the nanosecond count alone.
#[verifier::external_body]
pub fn elapsed_seconds_bits(nanos: u64) -> (r: u32)
    ensures
        r == seconds_bits_of(nanos),
{
    core::time::Duration::from_nanos(nanos).as_secs_f32().to_bits()
}

} // verus!
