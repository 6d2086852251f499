//! The parsed form of Wavefront OBJ text: objects, groups and faces.

use crate::mtl::{Material, MaterialView};
use crate::vector::{Vec2, Vec3};
use vstd::prelude::*;

verus! {

/// One vertex of a face: a vertex index, an optional texture coordinate
/// index and an optional normal index, each zero-based and local to the
/// group that holds the face.
#[derive(Clone, Copy, Debug, PartialEq, Eq, Hash)]
pub struct FaceIndexPair(pub usize, pub Option<usize>, pub Option<usize>);

impl DeepView for FaceIndexPair {
    type V = FaceIndexPair;

    open spec fn deep_view(&self) -> FaceIndexPair {
        *self
    }
}

/// The mathematical value of a group.
#[verifier::ext_equal]
pub struct GroupView {
    pub name: Option<Seq<u8>>,
    pub material_name: Option<Seq<u8>>,
    pub vertices: Seq<Vec3>,
    pub texture_uvs: Seq<Vec2>,
    pub normals: Seq<Vec3>,
    pub face_index_pairs: Seq<Seq<FaceIndexPair>>,
}

impl GroupView {
    /// Every face index points at an element the group holds.
    pub open spec fn wf(self) -> bool {
        forall|i: int, j: int|
            0 <= i < self.face_index_pairs.len() && 0 <= j < self.face_index_pairs[i].len()
                ==> face_pair_in_range(
                #[trigger] self.face_index_pairs[i][j],
                self.vertices.len(),
                self.texture_uvs.len(),
                self.normals.len(),
            )
    }
}

/// Whether one face vertex points inside the given element counts.
pub open spec fn face_pair_in_range(p: FaceIndexPair, nv: nat, nt: nat, nn: nat) -> bool {
    &&& p.0 < nv
    &&& (p.1 matches Some(t) ==> t < nt)
    &&& (p.2 matches Some(n) ==> n < nn)
}

/// A group inside an object: element lists local to the group, and the faces
/// over them.
#[derive(Clone, Debug)]
pub struct Group {
    pub name: Option<Vec<u8>>,
    pub material_name: Option<Vec<u8>>,
    pub vertices: Vec<Vec3>,
    pub texture_uvs: Vec<Vec2>,
    pub normals: Vec<Vec3>,
    pub face_index_pairs: Vec<Vec<FaceIndexPair>>,
}

impl View for Group {
    type V = GroupView;

    open spec fn view(&self) -> GroupView {
        GroupView {
            name: self.name.deep_view(),
            material_name: self.material_name.deep_view(),
            vertices: self.vertices@,
            texture_uvs: self.texture_uvs@,
            normals: self.normals@,
            face_index_pairs: self.face_index_pairs.deep_view(),
        }
    }
}

impl DeepView for Group {
    type V = GroupView;

    open spec fn deep_view(&self) -> GroupView {
        self.view()
    }
}

impl Group {
    /// The group's name, from the `g` line that opened it.
    pub fn name(&self) -> (r: Option<&Vec<u8>>)
        ensures
            r.deep_view() == self@.name,
    {
        self.name.as_ref()
    }

    /// The material name bound by `usemtl`, if any.
    pub fn material_name(&self) -> (r: Option<&Vec<u8>>)
        ensures
            r.deep_view() == self@.material_name,
    {
        self.material_name.as_ref()
    }

    /// The group's vertex positions, in file order.
    pub fn vertices(&self) -> (r: &Vec<Vec3>)
        ensures
            r@ == self@.vertices,
    {
        &self.vertices
    }

    /// The group's texture coordinates, in file order.
    pub fn texture_uvs(&self) -> (r: &Vec<Vec2>)
        ensures
            r@ == self@.texture_uvs,
    {
        &self.texture_uvs
    }

    /// The group's normals, normalized, in file order.
    pub fn normals(&self) -> (r: &Vec<Vec3>)
        ensures
            r@ == self@.normals,
    {
        &self.normals
    }

    /// The group's faces as index lists.
    pub fn face_index_pairs(&self) -> (r: &Vec<Vec<FaceIndexPair>>)
        ensures
            r.deep_view() == self@.face_index_pairs,
    {
        &self.face_index_pairs
    }
}

/// The mathematical value of an object.
#[verifier::ext_equal]
pub struct ObjectView {
    pub name: Option<Seq<u8>>,
    pub groups: Seq<GroupView>,
}

impl ObjectView {
    pub open spec fn wf(self) -> bool {
        forall|i: int| 0 <= i < self.groups.len() ==> (#[trigger] self.groups[i]).wf()
    }
}

/// An object opened by an `o` line; holds the groups committed while it was
/// current.
#[derive(Clone, Debug)]
pub struct Object {
    pub name: Option<Vec<u8>>,
    pub groups: Vec<Group>,
}

impl View for Object {
    type V = ObjectView;

    open spec fn view(&self) -> ObjectView {
        ObjectView { name: self.name.deep_view(), groups: self.groups.deep_view() }
    }
}

impl DeepView for Object {
    type V = ObjectView;

    open spec fn deep_view(&self) -> ObjectView {
        self.view()
    }
}

impl Object {
    /// The object's name, from the `o` line that opened it.
    pub fn name(&self) -> (r: Option<&Vec<u8>>)
        ensures
            r.deep_view() == self@.name,
    {
        self.name.as_ref()
    }

    /// The object's committed groups.
    pub fn groups(&self) -> (r: &Vec<Group>)
        ensures
            r.deep_view() == self@.groups,
    {
        &self.groups
    }
}

/// The mathematical value of a whole parse result.
#[verifier::ext_equal]
pub struct WavefrontObjView {
    pub objects: Seq<ObjectView>,
    pub materials: Seq<MaterialView>,
}

impl WavefrontObjView {
    /// Every face index of every group points inside its group.
    pub open spec fn wf(self) -> bool {
        forall|i: int| 0 <= i < self.objects.len() ==> (#[trigger] self.objects[i]).wf()
    }
}

/// The content of one Wavefront OBJ source: its objects and the materials
/// gathered from the material libraries it names.
#[derive(Clone, Debug)]
pub struct WavefrontObj {
    pub objects: Vec<Object>,
    pub materials: Vec<Material>,
}

impl View for WavefrontObj {
    type V = WavefrontObjView;

    open spec fn view(&self) -> WavefrontObjView {
        WavefrontObjView {
            objects: self.objects.deep_view(),
            materials: self.materials.deep_view(),
        }
    }
}

impl WavefrontObj {
    /// The objects of the source, in commit order.
    pub fn objects(&self) -> (r: &Vec<Object>)
        ensures
            r.deep_view() == self@.objects,
    {
        &self.objects
    }

    /// The materials of the source's material libraries, in commit order.
    pub fn materials(&self) -> (r: &Vec<Material>)
        ensures
            r.deep_view() == self@.materials,
    {
        &self.materials
    }
}

} // verus!
