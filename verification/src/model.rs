//! The generic model builder: turns a parsed OBJ tree into backend vertex
//! groups and materials through two caller-supplied mappers, and
//! fan-triangulates faces.

use crate::mtl::{Material, MaterialView};
use crate::obj::{Group, GroupView, ObjectView, WavefrontObj};
use crate::vector::{Vec2, Vec3};
use vstd::prelude::*;

verus! {

/// One resolved vertex of a face: its position, and its texture coordinate
/// and normal where the face names them.
#[derive(Clone, Copy, Debug, PartialEq, Eq)]
pub struct FaceVertex {
    pub position: Vec3,
    pub uv: Option<Vec2>,
    pub normal: Option<Vec3>,
}

impl DeepView for FaceVertex {
    type V = FaceVertex;

    open spec fn deep_view(&self) -> FaceVertex {
        *self
    }
}

/// One face of a group with its indices resolved to the elements they name.
pub open spec fn resolved_face(g: GroupView, face: Seq<crate::obj::FaceIndexPair>) -> Seq<
    FaceVertex,
> {
    Seq::new(
        face.len(),
        |j: int|
            FaceVertex {
                position: g.vertices[face[j].0 as int],
                uv: match face[j].1 {
                    Some(t) => Some(g.texture_uvs[t as int]),
                    None => None,
                },
                normal: match face[j].2 {
                    Some(n) => Some(g.normals[n as int]),
                    None => None,
                },
            },
    )
}

/// All faces of a group, resolved.
pub open spec fn resolved_faces(g: GroupView) -> Seq<Seq<FaceVertex>> {
    Seq::new(g.face_index_pairs.len(), |i: int| resolved_face(g, g.face_index_pairs[i]))
}

/// Whether `vg` is an output the vertex mapper allows for the resolved faces
/// of group `g`.
pub open spec fn vertex_group_matches<VG, E, VM: Fn(Vec<Vec<FaceVertex>>) -> Result<VG, E>>(
    vertex_mapper: VM,
    g: GroupView,
    vg: VG,
) -> bool {
    exists|arg: Vec<Vec<FaceVertex>>|
        arg.deep_view() == resolved_faces(g) && call_ensures(vertex_mapper, (arg,), Ok::<VG, E>(vg))
}

/// Whether the material mapper may fail with `e` on some material.
pub open spec fn material_mapper_failed<M, E, MM: Fn(&Material) -> Result<M, E>>(
    material_mapper: MM,
    e: E,
) -> bool {
    exists|m: &Material| call_ensures(material_mapper, (m,), Err::<M, E>(e))
}

/// Whether the vertex mapper may fail with `e` on some face list.
pub open spec fn vertex_mapper_failed<VG, E, VM: Fn(Vec<Vec<FaceVertex>>) -> Result<VG, E>>(
    vertex_mapper: VM,
    e: E,
) -> bool {
    exists|arg: Vec<Vec<FaceVertex>>| call_ensures(vertex_mapper, (arg,), Err::<VG, E>(e))
}

impl Group {
    /// The group's faces with every index resolved to the element it names.
    pub fn faces(&self) -> (r: Vec<Vec<FaceVertex>>)
        requires
            self@.wf(),
        ensures
            r.deep_view() == resolved_faces(self@),
    {
        let mut out: Vec<Vec<FaceVertex>> = Vec::new();
        let mut i: usize = 0;
        while i < self.face_index_pairs.len()
            invariant
                0 <= i <= self.face_index_pairs@.len(),
                self@.wf(),
                out.deep_view() =~~= resolved_faces(self@).take(i as int),
            decreases self.face_index_pairs@.len() - i,
        {
            let face = &self.face_index_pairs[i];
            let mut rf: Vec<FaceVertex> = Vec::new();
            let mut j: usize = 0;
            proof {
                assert(self@.face_index_pairs[i as int] =~= face@);
            }
            while j < face.len()
                invariant
                    0 <= j <= face@.len(),
                    self@.wf(),
                    0 <= i < self.face_index_pairs@.len(),
                    face@ == self@.face_index_pairs[i as int],
                    rf@ =~= resolved_face(self@, face@).take(j as int),
                decreases face@.len() - j,
            {
                let p = face[j];
                proof {
                    assert(crate::obj::face_pair_in_range(
                        self@.face_index_pairs[i as int][j as int],
                        self@.vertices.len(),
                        self@.texture_uvs.len(),
                        self@.normals.len(),
                    ));
                }
                let uv = match p.1 {
                    Some(t) => Some(self.texture_uvs[t]),
                    None => None,
                };
                let normal = match p.2 {
                    Some(n) => Some(self.normals[n]),
                    None => None,
                };
                rf.push(FaceVertex { position: self.vertices[p.0], uv, normal });
                j = j + 1;
                proof {
                    assert(rf@ =~= resolved_face(self@, face@).take(j as int));
                }
            }
            let ghost prev = out.deep_view();
            proof {
                assert(rf@ =~= resolved_face(self@, face@));
            }
            out.push(rf);
            i = i + 1;
            proof {
                assert(out.deep_view() =~~= prev.push(rf@));
                assert(out.deep_view() =~~= resolved_faces(self@).take(i as int));
            }
        }
        proof {
            assert(resolved_faces(self@).take(i as int) =~~= resolved_faces(self@));
        }
        out
    }
}

/// The first material with the given name, if any.
pub open spec fn find_material(materials: Seq<MaterialView>, name: Seq<u8>) -> Option<int>
    decreases materials.len(),
{
    if materials.len() == 0 {
        None
    } else if materials[0].name == name {
        Some(0)
    } else {
        match find_material(materials.skip(1), name) {
            Some(i) => Some(i + 1),
            None => None,
        }
    }
}

/// Where the first `i` names miss, the search result is that of the rest,
/// shifted.
proof fn lemma_find_material_skip(materials: Seq<MaterialView>, name: Seq<u8>, i: int)
    requires
        0 <= i <= materials.len(),
        forall|j: int| 0 <= j < i ==> (#[trigger] materials[j]).name != name,
    ensures
        find_material(materials, name) == match find_material(materials.skip(i), name) {
            Some(k) => Some(k + i),
            None => None::<int>,
        },
    decreases i,
{
    if i == 0 {
        assert(materials.skip(0) =~= materials);
    } else {
        assert(materials[0].name != name);
        lemma_find_material_skip(materials.skip(1), name, i - 1);
        assert(materials.skip(1).skip(i - 1) =~= materials.skip(i));
    }
}

/// The material index a group's binding resolves to: the first material with
/// the bound name; none where no name is bound or no material matches.
pub open spec fn resolved_material(materials: Seq<MaterialView>, name: Option<Seq<u8>>) -> Option<
    int,
> {
    match name {
        None => None,
        Some(n) => find_material(materials, n),
    }
}

/// Finds the first material with the given name.
pub fn find_material_index(materials: &Vec<Material>, name: &[u8]) -> (r: Option<usize>)
    ensures
        match r {
            Some(i) => find_material(materials.deep_view(), name@) == Some(i as int) && i
                < materials@.len(),
            None => find_material(materials.deep_view(), name@) is None,
        },
{
    let ghost ms = materials.deep_view();
    let mut i: usize = 0;
    while i < materials.len()
        invariant
            0 <= i <= ms.len(),
            ms == materials.deep_view(),
            materials@.len() == ms.len(),
            forall|j: int| 0 <= j < i ==> (#[trigger] ms[j]).name != name@,
        decreases ms.len() - i,
    {
        proof {
            assert(ms[i as int].name =~= materials@[i as int].name@);
        }
        if crate::text::bytes_eq(materials[i].name.as_slice(), name) {
            proof {
                lemma_find_material_skip(ms, name@, i as int);
            }
            return Some(i);
        }
        i = i + 1;
    }
    proof {
        lemma_find_material_skip(ms, name@, i as int);
        assert(ms.skip(i as int) =~= Seq::<MaterialView>::empty());
    }
    None
}

/// The groups of all objects, in commit order.
pub open spec fn groups_of_objects(objs: Seq<ObjectView>) -> Seq<GroupView>
    decreases objs.len(),
{
    if objs.len() == 0 {
        Seq::<GroupView>::empty()
    } else {
        objs[0].groups + groups_of_objects(objs.skip(1))
    }
}

/// Peeling objects from the front: the groups of the first `k + 1` objects
/// are those of the first `k` and then the `k`-th object's own.
proof fn lemma_groups_take_step(objs: Seq<ObjectView>, k: int)
    requires
        0 <= k < objs.len(),
    ensures
        groups_of_objects(objs.take(k + 1)) =~~= groups_of_objects(objs.take(k)) + objs[k].groups,
    decreases k,
{
    if k == 0 {
        assert(objs.take(0) =~= Seq::<ObjectView>::empty());
        assert(objs.take(1).skip(1) =~= Seq::<ObjectView>::empty());
        assert(objs.take(1)[0] == objs[0]);
    } else {
        lemma_groups_take_step(objs.skip(1), k - 1);
        assert(objs.skip(1).take(k) =~= objs.take(k + 1).skip(1));
        assert(objs.skip(1).take(k - 1) =~= objs.take(k).skip(1));
        assert(objs.skip(1)[k - 1] == objs[k]);
        assert(objs.take(k + 1)[0] == objs[0]);
        assert(objs.take(k)[0] == objs[0]);
    }
}

/// A backend model: one opaque vertex group per committed group of the
/// source, each paired with the index of the material its group was bound
/// to, and the backend materials in source order.
pub struct Model<VG, M> {
    pub vertex_groups: Vec<VG>,
    pub material_mapping: Vec<Option<usize>>,
    pub materials: Vec<M>,
}

impl<VG, M> Model<VG, M> {
    /// How many vertex groups the model holds.
    pub fn vertex_group_count(&self) -> (r: usize)
        ensures
            r == self.vertex_groups@.len(),
    {
        self.vertex_groups.len()
    }

    /// The vertex group at `index` and its material, if one is mapped: the
    /// one read access the renderer needs, in construction order.
    pub fn visit(&self, index: usize) -> (r: (&VG, Option<&M>))
        requires
            index < self.vertex_groups@.len(),
            self.material_mapping@.len() == self.vertex_groups@.len(),
            forall|k: int|
                0 <= k < self.material_mapping@.len() ==> match #[trigger] self.material_mapping@[k] {
                    Some(m) => m < self.materials@.len(),
                    None => true,
                },
        ensures
            r.0 == &self.vertex_groups@[index as int],
            match self.material_mapping@[index as int] {
                Some(m) => r.1 matches Some(mat) && mat == &self.materials@[m as int],
                None => r.1 is None,
            },
    {
        let vg = &self.vertex_groups[index];
        let mat = match self.material_mapping[index] {
            Some(m) => Some(&self.materials[m]),
            None => None,
        };
        (vg, mat)
    }

    /// Whether every mapped material index points into the material list.
    pub open spec fn mapping_in_range(self) -> bool {
        &&& self.material_mapping@.len() == self.vertex_groups@.len()
        &&& forall|k: int|
            0 <= k < self.material_mapping@.len() ==> match #[trigger] self.material_mapping@[k] {
                Some(m) => m < self.materials@.len(),
                None => true,
            }
    }

    /// Builds a model from a parsed source: every material is mapped in list
    /// order through `material_mapper`; then every committed group, in
    /// object order, becomes one vertex group through `vertex_mapper`,
    /// paired with the index of the material whose name the group was bound
    /// to. Either mapper's first error aborts the build.
    pub fn from_obj<E, VM: Fn(Vec<Vec<FaceVertex>>) -> Result<VG, E>, MM: Fn(&Material) -> Result<
        M,
        E,
    >>(obj: &WavefrontObj, vertex_mapper: VM, material_mapper: MM) -> (r: Result<Model<VG, M>, E>)
        requires
            obj@.wf(),
            forall|faces: Vec<Vec<FaceVertex>>| call_requires(vertex_mapper, (faces,)),
            forall|m: &Material| call_requires(material_mapper, (m,)),
        ensures
            r matches Ok(model) ==> model.materials@.len() == obj@.materials.len(),
            r matches Ok(model) ==> forall|i: int|
                0 <= i < obj@.materials.len() ==> call_ensures(
                    material_mapper,
                    (&obj.materials@[i],),
                    Ok::<M, E>(#[trigger] model.materials@[i]),
                ),
            r matches Ok(model) ==> model.vertex_groups@.len() == groups_of_objects(
                obj@.objects,
            ).len(),
            r matches Ok(model) ==> model.material_mapping@.len() == model.vertex_groups@.len(),
            r matches Ok(model) ==> forall|k: int|
                0 <= k < model.material_mapping@.len()
                    ==> #[trigger] model.material_mapping@[k] == match resolved_material(
                    obj@.materials,
                    groups_of_objects(obj@.objects)[k].material_name,
                ) {
                    Some(m) => Some(m as usize),
                    None => None::<usize>,
                },
            r matches Ok(model) ==> forall|k: int|
                0 <= k < model.vertex_groups@.len() ==> vertex_group_matches(
                    vertex_mapper,
                    groups_of_objects(obj@.objects)[k],
                    #[trigger] model.vertex_groups@[k],
                ),
            r matches Ok(model) ==> model.mapping_in_range(),
            r matches Err(e) ==> material_mapper_failed(material_mapper, e)
                || vertex_mapper_failed(vertex_mapper, e),
    {
        let ghost omv = obj@.materials;
        let mut materials: Vec<M> = Vec::new();
        let mut mi: usize = 0;
        while mi < obj.materials.len()
            invariant
                0 <= mi <= obj.materials@.len(),
                omv == obj@.materials,
                omv.len() == obj.materials@.len(),
                materials@.len() == mi,
                forall|m: &Material| call_requires(material_mapper, (m,)),
                forall|i: int|
                    0 <= i < mi ==> call_ensures(
                        material_mapper,
                        (&obj.materials@[i],),
                        Ok::<M, E>(#[trigger] materials@[i]),
                    ),
            decreases obj.materials@.len() - mi,
        {
            let marg = &obj.materials[mi];
            let res = material_mapper(marg);
            match res {
                Ok(m) => {
                    materials.push(m);
                },
                Err(e) => {
                    proof {
                        assert(call_ensures(material_mapper, (marg,), Err::<M, E>(e)));
                        assert(material_mapper_failed::<M, E, MM>(material_mapper, e));
                    }
                    return Err(e);
                },
            }
            mi = mi + 1;
        }
        let ghost all_groups = groups_of_objects(obj@.objects);
        let mut vertex_groups: Vec<VG> = Vec::new();
        let mut material_mapping: Vec<Option<usize>> = Vec::new();
        let mut oi: usize = 0;
        proof {
            assert(obj@.objects.take(0) =~= Seq::<ObjectView>::empty());
        }
        while oi < obj.objects.len()
            invariant
                0 <= oi <= obj.objects@.len(),
                obj@.wf(),
                omv == obj@.materials,
                omv.len() == obj.materials@.len(),
                all_groups == groups_of_objects(obj@.objects),
                obj@.objects.len() == obj.objects@.len(),
                materials@.len() == omv.len(),
                forall|i: int|
                    0 <= i < omv.len() ==> call_ensures(
                        material_mapper,
                        (&obj.materials@[i],),
                        Ok::<M, E>(#[trigger] materials@[i]),
                    ),
                forall|faces: Vec<Vec<FaceVertex>>| call_requires(vertex_mapper, (faces,)),
                vertex_groups@.len() == groups_of_objects(obj@.objects.take(oi as int)).len(),
                material_mapping@.len() == vertex_groups@.len(),
                forall|k: int|
                    0 <= k < material_mapping@.len() ==> #[trigger] material_mapping@[k] == match resolved_material(
                        omv,
                        groups_of_objects(obj@.objects.take(oi as int))[k].material_name,
                    ) {
                        Some(m) => Some(m as usize),
                        None => None::<usize>,
                    },
                forall|k: int|
                    0 <= k < vertex_groups@.len() ==> vertex_group_matches(
                        vertex_mapper,
                        groups_of_objects(obj@.objects.take(oi as int))[k],
                        #[trigger] vertex_groups@[k],
                    ),
                forall|k: int|
                    0 <= k < material_mapping@.len() ==> match #[trigger] material_mapping@[k] {
                        Some(m) => m < materials@.len(),
                        None => true,
                    },
            decreases obj.objects@.len() - oi,
        {
            let object = &obj.objects[oi];
            let ghost prefix = groups_of_objects(obj@.objects.take(oi as int));
            let mut gi: usize = 0;
            proof {
                lemma_groups_take_step(obj@.objects, oi as int);
                assert(obj@.objects[oi as int] =~~= object.deep_view());
                assert(prefix + object@.groups.take(0) =~~= prefix);
            }
            while gi < object.groups.len()
                invariant
                    0 <= gi <= object.groups@.len(),
                    obj@.wf(),
                    omv == obj@.materials,
                    omv.len() == obj.materials@.len(),
                    0 <= oi < obj.objects@.len(),
                    obj@.objects.len() == obj.objects@.len(),
                    object == &obj.objects@[oi as int],
                    object@.groups.len() == object.groups@.len(),
                    object@ == obj@.objects[oi as int],
                    prefix == groups_of_objects(obj@.objects.take(oi as int)),
                    materials@.len() == omv.len(),
                    forall|i: int|
                        0 <= i < omv.len() ==> call_ensures(
                            material_mapper,
                            (&obj.materials@[i],),
                            Ok::<M, E>(#[trigger] materials@[i]),
                        ),
                    forall|faces: Vec<Vec<FaceVertex>>| call_requires(vertex_mapper, (faces,)),
                    vertex_groups@.len() == prefix.len() + gi,
                    material_mapping@.len() == vertex_groups@.len(),
                    forall|k: int|
                        0 <= k < material_mapping@.len() ==> #[trigger] material_mapping@[k] == match resolved_material(
                            omv,
                            (prefix + object@.groups.take(gi as int))[k].material_name,
                        ) {
                            Some(m) => Some(m as usize),
                            None => None::<usize>,
                        },
                    forall|k: int|
                        0 <= k < vertex_groups@.len() ==> vertex_group_matches(
                            vertex_mapper,
                            (prefix + object@.groups.take(gi as int))[k],
                            #[trigger] vertex_groups@[k],
                        ),
                    forall|k: int|
                        0 <= k < material_mapping@.len() ==> match #[trigger] material_mapping@[k] {
                            Some(m) => m < materials@.len(),
                            None => true,
                        },
                decreases object.groups@.len() - gi,
            {
                let group = &object.groups[gi];
                proof {
                    assert(object@.groups[gi as int] =~~= group.deep_view());
                    assert(obj@.objects[oi as int].wf());
                    assert(group@.wf());
                }
                let ghost gname = group@.material_name;
                let faces = group.faces();
                let ghost arg_v = faces;
                let mapped = match group.material_name() {
                    Some(name) => {
                        let fr = find_material_index(&obj.materials, name.as_slice());
                        proof {
                            assert(name.deep_view() =~= name@);
                            assert(gname == Some(name@));
                        }
                        fr
                    },
                    None => None,
                };
                proof {
                    assert(mapped == (match resolved_material(omv, gname) {
                        Some(m) => Some(m as usize),
                        None => None::<usize>,
                    }));
                }
                let vg = match vertex_mapper(faces) {
                    Ok(vg) => vg,
                    Err(e) => {
                        proof {
                            assert(call_ensures(vertex_mapper, (arg_v,), Err::<VG, E>(e)));
                            assert(vertex_mapper_failed::<VG, E, VM>(vertex_mapper, e));
                        }
                        return Err(e);
                    },
                };
                let ghost prev_vgs = vertex_groups@;
                let ghost prev_map = material_mapping@;
                vertex_groups.push(vg);
                material_mapping.push(mapped);
                gi = gi + 1;
                proof {
                    let cur = prefix + object@.groups.take(gi as int);
                    let old_cur = prefix + object@.groups.take(gi - 1);
                    let last = vertex_groups@.len() - 1;
                    assert(object@.groups.take(gi as int) =~~= object@.groups.take(gi - 1).push(
                        group@,
                    ));
                    assert(cur =~~= old_cur.push(group@));
                    assert(cur[last] =~~= group@);
                    assert(arg_v.deep_view() == resolved_faces(cur[last]));
                    assert(call_ensures(vertex_mapper, (arg_v,), Ok::<VG, E>(
                        vertex_groups@[last],
                    )));
                    assert(vertex_group_matches(vertex_mapper, cur[last], vertex_groups@[last]));
                    assert forall|k: int|
                        0 <= k < vertex_groups@.len() implies vertex_group_matches(
                        vertex_mapper,
                        cur[k],
                        #[trigger] vertex_groups@[k],
                    ) by {
                        if k < last {
                            assert(vertex_groups@[k] == prev_vgs[k]);
                            assert(cur[k] == old_cur[k]);
                            assert(vertex_group_matches(vertex_mapper, old_cur[k], prev_vgs[k]));
                        }
                    }
                    assert forall|k: int|
                        0 <= k < material_mapping@.len()
                            implies #[trigger] material_mapping@[k] == (match resolved_material(
                            omv,
                            cur[k].material_name,
                        ) {
                            Some(m) => Some(m as usize),
                            None => None::<usize>,
                        }) by {
                        if k < last {
                            assert(material_mapping@[k] == prev_map[k]);
                            assert(cur[k] == old_cur[k]);
                        } else {
                            assert(cur[k] == group@);
                        }
                    }
                }
            }
            oi = oi + 1;
            proof {
                assert(object@.groups.take(gi as int) =~~= object@.groups);
                lemma_groups_take_step(obj@.objects, oi - 1);
                let a = prefix + object@.groups.take(gi as int);
                let b = groups_of_objects(obj@.objects.take(oi as int));
                assert(a =~~= b);
                assert forall|k: int|
                    0 <= k < vertex_groups@.len() implies vertex_group_matches(
                    vertex_mapper,
                    b[k],
                    #[trigger] vertex_groups@[k],
                ) by {
                    assert(a[k] == b[k]);
                    assert(vertex_group_matches(vertex_mapper, a[k], vertex_groups@[k]));
                }
                assert forall|k: int|
                    0 <= k < material_mapping@.len()
                        implies #[trigger] material_mapping@[k] == (match resolved_material(
                        omv,
                        b[k].material_name,
                    ) {
                        Some(m) => Some(m as usize),
                        None => None::<usize>,
                    }) by {
                    assert(a[k] == b[k]);
                }
            }
        }
        proof {
            assert(obj@.objects.take(oi as int) =~= obj@.objects);
            let a = groups_of_objects(obj@.objects.take(oi as int));
            let b = groups_of_objects(obj@.objects);
            assert(a == b);
            assert forall|k: int|
                0 <= k < vertex_groups@.len() implies vertex_group_matches(
                vertex_mapper,
                b[k],
                #[trigger] vertex_groups@[k],
            ) by {
                assert(a[k] == b[k]);
                assert(vertex_group_matches(vertex_mapper, a[k], vertex_groups@[k]));
            }
            assert forall|k: int|
                0 <= k < material_mapping@.len()
                    implies #[trigger] material_mapping@[k] == (match resolved_material(
                    omv,
                    b[k].material_name,
                ) {
                    Some(m) => Some(m as usize),
                    None => None::<usize>,
                }) by {
                assert(a[k] == b[k]);
            }
        }
        Ok(Model { vertex_groups, material_mapping, materials })
    }
}

/// The fan triangulation of a face with `k` vertices: triangles
/// `(0, i + 1, i + 2)` around vertex zero, in order.
pub open spec fn fan_triangles(k: int) -> Seq<(int, int, int)> {
    Seq::new(if k >= 2 { (k - 2) as nat } else { 0 }, |i: int| (0int, i + 1, i + 2))
}

/// The set of vertex indices the triangles use.
pub open spec fn triangle_index_set(ts: Seq<(int, int, int)>) -> Set<int> {
    Set::new(
        |x: int|
            exists|i: int|
                0 <= i < ts.len() && ((#[trigger] ts[i]).0 == x || ts[i].1 == x || ts[i].2 == x),
    )
}

/// Fan triangulation of a face with at least three vertices yields exactly
/// `k - 2` triangles, and together their vertex indices are exactly the
/// face's full index set.
pub proof fn lemma_fan_triangulation_covers(k: int)
    requires
        k >= 3,
    ensures
        fan_triangles(k).len() == k - 2,
        triangle_index_set(fan_triangles(k)) =~= Set::new(|x: int| 0 <= x < k),
{
    let ts = fan_triangles(k);
    assert forall|x: int| Set::new(|y: int| 0 <= y < k).contains(x) implies triangle_index_set(
        ts,
    ).contains(x) by {
        if x == 0 {
            assert(ts[0].0 == 0);
        } else if x == 1 {
            assert(ts[0].1 == 1);
        } else {
            assert(ts[x - 2].2 == x);
        }
    }
    assert forall|x: int| triangle_index_set(ts).contains(x) implies Set::new(
        |y: int| 0 <= y < k,
    ).contains(x) by {
        let i = choose|i: int|
            0 <= i < ts.len() && ((#[trigger] ts[i]).0 == x || ts[i].1 == x || ts[i].2 == x);
        assert(ts[i].0 == 0 && ts[i].1 == i + 1 && ts[i].2 == i + 2);
    }
}

/// Fan-triangulates a face with `k` vertices into vertex-index triples
/// `(0, i + 1, i + 2)`; a face with fewer than three vertices yields no
/// triangle.
pub fn triangulate_fan(k: usize) -> (r: Vec<(usize, usize, usize)>)
    ensures
        r@.len() == fan_triangles(k as int).len(),
        forall|i: int|
            0 <= i < r@.len() ==> ((#[trigger] r@[i]).0 as int, r@[i].1 as int, r@[i].2 as int)
                == fan_triangles(k as int)[i],
{
    let mut out: Vec<(usize, usize, usize)> = Vec::new();
    if k < 3 {
        return out;
    }
    let mut i: usize = 0;
    while i < k - 2
        invariant
            3 <= k,
            0 <= i <= k - 2,
            out@.len() == i,
            forall|j: int|
                0 <= j < out@.len() ==> ((#[trigger] out@[j]).0 as int, out@[j].1 as int, out@[j].2
                    as int) == fan_triangles(k as int)[j],
        decreases k - 2 - i,
    {
        out.push((0, i + 1, i + 2));
        i = i + 1;
    }
    out
}

/// A sequence of machine indices as mathematical integers.
pub open spec fn as_ints(s: Seq<usize>) -> Seq<int> {
    Seq::new(s.len(), |i: int| s[i] as int)
}

/// The vertices of all faces from `k` on, concatenated in face order.
pub open spec fn flat_vertices(faces: Seq<Seq<FaceVertex>>, k: int) -> Seq<FaceVertex>
    decreases faces.len() - k,
{
    if k < 0 || k >= faces.len() {
        Seq::<FaceVertex>::empty()
    } else {
        faces[k] + flat_vertices(faces, k + 1)
    }
}

/// The index stream of one fan triangle: the face's first flattened vertex
/// and the two fan neighbours, all rebased by the face's position `base` in
/// the flattened vertex list.
pub open spec fn tri_chunk(base: int, i: int) -> Seq<int> {
    seq![base, base + i + 1, base + i + 2]
}

/// The index stream of the fan triangles of one face of `n` vertices, from
/// triangle `i` on.
pub open spec fn face_tris(base: int, n: int, i: int) -> Seq<int>
    decreases n - i,
{
    if n < 3 || i < 0 || i >= n - 2 {
        Seq::<int>::empty()
    } else {
        tri_chunk(base, i) + face_tris(base, n, i + 1)
    }
}

/// The index stream of all faces from `k` on, each fan-triangulated and
/// rebased on its position in the flattened vertex list.
pub open spec fn flat_indices(faces: Seq<Seq<FaceVertex>>, k: int, base: int) -> Seq<int>
    decreases faces.len() - k,
{
    if k < 0 || k >= faces.len() {
        Seq::<int>::empty()
    } else {
        face_tris(base, faces[k].len() as int, 0) + flat_indices(
            faces,
            k + 1,
            base + faces[k].len(),
        )
    }
}

/// Flattens resolved faces into one vertex list and one fan-triangulated
/// index stream over it, as a backend vertex and index buffer pair holds
/// them; a face with fewer than three vertices contributes its vertices and
/// no triangle.
pub fn flatten_faces(faces: &Vec<Vec<FaceVertex>>) -> (r: (Vec<FaceVertex>, Vec<usize>))
    ensures
        r.0@ == flat_vertices(faces.deep_view(), 0),
        as_ints(r.1@) == flat_indices(faces.deep_view(), 0, 0),
        forall|i: int| 0 <= i < r.1@.len() ==> #[trigger] r.1@[i] < r.0@.len(),
{
    let ghost dv = faces.deep_view();
    let mut vertices: Vec<FaceVertex> = Vec::new();
    let mut indices: Vec<usize> = Vec::new();
    let mut k: usize = 0;
    proof {
        assert(Seq::<FaceVertex>::empty() + flat_vertices(dv, 0) =~= flat_vertices(dv, 0));
        assert(as_ints(Seq::<usize>::empty()) + flat_indices(dv, 0, 0) =~= flat_indices(
            dv,
            0,
            0,
        ));
    }
    while k < faces.len()
        invariant
            0 <= k <= dv.len(),
            dv == faces.deep_view(),
            faces@.len() == dv.len(),
            flat_vertices(dv, 0) =~= vertices@ + flat_vertices(dv, k as int),
            flat_indices(dv, 0, 0) =~= as_ints(indices@) + flat_indices(
                dv,
                k as int,
                vertices@.len() as int,
            ),
            forall|i: int| 0 <= i < indices@.len() ==> #[trigger] indices@[i] < vertices@.len(),
        decreases dv.len() - k,
    {
        let face = &faces[k];
        let base = vertices.len();
        let n = face.len();
        proof {
            assert(dv[k as int] =~= face@);
        }
        let ghost vprev = vertices@;
        let mut j: usize = 0;
        while j < n
            invariant
                0 <= j <= face@.len(),
                n == face@.len(),
                vertices@ =~= vprev + face@.take(j as int),
            decreases face@.len() - j,
        {
            vertices.push(face[j]);
            j = j + 1;
            proof {
                assert(vprev + face@.take(j - 1) + seq![face@[j - 1]] =~= vprev + face@.take(
                    j as int,
                ));
            }
        }
        proof {
            assert(face@.take(n as int) =~= face@);
            assert(vertices@ =~= vprev + dv[k as int]);
            assert(vertices@ + flat_vertices(dv, k + 1) =~= vprev + flat_vertices(dv, k as int));
        }
        let ghost iprev = indices@;
        let total = vertices.len();
        if n >= 3 {
            let mut t: usize = 0;
            while t < n - 2
                invariant
                    0 <= t <= n - 2,
                    3 <= n == face@.len(),
                    base + n == total,
                    total == vertices@.len(),
                    as_ints(iprev) + face_tris(base as int, n as int, 0)
                        =~= as_ints(indices@) + face_tris(base as int, n as int, t as int),
                    forall|i: int|
                        0 <= i < indices@.len() ==> #[trigger] indices@[i] < vertices@.len(),
                decreases n - t,
            {
                let ghost imid = indices@;
                indices.push(base);
                indices.push(base + t + 1);
                indices.push(base + t + 2);
                t = t + 1;
                proof {
                    assert(as_ints(indices@) =~= as_ints(imid) + tri_chunk(
                        base as int,
                        t - 1,
                    ));
                    assert(as_ints(imid) + (tri_chunk(base as int, t - 1) + face_tris(
                        base as int,
                        n as int,
                        t as int,
                    )) =~= as_ints(indices@) + face_tris(base as int, n as int, t as int));
                }
            }
            proof {
                assert(face_tris(base as int, n as int, (n - 2) as int)
                    =~= Seq::<int>::empty());
                assert(as_ints(indices@) =~= as_ints(iprev) + face_tris(
                    base as int,
                    n as int,
                    0,
                ));
            }
        } else {
            proof {
                assert(face_tris(base as int, n as int, 0) =~= Seq::<int>::empty());
                assert(as_ints(indices@) =~= as_ints(iprev) + face_tris(
                    base as int,
                    n as int,
                    0,
                ));
            }
        }
        k = k + 1;
        proof {
            assert(as_ints(indices@) + flat_indices(dv, k as int, vertices@.len() as int)
                =~= as_ints(iprev) + flat_indices(dv, k - 1, base as int));
        }
    }
    proof {
        assert(flat_vertices(dv, k as int) =~= Seq::<FaceVertex>::empty());
        assert(vertices@ =~= flat_vertices(dv, 0));
        assert(flat_indices(dv, k as int, vertices@.len() as int) =~= Seq::<int>::empty());
        assert(as_ints(indices@) =~= flat_indices(dv, 0, 0));
    }
    (vertices, indices)
}

} // verus!
