use derky::model::{flatten_faces, triangulate_fan};
use derky::{FaceVertex, Model, Vec3, WavefrontObj};
use std::collections::BTreeSet;

#[test]
fn minimal_textured_triangle_builds_one_group() {
    let source = b"mtllib scene.mtl\nusemtl paint\nv 0 0 0\nv 1 0 0\nv 0 1 0\nf 1 2 3\n";
    let lib = b"newmtl paint\nKd 1.0 0.0 0.0\n".to_vec();
    let obj = WavefrontObj::parse_with_libraries(source, &[lib]).unwrap();
    let model: Model<usize, Vec<u8>> = Model::from_obj(
        &obj,
        |faces: Vec<Vec<FaceVertex>>| Ok::<usize, ()>(faces.len()),
        |m: &derky::Material| Ok::<Vec<u8>, ()>(m.name().clone()),
    )
    .unwrap();
    assert_eq!(model.vertex_group_count(), 1);
    assert_eq!(model.material_mapping, vec![Some(0)]);
    assert_eq!(model.materials.len(), 1);
    let (vg, mat) = model.visit(0);
    assert_eq!(*vg, 1);
    assert_eq!(mat.unwrap().as_slice(), b"paint");
}

#[test]
fn unresolved_material_name_maps_to_none() {
    let source = b"usemtl missing\nv 0 0 0\nf 1\n";
    let obj = WavefrontObj::parse_with_libraries(source, &[]).unwrap();
    let model: Model<usize, u8> = Model::from_obj(
        &obj,
        |faces: Vec<Vec<FaceVertex>>| Ok::<usize, ()>(faces.len()),
        |_m: &derky::Material| Ok::<u8, ()>(0),
    )
    .unwrap();
    assert_eq!(model.material_mapping, vec![None]);
    let (_, mat) = model.visit(0);
    assert!(mat.is_none());
}

#[test]
fn mapper_errors_abort_the_build() {
    let obj = WavefrontObj::parse_with_libraries(b"v 0 0 0\nf 1\n", &[]).unwrap();
    let r: Result<Model<usize, u8>, &str> = Model::from_obj(
        &obj,
        |_faces: Vec<Vec<FaceVertex>>| Err("no backend"),
        |_m: &derky::Material| Ok(0),
    );
    match r {
        Ok(_) => panic!("build should have failed"),
        Err(e) => assert_eq!(e, "no backend"),
    }
}

#[test]
fn faces_resolve_indices_to_elements() {
    let source = b"v 0.0 0.0 0.0\nv 1.0 0.0 0.0\nv 0.0 1.0 0.0\nf 1 2 3\n";
    let obj = WavefrontObj::parse_with_libraries(source, &[]).unwrap();
    let group = &obj.objects()[0].groups()[0];
    let faces = group.faces();
    assert_eq!(faces.len(), 1);
    assert_eq!(faces[0].len(), 3);
    assert_eq!(
        faces[0][1].position,
        Vec3::from_bits(1.0f32.to_bits(), 0.0f32.to_bits(), 0.0f32.to_bits())
    );
    assert!(faces[0][0].uv.is_none());
    assert!(faces[0][0].normal.is_none());
}

#[test]
fn fan_triangulation_counts_and_covers() {
    for k in 3..10usize {
        let tris = triangulate_fan(k);
        assert_eq!(tris.len(), k - 2);
        let mut used: BTreeSet<usize> = BTreeSet::new();
        for (a, b, c) in &tris {
            used.insert(*a);
            used.insert(*b);
            used.insert(*c);
        }
        let full: BTreeSet<usize> = (0..k).collect();
        assert_eq!(used, full);
    }
}

#[test]
fn fan_triangulation_of_a_pentagon() {
    assert_eq!(triangulate_fan(5), vec![(0, 1, 2), (0, 2, 3), (0, 3, 4)]);
}

#[test]
fn groups_build_in_object_then_group_order() {
    let source = b"o a\nv 0 0 0\nf 1\ng two\nv 1 1 1\nf 2\no b\nv 2 2 2\nf 3\n";
    let obj = WavefrontObj::parse_with_libraries(source, &[]).unwrap();
    let model: Model<usize, u8> = Model::from_obj(
        &obj,
        |faces: Vec<Vec<FaceVertex>>| Ok::<usize, ()>(faces[0].len()),
        |_m: &derky::Material| Ok::<u8, ()>(0),
    )
    .unwrap();
    assert_eq!(model.vertex_group_count(), 3);
    assert_eq!(model.material_mapping, vec![None, None, None]);
}

#[test]
fn flattening_concatenates_vertices_and_fans_indices() {
    let source = b"v 0 0 0\nv 1 0 0\nv 1 1 0\nv 0 1 0\nf 1 2 3 4\nf 1 2 3\nf 1 2\n";
    let obj = WavefrontObj::parse_with_libraries(source, &[]).unwrap();
    let faces = obj.objects()[0].groups()[0].faces();
    let (vertices, indices) = flatten_faces(&faces);
    // Four quad vertices, three triangle vertices, two degenerate vertices.
    assert_eq!(vertices.len(), 4 + 3 + 2);
    // The quad fans into two triangles, the triangle into one, the
    // two-vertex face into none.
    assert_eq!(indices, vec![0, 1, 2, 0, 2, 3, 4, 5, 6]);
    assert!(indices.iter().all(|&i| i < vertices.len()));
}
