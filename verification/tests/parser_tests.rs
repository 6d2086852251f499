use derky::{Error, FaceIndexPair, Vec3, WavefrontObj};

fn bits3(x: f32, y: f32, z: f32) -> Vec3 {
    Vec3::from_bits(x.to_bits(), y.to_bits(), z.to_bits())
}

#[test]
fn vertex_round_trip_is_exact() {
    let obj = WavefrontObj::parse_with_libraries(b"v 1.0 2.0 3.0\nf 1\n", &[]).unwrap();
    let group = &obj.objects()[0].groups()[0];
    assert_eq!(group.vertices()[0], bits3(1.0, 2.0, 3.0));
}

#[test]
fn zero_face_index_is_invalid() {
    let r = WavefrontObj::parse_with_libraries(b"v 1 2 3\nv 4 5 6\nv 7 8 9\nf 0 1 2\n", &[]);
    assert_eq!(r.unwrap_err(), Error::InvalidIndex);
}

#[test]
fn two_vertex_face_is_accepted_and_degenerate() {
    let obj = WavefrontObj::parse_with_libraries(b"v 0 0 0\nv 1 1 1\nf 1 2\n", &[]).unwrap();
    let group = &obj.objects()[0].groups()[0];
    assert_eq!(group.face_index_pairs().len(), 1);
    assert_eq!(group.face_index_pairs()[0].len(), 2);
    // A two-vertex face fan-triangulates to no triangle at all.
    assert_eq!(derky::model::triangulate_fan(2).len(), 0);
}

#[test]
fn faces_match_token_counts_and_positions_match_file_order() {
    let source = b"# a plain model\nv 0.0 0.0 0.0\nv 1.0 0.0 0.0\nv 0.0 1.0 0.0\nv 0.0 0.0 1.0\n\nf 1 2 3\nf 1 3 4 2\n";
    let obj = WavefrontObj::parse_with_libraries(source, &[]).unwrap();
    assert_eq!(obj.objects().len(), 1);
    let group = &obj.objects()[0].groups()[0];
    assert_eq!(group.vertices().len(), 4);
    assert_eq!(group.vertices()[0], bits3(0.0, 0.0, 0.0));
    assert_eq!(group.vertices()[1], bits3(1.0, 0.0, 0.0));
    assert_eq!(group.vertices()[2], bits3(0.0, 1.0, 0.0));
    assert_eq!(group.vertices()[3], bits3(0.0, 0.0, 1.0));
    let faces = group.face_index_pairs();
    assert_eq!(faces.len(), 2);
    assert_eq!(faces[0].len(), 3);
    assert_eq!(faces[1].len(), 4);
    assert_eq!(faces[0][0], FaceIndexPair(0, None, None));
    assert_eq!(faces[0][1], FaceIndexPair(1, None, None));
    assert_eq!(faces[0][2], FaceIndexPair(2, None, None));
    assert_eq!(faces[1][3], FaceIndexPair(1, None, None));
}

#[test]
fn face_vertex_with_uv_and_normal() {
    let source = b"v 0 0 0\nvt 0.5 0.5\nvn 0.0 1.0 0.0\nf 1/1/1\n";
    let obj = WavefrontObj::parse_with_libraries(source, &[]).unwrap();
    let group = &obj.objects()[0].groups()[0];
    assert_eq!(group.face_index_pairs()[0][0], FaceIndexPair(0, Some(0), Some(0)));
    assert_eq!(group.texture_uvs()[0].x, 0.5f32.to_bits());
    // `vn` values are stored normalized; this one already is.
    assert_eq!(group.normals()[0], bits3(0.0, 1.0, 0.0));
}

#[test]
fn normals_are_normalized_at_parse_time() {
    let obj =
        WavefrontObj::parse_with_libraries(b"v 0 0 0\nvn 0.0 2.0 0.0\nf 1//1\n", &[]).unwrap();
    let group = &obj.objects()[0].groups()[0];
    assert_eq!(group.normals()[0], bits3(0.0, 1.0, 0.0));
}

#[test]
fn two_part_face_token_is_rejected() {
    let r = WavefrontObj::parse_with_libraries(b"v 0 0 0\nvt 0 0\nf 1/1\n", &[]);
    assert_eq!(r.unwrap_err(), Error::InvalidFaceVertex);
}

#[test]
fn face_index_past_declared_vertices_is_invalid() {
    let r = WavefrontObj::parse_with_libraries(b"v 0 0 0\nf 2\n", &[]);
    assert_eq!(r.unwrap_err(), Error::InvalidIndex);
}

#[test]
fn indices_are_file_global_but_groups_are_local() {
    let source = b"v 0 0 0\nf 1\ng second\nv 1 1 1\nf 2\n";
    let obj = WavefrontObj::parse_with_libraries(source, &[]).unwrap();
    let groups = obj.objects()[0].groups();
    assert_eq!(groups.len(), 2);
    // The second group's `f 2` names the file's second vertex, which is the
    // group's own first one.
    assert_eq!(groups[1].face_index_pairs()[0][0], FaceIndexPair(0, None, None));
    assert_eq!(groups[1].vertices().len(), 1);
}

#[test]
fn index_into_an_earlier_group_is_invalid() {
    let r = WavefrontObj::parse_with_libraries(b"v 0 0 0\nf 1\ng second\nv 1 1 1\nf 1\n", &[]);
    assert_eq!(r.unwrap_err(), Error::InvalidIndex);
}

#[test]
fn empty_groups_are_discarded() {
    let obj = WavefrontObj::parse_with_libraries(b"g a\ng b\nv 0 0 0\nf 1\n", &[]).unwrap();
    assert_eq!(obj.objects().len(), 1);
    let groups = obj.objects()[0].groups();
    assert_eq!(groups.len(), 1);
    assert_eq!(groups[0].name().unwrap().as_slice(), b"b");
}

#[test]
fn objects_commit_on_o_lines() {
    let source = b"o first\nv 0 0 0\nf 1\no second\nv 1 1 1\nf 2\n";
    let obj = WavefrontObj::parse_with_libraries(source, &[]).unwrap();
    assert_eq!(obj.objects().len(), 2);
    assert_eq!(obj.objects()[0].name().unwrap().as_slice(), b"first");
    assert_eq!(obj.objects()[1].name().unwrap().as_slice(), b"second");
    assert_eq!(obj.objects()[1].groups()[0].face_index_pairs()[0][0], FaceIndexPair(0, None, None));
}

#[test]
fn not_enough_data_on_short_vertex_line() {
    let r = WavefrontObj::parse_with_libraries(b"v 1.0\n", &[]);
    assert_eq!(r.unwrap_err(), Error::NotEnoughData { found: 1, expected: 3 });
}

#[test]
fn not_enough_data_on_short_uv_line() {
    let r = WavefrontObj::parse_with_libraries(b"vt 1.0\n", &[]);
    assert_eq!(r.unwrap_err(), Error::NotEnoughData { found: 1, expected: 2 });
}

#[test]
fn malformed_number_is_a_parse_error() {
    let r = WavefrontObj::parse_with_libraries(b"v 1.0 x 3.0\n", &[]);
    assert_eq!(r.unwrap_err(), Error::ParseError);
}

#[test]
fn unknown_keywords_comments_and_blanks_are_ignored() {
    let source = b"# comment\n\ns off\nunknownkw 1 2 3\nv 0 0 0\nf 1\n";
    let obj = WavefrontObj::parse_with_libraries(source, &[]).unwrap();
    assert_eq!(obj.objects().len(), 1);
}

#[test]
fn mtllib_without_path_fails() {
    let r = WavefrontObj::parse_with_libraries(b"mtllib\n", &[]);
    assert_eq!(r.unwrap_err(), Error::PathNotFound);
}

#[test]
fn usemtl_binds_the_group_material() {
    let obj = WavefrontObj::parse_with_libraries(b"usemtl paint\nv 0 0 0\nf 1\n", &[]).unwrap();
    let group = &obj.objects()[0].groups()[0];
    assert_eq!(group.material_name().unwrap().as_slice(), b"paint");
}

#[test]
fn resolver_supplies_material_libraries() {
    let parser = derky::Parser::new(|path: Vec<u8>| {
        assert_eq!(path.as_slice(), b"scene.mtl");
        Ok(b"newmtl paint\nNs 1.0\n".to_vec())
    });
    let obj = parser.parse(b"mtllib scene.mtl\nv 0 0 0\nf 1\n").unwrap();
    assert_eq!(obj.materials().len(), 1);
    assert_eq!(obj.materials()[0].name().as_slice(), b"paint");
}

#[test]
fn resolver_errors_propagate() {
    let parser = derky::Parser::new(|_path: Vec<u8>| Err(Error::PathNotFound));
    let r = parser.parse(b"mtllib gone.mtl\nv 0 0 0\nf 1\n");
    assert_eq!(r.unwrap_err(), Error::PathNotFound);
}

#[test]
fn mtllib_paths_lists_paths_in_file_order() {
    let paths = derky::mtllib_paths(b"mtllib a.mtl\nv 0 0 0\nmtllib b.mtl\nf 1\n").unwrap();
    assert_eq!(paths.len(), 2);
    assert_eq!(paths[0].as_slice(), b"a.mtl");
    assert_eq!(paths[1].as_slice(), b"b.mtl");
}

#[test]
fn error_messages_describe_the_error() {
    assert_eq!(Error::InvalidIndex.message(), "invalid index definition");
    assert_eq!(Error::InvalidFaceVertex.message(), "invalid face vertex definition");
    assert_eq!(Error::PathNotFound.message(), "path not found");
}
