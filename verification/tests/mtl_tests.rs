use derky::{MaterialProperty, Vec3, WavefrontObj};

fn parse_with_mtl(obj_source: &[u8], mtl_source: &[u8]) -> WavefrontObj {
    WavefrontObj::parse_with_libraries(obj_source, &[mtl_source.to_vec()]).unwrap()
}

fn bits3(x: f32, y: f32, z: f32) -> Vec3 {
    Vec3::from_bits(x.to_bits(), y.to_bits(), z.to_bits())
}

#[test]
fn empty_material_is_discarded() {
    let obj = parse_with_mtl(b"mtllib m.mtl\n", b"newmtl A\nnewmtl B\nNs 1.0\n");
    assert_eq!(obj.materials().len(), 1);
    assert_eq!(obj.materials()[0].name().as_slice(), b"B");
}

#[test]
fn empty_material_at_end_of_stream_yields_nothing() {
    let obj = parse_with_mtl(b"mtllib m.mtl\n", b"newmtl A\nnewmtl B\n");
    assert_eq!(obj.materials().len(), 0);
}

#[test]
fn final_material_commits_at_end_of_stream() {
    let obj = parse_with_mtl(b"mtllib m.mtl\n", b"newmtl only\nillum 2\n");
    assert_eq!(obj.materials().len(), 1);
    let m = &obj.materials()[0];
    assert_eq!(m.illumination(), Some(2));
}

#[test]
fn property_kinds_follow_their_keywords() {
    let source = b"newmtl full\nKa 0.1 0.2 0.3\nKd 1.0 0.5 0.25\nNs 96.0\nNi 1.5\nillum 7\nmap_Kd tex.png\n";
    let obj = parse_with_mtl(b"mtllib m.mtl\n", source);
    let m = &obj.materials()[0];
    assert_eq!(m.ambient_color(), Some(bits3(0.1, 0.2, 0.3)));
    assert_eq!(m.diffuse_color(), Some(bits3(1.0, 0.5, 0.25)));
    assert_eq!(m.specular_intensity(), Some(96.0f32.to_bits()));
    assert_eq!(m.illumination(), Some(7));
    assert_eq!(m.diffuse_map().unwrap().as_slice(), b"tex.png");
    assert_eq!(
        m.get(b"Ni".as_slice()),
        Some(&MaterialProperty::Float(1.5f32.to_bits()))
    );
    assert_eq!(m.get(b"Ke".as_slice()), None);
}

#[test]
fn doubled_backslashes_in_paths_collapse() {
    let obj = parse_with_mtl(
        b"mtllib m.mtl\n",
        b"newmtl t\nmap_Kd textures\\\\skin.png\n",
    );
    let m = &obj.materials()[0];
    assert_eq!(m.diffuse_map().unwrap().as_slice(), b"textures\\skin.png");
}

#[test]
fn rebinding_a_key_replaces_the_value_in_place() {
    let obj = parse_with_mtl(b"mtllib m.mtl\n", b"newmtl m\nillum 1\nillum 3\n");
    let m = &obj.materials()[0];
    assert_eq!(m.property_count(), 1);
    assert_eq!(m.illumination(), Some(3));
}

#[test]
fn materials_from_several_libraries_accumulate() {
    let libs = vec![b"newmtl a\nillum 1\n".to_vec(), b"newmtl b\nillum 2\n".to_vec()];
    let obj =
        WavefrontObj::parse_with_libraries(b"mtllib a.mtl\nmtllib b.mtl\n", &libs).unwrap();
    assert_eq!(obj.materials().len(), 2);
    assert_eq!(obj.materials()[0].name().as_slice(), b"a");
    assert_eq!(obj.materials()[1].name().as_slice(), b"b");
}

#[test]
fn mtl_comments_and_unknown_keywords_are_ignored() {
    let obj = parse_with_mtl(
        b"mtllib m.mtl\n",
        b"# library\nnewmtl m\nd 1.0\nsharpness 60\nillum 2\n",
    );
    let m = &obj.materials()[0];
    assert_eq!(m.property_count(), 1);
    assert_eq!(m.illumination(), Some(2));
}

#[test]
fn illum_with_bad_integer_fails() {
    let r = WavefrontObj::parse_with_libraries(
        b"mtllib m.mtl\n",
        &[b"newmtl m\nillum x\n".to_vec()],
    );
    assert_eq!(r.unwrap_err(), derky::Error::ParseError);
}
