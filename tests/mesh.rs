use mesh_scene::mesh::{scan_mesh, Corner, MeshError, MeshLayout, Span};

fn text_of<'a>(src: &'a str, sp: Span) -> &'a str {
    &src[sp.start..sp.end]
}

fn scan_ok(src: &str) -> MeshLayout {
    match scan_mesh(src) {
        Ok(m) => m,
        Err(e) => panic!("refused: {:?}", e),
    }
}

const TRIANGLE: &str = "v 0 0 0\nv 1 0 0\nv 0 1 0\nvt 0 0\nvt 1 0\nvt 0 1\nvn 0 0 1\nf 1/1/1 2/2/1 3/3/1\n";

#[test]
fn scans_records_in_order() {
    let m = scan_ok(TRIANGLE);
    assert_eq!(m.positions.len(), 3);
    assert_eq!(m.uvs.len(), 3);
    assert_eq!(m.normals.len(), 1);
    assert_eq!(m.faces.len(), 1);
    let second = m.positions[1];
    assert_eq!(text_of(TRIANGLE, second.x), "1");
    assert_eq!(text_of(TRIANGLE, second.y), "0");
    assert_eq!(text_of(TRIANGLE, second.z), "0");
    let t2 = m.uvs[2];
    assert_eq!(text_of(TRIANGLE, t2.u), "0");
    assert_eq!(text_of(TRIANGLE, t2.v), "1");
    let f = m.faces[0];
    assert_eq!(f.a, Corner { position: 1, uv: 1, normal: 1 });
    assert_eq!(f.b, Corner { position: 2, uv: 2, normal: 1 });
    assert_eq!(f.c, Corner { position: 3, uv: 3, normal: 1 });
}

#[test]
fn first_face_indices_name_first_records() {
    let src = "v 5 6 7\nvt 0.25 0.75\nvn 0 1 0\nv 8 9 10\nf 1/1/1 2/1/1 1/1/1\n";
    let m = scan_ok(src);
    let a = m.faces[0].a;
    assert_eq!(a, Corner { position: 1, uv: 1, normal: 1 });
    let p = m.positions[a.position - 1];
    assert_eq!(text_of(src, p.x), "5");
    assert_eq!(text_of(src, p.z), "7");
    let t = m.uvs[a.uv - 1];
    assert_eq!(text_of(src, t.u), "0.25");
}

#[test]
fn skips_blank_lines_comments_and_other_tags() {
    let src = "\n# a comment\no cube\n   \ns off\nv 1 2 3\r\n\n";
    let m = scan_ok(src);
    assert_eq!(m.positions.len(), 1);
    assert_eq!(text_of(src, m.positions[0].z), "3");
    assert_eq!(m.faces.len(), 0);
}

#[test]
fn empty_text_has_no_records() {
    let m = scan_ok("");
    assert_eq!(m.positions.len(), 0);
    assert_eq!(m.faces.len(), 0);
}

#[test]
fn accepts_decimal_forms() {
    let src = "v -1.5 +2. .25\nvt 1e3 -2.5E-2\nvn 0 0 1 extra\n";
    let m = scan_ok(src);
    assert_eq!(text_of(src, m.positions[0].x), "-1.5");
    assert_eq!(text_of(src, m.positions[0].y), "+2.");
    assert_eq!(text_of(src, m.positions[0].z), ".25");
    assert_eq!(text_of(src, m.uvs[0].v), "-2.5E-2");
    assert_eq!(m.normals.len(), 1);
}

#[test]
fn words_split_on_tabs_and_runs_of_blanks() {
    let src = "v\t1   2\t\t3";
    let m = scan_ok(src);
    assert_eq!(text_of(src, m.positions[0].x), "1");
    assert_eq!(text_of(src, m.positions[0].y), "2");
    assert_eq!(text_of(src, m.positions[0].z), "3");
}

#[test]
fn refuses_bad_number() {
    assert_eq!(scan_mesh("v 1 2 3\nv 1 x 3\n").err(), Some(MeshError::MalformedMesh { line: 2 }));
    assert_eq!(scan_mesh("vt 1 .\n").err(), Some(MeshError::MalformedMesh { line: 1 }));
    assert_eq!(scan_mesh("vn 1 2 3e\n").err(), Some(MeshError::MalformedMesh { line: 1 }));
    assert_eq!(scan_mesh("v 1 2 nan\n").err(), Some(MeshError::MalformedMesh { line: 1 }));
}

#[test]
fn refuses_too_few_fields() {
    assert_eq!(scan_mesh("v 1 2\n").err(), Some(MeshError::MalformedMesh { line: 1 }));
    assert_eq!(scan_mesh("\nvt 1\n").err(), Some(MeshError::MalformedMesh { line: 2 }));
}

#[test]
fn refuses_non_triangle_faces() {
    let quad = "v 0 0 0\nv 1 0 0\nv 0 1 0\nv 1 1 0\nvt 0 0\nvn 0 0 1\nf 1/1/1 2/1/1 3/1/1 4/1/1\n";
    assert_eq!(scan_mesh(quad).err(), Some(MeshError::MalformedMesh { line: 7 }));
    let two = "v 0 0 0\nvt 0 0\nvn 0 0 1\nf 1/1/1 1/1/1\n";
    assert_eq!(scan_mesh(two).err(), Some(MeshError::MalformedMesh { line: 4 }));
}

#[test]
fn refuses_out_of_range_indices() {
    let head = "v 0 0 0\nvt 0 0\nvn 0 0 1\n";
    let past = format!("{}f 1/1/1 2/1/1 1/1/1\n", head);
    assert_eq!(scan_mesh(&past).err(), Some(MeshError::MalformedMesh { line: 4 }));
    let zero = format!("{}f 0/1/1 1/1/1 1/1/1\n", head);
    assert_eq!(scan_mesh(&zero).err(), Some(MeshError::MalformedMesh { line: 4 }));
    let normal = format!("{}f 1/1/2 1/1/1 1/1/1\n", head);
    assert_eq!(scan_mesh(&normal).err(), Some(MeshError::MalformedMesh { line: 4 }));
    let huge = format!("{}f 99999999999999999999999/1/1 1/1/1 1/1/1\n", head);
    assert_eq!(scan_mesh(&huge).err(), Some(MeshError::MalformedMesh { line: 4 }));
}

#[test]
fn refuses_faces_before_their_records() {
    let src = "f 1/1/1 1/1/1 1/1/1\nv 0 0 0\nvt 0 0\nvn 0 0 1\n";
    assert_eq!(scan_mesh(src).err(), Some(MeshError::MalformedMesh { line: 1 }));
}

#[test]
fn refuses_bad_corner_shapes() {
    let head = "v 0 0 0\nvt 0 0\nvn 0 0 1\n";
    for corner in ["1//1", "1/1", "1/1/1/1", "a/1/1", "1/1/", "/1/1"] {
        let src = format!("{}f {} 1/1/1 1/1/1\n", head, corner);
        assert_eq!(scan_mesh(&src).err(), Some(MeshError::MalformedMesh { line: 4 }), "{}", corner);
    }
}

#[test]
fn reports_first_malformed_line() {
    let src = "v 1 2 3\nv a b c\nv 1\n";
    assert_eq!(scan_mesh(src).err(), Some(MeshError::MalformedMesh { line: 2 }));
}
