use mesh_scene::device::DeviceMesh;
use mesh_scene::scene::{Node, Scene, SceneInfo};
use mesh_scene::texture::{texture_unit, TEXTURE0};

fn node(id: u32, vertex_count: usize) -> Node<f32, u32> {
    Node::new(DeviceMesh::new(4 * id, 4 * id + 1, 4 * id + 2, 4 * id + 3, vertex_count), (0.0, 0.0, 0.0))
}

#[test]
fn spawning_adds_one_instance_per_tick() {
    let mut scene = Scene::new(node(0, 36), 12, 36, true);
    let ticks = 5;
    for t in 1..=ticks {
        assert!(scene.spawn_due());
        scene.add_node(node(t, 36));
    }
    assert_eq!(scene.nodes().len(), 1 + ticks as usize);
    let info = scene.info();
    assert_eq!(info.get_triangles(), 12 * (1 + ticks as i32));
    assert_eq!(info.get_vertex_count(), 36 * (1 + ticks as i32));
    let order: Vec<u32> = scene.nodes().iter().map(|n| *n.primitive.buffer(mesh_scene::device::Stream::Position)).collect();
    assert_eq!(order, vec![0, 4, 8, 12, 16, 20]);
}

#[test]
fn no_spawning_keeps_the_scene() {
    let scene = Scene::new(node(0, 3), 1, 3, false);
    assert!(!scene.spawn_due());
    assert_eq!(scene.nodes().len(), 1);
    assert_eq!(scene.info(), SceneInfo::new(1, 3));
}

#[test]
fn spawning_stops_where_counters_would_overflow() {
    let big = i32::MAX / 2 + 1;
    let mut scene = Scene::new(node(0, 3), big, 3, true);
    assert!(!scene.spawn_due());
    let mut small = Scene::new(node(0, 3), big - 1, 3, true);
    assert!(small.spawn_due());
    small.add_node(node(1, 3));
    assert!(!small.spawn_due());
    scene = small;
    assert_eq!(scene.info().get_triangles(), 2 * (big - 1));
}

#[test]
fn node_coordinates() {
    let mut n = node(0, 3);
    assert_eq!(n.coords, (0.0, 0.0, 0.0));
    n.set_x_y_z(1.5, -2.0, 3.25);
    assert_eq!(n.coords, (1.5, -2.0, 3.25));
    assert_eq!(n.primitive.vertex_count, 3);
}

#[test]
fn scene_info_getters() {
    let info = SceneInfo::new(7, 21);
    assert_eq!(info.get_triangles(), 7);
    assert_eq!(info.get_vertex_count(), 21);
}

#[test]
fn texture_units_for_two_maps() {
    assert_eq!(texture_unit(0), Some(TEXTURE0));
    assert_eq!(texture_unit(1), Some(0x84C1));
    assert_eq!(texture_unit(2), None);
}

#[test]
fn config_values_are_kept() {
    let s = mesh_scene::config::JsShaders::new("void main() {}".to_string(), "precision mediump float;".to_string());
    assert_eq!(s.vert_str, "void main() {}");
    assert_eq!(s.frag_str, "precision mediump float;");
    let t = mesh_scene::config::JsTextureImage::new("diffuse".to_string(), vec![1, 2, 3]);
    assert_eq!(t.id, "diffuse");
    assert_eq!(t.data, vec![1, 2, 3]);
}
