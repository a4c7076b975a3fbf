use std::collections::HashMap;

use mesh_scene::device::{DeviceMesh, MeshUpload, Stream};
use mesh_scene::geometry::Geometry;

/// A stand-in device that counts, per handle, how often it was made and deleted.
struct CountingDevice {
    next: u32,
    fail_at: Option<u32>,
    created: HashMap<u32, u32>,
    deleted: HashMap<u32, u32>,
    filled: Vec<(u32, usize)>,
}

impl CountingDevice {
    fn new(fail_at: Option<u32>) -> Self {
        CountingDevice { next: 1, fail_at, created: HashMap::new(), deleted: HashMap::new(), filled: Vec::new() }
    }

    fn create(&mut self) -> Option<u32> {
        if self.fail_at == Some(self.next) {
            return None;
        }
        let h = self.next;
        self.next += 1;
        *self.created.entry(h).or_insert(0) += 1;
        Some(h)
    }

    fn delete(&mut self, h: u32) {
        *self.deleted.entry(h).or_insert(0) += 1;
    }
}

fn upload(dev: &mut CountingDevice, g: &Geometry<f32>) -> Result<DeviceMesh<u32>, ()> {
    let mut up = MeshUpload::new(g.vertex_count);
    while let Some(s) = up.next_stream() {
        match dev.create() {
            Some(h) => {
                dev.filled.push((h, g.stream(s).len()));
                up.add(h);
            }
            None => {
                for h in up.abort() {
                    dev.delete(h);
                }
                return Err(());
            }
        }
    }
    Ok(up.finish())
}

fn geometry() -> Geometry<f32> {
    Geometry::new(vec![0.0; 9], vec![0.0; 6], vec![1.0; 9], vec![2.0; 9], 1, 3)
}

#[test]
fn upload_then_release_deletes_each_buffer_once() {
    let mut dev = CountingDevice::new(None);
    let g = geometry();
    let mesh = upload(&mut dev, &g).unwrap();
    assert_eq!(mesh.vertex_count, 3);
    assert_eq!(dev.created.len(), 4);
    assert_eq!(dev.filled, vec![(1, 9), (2, 6), (3, 9), (4, 9)]);
    let handles = mesh.release();
    assert_eq!(handles, vec![1, 2, 3, 4]);
    for h in handles {
        dev.delete(h);
    }
    assert_eq!(dev.created, dev.deleted);
    assert!(dev.deleted.values().all(|&n| n == 1));
}

#[test]
fn failed_upload_deletes_what_it_made() {
    let mut dev = CountingDevice::new(Some(3));
    assert!(upload(&mut dev, &geometry()).is_err());
    assert_eq!(dev.created.len(), 2);
    assert_eq!(dev.created, dev.deleted);
}

#[test]
fn upload_order_and_component_counts() {
    let mut up: MeshUpload<u32> = MeshUpload::new(0);
    let mut order = Vec::new();
    while let Some(s) = up.next_stream() {
        order.push((s, s.components()));
        up.add(order.len() as u32);
    }
    assert_eq!(
        order,
        vec![(Stream::Position, 3), (Stream::Uv, 2), (Stream::Tangent, 3), (Stream::Bitangent, 3)]
    );
    let mesh = up.finish();
    assert_eq!(*mesh.buffer(Stream::Uv), 2);
    assert_eq!(*mesh.buffer(Stream::Bitangent), 4);
}

#[test]
fn mesh_new_keeps_handles() {
    let mesh = DeviceMesh::new(10u32, 11, 12, 13, 36);
    assert_eq!(*mesh.buffer(Stream::Position), 10);
    assert_eq!(*mesh.buffer(Stream::Tangent), 12);
    assert_eq!(mesh.vertex_count, 36);
    assert_eq!(mesh.release(), vec![10, 11, 12, 13]);
}

#[test]
fn geometry_streams_by_name() {
    let g = geometry();
    assert_eq!(g.stream(Stream::Position).len(), 9);
    assert_eq!(g.stream(Stream::Uv).len(), 6);
    assert_eq!(g.stream(Stream::Tangent)[0], 1.0);
    assert_eq!(g.stream(Stream::Bitangent)[0], 2.0);
}
