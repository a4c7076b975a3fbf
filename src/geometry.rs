//! CPU-side geometry: four de-interleaved attribute streams, one entry group
//! per triangle corner.
//!
//! The streams are generic over the scalar type: the host fills the tables with
//! the values it read from the records' spans, works out each face's tangent
//! frame, and the library lays everything out corner by corner.
use vstd::prelude::*;
use crate::mesh::{Face, LayoutModel, MeshLayout, layout_wf};

verus! {

/// One corner's attributes, gathered from the four streams.
pub struct Vertex<T> {
    pub position: [T; 3],
    pub uv: [T; 2],
    pub tangent: [T; 3],
    pub bitangent: [T; 3],
}

impl<T: Copy> Vertex<T> {
    pub fn new(position: [T; 3], uv: [T; 2], tangent: [T; 3], bitangent: [T; 3]) -> (r: Self)
        ensures
            r.position == position,
            r.uv == uv,
            r.tangent == tangent,
            r.bitangent == bitangent,
    {
        Vertex { position, uv, tangent, bitangent }
    }
}

/// A triangle's corner data: the three positions and the three texture
/// coordinates, in corner order.
pub struct TriangleData<T> {
    pub positions: [[T; 3]; 3],
    pub uvs: [[T; 2]; 3],
}

/// A face's tangent and bitangent, shared by its three corners.
#[derive(Clone, Copy)]
pub struct TangentFrame<T> {
    pub tangent: [T; 3],
    pub bitangent: [T; 3],
}

/// The parsed attribute streams of a mesh.
pub struct Geometry<T> {
    pub vertices: Vec<T>,
    pub uvs: Vec<T>,
    pub tangents: Vec<T>,
    pub bitangents: Vec<T>,
    pub triangles: usize,
    pub vertex_count: usize,
}

/// The value tables match the layout's records one for one.
pub open spec fn tables_match<T>(m: LayoutModel, positions: Seq<[T; 3]>, uvs: Seq<[T; 2]>) -> bool {
    positions.len() == m.positions.len() && uvs.len() == m.uvs.len()
}

impl<T: Copy> Geometry<T> {
    /// Every stream holds one entry group per corner.
    pub open spec fn wf(&self) -> bool {
        &&& self.vertex_count == 3 * self.triangles
        &&& self.vertices@.len() == 3 * self.vertex_count
        &&& self.uvs@.len() == 2 * self.vertex_count
        &&& self.tangents@.len() == 3 * self.vertex_count
        &&& self.bitangents@.len() == 3 * self.vertex_count
    }

    /// The streams laid out from the faces `faces`, the value tables and one
    /// tangent frame per face: corner `j` of face `f` is entry group `3 * f + j`
    /// (three scalars per group in the vec3 streams, two in the uv stream),
    /// its position and uv the table entries its 1-based indices name, its
    /// tangent and bitangent those of its face.
    pub open spec fn expands(
        &self,
        faces: Seq<Face>,
        positions: Seq<[T; 3]>,
        uvs: Seq<[T; 2]>,
        frames: Seq<TangentFrame<T>>,
    ) -> bool {
        &&& self.triangles == faces.len()
        &&& self.wf()
        &&& forall|f: int, j: int, k: int|
            0 <= f < faces.len() && 0 <= j < 3 && 0 <= k < 3 ==> {
                &&& #[trigger] self.vertices@[9 * f + 3 * j + k] == positions[faces[f].corner(
                    j,
                ).position - 1]@[k]
                &&& self.tangents@[9 * f + 3 * j + k] == frames[f].tangent@[k]
                &&& self.bitangents@[9 * f + 3 * j + k] == frames[f].bitangent@[k]
            }
        &&& forall|f: int, j: int, k: int|
            0 <= f < faces.len() && 0 <= j < 3 && 0 <= k < 2 ==> #[trigger] self.uvs@[6 * f + 2 * j
                + k] == uvs[faces[f].corner(j).uv - 1]@[k]
    }

    /// The attributes of corner `i`, gathered from the four streams.
    pub fn vertex(&self, i: usize) -> (r: Vertex<T>)
        requires
            self.wf(),
            i < self.vertex_count,
        ensures
            forall|k: int|
                0 <= k < 3 ==> {
                    &&& #[trigger] r.position@[k] == self.vertices@[3 * i + k]
                    &&& r.tangent@[k] == self.tangents@[3 * i + k]
                    &&& r.bitangent@[k] == self.bitangents@[3 * i + k]
                },
            forall|k: int| 0 <= k < 2 ==> #[trigger] r.uv@[k] == self.uvs@[2 * i + k],
    {
        let n = self.vertices.len();
        assert(3 * i + 2 < n);
        let a = 3 * i;
        let u = 2 * i;
        let position = [self.vertices[a], self.vertices[a + 1], self.vertices[a + 2]];
        let uv = [self.uvs[u], self.uvs[u + 1]];
        let tangent = [self.tangents[a], self.tangents[a + 1], self.tangents[a + 2]];
        let bitangent = [self.bitangents[a], self.bitangents[a + 1], self.bitangents[a + 2]];
        let r = Vertex::new(position, uv, tangent, bitangent);
        assert forall|k: int| 0 <= k < 3 implies #[trigger] r.position@[k] == self.vertices@[3 * i
            + k] by {
            if k == 1 {
                assert(r.position@[1] == self.vertices@[a + 1]);
            } else if k == 2 {
                assert(r.position@[2] == self.vertices@[a + 2]);
            }
        }
        r
    }

    /// A geometry from its streams and counts, taken as they are.
    pub fn new(
        vertices: Vec<T>,
        uvs: Vec<T>,
        tangents: Vec<T>,
        bitangents: Vec<T>,
        triangles: usize,
        vertex_count: usize,
    ) -> (r: Self)
        ensures
            r.vertices@ == vertices@,
            r.uvs@ == uvs@,
            r.tangents@ == tangents@,
            r.bitangents@ == bitangents@,
            r.triangles == triangles,
            r.vertex_count == vertex_count,
    {
        Geometry { vertices, uvs, tangents, bitangents, triangles, vertex_count }
    }
}

fn push3<T: Copy>(out: &mut Vec<T>, a: [T; 3])
    ensures
        final(out)@ == old(out)@ + a@,
{
    out.push(a[0]);
    out.push(a[1]);
    out.push(a[2]);
    assert(final(out)@ =~= old(out)@ + a@);
}

fn push2<T: Copy>(out: &mut Vec<T>, a: [T; 2])
    ensures
        final(out)@ == old(out)@ + a@,
{
    out.push(a[0]);
    out.push(a[1]);
    assert(final(out)@ =~= old(out)@ + a@);
}

/// The positions and texture coordinates of face `f`'s corners.
pub fn face_corners<T: Copy>(
    layout: &MeshLayout,
    positions: &Vec<[T; 3]>,
    uvs: &Vec<[T; 2]>,
    f: usize,
) -> (r: TriangleData<T>)
    requires
        layout_wf(layout@),
        tables_match(layout@, positions@, uvs@),
        f < layout.faces@.len(),
    ensures
        forall|j: int|
            0 <= j < 3 ==> {
                &&& #[trigger] r.positions@[j] == positions@[layout.faces@[f as int].corner(j).position
                    - 1]
                &&& r.uvs@[j] == uvs@[layout.faces@[f as int].corner(j).uv - 1]
            },
{
    let face = layout.faces[f];
    assert(face.corner(0) == face.a && face.corner(1) == face.b && face.corner(2) == face.c);
    let ghost m = layout@;
    assert(m.faces[f as int] == face);
    assert(face.corner(0) == m.faces[f as int].corner(0));
    assert(face.corner(1) == m.faces[f as int].corner(1));
    assert(face.corner(2) == m.faces[f as int].corner(2));
    let p = [
        positions[face.a.position - 1],
        positions[face.b.position - 1],
        positions[face.c.position - 1],
    ];
    let u = [uvs[face.a.uv - 1], uvs[face.b.uv - 1], uvs[face.c.uv - 1]];
    TriangleData { positions: p, uvs: u }
}

impl<T: Copy> Geometry<T> {
    /// Lays out the attribute streams corner by corner: each face's three corners
    /// in order, each corner's position and uv from the tables, and the face's
    /// tangent frame copied to all three of its corners.
    pub fn from_faces(
        layout: &MeshLayout,
        positions: &Vec<[T; 3]>,
        uvs: &Vec<[T; 2]>,
        frames: &Vec<TangentFrame<T>>,
    ) -> (r: Self)
        requires
            layout_wf(layout@),
            tables_match(layout@, positions@, uvs@),
            frames@.len() == layout.faces@.len(),
        ensures
            r.expands(layout.faces@, positions@, uvs@, frames@),
    {
        let ghost faces = layout.faces@;
        let n = layout.faces.len();
        let mut vs: Vec<T> = Vec::new();
        let mut us: Vec<T> = Vec::new();
        let mut ts: Vec<T> = Vec::new();
        let mut bs: Vec<T> = Vec::new();
        for f in 0..n
            invariant
                n == faces.len(),
                faces == layout.faces@,
                layout_wf(layout@),
                tables_match(layout@, positions@, uvs@),
                frames@.len() == n,
                vs@.len() == 9 * f,
                us@.len() == 6 * f,
                ts@.len() == 9 * f,
                bs@.len() == 9 * f,
                forall|g: int, j: int, k: int|
                    0 <= g < f && 0 <= j < 3 && 0 <= k < 3 ==> {
                        &&& #[trigger] vs@[9 * g + 3 * j + k] == positions@[faces[g].corner(
                            j,
                        ).position - 1]@[k]
                        &&& ts@[9 * g + 3 * j + k] == frames@[g].tangent@[k]
                        &&& bs@[9 * g + 3 * j + k] == frames@[g].bitangent@[k]
                    },
                forall|g: int, j: int, k: int|
                    0 <= g < f && 0 <= j < 3 && 0 <= k < 2 ==> #[trigger] us@[6 * g + 2 * j + k]
                        == uvs@[faces[g].corner(j).uv - 1]@[k],
        {
            let tri = face_corners(layout, positions, uvs, f);
            let fr = frames[f];
            let ghost (v0, u0, t0, b0) = (vs@, us@, ts@, bs@);
            push3(&mut vs, tri.positions[0]);
            push3(&mut vs, tri.positions[1]);
            push3(&mut vs, tri.positions[2]);
            push2(&mut us, tri.uvs[0]);
            push2(&mut us, tri.uvs[1]);
            push2(&mut us, tri.uvs[2]);
            push3(&mut ts, fr.tangent);
            push3(&mut ts, fr.tangent);
            push3(&mut ts, fr.tangent);
            push3(&mut bs, fr.bitangent);
            push3(&mut bs, fr.bitangent);
            push3(&mut bs, fr.bitangent);
            assert forall|g: int, j: int, k: int|
                0 <= g < f + 1 && 0 <= j < 3 && 0 <= k < 3 implies {
                    &&& #[trigger] vs@[9 * g + 3 * j + k] == positions@[faces[g].corner(
                        j,
                    ).position - 1]@[k]
                    &&& ts@[9 * g + 3 * j + k] == frames@[g].tangent@[k]
                    &&& bs@[9 * g + 3 * j + k] == frames@[g].bitangent@[k]
                } by {
                if g < f {
                    assert(vs@[9 * g + 3 * j + k] == v0[9 * g + 3 * j + k]);
                    assert(ts@[9 * g + 3 * j + k] == t0[9 * g + 3 * j + k]);
                    assert(bs@[9 * g + 3 * j + k] == b0[9 * g + 3 * j + k]);
                } else {
                    assert(vs@[9 * g + 3 * j + k] == tri.positions@[j]@[k]);
                }
            }
            assert forall|g: int, j: int, k: int|
                0 <= g < f + 1 && 0 <= j < 3 && 0 <= k < 2 implies #[trigger] us@[6 * g + 2 * j + k]
                    == uvs@[faces[g].corner(j).uv - 1]@[k] by {
                if g < f {
                    assert(us@[6 * g + 2 * j + k] == u0[6 * g + 2 * j + k]);
                } else {
                    assert(us@[6 * g + 2 * j + k] == tri.uvs@[j]@[k]);
                }
            }
        }
        let vertex_count = vs.len() / 3;
        Geometry {
            vertices: vs,
            uvs: us,
            tangents: ts,
            bitangents: bs,
            triangles: n,
            vertex_count,
        }
    }
}

/// Corner expansion: a geometry laid out from `F` faces has `3 * F` corners, and
/// its streams hold three, two, three and three scalars per corner.
pub proof fn lemma_corner_expansion<T: Copy>(
    g: Geometry<T>,
    faces: Seq<Face>,
    positions: Seq<[T; 3]>,
    uvs: Seq<[T; 2]>,
    frames: Seq<TangentFrame<T>>,
)
    requires
        g.expands(faces, positions, uvs, frames),
    ensures
        g.triangles == faces.len(),
        g.vertex_count == 3 * faces.len(),
        g.vertices@.len() == 3 * g.vertex_count,
        g.uvs@.len() == 2 * g.vertex_count,
        g.tangents@.len() == 3 * g.vertex_count,
        g.bitangents@.len() == 3 * g.vertex_count,
{
}

/// Flat tangent space: the three corners of a face carry the same tangent and
/// the same bitangent, namely the face's own frame.
pub proof fn lemma_frame_shared<T: Copy>(
    g: Geometry<T>,
    faces: Seq<Face>,
    positions: Seq<[T; 3]>,
    uvs: Seq<[T; 2]>,
    frames: Seq<TangentFrame<T>>,
    f: int,
)
    requires
        g.expands(faces, positions, uvs, frames),
        0 <= f < faces.len(),
    ensures
        forall|j: int, k: int|
            0 <= j < 3 && 0 <= k < 3 ==> {
                &&& #[trigger] g.tangents@[9 * f + 3 * j + k] == g.tangents@[9 * f + k]
                &&& g.bitangents@[9 * f + 3 * j + k] == g.bitangents@[9 * f + k]
                &&& g.tangents@[9 * f + 3 * j + k] == frames[f].tangent@[k]
                &&& g.bitangents@[9 * f + 3 * j + k] == frames[f].bitangent@[k]
            },
{
    assert forall|j: int, k: int| 0 <= j < 3 && 0 <= k < 3 implies {
        &&& #[trigger] g.tangents@[9 * f + 3 * j + k] == g.tangents@[9 * f + k]
        &&& g.bitangents@[9 * f + 3 * j + k] == g.bitangents@[9 * f + k]
        &&& g.tangents@[9 * f + 3 * j + k] == frames[f].tangent@[k]
        &&& g.bitangents@[9 * f + 3 * j + k] == frames[f].bitangent@[k]
    } by {
        assert(g.vertices@[9 * f + 3 * j + k] == positions[faces[f].corner(j).position - 1]@[k]);
        assert(g.vertices@[9 * f + 3 * 0 + k] == positions[faces[f].corner(0).position - 1]@[k]);
    }
}

/// Determinism: the streams are fixed by the faces, the tables and the frames;
/// two geometries laid out from the same inputs agree entry for entry.
pub proof fn lemma_layout_determined<T: Copy>(
    g1: Geometry<T>,
    g2: Geometry<T>,
    faces: Seq<Face>,
    positions: Seq<[T; 3]>,
    uvs: Seq<[T; 2]>,
    frames: Seq<TangentFrame<T>>,
)
    requires
        g1.expands(faces, positions, uvs, frames),
        g2.expands(faces, positions, uvs, frames),
    ensures
        g1.vertices@ == g2.vertices@,
        g1.uvs@ == g2.uvs@,
        g1.tangents@ == g2.tangents@,
        g1.bitangents@ == g2.bitangents@,
        g1.triangles == g2.triangles,
        g1.vertex_count == g2.vertex_count,
{
    let n = faces.len();
    assert forall|i: int| 0 <= i < 9 * n implies g1.vertices@[i] == g2.vertices@[i]
        && g1.tangents@[i] == g2.tangents@[i] && g1.bitangents@[i] == g2.bitangents@[i] by {
        let f = i / 9;
        let j = (i % 9) / 3;
        let k = i % 3;
        assert(i == 9 * f + 3 * j + k && 0 <= f < n && 0 <= j < 3 && 0 <= k < 3) by (nonlinear_arith)
            requires
                0 <= i < 9 * n,
                f == i / 9,
                j == (i % 9) / 3,
                k == i % 3,
        ;
        assert(g1.vertices@[9 * f + 3 * j + k] == g2.vertices@[9 * f + 3 * j + k]);
    }
    assert forall|i: int| 0 <= i < 6 * n implies g1.uvs@[i] == g2.uvs@[i] by {
        let f = i / 6;
        let j = (i % 6) / 2;
        let k = i % 2;
        assert(i == 6 * f + 2 * j + k && 0 <= f < n && 0 <= j < 3 && 0 <= k < 2) by (nonlinear_arith)
            requires
                0 <= i < 6 * n,
                f == i / 6,
                j == (i % 6) / 2,
                k == i % 2,
        ;
        assert(g1.uvs@[6 * f + 2 * j + k] == g2.uvs@[6 * f + 2 * j + k]);
    }
    assert(g1.vertices@ =~= g2.vertices@);
    assert(g1.uvs@ =~= g2.uvs@);
    assert(g1.tangents@ =~= g2.tangents@);
    assert(g1.bitangents@ =~= g2.bitangents@);
}

} // verus!
