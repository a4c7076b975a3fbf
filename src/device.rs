//! Device buffers of a mesh: which buffers exist, who owns them, and when they
//! are handed back for deletion.
//!
//! The host creates and deletes the buffers on the graphics device; these types
//! decide the order and keep the handles, so that every buffer made for a mesh
//! is handed back exactly once, on success and on failure alike.
use vstd::prelude::*;
use crate::geometry::Geometry;

verus! {

/// The four attribute streams of a mesh, in upload order.
#[derive(Clone, Copy, Debug, PartialEq, Eq, Structural)]
pub enum Stream {
    Position,
    Uv,
    Tangent,
    Bitangent,
}

/// The stream at position `i` of the upload order.
pub open spec fn stream_at(i: int) -> Stream {
    if i == 0 {
        Stream::Position
    } else if i == 1 {
        Stream::Uv
    } else if i == 2 {
        Stream::Tangent
    } else {
        Stream::Bitangent
    }
}

impl Stream {
    /// Scalars per entry group: two for texture coordinates, three otherwise.
    pub open spec fn spec_components(self) -> u32 {
        match self {
            Stream::Uv => 2,
            _ => 3,
        }
    }

    #[verifier::when_used_as_spec(spec_components)]
    pub fn components(self) -> (r: u32)
        ensures
            r == self.spec_components(),
    {
        match self {
            Stream::Uv => 2,
            _ => 3,
        }
    }
}

impl<T> Geometry<T> {
    /// The scalars of one stream.
    pub fn stream(&self, s: Stream) -> (r: &Vec<T>)
        ensures
            r == match s {
                Stream::Position => &self.vertices,
                Stream::Uv => &self.uvs,
                Stream::Tangent => &self.tangents,
                Stream::Bitangent => &self.bitangents,
            },
    {
        match s {
            Stream::Position => &self.vertices,
            Stream::Uv => &self.uvs,
            Stream::Tangent => &self.tangents,
            Stream::Bitangent => &self.bitangents,
        }
    }
}

/// A mesh on the device: one buffer per stream and the number of corners to draw.
pub struct DeviceMesh<B> {
    pub position: B,
    pub uv: B,
    pub tangent: B,
    pub bitangent: B,
    pub vertex_count: usize,
}

impl<B> DeviceMesh<B> {
    /// The buffers, in stream order.
    pub open spec fn handles(&self) -> Seq<B> {
        seq![self.position, self.uv, self.tangent, self.bitangent]
    }

    pub fn new(position: B, uv: B, tangent: B, bitangent: B, vertex_count: usize) -> (r: Self)
        ensures
            r.handles() == seq![position, uv, tangent, bitangent],
            r.vertex_count == vertex_count,
    {
        DeviceMesh { position, uv, tangent, bitangent, vertex_count }
    }

    /// The buffer that holds stream `s`.
    pub fn buffer(&self, s: Stream) -> (r: &B)
        ensures
            *r == match s {
                Stream::Position => self.position,
                Stream::Uv => self.uv,
                Stream::Tangent => self.tangent,
                Stream::Bitangent => self.bitangent,
            },
    {
        match s {
            Stream::Position => &self.position,
            Stream::Uv => &self.uv,
            Stream::Tangent => &self.tangent,
            Stream::Bitangent => &self.bitangent,
        }
    }

    /// Gives up the mesh and hands back its four buffers, in stream order, for
    /// the device to delete. The mesh is consumed, so this happens once.
    pub fn release(self) -> (r: Vec<B>)
        ensures
            r@ == self.handles(),
    {
        let mut out: Vec<B> = Vec::new();
        out.push(self.position);
        out.push(self.uv);
        out.push(self.tangent);
        out.push(self.bitangent);
        assert(out@ =~= seq![self.position, self.uv, self.tangent, self.bitangent]);
        out
    }
}

/// An upload in progress: the buffers created so far, one per stream in order.
pub struct MeshUpload<B> {
    created: Vec<B>,
    vertex_count: usize,
}

impl<B> MeshUpload<B> {
    pub closed spec fn spec_created(&self) -> Seq<B> {
        self.created@
    }

    pub closed spec fn spec_vertex_count(&self) -> usize {
        self.vertex_count
    }

    pub open spec fn wf(&self) -> bool {
        self.spec_created().len() <= 4
    }

    /// Starts the upload of a geometry with `vertex_count` corners.
    pub fn new(vertex_count: usize) -> (r: Self)
        ensures
            r.wf(),
            r.spec_created() == Seq::<B>::empty(),
            r.spec_vertex_count() == vertex_count,
    {
        MeshUpload { created: Vec::new(), vertex_count }
    }

    /// The stream whose buffer is to be created next, or `None` once all four are.
    pub fn next_stream(&self) -> (r: Option<Stream>)
        requires
            self.wf(),
        ensures
            self.spec_created().len() < 4 ==> r == Some(stream_at(self.spec_created().len() as int)),
            self.spec_created().len() == 4 ==> r is None,
    {
        let n = self.created.len();
        if n == 0 {
            Some(Stream::Position)
        } else if n == 1 {
            Some(Stream::Uv)
        } else if n == 2 {
            Some(Stream::Tangent)
        } else if n == 3 {
            Some(Stream::Bitangent)
        } else {
            None
        }
    }

    /// Records the buffer the device made, and filled, for the next stream.
    pub fn add(&mut self, b: B)
        requires
            old(self).wf(),
            old(self).spec_created().len() < 4,
        ensures
            final(self).wf(),
            final(self).spec_created() == old(self).spec_created().push(b),
            final(self).spec_vertex_count() == old(self).spec_vertex_count(),
    {
        self.created.push(b);
    }

    /// Gives up the upload after a failure and hands back every buffer created
    /// so far, in order, for the device to delete.
    pub fn abort(self) -> (r: Vec<B>)
        ensures
            r@ == self.spec_created(),
    {
        self.created
    }

    /// Completes the upload once all four buffers exist.
    pub fn finish(self) -> (r: DeviceMesh<B>)
        requires
            self.spec_created().len() == 4,
        ensures
            r.handles() == self.spec_created(),
            r.vertex_count == self.spec_vertex_count(),
    {
        let mut created = self.created;
        let bitangent = created.pop().unwrap();
        let tangent = created.pop().unwrap();
        let uv = created.pop().unwrap();
        let position = created.pop().unwrap();
        let r = DeviceMesh { position, uv, tangent, bitangent, vertex_count: self.vertex_count };
        assert(r.handles() =~= self.spec_created());
        r
    }
}

/// Resource symmetry: the buffers handed back by the mesh that a completed
/// upload produced are those the upload created, each as often as it was
/// created: four, one per stream, in stream order.
pub proof fn lemma_resource_symmetry<B>(u: MeshUpload<B>, m: DeviceMesh<B>, released: Seq<B>)
    requires
        u.spec_created().len() == 4,
        m.handles() == u.spec_created(),
        released == m.handles(),
    ensures
        released.len() == 4,
        released.to_multiset() == u.spec_created().to_multiset(),
        forall|i: int| 0 <= i < 4 ==> #[trigger] released[i] == u.spec_created()[i],
{
}

} // verus!
