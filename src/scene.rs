//! The scene: an append-only list of mesh instances and its running totals.
use vstd::prelude::*;
use crate::device::DeviceMesh;

verus! {

/// A placed instance of a mesh: its spawn coordinates and its device buffers.
pub struct Node<T, B> {
    pub coords: (T, T, T),
    pub primitive: DeviceMesh<B>,
}

impl<T, B> Node<T, B> {
    pub fn new(primitive: DeviceMesh<B>, coords: (T, T, T)) -> (r: Self)
        ensures
            r.primitive == primitive,
            r.coords == coords,
    {
        Node { coords, primitive }
    }

    pub fn set_x_y_z(&mut self, x: T, y: T, z: T)
        ensures
            final(self).coords == (x, y, z),
            final(self).primitive == old(self).primitive,
    {
        self.coords = (x, y, z);
    }
}

/// The totals that the host displays.
#[derive(Clone, Copy, Debug, PartialEq, Eq, Structural)]
pub struct SceneInfo {
    triangles: i32,
    vertex_count: i32,
}

impl SceneInfo {
    pub closed spec fn spec_triangles(&self) -> i32 {
        self.triangles
    }

    pub closed spec fn spec_vertex_count(&self) -> i32 {
        self.vertex_count
    }

    pub fn new(triangles: i32, vertex_count: i32) -> (r: Self)
        ensures
            r.spec_triangles() == triangles,
            r.spec_vertex_count() == vertex_count,
    {
        SceneInfo { triangles, vertex_count }
    }

    pub fn get_triangles(&self) -> (r: i32)
        ensures
            r == self.spec_triangles(),
    {
        self.triangles
    }

    pub fn get_vertex_count(&self) -> (r: i32)
        ensures
            r == self.spec_vertex_count(),
    {
        self.vertex_count
    }
}

/// The scene's counters, as numbers.
pub struct SceneModel {
    pub count: nat,
    pub base_triangles: int,
    pub base_vertices: int,
    pub triangles: int,
    pub vertex_count: int,
    pub spawn: bool,
}

/// The counters after one more instance of the base mesh is appended.
pub open spec fn spawned(s: SceneModel) -> SceneModel {
    SceneModel {
        count: s.count + 1,
        triangles: s.triangles + s.base_triangles,
        vertex_count: s.vertex_count + s.base_vertices,
        ..s
    }
}

/// Whether a tick adds an instance: spawning is on and the totals still fit
/// their counters once it is added.
pub open spec fn spawn_fits(s: SceneModel) -> bool {
    s.spawn && s.triangles + s.base_triangles <= i32::MAX && s.vertex_count + s.base_vertices
        <= i32::MAX
}

/// The counters after one tick.
pub open spec fn tick(s: SceneModel) -> SceneModel {
    if spawn_fits(s) {
        spawned(s)
    } else {
        s
    }
}

/// The counters after `n` ticks.
pub open spec fn after_ticks(s: SceneModel, n: nat) -> SceneModel
    decreases n,
{
    if n == 0 {
        s
    } else {
        tick(after_ticks(s, (n - 1) as nat))
    }
}

/// Monotonic growth: with spawning on, `n` ticks add exactly `n` instances;
/// where every instance so far is one of the base mesh, the totals stay the base
/// counts times the number of instances. This holds while those totals fit in
/// an `i32`, past which a tick adds nothing.
pub proof fn lemma_scene_growth(s: SceneModel, n: nat)
    requires
        s.spawn,
        0 <= s.base_triangles,
        0 <= s.base_vertices,
        s.triangles == s.base_triangles * s.count,
        s.vertex_count == s.base_vertices * s.count,
        s.base_triangles * (s.count + n) <= i32::MAX,
        s.base_vertices * (s.count + n) <= i32::MAX,
    ensures
        after_ticks(s, n).count == s.count + n,
        after_ticks(s, n).triangles == s.base_triangles * (s.count + n),
        after_ticks(s, n).vertex_count == s.base_vertices * (s.count + n),
        after_ticks(s, n).spawn,
        after_ticks(s, n).base_triangles == s.base_triangles,
        after_ticks(s, n).base_vertices == s.base_vertices,
    decreases n,
{
    if n > 0 {
        let m = (n - 1) as nat;
        assert(s.base_triangles * (s.count + m) <= s.base_triangles * (s.count + n)) by (nonlinear_arith)
            requires
                0 <= s.base_triangles,
                m < n,
        ;
        assert(s.base_vertices * (s.count + m) <= s.base_vertices * (s.count + n)) by (nonlinear_arith)
            requires
                0 <= s.base_vertices,
                m < n,
        ;
        lemma_scene_growth(s, m);
        let p = after_ticks(s, m);
        assert(p.triangles + p.base_triangles == s.base_triangles * (s.count + n)) by (nonlinear_arith)
            requires
                p.triangles == s.base_triangles * (s.count + m),
                p.base_triangles == s.base_triangles,
                n == m + 1,
        ;
        assert(p.vertex_count + p.base_vertices == s.base_vertices * (s.count + n)) by (nonlinear_arith)
            requires
                p.vertex_count == s.base_vertices * (s.count + m),
                p.base_vertices == s.base_vertices,
                n == m + 1,
        ;
    }
}

/// A scene of instances that all share one base mesh.
pub struct Scene<T, B> {
    nodes: Vec<Node<T, B>>,
    base_triangles: i32,
    base_vertices: i32,
    triangles: i32,
    vertex_count: i32,
    spawn: bool,
}

impl<T, B> Scene<T, B> {
    pub closed spec fn spec_nodes(&self) -> Seq<Node<T, B>> {
        self.nodes@
    }

    pub closed spec fn model(&self) -> SceneModel {
        SceneModel {
            count: self.nodes@.len(),
            base_triangles: self.base_triangles as int,
            base_vertices: self.base_vertices as int,
            triangles: self.triangles as int,
            vertex_count: self.vertex_count as int,
            spawn: self.spawn,
        }
    }

    /// Counters are never negative.
    pub open spec fn wf(&self) -> bool {
        let m = self.model();
        0 <= m.base_triangles && 0 <= m.base_vertices && 0 <= m.triangles && 0 <= m.vertex_count
    }

    /// A scene holding `first`, an instance of a mesh with `base_triangles`
    /// triangles and `base_vertices` corners; `spawn` turns on the growth of one
    /// instance per tick.
    pub fn new(first: Node<T, B>, base_triangles: i32, base_vertices: i32, spawn: bool) -> (r: Self)
        requires
            0 <= base_triangles,
            0 <= base_vertices,
        ensures
            r.wf(),
            r.spec_nodes() == seq![first],
            r.model() == (SceneModel {
                count: 1,
                base_triangles: base_triangles as int,
                base_vertices: base_vertices as int,
                triangles: base_triangles as int,
                vertex_count: base_vertices as int,
                spawn,
            }),
    {
        let mut nodes: Vec<Node<T, B>> = Vec::new();
        nodes.push(first);
        assert(nodes@ =~= seq![first]);
        Scene {
            nodes,
            base_triangles,
            base_vertices,
            triangles: base_triangles,
            vertex_count: base_vertices,
            spawn,
        }
    }

    /// The instances, in the order they were added.
    pub fn nodes(&self) -> (r: &Vec<Node<T, B>>)
        ensures
            r@ == self.spec_nodes(),
    {
        &self.nodes
    }

    pub fn info(&self) -> (r: SceneInfo)
        ensures
            r.spec_triangles() == self.model().triangles,
            r.spec_vertex_count() == self.model().vertex_count,
    {
        SceneInfo::new(self.triangles, self.vertex_count)
    }

    /// Whether this tick adds an instance. The host then uploads one more
    /// instance of the base mesh and hands it to `add_node`; either way the
    /// counters move as `tick` says.
    pub fn spawn_due(&self) -> (r: bool)
        requires
            self.wf(),
        ensures
            r == spawn_fits(self.model()),
    {
        self.spawn && self.triangles <= i32::MAX - self.base_triangles && self.vertex_count
            <= i32::MAX - self.base_vertices
    }

    /// Appends a new instance of the base mesh and adds its counts to the totals.
    pub fn add_node(&mut self, node: Node<T, B>)
        requires
            old(self).wf(),
            old(self).model().triangles + old(self).model().base_triangles <= i32::MAX,
            old(self).model().vertex_count + old(self).model().base_vertices <= i32::MAX,
        ensures
            final(self).wf(),
            final(self).spec_nodes() == old(self).spec_nodes().push(node),
            final(self).model() == spawned(old(self).model()),
    {
        self.nodes.push(node);
        self.triangles = self.triangles + self.base_triangles;
        self.vertex_count = self.vertex_count + self.base_vertices;
    }
}

} // verus!
