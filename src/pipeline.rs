//! The shader pipeline's bookkeeping: the locations it needs, how a mesh's
//! buffers are wired to its attributes, and a cache of extra uniform locations.
//!
//! Location lookups are made by the host on the device; the cache decides when
//! a lookup is needed and remembers both answers, found and missing.
use vstd::prelude::*;
use crate::device::{DeviceMesh, Stream, stream_at};

verus! {

/// Why the pipeline could not serve a request.
#[derive(Clone, Copy, Debug, PartialEq, Eq, Structural)]
pub enum PipelineError {
    /// A uniform the program does not have, or that was never looked up.
    UnknownUniform,
    /// An attribute the program does not have.
    UnknownAttribute,
}

/// How one stream is fed to the program: which attribute slot reads it and how
/// many scalars make one entry (tightly packed, no stride, no offset).
#[derive(Clone, Copy, Debug, PartialEq, Eq, Structural)]
pub struct AttribBinding {
    pub stream: Stream,
    pub location: u32,
    pub components: u32,
}

/// What the cache knows of a uniform name.
pub enum UniformLookup<'a, L> {
    /// Looked up and found.
    Resolved(&'a L),
    /// Looked up and missing from the program.
    Absent,
    /// Never looked up: the host asks the device and records the answer.
    NotQueried,
}

/// The cached answer for `k` among `es`: the latest entry with that name.
pub open spec fn find_entry<L>(es: Seq<(String, Option<L>)>, k: Seq<char>) -> Option<Option<L>>
    decreases es.len(),
{
    if es.len() == 0 {
        None
    } else if es.last().0@ == k {
        Some(es.last().1)
    } else {
        find_entry(es.drop_last(), k)
    }
}

/// The program's locations and the uniform cache.
pub struct DefaultPipeline<L> {
    perspective_loc: L,
    model_view_loc: L,
    attribs: [u32; 4],
    extra_uniforms: Vec<(String, Option<L>)>,
}

impl<L> DefaultPipeline<L> {
    pub closed spec fn spec_perspective_loc(&self) -> L {
        self.perspective_loc
    }

    pub closed spec fn spec_model_view_loc(&self) -> L {
        self.model_view_loc
    }

    /// The projection-matrix uniform.
    pub fn perspective_loc(&self) -> (r: &L)
        ensures
            *r == self.spec_perspective_loc(),
    {
        &self.perspective_loc
    }

    /// The per-instance model-matrix uniform.
    pub fn model_view_loc(&self) -> (r: &L)
        ensures
            *r == self.spec_model_view_loc(),
    {
        &self.model_view_loc
    }

    /// The attribute slot of each stream, in stream order.
    pub closed spec fn spec_attribs(&self) -> Seq<u32> {
        self.attribs@
    }

    /// What the cache holds for `name`: `None` if never looked up.
    pub closed spec fn cached(&self, name: Seq<char>) -> Option<Option<L>> {
        find_entry(self.extra_uniforms@, name)
    }

    /// A pipeline from the looked-up locations. The projection and model
    /// uniforms and the four attributes are required; a negative attribute
    /// location means the program lacks it. No extra uniform is cached yet.
    pub fn from_locations(
        perspective_loc: Option<L>,
        model_view_loc: Option<L>,
        vert_pos_loc: i32,
        vert_uv_loc: i32,
        vert_tang_loc: i32,
        vert_bitang_loc: i32,
    ) -> (r: Result<Self, PipelineError>)
        ensures
            perspective_loc is None || model_view_loc is None ==> r == Err::<Self, PipelineError>(
                PipelineError::UnknownUniform,
            ),
            perspective_loc is Some && model_view_loc is Some && (vert_pos_loc < 0 || vert_uv_loc
                < 0 || vert_tang_loc < 0 || vert_bitang_loc < 0) ==> r == Err::<Self, PipelineError>(
                PipelineError::UnknownAttribute,
            ),
            r matches Ok(p) ==> {
                &&& perspective_loc == Some(p.spec_perspective_loc())
                &&& model_view_loc == Some(p.spec_model_view_loc())
                &&& p.spec_attribs() == seq![
                    vert_pos_loc as u32,
                    vert_uv_loc as u32,
                    vert_tang_loc as u32,
                    vert_bitang_loc as u32,
                ]
                &&& forall|k: Seq<char>| p.cached(k) is None
            },
            perspective_loc is Some && model_view_loc is Some && vert_pos_loc >= 0 && vert_uv_loc
                >= 0 && vert_tang_loc >= 0 && vert_bitang_loc >= 0 ==> r is Ok,
    {
        let perspective_loc = match perspective_loc {
            Some(l) => l,
            None => return Err(PipelineError::UnknownUniform),
        };
        let model_view_loc = match model_view_loc {
            Some(l) => l,
            None => return Err(PipelineError::UnknownUniform),
        };
        if vert_pos_loc < 0 || vert_uv_loc < 0 || vert_tang_loc < 0 || vert_bitang_loc < 0 {
            return Err(PipelineError::UnknownAttribute);
        }
        let attribs = [
            vert_pos_loc as u32,
            vert_uv_loc as u32,
            vert_tang_loc as u32,
            vert_bitang_loc as u32,
        ];
        let p = DefaultPipeline {
            perspective_loc,
            model_view_loc,
            attribs,
            extra_uniforms: Vec::new(),
        };
        assert(p.spec_attribs() =~= seq![
            vert_pos_loc as u32,
            vert_uv_loc as u32,
            vert_tang_loc as u32,
            vert_bitang_loc as u32,
        ]);
        Ok(p)
    }

    /// The wiring of a mesh's four buffers, to be applied before each of its
    /// draws: stream `i` of the upload order goes to the `i`-th attribute slot
    /// with its own component count.
    pub fn bind<B>(&self, primitive: &DeviceMesh<B>) -> (r: Vec<AttribBinding>)
        ensures
            r@.len() == 4,
            forall|i: int|
                0 <= i < 4 ==> #[trigger] r@[i] == (AttribBinding {
                    stream: stream_at(i),
                    location: self.spec_attribs()[i],
                    components: stream_at(i).spec_components(),
                }),
    {
        let mut r: Vec<AttribBinding> = Vec::new();
        r.push(AttribBinding { stream: Stream::Position, location: self.attribs[0], components: 3 });
        r.push(AttribBinding { stream: Stream::Uv, location: self.attribs[1], components: 2 });
        r.push(AttribBinding { stream: Stream::Tangent, location: self.attribs[2], components: 3 });
        r.push(
            AttribBinding { stream: Stream::Bitangent, location: self.attribs[3], components: 3 },
        );
        r
    }

    /// What the cache knows of `name`.
    pub fn lookup_uniform(&self, name: &str) -> (r: UniformLookup<'_, L>)
        ensures
            match self.cached(name@) {
                None => r is NotQueried,
                Some(None) => r is Absent,
                Some(Some(l)) => r matches UniformLookup::Resolved(x) && *x == l,
            },
    {
        let key = name.to_owned();
        let mut i = self.extra_uniforms.len();
        assert(self.extra_uniforms@.take(i as int) =~= self.extra_uniforms@);
        while i > 0
            invariant
                i <= self.extra_uniforms@.len(),
                key@ == name@,
                find_entry(self.extra_uniforms@, name@) == find_entry(
                    self.extra_uniforms@.take(i as int),
                    name@,
                ),
            decreases i,
        {
            let ghost es = self.extra_uniforms@.take(i as int);
            assert(es.drop_last() =~= self.extra_uniforms@.take(i - 1));
            let e = &self.extra_uniforms[i - 1];
            if e.0 == key {
                return match &e.1 {
                    Some(l) => UniformLookup::Resolved(l),
                    None => UniformLookup::Absent,
                };
            }
            i = i - 1;
        }
        UniformLookup::NotQueried
    }

    /// Records the device's answer for a name never looked up before.
    pub fn record_uniform(&mut self, name: &str, loc: Option<L>)
        requires
            old(self).cached(name@) is None,
        ensures
            final(self).cached(name@) == Some(loc),
            forall|k: Seq<char>| k != name@ ==> final(self).cached(k) == old(self).cached(k),
            final(self).spec_attribs() == old(self).spec_attribs(),
            final(self).spec_perspective_loc() == old(self).spec_perspective_loc(),
            final(self).spec_model_view_loc() == old(self).spec_model_view_loc(),
    {
        let key = name.to_owned();
        let ghost es = self.extra_uniforms@;
        self.extra_uniforms.push((key, loc));
        assert(self.extra_uniforms@.drop_last() =~= es);
    }

    /// The location of an extra uniform, once looked up: `UnknownUniform` when
    /// the program lacks it or it was never looked up.
    pub fn get_extra_uniform(&self, key: &str) -> (r: Result<&L, PipelineError>)
        ensures
            match self.cached(key@) {
                Some(Some(l)) => r matches Ok(x) && *x == l,
                _ => r == Err::<&L, PipelineError>(PipelineError::UnknownUniform),
            },
    {
        match self.lookup_uniform(key) {
            UniformLookup::Resolved(l) => Ok(l),
            _ => Err(PipelineError::UnknownUniform),
        }
    }
}

} // verus!
