//! Scene configuration handed over by the host page.
use vstd::prelude::*;

verus! {

/// A texture to load: the sampler uniform it feeds and its PNG bytes.
pub struct JsTextureImage {
    pub id: String,
    pub data: Vec<u8>,
}

/// The vertex and fragment shader sources.
pub struct JsShaders {
    pub vert_str: String,
    pub frag_str: String,
}

impl JsTextureImage {
    pub fn new(id: String, data: Vec<u8>) -> (r: Self)
        ensures
            r.id@ == id@,
            r.data@ == data@,
    {
        JsTextureImage { id, data }
    }
}

impl JsShaders {
    pub fn new(vert_str: String, frag_str: String) -> (r: Self)
        ensures
            r.vert_str@ == vert_str@,
            r.frag_str@ == frag_str@,
    {
        JsShaders { vert_str, frag_str }
    }
}

} // verus!
