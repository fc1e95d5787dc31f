//! The bindings of one draw: which program, which index buffer, which vertex
//! buffers at which attribute locations, which textures at which sampler
//! locations, which uniform values, and the depth and blend state. Building
//! an environment never fails; it is checked against the resources when the
//! frame is drawn.
use crate::glsl::GLSLAny;
use crate::handles::{BufferHandle, ShaderHandle, TextureHandle};
use vstd::prelude::*;

verus! {

/// Whether a slot is bound in a list of `(value, slot)` bindings.
pub open spec fn has_slot<K, L>(s: Seq<(K, L)>, slot: L) -> bool {
    exists|i: int| 0 <= i < s.len() && (#[trigger] s[i]).1 == slot
}

/// The position of the first binding of `slot`.
pub open spec fn slot_index<K, L>(s: Seq<(K, L)>, slot: L) -> int {
    choose|i: int|
        0 <= i < s.len() && (#[trigger] s[i]).1 == slot && forall|j: int|
            0 <= j < i ==> (#[trigger] s[j]).1 != slot
}

/// No slot is bound twice.
pub open spec fn slots_unique<K, L>(s: Seq<(K, L)>) -> bool {
    forall|i: int, j: int|
        0 <= i < s.len() && 0 <= j < s.len() && i != j ==> (#[trigger] s[i]).1 != (#[trigger] s[j]).1
}

/// Binds `e.0` at slot `e.1`: a binding already at that slot is replaced in
/// place, otherwise the binding goes last.
pub open spec fn bind_slot<K, L>(s: Seq<(K, L)>, e: (K, L)) -> Seq<(K, L)> {
    if has_slot(s, e.1) {
        s.update(slot_index(s, e.1), e)
    } else {
        s.push(e)
    }
}

/// Drops the binding at `slot`, if any, keeping the order of the others.
pub open spec fn unbind_slot<K, L>(s: Seq<(K, L)>, slot: L) -> Seq<(K, L)> {
    if has_slot(s, slot) {
        s.remove(slot_index(s, slot))
    } else {
        s
    }
}

/// Drops every binding of `k`, keeping the order of the others.
pub open spec fn without_key<K, L>(s: Seq<(K, L)>, k: K) -> Seq<(K, L)>
    decreases s.len(),
{
    if s.len() == 0 {
        s
    } else {
        let r = without_key(s.drop_last(), k);
        if s.last().0 == k {
            r
        } else {
            r.push(s.last())
        }
    }
}

/// The uniform list after setting `data` at `loc`; `GLSLAny::Unset` unsets it.
pub open spec fn uniform_update(s: Seq<(GLSLAny, i32)>, loc: i32, data: GLSLAny) -> Seq<
    (GLSLAny, i32),
> {
    if data is Unset {
        unbind_slot(s, loc)
    } else {
        bind_slot(s, (data, loc))
    }
}

/// Binding a second buffer at a slot leaves exactly one binding there, the
/// second one.
pub proof fn lemma_rebind_slot<L>(s: Seq<(usize, L)>, h1: usize, h2: usize, slot: L)
    requires
        slots_unique(s),
    ensures
        ({
            let r = bind_slot(bind_slot(s, (h1, slot)), (h2, slot));
            &&& slots_unique(r)
            &&& has_slot(r, slot)
            &&& r[slot_index(r, slot)] == (h2, slot)
            &&& forall|i: int| 0 <= i < r.len() && (#[trigger] r[i]).1 == slot ==> r[i].0 == h2
        }),
{
    let s1 = bind_slot(s, (h1, slot));
    lemma_bind_keeps_unique(s, (h1, slot));
    lemma_bind_keeps_unique(s1, (h2, slot));
    let r = bind_slot(s1, (h2, slot));
    if has_slot(s, slot) {
        let k = slot_index(s, slot);
        assert(s1[k].1 == slot);
    } else {
        assert(s1[s.len() as int].1 == slot);
    }
    assert(has_slot(s1, slot));
    let k = slot_index(s1, slot);
    assert(r[k] == (h2, slot));
    assert(has_slot(r, slot));
    let j = slot_index(r, slot);
    assert forall|i: int| 0 <= i < r.len() && (#[trigger] r[i]).1 == slot implies r[i].0 == h2 by {
        if i != k {
            assert(r[i].1 != r[k].1);
        }
    }
}

/// Unsetting a uniform that was just set leaves no uniform at its location.
pub proof fn lemma_unset_uniform(s: Seq<(GLSLAny, i32)>, loc: i32, value: GLSLAny)
    requires
        slots_unique(s),
    ensures
        !has_slot(uniform_update(uniform_update(s, loc, value), loc, GLSLAny::Unset), loc),
{
    let s1 = uniform_update(s, loc, value);
    if value is Unset {
        lemma_unbind_keeps_unique(s, loc);
    } else {
        lemma_bind_keeps_unique(s, (value, loc));
    }
    lemma_unbind_keeps_unique(s1, loc);
}

/// The depth test of a draw: off, or on with a comparison function.
#[derive(Clone, Copy, Debug, PartialEq, Eq, Structural)]
pub enum EnableDepth {
    No,
    Yes(u32),
}

/// Blending of a draw: off, or on with a source and a destination factor.
#[derive(Clone, Copy, Debug, PartialEq, Eq, Structural)]
pub enum EnableBlend {
    No,
    Yes(u32, u32),
}

/// The bindings and state of one draw. It holds handle ids only and owns no
/// resource.
pub struct DrawEnv {
    count: usize,
    offset: usize,
    shader: Option<usize>,
    indices: Option<usize>,
    buffers: Vec<(usize, u32)>,
    depth: EnableDepth,
    blend: EnableBlend,
    textures: Vec<(usize, i32)>,
    uniforms: Vec<(GLSLAny, i32)>,
}

proof fn lemma_first_slot<K, L>(s: Seq<(K, L)>, slot: L, i: int)
    requires
        0 <= i < s.len(),
        s[i].1 == slot,
        forall|j: int| 0 <= j < i ==> (#[trigger] s[j]).1 != slot,
    ensures
        has_slot(s, slot),
        slot_index(s, slot) == i,
{
    let k = slot_index(s, slot);
    assert(s[k].1 == slot);
}

proof fn lemma_bind_keeps_unique<K, L>(s: Seq<(K, L)>, e: (K, L))
    requires
        slots_unique(s),
    ensures
        slots_unique(bind_slot(s, e)),
{
    if has_slot(s, e.1) {
        let r = bind_slot(s, e);
        let k = slot_index(s, e.1);
        assert forall|i: int, j: int| 0 <= i < r.len() && 0 <= j < r.len() && i != j implies (
        #[trigger] r[i]).1 != (#[trigger] r[j]).1 by {
            assert(s[i].1 != s[j].1);
        }
    } else {
        let r = bind_slot(s, e);
        assert forall|i: int, j: int| 0 <= i < r.len() && 0 <= j < r.len() && i != j implies (
        #[trigger] r[i]).1 != (#[trigger] r[j]).1 by {
            if i < s.len() && j < s.len() {
                assert(s[i].1 != s[j].1);
            } else if i < s.len() {
                assert(s[i].1 != e.1);
            } else {
                assert(s[j].1 != e.1);
            }
        }
    }
}

proof fn lemma_unbind_keeps_unique<K, L>(s: Seq<(K, L)>, slot: L)
    requires
        slots_unique(s),
    ensures
        slots_unique(unbind_slot(s, slot)),
        !has_slot(unbind_slot(s, slot), slot),
{
    if has_slot(s, slot) {
        let k = slot_index(s, slot);
        let r = unbind_slot(s, slot);
        assert forall|i: int, j: int| 0 <= i < r.len() && 0 <= j < r.len() && i != j implies (
        #[trigger] r[i]).1 != (#[trigger] r[j]).1 by {
            let i2 = if i < k { i } else { i + 1 };
            let j2 = if j < k { j } else { j + 1 };
            assert(s[i2].1 != s[j2].1);
        }
        assert forall|i: int| 0 <= i < r.len() implies (#[trigger] r[i]).1 != slot by {
            let i2 = if i < k { i } else { i + 1 };
            assert(s[i2].1 != s[k].1);
        }
    }
}

proof fn lemma_without_key_from<K, L>(s: Seq<(K, L)>, k: K)
    ensures
        forall|i: int|
            0 <= i < without_key(s, k).len() ==> exists|j: int|
                0 <= j < s.len() && #[trigger] without_key(s, k)[i] == s[j],
        forall|i: int| 0 <= i < without_key(s, k).len() ==> (#[trigger] without_key(s, k)[i]).0 != k,
        slots_unique(s) ==> slots_unique(without_key(s, k)),
    decreases s.len(),
{
    if s.len() > 0 {
        let p = s.drop_last();
        lemma_without_key_from(p, k);
        let r = without_key(s, k);
        let rp = without_key(p, k);
        assert forall|i: int| 0 <= i < r.len() implies exists|j: int|
            0 <= j < s.len() && #[trigger] r[i] == s[j] by {
            if i < rp.len() {
                let j = choose|j: int| 0 <= j < p.len() && rp[i] == p[j];
                assert(r[i] == s[j]);
            } else {
                assert(r[i] == s[s.len() - 1]);
            }
        }
        if slots_unique(s) {
            assert(slots_unique(p));
            assert forall|i: int, j: int| 0 <= i < r.len() && 0 <= j < r.len() && i != j implies (
            #[trigger] r[i]).1 != (#[trigger] r[j]).1 by {
                if i < rp.len() && j < rp.len() {
                } else if i < rp.len() {
                    let a = choose|a: int| 0 <= a < p.len() && rp[i] == p[a];
                    assert(s[a] == p[a]);
                    assert(s[a].1 != s[s.len() - 1].1);
                } else {
                    let b = choose|b: int| 0 <= b < p.len() && rp[j] == p[b];
                    assert(s[b] == p[b]);
                    assert(s[b].1 != s[s.len() - 1].1);
                }
            }
        }
    }
}

/// What a draw environment holds, as plain values.
pub ghost struct DrawEnvView {
    pub count: usize,
    pub offset: usize,
    pub shader: Option<usize>,
    pub indices: Option<usize>,
    /// Vertex buffer bindings: buffer id and attribute location.
    pub buffers: Seq<(usize, u32)>,
    pub depth: EnableDepth,
    pub blend: EnableBlend,
    /// Texture bindings in the order they were added: texture id and sampler
    /// location.
    pub textures: Seq<(usize, i32)>,
    /// Uniform values and their locations.
    pub uniforms: Seq<(GLSLAny, i32)>,
}

impl DrawEnvView {
    /// At most one binding per attribute, sampler and uniform location, and
    /// no uniform holds the "no value" tag.
    pub open spec fn wf(self) -> bool {
        &&& slots_unique(self.buffers)
        &&& slots_unique(self.textures)
        &&& slots_unique(self.uniforms)
        &&& forall|i: int| 0 <= i < self.uniforms.len() ==> !((#[trigger] self.uniforms[i]).0 is Unset)
    }
}

/// Nothing bound, depth test and blending off.
pub open spec fn empty_env() -> DrawEnvView {
    DrawEnvView {
        count: 0,
        offset: 0,
        shader: None,
        indices: None,
        buffers: Seq::empty(),
        depth: EnableDepth::No,
        blend: EnableBlend::No,
        textures: Seq::empty(),
        uniforms: Seq::empty(),
    }
}

impl View for DrawEnv {
    type V = DrawEnvView;

    closed spec fn view(&self) -> DrawEnvView {
        DrawEnvView {
            count: self.count,
            offset: self.offset,
            shader: self.shader,
            indices: self.indices,
            buffers: self.buffers@,
            depth: self.depth,
            blend: self.blend,
            textures: self.textures@,
            uniforms: self.uniforms@,
        }
    }
}

fn first_attrib(s: &Vec<(usize, u32)>, slot: u32) -> (r: Option<usize>)
    ensures
        r is None <==> !has_slot(s@, slot),
        r matches Some(i) ==> i < s@.len() && slot_index(s@, slot) == i,
{
    let mut i: usize = 0;
    while i < s.len()
        invariant
            i <= s@.len(),
            forall|j: int| 0 <= j < i ==> (#[trigger] s@[j]).1 != slot,
        decreases s@.len() - i,
    {
        if s[i].1 == slot {
            proof {
                lemma_first_slot(s@, slot, i as int);
            }
            return Some(i);
        }
        i = i + 1;
    }
    None
}

fn first_location<K>(s: &Vec<(K, i32)>, loc: i32) -> (r: Option<usize>)
    ensures
        r is None <==> !has_slot(s@, loc),
        r matches Some(i) ==> i < s@.len() && slot_index(s@, loc) == i,
{
    let mut i: usize = 0;
    while i < s.len()
        invariant
            i <= s@.len(),
            forall|j: int| 0 <= j < i ==> (#[trigger] s@[j]).1 != loc,
        decreases s@.len() - i,
    {
        if s[i].1 == loc {
            proof {
                lemma_first_slot(s@, loc, i as int);
            }
            return Some(i);
        }
        i = i + 1;
    }
    None
}

fn without_id<L: Copy>(s: &Vec<(usize, L)>, id: usize) -> (r: Vec<(usize, L)>)
    ensures
        r@ == without_key(s@, id),
{
    let mut kept: Vec<(usize, L)> = Vec::new();
    let mut i: usize = 0;
    while i < s.len()
        invariant
            i <= s@.len(),
            kept@ == without_key(s@.take(i as int), id),
        decreases s@.len() - i,
    {
        assert(s@.take(i + 1).drop_last() =~= s@.take(i as int));
        if s[i].0 != id {
            kept.push(s[i]);
        }
        i = i + 1;
    }
    assert(s@.take(i as int) =~= s@);
    kept
}

impl DrawEnv {
    /// An empty environment: nothing bound, depth test and blending off.
    pub fn new() -> (r: Self)
        ensures
            r@.wf(),
            r@ == empty_env(),
    {
        DrawEnv {
            count: 0,
            offset: 0,
            shader: None,
            indices: None,
            buffers: Vec::new(),
            depth: EnableDepth::No,
            blend: EnableBlend::No,
            textures: Vec::new(),
            uniforms: Vec::new(),
        }
    }

    /// Draws `count` triangles, starting `offset` bytes into the index buffer.
    pub fn set_draw_count(&mut self, count: usize, offset: usize)
        ensures
            final(self)@ == (DrawEnvView { count, offset, ..old(self)@ }),
    {
        self.count = count;
        self.offset = offset;
    }

    pub fn add_shader(&mut self, shader_handle: &ShaderHandle)
        ensures
            final(self)@ == (DrawEnvView { shader: Some(shader_handle.id()), ..old(self)@ }),
    {
        self.shader = Some(shader_handle.get_id());
    }

    pub fn add_index_buffer<T>(&mut self, index_buffer_handle: &BufferHandle<T>)
        ensures
            final(self)@ == (DrawEnvView { indices: Some(index_buffer_handle.id()), ..old(self)@ }),
    {
        self.indices = Some(index_buffer_handle.get_id());
    }

    /// Binds the buffer at attribute location `attrib_loc`, replacing what was
    /// bound there.
    pub fn add_buffer<T>(&mut self, buffer_handle: &BufferHandle<T>, attrib_loc: u32)
        ensures
            final(self)@ == (DrawEnvView {
                buffers: bind_slot(old(self)@.buffers, (buffer_handle.id(), attrib_loc)),
                ..old(self)@
            }),
            old(self)@.wf() ==> final(self)@.wf(),
    {
        let id = buffer_handle.get_id();
        proof {
            if slots_unique(self.buffers@) {
                lemma_bind_keeps_unique(self.buffers@, (id, attrib_loc));
            }
        }
        match first_attrib(&self.buffers, attrib_loc) {
            Some(i) => self.buffers.set(i, (id, attrib_loc)),
            None => self.buffers.push((id, attrib_loc)),
        }
    }

    /// Drops every binding of the buffer.
    pub fn remove_buffer<T>(&mut self, buffer_handle: &BufferHandle<T>)
        ensures
            final(self)@ == (DrawEnvView {
                buffers: without_key(old(self)@.buffers, buffer_handle.id()),
                ..old(self)@
            }),
            old(self)@.wf() ==> final(self)@.wf(),
    {
        let id = buffer_handle.get_id();
        proof {
            lemma_without_key_from(self.buffers@, id);
        }
        self.buffers = without_id(&self.buffers, id);
    }

    /// Binds the texture at sampler location `loc`, replacing what was bound
    /// there; a new location goes after the others.
    pub fn add_texture(&mut self, texture_handle: &TextureHandle, loc: i32)
        ensures
            final(self)@ == (DrawEnvView {
                textures: bind_slot(old(self)@.textures, (texture_handle.id(), loc)),
                ..old(self)@
            }),
            old(self)@.wf() ==> final(self)@.wf(),
    {
        let id = texture_handle.get_id();
        proof {
            if slots_unique(self.textures@) {
                lemma_bind_keeps_unique(self.textures@, (id, loc));
            }
        }
        match first_location(&self.textures, loc) {
            Some(i) => self.textures.set(i, (id, loc)),
            None => self.textures.push((id, loc)),
        }
    }

    /// Drops every binding of the texture, keeping the order of the others.
    pub fn remove_texture(&mut self, texture_handle: &TextureHandle)
        ensures
            final(self)@ == (DrawEnvView {
                textures: without_key(old(self)@.textures, texture_handle.id()),
                ..old(self)@
            }),
            old(self)@.wf() ==> final(self)@.wf(),
    {
        let id = texture_handle.get_id();
        proof {
            lemma_without_key_from(self.textures@, id);
        }
        self.textures = without_id(&self.textures, id);
    }

    /// Sets the uniform at `loc` to `data`; `GLSLAny::Unset` unsets it.
    pub fn set_uniform(&mut self, loc: i32, data: GLSLAny)
        ensures
            final(self)@ == (DrawEnvView {
                uniforms: uniform_update(old(self)@.uniforms, loc, data),
                ..old(self)@
            }),
            old(self)@.wf() ==> final(self)@.wf(),
    {
        proof {
            if slots_unique(self.uniforms@) {
                lemma_bind_keeps_unique(self.uniforms@, (data, loc));
                lemma_unbind_keeps_unique(self.uniforms@, loc);
            }
        }
        let unset = data.is_none();
        match first_location(&self.uniforms, loc) {
            Some(i) => {
                if unset {
                    self.uniforms.remove(i);
                } else {
                    self.uniforms.set(i, (data, loc));
                }
            },
            None => {
                if !unset {
                    self.uniforms.push((data, loc));
                }
            },
        }
    }

    pub fn enable_depth(&mut self, arg1: u32)
        ensures
            final(self)@ == (DrawEnvView { depth: EnableDepth::Yes(arg1), ..old(self)@ }),
    {
        self.depth = EnableDepth::Yes(arg1);
    }

    pub fn disable_depth(&mut self)
        ensures
            final(self)@ == (DrawEnvView { depth: EnableDepth::No, ..old(self)@ }),
    {
        self.depth = EnableDepth::No;
    }

    pub fn enable_blend(&mut self, arg1: u32, arg2: u32)
        ensures
            final(self)@ == (DrawEnvView { blend: EnableBlend::Yes(arg1, arg2), ..old(self)@ }),
    {
        self.blend = EnableBlend::Yes(arg1, arg2);
    }

    pub fn disable_blend(&mut self)
        ensures
            final(self)@ == (DrawEnvView { blend: EnableBlend::No, ..old(self)@ }),
    {
        self.blend = EnableBlend::No;
    }

    pub fn count(&self) -> (r: usize)
        ensures
            r == self@.count,
    {
        self.count
    }

    pub fn offset(&self) -> (r: usize)
        ensures
            r == self@.offset,
    {
        self.offset
    }

    /// The id of the bound shader program, if one was bound.
    pub fn shader(&self) -> (r: Option<usize>)
        ensures
            r == self@.shader,
    {
        self.shader
    }

    /// The id of the bound index buffer, if one was bound.
    pub fn index_buffer(&self) -> (r: Option<usize>)
        ensures
            r == self@.indices,
    {
        self.indices
    }

    pub fn vertex_buffers(&self) -> (r: &Vec<(usize, u32)>)
        ensures
            r@ == self@.buffers,
    {
        &self.buffers
    }

    pub fn textures(&self) -> (r: &Vec<(usize, i32)>)
        ensures
            r@ == self@.textures,
    {
        &self.textures
    }

    pub fn uniforms(&self) -> (r: &Vec<(GLSLAny, i32)>)
        ensures
            r@ == self@.uniforms,
    {
        &self.uniforms
    }

    pub fn depth(&self) -> (r: EnableDepth)
        ensures
            r == self@.depth,
    {
        self.depth
    }

    pub fn blend(&self) -> (r: EnableBlend)
        ensures
            r == self@.blend,
    {
        self.blend
    }
}

} // verus!
