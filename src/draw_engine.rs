//! The engine of a frame: it owns the buffer, shader and texture tables and
//! the draw environments in ascending depth order, and turns them into the
//! device commands of one frame.
use crate::buffer::{Buffer, BufferTarget};
use crate::draw_env::{empty_env, DrawEnv, DrawEnvView};
use crate::glsl::AttribLayout;
use crate::handles::{BufferHandle, DrawEnvHandle, ShaderHandle, TextureHandle};
use crate::plan::{
    first_texture_error, first_vertex_error, index_buffer_ok, texture_commands, uniform_commands,
    vertex_commands, DeviceCommand, DrawError,
};
use crate::table::ResourceTable;
use crate::texture::Texture2D;
use vstd::prelude::*;

verus! {

/// A handle that names no live entry.
#[derive(Clone, Copy, Debug, PartialEq, Eq, Structural)]
pub struct InvalidHandle {
    pub id: usize,
}

/// A shader program slot. The program itself lives on the device.
#[derive(Clone, Copy, Debug)]
pub struct Shader {}

/// A draw environment registered with the engine, with its depth key and
/// diagnostic tag.
pub struct EnvSlot {
    pub depth: i64,
    pub id: usize,
    pub env: DrawEnv,
    pub line: u32,
}

/// A registered draw environment, as plain values.
pub ghost struct EnvSlotView {
    pub depth: i64,
    pub id: usize,
    pub env: DrawEnvView,
    pub line: u32,
}

pub open spec fn slot_view(s: EnvSlot) -> EnvSlotView {
    EnvSlotView { depth: s.depth, id: s.id, env: s.env@, line: s.line }
}

/// Everything a draw engine holds, as plain values.
pub ghost struct EngineView {
    pub buffers: Map<usize, (Buffer, u32)>,
    pub shaders: Map<usize, (Shader, u32)>,
    pub textures: Map<usize, (Texture2D, u32)>,
    pub next_buffer: nat,
    pub next_shader: nat,
    pub next_texture: nat,
    pub next_env: nat,
    /// The draw environments in the order they are drawn.
    pub envs: Seq<EnvSlotView>,
}

/// Ascending by depth.
pub open spec fn depth_sorted(envs: Seq<EnvSlotView>) -> bool {
    forall|i: int, j: int| 0 <= i <= j < envs.len() ==> (#[trigger] envs[i]).depth <= (#[trigger] envs[j]).depth
}

pub open spec fn has_env(envs: Seq<EnvSlotView>, id: usize) -> bool {
    exists|i: int| 0 <= i < envs.len() && (#[trigger] envs[i]).id == id
}

pub open spec fn env_index(envs: Seq<EnvSlotView>, id: usize) -> int {
    choose|i: int| 0 <= i < envs.len() && (#[trigger] envs[i]).id == id
}

/// The ids below `next`, each of which a registration has handed out.
pub open spec fn issued(next: nat) -> Set<usize> {
    Set::new(|id: usize| id < next)
}

impl EngineView {
    pub open spec fn wf(self) -> bool {
        &&& depth_sorted(self.envs)
        &&& forall|i: int, j: int|
            0 <= i < self.envs.len() && 0 <= j < self.envs.len() && i != j ==> (#[trigger] self.envs[i]).id
                != (#[trigger] self.envs[j]).id
        &&& forall|i: int| 0 <= i < self.envs.len() ==> (#[trigger] self.envs[i]).id < self.next_env
    }
}

/// The commands that draw one environment, or the error that stops the
/// frame at it: checks go shader, index buffer, vertex buffers in binding
/// order, then textures in binding order.
pub open spec fn env_plan(eng: EngineView, slot: EnvSlotView) -> Result<Seq<DeviceCommand>, DrawError> {
    let env = slot.env;
    let line = slot.line;
    if !(env.shader is Some && eng.shaders.contains_key(env.shader->0)) {
        Err(DrawError::MissingShader { line })
    } else if !(env.indices is Some && eng.buffers.contains_key(env.indices->0)) {
        Err(DrawError::MissingIndexBuffer { line })
    } else if !index_buffer_ok(eng.buffers[env.indices->0].0) {
        Err(DrawError::TypeMismatch { line, buffer: env.indices->0 })
    } else if first_vertex_error(eng.buffers, env.buffers, line) is Some {
        Err(first_vertex_error(eng.buffers, env.buffers, line)->0)
    } else if first_texture_error(eng.textures, env.textures, line) is Some {
        Err(first_texture_error(eng.textures, env.textures, line)->0)
    } else {
        Ok(
            seq![
                DeviceCommand::UseProgram { shader: env.shader->0 },
                DeviceCommand::BindIndexBuffer { buffer: env.indices->0 },
            ] + vertex_commands(eng.buffers, env.buffers) + texture_commands(env.textures) + seq![
                DeviceCommand::DepthTest(env.depth),
                DeviceCommand::Blend(env.blend),
            ] + uniform_commands(env.uniforms) + seq![
                DeviceCommand::DrawTriangles {
                    count: env.count,
                    offset: env.offset,
                    index_type: eng.buffers[env.indices->0].0.layout.scalar,
                },
            ],
        )
    }
}

/// The commands of the first `n` environments after the clear, or the error
/// of the first of them that fails.
pub open spec fn plan_prefix(eng: EngineView, n: nat) -> Result<Seq<DeviceCommand>, DrawError>
    decreases n,
{
    if n == 0 {
        Ok(seq![DeviceCommand::Clear])
    } else {
        match plan_prefix(eng, (n - 1) as nat) {
            Err(e) => Err(e),
            Ok(c) => match env_plan(eng, eng.envs[n - 1]) {
                Err(e) => Err(e),
                Ok(d) => Ok(c + d),
            },
        }
    }
}

/// The commands of a whole frame, environments in drawing order; or, where
/// an environment fails, its error and no command at all.
pub open spec fn frame_plan(eng: EngineView) -> Result<Seq<DeviceCommand>, DrawError> {
    plan_prefix(eng, eng.envs.len())
}

proof fn lemma_plan_stays_failed(eng: EngineView, k: nat, n: nat)
    requires
        k <= n,
        (plan_prefix(eng, k) is Err),
    ensures
        plan_prefix(eng, n) == plan_prefix(eng, k),
    decreases n - k,
{
    if k < n {
        lemma_plan_stays_failed(eng, k, (n - 1) as nat);
    }
}

proof fn lemma_plan_prefix_ok(eng: EngineView, k: nat)
    requires
        k <= eng.envs.len(),
        forall|j: int| 0 <= j < k ==> (#[trigger] env_plan(eng, eng.envs[j])) is Ok,
    ensures
        (plan_prefix(eng, k) is Ok),
    decreases k,
{
    if k > 0 {
        lemma_plan_prefix_ok(eng, (k - 1) as nat);
        assert(env_plan(eng, eng.envs[k - 1]) is Ok);
    }
}

/// A frame with an environment whose shader program is gone is not drawn at
/// all; where every environment before it is fine, the error names it.
pub proof fn lemma_missing_shader_stops_frame(eng: EngineView, k: int)
    requires
        0 <= k < eng.envs.len(),
        !(eng.envs[k].env.shader is Some && eng.shaders.contains_key(eng.envs[k].env.shader->0)),
    ensures
        (frame_plan(eng) is Err),
        (forall|j: int| 0 <= j < k ==> (#[trigger] env_plan(eng, eng.envs[j])) is Ok) ==> frame_plan(eng)
            == Err::<Seq<DeviceCommand>, DrawError>(DrawError::MissingShader { line: eng.envs[k].line }),
{
    let n = eng.envs.len();
    if plan_prefix(eng, k as nat) is Err {
        lemma_plan_stays_failed(eng, k as nat, n);
        if forall|j: int| 0 <= j < k ==> (#[trigger] env_plan(eng, eng.envs[j])) is Ok {
            lemma_plan_prefix_ok(eng, k as nat);
        }
    } else {
        assert(plan_prefix(eng, (k + 1) as nat) == Err::<Seq<DeviceCommand>, DrawError>(
            DrawError::MissingShader { line: eng.envs[k].line },
        ));
        lemma_plan_stays_failed(eng, (k + 1) as nat, n);
    }
}

/// Texture units go to an environment's textures in the order they were
/// bound, from unit 0 up, whatever their ids.
pub proof fn lemma_texture_units(eng: EngineView, slot: EnvSlotView)
    requires
        (env_plan(eng, slot) is Ok),
    ensures
        forall|k: int|
            0 <= k < slot.env.textures.len() ==> (#[trigger] env_plan(eng, slot)->Ok_0[2
                + slot.env.buffers.len() + k]) == (DeviceCommand::BindTexture {
                texture: slot.env.textures[k].0,
                unit: k as usize,
                loc: slot.env.textures[k].1,
            }),
{
    let env = slot.env;
    let c = env_plan(eng, slot)->Ok_0;
    assert forall|k: int| 0 <= k < env.textures.len() implies (#[trigger] c[2 + env.buffers.len() + k])
        == DeviceCommand::BindTexture {
        texture: env.textures[k].0,
        unit: k as usize,
        loc: env.textures[k].1,
    } by {
        let head = seq![
            DeviceCommand::UseProgram { shader: env.shader->0 },
            DeviceCommand::BindIndexBuffer { buffer: env.indices->0 },
        ];
        let vc = vertex_commands(eng.buffers, env.buffers);
        let tc = texture_commands(env.textures);
        let a = head + vc + tc;
        assert(a[2 + env.buffers.len() + k] == tc[k]);
    }
}

/// Owns the resource tables and the depth-ordered draw environments of one
/// device.
pub struct DrawEngine {
    buffers: ResourceTable<Buffer>,
    shaders: ResourceTable<Shader>,
    textures: ResourceTable<Texture2D>,
    draw_env_counter: usize,
    draw_envs: Vec<EnvSlot>,
}

impl View for DrawEngine {
    type V = EngineView;

    closed spec fn view(&self) -> EngineView {
        EngineView {
            buffers: self.buffers@,
            shaders: self.shaders@,
            textures: self.textures@,
            next_buffer: self.buffers.next_id(),
            next_shader: self.shaders.next_id(),
            next_texture: self.textures.next_id(),
            next_env: self.draw_env_counter as nat,
            envs: self.draw_envs@.map_values(|s: EnvSlot| slot_view(s)),
        }
    }
}

impl DrawEngine {
    pub closed spec fn wf(&self) -> bool {
        &&& self.buffers.wf()
        &&& self.shaders.wf()
        &&& self.textures.wf()
        &&& self@.wf()
    }

    pub fn new() -> (r: Self)
        ensures
            r.wf(),
            r@ == (EngineView {
                buffers: Map::empty(),
                shaders: Map::empty(),
                textures: Map::empty(),
                next_buffer: 0,
                next_shader: 0,
                next_texture: 0,
                next_env: 0,
                envs: Seq::empty(),
            }),
    {
        let r = DrawEngine {
            buffers: ResourceTable::new(),
            shaders: ResourceTable::new(),
            textures: ResourceTable::new(),
            draw_env_counter: 0,
            draw_envs: Vec::new(),
        };
        assert(r@.envs =~= Seq::<EnvSlotView>::empty());
        r
    }

    /// The id that the next buffer registration hands out.
    pub fn next_buffer_id(&self) -> (r: usize)
        ensures
            r == self@.next_buffer,
    {
        self.buffers.next()
    }

    /// The id that the next shader registration hands out.
    pub fn next_shader_id(&self) -> (r: usize)
        ensures
            r == self@.next_shader,
    {
        self.shaders.next()
    }

    /// The id that the next texture registration hands out.
    pub fn next_texture_id(&self) -> (r: usize)
        ensures
            r == self@.next_texture,
    {
        self.textures.next()
    }

    /// The id that the next draw environment registration hands out.
    pub fn next_draw_env_id(&self) -> (r: usize)
        ensures
            r == self@.next_env,
    {
        self.draw_env_counter
    }

    /// Registers an empty buffer whose elements read as `layout`. Its id was
    /// never handed out by this engine before.
    pub fn create_buffer<T>(&mut self, layout: AttribLayout, line: u32) -> (h: BufferHandle<T>)
        requires
            old(self).wf(),
            old(self)@.next_buffer < usize::MAX,
        ensures
            final(self).wf(),
            h.id() == old(self)@.next_buffer,
            !issued(old(self)@.next_buffer).contains(h.id()),
            issued(final(self)@.next_buffer) == issued(old(self)@.next_buffer).insert(h.id()),
            final(self)@ == (EngineView {
                buffers: old(self)@.buffers.insert(
                    h.id(),
                    (Buffer { buffer_type: None, layout, len: 0 }, line),
                ),
                next_buffer: old(self)@.next_buffer + 1,
                ..old(self)@
            }),
    {
        let id = self.buffers.create(Buffer::new(layout), line);
        assert(issued(self@.next_buffer) =~= issued(old(self)@.next_buffer).insert(id));
        BufferHandle::new(id)
    }

    /// Releases a buffer; a handle that names no live buffer is refused.
    pub fn free_buffer<T>(&mut self, buffer_handle: BufferHandle<T>) -> (r: Result<(), InvalidHandle>)
        requires
            old(self).wf(),
        ensures
            final(self).wf(),
            r is Ok <==> old(self)@.buffers.contains_key(buffer_handle.id()),
            r is Err ==> r == Err::<(), InvalidHandle>(InvalidHandle { id: buffer_handle.id() }),
            final(self)@ == (EngineView {
                buffers: old(self)@.buffers.remove(buffer_handle.id()),
                ..old(self)@
            }),
    {
        let id = buffer_handle.get_id();
        match self.buffers.free(id) {
            Some(_) => Ok(()),
            None => Err(InvalidHandle { id }),
        }
    }

    pub fn get_buffer<T>(&self, buffer_handle: &BufferHandle<T>) -> (r: Option<&Buffer>)
        requires
            self.wf(),
        ensures
            r is Some <==> self@.buffers.contains_key(buffer_handle.id()),
            r matches Some(b) ==> *b == self@.buffers[buffer_handle.id()].0,
    {
        self.buffers.get(buffer_handle.get_id())
    }

    /// A mutable borrow of a live buffer; writes through it change that
    /// buffer and nothing else.
    pub fn get_buffer_mut<T>(&mut self, buffer_handle: &BufferHandle<T>) -> (r: Option<&mut Buffer>)
        requires
            old(self).wf(),
        ensures
            r is Some <==> old(self)@.buffers.contains_key(buffer_handle.id()),
            r is None ==> *final(self) == *old(self),
            r matches Some(b) ==> *b == old(self)@.buffers[buffer_handle.id()].0,
            r matches Some(b) ==> final(self).wf(),
            r matches Some(b) ==> final(self)@ == (EngineView {
                buffers: old(self)@.buffers.insert(
                    buffer_handle.id(),
                    (*final(b), old(self)@.buffers[buffer_handle.id()].1),
                ),
                ..old(self)@
            }),
    {
        self.buffers.get_mut(buffer_handle.get_id())
    }

    /// Registers a shader program slot under a fresh id.
    pub fn create_shader(&mut self, line: u32) -> (h: ShaderHandle)
        requires
            old(self).wf(),
            old(self)@.next_shader < usize::MAX,
        ensures
            final(self).wf(),
            h.id() == old(self)@.next_shader,
            !issued(old(self)@.next_shader).contains(h.id()),
            issued(final(self)@.next_shader) == issued(old(self)@.next_shader).insert(h.id()),
            final(self)@ == (EngineView {
                shaders: old(self)@.shaders.insert(h.id(), (Shader {}, line)),
                next_shader: old(self)@.next_shader + 1,
                ..old(self)@
            }),
    {
        let id = self.shaders.create(Shader {}, line);
        assert(issued(self@.next_shader) =~= issued(old(self)@.next_shader).insert(id));
        ShaderHandle::new(id)
    }

    /// Releases a shader program slot; a handle that names no live one is
    /// refused.
    pub fn free_shader(&mut self, shader_handle: ShaderHandle) -> (r: Result<(), InvalidHandle>)
        requires
            old(self).wf(),
        ensures
            final(self).wf(),
            r is Ok <==> old(self)@.shaders.contains_key(shader_handle.id()),
            r is Err ==> r == Err::<(), InvalidHandle>(InvalidHandle { id: shader_handle.id() }),
            final(self)@ == (EngineView {
                shaders: old(self)@.shaders.remove(shader_handle.id()),
                ..old(self)@
            }),
    {
        let id = shader_handle.get_id();
        match self.shaders.free(id) {
            Some(_) => Ok(()),
            None => Err(InvalidHandle { id }),
        }
    }

    pub fn get_shader_mut(&mut self, shader_handle: &ShaderHandle) -> (r: Option<&mut Shader>)
        requires
            old(self).wf(),
        ensures
            r is Some <==> old(self)@.shaders.contains_key(shader_handle.id()),
            r is None ==> *final(self) == *old(self),
            r matches Some(b) ==> *b == old(self)@.shaders[shader_handle.id()].0,
            r matches Some(b) ==> final(self).wf(),
            r matches Some(b) ==> final(self)@ == (EngineView {
                shaders: old(self)@.shaders.insert(
                    shader_handle.id(),
                    (*final(b), old(self)@.shaders[shader_handle.id()].1),
                ),
                ..old(self)@
            }),
    {
        self.shaders.get_mut(shader_handle.get_id())
    }

    /// Registers an empty texture under a fresh id.
    pub fn create_texture(&mut self, line: u32) -> (h: TextureHandle)
        requires
            old(self).wf(),
            old(self)@.next_texture < usize::MAX,
        ensures
            final(self).wf(),
            h.id() == old(self)@.next_texture,
            !issued(old(self)@.next_texture).contains(h.id()),
            issued(final(self)@.next_texture) == issued(old(self)@.next_texture).insert(h.id()),
            final(self)@ == (EngineView {
                textures: old(self)@.textures.insert(
                    h.id(),
                    (Texture2D { width: 0, height: 0, format: None }, line),
                ),
                next_texture: old(self)@.next_texture + 1,
                ..old(self)@
            }),
    {
        let id = self.textures.create(Texture2D::new(), line);
        assert(issued(self@.next_texture) =~= issued(old(self)@.next_texture).insert(id));
        TextureHandle::new(id)
    }

    /// Releases a texture; a handle that names no live texture is refused.
    pub fn free_texture(&mut self, texture_handle: TextureHandle) -> (r: Result<(), InvalidHandle>)
        requires
            old(self).wf(),
        ensures
            final(self).wf(),
            r is Ok <==> old(self)@.textures.contains_key(texture_handle.id()),
            r is Err ==> r == Err::<(), InvalidHandle>(InvalidHandle { id: texture_handle.id() }),
            final(self)@ == (EngineView {
                textures: old(self)@.textures.remove(texture_handle.id()),
                ..old(self)@
            }),
    {
        let id = texture_handle.get_id();
        match self.textures.free(id) {
            Some(_) => Ok(()),
            None => Err(InvalidHandle { id }),
        }
    }

    pub fn get_texture(&self, texture_handle: &TextureHandle) -> (r: Option<&Texture2D>)
        requires
            self.wf(),
        ensures
            r is Some <==> self@.textures.contains_key(texture_handle.id()),
            r matches Some(t) ==> *t == self@.textures[texture_handle.id()].0,
    {
        self.textures.get(texture_handle.get_id())
    }

    /// A mutable borrow of a live texture; writes through it change that
    /// texture and nothing else.
    pub fn get_texture_mut(&mut self, texture_handle: &TextureHandle) -> (r: Option<&mut Texture2D>)
        requires
            old(self).wf(),
        ensures
            r is Some <==> old(self)@.textures.contains_key(texture_handle.id()),
            r is None ==> *final(self) == *old(self),
            r matches Some(t) ==> *t == old(self)@.textures[texture_handle.id()].0,
            r matches Some(t) ==> final(self).wf(),
            r matches Some(t) ==> final(self)@ == (EngineView {
                textures: old(self)@.textures.insert(
                    texture_handle.id(),
                    (*final(t), old(self)@.textures[texture_handle.id()].1),
                ),
                ..old(self)@
            }),
    {
        self.textures.get_mut(texture_handle.get_id())
    }

    /// Registers an empty draw environment at `depth`: it is drawn after every
    /// environment of a lower or equal depth and before every environment of
    /// a higher one.
    pub fn create_draw_env(&mut self, depth: i64, line: u32) -> (h: DrawEnvHandle)
        requires
            old(self).wf(),
            old(self)@.next_env < usize::MAX,
        ensures
            final(self).wf(),
            depth_sorted(final(self)@.envs),
            h.id() == old(self)@.next_env,
            !issued(old(self)@.next_env).contains(h.id()),
            exists|k: int|
                0 <= k <= old(self)@.envs.len() && (forall|i: int|
                    0 <= i < k ==> (#[trigger] old(self)@.envs[i]).depth <= depth) && (forall|i: int|
                    k <= i < old(self)@.envs.len() ==> (#[trigger] old(self)@.envs[i]).depth > depth)
                    && final(self)@.envs == old(self)@.envs.insert(
                    k,
                    EnvSlotView { depth, id: h.id(), env: empty_env(), line },
                ),
            final(self)@ == (EngineView {
                next_env: old(self)@.next_env + 1,
                envs: final(self)@.envs,
                ..old(self)@
            }),
    {
        let id = self.draw_env_counter;
        self.draw_env_counter = self.draw_env_counter + 1;
        let mut k: usize = 0;
        while k < self.draw_envs.len()
            invariant
                k <= self.draw_envs@.len(),
                forall|i: int| 0 <= i < k ==> (#[trigger] self.draw_envs@[i]).depth <= depth,
            ensures
                k <= self.draw_envs@.len(),
                forall|i: int| 0 <= i < k ==> (#[trigger] self.draw_envs@[i]).depth <= depth,
                k < self.draw_envs@.len() ==> self.draw_envs@[k as int].depth > depth,
            decreases self.draw_envs@.len() - k,
        {
            if self.draw_envs[k].depth > depth {
                break;
            }
            k = k + 1;
        }
        let ghost pre = self.draw_envs@;
        let env = DrawEnv::new();
        let ghost ev = env@;
        self.draw_envs.insert(k, EnvSlot { depth, id, env, line });
        proof {
            let old_envs = old(self)@.envs;
            assert(self@.envs =~= old_envs.insert(k as int, EnvSlotView { depth, id, env: ev, line }));
            assert forall|i: int| k <= i < old_envs.len() implies (#[trigger] old_envs[i]).depth > depth by {
                assert(old_envs[k as int].depth > depth);
            }
        }
        DrawEnvHandle::new(id)
    }

    fn find_env(&self, id: usize) -> (r: Option<usize>)
        requires
            self.wf(),
        ensures
            r is None <==> !has_env(self@.envs, id),
            r matches Some(i) ==> i < self@.envs.len() && self@.envs[i as int].id == id
                && env_index(self@.envs, id) == i,
    {
        let mut i: usize = 0;
        while i < self.draw_envs.len()
            invariant
                self.wf(),
                i <= self.draw_envs@.len(),
                forall|k: int| 0 <= k < i ==> (#[trigger] self.draw_envs@[k]).id != id,
            decreases self.draw_envs@.len() - i,
        {
            if self.draw_envs[i].id == id {
                proof {
                    let j = env_index(self@.envs, id);
                    assert(self@.envs[i as int].id == id);
                }
                return Some(i);
            }
            i = i + 1;
        }
        proof {
            assert forall|k: int| 0 <= k < self@.envs.len() implies (#[trigger] self@.envs[k]).id != id by {
                assert(self@.envs[k] == slot_view(self.draw_envs@[k]));
            }
        }
        None
    }

    /// Drops a draw environment, keeping the order of the others; a handle
    /// that names no registered environment is refused.
    pub fn free_draw_env(&mut self, draw_env_handle: &DrawEnvHandle) -> (r: Result<(), InvalidHandle>)
        requires
            old(self).wf(),
        ensures
            final(self).wf(),
            r is Ok <==> has_env(old(self)@.envs, draw_env_handle.id()),
            r is Err ==> r == Err::<(), InvalidHandle>(InvalidHandle { id: draw_env_handle.id() })
                && *final(self) == *old(self),
            r is Ok ==> final(self)@ == (EngineView {
                envs: old(self)@.envs.remove(env_index(old(self)@.envs, draw_env_handle.id())),
                ..old(self)@
            }),
    {
        let id = draw_env_handle.get_id();
        match self.find_env(id) {
            None => Err(InvalidHandle { id }),
            Some(i) => {
                self.draw_envs.remove(i);
                assert(self@.envs =~= old(self)@.envs.remove(i as int));
                Ok(())
            },
        }
    }

    proof fn lemma_env_written(&self, i: int)
        requires
            self.wf(),
            0 <= i < self.draw_envs@.len(),
        ensures
            forall|post: Self|
                #![trigger post.wf()]
                #![trigger post.view()]
                post.buffers == self.buffers && post.shaders == self.shaders && post.textures
                    == self.textures && post.draw_env_counter == self.draw_env_counter
                    && post.draw_envs@.len() == self.draw_envs@.len()
                    && post.draw_envs@[i].depth == self.draw_envs@[i].depth
                    && post.draw_envs@[i].id == self.draw_envs@[i].id
                    && post.draw_envs@[i].line == self.draw_envs@[i].line
                    && (forall|j: int| 0 <= j < self.draw_envs@.len() && j != i
                        ==> post.draw_envs@[j] == self.draw_envs@[j])
                    ==> post.wf() && post@ == (EngineView {
                        envs: self@.envs.update(
                            i,
                            EnvSlotView { env: post.draw_envs@[i].env@, ..self@.envs[i] },
                        ),
                        ..self@
                    }),
    {
        assert forall|post: Self|
            #![trigger post.wf()]
            #![trigger post.view()]
            post.buffers == self.buffers && post.shaders == self.shaders && post.textures
                == self.textures && post.draw_env_counter == self.draw_env_counter
                && post.draw_envs@.len() == self.draw_envs@.len()
                && post.draw_envs@[i].depth == self.draw_envs@[i].depth
                && post.draw_envs@[i].id == self.draw_envs@[i].id
                && post.draw_envs@[i].line == self.draw_envs@[i].line
                && (forall|j: int| 0 <= j < self.draw_envs@.len() && j != i
                    ==> post.draw_envs@[j] == self.draw_envs@[j])
            implies post.wf() && post@ == (EngineView {
                envs: self@.envs.update(
                    i,
                    EnvSlotView { env: post.draw_envs@[i].env@, ..self@.envs[i] },
                ),
                ..self@
            }) by {
            assert(post@.envs =~= self@.envs.update(
                i,
                EnvSlotView { env: post.draw_envs@[i].env@, ..self@.envs[i] },
            ));
        }
    }

    /// A mutable borrow of a registered draw environment; writes through it
    /// change that environment and nothing else, and keep the drawing order.
    pub fn get_draw_env(&mut self, draw_env_handle: &DrawEnvHandle) -> (r: Option<&mut DrawEnv>)
        requires
            old(self).wf(),
        ensures
            r is Some <==> has_env(old(self)@.envs, draw_env_handle.id()),
            r is None ==> *final(self) == *old(self),
            r matches Some(e) ==> e@ == old(self)@.envs[env_index(
                old(self)@.envs,
                draw_env_handle.id(),
            )].env,
            r matches Some(e) ==> final(self).wf(),
            r matches Some(e) ==> final(self)@ == (EngineView {
                envs: old(self)@.envs.update(
                    env_index(old(self)@.envs, draw_env_handle.id()),
                    EnvSlotView {
                        env: final(e)@,
                        ..old(self)@.envs[env_index(old(self)@.envs, draw_env_handle.id())]
                    },
                ),
                ..old(self)@
            }),
    {
        match self.find_env(draw_env_handle.get_id()) {
            None => None,
            Some(i) => {
                proof {
                    self.lemma_env_written(i as int);
                }
                Some(&mut self.draw_envs[i].env)
            },
        }
    }

    fn vertex_plan(&self, s: &Vec<(usize, u32)>, line: u32) -> (r: Result<Vec<DeviceCommand>, DrawError>)
        requires
            self.wf(),
        ensures
            match first_vertex_error(self@.buffers, s@, line) {
                Some(e) => r == Err::<Vec<DeviceCommand>, DrawError>(e),
                None => r matches Ok(v) && v@ == vertex_commands(self@.buffers, s@),
            },
    {
        let mut out: Vec<DeviceCommand> = Vec::new();
        let mut i: usize = 0;
        assert(s@.subrange(0, s@.len() as int) =~= s@);
        while i < s.len()
            invariant
                self.wf(),
                i <= s@.len(),
                first_vertex_error(self@.buffers, s@, line) == first_vertex_error(
                    self@.buffers,
                    s@.subrange(i as int, s@.len() as int),
                    line,
                ),
                out@ == vertex_commands(self@.buffers, s@.take(i as int)),
            decreases s@.len() - i,
        {
            proof {
                let rest = s@.subrange(i as int, s@.len() as int);
                assert(rest[0] == s@[i as int]);
                assert(rest.drop_first() =~= s@.subrange(i + 1, s@.len() as int));
            }
            let (id, loc) = s[i];
            match self.buffers.get(id) {
                None => {
                    return Err(DrawError::MissingVertexBuffer { line, buffer: id });
                },
                Some(b) => {
                    match b.buffer_type {
                        Some(BufferTarget::Array) => {},
                        _ => {
                            return Err(DrawError::TypeMismatch { line, buffer: id });
                        },
                    }
                    let integer = b.layout.scalar.is_integer();
                    out.push(DeviceCommand::BindVertexBuffer { buffer: id, loc, layout: b.layout, integer });
                },
            }
            assert(out@ =~= vertex_commands(self@.buffers, s@.take(i + 1)));
            i = i + 1;
        }
        assert(s@.take(i as int) =~= s@);
        Ok(out)
    }

    fn texture_plan(&self, s: &Vec<(usize, i32)>, line: u32) -> (r: Result<Vec<DeviceCommand>, DrawError>)
        requires
            self.wf(),
        ensures
            match first_texture_error(self@.textures, s@, line) {
                Some(e) => r == Err::<Vec<DeviceCommand>, DrawError>(e),
                None => r matches Ok(v) && v@ == texture_commands(s@),
            },
    {
        let mut out: Vec<DeviceCommand> = Vec::new();
        let mut i: usize = 0;
        assert(s@.subrange(0, s@.len() as int) =~= s@);
        while i < s.len()
            invariant
                self.wf(),
                i <= s@.len(),
                first_texture_error(self@.textures, s@, line) == first_texture_error(
                    self@.textures,
                    s@.subrange(i as int, s@.len() as int),
                    line,
                ),
                out@ == texture_commands(s@.take(i as int)),
            decreases s@.len() - i,
        {
            proof {
                let rest = s@.subrange(i as int, s@.len() as int);
                assert(rest[0] == s@[i as int]);
                assert(rest.drop_first() =~= s@.subrange(i + 1, s@.len() as int));
            }
            let (id, loc) = s[i];
            if !self.textures.contains(id) {
                return Err(DrawError::MissingTexture { line, texture: id });
            }
            out.push(DeviceCommand::BindTexture { texture: id, unit: i, loc });
            assert(out@ =~= texture_commands(s@.take(i + 1)));
            i = i + 1;
        }
        assert(s@.take(i as int) =~= s@);
        Ok(out)
    }

    fn env_commands(&self, slot: &EnvSlot) -> (r: Result<Vec<DeviceCommand>, DrawError>)
        requires
            self.wf(),
        ensures
            match env_plan(self@, slot_view(*slot)) {
                Ok(d) => r matches Ok(v) && v@ == d,
                Err(e) => r == Err::<Vec<DeviceCommand>, DrawError>(e),
            },
    {
        let env = &slot.env;
        let line = slot.line;
        let shader = match env.shader() {
            Some(id) => id,
            None => {
                return Err(DrawError::MissingShader { line });
            },
        };
        if !self.shaders.contains(shader) {
            return Err(DrawError::MissingShader { line });
        }
        let indices = match env.index_buffer() {
            Some(id) => id,
            None => {
                return Err(DrawError::MissingIndexBuffer { line });
            },
        };
        let index_buffer = match self.buffers.get(indices) {
            Some(b) => *b,
            None => {
                return Err(DrawError::MissingIndexBuffer { line });
            },
        };
        let is_element = match index_buffer.buffer_type {
            Some(BufferTarget::Element) => true,
            _ => false,
        };
        if !is_element || !index_buffer.layout.scalar.is_index_type() {
            return Err(DrawError::TypeMismatch { line, buffer: indices });
        }
        let mut vertex = match self.vertex_plan(env.vertex_buffers(), line) {
            Ok(v) => v,
            Err(e) => {
                return Err(e);
            },
        };
        let mut textures = match self.texture_plan(env.textures(), line) {
            Ok(v) => v,
            Err(e) => {
                return Err(e);
            },
        };
        let uniforms = env.uniforms();
        let mut out: Vec<DeviceCommand> = Vec::new();
        out.push(DeviceCommand::UseProgram { shader });
        out.push(DeviceCommand::BindIndexBuffer { buffer: indices });
        out.append(&mut vertex);
        out.append(&mut textures);
        out.push(DeviceCommand::DepthTest(env.depth()));
        out.push(DeviceCommand::Blend(env.blend()));
        let ghost before_uniforms = out@;
        let mut i: usize = 0;
        while i < uniforms.len()
            invariant
                i <= uniforms@.len(),
                out@ == before_uniforms + uniform_commands(uniforms@.take(i as int)),
            decreases uniforms@.len() - i,
        {
            let (value, loc) = uniforms[i];
            out.push(DeviceCommand::SetUniform { loc, value });
            assert(uniform_commands(uniforms@.take(i + 1)) =~= uniform_commands(
                uniforms@.take(i as int),
            ).push(DeviceCommand::SetUniform { loc, value }));
            i = i + 1;
        }
        assert(uniforms@.take(i as int) =~= uniforms@);
        out.push(
            DeviceCommand::DrawTriangles {
                count: env.count(),
                offset: env.offset(),
                index_type: index_buffer.layout.scalar,
            },
        );
        proof {
            let ev = env@;
            assert(out@ =~= seq![
                DeviceCommand::UseProgram { shader: ev.shader->0 },
                DeviceCommand::BindIndexBuffer { buffer: ev.indices->0 },
            ] + vertex_commands(self@.buffers, ev.buffers) + texture_commands(ev.textures) + seq![
                DeviceCommand::DepthTest(ev.depth),
                DeviceCommand::Blend(ev.blend),
            ] + uniform_commands(ev.uniforms) + seq![
                DeviceCommand::DrawTriangles {
                    count: ev.count,
                    offset: ev.offset,
                    index_type: self@.buffers[ev.indices->0].0.layout.scalar,
                },
            ]);
        }
        Ok(out)
    }

    /// The device commands of one frame: a clear, then each environment in
    /// ascending depth order. Any environment that refers to a missing or
    /// mismatched resource stops the whole frame with its error, and then no
    /// command at all is handed out.
    pub fn draw(&self) -> (r: Result<Vec<DeviceCommand>, DrawError>)
        requires
            self.wf(),
        ensures
            match frame_plan(self@) {
                Ok(c) => r matches Ok(v) && v@ == c,
                Err(e) => r == Err::<Vec<DeviceCommand>, DrawError>(e),
            },
    {
        let mut cmds: Vec<DeviceCommand> = Vec::new();
        cmds.push(DeviceCommand::Clear);
        let mut i: usize = 0;
        assert(cmds@ =~= seq![DeviceCommand::Clear]);
        while i < self.draw_envs.len()
            invariant
                self.wf(),
                i <= self.draw_envs@.len(),
                plan_prefix(self@, i as nat) == Ok::<Seq<DeviceCommand>, DrawError>(cmds@),
            decreases self.draw_envs@.len() - i,
        {
            assert(self@.envs[i as int] == slot_view(self.draw_envs@[i as int]));
            match self.env_commands(&self.draw_envs[i]) {
                Err(e) => {
                    proof {
                        lemma_plan_stays_failed(self@, (i + 1) as nat, self@.envs.len());
                    }
                    return Err(e);
                },
                Ok(d) => {
                    let mut d = d;
                    cmds.append(&mut d);
                },
            }
            i = i + 1;
        }
        Ok(cmds)
    }
}

} // verus!
