use gldraw::{
    AttribLayout, BufferHandle, BufferTarget, DeviceCommand, DrawEngine, DrawError, EnableBlend,
    EnableDepth, GLSLAny, InvalidHandle, ScalarKind, ShaderHandle, TextureHandle,
};

fn vec3() -> AttribLayout {
    AttribLayout { count: 3, scalar: ScalarKind::Float }
}

fn index_u16() -> AttribLayout {
    AttribLayout { count: 1, scalar: ScalarKind::UnsignedShort }
}

/// An engine with one shader, an index buffer and a position buffer, both
/// initialised; returns their handles.
fn setup(e: &mut DrawEngine) -> (ShaderHandle, BufferHandle<u16>, BufferHandle<[f32; 3]>) {
    let s = e.create_shader(1);
    let ib: BufferHandle<u16> = e.create_buffer(index_u16(), 2);
    let vb: BufferHandle<[f32; 3]> = e.create_buffer(vec3(), 3);
    e.get_buffer_mut(&ib).unwrap().init(BufferTarget::Element, 6).unwrap();
    e.get_buffer_mut(&vb).unwrap().init(BufferTarget::Array, 4).unwrap();
    (s, ib, vb)
}

#[test]
fn buffer_ids_are_never_reused() {
    let mut e = DrawEngine::new();
    let a: BufferHandle<u32> = e.create_buffer(vec3(), 1);
    let b: BufferHandle<u32> = e.create_buffer(vec3(), 2);
    assert_eq!(e.free_buffer(BufferHandle::<u32>::new(a.get_id())), Ok(()));
    let c: BufferHandle<u32> = e.create_buffer(vec3(), 3);
    assert_eq!(e.free_buffer(b), Ok(()));
    let d: BufferHandle<u32> = e.create_buffer(vec3(), 4);
    let ids = vec![a.get_id(), c.get_id(), d.get_id()];
    assert_eq!(ids, vec![0, 2, 3]);
}

#[test]
fn freeing_twice_or_a_foreign_handle_is_refused() {
    let mut e = DrawEngine::new();
    let a: BufferHandle<u8> = e.create_buffer(index_u16(), 1);
    let id = a.get_id();
    assert_eq!(e.free_buffer(a), Ok(()));
    assert_eq!(e.free_buffer(BufferHandle::<u8>::new(id)), Err(InvalidHandle { id }));
    assert_eq!(e.free_buffer(BufferHandle::<u8>::new(77)), Err(InvalidHandle { id: 77 }));
    assert_eq!(e.free_shader(ShaderHandle::new(0)), Err(InvalidHandle { id: 0 }));
    let s = e.create_shader(2);
    assert_eq!(e.free_shader(s), Ok(()));
    assert_eq!(e.free_shader(ShaderHandle::new(0)), Err(InvalidHandle { id: 0 }));
    let t = e.create_texture(3);
    assert_eq!(e.free_texture(t), Ok(()));
    assert_eq!(e.free_texture(TextureHandle::new(0)), Err(InvalidHandle { id: 0 }));
    let h = e.create_draw_env(0, 4);
    assert_eq!(e.free_draw_env(&h), Ok(()));
    assert_eq!(e.free_draw_env(&h), Err(InvalidHandle { id: h.get_id() }));
    assert!(e.get_draw_env(&h).is_none());
}

#[test]
fn handle_resolves_to_same_buffer_across_other_operations() {
    let mut e = DrawEngine::new();
    let h: BufferHandle<u16> = e.create_buffer(index_u16(), 10);
    e.get_buffer_mut(&h).unwrap().init(BufferTarget::Element, 12).unwrap();
    for i in 0..5u32 {
        let other: BufferHandle<u32> = e.create_buffer(vec3(), 20 + i);
        if i % 2 == 0 {
            assert_eq!(e.free_buffer(other), Ok(()));
        }
    }
    let b = e.get_buffer(&h).unwrap();
    assert_eq!(b.buffer_type, Some(BufferTarget::Element));
    assert_eq!(b.layout, index_u16());
    assert_eq!(b.len, 12);
}

fn draw_env_with(e: &mut DrawEngine, depth: i64, line: u32, s: &ShaderHandle, ib: &BufferHandle<u16>) {
    let h = e.create_draw_env(depth, line);
    let env = e.get_draw_env(&h).unwrap();
    env.add_shader(s);
    env.add_index_buffer(ib);
    env.set_draw_count(1, 0);
}

#[test]
fn environments_are_drawn_in_ascending_depth() {
    let mut e = DrawEngine::new();
    let (_, ib, _) = setup(&mut e);
    let s5 = e.create_shader(50);
    let s1 = e.create_shader(10);
    let s3 = e.create_shader(30);
    draw_env_with(&mut e, 5, 500, &s5, &ib);
    draw_env_with(&mut e, 1, 100, &s1, &ib);
    draw_env_with(&mut e, 3, 300, &s3, &ib);
    let cmds = e.draw().unwrap();
    let programs: Vec<usize> = cmds
        .iter()
        .filter_map(|c| match c {
            DeviceCommand::UseProgram { shader } => Some(*shader),
            _ => None,
        })
        .collect();
    assert_eq!(programs, vec![s1.get_id(), s3.get_id(), s5.get_id()]);
}

#[test]
fn equal_depths_keep_creation_order() {
    let mut e = DrawEngine::new();
    let (_, ib, _) = setup(&mut e);
    let a = e.create_shader(1);
    let b = e.create_shader(2);
    draw_env_with(&mut e, 2, 1, &a, &ib);
    draw_env_with(&mut e, 2, 2, &b, &ib);
    let cmds = e.draw().unwrap();
    assert_eq!(cmds[1], DeviceCommand::UseProgram { shader: a.get_id() });
    assert!(cmds.contains(&DeviceCommand::UseProgram { shader: b.get_id() }));
}

#[test]
fn freed_shader_stops_the_frame() {
    let mut e = DrawEngine::new();
    let (s, ib, _) = setup(&mut e);
    draw_env_with(&mut e, 0, 42, &s, &ib);
    assert!(e.draw().is_ok());
    let again = ShaderHandle::new(s.get_id());
    assert_eq!(e.free_shader(s), Ok(()));
    assert_eq!(e.draw(), Err(DrawError::MissingShader { line: 42 }));
    let other = e.create_shader(7);
    assert_ne!(other.get_id(), again.get_id());
}

#[test]
fn unbound_shader_and_index_buffer_are_reported() {
    let mut e = DrawEngine::new();
    let (s, _, _) = setup(&mut e);
    let h = e.create_draw_env(0, 9);
    assert_eq!(e.draw(), Err(DrawError::MissingShader { line: 9 }));
    e.get_draw_env(&h).unwrap().add_shader(&s);
    assert_eq!(e.draw(), Err(DrawError::MissingIndexBuffer { line: 9 }));
}

#[test]
fn buffers_in_the_wrong_role_are_type_mismatches() {
    let mut e = DrawEngine::new();
    let (s, ib, vb) = setup(&mut e);
    let h = e.create_draw_env(0, 11);
    {
        let env = e.get_draw_env(&h).unwrap();
        env.add_shader(&s);
        env.add_index_buffer(&vb);
    }
    assert_eq!(e.draw(), Err(DrawError::TypeMismatch { line: 11, buffer: vb.get_id() }));
    {
        let env = e.get_draw_env(&h).unwrap();
        env.add_index_buffer(&ib);
        env.add_buffer(&ib, 0);
    }
    assert_eq!(e.draw(), Err(DrawError::TypeMismatch { line: 11, buffer: ib.get_id() }));
    // an index buffer whose elements are not indices
    let fb: BufferHandle<f32> = e.create_buffer(vec3(), 12);
    e.get_buffer_mut(&fb).unwrap().init(BufferTarget::Element, 3).unwrap();
    {
        let env = e.get_draw_env(&h).unwrap();
        env.remove_buffer(&ib);
        env.add_index_buffer(&fb);
    }
    assert_eq!(e.draw(), Err(DrawError::TypeMismatch { line: 11, buffer: fb.get_id() }));
}

#[test]
fn missing_vertex_buffer_and_texture_are_reported() {
    let mut e = DrawEngine::new();
    let (s, ib, vb) = setup(&mut e);
    let t = e.create_texture(5);
    let h = e.create_draw_env(0, 13);
    {
        let env = e.get_draw_env(&h).unwrap();
        env.add_shader(&s);
        env.add_index_buffer(&ib);
        env.add_buffer(&vb, 0);
        env.add_texture(&t, 4);
    }
    assert!(e.draw().is_ok());
    let vb_id = vb.get_id();
    let t_id = t.get_id();
    assert_eq!(e.free_texture(t), Ok(()));
    assert_eq!(e.draw(), Err(DrawError::MissingTexture { line: 13, texture: t_id }));
    assert_eq!(e.free_buffer(vb), Ok(()));
    assert_eq!(e.draw(), Err(DrawError::MissingVertexBuffer { line: 13, buffer: vb_id }));
}

#[test]
fn texture_units_follow_binding_order() {
    let mut e = DrawEngine::new();
    let (s, ib, _) = setup(&mut e);
    let t0 = e.create_texture(1);
    let t1 = e.create_texture(2);
    let t2 = e.create_texture(3);
    let h = e.create_draw_env(0, 1);
    {
        let env = e.get_draw_env(&h).unwrap();
        env.add_shader(&s);
        env.add_index_buffer(&ib);
        env.add_texture(&t2, 7);
        env.add_texture(&t0, 3);
        env.add_texture(&t1, 5);
    }
    let cmds = e.draw().unwrap();
    let binds: Vec<DeviceCommand> = cmds
        .iter()
        .filter(|c| matches!(c, DeviceCommand::BindTexture { .. }))
        .cloned()
        .collect();
    assert_eq!(
        binds,
        vec![
            DeviceCommand::BindTexture { texture: t2.get_id(), unit: 0, loc: 7 },
            DeviceCommand::BindTexture { texture: t0.get_id(), unit: 1, loc: 3 },
            DeviceCommand::BindTexture { texture: t1.get_id(), unit: 2, loc: 5 },
        ]
    );
}

#[test]
fn full_plan_of_one_environment() {
    let mut e = DrawEngine::new();
    let (s, ib, vb) = setup(&mut e);
    let ivb: BufferHandle<[i32; 2]> = e.create_buffer(AttribLayout { count: 2, scalar: ScalarKind::Int }, 4);
    e.get_buffer_mut(&ivb).unwrap().init(BufferTarget::Array, 4).unwrap();
    let t = e.create_texture(5);
    let h = e.create_draw_env(0, 6);
    {
        let env = e.get_draw_env(&h).unwrap();
        env.add_shader(&s);
        env.add_index_buffer(&ib);
        env.add_buffer(&vb, 0);
        env.add_buffer(&ivb, 1);
        env.add_texture(&t, 2);
        env.set_uniform(4, GLSLAny::Int(-3));
        env.set_uniform(5, GLSLAny::Float(0x3f80_0000));
        env.enable_depth(0x0201);
        env.enable_blend(0x0302, 0x0303);
        env.set_draw_count(2, 12);
    }
    let cmds = e.draw().unwrap();
    assert_eq!(
        cmds,
        vec![
            DeviceCommand::Clear,
            DeviceCommand::UseProgram { shader: s.get_id() },
            DeviceCommand::BindIndexBuffer { buffer: ib.get_id() },
            DeviceCommand::BindVertexBuffer { buffer: vb.get_id(), loc: 0, layout: vec3(), integer: false },
            DeviceCommand::BindVertexBuffer {
                buffer: ivb.get_id(),
                loc: 1,
                layout: AttribLayout { count: 2, scalar: ScalarKind::Int },
                integer: true,
            },
            DeviceCommand::BindTexture { texture: t.get_id(), unit: 0, loc: 2 },
            DeviceCommand::DepthTest(EnableDepth::Yes(0x0201)),
            DeviceCommand::Blend(EnableBlend::Yes(0x0302, 0x0303)),
            DeviceCommand::SetUniform { loc: 4, value: GLSLAny::Int(-3) },
            DeviceCommand::SetUniform { loc: 5, value: GLSLAny::Float(0x3f80_0000) },
            DeviceCommand::DrawTriangles { count: 2, offset: 12, index_type: ScalarKind::UnsignedShort },
        ]
    );
}

#[test]
fn absent_depth_and_blend_are_switched_off() {
    let mut e = DrawEngine::new();
    let (s, ib, _) = setup(&mut e);
    let h = e.create_draw_env(0, 1);
    {
        let env = e.get_draw_env(&h).unwrap();
        env.add_shader(&s);
        env.add_index_buffer(&ib);
        env.enable_depth(0x0201);
        env.disable_depth();
        env.enable_blend(1, 1);
        env.disable_blend();
    }
    let cmds = e.draw().unwrap();
    assert!(cmds.contains(&DeviceCommand::DepthTest(EnableDepth::No)));
    assert!(cmds.contains(&DeviceCommand::Blend(EnableBlend::No)));
}

#[test]
fn empty_engine_only_clears() {
    let e = DrawEngine::new();
    assert_eq!(e.draw(), Ok(vec![DeviceCommand::Clear]));
}

#[test]
fn freed_environment_is_not_drawn() {
    let mut e = DrawEngine::new();
    let (s, ib, _) = setup(&mut e);
    let a = e.create_draw_env(1, 1);
    e.get_draw_env(&a).unwrap().add_shader(&s);
    let b = e.create_draw_env(2, 2);
    {
        let env = e.get_draw_env(&b).unwrap();
        env.add_shader(&s);
        env.add_index_buffer(&ib);
    }
    assert_eq!(e.draw(), Err(DrawError::MissingIndexBuffer { line: 1 }));
    assert_eq!(e.free_draw_env(&a), Ok(()));
    assert!(e.draw().is_ok());
}
