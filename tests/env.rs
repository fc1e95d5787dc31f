use gldraw::{
    BufferHandle, DrawEnv, EnableBlend, EnableDepth, GLSLAny, ShaderHandle, TextureHandle,
};

#[test]
fn rebinding_a_slot_replaces_the_buffer() {
    let mut env = DrawEnv::new();
    let h = BufferHandle::<f32>::new(1);
    let h2 = BufferHandle::<f32>::new(2);
    env.add_buffer(&h, 2);
    env.add_buffer(&h2, 2);
    assert_eq!(env.vertex_buffers().clone(), vec![(2usize, 2u32)]);
}

#[test]
fn one_buffer_may_feed_two_slots() {
    let mut env = DrawEnv::new();
    let h = BufferHandle::<f32>::new(1);
    env.add_buffer(&h, 0);
    env.add_buffer(&h, 1);
    env.add_buffer(&BufferHandle::<f32>::new(4), 2);
    assert_eq!(env.vertex_buffers().clone(), vec![(1usize, 0u32), (1, 1), (4, 2)]);
    env.remove_buffer(&h);
    assert_eq!(env.vertex_buffers().clone(), vec![(4usize, 2u32)]);
    env.remove_buffer(&h);
    assert_eq!(env.vertex_buffers().clone(), vec![(4usize, 2u32)]);
}

#[test]
fn unsetting_a_uniform_removes_it() {
    let mut env = DrawEnv::new();
    env.set_uniform(1, GLSLAny::Uint(9));
    env.set_uniform(3, GLSLAny::Vec2([0x3f80_0000, 0]));
    env.set_uniform(3, GLSLAny::Unset);
    assert_eq!(env.uniforms().clone(), vec![(GLSLAny::Uint(9), 1)]);
    env.set_uniform(8, GLSLAny::Unset);
    assert_eq!(env.uniforms().clone(), vec![(GLSLAny::Uint(9), 1)]);
}

#[test]
fn setting_a_uniform_again_replaces_it_in_place() {
    let mut env = DrawEnv::new();
    env.set_uniform(1, GLSLAny::Int(1));
    env.set_uniform(2, GLSLAny::Bool(true));
    env.set_uniform(1, GLSLAny::Int(5));
    assert_eq!(env.uniforms().clone(), vec![(GLSLAny::Int(5), 1), (GLSLAny::Bool(true), 2)]);
}

#[test]
fn textures_keep_binding_order_and_replace_by_slot() {
    let mut env = DrawEnv::new();
    env.add_texture(&TextureHandle::new(9), 0);
    env.add_texture(&TextureHandle::new(3), 1);
    env.add_texture(&TextureHandle::new(5), 0);
    assert_eq!(env.textures().clone(), vec![(5usize, 0i32), (3, 1)]);
    env.remove_texture(&TextureHandle::new(5));
    assert_eq!(env.textures().clone(), vec![(3usize, 1i32)]);
}

#[test]
fn new_environment_is_empty() {
    let env = DrawEnv::new();
    assert_eq!(env.count(), 0);
    assert_eq!(env.offset(), 0);
    assert_eq!(env.shader(), None);
    assert_eq!(env.index_buffer(), None);
    assert!(env.vertex_buffers().is_empty());
    assert!(env.textures().is_empty());
    assert!(env.uniforms().is_empty());
    assert_eq!(env.depth(), EnableDepth::No);
    assert_eq!(env.blend(), EnableBlend::No);
}

#[test]
fn shader_index_buffer_and_state_are_overwritten() {
    let mut env = DrawEnv::new();
    env.add_shader(&ShaderHandle::new(1));
    env.add_shader(&ShaderHandle::new(2));
    env.add_index_buffer(&BufferHandle::<u32>::new(6));
    env.set_draw_count(10, 4);
    env.enable_depth(0x0203);
    env.enable_blend(0x0302, 0x0303);
    assert_eq!(env.shader(), Some(2));
    assert_eq!(env.index_buffer(), Some(6));
    assert_eq!((env.count(), env.offset()), (10, 4));
    assert_eq!(env.depth(), EnableDepth::Yes(0x0203));
    assert_eq!(env.blend(), EnableBlend::Yes(0x0302, 0x0303));
}
