//! The device commands of a frame and the errors that stop one, with the
//! plan that a set of resources and draw environments calls for.
use crate::buffer::{Buffer, BufferTarget};
use crate::draw_env::{EnableBlend, EnableDepth};
use crate::glsl::{AttribLayout, GLSLAny, ScalarKind};
use crate::texture::Texture2D;
use vstd::prelude::*;

verus! {

/// One step for the device. Resources are named by their handle ids.
#[derive(Clone, Copy, Debug, PartialEq)]
pub enum DeviceCommand {
    /// Clear the colour and depth buffers.
    Clear,
    UseProgram { shader: usize },
    BindIndexBuffer { buffer: usize },
    /// Bind a vertex buffer to attribute `loc`; `integer` attributes are
    /// passed to the shader as integers.
    BindVertexBuffer { buffer: usize, loc: u32, layout: AttribLayout, integer: bool },
    /// Bind a texture to texture unit `unit` and point sampler `loc` at it.
    BindTexture { texture: usize, unit: usize, loc: i32 },
    DepthTest(EnableDepth),
    Blend(EnableBlend),
    SetUniform { loc: i32, value: GLSLAny },
    /// Draw `count` triangles from the bound index buffer, starting `offset`
    /// bytes in, with indices of type `index_type`.
    DrawTriangles { count: usize, offset: usize, index_type: ScalarKind },
}

/// Why a frame cannot be drawn. `line` is the diagnostic tag of the draw
/// environment at fault.
#[derive(Clone, Copy, Debug, PartialEq, Eq, Structural)]
pub enum DrawError {
    /// No live shader program is bound to the environment.
    MissingShader { line: u32 },
    /// No live index buffer is bound to the environment.
    MissingIndexBuffer { line: u32 },
    /// A bound vertex buffer is not live.
    MissingVertexBuffer { line: u32, buffer: usize },
    /// A bound texture is not live.
    MissingTexture { line: u32, texture: usize },
    /// A buffer is bound in a role its data does not fit: an index buffer
    /// that holds no indices, or a vertex buffer that holds no vertex data.
    TypeMismatch { line: u32, buffer: usize },
}

/// A buffer that can serve as index buffer.
pub open spec fn index_buffer_ok(b: Buffer) -> bool {
    b.buffer_type == Some(BufferTarget::Element) && b.layout.scalar.spec_is_index_type()
}

pub open spec fn vertex_error(buffers: Map<usize, (Buffer, u32)>, b: (usize, u32), line: u32) -> Option<
    DrawError,
> {
    if !buffers.contains_key(b.0) {
        Some(DrawError::MissingVertexBuffer { line, buffer: b.0 })
    } else if buffers[b.0].0.buffer_type != Some(BufferTarget::Array) {
        Some(DrawError::TypeMismatch { line, buffer: b.0 })
    } else {
        None
    }
}

/// The error of the first vertex binding that fails, if any.
pub open spec fn first_vertex_error(
    buffers: Map<usize, (Buffer, u32)>,
    s: Seq<(usize, u32)>,
    line: u32,
) -> Option<DrawError>
    decreases s.len(),
{
    if s.len() == 0 {
        None
    } else {
        match vertex_error(buffers, s[0], line) {
            Some(e) => Some(e),
            None => first_vertex_error(buffers, s.drop_first(), line),
        }
    }
}

/// The error of the first texture binding that names no live texture, if any.
pub open spec fn first_texture_error(
    textures: Map<usize, (Texture2D, u32)>,
    s: Seq<(usize, i32)>,
    line: u32,
) -> Option<DrawError>
    decreases s.len(),
{
    if s.len() == 0 {
        None
    } else if !textures.contains_key(s[0].0) {
        Some(DrawError::MissingTexture { line, texture: s[0].0 })
    } else {
        first_texture_error(textures, s.drop_first(), line)
    }
}

pub open spec fn vertex_command(buffers: Map<usize, (Buffer, u32)>, b: (usize, u32)) -> DeviceCommand {
    DeviceCommand::BindVertexBuffer {
        buffer: b.0,
        loc: b.1,
        layout: buffers[b.0].0.layout,
        integer: buffers[b.0].0.layout.scalar.spec_is_integer(),
    }
}

pub open spec fn vertex_commands(buffers: Map<usize, (Buffer, u32)>, s: Seq<(usize, u32)>) -> Seq<
    DeviceCommand,
> {
    Seq::new(s.len(), |i: int| vertex_command(buffers, s[i]))
}

/// Texture units are handed out from 0, in binding order.
pub open spec fn texture_commands(s: Seq<(usize, i32)>) -> Seq<DeviceCommand> {
    Seq::new(
        s.len(),
        |i: int| DeviceCommand::BindTexture { texture: s[i].0, unit: i as usize, loc: s[i].1 },
    )
}

pub open spec fn uniform_commands(s: Seq<(GLSLAny, i32)>) -> Seq<DeviceCommand> {
    Seq::new(s.len(), |i: int| DeviceCommand::SetUniform { loc: s[i].1, value: s[i].0 })
}

} // verus!
