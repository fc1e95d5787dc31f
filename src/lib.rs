//! A small draw-call layer over a graphics device: typed handles into resource
//! tables, per-draw binding environments, and an engine that turns the
//! depth-ordered environments of a frame into the device commands to issue.
use vstd::prelude::*;

pub mod buffer;
pub mod draw_engine;
pub mod draw_env;
pub mod glsl;
pub mod handles;
pub mod plan;
pub mod shader;
pub mod table;
pub mod texture;

pub use buffer::{Buffer, BufferError, BufferTarget};
pub use draw_engine::{DrawEngine, InvalidHandle, Shader};
pub use draw_env::{DrawEnv, EnableBlend, EnableDepth};
pub use glsl::{AttribLayout, GLSLAny, ScalarKind};
pub use handles::{BufferHandle, DrawEnvHandle, ShaderHandle, TextureHandle};
pub use plan::{DeviceCommand, DrawError};
pub use shader::{stage_from_extension, ShaderError, ShaderStage};
pub use table::ResourceTable;
pub use texture::{ColorLayout, DecodedPng, PixelFormat, Texture2D, Texture2DError};

verus! {

} // verus!
