//! Shader stages and the file extensions that name them.
use vstd::prelude::*;

verus! {

#[derive(Clone, Copy, Debug, PartialEq, Eq, Structural)]
pub enum ShaderStage {
    Vertex,
    Fragment,
    Geometry,
}

#[derive(Clone, Debug)]
pub enum ShaderError {
    UnsupportedExtension(String),
    CouldNotOpenFile(String),
    CompileError(String),
    Other,
}

/// The stage that a source file's extension names: `vert`, `frag` or `geom`.
pub open spec fn spec_stage_of_extension(ext: Seq<u8>) -> Option<ShaderStage> {
    if ext == seq![118u8, 101, 114, 116] {
        Some(ShaderStage::Vertex)
    } else if ext == seq![102u8, 114, 97, 103] {
        Some(ShaderStage::Fragment)
    } else if ext == seq![103u8, 101, 111, 109] {
        Some(ShaderStage::Geometry)
    } else {
        None
    }
}

fn is_word(ext: &[u8], a: u8, b: u8, c: u8, d: u8) -> (r: bool)
    ensures
        r == (ext@ == seq![a, b, c, d]),
{
    if ext.len() != 4 {
        return false;
    }
    let r = ext[0] == a && ext[1] == b && ext[2] == c && ext[3] == d;
    if r {
        assert(ext@ =~= seq![a, b, c, d]);
    }
    r
}

/// The stage of a shader whose file has extension `ext` (the bytes after the
/// last dot), or `None` where the extension names no stage.
pub fn stage_from_extension(ext: &[u8]) -> (r: Option<ShaderStage>)
    ensures
        r == spec_stage_of_extension(ext@),
{
    if is_word(ext, 118, 101, 114, 116) {
        Some(ShaderStage::Vertex)
    } else if is_word(ext, 102, 114, 97, 103) {
        Some(ShaderStage::Fragment)
    } else if is_word(ext, 103, 101, 111, 109) {
        Some(ShaderStage::Geometry)
    } else {
        None
    }
}

} // verus!
