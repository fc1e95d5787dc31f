//! Typed, non-owning handles. A handle is an identifier only: it may outlive
//! the resource it names, and every lookup through it may fail.
use core::marker::PhantomData;
use vstd::prelude::*;

verus! {

/// Names a buffer; `T` tags the kind of element the buffer holds.
pub struct BufferHandle<T> {
    id: usize,
    phantom: PhantomData<T>,
}

impl<T> BufferHandle<T> {
    pub closed spec fn id(&self) -> usize {
        self.id
    }

    pub fn new(id: usize) -> (r: Self)
        ensures
            r.id() == id,
    {
        BufferHandle { id, phantom: PhantomData }
    }

    pub fn get_id(&self) -> (r: usize)
        ensures
            r == self.id(),
    {
        self.id
    }
}

/// Names a texture.
pub struct TextureHandle {
    id: usize,
}

impl TextureHandle {
    pub closed spec fn id(&self) -> usize {
        self.id
    }

    pub fn new(id: usize) -> (r: Self)
        ensures
            r.id() == id,
    {
        TextureHandle { id }
    }

    pub fn get_id(&self) -> (r: usize)
        ensures
            r == self.id(),
    {
        self.id
    }
}

/// Names a shader program.
pub struct ShaderHandle {
    id: usize,
}

impl ShaderHandle {
    pub closed spec fn id(&self) -> usize {
        self.id
    }

    pub fn new(id: usize) -> (r: Self)
        ensures
            r.id() == id,
    {
        ShaderHandle { id }
    }

    pub fn get_id(&self) -> (r: usize)
        ensures
            r == self.id(),
    {
        self.id
    }
}

/// Names a draw environment registered with a draw engine.
pub struct DrawEnvHandle {
    id: usize,
}

impl DrawEnvHandle {
    pub closed spec fn id(&self) -> usize {
        self.id
    }

    pub fn new(id: usize) -> (r: Self)
        ensures
            r.id() == id,
    {
        DrawEnvHandle { id }
    }

    pub fn get_id(&self) -> (r: usize)
        ensures
            r == self.id(),
    {
        self.id
    }
}

} // verus!
