//! What the library knows of a device buffer: whether it was given data, as
//! which kind of buffer, and how its elements read as vertex attributes.
use crate::glsl::AttribLayout;
use vstd::prelude::*;

verus! {

#[derive(Clone, Copy, Debug, PartialEq, Eq, Structural)]
pub enum BufferError {
    BufferNotInitialized,
}

/// The binding point that a buffer's data was uploaded for.
#[derive(Clone, Copy, Debug, PartialEq, Eq, Structural)]
pub enum BufferTarget {
    /// Per-vertex attribute data.
    Array,
    /// Indices into the vertex data.
    Element,
}

/// A device buffer as the library tracks it.
#[derive(Clone, Copy, Debug)]
pub struct Buffer {
    /// `None` until data (or room for data) has been uploaded.
    pub buffer_type: Option<BufferTarget>,
    pub layout: AttribLayout,
    /// The number of elements uploaded.
    pub len: usize,
}

impl Buffer {
    /// A buffer that holds no data yet.
    pub fn new(layout: AttribLayout) -> (r: Self)
        ensures
            r == (Buffer { buffer_type: None, layout, len: 0 }),
    {
        Buffer { buffer_type: None, layout, len: 0 }
    }

    /// A buffer that holds `len` elements uploaded for `buffer_type`.
    pub fn from(layout: AttribLayout, buffer_type: BufferTarget, len: usize) -> (r: Self)
        ensures
            r == (Buffer { buffer_type: Some(buffer_type), layout, len }),
    {
        Buffer { buffer_type: Some(buffer_type), layout, len }
    }

    /// Records an upload of `len` elements for `buffer_type`.
    pub fn init(&mut self, buffer_type: BufferTarget, len: usize) -> (r: Result<(), BufferError>)
        ensures
            r is Ok,
            *final(self) == (Buffer { buffer_type: Some(buffer_type), len, ..*old(self) }),
    {
        self.buffer_type = Some(buffer_type);
        self.len = len;
        Ok(())
    }

    /// Records that room for `len` elements was reserved for `buffer_type`,
    /// with no data written.
    pub fn init_null(&mut self, buffer_type: BufferTarget, len: usize) -> (r: Result<
        (),
        BufferError,
    >)
        ensures
            r is Ok,
            *final(self) == (Buffer { buffer_type: Some(buffer_type), len, ..*old(self) }),
    {
        self.init(buffer_type, len)
    }

    /// Whether data may be written into the buffer at element `pos`: only
    /// once the buffer has been initialised.
    pub fn splice(&self, pos: usize, len: usize) -> (r: Result<(), BufferError>)
        ensures
            r is Ok <==> self.buffer_type is Some,
            r is Err ==> r == Err::<(), BufferError>(BufferError::BufferNotInitialized),
    {
        match self.buffer_type {
            None => Err(BufferError::BufferNotInitialized),
            Some(_) => Ok(()),
        }
    }
}

} // verus!
