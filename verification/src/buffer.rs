//! Buffer usage hints and their graphics-API enumerant values.

use vstd::prelude::*;

verus! {

/// How a buffer's data will be written and read, as the backend's usage
/// hint.
#[derive(Clone, Copy, Debug, PartialEq, Eq, Structural, PartialOrd, Ord, Hash)]
pub enum BufferUsage {
    StreamDraw,
    StreamRead,
    StaticDraw,
    StaticRead,
    DynamicDraw,
    DynamicRead,
}

impl BufferUsage {
    /// The OpenGL enumerant of this usage hint, as the graphics API
    /// defines it.
    pub open spec fn spec_to_gl(self) -> u32 {
        match self {
            BufferUsage::StreamDraw => 0x88E0,
            BufferUsage::StreamRead => 0x88E1,
            BufferUsage::StaticDraw => 0x88E4,
            BufferUsage::StaticRead => 0x88E5,
            BufferUsage::DynamicDraw => 0x88E8,
            BufferUsage::DynamicRead => 0x88E9,
        }
    }

    /// The OpenGL enumerant of this usage hint.
    pub fn to_gl(self) -> (r: u32)
        ensures
            r == self.spec_to_gl(),
    {
        match self {
            BufferUsage::StreamDraw => 0x88E0,
            BufferUsage::StreamRead => 0x88E1,
            BufferUsage::StaticDraw => 0x88E4,
            BufferUsage::StaticRead => 0x88E5,
            BufferUsage::DynamicDraw => 0x88E8,
            BufferUsage::DynamicRead => 0x88E9,
        }
    }
}

} // verus!
