//! Image data descriptors for the host backend.
//!
//! An [`RgbaData`] names the pixel layout, the internal format and,
//! optionally, the raw bytes of a four-channel image; a zeroed variant
//! carries no bytes and asks the backend for an uninitialized allocation.

use vstd::prelude::*;

use crate::ty::{ScalarTy, Ty};

verus! {

/// The element type image bytes are interpreted as.
#[derive(Clone, Copy, Debug, PartialEq, Eq, Structural)]
pub enum ImageType {
    U8,
    I8,
    F32,
}

/// The internal storage format requested of the backend.
#[derive(Clone, Copy, Debug, PartialEq, Eq, Structural)]
pub enum ImageInternalFormat {
    RgbaU8,
    SrgbU8AlphaU8,
    RgbaI8Snorm,
    RgbaF32,
}

/// The raw description every image data value reduces to.
pub struct RawImageData {
    pub dimensions: (u32, u32),
    pub ty: ImageType,
    pub internal_format: ImageInternalFormat,
    pub data: Option<Vec<u8>>,
}

/// Image data the backend can upload.
pub trait ImageData {
    /// The raw description of this image data.
    fn raw(&self) -> &RawImageData;
}

/// An image format: ties together the sampled value's semantic type and
/// the host data it accepts.
pub trait ImageFormat {
    /// The host data this format accepts.
    type Data: ImageData;

    /// The semantic type a sampler of this format yields.
    fn sample_ty() -> Ty;
}

/// Four-channel image data.
pub struct RgbaData(pub RawImageData);

impl ImageData for RgbaData {
    fn raw(&self) -> &RawImageData {
        &self.0
    }
}

/// Relies on bytemuck::cast_slice: reinterprets a slice of signed bytes
/// as the identical unsigned bytes, same length, two's-complement bit
/// patterns kept. Never panics for one-byte element types.
#[verifier::external_body]
fn i8_bytes(data: &[i8]) -> (r: Vec<u8>)
    ensures
        r@.len() == data@.len(),
        forall|i: int| 0 <= i < data@.len() ==> r@[i] == #[trigger] data@[i] as u8,
{
    bytemuck::cast_slice(data).to_vec()
}

impl RgbaData {
    /// Unsigned-byte RGBA data.
    pub fn from_u8(dimensions: (u32, u32), data: &[u8]) -> (r: Self)
        ensures
            r.0.dimensions == dimensions,
            r.0.ty == ImageType::U8,
            r.0.internal_format == ImageInternalFormat::RgbaU8,
            r.0.data matches Some(d) && d@ == data@,
    {
        RgbaData(
            RawImageData {
                dimensions,
                ty: ImageType::U8,
                internal_format: ImageInternalFormat::RgbaU8,
                data: Some(vstd::slice::slice_to_vec(data)),
            },
        )
    }

    /// Unsigned-byte RGBA data stored in the sRGB color space.
    pub fn from_u8_srgb(dimensions: (u32, u32), data: &[u8]) -> (r: Self)
        ensures
            r.0.dimensions == dimensions,
            r.0.ty == ImageType::U8,
            r.0.internal_format == ImageInternalFormat::SrgbU8AlphaU8,
            r.0.data matches Some(d) && d@ == data@,
    {
        RgbaData(
            RawImageData {
                dimensions,
                ty: ImageType::U8,
                internal_format: ImageInternalFormat::SrgbU8AlphaU8,
                data: Some(vstd::slice::slice_to_vec(data)),
            },
        )
    }

    /// Signed-normalized byte RGBA data: each signed byte travels as its
    /// two's-complement bit pattern.
    pub fn from_i8_snorm(dimensions: (u32, u32), data: &[i8]) -> (r: Self)
        ensures
            r.0.dimensions == dimensions,
            r.0.ty == ImageType::I8,
            r.0.internal_format == ImageInternalFormat::RgbaI8Snorm,
            r.0.data matches Some(d) && d@.len() == data@.len(),
            r.0.data matches Some(d) && forall|i: int|
                0 <= i < data@.len() ==> d@[i] == #[trigger] data@[i] as u8,
    {
        RgbaData(
            RawImageData {
                dimensions,
                ty: ImageType::I8,
                internal_format: ImageInternalFormat::RgbaI8Snorm,
                data: Some(i8_bytes(data)),
            },
        )
    }

    /// Float RGBA data handed over as raw little-endian bytes, four per
    /// component.
    pub fn from_f32_bytes(dimensions: (u32, u32), data: Vec<u8>) -> (r: Self)
        ensures
            r.0.dimensions == dimensions,
            r.0.ty == ImageType::F32,
            r.0.internal_format == ImageInternalFormat::RgbaF32,
            r.0.data matches Some(d) && d@ == data@,
    {
        RgbaData(
            RawImageData {
                dimensions,
                ty: ImageType::F32,
                internal_format: ImageInternalFormat::RgbaF32,
                data: Some(data),
            },
        )
    }

    /// An uninitialized unsigned-byte RGBA allocation.
    pub fn zeroed_u8(dimensions: (u32, u32)) -> (r: Self)
        ensures
            r.0.dimensions == dimensions,
            r.0.ty == ImageType::U8,
            r.0.internal_format == ImageInternalFormat::RgbaU8,
            r.0.data is None,
    {
        RgbaData(
            RawImageData {
                dimensions,
                ty: ImageType::U8,
                internal_format: ImageInternalFormat::RgbaU8,
                data: None,
            },
        )
    }

    /// An uninitialized sRGB allocation.
    pub fn zeroed_u8_srgb(dimensions: (u32, u32)) -> (r: Self)
        ensures
            r.0.dimensions == dimensions,
            r.0.ty == ImageType::U8,
            r.0.internal_format == ImageInternalFormat::SrgbU8AlphaU8,
            r.0.data is None,
    {
        RgbaData(
            RawImageData {
                dimensions,
                ty: ImageType::U8,
                internal_format: ImageInternalFormat::SrgbU8AlphaU8,
                data: None,
            },
        )
    }

    /// An uninitialized signed-normalized allocation.
    pub fn zeroed_i8_snorm(dimensions: (u32, u32)) -> (r: Self)
        ensures
            r.0.dimensions == dimensions,
            r.0.ty == ImageType::I8,
            r.0.internal_format == ImageInternalFormat::RgbaI8Snorm,
            r.0.data is None,
    {
        RgbaData(
            RawImageData {
                dimensions,
                ty: ImageType::I8,
                internal_format: ImageInternalFormat::RgbaI8Snorm,
                data: None,
            },
        )
    }

    /// An uninitialized float allocation.
    pub fn zeroed_f32(dimensions: (u32, u32)) -> (r: Self)
        ensures
            r.0.dimensions == dimensions,
            r.0.ty == ImageType::F32,
            r.0.internal_format == ImageInternalFormat::RgbaF32,
            r.0.data is None,
    {
        RgbaData(
            RawImageData {
                dimensions,
                ty: ImageType::F32,
                internal_format: ImageInternalFormat::RgbaF32,
                data: None,
            },
        )
    }
}

/// The standard four-channel float-sampled format.
pub struct RgbaFormat;

impl ImageFormat for RgbaFormat {
    type Data = RgbaData;

    /// A sampler of this format yields a four-component float vector.
    fn sample_ty() -> (t: Ty)
        ensures
            t == Ty::Vec4(ScalarTy::F32),
    {
        Ty::Vec4(ScalarTy::F32)
    }
}

} // verus!
