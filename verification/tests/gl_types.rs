use posh::buffer::BufferUsage;
use posh::image::{ImageData, ImageFormat, ImageInternalFormat, ImageType, RgbaData, RgbaFormat};
use posh::ty::{ScalarTy, Ty};

#[test]
fn buffer_usage_matches_gl_enumerants() {
    assert_eq!(BufferUsage::StreamDraw.to_gl(), glow::STREAM_DRAW);
    assert_eq!(BufferUsage::StreamRead.to_gl(), glow::STREAM_READ);
    assert_eq!(BufferUsage::StaticDraw.to_gl(), glow::STATIC_DRAW);
    assert_eq!(BufferUsage::StaticRead.to_gl(), glow::STATIC_READ);
    assert_eq!(BufferUsage::DynamicDraw.to_gl(), glow::DYNAMIC_DRAW);
    assert_eq!(BufferUsage::DynamicRead.to_gl(), glow::DYNAMIC_READ);
}

#[test]
fn from_u8_keeps_bytes_and_format() {
    let img = RgbaData::from_u8((2, 1), &[1, 2, 3, 4, 5, 6, 7, 8]);
    let raw = img.raw();
    assert_eq!(raw.dimensions, (2, 1));
    assert_eq!(raw.ty, ImageType::U8);
    assert_eq!(raw.internal_format, ImageInternalFormat::RgbaU8);
    assert_eq!(raw.data.as_deref(), Some(&[1u8, 2, 3, 4, 5, 6, 7, 8][..]));
}

#[test]
fn from_u8_srgb_requests_srgb_storage() {
    let img = RgbaData::from_u8_srgb((1, 1), &[9, 9, 9, 9]);
    assert_eq!(img.0.internal_format, ImageInternalFormat::SrgbU8AlphaU8);
    assert_eq!(img.0.ty, ImageType::U8);
}

#[test]
fn from_i8_snorm_reinterprets_signed_bytes() {
    let img = RgbaData::from_i8_snorm((1, 1), &[-1, 0, 127, -128]);
    assert_eq!(img.0.ty, ImageType::I8);
    assert_eq!(img.0.internal_format, ImageInternalFormat::RgbaI8Snorm);
    assert_eq!(img.0.data.as_deref(), Some(&[255u8, 0, 127, 128][..]));
}

#[test]
fn zeroed_variants_carry_no_bytes() {
    assert!(RgbaData::zeroed_u8((4, 4)).0.data.is_none());
    assert_eq!(
        RgbaData::zeroed_u8_srgb((4, 4)).0.internal_format,
        ImageInternalFormat::SrgbU8AlphaU8
    );
    let snorm = RgbaData::zeroed_i8_snorm((4, 4));
    assert_eq!(snorm.0.ty, ImageType::I8);
    assert!(snorm.0.data.is_none());
    let f = RgbaData::zeroed_f32((8, 8));
    assert_eq!(f.0.ty, ImageType::F32);
    assert_eq!(f.0.internal_format, ImageInternalFormat::RgbaF32);
    assert!(f.0.data.is_none());
}

#[test]
fn rgba_format_samples_float_vectors() {
    assert_eq!(RgbaFormat::sample_ty(), Ty::Vec4(ScalarTy::F32));
}
