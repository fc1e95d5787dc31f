use gldraw::{
    stage_from_extension, AttribLayout, Buffer, BufferError, BufferTarget, ColorLayout,
    DecodedPng, PixelFormat, ScalarKind, ShaderStage, Texture2D, Texture2DError,
};

#[test]
fn texture_takes_pixels_of_the_right_size() {
    let mut t = Texture2D::new();
    assert_eq!(t.load_from_pixels(2, 3, PixelFormat::Rgb, &[0u8; 18]), Ok(()));
    assert_eq!((t.width, t.height, t.format), (2, 3, Some(PixelFormat::Rgb)));
    assert_eq!(
        t.load_from_pixels(2, 3, PixelFormat::Rgba, &[0u8; 18]),
        Err(Texture2DError::InvalidDataDimensions)
    );
    assert_eq!((t.width, t.height, t.format), (2, 3, Some(PixelFormat::Rgb)));
    assert_eq!(t.load_from_pixels(2, 3, PixelFormat::Rgba, &[0u8; 24]), Ok(()));
    assert_eq!(t.format, Some(PixelFormat::Rgba));
}

#[test]
fn huge_dimensions_do_not_wrap() {
    let mut t = Texture2D::new();
    // 4 * 0x8000_0000 * 2 wraps to 0 in 32 bits
    assert_eq!(
        t.load_from_pixels(0x8000_0000, 2, PixelFormat::Rgba, &[]),
        Err(Texture2DError::InvalidDataDimensions)
    );
}

const RGB_2X1: [u8; 70] = [
    137, 80, 78, 71, 13, 10, 26, 10, 0, 0, 0, 13, 73, 72, 68, 82, 0, 0, 0, 2, 0, 0, 0, 1, 8, 2, 0,
    0, 0, 123, 64, 232, 221, 0, 0, 0, 13, 73, 68, 65, 84, 120, 156, 99, 248, 207, 0, 4, 255, 1, 7,
    0, 1, 255, 226, 35, 158, 89, 0, 0, 0, 0, 73, 69, 78, 68, 174, 66, 96, 130,
];

const GRAY_1X1: [u8; 67] = [
    137, 80, 78, 71, 13, 10, 26, 10, 0, 0, 0, 13, 73, 72, 68, 82, 0, 0, 0, 1, 0, 0, 0, 1, 8, 0, 0,
    0, 0, 58, 126, 155, 85, 0, 0, 0, 10, 73, 68, 65, 84, 120, 156, 99, 96, 7, 0, 0, 9, 0, 8, 32,
    35, 195, 140, 0, 0, 0, 0, 73, 69, 78, 68, 174, 66, 96, 130,
];

#[test]
fn png_file_loads_its_pixels() {
    let mut t = Texture2D::new();
    let pixels = t.load_from_png(&RGB_2X1).unwrap();
    assert_eq!(pixels, vec![255, 0, 0, 0, 0, 255]);
    assert_eq!((t.width, t.height, t.format), (2, 1, Some(PixelFormat::Rgb)));
}

#[test]
fn grayscale_png_is_not_supported() {
    let mut t = Texture2D::new();
    assert_eq!(t.load_from_png(&GRAY_1X1), Err(Texture2DError::FormatNotSupported));
    assert_eq!((t.width, t.height, t.format), (0, 0, None));
}

#[test]
fn broken_png_is_not_supported() {
    let mut t = Texture2D::new();
    assert_eq!(t.load_from_png(&RGB_2X1[..40]), Err(Texture2DError::FormatNotSupported));
    assert_eq!(t.load_from_png(b"not a png"), Err(Texture2DError::FormatNotSupported));
    assert_eq!(t.format, None);
}

#[test]
fn decoded_images_must_be_rgb_or_rgba() {
    let mut t = Texture2D::new();
    let gray = DecodedPng { width: 1, height: 1, color: 0, pixels: vec![0] };
    assert_eq!(t.load_from_decoded(gray), Err(Texture2DError::FormatNotSupported));
    let indexed = DecodedPng { width: 1, height: 1, color: 3, pixels: vec![0] };
    assert_eq!(t.load_from_decoded(indexed), Err(Texture2DError::FormatNotSupported));
    let unknown = DecodedPng { width: 1, height: 1, color: 9, pixels: vec![0; 3] };
    assert_eq!(t.load_from_decoded(unknown), Err(Texture2DError::FormatNotSupported));
    assert_eq!(t.format, None);
    let short = DecodedPng { width: 1, height: 2, color: 6, pixels: vec![0; 7] };
    assert_eq!(t.load_from_decoded(short), Err(Texture2DError::InvalidDataDimensions));
    let rgba = DecodedPng { width: 1, height: 2, color: 6, pixels: vec![1; 8] };
    assert_eq!(t.load_from_decoded(rgba), Ok(vec![1; 8]));
    assert_eq!((t.width, t.height, t.format), (1, 2, Some(PixelFormat::Rgba)));
}

#[test]
fn png_colour_codes() {
    assert_eq!(ColorLayout::from_png_code(0), Some(ColorLayout::Grayscale));
    assert_eq!(ColorLayout::from_png_code(2), Some(ColorLayout::Rgb));
    assert_eq!(ColorLayout::from_png_code(3), Some(ColorLayout::Indexed));
    assert_eq!(ColorLayout::from_png_code(4), Some(ColorLayout::GrayscaleAlpha));
    assert_eq!(ColorLayout::from_png_code(6), Some(ColorLayout::Rgba));
    assert_eq!(ColorLayout::from_png_code(1), None);
}

#[test]
fn blit_checks_bounds_format_and_size() {
    let mut t = Texture2D::new();
    assert_eq!(t.blit(0, 0, 0, 0, &[]), Err(Texture2DError::FormatNotSupported));
    t.load_from_pixels(4, 4, PixelFormat::Rgb, &[0u8; 48]).unwrap();
    assert_eq!(t.blit(3, 0, 2, 1, &[0u8; 6]), Err(Texture2DError::OutOfBounds));
    assert_eq!(t.blit(0, 4, 1, 1, &[0u8; 3]), Err(Texture2DError::OutOfBounds));
    assert_eq!(t.blit(u32::MAX, 0, 2, 1, &[0u8; 6]), Err(Texture2DError::OutOfBounds));
    assert_eq!(t.blit(2, 2, 2, 2, &[0u8; 11]), Err(Texture2DError::InvalidDataDimensions));
    assert_eq!(t.blit(2, 2, 2, 2, &[0u8; 12]), Ok(()));
}

#[test]
fn splice_needs_an_initialised_buffer() {
    let layout = AttribLayout { count: 2, scalar: ScalarKind::Float };
    let mut b = Buffer::new(layout);
    assert_eq!(b.splice(0, 4), Err(BufferError::BufferNotInitialized));
    assert_eq!(b.init_null(BufferTarget::Array, 8), Ok(()));
    assert_eq!(b.len, 8);
    assert_eq!(b.splice(2, 4), Ok(()));
    assert_eq!(b.init(BufferTarget::Element, 3), Ok(()));
    assert_eq!((b.buffer_type, b.len), (Some(BufferTarget::Element), 3));
}

#[test]
fn shader_stage_follows_extension() {
    assert_eq!(stage_from_extension(b"vert"), Some(ShaderStage::Vertex));
    assert_eq!(stage_from_extension(b"frag"), Some(ShaderStage::Fragment));
    assert_eq!(stage_from_extension(b"geom"), Some(ShaderStage::Geometry));
    assert_eq!(stage_from_extension(b"glsl"), None);
    assert_eq!(stage_from_extension(b"ver"), None);
    assert_eq!(stage_from_extension(b""), None);
}

#[test]
fn scalar_kinds_classify() {
    assert!(ScalarKind::UnsignedShort.is_index_type());
    assert!(!ScalarKind::Short.is_index_type());
    assert!(!ScalarKind::Float.is_integer());
    assert!(!ScalarKind::Double.is_integer());
    assert!(ScalarKind::Byte.is_integer());
    assert!(!ScalarKind::Bool.is_integer());
}

#[test]
fn buffer_from_is_initialised() {
    let layout = AttribLayout { count: 1, scalar: ScalarKind::UnsignedInt };
    let b = Buffer::from(layout, BufferTarget::Element, 9);
    assert_eq!((b.buffer_type, b.layout, b.len), (Some(BufferTarget::Element), layout, 9));
    assert_eq!(b.splice(0, 9), Ok(()));
}
