//! The checks and bookkeeping of a 2D texture: which pixel data fits it, and
//! which regions may be overwritten.
use vstd::prelude::*;

verus! {

#[derive(Clone, Copy, Debug, PartialEq, Eq, Structural)]
pub enum Texture2DError {
    FileNotFound,
    InvalidDataDimensions,
    OutOfBounds,
    FormatNotSupported,
}

/// The pixel formats a texture can hold, one byte per channel.
#[derive(Clone, Copy, Debug, PartialEq, Eq, Structural)]
pub enum PixelFormat {
    Rgb,
    Rgba,
}

/// The channel layout of a decoded image.
#[derive(Clone, Copy, Debug, PartialEq, Eq, Structural)]
pub enum ColorLayout {
    Grayscale,
    Rgb,
    Indexed,
    GrayscaleAlpha,
    Rgba,
}

/// The layout that a PNG colour-type code names.
pub open spec fn spec_png_layout(code: u8) -> Option<ColorLayout> {
    if code == 0 {
        Some(ColorLayout::Grayscale)
    } else if code == 2 {
        Some(ColorLayout::Rgb)
    } else if code == 3 {
        Some(ColorLayout::Indexed)
    } else if code == 4 {
        Some(ColorLayout::GrayscaleAlpha)
    } else if code == 6 {
        Some(ColorLayout::Rgba)
    } else {
        None
    }
}

/// The pixel format that holds an image of the PNG colour-type `code`.
pub open spec fn spec_png_format(code: u8) -> Option<PixelFormat> {
    match spec_png_layout(code) {
        Some(c) => spec_format_of(c),
        None => None,
    }
}

impl ColorLayout {
    /// The layout that a PNG colour-type code names, if any.
    pub fn from_png_code(code: u8) -> (r: Option<ColorLayout>)
        ensures
            r == spec_png_layout(code),
    {
        match code {
            0 => Some(ColorLayout::Grayscale),
            2 => Some(ColorLayout::Rgb),
            3 => Some(ColorLayout::Indexed),
            4 => Some(ColorLayout::GrayscaleAlpha),
            6 => Some(ColorLayout::Rgba),
            _ => None,
        }
    }
}

/// The first frame of a PNG file: its size, its colour-type code and its
/// pixel bytes.
pub struct DecodedPng {
    pub width: u32,
    pub height: u32,
    pub color: u8,
    pub pixels: Vec<u8>,
}

/// What decoding the PNG file `png` gives: width, height, colour-type code
/// and pixel bytes of its first frame, or `None` where it does not decode.
pub uninterp spec fn png_frame(png: Seq<u8>) -> Option<(u32, u32, u8, Seq<u8>)>;

/// Relies on png's `Decoder::new`, `Decoder::read_info`,
/// `Reader::output_buffer_size`, `Reader::next_frame` and
/// `OutputInfo::buffer_size`, with the decoder's default settings: the first
/// frame decoded from an in-memory file depends on the file's bytes alone, and
/// `None` stands for an error that png reports. `ColorType` is `repr(u8)`.
#[verifier::external_body]
fn decode_png(png: &[u8]) -> (r: Option<DecodedPng>)
    ensures
        match png_frame(png@) {
            None => r is None,
            Some(f) => r matches Some(d) && f == (d.width, d.height, d.color, d.pixels@),
        },
{
    let mut reader = png::Decoder::new(std::io::Cursor::new(png)).read_info().ok()?;
    let mut pixels = vec![0u8; reader.output_buffer_size()?];
    let info = reader.next_frame(&mut pixels).ok()?;
    pixels.truncate(info.buffer_size());
    Some(DecodedPng { width: info.width, height: info.height, color: info.color_type as u8, pixels })
}

pub open spec fn spec_bytes_per_color(format: PixelFormat) -> nat {
    match format {
        PixelFormat::Rgb => 3,
        PixelFormat::Rgba => 4,
    }
}

pub fn bytes_per_color(format: PixelFormat) -> (r: u32)
    ensures
        r == spec_bytes_per_color(format),
{
    match format {
        PixelFormat::Rgb => 3,
        PixelFormat::Rgba => 4,
    }
}

/// The pixel format that holds an image of the given layout, if any.
pub open spec fn spec_format_of(color: ColorLayout) -> Option<PixelFormat> {
    match color {
        ColorLayout::Rgb => Some(PixelFormat::Rgb),
        ColorLayout::Rgba => Some(PixelFormat::Rgba),
        _ => None,
    }
}

pub fn format_of(color: ColorLayout) -> (r: Option<PixelFormat>)
    ensures
        r == spec_format_of(color),
{
    match color {
        ColorLayout::Rgb => Some(PixelFormat::Rgb),
        ColorLayout::Rgba => Some(PixelFormat::Rgba),
        _ => None,
    }
}

/// Whether `len` bytes are exactly a `width` by `height` image in `format`.
pub open spec fn fits(format: PixelFormat, width: u32, height: u32, len: nat) -> bool {
    spec_bytes_per_color(format) * width * height == len
}

fn data_fits(format: PixelFormat, width: u32, height: u32, len: usize) -> (r: bool)
    ensures
        r == fits(format, width, height, len as nat),
{
    let bpc = bytes_per_color(format) as u128;
    let w = width as u128;
    let h = height as u128;
    assert(w * h <= 0xffff_ffff * 0xffff_ffffu128) by (nonlinear_arith)
        requires
            w <= 0xffff_ffff,
            h <= 0xffff_ffff,
    ;
    assert(bpc * (w * h) <= 4 * (0xffff_ffff * 0xffff_ffffu128)) by (nonlinear_arith)
        requires
            bpc <= 4,
            w * h <= 0xffff_ffff * 0xffff_ffffu128,
    ;
    assert(bpc * (w * h) == bpc * w * h) by (nonlinear_arith);
    bpc * (w * h) == len as u128
}

#[derive(Debug)]
pub struct Texture2D {
    pub width: u32,
    pub height: u32,
    /// `None` until pixel data has been loaded.
    pub format: Option<PixelFormat>,
}

impl Texture2D {
    /// A texture that holds no pixels yet.
    pub fn new() -> (r: Self)
        ensures
            r == (Texture2D { width: 0, height: 0, format: None }),
    {
        Texture2D { width: 0, height: 0, format: None }
    }

    /// Takes `data` as the texture's whole image, `width` by `height` pixels
    /// in `format`, if it is exactly that many bytes.
    pub fn load_from_pixels(&mut self, width: u32, height: u32, format: PixelFormat, data: &[u8]) -> (r:
        Result<(), Texture2DError>)
        ensures
            if fits(format, width, height, data@.len()) {
                r is Ok && *final(self) == (Texture2D { width, height, format: Some(format) })
            } else {
                r == Err::<(), Texture2DError>(Texture2DError::InvalidDataDimensions) && *final(self)
                    == *old(self)
            },
    {
        if !data_fits(format, width, height, data.len()) {
            return Err(Texture2DError::InvalidDataDimensions);
        }
        self.width = width;
        self.height = height;
        self.format = Some(format);
        Ok(())
    }

    /// Takes a decoded PNG frame: its layout must be RGB or RGBA, and its
    /// pixels exactly fill it. On success the pixels are handed back for
    /// upload.
    pub fn load_from_decoded(&mut self, image: DecodedPng) -> (r: Result<Vec<u8>, Texture2DError>)
        ensures
            match spec_png_format(image.color) {
                None => r == Err::<Vec<u8>, Texture2DError>(Texture2DError::FormatNotSupported)
                    && *final(self) == *old(self),
                Some(f) => if fits(f, image.width, image.height, image.pixels@.len()) {
                    r matches Ok(v) && v@ == image.pixels@ && *final(self) == (Texture2D {
                        width: image.width,
                        height: image.height,
                        format: Some(f),
                    })
                } else {
                    r == Err::<Vec<u8>, Texture2DError>(Texture2DError::InvalidDataDimensions)
                        && *final(self) == *old(self)
                },
            },
    {
        let layout = match ColorLayout::from_png_code(image.color) {
            Some(layout) => layout,
            None => {
                return Err(Texture2DError::FormatNotSupported);
            },
        };
        let format = match format_of(layout) {
            Some(format) => format,
            None => {
                return Err(Texture2DError::FormatNotSupported);
            },
        };
        match self.load_from_pixels(image.width, image.height, format, image.pixels.as_slice()) {
            Ok(()) => Ok(image.pixels),
            Err(e) => Err(e),
        }
    }

    /// Takes the first frame of the PNG file `png`, which must decode to RGB
    /// or RGBA pixels that exactly fill it. On success the pixels are handed
    /// back for upload.
    pub fn load_from_png(&mut self, png: &[u8]) -> (r: Result<Vec<u8>, Texture2DError>)
        ensures
            match png_frame(png@) {
                None => r == Err::<Vec<u8>, Texture2DError>(Texture2DError::FormatNotSupported)
                    && *final(self) == *old(self),
                Some((width, height, color, pixels)) => match spec_png_format(color) {
                    None => r == Err::<Vec<u8>, Texture2DError>(Texture2DError::FormatNotSupported)
                        && *final(self) == *old(self),
                    Some(f) => if fits(f, width, height, pixels.len()) {
                        r matches Ok(v) && v@ == pixels && *final(self) == (Texture2D {
                            width,
                            height,
                            format: Some(f),
                        })
                    } else {
                        r == Err::<Vec<u8>, Texture2DError>(Texture2DError::InvalidDataDimensions)
                            && *final(self) == *old(self)
                    },
                },
            },
    {
        match decode_png(png) {
            None => Err(Texture2DError::FormatNotSupported),
            Some(image) => self.load_from_decoded(image),
        }
    }

    /// Whether `data` may overwrite the region of `width` by `height` pixels at
    /// (`x`, `y`): the region must lie inside the texture, the texture must
    /// hold pixels, and `data` must be exactly the region's bytes.
    pub fn blit(&self, x: u32, y: u32, width: u32, height: u32, data: &[u8]) -> (r: Result<
        (),
        Texture2DError,
    >)
        ensures
            if x + width > self.width || y + height > self.height {
                r == Err::<(), Texture2DError>(Texture2DError::OutOfBounds)
            } else {
                match self.format {
                    None => r == Err::<(), Texture2DError>(Texture2DError::FormatNotSupported),
                    Some(f) => if fits(f, width, height, data@.len()) {
                        r is Ok
                    } else {
                        r == Err::<(), Texture2DError>(Texture2DError::InvalidDataDimensions)
                    },
                }
            },
    {
        if x as u64 + width as u64 > self.width as u64 || y as u64 + height as u64
            > self.height as u64 {
            return Err(Texture2DError::OutOfBounds);
        }
        match self.format {
            None => Err(Texture2DError::FormatNotSupported),
            Some(format) => {
                if data_fits(format, width, height, data.len()) {
                    Ok(())
                } else {
                    Err(Texture2DError::InvalidDataDimensions)
                }
            },
        }
    }
}

} // verus!
