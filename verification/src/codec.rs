//! Pixel buffers, and the image codec that decodes, resizes and encodes them.
//!
//! The codec itself is the `image` crate. A pixel buffer holds eight-bit
//! samples; an image with deeper samples is narrowed when it is decoded.

use crate::types::ConversionError;
use vstd::prelude::*;

verus! {

#[verifier::external_type_specification]
#[verifier::external_body]
pub struct ExImageError(image::ImageError);

#[verifier::external_type_specification]
#[verifier::external_body]
pub struct ExColorType(image::ColorType);

#[verifier::external_type_specification]
#[verifier::external_body]
pub struct ExDynamicImage(image::DynamicImage);

/// The channels of a pixel, one byte each, in the order of the name.
#[derive(Debug, Clone, Copy, PartialEq, Eq, Structural)]
pub enum PixelLayout {
    Luma,
    LumaAlpha,
    Rgb,
    Rgba,
}

impl PixelLayout {
    /// The number of bytes of one pixel.
    pub open spec fn channels(self) -> nat {
        match self {
            PixelLayout::Luma => 1,
            PixelLayout::LumaAlpha => 2,
            PixelLayout::Rgb => 3,
            PixelLayout::Rgba => 4,
        }
    }

    /// The number of bytes of one pixel.
    pub fn channel_count(self) -> (n: u8)
        ensures
            n == self.channels(),
    {
        match self {
            PixelLayout::Luma => 1,
            PixelLayout::LumaAlpha => 2,
            PixelLayout::Rgb => 3,
            PixelLayout::Rgba => 4,
        }
    }
}

/// A target of encoding.
#[derive(Debug, Clone, Copy, PartialEq, Eq, Structural)]
pub enum Encoding {
    Jpeg { quality: u8 },
    Png,
}

/// The mathematical content of a pixel buffer: rows from top to bottom,
/// pixels from left to right, the channels of a pixel side by side.
pub struct Raster {
    pub width: nat,
    pub height: nat,
    pub layout: PixelLayout,
    pub samples: Seq<u8>,
}

impl Raster {
    /// At least one pixel, and exactly the samples of `width * height` pixels.
    pub open spec fn wf(self) -> bool {
        &&& self.width >= 1
        &&& self.height >= 1
        &&& self.samples.len() == self.width * self.height * self.layout.channels()
    }
}

/// An image in memory.
#[derive(Debug, Clone)]
pub struct PixelBuffer {
    pub width: u32,
    pub height: u32,
    pub layout: PixelLayout,
    pub samples: Vec<u8>,
}

impl View for PixelBuffer {
    type V = Raster;

    open spec fn view(&self) -> Raster {
        Raster {
            width: self.width as nat,
            height: self.height as nat,
            layout: self.layout,
            samples: self.samples@,
        }
    }
}

impl PixelBuffer {
    /// See `Raster::wf`.
    pub open spec fn wf(&self) -> bool {
        self@.wf()
    }

    /// Tests `wf`.
    pub fn is_well_formed(&self) -> (r: bool)
        ensures
            r == self.wf(),
    {
        assert(self.width * self.height <= 0xffff_ffff * 0xffff_ffff) by (nonlinear_arith)
            requires
                0 <= self.width <= 0xffff_ffff,
                0 <= self.height <= 0xffff_ffff,
        {
        }
        let pixels: u128 = (self.width as u128) * (self.height as u128);
        let channels: u128 = self.layout.channel_count() as u128;
        assert(pixels * channels <= 0xffff_ffff * 0xffff_ffff * 4) by (nonlinear_arith)
            requires
                0 <= pixels <= 0xffff_ffff * 0xffff_ffff,
                0 <= channels <= 4,
        {
        }
        let wanted: u128 = pixels * channels;
        self.width >= 1 && self.height >= 1 && self.samples.len() as u128 == wanted
    }
}

/// What `image::load_from_memory` makes of `content`: nothing where it
/// fails, else the image, samples narrowed to eight bits.
pub uninterp spec fn decoded_image(content: Seq<u8>) -> Option<Raster>;

/// What `DynamicImage::resize` with the Lanczos filter makes of `source` for
/// the bounds `width` and `height`. The filter is computed in floating
/// point: the value is the one that the build at hand computes.
pub uninterp spec fn resized_image(source: Raster, width: u32, height: u32) -> Raster;

/// The file that `image::write_buffer_with_format` writes for `source`, or
/// nothing where it fails.
pub uninterp spec fn encoded_image(source: Raster, encoding: Encoding) -> Option<Seq<u8>>;

/// The `image::ColorType` for eight-bit samples in `layout`.
#[verifier::external_body]
fn color_type(layout: PixelLayout) -> image::ColorType {
    match layout {
        PixelLayout::Luma => image::ColorType::L8,
        PixelLayout::LumaAlpha => image::ColorType::La8,
        PixelLayout::Rgb => image::ColorType::Rgb8,
        PixelLayout::Rgba => image::ColorType::Rgba8,
    }
}

/// Hands the samples of `source` to `ImageBuffer::from_raw`, which takes a
/// buffer of exactly the size that `wf` asks for.
#[verifier::external_body]
fn dynamic_image(source: &PixelBuffer) -> image::DynamicImage
    requires
        source.wf(),
{
    let (w, h, s) = (source.width, source.height, source.samples.clone());
    match source.layout {
        PixelLayout::Luma => image::GrayImage::from_raw(w, h, s).unwrap().into(),
        PixelLayout::LumaAlpha => image::GrayAlphaImage::from_raw(w, h, s).unwrap().into(),
        PixelLayout::Rgb => image::RgbImage::from_raw(w, h, s).unwrap().into(),
        PixelLayout::Rgba => image::RgbaImage::from_raw(w, h, s).unwrap().into(),
    }
}

/// Reads the size of `image` and its samples, narrowed to eight bits by
/// `DynamicImage::into_luma8` and its siblings: grey stays grey, alpha stays.
#[verifier::external_body]
fn pixel_buffer(image: image::DynamicImage) -> PixelBuffer {
    let (width, height, color) = (image.width(), image.height(), image.color());
    let (layout, samples) = match (color.has_color(), color.has_alpha()) {
        (false, false) => (PixelLayout::Luma, image.into_luma8().into_raw()),
        (false, true) => (PixelLayout::LumaAlpha, image.into_luma_alpha8().into_raw()),
        (true, false) => (PixelLayout::Rgb, image.into_rgb8().into_raw()),
        (true, true) => (PixelLayout::Rgba, image.into_rgba8().into_raw()),
    };
    PixelBuffer { width, height, layout, samples }
}

/// Calls `image::load_from_memory`, which guesses the format of `content` and
/// decodes it.
#[verifier::external_body]
fn load_from_memory(content: &[u8]) -> (r: Result<PixelBuffer, image::ImageError>)
    ensures
        match r {
            Ok(pixels) => decoded_image(content@) == Some(pixels@),
            Err(_) => decoded_image(content@) is None,
        },
{
    Ok(pixel_buffer(image::load_from_memory(content)?))
}

/// Calls `DynamicImage::resize` with the Lanczos filter. The result keeps the
/// layout and the aspect ratio of `source` and fits the bounds; it has at
/// least one pixel. Bounds that are the size of `source` give `source`.
#[verifier::external_body]
pub(crate) fn resize(source: &PixelBuffer, width: u32, height: u32) -> (out: PixelBuffer)
    requires
        source.wf(),
    ensures
        out@ == resized_image(source@, width, height),
        out.wf(),
        out.layout == source.layout,
        width == source.width && height == source.height ==> out@ == source@,
{
    pixel_buffer(dynamic_image(source).resize(width, height, image::imageops::FilterType::Lanczos3))
}

/// Calls `image::write_buffer_with_format`, which encodes the samples as a
/// JPEG of the given quality or as a PNG. Either file begins with its
/// signature, so it is not empty.
#[verifier::external_body]
fn write_buffer_with_format(source: &PixelBuffer, encoding: Encoding) -> (r: Result<
    Vec<u8>,
    image::ImageError,
>)
    requires
        source.wf(),
    ensures
        match r {
            Ok(bytes) => encoded_image(source@, encoding) == Some(bytes@) && bytes@.len() > 0,
            Err(_) => encoded_image(source@, encoding) is None,
        },
{
    let format = match encoding {
        Encoding::Jpeg { quality } => image::ImageOutputFormat::Jpeg(quality),
        Encoding::Png => image::ImageOutputFormat::Png,
    };
    let (w, h, mut out) = (source.width, source.height, std::io::Cursor::new(Vec::new()));
    image::write_buffer_with_format(&mut out, &source.samples, w, h, color_type(source.layout), format)?;
    Ok(out.into_inner())
}

/// What `ImageError` displays as.
#[verifier::external_body]
fn error_text(error: &image::ImageError) -> String {
    error.to_string()
}

/// What decoding `content` gives: the image, where the codec reads one that
/// is well formed.
pub open spec fn decoded(content: Seq<u8>) -> Option<Raster> {
    match decoded_image(content) {
        Some(raster) => if raster.wf() {
            Some(raster)
        } else {
            None
        },
        None => None,
    }
}

/// Decodes an image of any format that the codec knows.
///
/// Fails with `ConversionError::Image` where the codec does, and with
/// `ConversionError::InvalidContent` where the image has no pixel.
pub fn decode(content: &[u8]) -> (r: Result<PixelBuffer, ConversionError>)
    ensures
        match r {
            Ok(pixels) => decoded(content@) == Some(pixels@) && pixels.wf(),
            Err(ConversionError::Image(_)) => decoded_image(content@) is None,
            Err(ConversionError::InvalidContent { message }) => decoded_image(content@) is Some
                && decoded(content@) is None && message@ == "image has no pixels"@,
            Err(_) => false,
        },
{
    match load_from_memory(content) {
        Ok(pixels) => {
            if pixels.is_well_formed() {
                Ok(pixels)
            } else {
                Err(
                    ConversionError::InvalidContent {
                        message: String::from_str("image has no pixels"),
                    },
                )
            }
        },
        Err(e) => Err(ConversionError::Image(error_text(&e))),
    }
}

/// Encodes `source`.
///
/// Fails with `ConversionError::Image` exactly where the codec does.
pub fn encode(source: &PixelBuffer, encoding: Encoding) -> (r: Result<Vec<u8>, ConversionError>)
    requires
        source.wf(),
    ensures
        match r {
            Ok(bytes) => encoded_image(source@, encoding) == Some(bytes@) && bytes@.len() > 0,
            Err(ConversionError::Image(_)) => encoded_image(source@, encoding) is None,
            Err(_) => false,
        },
{
    match write_buffer_with_format(source, encoding) {
        Ok(bytes) => Ok(bytes),
        Err(e) => Err(ConversionError::Image(error_text(&e))),
    }
}

/// The sample of the RGB form of `source` at position `i`: grey is spread
/// over the three channels, alpha is dropped.
pub open spec fn rgb_sample(source: Raster, i: int) -> u8 {
    let pixel = i / 3;
    match source.layout {
        PixelLayout::Luma => source.samples[pixel],
        PixelLayout::LumaAlpha => source.samples[2 * pixel],
        PixelLayout::Rgb => source.samples[i],
        PixelLayout::Rgba => source.samples[4 * pixel + i % 3],
    }
}

/// `source` as interleaved RGB.
pub open spec fn rgb_raster(source: Raster) -> Raster {
    Raster {
        width: source.width,
        height: source.height,
        layout: PixelLayout::Rgb,
        samples: Seq::new(source.width * source.height * 3, |i: int| rgb_sample(source, i)),
    }
}

impl PixelBuffer {
    /// The image as interleaved RGB.
    pub fn to_rgb(&self) -> (out: PixelBuffer)
        requires
            self.wf(),
        ensures
            out@ == rgb_raster(self@),
            out.wf(),
    {
        let channels: usize = self.layout.channel_count() as usize;
        let ghost pixels: nat = self.width as nat * self.height as nat;
        let ghost source = self@;
        let mut samples: Vec<u8> = Vec::new();
        let mut at: usize = 0;
        let ghost mut pixel: nat = 0;
        assert(pixels * channels == self.samples@.len());
        while at < self.samples.len()
            invariant
                source == self@,
                channels == self.layout.channels(),
                1 <= channels <= 4,
                pixels * channels == self.samples@.len(),
                at == pixel * channels,
                pixel <= pixels,
                samples@.len() == pixel * 3,
                forall|i: int| 0 <= i < samples@.len() ==> samples@[i] == rgb_sample(source, i),
            decreases self.samples.len() - at,
        {
            assert(pixel < pixels) by (nonlinear_arith)
                requires
                    pixel * channels < pixels * channels,
                    pixel <= pixels,
            ;
            assert(at + channels <= self.samples@.len()) by (nonlinear_arith)
                requires
                    at == pixel * channels,
                    pixel + 1 <= pixels,
                    pixels * channels == self.samples@.len(),
            ;
            let (r, g, b) = match self.layout {
                PixelLayout::Luma | PixelLayout::LumaAlpha => (
                    self.samples[at],
                    self.samples[at],
                    self.samples[at],
                ),
                PixelLayout::Rgb | PixelLayout::Rgba => (
                    self.samples[at],
                    self.samples[at + 1],
                    self.samples[at + 2],
                ),
            };
            let ghost before = samples@;
            samples.push(r);
            samples.push(g);
            samples.push(b);
            proof {
                let base = pixel * 3;
                assert forall|i: int| 0 <= i < samples@.len() implies samples@[i] == rgb_sample(
                    source,
                    i,
                ) by {
                    if i < base {
                        assert(samples@[i] == before[i]);
                    } else {
                        assert(i / 3 == pixel);
                        assert(i % 3 == i - base);
                    }
                }
                assert((pixel + 1) * channels == at + channels) by (nonlinear_arith)
                    requires
                        at == pixel * channels,
                ;
                pixel = pixel + 1;
            }
            at = at + channels;
        }
        proof {
            assert(pixel == pixels) by (nonlinear_arith)
                requires
                    pixel * channels >= pixels * channels,
                    pixel <= pixels,
                    channels >= 1,
            ;
            assert(samples@ =~= rgb_raster(source).samples);
        }
        PixelBuffer { width: self.width, height: self.height, layout: PixelLayout::Rgb, samples }
    }
}

} // verus!
