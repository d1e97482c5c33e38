//! Captcha images as plain values, decoded from and encoded to PNG with `image`.
use vstd::prelude::*;
use image::DynamicImage;

verus! {

// region: the model

/// The colour type of an image, as `image::ColorType` names it. `Other` stands
/// for the types that PNG decoding never gives (the 32-bit float ones).
#[derive(Debug, Clone, Copy, PartialEq, Eq)]
pub enum ColorKind {
    L8,
    La8,
    Rgb8,
    Rgba8,
    L16,
    La16,
    Rgb16,
    Rgba16,
    Other,
}

/// The samples of an image, row by row, channel by channel.
#[derive(Debug)]
pub enum Samples {
    U8(Vec<u8>),
    U16(Vec<u16>),
}

/// The samples as a mathematical value.
pub enum SamplesView {
    U8(Seq<u8>),
    U16(Seq<u16>),
}

/// An image: its width and height in pixels, its colour type and its samples.
#[derive(Debug)]
pub struct CaptchaImage {
    pub width: u32,
    pub height: u32,
    pub color: ColorKind,
    pub samples: Samples,
}

/// An image as a mathematical value.
pub struct ImageView {
    pub width: u32,
    pub height: u32,
    pub color: ColorKind,
    pub samples: SamplesView,
}

impl View for Samples {
    type V = SamplesView;

    open spec fn view(&self) -> SamplesView {
        match self {
            Samples::U8(v) => SamplesView::U8(v@),
            Samples::U16(v) => SamplesView::U16(v@),
        }
    }
}

impl View for CaptchaImage {
    type V = ImageView;

    open spec fn view(&self) -> ImageView {
        ImageView {
            width: self.width,
            height: self.height,
            color: self.color,
            samples: self.samples@,
        }
    }
}

/// The number of channels of a pixel of colour type `c` (0 for `Other`).
pub open spec fn channels(c: ColorKind) -> nat {
    match c {
        ColorKind::L8 | ColorKind::L16 => 1,
        ColorKind::La8 | ColorKind::La16 => 2,
        ColorKind::Rgb8 | ColorKind::Rgb16 => 3,
        ColorKind::Rgba8 | ColorKind::Rgba16 => 4,
        ColorKind::Other => 0,
    }
}

/// Whether the samples of colour type `c` are 8-bit.
pub open spec fn eight_bit(c: ColorKind) -> bool {
    c is L8 || c is La8 || c is Rgb8 || c is Rgba8
}

/// Whether the samples of colour type `c` are 16-bit.
pub open spec fn sixteen_bit(c: ColorKind) -> bool {
    c is L16 || c is La16 || c is Rgb16 || c is Rgba16
}

/// Whether an image is whole: its colour type is an 8- or 16-bit one, its samples
/// have that width, and there is one sample per channel of every pixel.
pub open spec fn well_formed_image(v: ImageView) -> bool {
    match v.samples {
        SamplesView::U8(s) => eight_bit(v.color) && s.len() == v.width * v.height * channels(
            v.color,
        ),
        SamplesView::U16(s) => sixteen_bit(v.color) && s.len() == v.width * v.height * channels(
            v.color,
        ),
    }
}

impl Clone for CaptchaImage {
    /// A copy of the image.
    fn clone(&self) -> (res: Self)
        ensures
            res@ == self@,
    {
        let samples = match &self.samples {
            Samples::U8(v) => {
                let c = v.clone();
                assert(c@ =~= v@);
                Samples::U8(c)
            },
            Samples::U16(v) => {
                let c = v.clone();
                assert(c@ =~= v@);
                Samples::U16(c)
            },
        };
        CaptchaImage { width: self.width, height: self.height, color: self.color, samples }
    }
}

/// The number of channels of a pixel of colour type `c` (0 for `Other`).
fn channel_count(c: ColorKind) -> (res: u64)
    ensures
        res == channels(c),
{
    match c {
        ColorKind::L8 | ColorKind::L16 => 1,
        ColorKind::La8 | ColorKind::La16 => 2,
        ColorKind::Rgb8 | ColorKind::Rgb16 => 3,
        ColorKind::Rgba8 | ColorKind::Rgba16 => 4,
        ColorKind::Other => 0,
    }
}

/// Whether the image is whole, as `well_formed_image` says.
pub fn is_well_formed(image: &CaptchaImage) -> (res: bool)
    ensures
        res == well_formed_image(image@),
{
    assert((image.width as u64) * (image.height as u64) <= u64::MAX) by (nonlinear_arith)
        requires
            image.width <= u32::MAX,
            image.height <= u32::MAX,
    ;
    let pixels: u64 = (image.width as u64) * (image.height as u64);
    let count: Option<u64> = pixels.checked_mul(channel_count(image.color));
    let (len, width_ok): (usize, bool) = match &image.samples {
        Samples::U8(s) => (
            s.len(),
            match image.color {
                ColorKind::L8 | ColorKind::La8 | ColorKind::Rgb8 | ColorKind::Rgba8 => true,
                _ => false,
            },
        ),
        Samples::U16(s) => (
            s.len(),
            match image.color {
                ColorKind::L16 | ColorKind::La16 | ColorKind::Rgb16 | ColorKind::Rgba16 => true,
                _ => false,
            },
        ),
    };
    match count {
        Some(n) => width_ok && (len as u64) == n,
        None => false,
    }
}

// endregion

// region: PNG

/// What `image::load_from_memory` makes of `bytes`, as a plain image (`None` where
/// it fails).
pub uninterp spec fn image_decoding(bytes: Seq<u8>) -> Option<ImageView>;

/// What `image::write_buffer_with_format` writes for `image` in the PNG format
/// (`None` where it fails).
pub uninterp spec fn png_encoding(image: ImageView) -> Option<Seq<u8>>;

/// `image::ExtendedColorType`, carried as it is.
#[verifier::external_type_specification]
#[verifier::external_body]
pub struct ExExtendedColorType(image::ExtendedColorType);

/// The `image::ExtendedColorType` of the same name as `c` (`Other` has none; it
/// is given as an unknown type).
#[verifier::external_body]
fn extended_color(c: ColorKind) -> image::ExtendedColorType {
    match c {
        ColorKind::L8 => image::ExtendedColorType::L8,
        ColorKind::La8 => image::ExtendedColorType::La8,
        ColorKind::Rgb8 => image::ExtendedColorType::Rgb8,
        ColorKind::Rgba8 => image::ExtendedColorType::Rgba8,
        ColorKind::L16 => image::ExtendedColorType::L16,
        ColorKind::La16 => image::ExtendedColorType::La16,
        ColorKind::Rgb16 => image::ExtendedColorType::Rgb16,
        ColorKind::Rgba16 => image::ExtendedColorType::Rgba16,
        ColorKind::Other => image::ExtendedColorType::Unknown(0),
    }
}

/// `image::DynamicImage`, carried as it is.
#[verifier::external_type_specification]
#[verifier::external_body]
pub struct ExDynamicImage(image::DynamicImage);

/// `image::ColorType`, carried as it is.
#[verifier::external_type_specification]
#[verifier::external_body]
pub struct ExColorType(image::ColorType);

/// The `ColorKind` of the same name as `c`; `Other` for the float types.
#[verifier::external_body]
fn color_kind(c: image::ColorType) -> ColorKind {
    match c {
        image::ColorType::L8 => ColorKind::L8,
        image::ColorType::La8 => ColorKind::La8,
        image::ColorType::Rgb8 => ColorKind::Rgb8,
        image::ColorType::Rgba8 => ColorKind::Rgba8,
        image::ColorType::L16 => ColorKind::L16,
        image::ColorType::La16 => ColorKind::La16,
        image::ColorType::Rgb16 => ColorKind::Rgb16,
        image::ColorType::Rgba16 => ColorKind::Rgba16,
        _ => ColorKind::Other,
    }
}

/// The samples of `img`, moved out of its buffer.
#[verifier::external_body]
fn samples_of(img: DynamicImage) -> Samples {
    match img {
        DynamicImage::ImageLuma8(b) => Samples::U8(b.into_raw()),
        DynamicImage::ImageLumaA8(b) => Samples::U8(b.into_raw()),
        DynamicImage::ImageRgb8(b) => Samples::U8(b.into_raw()),
        DynamicImage::ImageRgba8(b) => Samples::U8(b.into_raw()),
        DynamicImage::ImageLuma16(b) => Samples::U16(b.into_raw()),
        DynamicImage::ImageLumaA16(b) => Samples::U16(b.into_raw()),
        DynamicImage::ImageRgb16(b) => Samples::U16(b.into_raw()),
        DynamicImage::ImageRgba16(b) => Samples::U16(b.into_raw()),
        other => Samples::U8(other.into_bytes()),
    }
}

/// `image::load_from_memory(bytes)`, with the decoded image taken apart into its
/// size, colour type and samples.
///
/// Trusted: the result is `image_decoding(bytes)`; a decoded image of an 8- or
/// 16-bit colour type is whole (the decoder fills a buffer of exactly one sample
/// per channel of every pixel).
#[verifier::external_body]
pub(crate) fn load_image(bytes: &[u8]) -> (res: Result<CaptchaImage, image::ImageError>)
    ensures
        match image_decoding(bytes@) {
            Some(v) => res matches Ok(img) && img@ == v,
            None => res is Err,
        },
        res is Ok && !(res->Ok_0.color is Other) ==> well_formed_image(res->Ok_0@),
{
    let img = image::load_from_memory(bytes)?;
    let (width, height, color) = (img.width(), img.height(), color_kind(img.color()));
    Ok(CaptchaImage { width, height, color, samples: samples_of(img) })
}

/// `image::write_buffer_with_format` in the PNG format: the image as PNG bytes.
/// The 16-bit samples go in the machine's byte order, as the encoder takes them.
///
/// Trusted: the result is `png_encoding(image)`. The image must be whole: the
/// encoder panics on a buffer of the wrong length.
#[verifier::external_body]
pub(crate) fn encode_png(picture: &CaptchaImage) -> (res: Result<Vec<u8>, image::ImageError>)
    requires
        well_formed_image(picture@),
    ensures
        match png_encoding(picture@) {
            Some(b) => res matches Ok(v) && v@ == b,
            None => res is Err,
        },
{
    let raw: Vec<u8> = match &picture.samples {
        Samples::U8(v) => v.clone(),
        Samples::U16(v) => v.iter().flat_map(|s| s.to_ne_bytes()).collect(),
    };
    let mut bytes: Vec<u8> = Vec::new();
    let color = extended_color(picture.color);
    let writer = &mut std::io::Cursor::new(&mut bytes);
    image::write_buffer_with_format(writer, &raw, picture.width, picture.height, color, image::ImageFormat::Png)?;
    Ok(bytes)
}

// endregion

} // verus!
