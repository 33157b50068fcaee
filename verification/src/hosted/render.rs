//! Frames as the renderer uploads them, and the sizes it renders at.
use crate::config::Size;
use crate::image_file::{ascii_lowercase, spec_has_extension};
use crate::path::{extension, path_extension};
use image::{DynamicImage, ImageFormat};
use crate::text::{decimal, push_decimal, push_str};
use vstd::prelude::*;

verus! {

/// The layout of a frame's bytes, which is the format of the input
/// texture they are uploaded into.
#[derive(Debug, Clone, Copy, PartialEq, Eq, Structural)]
pub enum FrameFormat {
    /// 8 bits per channel, blue first: every SDR source after conversion.
    Bgra8,
    /// Packed 2:10:10:10 with red in bits 29:20, which is what libretro's
    /// XRGB2101010 and HDR10_2101010 are in memory.
    Bgr10a2,
}

impl FrameFormat {
    /// The name printed by `-v`, Metal's for the texture format.
    pub fn name(self) -> (n: &'static str)
        ensures
            n@ == (match self {
                FrameFormat::Bgra8 => "BGRA8"@,
                FrameFormat::Bgr10a2 => "BGR10A2"@,
            }),
    {
        match self {
            FrameFormat::Bgra8 => "BGRA8",
            FrameFormat::Bgr10a2 => "BGR10A2",
        }
    }
}

/// Whether the output is SDR or 10-bit PQ for an HDR10 display.
#[derive(Debug, Clone, Copy, PartialEq, Eq, Structural)]
pub enum HdrMode {
    Off,
    Hdr10,
}

/// The render target's texture format, by Metal's names.
#[derive(Debug, Clone, Copy, PartialEq, Eq, Structural)]
pub enum OutputFormat {
    /// `MTLPixelFormat::BGRA8Unorm`.
    Bgra8Unorm,
    /// `MTLPixelFormat::RGB10A2Unorm`.
    Rgb10a2Unorm,
}

/// The render target's format: an 8-bit source without HDR renders to
/// BGRA8, RetroArch's default swapchain. A 10-bit source keeps 10 bits
/// even without HDR, so the precision a core paid for reaches the final
/// pass; under HDR10 the output is 10-bit PQ, RetroArch's HDR10
/// swapchain format.
pub fn output_pixel_format(mode: HdrMode, source: FrameFormat) -> (f: OutputFormat)
    ensures
        f == (if mode == HdrMode::Off && source == FrameFormat::Bgra8 {
            OutputFormat::Bgra8Unorm
        } else {
            OutputFormat::Rgb10a2Unorm
        }),
{
    match (mode, source) {
        (HdrMode::Off, FrameFormat::Bgra8) => OutputFormat::Bgra8Unorm,
        _ => OutputFormat::Rgb10a2Unorm,
    }
}

/// One frame: tightly packed rows in `format`, top row first, exactly
/// `size.width * size.height * 4` bytes.
#[derive(Debug, Clone, PartialEq, Eq)]
pub struct Frame {
    pub size: Size,
    pub format: FrameFormat,
    pub pixels: Vec<u8>,
}

/// File extensions the `image` crate decodes with the features this
/// crate enables.
pub const IMAGE_EXTENSIONS: [&'static str; 12] = [
    "png",
    "jpg",
    "jpeg",
    "bmp",
    "gif",
    "tga",
    "pbm",
    "pgm",
    "ppm",
    "pam",
    "pnm",
    "hdr",
];


/// What the `image` crate makes of a file's bytes: 8-bit content as RGBA8
/// (width, height, the bytes), or float content (a Radiance file), whose
/// samples are left to the caller.
pub enum Decoded {
    Rgba { width: u32, height: u32, pixels: Vec<u8> },
    Float { width: u32, height: u32 },
}

/// [`Decoded`] with its bytes as a sequence.
pub enum DecodedView {
    Rgba(u32, u32, Seq<u8>),
    Float(u32, u32),
}

impl View for Decoded {
    type V = DecodedView;

    open spec fn view(&self) -> DecodedView {
        match self {
            Decoded::Rgba { width, height, pixels } => DecodedView::Rgba(*width, *height, pixels@),
            Decoded::Float { width, height } => DecodedView::Float(*width, *height),
        }
    }
}

/// The decoders of the `image` crate this crate enables.
#[derive(Debug, Clone, Copy, PartialEq, Eq, Structural)]
pub enum Decoder {
    Png,
    Jpeg,
    Bmp,
    Gif,
    Tga,
    Pnm,
    Hdr,
}

/// What an extension names, as `image::ImageFormat` has it: a format
/// whose decoder this crate enables, or one whose decoder it leaves out.
#[derive(Debug, Clone, Copy, PartialEq, Eq, Structural)]
pub enum ImageKind {
    Decodable(Decoder),
    Other,
}

/// The format an extension names, compared ASCII-case-insensitively:
/// `image::ImageFormat::from_extension`'s table.
pub open spec fn kind_of_extension(ext: Seq<char>) -> Option<ImageKind> {
    let e = ascii_lowercase(ext);
    if e == "png"@ || e == "apng"@ {
        Some(ImageKind::Decodable(Decoder::Png))
    } else if e == "jpg"@ || e == "jpeg"@ || e == "jfif"@ {
        Some(ImageKind::Decodable(Decoder::Jpeg))
    } else if e == "bmp"@ {
        Some(ImageKind::Decodable(Decoder::Bmp))
    } else if e == "gif"@ {
        Some(ImageKind::Decodable(Decoder::Gif))
    } else if e == "tga"@ {
        Some(ImageKind::Decodable(Decoder::Tga))
    } else if e == "pbm"@ || e == "pam"@ || e == "ppm"@ || e == "pgm"@ || e == "pnm"@ {
        Some(ImageKind::Decodable(Decoder::Pnm))
    } else if e == "hdr"@ {
        Some(ImageKind::Decodable(Decoder::Hdr))
    } else if e == "avif"@ || e == "webp"@ || e == "tif"@ || e == "tiff"@ || e == "dds"@
        || e == "ico"@ || e == "exr"@ || e == "ff"@ || e == "qoi"@ {
        Some(ImageKind::Other)
    } else {
        None
    }
}

/// The format the extension of `path` names, if any.
pub open spec fn kind_of_path(path: Seq<char>) -> Option<ImageKind> {
    match extension(path) {
        Some(e) => kind_of_extension(e),
        None => None,
    }
}

/// `image::ImageFormat::from_extension` on `ext`, its answer converted
/// variant by variant. The contract claims the crate's table: the
/// extension lowercased (ASCII only) and looked up in it.
#[verifier::external_body]
fn format_of_extension(ext: &str) -> (k: Option<ImageKind>)
    ensures
        k == kind_of_extension(ext@),
{
    match ImageFormat::from_extension(ext) {
        Some(ImageFormat::Png) => Some(ImageKind::Decodable(Decoder::Png)),
        Some(ImageFormat::Jpeg) => Some(ImageKind::Decodable(Decoder::Jpeg)),
        Some(ImageFormat::Bmp) => Some(ImageKind::Decodable(Decoder::Bmp)),
        Some(ImageFormat::Gif) => Some(ImageKind::Decodable(Decoder::Gif)),
        Some(ImageFormat::Tga) => Some(ImageKind::Decodable(Decoder::Tga)),
        Some(ImageFormat::Pnm) => Some(ImageKind::Decodable(Decoder::Pnm)),
        Some(ImageFormat::Hdr) => Some(ImageKind::Decodable(Decoder::Hdr)),
        Some(_) => Some(ImageKind::Other),
        None => None,
    }
}

/// The format the extension of `path` names, as `image::open` picks the
/// decoder: [`kind_of_path`].
pub fn image_kind(path: &str) -> (k: Option<ImageKind>)
    ensures
        k == kind_of_path(path@),
{
    match path_extension(path) {
        Some(e) => format_of_extension(e.as_str()),
        None => None,
    }
}

/// What `image::load_from_memory_with_format` decodes `bytes` to with
/// the decoder `kind`, as [`Decoded`], or its error's text.
pub uninterp spec fn image_decoding(bytes: Seq<u8>, kind: Decoder) -> Result<DecodedView, Seq<char>>;

/// `image::load_from_memory_with_format` with the format `kind` names,
/// the result converted: an `ImageRgb32F` is reported as float content,
/// anything else is converted with `DynamicImage::into_rgba8`, whose
/// buffer holds four bytes a pixel; an error becomes its `Display` text.
/// The contract claims that the answer is a function of the bytes and
/// the format, and that an RGBA8 buffer holds four bytes for each of its
/// `width * height` pixels.
#[verifier::external_body]
fn decode_image(bytes: &[u8], kind: Decoder) -> (r: Result<Decoded, String>)
    ensures
        match r {
            Ok(d) => image_decoding(bytes@, kind) == Ok::<DecodedView, Seq<char>>(d@),
            Err(e) => image_decoding(bytes@, kind) == Err::<DecodedView, Seq<char>>(e@),
        },
        r matches Ok(Decoded::Rgba { width, height, pixels }) ==> pixels@.len() == width * height * 4,
{
    let format = match kind {
        Decoder::Png => ImageFormat::Png, Decoder::Jpeg => ImageFormat::Jpeg,
        Decoder::Bmp => ImageFormat::Bmp, Decoder::Gif => ImageFormat::Gif,
        Decoder::Tga => ImageFormat::Tga, Decoder::Pnm => ImageFormat::Pnm,
        Decoder::Hdr => ImageFormat::Hdr,
    };
    match image::load_from_memory_with_format(bytes, format) {
        Ok(DynamicImage::ImageRgb32F(f)) => Ok(Decoded::Float { width: f.width(), height: f.height() }),
        Ok(other) => {
            let (width, height) = (other.width(), other.height());
            Ok(Decoded::Rgba { width, height, pixels: other.into_rgba8().into_raw() })
        },
        Err(e) => Err(e.to_string()),
    }
}

/// The refusal of a path whose extension names no image format.
pub open spec fn unknown_kind_message(path: Seq<char>) -> Seq<char> {
    path + " does not have an extension naming an image format"@
}

/// The refusal of a path whose extension names a format whose decoder
/// this crate leaves out.
pub open spec fn disabled_kind_message(path: Seq<char>) -> Seq<char> {
    path + " names an image format this build does not decode"@
}

/// A static image, decoded once: the same frame every time.
pub struct ImageSource {
    frame: Frame,
}

/// RGBA8 bytes with red and blue swapped in every pixel: BGRA8.
pub open spec fn rgba_to_bgra(rgba: Seq<u8>) -> Seq<u8> {
    Seq::new(
        rgba.len(),
        |i: int|
            if i % 4 == 0 && i + 2 < rgba.len() {
                rgba[i + 2]
            } else if i % 4 == 2 {
                rgba[i - 2]
            } else {
                rgba[i]
            },
    )
}

impl ImageSource {
    /// File extensions the `image` crate decodes with the features this
    /// crate enables.
    pub const EXTENSIONS: [&'static str; 12] = IMAGE_EXTENSIONS;

    /// Whether `path` has an extension in [`IMAGE_EXTENSIONS`],
    /// case-insensitively.
    pub fn accepts(path: &str) -> (b: bool)
        ensures
            b == spec_has_extension(path@, IMAGE_EXTENSIONS@),
    {
        crate::image_file::has_extension(path, &IMAGE_EXTENSIONS)
    }

    /// Take an image already in memory, `width` by `height` pixels of
    /// RGBA8, converting it to BGRA8.
    pub fn from_image(width: u32, height: u32, rgba: Vec<u8>) -> (s: ImageSource)
        requires
            rgba@.len() == width * height * 4,
        ensures
            s.frame() == (Frame {
                size: Size { width, height },
                format: FrameFormat::Bgra8,
                pixels: s.frame().pixels,
            }),
            s.frame().pixels@ == rgba_to_bgra(rgba@),
    {
        let mut px = rgba;
        let ghost orig = px@;
        let n = px.len();
        assert(n % 4 == 0) by (nonlinear_arith)
            requires
                n == width * height * 4,
        ;
        let mut i: usize = 0;
        while i < n
            invariant
                n == px@.len(),
                n == orig.len(),
                n % 4 == 0,
                i % 4 == 0,
                0 <= i <= n,
                forall|j: int| 0 <= j < i ==> px@[j] == #[trigger] rgba_to_bgra(orig)[j],
                forall|j: int| i <= j < n ==> px@[j] == orig[j],
            decreases n - i,
        {
            let r = px[i];
            let b = px[i + 2];
            px.set(i, b);
            px.set(i + 2, r);
            i = i + 4;
        }
        assert(px@ =~= rgba_to_bgra(orig));
        ImageSource { frame: Frame { size: Size { width, height }, format: FrameFormat::Bgra8, pixels: px } }
    }

    /// The frame every call of the source yields.
    pub closed spec fn frame(&self) -> Frame {
        self.frame
    }

    /// The image's size.
    pub fn size(&self) -> (s: Size)
        ensures
            s == self.frame().size,
    {
        self.frame.size
    }

    /// The layout of the image's frame: always `Bgra8` for an image taken
    /// through [`ImageSource::from_image`].
    pub fn format(&self) -> (f: FrameFormat)
        ensures
            f == self.frame().format,
    {
        self.frame.format
    }

    /// Open the image file `path`, whose bytes are `bytes`, decoded with
    /// the `image` crate as its extension names the format (as
    /// `image::open` does): 8-bit content becomes a BGRA8 image; float
    /// content (a Radiance file) is `None`, for the caller's HDR encoding;
    /// an undecodable file is the crate's error.
    pub fn open(path: &str, bytes: &[u8]) -> (r: Result<Option<ImageSource>, String>)
        ensures
            match kind_of_path(path@) {
                None => r matches Err(e) && e@ == unknown_kind_message(path@),
                Some(ImageKind::Other) => r matches Err(e) && e@ == disabled_kind_message(path@),
                Some(ImageKind::Decodable(k)) => match image_decoding(bytes@, k) {
                    Err(m) => r matches Err(e) && e@ == m,
                    Ok(DecodedView::Float(_, _)) => r matches Ok(None),
                    Ok(DecodedView::Rgba(w, h, px)) => r matches Ok(Some(src)) && src.frame().size
                        == (Size { width: w, height: h }) && src.frame().format == FrameFormat::Bgra8
                        && src.frame().pixels@ == rgba_to_bgra(px),
                },
            },
    {
        let kind = match image_kind(path) {
            Some(ImageKind::Decodable(k)) => k,
            Some(ImageKind::Other) => {
                let mut e = path.to_string();
                push_str(&mut e, " names an image format this build does not decode");
                return Err(e);
            },
            None => {
                let mut e = path.to_string();
                push_str(&mut e, " does not have an extension naming an image format");
                return Err(e);
            },
        };
        match decode_image(bytes, kind) {
            Ok(Decoded::Rgba { width, height, pixels }) => Ok(Some(ImageSource::from_image(width, height, pixels))),
            Ok(Decoded::Float { .. }) => Ok(None),
            Err(e) => Err(e),
        }
    }

    /// The next frame: the image, unchanged, every time.
    pub fn next(&self) -> (f: &Frame)
        ensures
            *f == self.frame(),
    {
        &self.frame
    }
}

/// The largest texture dimension Metal allows on every Apple GPU family
/// this tool runs on.
pub const MAX_TEXTURE_DIM: u32 = 16384;

/// Why a texture size is refused.
pub open spec fn spec_texture_size_error(size: Size) -> Option<Seq<char>> {
    let shown = "size is "@ + decimal(size.width as nat) + "x"@ + decimal(size.height as nat);
    if size.width == 0 || size.height == 0 {
        Some(shown + "; refusing to create a zero-sized texture"@)
    } else if size.width > MAX_TEXTURE_DIM || size.height > MAX_TEXTURE_DIM {
        Some(
            shown
                + "; Metal textures cannot exceed 16384 on a side (for the output, use a smaller --size or --scale)"@,
        )
    } else {
        None
    }
}

/// Refuse a texture size Metal would reject: a zero dimension, or one
/// above [`MAX_TEXTURE_DIM`].
pub fn check_texture_size(size: Size) -> (r: Result<(), String>)
    ensures
        match r {
            Ok(()) => spec_texture_size_error(size) is None,
            Err(m) => spec_texture_size_error(size) == Some(m@),
        },
{
    if size.width == 0 || size.height == 0 || size.width > MAX_TEXTURE_DIM || size.height
        > MAX_TEXTURE_DIM {
        let mut m = String::new();
        push_str(&mut m, "size is ");
        push_decimal(&mut m, size.width as u64);
        push_str(&mut m, "x");
        push_decimal(&mut m, size.height as u64);
        if size.width == 0 || size.height == 0 {
            push_str(&mut m, "; refusing to create a zero-sized texture");
        } else {
            push_str(
                &mut m,
                "; Metal textures cannot exceed 16384 on a side (for the output, use a smaller --size or --scale)",
            );
        }
        assert(spec_texture_size_error(size) == Some(m@));
        return Err(m);
    }
    Ok(())
}

/// `image` scaled by the largest factor that fits it inside `max`,
/// keeping its aspect ratio and flooring to whole pixels; the image's own
/// size when it has a zero side or the fit would have one.
pub open spec fn spec_fit(image: Size, max: Size) -> Size {
    let (iw, ih, mw, mh) = (image.width as nat, image.height as nat, max.width as nat, max.height as nat);
    if iw == 0 || ih == 0 {
        image
    } else {
        let (w, h) = if mw * ih <= mh * iw {
            (mw, (ih * mw) / iw)
        } else {
            ((iw * mh) / ih, mh)
        };
        if w == 0 || h == 0 {
            image
        } else {
            Size { width: w as u32, height: h as u32 }
        }
    }
}

/// Scale `image` by one factor so it fits inside `max`, keeping its aspect
/// ratio and flooring to whole pixels, the way RetroArch's fill mode clamps
/// a scaled window and its viewport letterboxes inside a fixed one. The
/// factor is the smaller of `max.width / image.width` and `max.height /
/// image.height`, taken exactly. Falls back to the image's own size when
/// the factor would produce an empty texture (a zero `max`, or an image
/// with a zero dimension).
pub fn fit(image: Size, max: Size) -> (r: Size)
    ensures
        r == spec_fit(image, max),
{
    if image.width == 0 || image.height == 0 {
        return image;
    }
    let iw = image.width as u64;
    let ih = image.height as u64;
    let mw = max.width as u64;
    let mh = max.height as u64;
    proof {
        assert(mw * ih <= u32::MAX * u32::MAX) by (nonlinear_arith)
            requires
                mw <= u32::MAX,
                ih <= u32::MAX,
        ;
        assert(mh * iw <= u32::MAX * u32::MAX) by (nonlinear_arith)
            requires
                mh <= u32::MAX,
                iw <= u32::MAX,
        ;
    }
    let (w, h) = if mw * ih <= mh * iw {
        proof {
            assert(((ih * mw) as int) / (iw as int) <= mh) by (nonlinear_arith)
                requires
                    mw * ih <= mh * iw,
                    iw > 0,
            ;
        }
        (mw, (ih * mw) / iw)
    } else {
        proof {
            assert(((iw * mh) as int) / (ih as int) <= mw) by (nonlinear_arith)
                requires
                    mw * ih > mh * iw,
                    ih > 0,
            ;
        }
        ((iw * mh) / ih, mh)
    };
    if w == 0 || h == 0 {
        image
    } else {
        Size { width: w as u32, height: h as u32 }
    }
}

/// The fit never exceeds `max` unless it falls back to the image, and
/// when it does not fall back one side equals `max`'s.
pub proof fn lemma_fit_fits(image: Size, max: Size)
    ensures
        spec_fit(image, max) == image || (spec_fit(image, max).width <= max.width
            && spec_fit(image, max).height <= max.height && (spec_fit(image, max).width
            == max.width || spec_fit(image, max).height == max.height)),
{
    let (iw, ih, mw, mh) = (image.width as nat, image.height as nat, max.width as nat, max.height as nat);
    if iw != 0 && ih != 0 {
        if mw * ih <= mh * iw {
            assert((ih * mw) / iw <= mh) by (nonlinear_arith)
                requires
                    mw * ih <= mh * iw,
                    iw > 0,
            ;
        } else {
            assert((iw * mh) / ih <= mw) by (nonlinear_arith)
                requires
                    mw * ih > mh * iw,
                    ih > 0,
            ;
        }
    }
}

/// Fitting keeps the image whole inside `max`: for sizes with no zero
/// side, the result fits inside `max`, meets it on one side, and its
/// other side is the image's aspect ratio applied to that side, floored;
/// it is the image's own size only when that floored side would be zero.
pub proof fn lemma_fit_is_largest_inside(image: Size, max: Size)
    requires
        image.width > 0,
        image.height > 0,
        max.width > 0,
        max.height > 0,
    ensures
        ({
            let r = spec_fit(image, max);
            let (iw, ih, mw, mh) = (image.width as int, image.height as int, max.width as int, max.height as int);
            ||| (r.width > 0 && r.height > 0 && r.width <= mw && r.height <= mh && ((r.width == mw
                && r.height * iw <= ih * mw < (r.height + 1) * iw) || (r.height == mh && r.width * ih
                <= iw * mh < (r.width + 1) * ih)))
            ||| (r == image && (ih * mw < iw || iw * mh < ih))
        }),
{
    let (iw, ih, mw, mh) = (image.width as int, image.height as int, max.width as int, max.height as int);
    if mw * ih <= mh * iw {
        let h = (ih * mw) / iw;
        assert(h * iw <= ih * mw < (h + 1) * iw) by (nonlinear_arith)
            requires
                h == (ih * mw) / iw,
                iw > 0,
                ih * mw >= 0,
        ;
        assert(h <= mh) by (nonlinear_arith)
            requires
                h * iw <= ih * mw,
                mw * ih <= mh * iw,
                iw > 0,
        ;
        assert(h == 0 <==> ih * mw < iw) by (nonlinear_arith)
            requires
                h * iw <= ih * mw < (h + 1) * iw,
                iw > 0,
                h >= 0,
        ;
    } else {
        let w = (iw * mh) / ih;
        assert(w * ih <= iw * mh < (w + 1) * ih) by (nonlinear_arith)
            requires
                w == (iw * mh) / ih,
                ih > 0,
                iw * mh >= 0,
        ;
        assert(w <= mw) by (nonlinear_arith)
            requires
                w * ih <= iw * mh,
                mw * ih > mh * iw,
                ih > 0,
        ;
        assert(w == 0 <==> iw * mh < ih) by (nonlinear_arith)
            requires
                w * ih <= iw * mh < (w + 1) * ih,
                ih > 0,
                w >= 0,
        ;
    }
}

} // verus!
