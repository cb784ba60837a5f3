//! Where pictures leave and enter the library: reading and writing GIF, resampling, writing PNG.
//! The `gif` and `image` crates do that work; this module says what is relied on.

use gif::{DisposalMethod, EncodingError, Frame};
use std::io::ErrorKind;
use vstd::prelude::*;

verus! {

/// What becomes of a frame's area once the frame has been shown.
#[derive(Clone, Copy, PartialEq, Eq, Debug, Structural)]
pub enum Disposal {
    Any,
    Keep,
    Background,
    Previous,
}

/// One decoded frame, its pixels as RGBA bytes in row order.
pub struct RawFrame {
    pub delay: u16,
    pub dispose: Disposal,
    pub left: u16,
    pub top: u16,
    pub width: u16,
    pub height: u16,
    pub buffer: Vec<u8>,
}

/// The mathematical content of a [`RawFrame`].
#[verifier::ext_equal]
pub struct FrameView {
    pub delay: u16,
    pub dispose: Disposal,
    pub left: u16,
    pub top: u16,
    pub width: u16,
    pub height: u16,
    pub pixels: Seq<u8>,
}

impl View for RawFrame {
    type V = FrameView;

    open spec fn view(&self) -> FrameView {
        FrameView {
            delay: self.delay,
            dispose: self.dispose,
            left: self.left,
            top: self.top,
            width: self.width,
            height: self.height,
            pixels: self.buffer@,
        }
    }
}

/// A frame holds four bytes for each of its pixels.
pub open spec fn whole_frame(f: FrameView) -> bool {
    f.pixels.len() == f.width * f.height * 4
}

/// A GIF being read: the decoder of the `gif` crate, behind the frames read so far.
#[verifier::external_body]
pub struct GifReader<'a> {
    inner: gif::Decoder<&'a [u8]>,
}

/// The screen size that the header of a GIF gives, or what is wrong with the header.
pub uninterp spec fn gif_screen(data: Seq<u8>) -> Result<(u16, u16), Seq<char>>;

/// The frames that can be read from a GIF one after the other, and what stops the reading
/// where it is not the end of the file.
pub uninterp spec fn gif_stream(data: Seq<u8>) -> (Seq<FrameView>, Option<Seq<char>>);

/// The screen size of the GIF being read.
pub uninterp spec fn reader_screen(d: GifReader) -> (u16, u16);

/// The frames that are still to be read, and what stops the reading.
pub uninterp spec fn reader_stream(d: GifReader) -> (Seq<FrameView>, Option<Seq<char>>);

/// `gif::DecodeOptions::read_info`, with RGBA output and the options' other defaults, reads the
/// header of a GIF. What a GIF file holds is the format's own matter; the contract names the
/// screen size that the header gives and the frames that follow it.
#[verifier::external_body]
pub(crate) fn open_gif<'a>(data: &'a [u8]) -> (r: Result<GifReader<'a>, String>)
    ensures
        r is Ok <==> gif_screen(data@) is Ok,
        r matches Ok(d) ==> reader_screen(d) == gif_screen(data@)->Ok_0,
        r matches Ok(d) ==> reader_stream(d) == gif_stream(data@),
        r matches Err(e) ==> e@ == gif_screen(data@)->Err_0,
{
    let mut opts = gif::DecodeOptions::new();
    opts.set_color_output(gif::ColorOutput::RGBA);
    opts.read_info(data).map(|inner| GifReader { inner }).map_err(|e| e.to_string())
}

/// `gif::Decoder::width` and `gif::Decoder::height` give the screen size.
#[verifier::external_body]
pub(crate) fn screen_size(d: &GifReader) -> (r: (u16, u16))
    ensures
        r == reader_screen(*d),
{
    (d.inner.width(), d.inner.height())
}

/// `gif::Decoder::read_next_frame` hands out the frames in order, each with four bytes for every
/// pixel, then `None`, or the fault that stopped it. The frame is copied out of the decoder.
#[verifier::external_body]
pub(crate) fn next_frame(d: &mut GifReader) -> (r: Result<Option<RawFrame>, String>)
    ensures
        reader_screen(*final(d)) == reader_screen(*old(d)),
        reader_stream(*old(d)).0.len() > 0 ==> {
            &&& r matches Ok(Some(f))
            &&& f@ == reader_stream(*old(d)).0[0]
            &&& whole_frame(f@)
            &&& reader_stream(*final(d)) == (
                reader_stream(*old(d)).0.drop_first(),
                reader_stream(*old(d)).1,
            )
        },
        reader_stream(*old(d)).0.len() == 0 ==> match reader_stream(*old(d)).1 {
            Some(fault) => r matches Err(e) && e@ == fault,
            None => r == Ok::<Option<RawFrame>, String>(None),
        },
{
    match d.inner.read_next_frame() {
        Ok(Some(f)) => {
            let dispose = match f.dispose {
                DisposalMethod::Any => Disposal::Any,
                DisposalMethod::Keep => Disposal::Keep,
                DisposalMethod::Background => Disposal::Background,
                DisposalMethod::Previous => Disposal::Previous,
            };
            let (delay, left, top, width, height) = (f.delay, f.left, f.top, f.width, f.height);
            Ok(Some(RawFrame { delay, dispose, left, top, width, height, buffer: f.buffer.to_vec() }))
        },
        Ok(None) => Ok(None),
        Err(e) => Err(e.to_string()),
    }
}

/// A picture in the colours of a palette.
pub struct Paletted {
    /// Red, green and blue of each colour.
    pub palette: Vec<u8>,
    /// The colour that stands for transparent.
    pub transparent: Option<u8>,
    /// The colour of each pixel.
    pub indices: Vec<u8>,
}

/// The mathematical content of a [`Paletted`] picture.
#[verifier::ext_equal]
pub struct PalettedView {
    pub palette: Seq<u8>,
    pub transparent: Option<u8>,
    pub indices: Seq<u8>,
}

impl View for Paletted {
    type V = PalettedView;

    open spec fn view(&self) -> PalettedView {
        PalettedView {
            palette: self.palette@,
            transparent: self.transparent,
            indices: self.indices@,
        }
    }
}

/// RGBA pixels reduced to a palette, at a speed between 1 and 30.
pub uninterp spec fn quantized(width: u16, height: u16, pixels: Seq<u8>, speed: i32) -> PalettedView;

/// `gif::Frame::from_rgba_speed` picks at most 256 colours for the pixels and gives the colour of
/// each. Which colours it picks is an algorithm of its own; the contract names the outcome and
/// states its sizes.
#[verifier::external_body]
pub(crate) fn quantize(width: u16, height: u16, pixels: Vec<u8>, speed: i32) -> (r: Paletted)
    requires
        pixels@.len() == width * height * 4,
        1 <= speed <= 30,
    ensures
        r@ == quantized(width, height, pixels@, speed),
        r.indices@.len() == width * height,
        r.palette@.len() <= 768,
{
    let mut pixels = pixels;
    let frame = Frame::from_rgba_speed(width, height, &mut pixels, speed);
    let palette = frame.palette.unwrap_or_default();
    Paletted { palette, transparent: frame.transparent, indices: frame.buffer.into_owned() }
}

/// One frame to be written: a picture that fills the screen, how long it is shown, and what
/// becomes of it then.
pub struct OutFrame {
    pub delay: u16,
    pub dispose: Disposal,
    pub width: u16,
    pub height: u16,
    pub picture: Paletted,
}

/// The mathematical content of an [`OutFrame`].
#[verifier::ext_equal]
pub struct OutFrameView {
    pub delay: u16,
    pub dispose: Disposal,
    pub width: u16,
    pub height: u16,
    pub picture: PalettedView,
}

impl View for OutFrame {
    type V = OutFrameView;

    open spec fn view(&self) -> OutFrameView {
        OutFrameView {
            delay: self.delay,
            dispose: self.dispose,
            width: self.width,
            height: self.height,
            picture: self.picture@,
        }
    }
}

/// A frame with an index for every pixel and at most 256 colours.
pub open spec fn writable(f: OutFrameView) -> bool {
    f.picture.indices.len() == f.width * f.height && f.picture.palette.len() <= 768
}

/// A frame with pixels, not more of them than a decoder reads by default.
pub open spec fn readable(f: OutFrameView) -> bool {
    writable(f) && 0 < f.width * f.height <= 12_500_000
}

/// What a GIF is made of, in the order in which it is written.
#[verifier::ext_equal]
pub struct GifContent {
    pub width: u16,
    pub height: u16,
    /// The colours shared by all frames.
    pub palette: Seq<u8>,
    /// Whether the animation repeats without end.
    pub endless: bool,
    pub frames: Seq<OutFrameView>,
}

/// A GIF being written: the encoder of the `gif` crate, writing into memory.
#[verifier::external_body]
pub struct GifWriter {
    inner: gif::Encoder<Vec<u8>>,
}

/// What has been written so far.
pub uninterp spec fn writer_content(w: GifWriter) -> GifContent;

/// The bytes of a GIF with this content.
pub uninterp spec fn gif_file(content: GifContent) -> Seq<u8>;

/// Something stands between the header and the trailer.
pub open spec fn complete(content: GifContent) -> bool {
    content.endless || content.frames.len() > 0
}

/// All frames can be read back.
pub open spec fn all_readable(content: GifContent) -> bool {
    forall|i: int| 0 <= i < content.frames.len() ==> readable(#[trigger] content.frames[i])
}

/// The header of the file gives the content's screen size.
pub open spec fn has_screen(data: Seq<u8>, content: GifContent) -> bool {
    gif_screen(data) matches Ok(size) && size == (content.width, content.height)
}

/// The file's frames are the content's, in number, times, sizes and disposal, and nothing stops
/// their reading.
pub open spec fn has_frames(data: Seq<u8>, content: GifContent) -> bool {
    &&& gif_stream(data).1 is None
    &&& gif_stream(data).0.len() == content.frames.len()
    &&& forall|i: int|
        0 <= i < content.frames.len() ==> same_slot(
            #[trigger] gif_stream(data).0[i],
            content.frames[i],
        )
}

/// A frame read stands where, as long as and as large as a frame written.
pub open spec fn same_slot(f: FrameView, g: OutFrameView) -> bool {
    &&& f.delay == g.delay
    &&& f.dispose == g.dispose
    &&& f.left == 0
    &&& f.top == 0
    &&& f.width == g.width
    &&& f.height == g.height
}

/// `gif::Encoder::new` writes a header; into memory that fails only where the palette has more
/// than 256 colours.
#[verifier::external_body]
pub(crate) fn start_gif(width: u16, height: u16, palette: &[u8]) -> (r: Result<GifWriter, String>)
    ensures
        palette@.len() <= 768 ==> r is Ok,
        r matches Ok(w) ==> writer_content(w) == (GifContent {
            width,
            height,
            palette: palette@,
            endless: false,
            frames: Seq::empty(),
        }),
{
    gif::Encoder::new(Vec::new(), width, height, palette).map(|inner| GifWriter { inner }).map_err(
        |e| e.to_string(),
    )
}

/// `gif::Encoder::set_repeat` with `gif::Repeat::Infinite` makes the animation endless; into
/// memory that does not fail.
#[verifier::external_body]
pub(crate) fn repeat_forever(w: &mut GifWriter) -> (r: Result<(), String>)
    requires
        !writer_content(*old(w)).endless,
        writer_content(*old(w)).frames.len() == 0,
    ensures
        r is Ok,
        writer_content(*final(w)) == (GifContent { endless: true, ..writer_content(*old(w)) }),
{
    w.inner.set_repeat(gif::Repeat::Infinite).map_err(|e| e.to_string())
}

/// Why a frame could not be written.
pub enum WriteFault {
    /// There was no memory for it.
    NoMemory,
    /// Something else, in the encoder's words.
    Other(String),
}

/// `gif::Encoder::write_frame` adds a frame at the screen's origin. With an index for every pixel
/// and at most 256 colours it fails only where memory for the compressed frame cannot be had. That
/// is for the machine to say, so success is not promised, but no other fault comes.
#[verifier::external_body]
pub(crate) fn write_frame(w: &mut GifWriter, f: &OutFrame) -> (r: Result<(), WriteFault>)
    requires
        writable(f@),
    ensures
        r is Ok ==> writer_content(*final(w)) == (GifContent {
            frames: writer_content(*old(w)).frames.push(f@),
            ..writer_content(*old(w))
        }),
        r matches Err(fault) ==> fault is NoMemory,
{
    let dispose = match f.dispose {
        Disposal::Any => DisposalMethod::Any,
        Disposal::Keep => DisposalMethod::Keep,
        Disposal::Background => DisposalMethod::Background,
        Disposal::Previous => DisposalMethod::Previous,
    };
    let p = &f.picture;
    let (delay, width, height, transparent) = (f.delay, f.width, f.height, p.transparent);
    let (palette, buffer) = (Some(p.palette.clone()), p.indices.as_slice().into());
    let rest = Frame::default();
    let frame = Frame { delay, dispose, transparent, width, height, palette, buffer, ..rest };
    w.inner.write_frame(&frame).map_err(|e| match e {
        EncodingError::Io(e) if e.kind() == ErrorKind::OutOfMemory => WriteFault::NoMemory,
        e => WriteFault::Other(e.to_string()),
    })
}

/// `gif::Encoder::into_inner` writes the trailer and gives the file; into memory that does not
/// fail. The contract names the bytes and states what `open_gif` and `next_frame` find in them,
/// where anything stands between the header and the trailer: the screen size and, where a decoder
/// reads all the frames, their number, times and sizes.
#[verifier::external_body]
pub(crate) fn finish_gif(w: GifWriter) -> (r: Result<Vec<u8>, String>)
    ensures
        r is Ok,
        r matches Ok(out) ==> out@ == gif_file(writer_content(w)),
        r matches Ok(out) ==> complete(writer_content(w)) ==> has_screen(out@, writer_content(w)),
        r matches Ok(out) ==> complete(writer_content(w)) && all_readable(writer_content(w))
            ==> has_frames(out@, writer_content(w)),
{
    w.inner.into_inner().map_err(|e| e.to_string())
}

/// `out` is what resampling made of the picture. The filter computes with functions whose last
/// digit may differ from machine to machine, so this is a relation, not a function.
pub uninterp spec fn resampled(
    pixels: Seq<u8>,
    width: u32,
    height: u32,
    new_width: u32,
    new_height: u32,
    out: Seq<u8>,
) -> bool;

/// `image::DynamicImage::resize_exact` with the Lanczos3 filter brings an RGBA picture to a new
/// size; the size that the picture has already leaves it as it is. On the way it holds a picture of
/// the old width and the new height, at sixteen bytes a pixel, which must not be larger than memory
/// can be addressed. Far beyond the sizes of a GIF its positions are no longer exact, so larger ones
/// are left out. `image::RgbaImage::from_raw` takes the pixels where there are enough of them.
#[verifier::external_body]
pub(crate) fn resample(
    pixels: Vec<u8>,
    width: u32,
    height: u32,
    new_width: u32,
    new_height: u32,
) -> (r: Option<Vec<u8>>)
    requires
        pixels@.len() == width * height * 4,
        width <= 65535,
        height <= 65535,
        new_width <= 65535,
        new_height <= 65535,
        new_width * new_height * 4 <= isize::MAX,
        width * new_height * 16 <= isize::MAX,
    ensures
        r is Some,
        r matches Some(out) ==> out@.len() == new_width * new_height * 4,
        r matches Some(out) ==> resampled(pixels@, width, height, new_width, new_height, out@),
        r matches Some(out) ==> width == new_width && height == new_height ==> out@ == pixels@,
{
    let img = image::DynamicImage::ImageRgba8(image::RgbaImage::from_raw(width, height, pixels)?);
    let resized = img.resize_exact(new_width, new_height, image::imageops::FilterType::Lanczos3);
    Some(resized.to_rgba8().into_raw())
}

/// A PNG file of an RGBA picture, or why there is none.
pub uninterp spec fn png_file(pixels: Seq<u8>, width: u32, height: u32) -> Result<Seq<u8>, Seq<char>>;

/// The bytes begin with PNG's signature.
pub open spec fn png_signed(data: Seq<u8>) -> bool {
    seq![0x89u8, 0x50u8, 0x4eu8, 0x47u8].is_prefix_of(data)
}

/// `image::DynamicImage::write_to` with the PNG format writes a file, which begins with PNG's
/// signature. Only a picture without pixels has no PNG file. How the file is compressed is the
/// encoder's own matter; the contract names the bytes.
#[verifier::external_body]
pub(crate) fn encode_png(pixels: Vec<u8>, width: u32, height: u32) -> (r: Result<Vec<u8>, String>)
    requires
        pixels@.len() == width * height * 4,
        width <= 65535,
        height <= 65535,
    ensures
        r is Ok <==> png_file(pixels@, width, height) is Ok,
        (width == 0 || height == 0) == (r is Err),
        r matches Ok(out) ==> out@ == png_file(pixels@, width, height)->Ok_0,
        r matches Ok(out) ==> png_signed(out@),
        r matches Err(e) ==> e@ == png_file(pixels@, width, height)->Err_0,
{
    let img = image::RgbaImage::from_raw(width, height, pixels).ok_or_else(String::new)?;
    let mut out = Vec::new();
    image::DynamicImage::ImageRgba8(img)
        .write_to(&mut std::io::Cursor::new(&mut out), image::ImageFormat::Png)
        .map_err(|e| e.to_string())?;
    Ok(out)
}

} // verus!
