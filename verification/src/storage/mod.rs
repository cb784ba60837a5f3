//! Stored GIFs: what an upload must be like, and the renditions made of it.

pub mod canvas;
pub mod codec;
pub mod db;
pub mod files;
pub mod ledger;
pub mod replacing;
pub mod rows;
pub mod scale;
pub mod selections;
pub mod sql;
pub mod tables;

use vstd::prelude::*;

use crate::error::{joined, outcome, AppError, ErrorView};
use crate::number::{decimal, write_u64};
use self::canvas::{backdrop, shown, Canvas};
use self::codec::{
    all_readable, encode_png, finish_gif, gif_file, gif_screen, gif_stream, has_frames, has_screen,
    next_frame, open_gif, png_file, png_signed, quantize, quantized, readable, reader_stream,
    repeat_forever, resample, resampled, screen_size, start_gif, whole_frame, writable, write_frame,
    writer_content, Disposal, FrameView, GifContent, OutFrame, OutFrameView, RawFrame, WriteFault,
};
use self::scale::{
    fit, fitted, law_fitting_never_enlarges, law_scaling_keeps_proportions,
};

verus! {

/// What is known of a GIF once it has been read through.
#[derive(Clone, Copy, PartialEq, Eq, Debug, Structural)]
pub struct GifInfo {
    pub frame_count: i32,
    pub duration_ms: i32,
    pub width: u32,
    pub height: u32,
}

/// The largest width and height accepted.
pub const MAX_DIMENSION: u32 = 4096;

/// The largest number of frames accepted. With [`MAX_TOTAL_PIXELS`] it bounds the cost of decoding
/// and resizing, however small the encoded file is.
pub const MAX_FRAMES: i32 = 1000;

/// The largest number of pixels accepted, over all frames.
pub const MAX_TOTAL_PIXELS: u64 = 250_000_000;

/// The sum of the frames' times, in hundredths of a second.
pub open spec fn total_delay(delays: Seq<u16>) -> nat
    decreases delays.len(),
{
    if delays.len() == 0 {
        0
    } else {
        total_delay(delays.drop_last()) + delays.last() as nat
    }
}

/// The times of the frames.
pub open spec fn delays_of(frames: Seq<FrameView>) -> Seq<u16> {
    frames.map_values(|f: FrameView| f.delay)
}

/// What is said of a GIF that is too wide or too high.
pub open spec fn dimension_message(width: nat, height: nat) -> Seq<char> {
    "GIF dimensions "@ + decimal(width) + "x"@ + decimal(height) + " exceed maximum "@ + decimal(
        MAX_DIMENSION as nat,
    ) + "x"@ + decimal(MAX_DIMENSION as nat)
}

/// What is said of a GIF that has too many pixels.
pub open spec fn pixels_message(total: nat) -> Seq<char> {
    "GIF is too large to process ("@ + decimal(total) + " total pixels exceeds maximum "@ + decimal(
        MAX_TOTAL_PIXELS as nat,
    ) + ")"@
}

/// What becomes of a GIF with this screen and these frames: it is summed up, or refused for the
/// first of the limits that it breaks.
pub open spec fn judged(width: u16, height: u16, delays: Seq<u16>) -> Result<GifInfo, ErrorView> {
    let total = width as nat * height as nat * delays.len();
    if width > MAX_DIMENSION || height > MAX_DIMENSION {
        Err(ErrorView::BadRequest(dimension_message(width as nat, height as nat)))
    } else if delays.len() > MAX_FRAMES {
        Err(
            ErrorView::BadRequest(
                "GIF has too many frames (maximum "@ + decimal(MAX_FRAMES as nat) + ")"@,
            ),
        )
    } else if delays.len() == 0 {
        Err(ErrorView::BadRequest("GIF has no frames"@))
    } else if total > MAX_TOTAL_PIXELS {
        Err(ErrorView::BadRequest(pixels_message(total)))
    } else {
        Ok(
            GifInfo {
                frame_count: delays.len() as i32,
                duration_ms: (total_delay(delays) * 10) as i32,
                width: width as u32,
                height: height as u32,
            },
        )
    }
}

/// What becomes of a file that is offered as a GIF.
pub open spec fn gif_info(data: Seq<u8>) -> Result<GifInfo, ErrorView> {
    match gif_screen(data) {
        Err(fault) => Err(ErrorView::BadRequest("invalid GIF: "@ + fault)),
        Ok((width, height)) => judged(width, height, delays_of(gif_stream(data).0)),
    }
}

/// Refuses a screen that is too wide or too high.
pub fn check_dimensions(width: u16, height: u16) -> (r: Result<(), AppError>)
    ensures
        outcome(r) == (if width > MAX_DIMENSION || height > MAX_DIMENSION {
            Err::<(), ErrorView>(
                ErrorView::BadRequest(dimension_message(width as nat, height as nat)),
            )
        } else {
            Ok::<(), ErrorView>(())
        }),
{
    if width as u32 > MAX_DIMENSION || height as u32 > MAX_DIMENSION {
        let mut m = "GIF dimensions ".to_owned();
        m.append(write_u64(width as u64).as_str());
        m.append("x");
        m.append(write_u64(height as u64).as_str());
        m.append(" exceed maximum ");
        m.append(write_u64(MAX_DIMENSION as u64).as_str());
        m.append("x");
        m.append(write_u64(MAX_DIMENSION as u64).as_str());
        return Err(AppError::BadRequest(m));
    }
    Ok(())
}

/// Sums up a GIF with this screen and frames of these times, or refuses it.
pub fn judge(width: u16, height: u16, delays: &Vec<u16>) -> (r: Result<GifInfo, AppError>)
    ensures
        outcome(r) == judged(width, height, delays@),
{
    check_dimensions(width, height)?;
    if delays.len() > MAX_FRAMES as usize {
        let mut m = "GIF has too many frames (maximum ".to_owned();
        m.append(write_u64(MAX_FRAMES as u64).as_str());
        m.append(")");
        return Err(AppError::BadRequest(m));
    }
    if delays.len() == 0 {
        return Err(AppError::BadRequest("GIF has no frames".to_owned()));
    }
    let mut duration_ms: i32 = 0;
    let mut i: usize = 0;
    while i < delays.len()
        invariant
            i <= delays@.len() <= 1000,
            duration_ms == total_delay(delays@.take(i as int)) * 10,
            duration_ms <= 655350 * i,
        decreases delays@.len() - i,
    {
        proof {
            assert(delays@.take(i + 1).drop_last() == delays@.take(i as int));
        }
        duration_ms = duration_ms + delays[i] as i32 * 10;
        i = i + 1;
    }
    proof {
        assert(delays@.take(delays@.len() as int) == delays@);
        assert(width * height * delays@.len() <= 4096 * 4096 * 1000) by (nonlinear_arith)
            requires
                0 <= width <= 4096,
                0 <= height <= 4096,
                0 <= delays@.len() <= 1000,
        ;
        assert(width * height <= 4096 * 4096) by (nonlinear_arith)
            requires
                0 <= width <= 4096,
                0 <= height <= 4096,
        ;
    }
    let total_pixels: u64 = width as u64 * height as u64 * delays.len() as u64;
    if total_pixels > MAX_TOTAL_PIXELS {
        let mut m = "GIF is too large to process (".to_owned();
        m.append(write_u64(total_pixels).as_str());
        m.append(" total pixels exceeds maximum ");
        m.append(write_u64(MAX_TOTAL_PIXELS).as_str());
        m.append(")");
        return Err(AppError::BadRequest(m));
    }
    Ok(
        GifInfo {
            frame_count: delays.len() as i32,
            duration_ms,
            width: width as u32,
            height: height as u32,
        },
    )
}

/// Reads a GIF through and sums it up. It stops reading at the first frame too many.
pub fn parse_gif_info(data: &[u8]) -> (r: Result<GifInfo, AppError>)
    ensures
        outcome(r) == gif_info(data@),
{
    let mut reader = match open_gif(data) {
        Ok(reader) => reader,
        Err(e) => return Err(AppError::BadRequest(joined("invalid GIF: ", e.as_str()))),
    };
    let (width, height) = screen_size(&reader);
    check_dimensions(width, height)?;
    let ghost frames = gif_stream(data@).0;
    let mut delays: Vec<u16> = Vec::new();
    let mut more = true;
    while more && delays.len() <= MAX_FRAMES as usize
        invariant
            frames == gif_stream(data@).0,
            delays@.len() <= 1001,
            delays@.len() <= frames.len(),
            delays@ == delays_of(frames).take(delays@.len() as int),
            more ==> reader_stream(reader).0 == frames.skip(delays@.len() as int),
            !more ==> delays@.len() == frames.len(),
        decreases
            1001 - delays@.len(),
            (if more {
                1int
            } else {
                0int
            }),
    {
        match next_frame(&mut reader) {
            Ok(Some(frame)) => {
                proof {
                    let n = delays@.len() as int;
                    assert(frame@ == frames[n]);
                    assert(frames.skip(n).drop_first() == frames.skip(n + 1));
                    assert(delays_of(frames).take(n + 1) == delays_of(frames).take(n).push(
                        frame.delay,
                    ));
                }
                delays.push(frame.delay);
            },
            _ => {
                more = false;
            },
        }
    }
    proof {
        if !more {
            assert(delays_of(frames).take(frames.len() as int) == delays_of(frames));
        }
    }
    judge(width, height, &delays)
}

/// `out` shows the picture at the given size: resampled, and reduced to a palette.
pub open spec fn pictured(
    picture: Seq<u8>,
    width: u32,
    height: u32,
    size: (u32, u32),
    delay: u16,
    out: OutFrameView,
) -> bool {
    exists|pixels: Seq<u8>|
        {
            &&& #[trigger] resampled(picture, width, height, size.0, size.1, pixels)
            &&& pixels.len() == size.0 * size.1 * 4
            &&& (width == size.0 && height == size.1 ==> pixels == picture)
            &&& out == OutFrameView {
                delay,
                dispose: Disposal::Keep,
                width: size.0 as u16,
                height: size.1 as u16,
                picture: quantized(size.0 as u16, size.1 as u16, pixels, 10),
            }
        }
}

/// The frame that stands for frame `i` in the resized animation: it shows the screen as it is
/// while frame `i` is up, for as long.
pub open spec fn rendered(
    frames: Seq<FrameView>,
    screen: (u16, u16),
    size: (u32, u32),
    i: int,
    out: OutFrameView,
) -> bool {
    pictured(
        shown(frames, screen.0 as int, screen.1 as int, i as nat),
        screen.0 as u32,
        screen.1 as u32,
        size,
        frames[i].delay,
        out,
    )
}

/// A GIF of this size that holds these frames and repeats without end.
pub open spec fn animation(size: (u32, u32), frames: Seq<OutFrameView>) -> GifContent {
    GifContent {
        width: size.0 as u16,
        height: size.1 as u16,
        palette: Seq::empty(),
        endless: true,
        frames,
    }
}

/// The size that a GIF with this screen is brought to.
pub open spec fn target_size(screen: (u16, u16), max_width: u32) -> (u32, u32) {
    let size = fitted(screen.0 as nat, screen.1 as nat, max_width as nat);
    (size.0 as u32, size.1 as u32)
}

/// `out` is `data` resized: one frame for each that can be read from `data`, in order.
pub open spec fn is_resized(data: Seq<u8>, max_width: u32, out: Seq<u8>) -> bool {
    gif_screen(data) matches Ok(screen) && exists|frames: Seq<OutFrameView>|
        #[trigger] resized_to(gif_stream(data).0, screen, target_size(screen, max_width), frames, out)
}

/// `out` is the file of an animation whose frames stand for `source`, and is read back as such.
pub open spec fn resized_to(
    source: Seq<FrameView>,
    screen: (u16, u16),
    size: (u32, u32),
    frames: Seq<OutFrameView>,
    out: Seq<u8>,
) -> bool {
    &&& frames.len() == source.len()
    &&& forall|i: int|
        0 <= i < source.len() ==> rendered(source, screen, size, i, #[trigger] frames[i])
    &&& forall|i: int| 0 <= i < source.len() ==> writable(#[trigger] frames[i])
    &&& out == gif_file(animation(size, frames))
    &&& has_screen(out, animation(size, frames))
    &&& (all_readable(animation(size, frames)) ==> has_frames(out, animation(size, frames)))
}

/// The bytes of a screen can be counted in 32 bits, and it can be resampled in memory.
pub open spec fn resizable(data: Seq<u8>) -> bool {
    gif_screen(data) matches Ok(screen) ==> screen.0 * screen.1 * 4 <= u32::MAX && screen.0
        * screen.1 * 16 <= isize::MAX
}

/// One frame of the resized animation, from the screen as it is shown.
fn render(canvas: &Canvas, delay: u16, width: u32, height: u32) -> (r: Result<OutFrame, AppError>)
    requires
        canvas.wf(),
        canvas.width <= 65535,
        canvas.height <= 65535,
        canvas.width * canvas.height * 16 <= isize::MAX,
        width <= canvas.width,
        height <= canvas.height,
    ensures
        r matches Ok(f) && writable(f@) && pictured(
            canvas.bytes@,
            canvas.width,
            canvas.height,
            (width, height),
            delay,
            f@,
        ),
{
    proof {
        assert(width * height * 4 <= canvas.width * canvas.height * 4) by (nonlinear_arith)
            requires
                0 <= width <= canvas.width,
                0 <= height <= canvas.height,
        ;
        assert(canvas.width * height * 16 <= canvas.width * canvas.height * 16) by (nonlinear_arith)
            requires
                0 <= canvas.width,
                0 <= height <= canvas.height,
        ;
    }
    let copy = canvas.bytes.clone();
    assert(copy@ == canvas.bytes@);
    let raw = match resample(copy, canvas.width, canvas.height, width, height) {
        Some(raw) => raw,
        None => return Err(AppError::Internal("canvas buffer mismatch".to_owned())),
    };
    let picture = quantize(width as u16, height as u16, raw, 10);
    Ok(
        OutFrame {
            delay,
            dispose: Disposal::Keep,
            width: width as u16,
            height: height as u16,
            picture,
        },
    )
}

/// What is answered where the encoder gets no memory.
pub open spec fn no_memory() -> ErrorView {
    ErrorView::Internal("gif encode: out of memory"@)
}

/// Writes the frames of an endless animation of this size.
fn encode(width: u16, height: u16, frames: &Vec<OutFrame>) -> (r: Result<Vec<u8>, AppError>)
    requires
        forall|i: int| 0 <= i < frames@.len() ==> writable((#[trigger] frames@[i])@),
    ensures
        match r {
            Ok(out) => {
                let content = animation(
                    (width as u32, height as u32),
                    frames@.map_values(|f: OutFrame| f@),
                );
                &&& out@ == gif_file(content)
                &&& has_screen(out@, content)
                &&& all_readable(content) ==> has_frames(out@, content)
            },
            Err(e) => frames@.len() > 0 && e@ == no_memory(),
        },
{
    let mut w = match start_gif(width, height, &[]) {
        Ok(w) => w,
        Err(e) => return Err(AppError::Internal(joined("gif encode: ", e.as_str()))),
    };
    match repeat_forever(&mut w) {
        Ok(_) => {},
        Err(e) => return Err(AppError::Internal(joined("gif encode: ", e.as_str()))),
    }
    let ghost all = frames@.map_values(|f: OutFrame| f@);
    let mut i: usize = 0;
    assert(all.take(0) == Seq::<OutFrameView>::empty());
    while i < frames.len()
        invariant
            i <= frames@.len(),
            all == frames@.map_values(|f: OutFrame| f@),
            forall|i: int| 0 <= i < frames@.len() ==> writable((#[trigger] frames@[i])@),
            writer_content(w) == animation((width as u32, height as u32), all.take(i as int)),
        decreases frames@.len() - i,
    {
        match write_frame(&mut w, &frames[i]) {
            Ok(_) => {},
            Err(WriteFault::NoMemory) => return Err(
                AppError::Internal("gif encode: out of memory".to_owned()),
            ),
            Err(WriteFault::Other(e)) => return Err(
                AppError::Internal(joined("gif encode: ", e.as_str())),
            ),
        }
        proof {
            assert(all.take(i + 1) == all.take(i as int).push(frames@[i as int]@));
        }
        i = i + 1;
    }
    assert(all.take(all.len() as int) == all);
    match finish_gif(w) {
        Ok(out) => Ok(out),
        Err(e) => Err(AppError::Internal(joined("gif encode: ", e.as_str()))),
    }
}

/// Resizes a GIF to at most `max_width` columns, in proportion. Partial frames are painted on the
/// screen at their place, as their disposal asks, and every frame of the result is the whole
/// screen. Reading stops at the first frame that cannot be read.
///
/// Every GIF that opens can be resized; one with frames fails only where the encoder gets no memory.
pub fn resize_gif(data: &[u8], max_width: u32) -> (r: Result<Vec<u8>, AppError>)
    requires
        resizable(data@),
    ensures
        match gif_screen(data@) {
            Err(fault) => r matches Err(e) && e@ == ErrorView::Internal("gif decode: "@ + fault),
            Ok(screen) => match r {
                Ok(out) => is_resized(data@, max_width, out@),
                Err(e) => gif_stream(data@).0.len() > 0 && e@ == no_memory(),
            },
        },
{
    let mut reader = match open_gif(data) {
        Ok(reader) => reader,
        Err(e) => return Err(AppError::Internal(joined("gif decode: ", e.as_str()))),
    };
    let (src_width, src_height) = screen_size(&reader);
    let ghost screen = gif_screen(data@)->Ok_0;
    let (new_width, new_height) = fit(src_width as u32, src_height as u32, max_width);
    let ghost size = (new_width, new_height);
    let ghost source = gif_stream(data@).0;
    let mut canvas = Canvas::new(src_width as u32, src_height as u32);
    let mut frames: Vec<OutFrame> = Vec::new();
    let mut more = true;
    while more
        invariant
            source == gif_stream(data@).0,
            screen == (src_width, src_height),
            size == (new_width, new_height),
            new_width <= src_width,
            new_height <= src_height,
            src_width * src_height * 16 <= isize::MAX,
            canvas.wf(),
            canvas.width == src_width,
            canvas.height == src_height,
            frames@.len() <= source.len(),
            canvas.bytes@ == backdrop(
                source,
                src_width as int,
                src_height as int,
                frames@.len(),
            ),
            more ==> reader_stream(reader).0 == source.skip(frames@.len() as int),
            !more ==> frames@.len() == source.len(),
            forall|i: int|
                0 <= i < frames@.len() ==> rendered(
                    source,
                    screen,
                    size,
                    i,
                    (#[trigger] frames@[i])@,
                ),
            forall|i: int| 0 <= i < frames@.len() ==> writable((#[trigger] frames@[i])@),
        decreases
            source.len() - frames@.len(),
            (if more {
                1int
            } else {
                0int
            }),
    {
        match next_frame(&mut reader) {
            Ok(Some(frame)) => {
                let ghost n = frames@.len() as int;
                proof {
                    assert(frame@ == source[n]);
                    assert(source.skip(n).drop_first() == source.skip(n + 1));
                }
                let ghost before = canvas.bytes@;
                let saved: Option<Vec<u8>> = if frame.dispose == Disposal::Previous {
                    Some(canvas.bytes.clone())
                } else {
                    None
                };
                canvas.paint(&frame);
                let out = render(&canvas, frame.delay, new_width, new_height)?;
                proof {
                    assert(canvas.bytes@ == shown(
                        source,
                        src_width as int,
                        src_height as int,
                        n as nat,
                    ));
                    assert(rendered(source, screen, size, n, out@));
                }
                frames.push(out);
                match frame.dispose {
                    Disposal::Background => {
                        canvas.clear(&frame);
                    },
                    Disposal::Previous => {
                        if let Some(bytes) = saved {
                            assert(bytes@ == before);
                            canvas.bytes = bytes;
                        }
                    },
                    _ => {},
                }
            },
            _ => {
                more = false;
            },
        }
    }
    let r = encode(new_width as u16, new_height as u16, &frames);
    proof {
        let all = frames@.map_values(|f: OutFrame| f@);
        if r is Ok {
            assert(resized_to(source, screen, target_size(screen, max_width), all, r->Ok_0@));
        }
    }
    r
}

/// The first frame at its new size, as a PNG file.
pub open spec fn is_thumbnail(frame: FrameView, size: (u32, u32), out: Seq<u8>) -> bool {
    exists|pixels: Seq<u8>|
        {
            &&& first_frame_at(frame, size, pixels)
            &&& #[trigger] png_file(pixels, size.0, size.1) matches Ok(file)
            &&& out == file
        }
}

/// `pixels` is the frame at the given size.
pub open spec fn first_frame_at(frame: FrameView, size: (u32, u32), pixels: Seq<u8>) -> bool {
    &&& resampled(
        frame.pixels,
        frame.width as u32,
        frame.height as u32,
        size.0,
        size.1,
        pixels,
    )
    &&& pixels.len() == size.0 * size.1 * 4
    &&& (frame.width == size.0 && frame.height == size.1 ==> pixels == frame.pixels)
}

/// Bringing the frame to this size takes a picture, on the way or in the end, that is larger than
/// memory can be addressed.
pub open spec fn too_large(frame: FrameView, size: (u32, u32)) -> bool {
    frame.width * size.1 * 16 > isize::MAX || size.0 * size.1 * 4 > isize::MAX
}

/// What is answered where a picture is too large for the machine.
pub open spec fn machine_too_small() -> ErrorView {
    ErrorView::Internal("picture too large for this machine"@)
}

/// What becomes of a frame that is to be a thumbnail of this size: there is none where the machine is
/// too small for it, or where it would have no pixels.
pub open spec fn thumbnail_made(
    frame: FrameView,
    size: (u32, u32),
    r: Result<(Vec<u8>, u32, u32), AppError>,
) -> bool {
    if too_large(frame, size) {
        r matches Err(e) && e@ == machine_too_small()
    } else if size.0 == 0 || size.1 == 0 {
        r matches Err(e) && no_thumbnail(frame, size, e@)
    } else {
        &&& r matches Ok((out, width, height))
        &&& (width, height) == size
        &&& is_thumbnail(frame, size, out@)
        &&& png_signed(out@)
    }
}

/// The error of a thumbnail without pixels: it has no PNG file.
pub open spec fn no_thumbnail(frame: FrameView, size: (u32, u32), e: ErrorView) -> bool {
    exists|pixels: Seq<u8>|
        first_frame_at(frame, size, pixels) && (#[trigger] png_file(pixels, size.0, size.1) matches Err(
            m,
        ) && e == ErrorView::Internal("png encode: "@ + m))
}

/// Makes a PNG thumbnail of a frame, at the size that its screen is brought to.
fn thumbnail_of(frame: RawFrame, screen: (u16, u16), max_width: u32) -> (r: Result<
    (Vec<u8>, u32, u32),
    AppError,
>)
    requires
        whole_frame(frame@),
    ensures
        thumbnail_made(frame@, target_size(screen, max_width), r),
{
    let (new_width, new_height) = fit(screen.0 as u32, screen.1 as u32, max_width);
    let width: u32 = frame.width as u32;
    let height: u32 = frame.height as u32;
    let ghost size = (new_width, new_height);
    proof {
        assert(width * new_height <= 65535 * 65535 && new_width * new_height <= 65535 * 65535)
            by (nonlinear_arith)
            requires
                0 <= width <= 65535,
                0 <= new_width <= 65535,
                0 <= new_height <= 65535,
        ;
    }
    if width as u64 * new_height as u64 * 16 > isize::MAX as u64 || new_width as u64
        * new_height as u64 * 4 > isize::MAX as u64 {
        return Err(AppError::Internal("picture too large for this machine".to_owned()));
    }
    let ghost view = frame@;
    let resized = match resample(frame.buffer, width, height, new_width, new_height) {
        Some(resized) => resized,
        None => return Err(AppError::Internal("frame buffer mismatch".to_owned())),
    };
    assert(first_frame_at(view, size, resized@));
    match encode_png(resized, new_width, new_height) {
        Ok(png) => Ok((png, new_width, new_height)),
        Err(e) => Err(AppError::Internal(joined("png encode: ", e.as_str()))),
    }
}

/// Extracts the first frame as a PNG thumbnail of at most `max_width` columns; gives its size too.
pub fn extract_thumbnail(data: &[u8], max_width: u32) -> (r: Result<(Vec<u8>, u32, u32), AppError>)
    ensures
        match gif_screen(data@) {
            Err(fault) => r matches Err(e) && e@ == ErrorView::Internal("gif decode: "@ + fault),
            Ok(screen) => {
                let (frames, fault) = gif_stream(data@);
                if frames.len() > 0 {
                    thumbnail_made(frames[0], target_size(screen, max_width), r)
                } else {
                    match fault {
                        Some(m) => r matches Err(e) && e@ == ErrorView::Internal(
                            "gif decode: "@ + m,
                        ),
                        None => r matches Err(e) && e@ == ErrorView::BadRequest(
                            "GIF has no frames"@,
                        ),
                    }
                }
            },
        },
        r matches Ok((out, width, height)) ==> {
            let screen = gif_screen(data@)->Ok_0;
            let frame = gif_stream(data@).0[0];
            &&& (screen.0 <= max_width ==> width == screen.0 && height == screen.1)
            &&& (screen.0 > max_width ==> width == max_width && height <= screen.1)
            &&& exists|pixels: Seq<u8>|
                #[trigger] resampled(
                    frame.pixels,
                    frame.width as u32,
                    frame.height as u32,
                    width,
                    height,
                    pixels,
                ) && png_file(pixels, width, height) == Ok::<Seq<u8>, Seq<char>>(out@)
            &&& (screen.0 <= max_width && frame.width == screen.0 && frame.height == screen.1
                ==> png_file(frame.pixels, screen.0 as u32, screen.1 as u32) == Ok::<
                Seq<u8>,
                Seq<char>,
            >(out@))
        },
        ({
            let screen = gif_screen(data@)->Ok_0;
            let frame = gif_stream(data@).0[0];
            let (width, height) = target_size(screen, max_width);
            &&& gif_screen(data@) is Ok
            &&& gif_stream(data@).0.len() > 0
            &&& 0 < width
            &&& 0 < height
            &&& frame.width * height * 16 <= isize::MAX
            &&& width * height * 4 <= isize::MAX
        }) ==> r is Ok,
{
    let mut reader = match open_gif(data) {
        Ok(reader) => reader,
        Err(e) => return Err(AppError::Internal(joined("gif decode: ", e.as_str()))),
    };
    let screen = screen_size(&reader);
    proof {
        law_target_keeps_the_proportions(screen, max_width);
    }
    match next_frame(&mut reader) {
        Ok(Some(frame)) => {
            let ghost view = frame@;
            let r = thumbnail_of(frame, screen, max_width);
            proof {
                law_thumbnail_shows_the_frame(view, target_size(screen, max_width), r);
            }
            r
        },
        Ok(None) => Err(AppError::BadRequest("GIF has no frames".to_owned())),
        Err(e) => Err(AppError::Internal(joined("gif decode: ", e.as_str()))),
    }
}

/// The widest preview and thumbnail.
pub const PREVIEW_WIDTH: u32 = 220;

/// What an accepted upload is turned into.
pub struct Renditions {
    pub info: GifInfo,
    /// The preview, a GIF.
    pub preview: Vec<u8>,
    /// The thumbnail, a PNG.
    pub thumbnail: Vec<u8>,
    pub thumbnail_width: u32,
    pub thumbnail_height: u32,
}

impl Renditions {
    /// All sizes are within the largest that is accepted.
    pub open spec fn wf(&self) -> bool {
        &&& self.info.width <= MAX_DIMENSION
        &&& self.info.height <= MAX_DIMENSION
        &&& self.thumbnail_width <= MAX_DIMENSION
        &&& self.thumbnail_height <= MAX_DIMENSION
    }
}

/// The screen size of an accepted GIF is the one in its header.
proof fn lemma_info_screen(data: Seq<u8>)
    requires
        gif_info(data) is Ok,
    ensures
        gif_screen(data) matches Ok(screen) && screen.0 == gif_info(data)->Ok_0.width && screen.1
            == gif_info(data)->Ok_0.height && screen.0 <= MAX_DIMENSION && screen.1 <= MAX_DIMENSION,
        gif_stream(data).0.len() > 0,
        resizable(data),
{
    let screen = gif_screen(data)->Ok_0;
    assert(screen.0 * screen.1 <= 4096 * 4096) by (nonlinear_arith)
        requires
            0 <= screen.0 <= 4096,
            0 <= screen.1 <= 4096,
    ;
}

/// The renditions of an accepted upload: its summary, its preview and its thumbnail.
pub open spec fn renditions_made(data: Seq<u8>, info: GifInfo, made: Renditions) -> bool {
    let size = target_size(gif_screen(data)->Ok_0, PREVIEW_WIDTH);
    &&& made.info == info
    &&& is_resized(data, PREVIEW_WIDTH, made.preview@)
    &&& is_thumbnail(gif_stream(data).0[0], size, made.thumbnail@)
    &&& png_signed(made.thumbnail@)
    &&& (made.thumbnail_width, made.thumbnail_height) == size
    &&& made.wf()
}

/// Checks an upload and makes its thumbnail and its preview. The limits on the upload are what allows
/// it to be resized. An upload that is accepted has no renditions where its thumbnail is too large
/// for the machine, or would have no pixels; beyond that, only the encoder of the preview may get no
/// memory.
pub fn process_gif(data: &[u8]) -> (r: Result<Renditions, AppError>)
    ensures
        match gif_info(data@) {
            Err(refused) => r matches Err(e) && e@ == refused,
            Ok(info) => {
                let frame = gif_stream(data@).0[0];
                let size = target_size(gif_screen(data@)->Ok_0, PREVIEW_WIDTH);
                if too_large(frame, size) {
                    r matches Err(e) && e@ == machine_too_small()
                } else if size.0 == 0 || size.1 == 0 {
                    r matches Err(e) && no_thumbnail(frame, size, e@)
                } else {
                    match r {
                        Ok(made) => renditions_made(data@, info, made),
                        Err(e) => e@ == no_memory(),
                    }
                }
            },
        },
        r matches Ok(made) ==> made.wf(),
        r matches Ok(made) ==> {
            let frame = gif_stream(data@).0[0];
            let (width, height) = (made.thumbnail_width, made.thumbnail_height);
            &&& (made.info.width <= 220 ==> width == made.info.width && height == made.info.height)
            &&& (made.info.width > 220 ==> width == 220 && height <= made.info.height)
            &&& exists|pixels: Seq<u8>|
                #[trigger] resampled(
                    frame.pixels,
                    frame.width as u32,
                    frame.height as u32,
                    width,
                    height,
                    pixels,
                ) && png_file(pixels, width, height) == Ok::<Seq<u8>, Seq<char>>(
                    made.thumbnail@,
                )
            &&& (frame.width == width && frame.height == height ==> png_file(
                frame.pixels,
                width,
                height,
            ) == Ok::<Seq<u8>, Seq<char>>(made.thumbnail@))
        },
{
    let info = parse_gif_info(data)?;
    proof {
        lemma_info_screen(data@);
        law_fitting_never_enlarges(info.width as nat, info.height as nat, PREVIEW_WIDTH as nat);
    }
    let (thumbnail, thumbnail_width, thumbnail_height) = extract_thumbnail(data, PREVIEW_WIDTH)?;
    let preview = resize_gif(data, PREVIEW_WIDTH)?;
    Ok(Renditions { info, preview, thumbnail, thumbnail_width, thumbnail_height })
}

/// An accepted GIF is within every limit.
pub proof fn law_accepted_within_limits(data: Seq<u8>)
    requires
        gif_info(data) is Ok,
    ensures
        ({
            let info = gif_info(data)->Ok_0;
            &&& info.width <= MAX_DIMENSION
            &&& info.height <= MAX_DIMENSION
            &&& 0 < info.frame_count <= MAX_FRAMES
            &&& info.frame_count == gif_stream(data).0.len()
            &&& info.width * info.height * info.frame_count <= MAX_TOTAL_PIXELS
            &&& info.duration_ms == 10 * total_delay(delays_of(gif_stream(data).0))
        }),
{
    let delays = delays_of(gif_stream(data).0);
    lemma_total_delay(delays);
}

proof fn lemma_total_delay(delays: Seq<u16>)
    ensures
        total_delay(delays) <= 65535 * delays.len(),
    decreases delays.len(),
{
    if delays.len() > 0 {
        lemma_total_delay(delays.drop_last());
    }
}

/// Resizing keeps the animation: the result is a GIF of the new size that is accepted in turn,
/// with as many frames and the same duration. It is stated of new sizes with pixels, not more of
/// them than a decoder reads by default.
pub proof fn law_resizing_keeps_animation(data: Seq<u8>, max_width: u32, out: Seq<u8>)
    requires
        gif_info(data) is Ok,
        is_resized(data, max_width, out),
        ({
            let size = target_size(gif_screen(data)->Ok_0, max_width);
            0 < size.0 * size.1 <= 12_500_000
        }),
    ensures
        ({
            let size = target_size(gif_screen(data)->Ok_0, max_width);
            let info = gif_info(data)->Ok_0;
            gif_info(out) == Ok::<GifInfo, ErrorView>(
                GifInfo { width: size.0, height: size.1, ..info },
            )
        }),
{
    lemma_info_screen(data);
    let screen = gif_screen(data)->Ok_0;
    let size = target_size(screen, max_width);
    let source = gif_stream(data).0;
    law_fitting_never_enlarges(screen.0 as nat, screen.1 as nat, max_width as nat);
    let frames = choose|frames: Seq<OutFrameView>|
        #[trigger] resized_to(source, screen, size, frames, out);
    let content = animation(size, frames);
    assert forall|i: int| 0 <= i < frames.len() implies readable(#[trigger] frames[i]) by {
        assert(rendered(source, screen, size, i, frames[i]));
        assert(writable(frames[i]));
    }
    assert(all_readable(content));
    assert(delays_of(gif_stream(out).0) =~= delays_of(source)) by {
        assert forall|i: int| 0 <= i < source.len() implies (#[trigger] gif_stream(out).0[i]).delay
            == source[i].delay by {
            assert(rendered(source, screen, size, i, frames[i]));
        }
    }
    let n = source.len() as int;
    assert(size.0 * size.1 * n <= screen.0 * screen.1 * n) by (nonlinear_arith)
        requires
            0 <= size.0 <= screen.0,
            0 <= size.1 <= screen.1,
            0 <= n,
    ;
}

/// The size that a GIF is brought to: its own where it is narrow enough, else the greatest width,
/// and a height in proportion, to less than one row.
pub proof fn law_target_keeps_the_proportions(screen: (u16, u16), max_width: u32)
    ensures
        screen.0 <= max_width ==> target_size(screen, max_width) == (
            screen.0 as u32,
            screen.1 as u32,
        ),
        screen.0 > max_width ==> {
            let (width, height) = target_size(screen, max_width);
            &&& width == max_width
            &&& height <= screen.1
            &&& 128 * (screen.0 * height) <= 128 * (screen.1 * max_width) + screen.0
            &&& 128 * (screen.1 * max_width) < 128 * (screen.0 * (height + 1)) + screen.0
        },
{
    law_fitting_never_enlarges(screen.0 as nat, screen.1 as nat, max_width as nat);
    if screen.0 > max_width {
        law_scaling_keeps_proportions(screen.0 as nat, screen.1 as nat, max_width as nat);
    }
}

/// A file is accepted exactly where it opens as a GIF within every limit; what is said of it is then
/// its size, the number of its frames and their time.
pub proof fn law_accepted_exactly_within_limits(data: Seq<u8>)
    ensures
        gif_info(data) is Ok <==> (gif_screen(data) matches Ok(screen) && {
            let n = gif_stream(data).0.len();
            &&& screen.0 <= 4096
            &&& screen.1 <= 4096
            &&& 1 <= n <= 1000
            &&& screen.0 as nat * screen.1 as nat * n <= 250_000_000
        }),
        gif_info(data) matches Ok(info) ==> {
            let screen = gif_screen(data)->Ok_0;
            let frames = gif_stream(data).0;
            &&& info.width == screen.0
            &&& info.height == screen.1
            &&& info.frame_count == frames.len()
            &&& info.duration_ms == 10 * total_delay(delays_of(frames))
        },
{
    if gif_info(data) is Ok {
        law_accepted_within_limits(data);
        lemma_info_screen(data);
    }
}

/// Every frame adds its time, in hundredths of a second.
pub proof fn law_every_frame_takes_its_time(frames: Seq<FrameView>, f: FrameView)
    ensures
        total_delay(delays_of(Seq::empty())) == 0,
        total_delay(delays_of(frames.push(f))) == total_delay(delays_of(frames)) + f.delay,
{
    assert(delays_of(frames.push(f)).drop_last() =~= delays_of(frames));
}

/// A thumbnail that can be held in memory and has pixels is made, of the frame that it is asked of:
/// the frame's pixels, read in rows as long as the frame is wide, resampled to the thumbnail's size.
/// A frame of that size is not resampled.
pub proof fn law_thumbnail_shows_the_frame(
    frame: FrameView,
    size: (u32, u32),
    r: Result<(Vec<u8>, u32, u32), AppError>,
)
    requires
        thumbnail_made(frame, size, r),
    ensures
        r is Ok <==> {
            &&& 0 < size.0
            &&& 0 < size.1
            &&& frame.width * size.1 * 16 <= isize::MAX
            &&& size.0 * size.1 * 4 <= isize::MAX
        },
        r matches Ok((out, width, height)) ==> {
            &&& (width, height) == size
            &&& exists|pixels: Seq<u8>|
                #[trigger] resampled(
                    frame.pixels,
                    frame.width as u32,
                    frame.height as u32,
                    width,
                    height,
                    pixels,
                ) && png_file(pixels, width, height) == Ok::<Seq<u8>, Seq<char>>(out@)
            &&& (frame.width == width && frame.height == height ==> png_file(
                frame.pixels,
                width,
                height,
            ) == Ok::<Seq<u8>, Seq<char>>(out@))
        },
{
}

/// Every frame of a resized GIF shows the whole screen as it is while the frame of the source is up,
/// for as long: the screen's pixels, read in rows as long as the screen is wide, resampled to the new
/// size and reduced to a palette. A screen of that size is not resampled.
pub proof fn law_resized_frames_show_the_screen(data: Seq<u8>, max_width: u32, out: Seq<u8>)
    requires
        is_resized(data, max_width, out),
    ensures
        gif_screen(data) is Ok,
        ({
            let screen = gif_screen(data)->Ok_0;
            let source = gif_stream(data).0;
            let (width, height) = target_size(screen, max_width);
            exists|frames: Seq<OutFrameView>|
                {
                    &&& out == #[trigger] gif_file(
                        GifContent {
                            width: width as u16,
                            height: height as u16,
                            palette: Seq::empty(),
                            endless: true,
                            frames,
                        },
                    )
                    &&& frames.len() == source.len()
                    &&& forall|i: int|
                        0 <= i < source.len() ==> {
                            let picture = shown(source, screen.0 as int, screen.1 as int, i as nat);
                            let frame = #[trigger] frames[i];
                            &&& frame.delay == source[i].delay
                            &&& frame.dispose == Disposal::Keep
                            &&& frame.width == width
                            &&& frame.height == height
                            &&& exists|pixels: Seq<u8>|
                                {
                                    &&& #[trigger] resampled(
                                        picture,
                                        screen.0 as u32,
                                        screen.1 as u32,
                                        width,
                                        height,
                                        pixels,
                                    )
                                    &&& (screen.0 == width && screen.1 == height ==> pixels == picture)
                                    &&& frame.picture == quantized(
                                        width as u16,
                                        height as u16,
                                        pixels,
                                        10,
                                    )
                                }
                        }
                }
        }),
{
    let screen = gif_screen(data)->Ok_0;
    let source = gif_stream(data).0;
    let size = target_size(screen, max_width);
    law_fitting_never_enlarges(screen.0 as nat, screen.1 as nat, max_width as nat);
    let frames = choose|frames: Seq<OutFrameView>|
        #[trigger] resized_to(source, screen, size, frames, out);
    assert(animation(size, frames) == (GifContent {
        width: size.0 as u16,
        height: size.1 as u16,
        palette: Seq::empty(),
        endless: true,
        frames,
    }));
    assert forall|i: int| 0 <= i < source.len() implies rendered(
        source,
        screen,
        size,
        i,
        #[trigger] frames[i],
    ) by {}
}

/// What an accepted upload is turned into: its summary, its preview, which is the upload resized, and
/// its thumbnail, which shows the first frame. Neither is wider than 220 columns.
pub proof fn law_renditions_show_the_upload(data: Seq<u8>, info: GifInfo, made: Renditions)
    requires
        gif_info(data) == Ok::<GifInfo, ErrorView>(info),
        renditions_made(data, info, made),
    ensures
        ({
            let screen = gif_screen(data)->Ok_0;
            let frame = gif_stream(data).0[0];
            let (width, height) = (made.thumbnail_width, made.thumbnail_height);
            &&& made.info == info
            &&& is_resized(data, 220, made.preview@)
            &&& (width, height) == target_size(screen, 220)
            &&& exists|pixels: Seq<u8>|
                #[trigger] resampled(
                    frame.pixels,
                    frame.width as u32,
                    frame.height as u32,
                    width,
                    height,
                    pixels,
                ) && png_file(pixels, width, height) == Ok::<Seq<u8>, Seq<char>>(
                    made.thumbnail@,
                )
            &&& (frame.width == width && frame.height == height ==> png_file(
                frame.pixels,
                width,
                height,
            ) == Ok::<Seq<u8>, Seq<char>>(made.thumbnail@))
        }),
{
}

} // verus!
