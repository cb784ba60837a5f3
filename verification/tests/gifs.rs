use gif_server::error::AppError;
use gif_server::storage::canvas::Canvas;
use gif_server::storage::codec::{Disposal, RawFrame};
use gif_server::storage::scale::{fit, scale_height};
use gif_server::storage::{
    check_dimensions, extract_thumbnail, judge, parse_gif_info, process_gif, resize_gif,
    MAX_FRAMES,
};

/// Builds a minimal valid animated GIF in memory.
fn make_gif(width: u16, height: u16, frames: usize) -> Vec<u8> {
    let mut out = Vec::new();
    let pixels = vec![128u8; width as usize * height as usize * 4];
    let mut enc = gif::Encoder::new(&mut out, width, height, &[]).unwrap();
    enc.set_repeat(gif::Repeat::Infinite).unwrap();
    for _ in 0..frames {
        let mut frame = gif::Frame::from_rgba_speed(width, height, &mut pixels.clone(), 1);
        frame.delay = 10;
        enc.write_frame(&frame).unwrap();
    }
    drop(enc);
    out
}

fn bad_request<T>(r: Result<T, AppError>) -> String {
    match r {
        Err(AppError::BadRequest(m)) => m,
        _ => panic!("expected a bad request"),
    }
}

fn internal<T>(r: Result<T, AppError>) -> String {
    match r {
        Err(AppError::Internal(m)) => m,
        _ => panic!("expected an internal error"),
    }
}

#[test]
fn parse_gif_info_extracts_metadata() {
    let data = make_gif(100, 80, 3);
    let info = parse_gif_info(&data).unwrap();
    assert_eq!(info.width, 100);
    assert_eq!(info.height, 80);
    assert_eq!(info.frame_count, 3);
    assert_eq!(info.duration_ms, 300); // 3 frames × 100ms
}

#[test]
fn parse_gif_info_rejects_oversized() {
    // A GIF header that claims a huge size, without any picture.
    let data = vec![
        0x47, 0x49, 0x46, 0x38, 0x39, 0x61, // GIF89a
        0xFF, 0xFF, // width: 65535
        0xFF, 0xFF, // height: 65535
        0x00,       // packed field (no global color table)
        0x00,       // background color index
        0x00,       // pixel aspect ratio
        0x3B,       // trailer
    ];
    let result = parse_gif_info(&data);
    assert!(matches!(result, Err(AppError::BadRequest(_))));
}

#[test]
fn oversized_screens_are_told() {
    let mut data = Vec::new();
    let mut enc = gif::Encoder::new(&mut data, 65535, 4097, &[]).unwrap();
    enc.write_frame(&gif::Frame::from_rgba_speed(1, 1, &mut [1, 2, 3, 255], 1)).unwrap();
    drop(enc);
    assert_eq!(
        bad_request(parse_gif_info(&data)),
        "GIF dimensions 65535x4097 exceed maximum 4096x4096"
    );
}

#[test]
fn parse_gif_info_rejects_too_many_frames() {
    // Tiny frames, so that the bomb is cheap to build but still over the cap.
    let data = make_gif(2, 2, (MAX_FRAMES as usize) + 1);
    let result = parse_gif_info(&data);
    assert!(matches!(result, Err(AppError::BadRequest(_))));
}

#[test]
fn parse_gif_info_accepts_frame_count_at_cap() {
    let data = make_gif(2, 2, MAX_FRAMES as usize);
    assert!(parse_gif_info(&data).is_ok());
}

#[test]
fn parse_gif_info_rejects_invalid_data() {
    let result = parse_gif_info(b"not a gif");
    assert!(matches!(result, Err(AppError::BadRequest(_))));
    assert!(bad_request(parse_gif_info(b"not a gif")).starts_with("invalid GIF: "));
}

#[test]
fn resize_gif_reduces_width() {
    let data = make_gif(400, 300, 2);
    let resized = resize_gif(&data, 220).unwrap();
    let info = parse_gif_info(&resized).unwrap();
    assert!(info.width <= 220);
}

#[test]
fn resize_gif_does_not_upscale() {
    let data = make_gif(100, 80, 1);
    let resized = resize_gif(&data, 220).unwrap();
    let info = parse_gif_info(&resized).unwrap();
    assert_eq!(info.width, 100); // smaller than max, unchanged
}

#[test]
fn extract_thumbnail_produces_png() {
    let data = make_gif(300, 200, 5);
    let (png, w, h) = extract_thumbnail(&data, 220).unwrap();
    // PNG magic bytes: 0x89 0x50 0x4E 0x47
    assert_eq!(&png[0..4], &[0x89, 0x50, 0x4E, 0x47]);
    assert!(w <= 220);
    assert!(h > 0);
}

#[test]
fn resize_keeps_frames_times_and_proportions() {
    let data = make_gif(400, 300, 4);
    let info = parse_gif_info(&resize_gif(&data, 220).unwrap()).unwrap();
    assert_eq!((info.width, info.height), (220, 165));
    assert_eq!(info.frame_count, 4);
    assert_eq!(info.duration_ms, 400);
}

#[test]
fn thumbnail_can_be_read_back() {
    let data = make_gif(300, 200, 1);
    let (png, w, h) = extract_thumbnail(&data, 220).unwrap();
    let img = image::load_from_memory(&png).unwrap();
    assert_eq!((w, h), (220, 146));
    assert_eq!((img.width(), img.height()), (w, h));
}

#[test]
fn thumbnail_without_rows_cannot_be_written() {
    // 300 columns and one row: scaled down, no row is left
    let data = make_gif(300, 1, 1);
    assert!(internal(extract_thumbnail(&data, 220)).starts_with("png encode: "));
    assert!(matches!(process_gif(&data), Err(AppError::Internal(_))));
}

#[test]
fn thumbnail_of_nothing() {
    let data = make_gif(1, 1, 0);
    assert_eq!(bad_request(extract_thumbnail(&data, 220)), "GIF has no frames");
    assert_eq!(bad_request(parse_gif_info(&data)), "GIF has no frames");
    assert_eq!(bad_request(process_gif(&data)), "GIF has no frames");
    // resizing it gives a GIF without frames
    let resized = resize_gif(&data, 220).unwrap();
    assert_eq!(bad_request(parse_gif_info(&resized)), "GIF has no frames");
}

#[test]
fn broken_files_are_internal_errors_past_the_first_check() {
    assert!(internal(resize_gif(b"not a gif", 220)).starts_with("gif decode: "));
    assert!(internal(extract_thumbnail(b"not a gif", 220)).starts_with("gif decode: "));
    // a frame that breaks off
    let whole = make_gif(10, 10, 1);
    let cut = &whole[..whole.len() - 12];
    assert!(internal(extract_thumbnail(cut, 220)).starts_with("gif decode: "));
    assert_eq!(bad_request(parse_gif_info(cut)), "GIF has no frames");
}

#[test]
fn a_broken_frame_ends_the_animation() {
    let whole = make_gif(10, 10, 3);
    let cut = &whole[..whole.len() - 12];
    let info = parse_gif_info(cut).unwrap();
    assert_eq!(info.frame_count, 2);
    let resized = parse_gif_info(&resize_gif(cut, 220).unwrap()).unwrap();
    assert_eq!(resized.frame_count, 2);
}

#[test]
fn judging_by_limits() {
    let info = judge(500, 500, &vec![3; 1000]).unwrap();
    assert_eq!(info.duration_ms, 30000);
    assert_eq!(info.frame_count, 1000);
    assert_eq!(
        bad_request(judge(501, 500, &vec![3; 1000])),
        "GIF is too large to process (250500000 total pixels exceeds maximum 250000000)"
    );
    assert_eq!(
        bad_request(judge(2, 2, &vec![3; 1001])),
        "GIF has too many frames (maximum 1000)"
    );
    assert_eq!(bad_request(judge(2, 2, &Vec::new())), "GIF has no frames");
    assert_eq!(
        bad_request(judge(4097, 2, &Vec::new())),
        "GIF dimensions 4097x2 exceed maximum 4096x4096"
    );
    assert!(check_dimensions(4096, 4096).is_ok());
    assert!(check_dimensions(4096, 4097).is_err());
    assert_eq!(judge(1, 1, &vec![65535; 1000]).unwrap().duration_ms, 655_350_000);
}

#[test]
fn heights_are_single_precision() {
    let mut checked = 0u64;
    let mut w = 221u32;
    while w <= 65535 {
        let mut h = 0u32;
        while h <= 65535 {
            for max in [1u32, 7, 100, 220] {
                let ratio = max as f32 / w as f32;
                let expected = (h as f32 * ratio) as u32;
                assert_eq!(scale_height(w, h, max), expected, "{w}x{h} to {max}");
                checked += 1;
            }
            h += 577;
        }
        w += 131;
    }
    assert!(checked > 100_000);
    // where the product is a whole number, the rounding of the ratio decides
    for (w, h) in [(440u32, 2u32), (660, 3), (1320, 6), (2200, 10), (508, 346), (4096, 4096)] {
        let expected = (h as f32 * (220.0f32 / w as f32)) as u32;
        assert_eq!(scale_height(w, h, 220), expected);
    }
    assert_eq!(scale_height(508, 346, 220), 149);
    assert_eq!(scale_height(300, 200, 0), 0);
    assert_eq!(scale_height(300, 0, 220), 0);
}

#[test]
fn fitting_keeps_small_pictures() {
    assert_eq!(fit(220, 500, 220), (220, 500));
    assert_eq!(fit(100, 80, 220), (100, 80));
    assert_eq!(fit(0, 0, 220), (0, 0));
    assert_eq!(fit(400, 300, 220), (220, 165));
    assert_eq!(fit(300, 1, 220), (220, 0));
}

fn frame(left: u16, top: u16, width: u16, height: u16, pixels: &[[u8; 4]]) -> RawFrame {
    let mut buffer = Vec::new();
    for p in pixels {
        buffer.extend_from_slice(p);
    }
    RawFrame { delay: 0, dispose: Disposal::Keep, left, top, width, height, buffer }
}

fn pixel(c: &Canvas, x: usize, y: usize) -> [u8; 4] {
    let i = (y * c.width as usize + x) * 4;
    [c.bytes[i], c.bytes[i + 1], c.bytes[i + 2], c.bytes[i + 3]]
}

#[test]
fn frames_are_painted_at_their_place() {
    const A: [u8; 4] = [1, 2, 3, 255];
    const B: [u8; 4] = [4, 5, 6, 1];
    const NONE: [u8; 4] = [7, 8, 9, 0];
    const CLEAR: [u8; 4] = [0, 0, 0, 0];
    let mut c = Canvas::new(3, 2);
    c.paint(&frame(0, 0, 3, 2, &[A; 6]));
    // reaches over the right and lower edge; one of its pixels is transparent
    let f = frame(1, 1, 3, 2, &[NONE, B, B, B, B, B]);
    c.paint(&f);
    assert_eq!(pixel(&c, 0, 0), A);
    assert_eq!(pixel(&c, 0, 1), A);
    assert_eq!(pixel(&c, 1, 1), A);
    assert_eq!(pixel(&c, 2, 1), B);
    assert_eq!(pixel(&c, 2, 0), A);
    c.clear(&f);
    assert_eq!(pixel(&c, 1, 1), CLEAR);
    assert_eq!(pixel(&c, 2, 1), CLEAR);
    assert_eq!(pixel(&c, 0, 1), A);
    assert_eq!(c.bytes.len(), 24);
}

/// A 4x1 GIF whose second frame paints one pixel and is then disposed of; the third frame paints
/// another one.
fn disposal_gif(dispose: gif::DisposalMethod) -> Vec<u8> {
    let mut out = Vec::new();
    let mut enc = gif::Encoder::new(&mut out, 4, 1, &[]).unwrap();
    let mut red = Vec::new();
    for _ in 0..4 {
        red.extend_from_slice(&[255, 0, 0, 255]);
    }
    let first = gif::Frame::from_rgba_speed(4, 1, &mut red, 1);
    enc.write_frame(&first).unwrap();
    let mut second = gif::Frame::from_rgba_speed(1, 1, &mut [0, 255, 0, 255], 1);
    second.left = 1;
    second.dispose = dispose;
    enc.write_frame(&second).unwrap();
    let mut third = gif::Frame::from_rgba_speed(1, 1, &mut [0, 0, 255, 255], 1);
    third.left = 2;
    enc.write_frame(&third).unwrap();
    drop(enc);
    out
}

fn frames_of(data: &[u8]) -> Vec<Vec<u8>> {
    let mut opts = gif::DecodeOptions::new();
    opts.set_color_output(gif::ColorOutput::RGBA);
    let mut reader = opts.read_info(data).unwrap();
    let mut r = Vec::new();
    while let Ok(Some(f)) = reader.read_next_frame() {
        assert_eq!((f.left, f.top, f.width, f.height), (0, 0, 4, 1));
        r.push(f.buffer.to_vec());
    }
    r
}

#[test]
fn disposal_decides_the_backdrop() {
    let red = [255, 0, 0, 255];
    let green = [0, 255, 0, 255];
    let blue = [0, 0, 255, 255];
    for (dispose, behind) in [
        (gif::DisposalMethod::Keep, green),
        (gif::DisposalMethod::Any, green),
        (gif::DisposalMethod::Previous, red),
        (gif::DisposalMethod::Background, [0, 0, 0, 0]),
    ] {
        let frames = frames_of(&resize_gif(&disposal_gif(dispose), 220).unwrap());
        assert_eq!(frames.len(), 3);
        assert_eq!(frames[0], [red, red, red, red].concat());
        assert_eq!(frames[1], [red, green, red, red].concat());
        assert_eq!(&frames[2][0..4], &red);
        assert_eq!(frames[2][7], behind[3]);
        if behind[3] > 0 {
            assert_eq!(&frames[2][4..8], &behind);
        }
        assert_eq!(&frames[2][8..12], &blue);
        assert_eq!(&frames[2][12..16], &red);
    }
}

#[test]
fn processing_makes_both_renditions() {
    let data = make_gif(400, 300, 2);
    let made = process_gif(&data).unwrap();
    assert_eq!((made.info.width, made.info.height), (400, 300));
    assert_eq!((made.thumbnail_width, made.thumbnail_height), (220, 165));
    let preview = parse_gif_info(&made.preview).unwrap();
    assert_eq!((preview.width, preview.height, preview.frame_count), (220, 165, 2));
    assert_eq!(&made.thumbnail[0..4], &[0x89, 0x50, 0x4E, 0x47]);
}
