//! The picture that the frames of an animation are painted on, one after the other.

use vstd::prelude::*;

use super::codec::{Disposal, FrameView, RawFrame, whole_frame};

verus! {

/// RGBA bytes of a picture, row by row.
pub struct Canvas {
    pub width: u32,
    pub height: u32,
    pub bytes: Vec<u8>,
}

/// The column that byte `k` of a picture of this width belongs to.
pub open spec fn column(width: int, k: int) -> int {
    (k / 4) % width
}

/// The row that byte `k` of a picture of this width belongs to.
pub open spec fn row(width: int, k: int) -> int {
    (k / 4) / width
}

/// The frame has a pixel at column `x`, row `y` of the screen.
pub open spec fn covers(f: FrameView, x: int, y: int) -> bool {
    f.left <= x < f.left + f.width && f.top <= y < f.top + f.height
}

/// Where the frame's bytes for that pixel begin.
pub open spec fn frame_offset(f: FrameView, x: int, y: int) -> int {
    ((y - f.top) * f.width + (x - f.left)) * 4
}

/// The frame has a pixel there that is not wholly transparent.
pub open spec fn paints(f: FrameView, x: int, y: int) -> bool {
    covers(f, x, y) && f.pixels[frame_offset(f, x, y) + 3] > 0
}

/// `bytes` after the frame was painted over it: the frame's pixel wherever it has one that is
/// not wholly transparent.
pub open spec fn painted(bytes: Seq<u8>, width: int, f: FrameView) -> Seq<u8> {
    Seq::new(
        bytes.len(),
        |k: int|
            if paints(f, column(width, k), row(width, k)) {
                f.pixels[frame_offset(f, column(width, k), row(width, k)) + k % 4]
            } else {
                bytes[k]
            },
    )
}

/// `bytes` after the frame's area was made transparent.
pub open spec fn cleared(bytes: Seq<u8>, width: int, f: FrameView) -> Seq<u8> {
    Seq::new(
        bytes.len(),
        |k: int|
            if covers(f, column(width, k), row(width, k)) {
                0u8
            } else {
                bytes[k]
            },
    )
}

/// What the next frame is painted on, where this one was painted on `bytes`.
pub open spec fn disposed(bytes: Seq<u8>, width: int, f: FrameView) -> Seq<u8> {
    match f.dispose {
        Disposal::Background => cleared(painted(bytes, width, f), width, f),
        Disposal::Previous => bytes,
        _ => painted(bytes, width, f),
    }
}

/// What the frame after the first `n` is painted on.
pub open spec fn backdrop(frames: Seq<FrameView>, width: int, height: int, n: nat) -> Seq<u8>
    decreases n,
{
    if n == 0 {
        Seq::new((width * height * 4) as nat, |k: int| 0u8)
    } else {
        disposed(backdrop(frames, width, height, (n - 1) as nat), width, frames[n - 1])
    }
}

/// What the screen shows while frame `n` is up.
pub open spec fn shown(frames: Seq<FrameView>, width: int, height: int, n: nat) -> Seq<u8> {
    painted(backdrop(frames, width, height, n), width, frames[n as int])
}

/// Each byte lies in one pixel, at one column and one row.
proof fn lemma_place(width: int, x: int, y: int, k: int)
    requires
        0 <= x < width,
        0 <= y,
        k / 4 == y * width + x,
    ensures
        column(width, k) == x,
        row(width, k) == y,
{
    assert((y * width + x) % width == x && (y * width + x) / width == y) by (nonlinear_arith)
        requires
            0 <= x < width,
            0 <= y,
    ;
}

/// A pixel is found again from its column and row.
proof fn lemma_place_back(width: int, k: int)
    requires
        0 < width,
        0 <= k,
    ensures
        k / 4 == row(width, k) * width + column(width, k),
        0 <= column(width, k) < width,
        0 <= row(width, k),
{
    let p = k / 4;
    assert(p == (p / width) * width + p % width && 0 <= p % width < width && 0 <= p / width)
        by (nonlinear_arith)
        requires
            0 < width,
            0 <= p,
    ;
}

/// A pixel inside a picture begins and ends inside its bytes.
proof fn lemma_inside(width: int, height: int, x: int, y: int)
    requires
        0 <= x < width,
        0 <= y < height,
    ensures
        0 <= y * width,
        0 <= y * width + x,
        (y * width + x) * 4 + 3 < width * height * 4,
{
    assert(0 <= y * width && y * width + x < width * height) by (nonlinear_arith)
        requires
            0 <= x < width,
            0 <= y < height,
    ;
}

/// The pixels of the frame that come before column `x` of its row `y`.
pub open spec fn passed(f: FrameView, y: int, x: int, cx: int, cy: int) -> bool {
    covers(f, cx, cy) && (cy - f.top < y || (cy - f.top == y && cx - f.left < x))
}

/// `bytes` with a frame painted on as far as column `x` of its row `y`.
pub open spec fn painted_upto(
    bytes: Seq<u8>,
    width: int,
    f: FrameView,
    clear: bool,
    y: int,
    x: int,
) -> Seq<u8> {
    let whole = if clear {
        cleared(bytes, width, f)
    } else {
        painted(bytes, width, f)
    };
    Seq::new(
        bytes.len(),
        |k: int|
            if passed(f, y, x, column(width, k), row(width, k)) {
                whole[k]
            } else {
                bytes[k]
            },
    )
}

impl Canvas {
    /// There are four bytes for every pixel.
    pub open spec fn wf(&self) -> bool {
        self.bytes@.len() == self.width * self.height * 4
    }

    /// A transparent picture.
    pub fn new(width: u32, height: u32) -> (r: Canvas)
        requires
            width * height * 4 <= u32::MAX,
        ensures
            r.wf(),
            r.width == width,
            r.height == height,
            r.bytes@ == Seq::new((width * height * 4) as nat, |k: int| 0u8),
    {
        assert(0 <= width * height <= u32::MAX) by (nonlinear_arith)
            requires
                width * height * 4 <= u32::MAX,
                0 <= width,
                0 <= height,
        ;
        let len: u32 = width * height * 4;
        Canvas { width, height, bytes: vec![0u8; len as usize] }
    }

    /// Goes over the frame's area, row by row: paints the frame's pixels there, or clears it.
    fn sweep(&mut self, frame: &RawFrame, clear: bool)
        requires
            old(self).wf(),
            whole_frame(frame@),
        ensures
            final(self).wf(),
            final(self).width == old(self).width,
            final(self).height == old(self).height,
            final(self).bytes@ == (if clear {
                cleared(old(self).bytes@, old(self).width as int, frame@)
            } else {
                painted(old(self).bytes@, old(self).width as int, frame@)
            }),
    {
        let ghost start = self.bytes@;
        let ghost f = frame@;
        let ghost w = self.width as int;
        let ghost h = self.height as int;
        let width: usize = self.width as usize;
        let height: usize = self.height as usize;
        let left: usize = frame.left as usize;
        let top: usize = frame.top as usize;
        let fw: usize = frame.width as usize;
        let fh: usize = frame.height as usize;
        let mut y: usize = 0;
        proof {
            assert(start == painted_upto(start, w, f, clear, 0, 0));
        }
        while y < fh
            invariant
                self.wf(),
                self.width == w,
                self.height == h,
                width == w,
                height == h,
                f == frame@,
                whole_frame(f),
                left == f.left,
                top == f.top,
                fw == f.width,
                fh == f.height,
                y <= fh,
                start.len() == self.bytes@.len(),
                self.bytes@ == painted_upto(start, w, f, clear, y as int, 0),
            decreases fh - y,
        {
            let mut x: usize = 0;
            while x < fw
                invariant
                    self.wf(),
                    self.width == w,
                    self.height == h,
                    width == w,
                    height == h,
                    f == frame@,
                    whole_frame(f),
                    left == f.left,
                    top == f.top,
                    fw == f.width,
                    fh == f.height,
                    y < fh,
                    x <= fw,
                    start.len() == self.bytes@.len(),
                    self.bytes@ == painted_upto(start, w, f, clear, y as int, x as int),
                decreases fw - x,
            {
                let dst_x: usize = left + x;
                let dst_y: usize = top + y;
                let ghost before = self.bytes@;
                if dst_x < width && dst_y < height {
                    proof {
                        lemma_inside(w, h, dst_x as int, dst_y as int);
                        lemma_inside(f.width as int, f.height as int, x as int, y as int);
                        assert(dst_y * width + dst_x <= self.bytes@.len());
                        assert(y * fw + x <= frame.buffer@.len());
                    }
                    assert(self.bytes.len() <= usize::MAX);
                    assert(frame.buffer.len() <= usize::MAX);
                    let src: usize = (y * fw + x) * 4;
                    let dst: usize = (dst_y * width + dst_x) * 4;
                    assert(src == frame_offset(f, dst_x as int, dst_y as int));
                    if clear {
                        self.bytes.set(dst, 0);
                        self.bytes.set(dst + 1, 0);
                        self.bytes.set(dst + 2, 0);
                        self.bytes.set(dst + 3, 0);
                    } else if frame.buffer[src + 3] > 0 {
                        self.bytes.set(dst, frame.buffer[src]);
                        self.bytes.set(dst + 1, frame.buffer[src + 1]);
                        self.bytes.set(dst + 2, frame.buffer[src + 2]);
                        self.bytes.set(dst + 3, frame.buffer[src + 3]);
                    }
                }
                proof {
                    let next = painted_upto(start, w, f, clear, y as int, x + 1);
                    assert forall|k: int| 0 <= k < start.len() implies self.bytes@[k]
                        == #[trigger] next[k] by {
                        assert(w > 0) by (nonlinear_arith)
                            requires
                                start.len() == w * h * 4,
                                0 <= k < start.len(),
                                0 <= w,
                        ;
                        lemma_place_back(w, k);
                        let cx = column(w, k);
                        let cy = row(w, k);
                        assert(before[k] == painted_upto(start, w, f, clear, y as int, x as int)[k]);
                        if cx == dst_x && cy == dst_y {
                            assert(cy < h) by (nonlinear_arith)
                                requires
                                    k < w * h * 4,
                                    k / 4 == cy * w + cx,
                                    0 <= cx < w,
                            ;
                            let dst = (dst_y * width + dst_x) * 4;
                            assert(k == dst + k % 4);
                        } else {
                            if dst_x < width && dst_y < height {
                                let dst = (dst_y * width + dst_x) * 4;
                                if dst <= k < dst + 4 {
                                    lemma_place(w, dst_x as int, dst_y as int, k);
                                }
                            }
                        }
                    }
                    assert(self.bytes@ == next);
                }
                x = x + 1;
            }
            proof {
                assert(painted_upto(start, w, f, clear, y as int, fw as int) == painted_upto(
                    start,
                    w,
                    f,
                    clear,
                    y + 1,
                    0,
                ));
            }
            y = y + 1;
        }
        proof {
            let whole = if clear {
                cleared(start, w, f)
            } else {
                painted(start, w, f)
            };
            assert(painted_upto(start, w, f, clear, fh as int, 0) == whole);
        }
    }

    /// Paints the frame over the picture.
    pub fn paint(&mut self, frame: &RawFrame)
        requires
            old(self).wf(),
            whole_frame(frame@),
        ensures
            final(self).wf(),
            final(self).width == old(self).width,
            final(self).height == old(self).height,
            final(self).bytes@ == painted(old(self).bytes@, old(self).width as int, frame@),
    {
        self.sweep(frame, false)
    }

    /// Makes the frame's area transparent.
    pub fn clear(&mut self, frame: &RawFrame)
        requires
            old(self).wf(),
            whole_frame(frame@),
        ensures
            final(self).wf(),
            final(self).width == old(self).width,
            final(self).height == old(self).height,
            final(self).bytes@ == cleared(old(self).bytes@, old(self).width as int, frame@),
    {
        self.sweep(frame, true)
    }
}

/// Painting a frame sets, at every column and row of the screen, the four bytes of the frame's pixel
/// there, where the frame has one that is not wholly transparent; every other pixel stays. Clearing
/// a frame's area sets the pixels that the frame has to zero, and no other. The pixels of a picture
/// stand row by row, each row as long as the picture is wide.
pub proof fn law_frames_are_painted_at_their_place(
    bytes: Seq<u8>,
    width: int,
    height: int,
    f: FrameView,
    x: int,
    y: int,
    c: int,
)
    requires
        bytes.len() == width * height * 4,
        0 <= x < width,
        0 <= y < height,
        0 <= c < 4,
    ensures
        painted(bytes, width, f).len() == bytes.len(),
        cleared(bytes, width, f).len() == bytes.len(),
        ({
            let k = (y * width + x) * 4 + c;
            let inside = f.left <= x < f.left + f.width && f.top <= y < f.top + f.height;
            let first = ((y - f.top) * f.width + (x - f.left)) * 4;
            &&& painted(bytes, width, f)[k] == if inside && f.pixels[first + 3] > 0 {
                f.pixels[first + c]
            } else {
                bytes[k]
            }
            &&& cleared(bytes, width, f)[k] == if inside {
                0
            } else {
                bytes[k]
            }
        }),
{
    let k = (y * width + x) * 4 + c;
    lemma_inside(width, height, x, y);
    assert(k / 4 == y * width + x && k % 4 == c);
    lemma_place(width, x, y, k);
}

/// A frame that fills the screen and has no wholly transparent pixel is what the screen then shows.
pub proof fn law_full_frame_is_shown_as_it_is(
    bytes: Seq<u8>,
    width: int,
    height: int,
    f: FrameView,
)
    requires
        0 < width,
        bytes.len() == width * height * 4,
        f.left == 0,
        f.top == 0,
        f.width == width,
        f.height == height,
        f.pixels.len() == bytes.len(),
        forall|p: int| 0 <= p < width * height ==> #[trigger] f.pixels[p * 4 + 3] > 0,
    ensures
        painted(bytes, width, f) == f.pixels,
{
    assert forall|k: int| 0 <= k < bytes.len() implies painted(bytes, width, f)[k]
        == f.pixels[k] by {
        lemma_place_back(width, k);
        let x = column(width, k);
        let y = row(width, k);
        assert(y < height) by (nonlinear_arith)
            requires
                k / 4 == y * width + x,
                0 <= x < width,
                0 < width,
                k < width * height * 4,
        ;
        let p = k / 4;
        assert(f.pixels[p * 4 + 3] > 0);
        assert(frame_offset(f, x, y) == p * 4);
        assert(p * 4 + k % 4 == k);
    }
    assert(painted(bytes, width, f) =~= f.pixels);
}

/// The first frame is painted on a transparent screen. The next one is painted on what the screen
/// shows, unless this one asks for another: to have its area cleared, or to have the screen as it was
/// before.
pub proof fn law_frames_follow_their_disposal(
    frames: Seq<FrameView>,
    width: int,
    height: int,
    n: nat,
)
    requires
        n < frames.len(),
    ensures
        backdrop(frames, width, height, 0) == Seq::new((width * height * 4) as nat, |k: int| 0u8),
        ({
            let before = backdrop(frames, width, height, n);
            let up = shown(frames, width, height, n);
            let next = backdrop(frames, width, height, n + 1);
            let frame = frames[n as int];
            &&& up == painted(before, width, frame)
            &&& match frame.dispose {
                Disposal::Any => next == up,
                Disposal::Keep => next == up,
                Disposal::Background => next == cleared(up, width, frame),
                Disposal::Previous => next == before,
            }
        }),
{
}

} // verus!
