//! Pictures: frames of the screen, crops of them, and what is made of a
//! crop before its text is recognized.

use crate::picture_calls;
use crate::picture_calls::{crop, scaled_square};
use vstd::prelude::*;

verus! {

// ---------------------------------------------------------------------
// Pictures
// ---------------------------------------------------------------------

/// A picture with four bytes to the pixel: red, green, blue, alpha. The
/// rows follow each other from the top.
#[derive(Debug)]
pub struct Frame {
    pub width: u32,
    pub height: u32,
    pub pixels: Vec<u8>,
}

impl Frame {
    /// There are as many bytes as the size asks for.
    pub open spec fn wf(&self) -> bool {
        self.pixels@.len() == 4 * self.width * self.height
    }
}

/// How a pixel of four bytes is laid out.
#[derive(Debug, Clone, Copy, PartialEq, Eq, Structural)]
pub enum PixelFormat {
    Bgrx,
    Bgra,
    Rgbx,
    Rgba,
    /// A layout that is not understood.
    Other,
}

/// A frame as a stream delivered it.
#[derive(Debug)]
pub struct RawFrame {
    pub format: PixelFormat,
    pub width: u32,
    pub height: u32,
    /// Bytes from one row to the next; 0 means that the rows touch.
    pub stride: usize,
    pub bytes: Vec<u8>,
}

/// The byte for channel `k` (red, green, blue, alpha) of the pixel whose
/// four bytes begin at `at`.
pub open spec fn channel(format: PixelFormat, bytes: Seq<u8>, at: int, k: int) -> u8 {
    match format {
        PixelFormat::Bgrx => if k == 3 {
            255
        } else {
            bytes[at + 2 - k]
        },
        PixelFormat::Bgra => if k == 3 {
            bytes[at + 3]
        } else {
            bytes[at + 2 - k]
        },
        PixelFormat::Rgbx => if k == 3 {
            255
        } else {
            bytes[at + k]
        },
        PixelFormat::Rgba => bytes[at + k],
        PixelFormat::Other => 0,
    }
}

impl RawFrame {
    /// Bytes from one row to the next.
    pub open spec fn row_stride(&self) -> int {
        if self.stride > 0 {
            self.stride as int
        } else {
            self.width * 4
        }
    }

    /// Whether all of row `y` was delivered.
    pub open spec fn has_row(&self, y: int) -> bool {
        y * self.row_stride() + self.width * 4 <= self.bytes@.len()
    }

    /// Row `y` as it is shown. A row that was not delivered whole is
    /// transparent black.
    pub open spec fn shown_row(&self, y: int) -> Seq<u8> {
        if self.has_row(y) {
            Seq::new(
                (self.width * 4) as nat,
                |i: int|
                    channel(
                        self.format,
                        self.bytes@,
                        y * self.row_stride() + (i / 4) * 4,
                        i % 4,
                    ),
            )
        } else {
            Seq::new((self.width * 4) as nat, |i: int| 0u8)
        }
    }

    /// The first `n` rows as they are shown.
    pub open spec fn shown_rows(&self, n: nat) -> Seq<u8>
        decreases n,
    {
        if n == 0 {
            Seq::<u8>::empty()
        } else {
            self.shown_rows((n - 1) as nat) + self.shown_row(n - 1)
        }
    }

    /// Whether there is a pixel to show whose layout is not understood.
    pub open spec fn unreadable(&self) -> bool {
        self.format == PixelFormat::Other && self.width > 0 && self.height > 0 && self.has_row(0)
    }

    proof fn lemma_shown_rows_len(&self, n: nat)
        ensures
            self.shown_rows(n).len() == 4 * self.width * n,
        decreases n,
    {
        if n == 0 {
            assert(4 * self.width * n == 0) by (nonlinear_arith)
                requires
                    n == 0,
            ;
        } else {
            self.lemma_shown_rows_len((n - 1) as nat);
            assert(4 * self.width * n == 4 * self.width * (n - 1) + self.width * 4)
                by (nonlinear_arith)
                requires
                    n > 0,
            ;
        }
    }

    /// One pixel in red, green, blue, alpha.
    fn push_pixel(&self, at: usize, out: &mut Vec<u8>)
        requires
            at + 4 <= self.bytes.len(),
            self.format != PixelFormat::Other,
        ensures
            final(out)@ == old(out)@.push(channel(self.format, self.bytes@, at as int, 0)).push(
                channel(self.format, self.bytes@, at as int, 1),
            ).push(channel(self.format, self.bytes@, at as int, 2)).push(
                channel(self.format, self.bytes@, at as int, 3),
            ),
    {
        let (r, g, b, a) = match self.format {
            PixelFormat::Bgrx => (self.bytes[at + 2], self.bytes[at + 1], self.bytes[at], 255u8),
            PixelFormat::Bgra => (
                self.bytes[at + 2],
                self.bytes[at + 1],
                self.bytes[at],
                self.bytes[at + 3],
            ),
            PixelFormat::Rgbx => (self.bytes[at], self.bytes[at + 1], self.bytes[at + 2], 255u8),
            _ => (
                self.bytes[at],
                self.bytes[at + 1],
                self.bytes[at + 2],
                self.bytes[at + 3],
            ),
        };
        out.push(r);
        out.push(g);
        out.push(b);
        out.push(a);
    }

    /// The frame in red, green, blue, alpha. `None` if its layout is not
    /// understood.
    pub fn to_rgba(&self) -> (r: Option<Frame>)
        requires
            4 * self.width * self.height <= usize::MAX,
        ensures
            r is None <==> self.unreadable(),
            r matches Some(f) ==> {
                &&& f.width == self.width
                &&& f.height == self.height
                &&& f.pixels@ == self.shown_rows(self.height as nat)
                &&& f.wf()
            },
    {
        let ghost stride = self.row_stride();
        let row_stride: u128 = if self.stride > 0 {
            self.stride as u128
        } else {
            self.width as u128 * 4
        };
        let row_len: u128 = self.width as u128 * 4;
        let mut out: Vec<u8> = Vec::new();
        let mut row_start: u128 = 0;
        let mut y: u32 = 0;
        while y < self.height
            invariant
                y <= self.height,
                stride == self.row_stride(),
                row_stride == stride,
                row_stride <= u64::MAX,
                row_len == self.width * 4,
                row_start == y * stride,
                y > 0 ==> !self.unreadable(),
                out@ == self.shown_rows(y as nat),
            decreases self.height - y,
        {
            proof {
                assert(y * stride <= 0xffff_ffff * 0xffff_ffff_ffff_ffff) by (nonlinear_arith)
                    requires
                        0 <= y <= 0xffff_ffff,
                        0 <= stride <= 0xffff_ffff_ffff_ffff,
                ;
                assert(y * stride + stride == (y + 1) * stride) by (nonlinear_arith);
                assert(0 * stride == 0) by (nonlinear_arith);
            }
            let ghost before = out@;
            let mut x: u32 = 0;
            if row_start + row_len <= self.bytes.len() as u128 {
                if self.format == PixelFormat::Other && self.width > 0 {
                    proof {
                        assert(0 <= y * stride) by (nonlinear_arith)
                            requires
                                0 <= y,
                                0 <= stride,
                        ;
                        assert(self.has_row(0));
                    }
                    return None;
                }
                let start: usize = row_start as usize;
                while x < self.width
                    invariant
                        x <= self.width,
                        start == y * stride,
                        stride == self.row_stride(),
                        start + self.width * 4 <= self.bytes@.len(),
                        self.bytes@.len() <= usize::MAX,
                        self.has_row(y as int),
                        self.format != PixelFormat::Other || self.width == 0,
                        out@ == before + self.shown_row(y as int).take(4 * x),
                    decreases self.width - x,
                {
                    let at: usize = start + x as usize * 4;
                    self.push_pixel(at, &mut out);
                    proof {
                        let row = self.shown_row(y as int);
                        assert(row.take(4 * (x + 1)) == row.take(4 * x).push(row[4 * x]).push(
                            row[4 * x + 1],
                        ).push(row[4 * x + 2]).push(row[4 * x + 3]));
                    }
                    x += 1;
                }
                proof {
                    let row = self.shown_row(y as int);
                    assert(row.take(4 * self.width as int) == row);
                }
            } else {
                while x < self.width
                    invariant
                        x <= self.width,
                        !self.has_row(y as int),
                        out@ == before + self.shown_row(y as int).take(4 * x),
                    decreases self.width - x,
                {
                    out.push(0);
                    out.push(0);
                    out.push(0);
                    out.push(0);
                    proof {
                        let row = self.shown_row(y as int);
                        assert(row.take(4 * (x + 1)) == row.take(4 * x).push(row[4 * x]).push(
                            row[4 * x + 1],
                        ).push(row[4 * x + 2]).push(row[4 * x + 3]));
                    }
                    x += 1;
                }
                proof {
                    let row = self.shown_row(y as int);
                    assert(row.take(4 * self.width as int) == row);
                    if self.has_row(0) && y == 0 {
                        assert(false);
                    }
                }
            }
            assert(out@ == before + self.shown_row(y as int));
            row_start = row_start + row_stride;
            y += 1;
        }
        proof {
            self.lemma_shown_rows_len(self.height as nat);
        }
        Some(Frame { width: self.width, height: self.height, pixels: out })
    }
}

/// A frame as a stream delivers it: of a buffer only the part that was
/// filled counts, and a row distance below zero counts as none. Nothing is
/// kept of an empty buffer, or before the picture's size is known.
pub fn received(
    format: PixelFormat,
    width: u32,
    height: u32,
    filled: u32,
    stride: i32,
    buffer: Vec<u8>,
) -> (r: Option<RawFrame>)
    ensures
        r is Some <==> filled > 0 && buffer@.len() > 0 && width > 0 && height > 0,
        r matches Some(f) ==> {
            &&& f.format == format
            &&& f.width == width
            &&& f.height == height
            &&& f.stride == (if stride > 0 {
                stride as int
            } else {
                0
            })
            &&& f.bytes@ == buffer@.take(min_int(filled as int, buffer@.len() as int))
        },
{
    let len: usize = if (filled as u64) < buffer.len() as u64 {
        filled as usize
    } else {
        buffer.len()
    };
    if len == 0 || width == 0 || height == 0 {
        return None;
    }
    let mut bytes = buffer;
    bytes.truncate(len);
    let stride: usize = if stride > 0 {
        stride as usize
    } else {
        0
    };
    Some(RawFrame { format, width, height, stride, bytes })
}

// ---------------------------------------------------------------------
// Crops
// ---------------------------------------------------------------------

pub open spec fn min_int(a: int, b: int) -> int {
    if a < b {
        a
    } else {
        b
    }
}

/// A region, as corner and size, moved and shrunk so that it lies within a
/// picture of the given size.
pub open spec fn clamped_region(
    width: int,
    height: int,
    region: (int, int, int, int),
) -> (int, int, int, int) {
    let x = min_int(region.0, if width > 0 { width - 1 } else { 0 });
    let y = min_int(region.1, if height > 0 { height - 1 } else { 0 });
    (x, y, min_int(region.2, width - x), min_int(region.3, height - y))
}

proof fn lemma_cut_rows_len(frame: &Frame, x: int, y: int, w: int, n: nat)
    requires
        frame.wf(),
        0 <= x,
        0 <= y,
        0 <= w,
        x + w <= frame.width,
        y + n <= frame.height,
    ensures
        picture_calls::cut_rows(frame.pixels@, frame.width as int, x, y, w, n).len() == 4 * w * n,
    decreases n,
{
    if n == 0 {
        assert(4 * w * n == 0) by (nonlinear_arith)
            requires
                n == 0,
        ;
    } else {
        lemma_cut_rows_len(frame, x, y, w, (n - 1) as nat);
        let width = frame.width as int;
        let height = frame.height as int;
        let row = y + n - 1;
        assert(0 <= row * width && row * width + width <= height * width) by (nonlinear_arith)
            requires
                0 <= row < height,
                0 <= width,
        ;
        assert(4 * width * height == 4 * (height * width)) by (nonlinear_arith);
        assert(4 * w * n == 4 * w * (n - 1) + 4 * w) by (nonlinear_arith)
            requires
                n > 0,
        ;
    }
}

/// The part of a picture that a region shows. A region that reaches over
/// the edge is cut at the edge.
pub fn crop_frame(frame: &Frame, x: u32, y: u32, w: u32, h: u32) -> (r: Frame)
    requires
        frame.wf(),
    ensures
        r.wf(),
        ({
            let c = clamped_region(
                frame.width as int,
                frame.height as int,
                (x as int, y as int, w as int, h as int),
            );
            &&& r.width == c.2
            &&& r.height == c.3
            &&& r.pixels@ == picture_calls::cut_rows(
                frame.pixels@,
                frame.width as int,
                c.0,
                c.1,
                c.2,
                c.3 as nat,
            )
        }),
{
    let last_x: u32 = if frame.width > 0 {
        frame.width - 1
    } else {
        0
    };
    let last_y: u32 = if frame.height > 0 {
        frame.height - 1
    } else {
        0
    };
    let cx: u32 = if x < last_x {
        x
    } else {
        last_x
    };
    let cy: u32 = if y < last_y {
        y
    } else {
        last_y
    };
    let cw: u32 = if w < frame.width - cx {
        w
    } else {
        frame.width - cx
    };
    let ch: u32 = if h < frame.height - cy {
        h
    } else {
        frame.height - cy
    };
    let pixels = crop(frame, cx, cy, cw, ch);
    proof {
        lemma_cut_rows_len(frame, cx as int, cy as int, cw as int, ch as nat);
    }
    Frame { width: cw, height: ch, pixels }
}

/// A region that lies within the picture is shown as it is.
pub proof fn law_inner_region_is_kept(width: int, height: int, x: int, y: int, w: int, h: int)
    requires
        0 <= x,
        0 <= y,
        0 < w,
        0 < h,
        x + w <= width,
        y + h <= height,
    ensures
        clamped_region(width, height, (x, y, w, h)) == (x, y, w, h),
{
}

proof fn lemma_whole_rows(frame: &Frame, n: nat)
    requires
        frame.wf(),
        n <= frame.height,
    ensures
        picture_calls::cut_rows(frame.pixels@, frame.width as int, 0, 0, frame.width as int, n)
            == frame.pixels@.take(4 * frame.width * n),
    decreases n,
{
    let w = frame.width as int;
    let h = frame.height as int;
    assert(0 <= 4 * w * n <= 4 * w * h) by (nonlinear_arith)
        requires
            0 <= w,
            0 <= n <= h,
    ;
    if n == 0 {
        assert(4 * w * n == 0) by (nonlinear_arith)
            requires
                n == 0,
        ;
    } else {
        lemma_whole_rows(frame, (n - 1) as nat);
        assert(4 * ((n - 1) * w) == 4 * w * (n - 1)) by (nonlinear_arith);
        assert(4 * w * n == 4 * w * (n - 1) + 4 * w) by (nonlinear_arith);
        assert(0 <= 4 * w * (n - 1)) by (nonlinear_arith)
            requires
                0 <= w,
                n >= 1,
        ;
        let before = frame.pixels@.take(4 * w * (n - 1));
        let row = frame.pixels@.subrange(4 * w * (n - 1), 4 * w * n);
        assert(before + row =~= frame.pixels@.take(4 * w * n));
    }
}

/// The region that is the whole picture shows the picture as it is.
pub proof fn law_whole_region_is_the_picture(frame: &Frame)
    requires
        frame.wf(),
    ensures
        picture_calls::cut_rows(
            frame.pixels@,
            frame.width as int,
            0,
            0,
            frame.width as int,
            frame.height as nat,
        ) == frame.pixels@,
{
    lemma_whole_rows(frame, frame.height as nat);
    assert(frame.pixels@.take(frame.pixels@.len() as int) =~= frame.pixels@);
}

/// Whatever the region, what is shown lies within the picture.
pub proof fn law_clamped_region_lies_within(
    width: int,
    height: int,
    x: int,
    y: int,
    w: int,
    h: int,
)
    requires
        0 <= width,
        0 <= height,
        0 <= x,
        0 <= y,
        0 <= w,
        0 <= h,
    ensures
        ({
            let c = clamped_region(width, height, (x, y, w, h));
            0 <= c.0 && 0 <= c.1 && 0 <= c.2 && 0 <= c.3 && c.0 + c.2 <= width && c.1 + c.3
                <= height
        }),
{
}

// ---------------------------------------------------------------------
// Pictures on the clipboard
// ---------------------------------------------------------------------

/// A picture as the clipboard holds it.
#[derive(Debug)]
pub struct ClipboardImage {
    pub width: usize,
    pub height: usize,
    pub bytes: Vec<u8>,
}

/// Two clipboard pictures with the same size and bytes.
pub open spec fn same_image(a: ClipboardImage, b: ClipboardImage) -> bool {
    a.width == b.width && a.height == b.height && a.bytes@ == b.bytes@
}

/// A length as a picture has it: its lowest 32 bits.
pub open spec fn picture_length(n: usize) -> int {
    n as int % 0x1_0000_0000
}

/// How many bytes a clipboard picture of that size needs.
pub open spec fn bytes_needed(image: ClipboardImage) -> int {
    4 * picture_length(image.width) * picture_length(image.height)
}

/// Whether two vectors hold the same bytes.
fn same_bytes(a: &Vec<u8>, b: &Vec<u8>) -> (r: bool)
    ensures
        r == (a@ == b@),
{
    if a.len() != b.len() {
        return false;
    }
    let mut i: usize = 0;
    while i < a.len()
        invariant
            i <= a@.len(),
            a@.len() == b@.len(),
            forall|k: int| 0 <= k < i ==> a@[k] == b@[k],
        decreases a@.len() - i,
    {
        if a[i] != b[i] {
            return false;
        }
        i += 1;
    }
    assert(a@ == b@);
    true
}

/// The clipboard's picture as a frame. `None` if it has fewer bytes than its
/// size asks for.
pub fn clipboard_frame(image: ClipboardImage) -> (r: Option<Frame>)
    ensures
        r is Some <==> bytes_needed(image) <= image.bytes@.len(),
        r matches Some(f) ==> {
            &&& f.wf()
            &&& f.width == picture_length(image.width)
            &&& f.height == picture_length(image.height)
            &&& f.pixels@ == image.bytes@.take(bytes_needed(image))
        },
{
    let width: u32 = (image.width as u64 % 0x1_0000_0000) as u32;
    let height: u32 = (image.height as u64 % 0x1_0000_0000) as u32;
    proof {
        assert(0 <= 4 * width * height <= 4 * 0xffff_ffff * 0xffff_ffff) by (nonlinear_arith)
            requires
                0 <= width <= 0xffff_ffff,
                0 <= height <= 0xffff_ffff,
        ;
        assert(0 <= 4 * width <= 4 * 0xffff_ffff);
    }
    let needed: u128 = 4 * width as u128 * height as u128;
    if needed > image.bytes.len() as u128 {
        return None;
    }
    let mut pixels = image.bytes;
    pixels.truncate(needed as usize);
    Some(Frame { width, height, pixels })
}

/// What a look at the clipboard amounts to while an external tool's picture
/// is awaited.
#[derive(Debug)]
pub enum ClipboardLook {
    /// The tool's picture has come.
    Captured(Frame),
    /// A picture has come that does not fit its own size.
    WrongSize,
    /// No picture came in time.
    Cancelled,
    /// Look again a little later.
    Wait,
}

/// Whether a picture has come that was not there before.
pub open spec fn is_new(previous: Option<ClipboardImage>, current: Option<ClipboardImage>) -> bool {
    match current {
        None => false,
        Some(c) => match previous {
            None => true,
            Some(p) => !same_image(p, c),
        },
    }
}

/// What a look at the clipboard amounts to. A picture that was there before
/// the tool ran does not count, so that an unrelated one is not taken for
/// the capture.
pub fn look_at_clipboard(
    previous: &Option<ClipboardImage>,
    current: Option<ClipboardImage>,
    deadline_passed: bool,
) -> (r: ClipboardLook)
    ensures
        (match r {
            ClipboardLook::Captured(f) => is_new(*previous, current) && {
                let c = current->0;
                &&& bytes_needed(c) <= c.bytes@.len()
                &&& f.wf()
                &&& f.width == picture_length(c.width)
                &&& f.height == picture_length(c.height)
                &&& f.pixels@ == c.bytes@.take(bytes_needed(c))
            },
            ClipboardLook::WrongSize => is_new(*previous, current) && bytes_needed(current->0)
                > current->0.bytes@.len(),
            ClipboardLook::Cancelled => !is_new(*previous, current) && deadline_passed,
            ClipboardLook::Wait => !is_new(*previous, current) && !deadline_passed,
        }),
{
    if let Some(c) = current {
        let new = match previous {
            None => true,
            Some(p) => !(p.width == c.width && p.height == c.height && same_bytes(
                &p.bytes,
                &c.bytes,
            )),
        };
        if new {
            return match clipboard_frame(c) {
                Some(f) => ClipboardLook::Captured(f),
                None => ClipboardLook::WrongSize,
            };
        }
    }
    if deadline_passed {
        ClipboardLook::Cancelled
    } else {
        ClipboardLook::Wait
    }
}

// ---------------------------------------------------------------------
// Icons
// ---------------------------------------------------------------------

/// The square picture with these pixels, four bytes to each.
pub fn square_frame(pixels: Vec<u8>, size: u32) -> (f: Frame)
    requires
        pixels@.len() == 4 * size * size,
    ensures
        f.wf(),
        f.width == size,
        f.height == size,
        f.pixels@ == pixels@,
{
    Frame { width: size, height: size, pixels }
}

/// The icon of the given size that is made of the logo's picture file, or
/// why the file cannot be read. How the pixels come out of the scaling is
/// left to the scaling.
pub fn tray_icon(logo: &Vec<u8>, size: u32) -> (r: Result<Frame, String>)
    requires
        size <= 0xffff,
        4 * size * size <= usize::MAX,
    ensures
        (match r {
            Ok(f) => picture_calls::picture_complaint(logo@) is None && f.wf() && f.width == size
                && f.height == size,
            Err(e) => picture_calls::picture_complaint(logo@) == Some(e@),
        }),
{
    match scaled_square(logo, size) {
        Ok(pixels) => Ok(square_frame(pixels, size)),
        Err(e) => Err(e),
    }
}

// ---------------------------------------------------------------------
// Where each pixel comes from
// ---------------------------------------------------------------------

proof fn lemma_shown_byte(raw: &RawFrame, n: nat, y: int, i: int)
    requires
        0 <= y < n,
        0 <= i < 4 * raw.width,
    ensures
        0 <= 4 * raw.width * y + i < raw.shown_rows(n).len(),
        raw.shown_rows(n)[4 * raw.width * y + i] == raw.shown_row(y)[i],
    decreases n,
{
    let w = raw.width as int;
    raw.lemma_shown_rows_len((n - 1) as nat);
    raw.lemma_shown_rows_len(n);
    assert(0 <= 4 * w * y) by (nonlinear_arith)
        requires
            0 <= w,
            0 <= y,
    ;
    assert(4 * w * n == 4 * w * (n - 1) + 4 * w) by (nonlinear_arith);
    if y < n - 1 {
        lemma_shown_byte(raw, (n - 1) as nat, y, i);
        assert(4 * w * y + 4 * w <= 4 * w * (n - 1)) by (nonlinear_arith)
            requires
                0 <= w,
                0 <= y < n - 1,
        ;
    }
}

/// Each pixel of a delivered row stays in its place: the pixel in column `x`
/// of row `y` has the channels of the four bytes that were delivered for it,
/// put in the order red, green, blue, alpha. A layout without alpha is shown
/// opaque; a row that was not delivered whole is shown transparent black.
/// `None` is answered if and only if a delivered pixel's layout is not
/// understood.
pub proof fn law_pixels_stay_in_place(raw: &RawFrame, r: Option<Frame>, x: int, y: int)
    requires
        4 * raw.width * raw.height <= usize::MAX,
        call_ensures(RawFrame::to_rgba, (raw,), r),
        0 <= x < raw.width,
        0 <= y < raw.height,
    ensures
        r is None <==> raw.format == PixelFormat::Other && 4 * raw.width <= raw.bytes@.len(),
        r matches Some(f) ==> {
            let stride = if raw.stride > 0 {
                raw.stride as int
            } else {
                4 * raw.width
            };
            let from = y * stride + 4 * x;
            let to = 4 * (y * raw.width + x);
            let b = raw.bytes@;
            let p = f.pixels@;
            &&& f.width == raw.width
            &&& f.height == raw.height
            &&& p.len() == 4 * raw.width * raw.height
            &&& 0 <= to && to + 4 <= p.len()
            &&& y * stride + 4 * raw.width <= b.len() ==> (match raw.format {
                PixelFormat::Bgrx => p[to] == b[from + 2] && p[to + 1] == b[from + 1] && p[to + 2]
                    == b[from] && p[to + 3] == 255,
                PixelFormat::Bgra => p[to] == b[from + 2] && p[to + 1] == b[from + 1] && p[to + 2]
                    == b[from] && p[to + 3] == b[from + 3],
                PixelFormat::Rgbx => p[to] == b[from] && p[to + 1] == b[from + 1] && p[to + 2]
                    == b[from + 2] && p[to + 3] == 255,
                PixelFormat::Rgba => p[to] == b[from] && p[to + 1] == b[from + 1] && p[to + 2]
                    == b[from + 2] && p[to + 3] == b[from + 3],
                PixelFormat::Other => true,
            })
            &&& y * stride + 4 * raw.width > b.len() ==> p[to] == 0 && p[to + 1] == 0 && p[to + 2]
                == 0 && p[to + 3] == 0
        },
{
    let w = raw.width as int;
    let stride = raw.row_stride();
    assert(0 * stride == 0) by (nonlinear_arith);
    if let Some(f) = r {
        raw.lemma_shown_rows_len(raw.height as nat);
        assert(4 * w * y == 4 * (y * w)) by (nonlinear_arith);
        lemma_shown_byte(raw, raw.height as nat, y, 4 * x);
        lemma_shown_byte(raw, raw.height as nat, y, 4 * x + 1);
        lemma_shown_byte(raw, raw.height as nat, y, 4 * x + 2);
        lemma_shown_byte(raw, raw.height as nat, y, 4 * x + 3);
    }
}

proof fn lemma_touching_rows(raw: &RawFrame, n: nat)
    requires
        raw.format == PixelFormat::Rgba,
        raw.stride == 0 || raw.stride == 4 * raw.width,
        4 * raw.width * n <= raw.bytes@.len(),
    ensures
        raw.shown_rows(n) == raw.bytes@.take(4 * raw.width * n),
    decreases n,
{
    let w = raw.width as int;
    assert(0 <= 4 * w * n) by (nonlinear_arith)
        requires
            0 <= w,
            0 <= n,
    ;
    if n == 0 {
        assert(4 * w * n == 0) by (nonlinear_arith)
            requires
                n == 0,
        ;
    } else {
        assert(4 * w * n == 4 * w * (n - 1) + 4 * w) by (nonlinear_arith);
        assert(0 <= 4 * w * (n - 1)) by (nonlinear_arith)
            requires
                0 <= w,
                n >= 1,
        ;
        lemma_touching_rows(raw, (n - 1) as nat);
        assert((n - 1) * (4 * w) == 4 * w * (n - 1)) by (nonlinear_arith);
        assert(raw.row_stride() == 4 * w);
        let row = raw.shown_row(n - 1);
        assert(row == raw.bytes@.subrange(4 * w * (n - 1), 4 * w * n));
        assert(raw.bytes@.take(4 * w * (n - 1)) + row == raw.bytes@.take(4 * w * n));
    }
}

/// A frame that was delivered in red, green, blue, alpha, with rows that
/// touch, comes out byte for byte as it was delivered.
pub proof fn law_plain_frame_is_kept(raw: &RawFrame, r: Option<Frame>)
    requires
        4 * raw.width * raw.height <= usize::MAX,
        call_ensures(RawFrame::to_rgba, (raw,), r),
        raw.format == PixelFormat::Rgba,
        raw.stride == 0 || raw.stride == 4 * raw.width,
        4 * raw.width * raw.height <= raw.bytes@.len(),
    ensures
        r matches Some(f) && f.pixels@ == raw.bytes@.take(4 * raw.width * raw.height),
{
    lemma_touching_rows(raw, raw.height as nat);
}

/// Of a stream's buffer the part that was filled is kept, from its start.
pub proof fn law_filled_part_is_kept(
    format: PixelFormat,
    width: u32,
    height: u32,
    filled: u32,
    stride: i32,
    buffer: Vec<u8>,
    r: Option<RawFrame>,
)
    requires
        call_ensures(received, (format, width, height, filled, stride, buffer), r),
    ensures
        r is Some <==> filled > 0 && buffer@.len() > 0 && width > 0 && height > 0,
        r matches Some(f) ==> {
            &&& f.format == format
            &&& f.width == width
            &&& f.height == height
            &&& stride > 0 ==> f.stride == stride
            &&& stride <= 0 ==> f.stride == 0
            &&& filled <= buffer@.len() ==> f.bytes@.len() == filled
            &&& filled > buffer@.len() ==> f.bytes@.len() == buffer@.len()
            &&& forall|i: int| 0 <= i < f.bytes@.len() ==> #[trigger] f.bytes@[i] == buffer@[i]
        },
{
}

proof fn lemma_cut_byte(
    pixels: Seq<u8>,
    width: int,
    height: int,
    x: int,
    y: int,
    w: int,
    n: nat,
    j: int,
    i: int,
)
    requires
        pixels.len() == 4 * width * height,
        0 <= x,
        0 <= y,
        0 <= w,
        x + w <= width,
        y + n <= height,
        0 <= j < n,
        0 <= i < 4 * w,
    ensures
        picture_calls::cut_rows(pixels, width, x, y, w, n).len() == 4 * w * n,
        0 <= 4 * w * j + i < 4 * w * n,
        picture_calls::cut_rows(pixels, width, x, y, w, n)[4 * w * j + i] == pixels[4 * ((y + j)
            * width + x) + i],
    decreases n,
{
    let row = y + n - 1;
    assert(0 <= row * width && row * width + width <= height * width) by (nonlinear_arith)
        requires
            0 <= row < height,
            0 <= width,
    ;
    assert(4 * width * height == 4 * (height * width)) by (nonlinear_arith);
    assert(4 * w * n == 4 * w * (n - 1) + 4 * w) by (nonlinear_arith);
    assert(0 <= 4 * w * j && 4 * w * j + 4 * w <= 4 * w * n) by (nonlinear_arith)
        requires
            0 <= w,
            0 <= j < n,
    ;
    if n == 1 {
        assert(4 * w * (n - 1) == 0) by (nonlinear_arith)
            requires
                n == 1,
        ;
        assert(4 * w * j == 0) by (nonlinear_arith)
            requires
                j == 0,
        ;
        assert(picture_calls::cut_rows(pixels, width, x, y, w, 0) == Seq::<u8>::empty());
    } else {
        let last: int = if j < n - 1 { j } else { 0 };
        lemma_cut_byte(pixels, width, height, x, y, w, (n - 1) as nat, last, i);
        if j < n - 1 {
            assert(4 * w * j + 4 * w <= 4 * w * (n - 1)) by (nonlinear_arith)
                requires
                    0 <= w,
                    0 <= j < n - 1,
            ;
        }
    }
}

/// A crop begins at the corner asked for, or at the picture's last column or
/// row where the corner lies outside; it is as large as asked for, or reaches
/// to the edge. Each of its pixels is the picture's pixel in that place.
pub proof fn law_crop_shows_the_region(
    frame: &Frame,
    x: u32,
    y: u32,
    w: u32,
    h: u32,
    r: Frame,
    i: int,
    j: int,
    k: int,
)
    requires
        frame.wf(),
        call_ensures(crop_frame, (frame, x, y, w, h), r),
        frame.width > 0,
        frame.height > 0,
        0 <= i < r.width,
        0 <= j < r.height,
        0 <= k < 4,
    ensures
        ({
            let left = if x < frame.width { x as int } else { frame.width - 1 };
            let top = if y < frame.height { y as int } else { frame.height - 1 };
            &&& r.width == (if left + w <= frame.width { w as int } else { frame.width - left })
            &&& r.height == (if top + h <= frame.height { h as int } else { frame.height - top })
            &&& r.pixels@.len() == 4 * r.width * r.height
            &&& r.pixels@[4 * (j * r.width + i) + k] == frame.pixels@[4 * ((top + j) * frame.width
                + left + i) + k]
        }),
{
    let c = clamped_region(
        frame.width as int,
        frame.height as int,
        (x as int, y as int, w as int, h as int),
    );
    lemma_cut_byte(
        frame.pixels@,
        frame.width as int,
        frame.height as int,
        c.0,
        c.1,
        c.2,
        c.3 as nat,
        j,
        4 * i + k,
    );
    assert(4 * r.width * j == 4 * (j * r.width)) by (nonlinear_arith);
}

/// A crop's size does not depend on what the picture shows.
pub proof fn law_crop_size(frame: &Frame, x: u32, y: u32, w: u32, h: u32, r: Frame)
    requires
        frame.wf(),
        call_ensures(crop_frame, (frame, x, y, w, h), r),
    ensures
        r.wf(),
        frame.width > 0 && x + w <= frame.width && x < frame.width ==> r.width == w,
        frame.height > 0 && y + h <= frame.height && y < frame.height ==> r.height == h,
        frame.width > 0 && x < frame.width && x + w > frame.width ==> r.width == frame.width - x,
        frame.height > 0 && y < frame.height && y + h > frame.height ==> r.height == frame.height
            - y,
        frame.width > 0 && x >= frame.width ==> r.width == (if w == 0 { 0int } else { 1int }),
        frame.height > 0 && y >= frame.height ==> r.height == (if h == 0 { 0int } else { 1int }),
        frame.width == 0 ==> r.width == 0,
        frame.height == 0 ==> r.height == 0,
{
}

/// A clipboard picture with enough bytes for its size becomes a frame of
/// that size with those bytes; one with fewer becomes none. Of a length only
/// the lowest 32 bits count.
pub proof fn law_clipboard_picture_is_kept(image: ClipboardImage, r: Option<Frame>)
    requires
        call_ensures(clipboard_frame, (image,), r),
    ensures
        ({
            let width = image.width as int % 0x1_0000_0000;
            let height = image.height as int % 0x1_0000_0000;
            &&& r is Some <==> 4 * width * height <= image.bytes@.len()
            &&& r matches Some(f) ==> f.width == width && f.height == height && f.pixels@
                == image.bytes@.take(4 * width * height)
        }),
{
}

/// A picture is taken from the clipboard if it differs in size or bytes from
/// the one that was there before, and is then looked at as it is; else the
/// wait goes on until the time is over.
pub proof fn law_only_another_picture_is_taken(
    previous: &Option<ClipboardImage>,
    current: Option<ClipboardImage>,
    deadline_passed: bool,
    r: ClipboardLook,
)
    requires
        call_ensures(look_at_clipboard, (previous, current, deadline_passed), r),
    ensures
        ({
            let other = current is Some && (*previous is None || previous->0.width
                != current->0.width || previous->0.height != current->0.height
                || previous->0.bytes@ != current->0.bytes@);
            &&& r is Captured || r is WrongSize <==> other
            &&& !other && deadline_passed ==> r is Cancelled
            &&& !other && !deadline_passed ==> r is Wait
            &&& other ==> {
                let c = current->0;
                let width = c.width as int % 0x1_0000_0000;
                let height = c.height as int % 0x1_0000_0000;
                &&& r is Captured <==> 4 * width * height <= c.bytes@.len()
                &&& r matches ClipboardLook::Captured(f) ==> f.width == width && f.height == height
                    && f.pixels@ == c.bytes@.take(4 * width * height)
            }
        }),
{
}

/// A square picture has the pixels that it was made of.
pub proof fn law_square_picture(pixels: Vec<u8>, size: u32, f: Frame)
    requires
        pixels@.len() == 4 * size * size,
        call_ensures(square_frame, (pixels, size), f),
    ensures
        f.width == size,
        f.height == size,
        f.pixels@ == pixels@,
{
}

/// An icon has the size asked for; a logo that cannot be read is reported
/// with the reader's complaint.
pub proof fn law_icon(logo: &Vec<u8>, size: u32, r: Result<Frame, String>)
    requires
        size <= 0xffff,
        4 * size * size <= usize::MAX,
        call_ensures(tray_icon, (logo, size), r),
    ensures
        r matches Ok(f) ==> f.width == size && f.height == size && f.pixels@.len() == 4 * size
            * size,
        picture_calls::picture_complaint(logo@) matches Some(e) ==> (r matches Err(s) && s@ == e),
        picture_calls::picture_complaint(logo@) is None ==> r is Ok,
{
}

} // verus!
