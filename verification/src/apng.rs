//! Animated PNG decoding: every frame of an APNG composited onto a full
//! RGBA canvas, following each frame's blend and dispose operations.
use vstd::prelude::*;

use base64::Engine;
use vstd::string::StringExecFns;
use crate::text::{decimal, decimal_string};
use crate::png_reader::{
    png_buffer_size_after, png_frame_after, png_header_after, png_info, png_next_frame, png_open,
    png_open_error, png_output_buffer_size, FrameControlData, FrameOutput,
};

verus! {

/// Decoded APNG metadata returned alongside the frames.
#[derive(Debug)]
pub struct ApngInfo {
    pub width: u32,
    pub height: u32,
    /// Each entry is a base64-encoded raw RGBA pixel buffer (full canvas size).
    pub frames: Vec<String>,
}

/// Bounding rectangle of an APNG subframe within the canvas.
#[derive(Clone, Copy, Debug, PartialEq, Eq, Structural)]
pub struct FrameRect {
    pub x: u32,
    pub y: u32,
    pub w: u32,
    pub h: u32,
}

/// How a subframe is combined with the canvas.
#[derive(Clone, Copy, Debug, PartialEq, Eq, Structural)]
pub enum BlendOp {
    /// The subframe's pixels replace the canvas's.
    Source,
    /// The subframe's pixels are alpha-blended over the canvas's.
    Over,
}

/// What happens to the subframe's area before the next frame.
#[derive(Clone, Copy, Debug, PartialEq, Eq, Structural)]
pub enum DisposeOp {
    /// The canvas is kept as it is.
    Keep,
    /// The subframe's area is cleared to transparent black.
    Background,
    /// The canvas goes back to what it was before the frame.
    Previous,
}

/// The sample layout of a decoded frame (8 bits per sample).
#[derive(Clone, Copy, Debug, PartialEq, Eq, Structural)]
pub enum ColorType {
    Grayscale,
    Rgb,
    Indexed,
    GrayscaleAlpha,
    Rgba,
}

/// Why a frame's pixels could not be turned into RGBA.
#[derive(Clone, Copy, Debug, PartialEq, Eq, Structural)]
pub enum RgbaError {
    /// Palette images are not supported.
    IndexedUnsupported,
    /// The conversion produced `produced` bytes where the frame needs `expected`.
    LengthMismatch { produced: usize, expected: u128 },
}

/// One RGBA pixel.
#[derive(Clone, Copy, Debug, PartialEq, Eq, Structural)]
pub struct Rgba {
    pub r: u8,
    pub g: u8,
    pub b: u8,
    pub a: u8,
}

/// The pixel stored at byte offset `i`.
pub open spec fn px_at(s: Seq<u8>, i: int) -> Rgba {
    Rgba { r: s[i], g: s[i + 1], b: s[i + 2], a: s[i + 3] }
}

/// `s` with the pixel at byte offset `i` replaced.
pub open spec fn write_px(s: Seq<u8>, i: int, p: Rgba) -> Seq<u8> {
    s.update(i, p.r).update(i + 1, p.g).update(i + 2, p.b).update(i + 3, p.a)
}

/// Grayscale samples widened to RGBA, opaque.
pub open spec fn expand_gray(b: Seq<u8>) -> Seq<u8> {
    Seq::new(b.len() * 4, |p: int| if p % 4 < 3 { b[p / 4] } else { 255u8 })
}

/// Grayscale-alpha sample pairs widened to RGBA.
pub open spec fn expand_gray_alpha(b: Seq<u8>) -> Seq<u8> {
    Seq::new(
        (b.len() / 2) * 4,
        |p: int|
            if p % 4 < 3 {
                b[(p / 4) * 2]
            } else {
                b[(p / 4) * 2 + 1]
            },
    )
}

/// RGB triples made opaque; a trailing partial triple keeps its bytes and gets an alpha.
pub open spec fn expand_rgb(b: Seq<u8>) -> Seq<u8> {
    let full = b.len() / 3;
    Seq::new(full * 4, |p: int| if p % 4 < 3 { b[(p / 4) * 3 + p % 4] } else { 255u8 }) + (if b.len()
        % 3 == 0 {
        Seq::<u8>::empty()
    } else {
        b.subrange((full * 3) as int, b.len() as int).push(255u8)
    })
}

/// The bytes a frame's samples become in RGBA.
pub open spec fn spec_expand(b: Seq<u8>, color: ColorType) -> Seq<u8> {
    match color {
        ColorType::Rgba => b,
        ColorType::Rgb => expand_rgb(b),
        ColorType::GrayscaleAlpha => expand_gray_alpha(b),
        ColorType::Grayscale => expand_gray(b),
        ColorType::Indexed => Seq::<u8>::empty(),
    }
}

/// The RGBA conversion of a `width` x `height` frame.
pub open spec fn spec_to_rgba(b: Seq<u8>, color: ColorType, width: u32, height: u32) -> Result<
    Seq<u8>,
    RgbaError,
> {
    if color == ColorType::Indexed {
        Err(RgbaError::IndexedUnsupported)
    } else {
        let out = spec_expand(b, color);
        if out.len() == width * height * 4 {
            Ok(out)
        } else {
            Err(
                RgbaError::LengthMismatch {
                    produced: out.len() as usize,
                    expected: (width * height * 4) as u128,
                },
            )
        }
    }
}

/// The conversion reads a sample pair for every grayscale-alpha pixel.
pub open spec fn rgba_input_ok(b: Seq<u8>, color: ColorType) -> bool {
    color == ColorType::GrayscaleAlpha ==> b.len() % 2 == 0
}

/// Pixel `i` of a packed RGBA buffer.
pub open spec fn pixel(s: Seq<u8>, i: int) -> Rgba {
    px_at(s, 4 * i)
}

/// What the RGBA conversion gives, pixel by pixel: RGBA samples are kept;
/// pixel `i` of RGB input is the `i`-th triple made opaque; of grayscale-alpha
/// input, the `i`-th gray sample repeated three times with the `i`-th alpha;
/// of grayscale input, the `i`-th sample repeated three times, opaque.
/// Palette input is refused, and an accepted result is a whole
/// `width` x `height` frame.
pub proof fn lemma_rgba_pixels(b: Seq<u8>, color: ColorType, width: u32, height: u32)
    ensures
        color == ColorType::Indexed ==> spec_to_rgba(b, color, width, height) == Err::<Seq<u8>, RgbaError>(
            RgbaError::IndexedUnsupported,
        ),
        spec_to_rgba(b, color, width, height) matches Ok(out) ==> out.len() == width * height * 4,
        color == ColorType::Rgba && b.len() == width * height * 4 ==> spec_to_rgba(b, color, width, height)
            == Ok::<Seq<u8>, RgbaError>(b),
        color == ColorType::Rgb ==> (spec_to_rgba(b, color, width, height) matches Ok(out) ==> forall|i: int|
            0 <= i < b.len() / 3 ==> #[trigger] pixel(out, i) == (Rgba {
                r: b[3 * i],
                g: b[3 * i + 1],
                b: b[3 * i + 2],
                a: 255,
            })),
        color == ColorType::GrayscaleAlpha ==> (spec_to_rgba(b, color, width, height) matches Ok(out)
            ==> out.len() == (b.len() / 2) * 4 && forall|i: int|
            0 <= i < b.len() / 2 ==> #[trigger] pixel(out, i) == (Rgba {
                r: b[2 * i],
                g: b[2 * i],
                b: b[2 * i],
                a: b[2 * i + 1],
            })),
        color == ColorType::Grayscale ==> (spec_to_rgba(b, color, width, height) matches Ok(out)
            ==> out.len() == b.len() * 4 && forall|i: int|
            0 <= i < b.len() ==> #[trigger] pixel(out, i) == (Rgba { r: b[i], g: b[i], b: b[i], a: 255 })),
{
    if spec_to_rgba(b, color, width, height) is Ok {
        let out = spec_to_rgba(b, color, width, height)->Ok_0;
        if color == ColorType::Rgb {
            let full = b.len() / 3;
            assert forall|i: int| 0 <= i < full implies #[trigger] pixel(out, i) == (Rgba {
                r: b[3 * i],
                g: b[3 * i + 1],
                b: b[3 * i + 2],
                a: 255,
            }) by {
                lemma_quad_index(i);
                assert(0 <= 4 * i + 3 < full * 4) by (nonlinear_arith)
                    requires
                        0 <= i < full,
                ;
            }
        } else if color == ColorType::GrayscaleAlpha {
            assert forall|i: int| 0 <= i < b.len() / 2 implies #[trigger] pixel(out, i) == (Rgba {
                r: b[2 * i],
                g: b[2 * i],
                b: b[2 * i],
                a: b[2 * i + 1],
            }) by {
                lemma_quad_index(i);
                assert(0 <= 4 * i + 3 < (b.len() / 2) * 4) by (nonlinear_arith)
                    requires
                        0 <= i < b.len() / 2,
                ;
            }
        } else if color == ColorType::Grayscale {
            assert forall|i: int| 0 <= i < b.len() implies #[trigger] pixel(out, i) == (Rgba {
                r: b[i],
                g: b[i],
                b: b[i],
                a: 255,
            }) by {
                lemma_quad_index(i);
            }
        }
    }
}

/// The four byte offsets of pixel `i` lie in the `i`-th group of four.
proof fn lemma_quad_index(i: int)
    ensures
        forall|k: int| 0 <= k < 4 ==> #[trigger] ((4 * i + k) / 4) == i && (4 * i + k) % 4 == k,
{
    assert forall|k: int| 0 <= k < 4 implies #[trigger] ((4 * i + k) / 4) == i && (4 * i + k) % 4 == k by {
        vstd::arithmetic::div_mod::lemma_div_multiples_vanish_fancy(i, k, 4);
        vstd::arithmetic::div_mod::lemma_mod_multiples_vanish(i, k, 4);
        vstd::arithmetic::div_mod::lemma_small_mod(k as nat, 4);
    }
}

/// Convert raw pixel bytes of any 8-bit PNG colour type to packed RGBA.
pub fn to_rgba(bytes: &[u8], color_type: ColorType, width: u32, height: u32) -> (r: Result<
    Vec<u8>,
    RgbaError,
>)
    requires
        rgba_input_ok(bytes@, color_type),
    ensures
        match r {
            Ok(v) => spec_to_rgba(bytes@, color_type, width, height) == Ok::<Seq<u8>, RgbaError>(
                v@,
            ),
            Err(e) => spec_to_rgba(bytes@, color_type, width, height) == Err::<Seq<u8>, RgbaError>(
                e,
            ),
        },
{
    let n = bytes.len();
    let mut out: Vec<u8> = Vec::new();
    match color_type {
        ColorType::Rgba => {
            let mut i: usize = 0;
            while i < n
                invariant
                    n == bytes@.len(),
                    i <= n,
                    out@ == bytes@.subrange(0, i as int),
                decreases n - i,
            {
                out.push(bytes[i]);
                i = i + 1;
                assert(out@ =~= bytes@.subrange(0, i as int));
            }
            assert(out@ =~= bytes@);
        },
        ColorType::Rgb => {
            let full = n / 3;
            let mut c: usize = 0;
            while c < full
                invariant
                    n == bytes@.len(),
                    full == n / 3,
                    c <= full,
                    out@ =~= Seq::new(
                        (c * 4) as nat,
                        |p: int|
                            if p % 4 < 3 {
                                bytes@[(p / 4) * 3 + p % 4]
                            } else {
                                255u8
                            },
                    ),
                decreases full - c,
            {
                let ghost prev = out@;
                out.push(bytes[3 * c]);
                out.push(bytes[3 * c + 1]);
                out.push(bytes[3 * c + 2]);
                out.push(255u8);
                c = c + 1;
            }
            if n % 3 != 0 {
                let mut i: usize = 3 * full;
                let ghost base = out@;
                while i < n
                    invariant
                        n == bytes@.len(),
                        3 * full <= i <= n,
                        full == n / 3,
                        out@ == base + bytes@.subrange(3 * full as int, i as int),
                    decreases n - i,
                {
                    out.push(bytes[i]);
                    i = i + 1;
                    assert(out@ =~= base + bytes@.subrange(3 * full as int, i as int));
                }
                out.push(255u8);
            }
            assert(out@ =~= expand_rgb(bytes@));
        },
        ColorType::GrayscaleAlpha => {
            let pairs = n / 2;
            let mut c: usize = 0;
            while c < pairs
                invariant
                    n == bytes@.len(),
                    pairs == n / 2,
                    c <= pairs,
                    out@ =~= Seq::new(
                        (c * 4) as nat,
                        |p: int|
                            if p % 4 < 3 {
                                bytes@[(p / 4) * 2]
                            } else {
                                bytes@[(p / 4) * 2 + 1]
                            },
                    ),
                decreases pairs - c,
            {
                let v = bytes[2 * c];
                let alpha = bytes[2 * c + 1];
                out.push(v);
                out.push(v);
                out.push(v);
                out.push(alpha);
                c = c + 1;
            }
            assert(out@ =~= expand_gray_alpha(bytes@));
        },
        ColorType::Grayscale => {
            let mut c: usize = 0;
            while c < n
                invariant
                    n == bytes@.len(),
                    c <= n,
                    out@ =~= Seq::new(
                        (c * 4) as nat,
                        |p: int|
                            if p % 4 < 3 {
                                bytes@[p / 4]
                            } else {
                                255u8
                            },
                    ),
                decreases n - c,
            {
                let v = bytes[c];
                out.push(v);
                out.push(v);
                out.push(v);
                out.push(255u8);
                c = c + 1;
            }
            assert(out@ =~= expand_gray(bytes@));
        },
        ColorType::Indexed => {
            return Err(RgbaError::IndexedUnsupported);
        },
    }
    proof {
        let (w, h) = (width as int, height as int);
        assert(w * h <= 0xffff_ffff * 0xffff_ffff) by (nonlinear_arith)
            requires
                0 <= w <= 0xffff_ffff,
                0 <= h <= 0xffff_ffff,
        ;
    }
    let expected: u128 = (width as u128) * (height as u128) * 4;
    if out.len() as u128 != expected {
        return Err(RgbaError::LengthMismatch { produced: out.len(), expected });
    }
    Ok(out)
}

/// Byte offset of subframe pixel (`row`, `col`) within the subframe's RGBA buffer.
pub open spec fn src_offset(rect: FrameRect, row: int, col: int) -> int {
    (row * rect.w + col) * 4
}

/// Byte offset of subframe pixel (`row`, `col`) within a canvas `canvas_width` pixels wide.
pub open spec fn canvas_offset(rect: FrameRect, canvas_width: u32, row: int, col: int) -> int {
    ((rect.y + row) * canvas_width + (rect.x + col)) * 4
}

/// Fill one subframe pixel of the canvas, when it lies within the canvas buffer.
pub open spec fn fill_pixel(c: Seq<u8>, rect: FrameRect, cw: u32, px: Rgba, row: int, col: int) -> Seq<u8> {
    let i = canvas_offset(rect, cw, row, col);
    if i + 4 <= c.len() {
        write_px(c, i, px)
    } else {
        c
    }
}

/// The first `n` pixels of subframe row `row` filled, left to right.
pub open spec fn fill_cols(c: Seq<u8>, rect: FrameRect, cw: u32, px: Rgba, row: int, n: nat) -> Seq<u8>
    decreases n,
{
    if n == 0 {
        c
    } else {
        fill_pixel(fill_cols(c, rect, cw, px, row, (n - 1) as nat), rect, cw, px, row, n - 1)
    }
}

/// The first `n` subframe rows filled, top to bottom.
pub open spec fn fill_rows(c: Seq<u8>, rect: FrameRect, cw: u32, px: Rgba, n: nat) -> Seq<u8>
    decreases n,
{
    if n == 0 {
        c
    } else {
        fill_cols(fill_rows(c, rect, cw, px, (n - 1) as nat), rect, cw, px, n - 1, rect.w as nat)
    }
}

/// The canvas with every pixel of the rectangle that lies within it set to `px`.
pub open spec fn spec_fill_rect(c: Seq<u8>, rect: FrameRect, cw: u32, px: Rgba) -> Seq<u8> {
    fill_rows(c, rect, cw, px, rect.h as nat)
}

/// The result of the "over" blend for a subframe pixel `s` on a canvas pixel `d`.
pub open spec fn over_result<F: Fn(Rgba, Rgba) -> Rgba>(over: F, s: Rgba, d: Rgba) -> Rgba {
    choose|r: Rgba| call_ensures(over, (s, d), r)
}

/// The blend function may be called on any pixels and gives one answer for each.
pub open spec fn deterministic_blend<F: Fn(Rgba, Rgba) -> Rgba>(over: F) -> bool {
    &&& forall|s: Rgba, d: Rgba| call_requires(over, (s, d))
    &&& forall|s: Rgba, d: Rgba, r1: Rgba, r2: Rgba|
        #![trigger call_ensures(over, (s, d), r1), call_ensures(over, (s, d), r2)]
        call_ensures(over, (s, d), r1) && call_ensures(over, (s, d), r2) ==> r1 == r2
}

/// Composite one subframe pixel onto the canvas, when both its source bytes
/// and its canvas bytes are within their buffers.
pub open spec fn composite_pixel<F: Fn(Rgba, Rgba) -> Rgba>(
    dst: Seq<u8>,
    src: Seq<u8>,
    rect: FrameRect,
    cw: u32,
    blend: BlendOp,
    over: F,
    row: int,
    col: int,
) -> Seq<u8> {
    let si = src_offset(rect, row, col);
    let di = canvas_offset(rect, cw, row, col);
    if si + 4 > src.len() || di + 4 > dst.len() {
        dst
    } else {
        let s = px_at(src, si);
        let out = match blend {
            BlendOp::Source => s,
            BlendOp::Over => over_result(over, s, px_at(dst, di)),
        };
        write_px(dst, di, out)
    }
}

/// The first `n` pixels of subframe row `row` composited, left to right.
pub open spec fn composite_cols<F: Fn(Rgba, Rgba) -> Rgba>(
    dst: Seq<u8>,
    src: Seq<u8>,
    rect: FrameRect,
    cw: u32,
    blend: BlendOp,
    over: F,
    row: int,
    n: nat,
) -> Seq<u8>
    decreases n,
{
    if n == 0 {
        dst
    } else {
        composite_pixel(
            composite_cols(dst, src, rect, cw, blend, over, row, (n - 1) as nat),
            src,
            rect,
            cw,
            blend,
            over,
            row,
            n - 1,
        )
    }
}

/// The first `n` subframe rows composited, top to bottom.
pub open spec fn composite_rows<F: Fn(Rgba, Rgba) -> Rgba>(
    dst: Seq<u8>,
    src: Seq<u8>,
    rect: FrameRect,
    cw: u32,
    blend: BlendOp,
    over: F,
    n: nat,
) -> Seq<u8>
    decreases n,
{
    if n == 0 {
        dst
    } else {
        composite_cols(
            composite_rows(dst, src, rect, cw, blend, over, (n - 1) as nat),
            src,
            rect,
            cw,
            blend,
            over,
            n - 1,
            rect.w as nat,
        )
    }
}

/// The canvas with the whole subframe composited, pixel by pixel in row-major order.
pub open spec fn spec_composite<F: Fn(Rgba, Rgba) -> Rgba>(
    dst: Seq<u8>,
    src: Seq<u8>,
    rect: FrameRect,
    cw: u32,
    blend: BlendOp,
    over: F,
) -> Seq<u8> {
    composite_rows(dst, src, rect, cw, blend, over, rect.h as nat)
}

proof fn lemma_offsets_fit(rect: FrameRect, cw: u32, row: u32, col: u32)
    ensures
        0 <= src_offset(rect, row as int, col as int) < 0x1_0000_0000_0000_0000_0000,
        0 <= canvas_offset(rect, cw, row as int, col as int) < 0x1_0000_0000_0000_0000_0000,
{
    let (r, c, w, x, y, k) = (row as int, col as int, rect.w as int, rect.x as int, rect.y as int, cw as int);
    assert(0 <= r * w <= 0xffff_ffff * 0xffff_ffff) by (nonlinear_arith)
        requires
            0 <= r <= 0xffff_ffff,
            0 <= w <= 0xffff_ffff,
    ;
    assert(0 <= (y + r) * k <= 0x1_ffff_ffff * 0xffff_ffff) by (nonlinear_arith)
        requires
            0 <= y + r <= 0x1_ffff_ffff,
            0 <= k <= 0xffff_ffff,
    ;
}

/// Fill a rectangular region of the canvas with a constant RGBA value.
pub fn fill_rect(canvas: &mut Vec<u8>, rect: &FrameRect, canvas_width: u32, pixel: Rgba)
    ensures
        final(canvas)@ == spec_fill_rect(old(canvas)@, *rect, canvas_width, pixel),
{
    let ghost orig = canvas@;
    let mut row: u32 = 0;
    while row < rect.h
        invariant
            row <= rect.h,
            canvas@ == fill_rows(orig, *rect, canvas_width, pixel, row as nat),
        decreases rect.h - row,
    {
        let mut col: u32 = 0;
        while col < rect.w
            invariant
                row < rect.h,
                col <= rect.w,
                canvas@ == fill_cols(
                    fill_rows(orig, *rect, canvas_width, pixel, row as nat),
                    *rect,
                    canvas_width,
                    pixel,
                    row as int,
                    col as nat,
                ),
            decreases rect.w - col,
        {
            proof {
                lemma_offsets_fit(*rect, canvas_width, row, col);
            }
            let idx: u128 = (((rect.y as u128) + (row as u128)) * (canvas_width as u128)
                + (rect.x as u128) + (col as u128)) * 4;
            if idx + 4 <= canvas.len() as u128 {
                let i = idx as usize;
                canvas.set(i, pixel.r);
                canvas.set(i + 1, pixel.g);
                canvas.set(i + 2, pixel.b);
                canvas.set(i + 3, pixel.a);
            }
            col = col + 1;
        }
        row = row + 1;
    }
}

/// Composite `src` (a subframe in RGBA) onto `dst` (the full canvas) using the
/// given blend op; `over` blends one subframe pixel over one canvas pixel.
pub fn composite<F: Fn(Rgba, Rgba) -> Rgba>(
    dst: &mut Vec<u8>,
    src: &[u8],
    rect: &FrameRect,
    canvas_width: u32,
    blend_op: BlendOp,
    over: &F,
)
    requires
        deterministic_blend(*over),
    ensures
        final(dst)@ == spec_composite(old(dst)@, src@, *rect, canvas_width, blend_op, *over),
{
    let ghost orig = dst@;
    let mut row: u32 = 0;
    while row < rect.h
        invariant
            row <= rect.h,
            deterministic_blend(*over),
            dst@ == composite_rows(orig, src@, *rect, canvas_width, blend_op, *over, row as nat),
        decreases rect.h - row,
    {
        let mut col: u32 = 0;
        while col < rect.w
            invariant
                row < rect.h,
                col <= rect.w,
                deterministic_blend(*over),
                dst@ == composite_cols(
                    composite_rows(orig, src@, *rect, canvas_width, blend_op, *over, row as nat),
                    src@,
                    *rect,
                    canvas_width,
                    blend_op,
                    *over,
                    row as int,
                    col as nat,
                ),
            decreases rect.w - col,
        {
            proof {
                lemma_offsets_fit(*rect, canvas_width, row, col);
            }
            let src_idx: u128 = ((row as u128) * (rect.w as u128) + (col as u128)) * 4;
            let dst_idx: u128 = (((rect.y as u128) + (row as u128)) * (canvas_width as u128)
                + (rect.x as u128) + (col as u128)) * 4;
            if src_idx + 4 <= src.len() as u128 && dst_idx + 4 <= dst.len() as u128 {
                let si = src_idx as usize;
                let di = dst_idx as usize;
                let s = Rgba { r: src[si], g: src[si + 1], b: src[si + 2], a: src[si + 3] };
                let out = match blend_op {
                    BlendOp::Source => s,
                    BlendOp::Over => {
                        let d = Rgba { r: dst[di], g: dst[di + 1], b: dst[di + 2], a: dst[di + 3] };
                        let blended = over(s, d);
                        proof {
                            assert(call_ensures(*over, (s, d), over_result(*over, s, d)));
                        }
                        blended
                    },
                };
                dst.set(di, out.r);
                dst.set(di + 1, out.g);
                dst.set(di + 2, out.b);
                dst.set(di + 3, out.a);
            }
            col = col + 1;
        }
        row = row + 1;
    }
}

/// One decoded subframe as the decoder hands it over.
#[derive(Debug)]
pub struct RawFrame {
    pub rect: FrameRect,
    pub blend: BlendOp,
    pub dispose: DisposeOp,
    pub color: ColorType,
    /// The subframe's samples, row by row.
    pub bytes: Vec<u8>,
}

/// A subframe as plain values: its area, blend and dispose operations, colour
/// type and samples.
pub struct FrameModel {
    pub rect: FrameRect,
    pub blend: BlendOp,
    pub dispose: DisposeOp,
    pub color: ColorType,
    pub bytes: Seq<u8>,
}

impl View for RawFrame {
    type V = FrameModel;

    open spec fn view(&self) -> FrameModel {
        FrameModel {
            rect: self.rect,
            blend: self.blend,
            dispose: self.dispose,
            color: self.color,
            bytes: self.bytes@,
        }
    }
}

/// The plain values of a list of subframes.
pub open spec fn frame_models(frames: Seq<RawFrame>) -> Seq<FrameModel> {
    frames.map_values(|f: RawFrame| f@)
}

/// Fully transparent black, the colour a disposed area is cleared to.
pub open spec fn transparent() -> Rgba {
    Rgba { r: 0, g: 0, b: 0, a: 0 }
}

/// The canvas after `n` frames, with the composited canvas of each of them,
/// or the first conversion error.
pub open spec fn compose_upto<F: Fn(Rgba, Rgba) -> Rgba>(
    width: u32,
    frames: Seq<FrameModel>,
    canvas0: Seq<u8>,
    over: F,
    n: nat,
) -> Result<(Seq<u8>, Seq<Seq<u8>>), RgbaError>
    decreases n,
{
    if n == 0 {
        Ok((canvas0, Seq::<Seq<u8>>::empty()))
    } else {
        match compose_upto(width, frames, canvas0, over, (n - 1) as nat) {
            Err(e) => Err(e),
            Ok((canvas, outs)) => {
                let f = frames[n - 1];
                match spec_to_rgba(f.bytes, f.color, f.rect.w, f.rect.h) {
                    Err(e) => Err(e),
                    Ok(rgba) => {
                        let painted = spec_composite(canvas, rgba, f.rect, width, f.blend, over);
                        let next = match f.dispose {
                            DisposeOp::Keep => painted,
                            DisposeOp::Background => spec_fill_rect(painted, f.rect, width, transparent()),
                            DisposeOp::Previous => canvas,
                        };
                        Ok((next, outs.push(painted)))
                    },
                }
            },
        }
    }
}

/// An all-zero (transparent black) canvas of `width` x `height` pixels.
pub open spec fn blank_canvas(width: u32, height: u32) -> Seq<u8> {
    Seq::new((width * height * 4) as nat, |i: int| 0u8)
}

/// The composited canvas shown for each frame, starting from a blank canvas.
pub open spec fn spec_compose_frames<F: Fn(Rgba, Rgba) -> Rgba>(
    width: u32,
    height: u32,
    frames: Seq<FrameModel>,
    over: F,
) -> Result<Seq<Seq<u8>>, RgbaError> {
    match compose_upto(width, frames, blank_canvas(width, height), over, frames.len()) {
        Ok((_, outs)) => Ok(outs),
        Err(e) => Err(e),
    }
}

/// The views of a list of buffers.
pub open spec fn views(v: Seq<Vec<u8>>) -> Seq<Seq<u8>> {
    v.map_values(|b: Vec<u8>| b@)
}

/// Composite every frame in turn onto a blank `width` x `height` canvas,
/// applying each frame's dispose operation before the next; returns the
/// canvas shown for each frame.
pub fn compose_frames<F: Fn(Rgba, Rgba) -> Rgba>(
    width: u32,
    height: u32,
    frames: &Vec<RawFrame>,
    over: &F,
) -> (r: Result<Vec<Vec<u8>>, RgbaError>)
    requires
        deterministic_blend(*over),
        width * height * 4 <= usize::MAX,
        forall|i: int| 0 <= i < frames@.len() ==> rgba_input_ok(#[trigger] frames@[i].bytes@, frames@[i].color),
    ensures
        match r {
            Ok(v) => spec_compose_frames(width, height, frame_models(frames@), *over) == Ok::<
                Seq<Seq<u8>>,
                RgbaError,
            >(views(v@)),
            Err(e) => spec_compose_frames(width, height, frame_models(frames@), *over) == Err::<
                Seq<Seq<u8>>,
                RgbaError,
            >(e),
        },
{
    proof {
        let (w, h) = (width as int, height as int);
        assert(0 <= w * h) by (nonlinear_arith)
            requires
                0 <= w,
                0 <= h,
        ;
    }
    let canvas_size: usize = (width as usize) * (height as usize) * 4;
    let mut canvas: Vec<u8> = Vec::new();
    let mut k: usize = 0;
    while k < canvas_size
        invariant
            k <= canvas_size,
            canvas@ =~= Seq::new(k as nat, |i: int| 0u8),
        decreases canvas_size - k,
    {
        canvas.push(0u8);
        k = k + 1;
    }
    assert(canvas@ =~= blank_canvas(width, height));
    let mut outs: Vec<Vec<u8>> = Vec::new();
    assert(views(outs@) =~= Seq::<Seq<u8>>::empty());
    let mut n: usize = 0;
    while n < frames.len()
        invariant
            n <= frames@.len(),
            deterministic_blend(*over),
            forall|i: int| 0 <= i < frames@.len() ==> rgba_input_ok(#[trigger] frames@[i].bytes@, frames@[i].color),
            compose_upto(width, frame_models(frames@), blank_canvas(width, height), *over, n as nat) == Ok::<
                (Seq<u8>, Seq<Seq<u8>>),
                RgbaError,
            >((canvas@, views(outs@))),
        decreases frames@.len() - n,
    {
        let f = &frames[n];
        assert(frame_models(frames@)[n as int] == f@);
        let frame_rgba = match to_rgba(f.bytes.as_slice(), f.color, f.rect.w, f.rect.h) {
            Ok(v) => v,
            Err(e) => {
                assert(spec_compose_frames(width, height, frame_models(frames@), *over) == Err::<
                    Seq<Seq<u8>>,
                    RgbaError,
                >(e)) by {
                    lemma_compose_error_sticks(
                        width,
                        frame_models(frames@),
                        blank_canvas(width, height),
                        *over,
                        (n + 1) as nat,
                        e,
                    );
                }
                return Err(e);
            },
        };
        let previous_canvas = canvas.clone();
        composite(&mut canvas, frame_rgba.as_slice(), &f.rect, width, f.blend, over);
        let mut painted: Vec<u8> = Vec::new();
        let mut j: usize = 0;
        while j < canvas.len()
            invariant
                j <= canvas@.len(),
                painted@ == canvas@.subrange(0, j as int),
            decreases canvas@.len() - j,
        {
            painted.push(canvas[j]);
            j = j + 1;
            assert(painted@ =~= canvas@.subrange(0, j as int));
        }
        assert(painted@ =~= canvas@);
        match f.dispose {
            DisposeOp::Keep => {},
            DisposeOp::Background => {
                fill_rect(&mut canvas, &f.rect, width, Rgba { r: 0, g: 0, b: 0, a: 0 });
            },
            DisposeOp::Previous => {
                canvas = previous_canvas;
            },
        }
        let ghost old_outs = outs@;
        outs.push(painted);
        proof {
            assert(views(outs@) =~= views(old_outs).push(painted@));
        }
        n = n + 1;
    }
    assert(frames@.len() == n);
    Ok(outs)
}

/// After a conversion error, every longer prefix of frames ends in that error.
proof fn lemma_compose_error_sticks<F: Fn(Rgba, Rgba) -> Rgba>(
    width: u32,
    frames: Seq<FrameModel>,
    canvas0: Seq<u8>,
    over: F,
    n: nat,
    e: RgbaError,
)
    requires
        n <= frames.len(),
        compose_upto(width, frames, canvas0, over, n) == Err::<(Seq<u8>, Seq<Seq<u8>>), RgbaError>(e),
    ensures
        compose_upto(width, frames, canvas0, over, frames.len()) == Err::<(Seq<u8>, Seq<Seq<u8>>), RgbaError>(e),
    decreases frames.len() - n,
{
    if n < frames.len() {
        lemma_compose_error_sticks(width, frames, canvas0, over, n + 1, e);
    }
}

proof fn lemma_composite_cols_len<F: Fn(Rgba, Rgba) -> Rgba>(
    dst: Seq<u8>,
    src: Seq<u8>,
    rect: FrameRect,
    cw: u32,
    blend: BlendOp,
    over: F,
    row: int,
    n: nat,
)
    requires
        0 <= row,
    ensures
        composite_cols(dst, src, rect, cw, blend, over, row, n).len() == dst.len(),
    decreases n,
{
    if n > 0 {
        lemma_composite_cols_len(dst, src, rect, cw, blend, over, row, (n - 1) as nat);
        lemma_canvas_offset_nonneg(rect, cw, row, n - 1);
    }
}

proof fn lemma_composite_rows_len<F: Fn(Rgba, Rgba) -> Rgba>(
    dst: Seq<u8>,
    src: Seq<u8>,
    rect: FrameRect,
    cw: u32,
    blend: BlendOp,
    over: F,
    n: nat,
)
    ensures
        composite_rows(dst, src, rect, cw, blend, over, n).len() == dst.len(),
    decreases n,
{
    if n > 0 {
        lemma_composite_rows_len(dst, src, rect, cw, blend, over, (n - 1) as nat);
        lemma_composite_cols_len(
            composite_rows(dst, src, rect, cw, blend, over, (n - 1) as nat),
            src,
            rect,
            cw,
            blend,
            over,
            n - 1,
            rect.w as nat,
        );
    }
}

proof fn lemma_canvas_offset_nonneg(rect: FrameRect, cw: u32, row: int, col: int)
    requires
        0 <= row,
        0 <= col,
    ensures
        0 <= canvas_offset(rect, cw, row, col),
{
    let (y, k) = (rect.y as int, cw as int);
    assert(0 <= (y + row) * k) by (nonlinear_arith)
        requires
            0 <= y + row,
            0 <= k,
    ;
}

proof fn lemma_fill_cols_len(c: Seq<u8>, rect: FrameRect, cw: u32, px: Rgba, row: int, n: nat)
    requires
        0 <= row,
    ensures
        fill_cols(c, rect, cw, px, row, n).len() == c.len(),
    decreases n,
{
    if n > 0 {
        lemma_fill_cols_len(c, rect, cw, px, row, (n - 1) as nat);
        lemma_canvas_offset_nonneg(rect, cw, row, n - 1);
    }
}

proof fn lemma_fill_rows_len(c: Seq<u8>, rect: FrameRect, cw: u32, px: Rgba, n: nat)
    ensures
        fill_rows(c, rect, cw, px, n).len() == c.len(),
    decreases n,
{
    if n > 0 {
        lemma_fill_rows_len(c, rect, cw, px, (n - 1) as nat);
        lemma_fill_cols_len(fill_rows(c, rect, cw, px, (n - 1) as nat), rect, cw, px, n - 1, rect.w as nat);
    }
}

proof fn lemma_compose_upto_len<F: Fn(Rgba, Rgba) -> Rgba>(
    width: u32,
    frames: Seq<FrameModel>,
    canvas0: Seq<u8>,
    over: F,
    n: nat,
)
    ensures
        compose_upto(width, frames, canvas0, over, n) matches Ok((c, outs)) ==> c.len() == canvas0.len()
            && forall|i: int| 0 <= i < outs.len() ==> (#[trigger] outs[i]).len() == canvas0.len(),
    decreases n,
{
    if n > 0 {
        lemma_compose_upto_len(width, frames, canvas0, over, (n - 1) as nat);
        if let Ok((canvas, outs)) = compose_upto(width, frames, canvas0, over, (n - 1) as nat) {
            let f = frames[n - 1];
            if let Ok(rgba) = spec_to_rgba(f.bytes, f.color, f.rect.w, f.rect.h) {
                lemma_composite_rows_len(canvas, rgba, f.rect, width, f.blend, over, f.rect.h as nat);
                let painted = spec_composite(canvas, rgba, f.rect, width, f.blend, over);
                lemma_fill_rows_len(painted, f.rect, width, transparent(), f.rect.h as nat);
            }
        }
    }
}

proof fn lemma_compose_lengths<F: Fn(Rgba, Rgba) -> Rgba>(
    width: u32,
    height: u32,
    frames: Seq<FrameModel>,
    over: F,
    m: int,
)
    requires
        spec_compose_frames(width, height, frames, over) matches Ok(cs) && 0 <= m < cs.len(),
    ensures
        spec_compose_frames(width, height, frames, over) matches Ok(cs) && cs[m].len() == width
            * height * 4,
{
    lemma_compose_upto_len(width, frames, blank_canvas(width, height), over, frames.len());
}

/// Writing a pixel at one 4-aligned offset leaves the pixel at another untouched.
proof fn lemma_write_other_px(c: Seq<u8>, i: int, p: Rgba, off: int)
    requires
        0 <= i,
        i + 4 <= c.len(),
        0 <= off,
        off + 4 <= c.len(),
        off != i,
        i % 4 == 0,
        off % 4 == 0,
    ensures
        px_at(write_px(c, i, p), off) == px_at(c, off),
        write_px(c, i, p).len() == c.len(),
{
}

proof fn lemma_canvas_offset_aligned(rect: FrameRect, cw: u32, row: int, col: int)
    ensures
        canvas_offset(rect, cw, row, col) % 4 == 0,
{
    let a = (rect.y + row) * cw + (rect.x + col);
    assert((a * 4) % 4 == 0) by {
        vstd::arithmetic::div_mod::lemma_mod_multiples_vanish(a, 0, 4);
    }
}

proof fn lemma_fill_cols_keeps(c: Seq<u8>, rect: FrameRect, cw: u32, px: Rgba, row: int, n: nat, off: int)
    requires
        0 <= row,
        0 <= off,
        off + 4 <= c.len(),
        off % 4 == 0,
        px_at(c, off) == px,
    ensures
        px_at(fill_cols(c, rect, cw, px, row, n), off) == px,
    decreases n,
{
    if n > 0 {
        lemma_fill_cols_keeps(c, rect, cw, px, row, (n - 1) as nat, off);
        let prev = fill_cols(c, rect, cw, px, row, (n - 1) as nat);
        lemma_fill_cols_len(c, rect, cw, px, row, (n - 1) as nat);
        lemma_canvas_offset_nonneg(rect, cw, row, n - 1);
        lemma_canvas_offset_aligned(rect, cw, row, n - 1);
        let i = canvas_offset(rect, cw, row, n - 1);
        if i + 4 <= prev.len() && i != off {
            lemma_write_other_px(prev, i, px, off);
        }
    }
}

proof fn lemma_fill_rows_keeps(c: Seq<u8>, rect: FrameRect, cw: u32, px: Rgba, n: nat, off: int)
    requires
        0 <= off,
        off + 4 <= c.len(),
        off % 4 == 0,
        px_at(c, off) == px,
    ensures
        px_at(fill_rows(c, rect, cw, px, n), off) == px,
    decreases n,
{
    if n > 0 {
        lemma_fill_rows_keeps(c, rect, cw, px, (n - 1) as nat, off);
        lemma_fill_rows_len(c, rect, cw, px, (n - 1) as nat);
        lemma_fill_cols_keeps(fill_rows(c, rect, cw, px, (n - 1) as nat), rect, cw, px, n - 1, rect.w as nat, off);
    }
}

proof fn lemma_fill_cols_sets(c: Seq<u8>, rect: FrameRect, cw: u32, px: Rgba, row: int, n: nat, col: int)
    requires
        0 <= row,
        0 <= col < n,
        canvas_offset(rect, cw, row, col) + 4 <= c.len(),
    ensures
        px_at(fill_cols(c, rect, cw, px, row, n), canvas_offset(rect, cw, row, col)) == px,
    decreases n,
{
    let off = canvas_offset(rect, cw, row, col);
    lemma_canvas_offset_nonneg(rect, cw, row, col);
    lemma_canvas_offset_aligned(rect, cw, row, col);
    lemma_fill_cols_len(c, rect, cw, px, row, (n - 1) as nat);
    if col == n - 1 {
    } else {
        lemma_fill_cols_sets(c, rect, cw, px, row, (n - 1) as nat, col);
        let prev = fill_cols(c, rect, cw, px, row, (n - 1) as nat);
        lemma_canvas_offset_nonneg(rect, cw, row, n - 1);
        lemma_canvas_offset_aligned(rect, cw, row, n - 1);
        let i = canvas_offset(rect, cw, row, n - 1);
        if i + 4 <= prev.len() && i != off {
            lemma_write_other_px(prev, i, px, off);
        }
    }
}

proof fn lemma_fill_rows_sets(c: Seq<u8>, rect: FrameRect, cw: u32, px: Rgba, n: nat, row: int, col: int)
    requires
        0 <= row < n,
        0 <= col < rect.w,
        canvas_offset(rect, cw, row, col) + 4 <= c.len(),
    ensures
        px_at(fill_rows(c, rect, cw, px, n), canvas_offset(rect, cw, row, col)) == px,
    decreases n,
{
    let off = canvas_offset(rect, cw, row, col);
    lemma_canvas_offset_nonneg(rect, cw, row, col);
    lemma_canvas_offset_aligned(rect, cw, row, col);
    lemma_fill_rows_len(c, rect, cw, px, (n - 1) as nat);
    let prev = fill_rows(c, rect, cw, px, (n - 1) as nat);
    if row == n - 1 {
        lemma_fill_cols_sets(prev, rect, cw, px, row, rect.w as nat, col);
    } else {
        lemma_fill_rows_sets(c, rect, cw, px, (n - 1) as nat, row, col);
        lemma_fill_cols_keeps(prev, rect, cw, px, n - 1, rect.w as nat, off);
    }
}

/// Filling a rectangle sets every one of its pixels that lies within the
/// canvas buffer, so a disposed area reads as the fill colour.
pub proof fn lemma_fill_rect_sets_every_pixel(
    c: Seq<u8>,
    rect: FrameRect,
    cw: u32,
    px: Rgba,
    row: int,
    col: int,
)
    requires
        0 <= row < rect.h,
        0 <= col < rect.w,
        canvas_offset(rect, cw, row, col) + 4 <= c.len(),
    ensures
        px_at(spec_fill_rect(c, rect, cw, px), canvas_offset(rect, cw, row, col)) == px,
        spec_fill_rect(c, rect, cw, px).len() == c.len(),
{
    lemma_fill_rows_sets(c, rect, cw, px, rect.h as nat, row, col);
    lemma_fill_rows_len(c, rect, cw, px, rect.h as nat);
}

/// Inside a canvas at least as wide as the subframe's right edge, distinct
/// subframe pixels sit at distinct canvas offsets.
proof fn lemma_offsets_distinct(rect: FrameRect, cw: u32, r1: int, c1: int, r2: int, c2: int)
    requires
        rect.x + rect.w <= cw,
        0 <= c1 < rect.w,
        0 <= c2 < rect.w,
        0 <= r1,
        0 <= r2,
        r1 != r2 || c1 != c2,
    ensures
        canvas_offset(rect, cw, r1, c1) != canvas_offset(rect, cw, r2, c2),
{
    let (y, x, k, w) = (rect.y as int, rect.x as int, cw as int, rect.w as int);
    if r1 == r2 {
    } else {
        let (lo, hi) = if r1 < r2 { (r1, r2) } else { (r2, r1) };
        vstd::arithmetic::mul::lemma_mul_inequality(1, hi - lo, k);
        vstd::arithmetic::mul::lemma_mul_is_distributive_sub(k, y + hi, y + lo);
        vstd::arithmetic::mul::lemma_mul_is_commutative(k, y + hi);
        vstd::arithmetic::mul::lemma_mul_is_commutative(k, y + lo);
        vstd::arithmetic::mul::lemma_mul_is_commutative(k, hi - lo);
        assert((y + hi) * k - (y + lo) * k >= k);
    }
}

proof fn lemma_composite_cols_keeps<F: Fn(Rgba, Rgba) -> Rgba>(
    dst: Seq<u8>,
    src: Seq<u8>,
    rect: FrameRect,
    cw: u32,
    over: F,
    row: int,
    n: nat,
    off: int,
)
    requires
        0 <= row,
        0 <= off,
        off + 4 <= dst.len(),
        off % 4 == 0,
        forall|c: int| 0 <= c < n ==> #[trigger] canvas_offset(rect, cw, row, c) != off,
    ensures
        px_at(composite_cols(dst, src, rect, cw, BlendOp::Source, over, row, n), off) == px_at(dst, off),
    decreases n,
{
    if n > 0 {
        lemma_composite_cols_keeps(dst, src, rect, cw, over, row, (n - 1) as nat, off);
        lemma_composite_cols_len(dst, src, rect, cw, BlendOp::Source, over, row, (n - 1) as nat);
        let prev = composite_cols(dst, src, rect, cw, BlendOp::Source, over, row, (n - 1) as nat);
        lemma_canvas_offset_nonneg(rect, cw, row, n - 1);
        lemma_canvas_offset_aligned(rect, cw, row, n - 1);
        let i = canvas_offset(rect, cw, row, n - 1);
        assert(i != off);
        let si = src_offset(rect, row, n - 1);
        if !(si + 4 > src.len() || i + 4 > prev.len()) {
            lemma_write_other_px(prev, i, px_at(src, si), off);
        }
    }
}

proof fn lemma_composite_rows_keeps<F: Fn(Rgba, Rgba) -> Rgba>(
    dst: Seq<u8>,
    src: Seq<u8>,
    rect: FrameRect,
    cw: u32,
    over: F,
    n: nat,
    off: int,
)
    requires
        0 <= off,
        off + 4 <= dst.len(),
        off % 4 == 0,
        forall|r: int, c: int| 0 <= r < n && 0 <= c < rect.w ==> #[trigger] canvas_offset(rect, cw, r, c) != off,
    ensures
        px_at(composite_rows(dst, src, rect, cw, BlendOp::Source, over, n), off) == px_at(dst, off),
    decreases n,
{
    if n > 0 {
        lemma_composite_rows_keeps(dst, src, rect, cw, over, (n - 1) as nat, off);
        lemma_composite_rows_len(dst, src, rect, cw, BlendOp::Source, over, (n - 1) as nat);
        let prev = composite_rows(dst, src, rect, cw, BlendOp::Source, over, (n - 1) as nat);
        assert forall|c: int| 0 <= c < rect.w implies #[trigger] canvas_offset(rect, cw, n - 1, c) != off by {}
        lemma_composite_cols_keeps(prev, src, rect, cw, over, n - 1, rect.w as nat, off);
    }
}

proof fn lemma_composite_cols_sets<F: Fn(Rgba, Rgba) -> Rgba>(
    dst: Seq<u8>,
    src: Seq<u8>,
    rect: FrameRect,
    cw: u32,
    over: F,
    row: int,
    n: nat,
    col: int,
)
    requires
        rect.x + rect.w <= cw,
        0 <= row,
        0 <= col < n <= rect.w,
        src_offset(rect, row, col) + 4 <= src.len(),
        canvas_offset(rect, cw, row, col) + 4 <= dst.len(),
    ensures
        px_at(composite_cols(dst, src, rect, cw, BlendOp::Source, over, row, n), canvas_offset(rect, cw, row, col))
            == px_at(src, src_offset(rect, row, col)),
    decreases n,
{
    let off = canvas_offset(rect, cw, row, col);
    lemma_canvas_offset_nonneg(rect, cw, row, col);
    lemma_canvas_offset_aligned(rect, cw, row, col);
    lemma_composite_cols_len(dst, src, rect, cw, BlendOp::Source, over, row, (n - 1) as nat);
    let prev = composite_cols(dst, src, rect, cw, BlendOp::Source, over, row, (n - 1) as nat);
    if col == n - 1 {
        assert(0 <= src_offset(rect, row, col)) by {
            let (r, w) = (row, rect.w as int);
            assert(0 <= r * w) by (nonlinear_arith)
                requires
                    0 <= r,
                    0 <= w,
            ;
        }
    } else {
        lemma_composite_cols_sets(dst, src, rect, cw, over, row, (n - 1) as nat, col);
        lemma_offsets_distinct(rect, cw, row, n - 1, row, col);
        lemma_canvas_offset_nonneg(rect, cw, row, n - 1);
        lemma_canvas_offset_aligned(rect, cw, row, n - 1);
        let i = canvas_offset(rect, cw, row, n - 1);
        let si = src_offset(rect, row, n - 1);
        if !(si + 4 > src.len() || i + 4 > prev.len()) {
            lemma_write_other_px(prev, i, px_at(src, si), off);
        }
    }
}

proof fn lemma_composite_rows_sets<F: Fn(Rgba, Rgba) -> Rgba>(
    dst: Seq<u8>,
    src: Seq<u8>,
    rect: FrameRect,
    cw: u32,
    over: F,
    n: nat,
    row: int,
    col: int,
)
    requires
        rect.x + rect.w <= cw,
        0 <= row < n,
        0 <= col < rect.w,
        src_offset(rect, row, col) + 4 <= src.len(),
        canvas_offset(rect, cw, row, col) + 4 <= dst.len(),
    ensures
        px_at(composite_rows(dst, src, rect, cw, BlendOp::Source, over, n), canvas_offset(rect, cw, row, col))
            == px_at(src, src_offset(rect, row, col)),
    decreases n,
{
    let off = canvas_offset(rect, cw, row, col);
    lemma_canvas_offset_nonneg(rect, cw, row, col);
    lemma_canvas_offset_aligned(rect, cw, row, col);
    lemma_composite_rows_len(dst, src, rect, cw, BlendOp::Source, over, (n - 1) as nat);
    let prev = composite_rows(dst, src, rect, cw, BlendOp::Source, over, (n - 1) as nat);
    if row == n - 1 {
        lemma_composite_cols_sets(prev, src, rect, cw, over, row, rect.w as nat, col);
    } else {
        lemma_composite_rows_sets(dst, src, rect, cw, over, (n - 1) as nat, row, col);
        assert forall|c: int| 0 <= c < rect.w implies #[trigger] canvas_offset(rect, cw, n - 1, c) != off by {
            lemma_offsets_distinct(rect, cw, n - 1, c, row, col);
        }
        lemma_composite_cols_keeps(prev, src, rect, cw, over, n - 1, rect.w as nat, off);
    }
}

/// With source blending, a subframe that fits the canvas width lands pixel
/// for pixel: each of its pixels that lies within both buffers is copied to
/// its place on the canvas.
pub proof fn lemma_source_blend_copies_subframe<F: Fn(Rgba, Rgba) -> Rgba>(
    dst: Seq<u8>,
    src: Seq<u8>,
    rect: FrameRect,
    cw: u32,
    over: F,
    row: int,
    col: int,
)
    requires
        rect.x + rect.w <= cw,
        0 <= row < rect.h,
        0 <= col < rect.w,
        src_offset(rect, row, col) + 4 <= src.len(),
        canvas_offset(rect, cw, row, col) + 4 <= dst.len(),
    ensures
        px_at(spec_composite(dst, src, rect, cw, BlendOp::Source, over), canvas_offset(rect, cw, row, col))
            == px_at(src, src_offset(rect, row, col)),
{
    lemma_composite_rows_sets(dst, src, rect, cw, over, rect.h as nat, row, col);
}

/// Compositing never touches a canvas pixel outside the subframe's area.
pub proof fn lemma_source_blend_keeps_outside<F: Fn(Rgba, Rgba) -> Rgba>(
    dst: Seq<u8>,
    src: Seq<u8>,
    rect: FrameRect,
    cw: u32,
    over: F,
    off: int,
)
    requires
        0 <= off,
        off + 4 <= dst.len(),
        off % 4 == 0,
        forall|r: int, c: int| 0 <= r < rect.h && 0 <= c < rect.w ==> #[trigger] canvas_offset(rect, cw, r, c) != off,
    ensures
        px_at(spec_composite(dst, src, rect, cw, BlendOp::Source, over), off) == px_at(dst, off),
{
    lemma_composite_rows_keeps(dst, src, rect, cw, over, rect.h as nat, off);
}

/// Disposing a frame to "previous" hands the next frame the canvas the
/// disposed frame started from.
pub proof fn lemma_dispose_previous_restores<F: Fn(Rgba, Rgba) -> Rgba>(
    width: u32,
    frames: Seq<FrameModel>,
    canvas0: Seq<u8>,
    over: F,
    n: nat,
)
    requires
        0 < n <= frames.len(),
        frames[n - 1].dispose == DisposeOp::Previous,
        compose_upto(width, frames, canvas0, over, n) is Ok,
    ensures
        compose_upto(width, frames, canvas0, over, (n - 1) as nat) is Ok,
        compose_upto(width, frames, canvas0, over, n)->Ok_0.0 == compose_upto(
            width,
            frames,
            canvas0,
            over,
            (n - 1) as nat,
        )->Ok_0.0,
{
}

/// One compositing step: frame `n` is converted to RGBA and painted, with its
/// blend operation, onto the canvas the earlier frames left; the painted canvas
/// is the one shown for the frame, and the canvas handed to the next frame is
/// the painted one (keep), the painted one with the frame's area cleared
/// (background) or the canvas before the frame (previous). A frame that does
/// not convert ends the composition with its conversion error.
pub proof fn lemma_compose_step<F: Fn(Rgba, Rgba) -> Rgba>(
    width: u32,
    frames: Seq<FrameModel>,
    canvas0: Seq<u8>,
    over: F,
    n: nat,
)
    requires
        n < frames.len(),
        compose_upto(width, frames, canvas0, over, n) is Ok,
    ensures
        ({
            let (canvas, outs) = compose_upto(width, frames, canvas0, over, n)->Ok_0;
            let f = frames[n as int];
            match spec_to_rgba(f.bytes, f.color, f.rect.w, f.rect.h) {
                Err(e) => compose_upto(width, frames, canvas0, over, n + 1) == Err::<
                    (Seq<u8>, Seq<Seq<u8>>),
                    RgbaError,
                >(e),
                Ok(rgba) => {
                    let painted = spec_composite(canvas, rgba, f.rect, width, f.blend, over);
                    compose_upto(width, frames, canvas0, over, n + 1) == Ok::<
                        (Seq<u8>, Seq<Seq<u8>>),
                        RgbaError,
                    >(
                        (
                            match f.dispose {
                                DisposeOp::Keep => painted,
                                DisposeOp::Background => spec_fill_rect(painted, f.rect, width, transparent()),
                                DisposeOp::Previous => canvas,
                            },
                            outs.push(painted),
                        ),
                    )
                },
            }
        }),
{
}

/// Composing yields one canvas per frame, each of the canvas's size.
pub proof fn lemma_one_canvas_per_frame<F: Fn(Rgba, Rgba) -> Rgba>(
    width: u32,
    height: u32,
    frames: Seq<FrameModel>,
    over: F,
)
    requires
        spec_compose_frames(width, height, frames, over) is Ok,
    ensures
        spec_compose_frames(width, height, frames, over)->Ok_0.len() == frames.len(),
        forall|i: int|
            0 <= i < frames.len() ==> (#[trigger] spec_compose_frames(width, height, frames, over)->Ok_0[i]).len()
                == width * height * 4,
{
    lemma_compose_upto_count(width, frames, blank_canvas(width, height), over, frames.len());
    lemma_compose_upto_len(width, frames, blank_canvas(width, height), over, frames.len());
}

proof fn lemma_compose_upto_count<F: Fn(Rgba, Rgba) -> Rgba>(
    width: u32,
    frames: Seq<FrameModel>,
    canvas0: Seq<u8>,
    over: F,
    n: nat,
)
    ensures
        compose_upto(width, frames, canvas0, over, n) matches Ok((_, outs)) ==> outs.len() == n,
    decreases n,
{
    if n > 0 {
        lemma_compose_upto_count(width, frames, canvas0, over, (n - 1) as nat);
    }
}

/// The symbol that the standard base64 alphabet uses for the 6-bit value `v`.
pub open spec fn b64_symbol(v: int) -> char {
    if v < 26 {
        (65 + v) as char
    } else if v < 52 {
        (97 + v - 26) as char
    } else if v < 62 {
        (48 + v - 52) as char
    } else if v == 62 {
        '+'
    } else {
        '/'
    }
}

/// Standard base64 (RFC 4648 alphabet, `=` padding) of a byte string.
pub open spec fn base64_standard(b: Seq<u8>) -> Seq<char>
    decreases b.len(),
{
    if b.len() == 0 {
        Seq::<char>::empty()
    } else if b.len() == 1 {
        seq![b64_symbol(b[0] as int / 4), b64_symbol((b[0] % 4) * 16), '=', '=']
    } else if b.len() == 2 {
        seq![
            b64_symbol(b[0] as int / 4),
            b64_symbol((b[0] % 4) * 16 + b[1] / 16),
            b64_symbol((b[1] % 16) * 4),
            '=',
        ]
    } else {
        seq![
            b64_symbol(b[0] as int / 4),
            b64_symbol((b[0] % 4) * 16 + b[1] / 16),
            b64_symbol((b[1] % 16) * 4 + b[2] / 64),
            b64_symbol(b[2] as int % 64),
        ] + base64_standard(b.subrange(3, b.len() as int))
    }
}

/// The message of a conversion that produced the wrong number of bytes.
pub open spec fn length_mismatch_text(produced: nat, expected: nat) -> Seq<char> {
    "RGBA conversion produced "@ + decimal(produced) + " bytes, expected "@ + decimal(expected)
}

/// The message reported for a conversion error.
pub open spec fn rgba_error_text(e: RgbaError) -> Seq<char> {
    match e {
        RgbaError::IndexedUnsupported => "Indexed colour APNG is not yet supported"@,
        RgbaError::LengthMismatch { produced, expected } => length_mismatch_text(
            produced as nat,
            expected as nat,
        ),
    }
}

/// The base64 text of a byte buffer, by the `base64` crate's standard engine
/// (`general_purpose::STANDARD`): standard alphabet, padded with `=`.
#[verifier::external_body]
fn base64_encode(bytes: &Vec<u8>) -> (r: String)
    requires
        (bytes@.len() + 2) / 3 * 4 <= usize::MAX,
    ensures
        r@ == base64_standard(bytes@),
{
    base64::engine::general_purpose::STANDARD.encode(bytes)
}

/// The message of a conversion that produced the wrong number of bytes.
fn length_mismatch_message(produced: usize, expected: u128) -> (r: String)
    ensures
        r@ == length_mismatch_text(produced as nat, expected as nat),
{
    let mut m = String::from_str("RGBA conversion produced ");
    m.append(decimal_string(produced as u128).as_str());
    m.append(" bytes, expected ");
    m.append(decimal_string(expected).as_str());
    m
}

/// The message reported for a conversion error.
pub fn rgba_error_message(e: RgbaError) -> (r: String)
    ensures
        r@ == rgba_error_text(e),
{
    match e {
        RgbaError::IndexedUnsupported => String::from_str("Indexed colour APNG is not yet supported"),
        RgbaError::LengthMismatch { produced, expected } => length_mismatch_message(produced, expected),
    }
}

/// The colour type with a PNG colour type code (the `png` crate reports 0,
/// 2, 3, 4 and 6; any other code reads as RGBA).
pub open spec fn spec_color_type(code: u8) -> ColorType {
    if code == 0 {
        ColorType::Grayscale
    } else if code == 2 {
        ColorType::Rgb
    } else if code == 3 {
        ColorType::Indexed
    } else if code == 4 {
        ColorType::GrayscaleAlpha
    } else {
        ColorType::Rgba
    }
}

/// The colour type with a PNG colour type code.
pub fn color_type_from_code(code: u8) -> (r: ColorType)
    ensures
        r == spec_color_type(code),
{
    if code == 0 {
        ColorType::Grayscale
    } else if code == 2 {
        ColorType::Rgb
    } else if code == 3 {
        ColorType::Indexed
    } else if code == 4 {
        ColorType::GrayscaleAlpha
    } else {
        ColorType::Rgba
    }
}

/// The subframe's area and operations from an `fcTL` chunk (blend code 1 is
/// "over", any other "source"; dispose code 0 keeps, 1 clears, any other goes
/// back to the previous canvas), or the whole image with source blending and
/// no disposal for a plain PNG.
pub open spec fn spec_frame_layout(fc: Option<FrameControlData>, width: u32, height: u32) -> (
    FrameRect,
    BlendOp,
    DisposeOp,
) {
    match fc {
        Some(c) => (
            FrameRect { x: c.x, y: c.y, w: c.w, h: c.h },
            if c.blend == 1 {
                BlendOp::Over
            } else {
                BlendOp::Source
            },
            if c.dispose == 0 {
                DisposeOp::Keep
            } else if c.dispose == 1 {
                DisposeOp::Background
            } else {
                DisposeOp::Previous
            },
        ),
        None => (FrameRect { x: 0, y: 0, w: width, h: height }, BlendOp::Source, DisposeOp::Keep),
    }
}

/// How `fcTL` codes become a subframe's layout: the rectangle is the chunk's
/// offset and size; blend code 0 (APNG_BLEND_OP_SOURCE) replaces and 1
/// (APNG_BLEND_OP_OVER) blends; dispose code 0 (APNG_DISPOSE_OP_NONE) keeps
/// the canvas, 1 (APNG_DISPOSE_OP_BACKGROUND) clears the area and 2
/// (APNG_DISPOSE_OP_PREVIOUS) restores the earlier canvas. Without an `fcTL`
/// chunk the frame covers the whole image, replaces it and is kept.
pub proof fn lemma_frame_layout_codes(fc: Option<FrameControlData>, width: u32, height: u32)
    ensures
        fc matches Some(c) ==> spec_frame_layout(fc, width, height).0 == (FrameRect { x: c.x, y: c.y, w: c.w, h: c.h }),
        fc matches Some(c) && c.blend == 0 ==> spec_frame_layout(fc, width, height).1 == BlendOp::Source,
        fc matches Some(c) && c.blend == 1 ==> spec_frame_layout(fc, width, height).1 == BlendOp::Over,
        fc matches Some(c) && c.dispose == 0 ==> spec_frame_layout(fc, width, height).2 == DisposeOp::Keep,
        fc matches Some(c) && c.dispose == 1 ==> spec_frame_layout(fc, width, height).2 == DisposeOp::Background,
        fc matches Some(c) && c.dispose == 2 ==> spec_frame_layout(fc, width, height).2 == DisposeOp::Previous,
        fc is None ==> spec_frame_layout(fc, width, height) == (
            FrameRect { x: 0, y: 0, w: width, h: height },
            BlendOp::Source,
            DisposeOp::Keep,
        ),
{
}

/// The subframe's area and operations from an `fcTL` chunk, or the whole
/// image with source blending and no disposal for a plain PNG.
pub fn frame_layout(fc: Option<FrameControlData>, width: u32, height: u32) -> (r: (FrameRect, BlendOp, DisposeOp))
    ensures
        r == spec_frame_layout(fc, width, height),
{
    match fc {
        Some(c) => {
            let blend = if c.blend == 1 {
                BlendOp::Over
            } else {
                BlendOp::Source
            };
            let dispose = if c.dispose == 0 {
                DisposeOp::Keep
            } else if c.dispose == 1 {
                DisposeOp::Background
            } else {
                DisposeOp::Previous
            };
            (FrameRect { x: c.x, y: c.y, w: c.w, h: c.h }, blend, dispose)
        },
        None => (FrameRect { x: 0, y: 0, w: width, h: height }, BlendOp::Source, DisposeOp::Keep),
    }
}

/// Frame `k` of the file as the decoder delivers it: the samples the frame
/// call wrote at the start of the buffer (`buf` being the buffer after the
/// call), their colour type, and the area and operations of the `fcTL` chunk
/// current after the call.
pub open spec fn delivered_frame(
    data: Seq<u8>,
    k: nat,
    out: FrameOutput,
    buf: Seq<u8>,
    width: u32,
    height: u32,
) -> FrameModel {
    let (rect, blend, dispose) = spec_frame_layout(png_header_after(data, k + 1).frame_control, width, height);
    FrameModel {
        rect,
        blend,
        dispose,
        color: spec_color_type(out.color),
        bytes: buf.subrange(0, out.buffer_size as int),
    }
}

/// The frames read from the file from frame `k` on, the buffer holding `buf`,
/// up to frame `n`: reading stops at the first frame call that fails, and at a
/// grayscale-alpha frame with an odd number of samples (the flag is then set).
pub open spec fn frames_read_from(
    data: Seq<u8>,
    k: nat,
    n: nat,
    buf: Seq<u8>,
    width: u32,
    height: u32,
) -> (Seq<FrameModel>, bool)
    decreases n - k,
{
    if k >= n {
        (Seq::<FrameModel>::empty(), false)
    } else {
        match png_frame_after(data, k, buf) {
            Err(_) => (Seq::<FrameModel>::empty(), false),
            Ok((out, after)) => {
                let f = delivered_frame(data, k, out, after, width, height);
                if !rgba_input_ok(f.bytes, f.color) {
                    (Seq::<FrameModel>::empty(), true)
                } else {
                    let rest = frames_read_from(data, k + 1, n, after, width, height);
                    (seq![f] + rest.0, rest.1)
                }
            },
        }
    }
}

/// The RGBA canvas of a `width` x `height` image, and its base64 text, have
/// lengths that fit in 32 bits and in the address space.
pub open spec fn canvas_fits(width: u32, height: u32) -> bool {
    width * height * 4 <= 0xffff_ffff && (width * height * 4 + 2) / 3 * 4 <= usize::MAX
}

/// The length of the buffer that frames are decoded into: the reader's
/// output buffer size, or a full RGBA canvas when it reports none.
pub open spec fn first_buffer_len(data: Seq<u8>, width: u32, height: u32) -> nat {
    match png_buffer_size_after(data, 0) {
        Some(n) => n as nat,
        None => (width * height * 4) as nat,
    }
}

/// What decoding the file gives: its width and height and, for each frame
/// read, the base64 text of the canvas shown, composited from a blank canvas
/// following each frame's blend and dispose operations; or the error's text.
/// Frames are read up to the count an `acTL` chunk declares, or one for a
/// plain PNG.
pub open spec fn apng_decoding<F: Fn(Rgba, Rgba) -> Rgba>(data: Seq<u8>, over: F) -> Result<
    (u32, u32, Seq<Seq<char>>),
    Seq<char>,
> {
    match png_open_error(data) {
        Some(m) => Err(m),
        None => {
            let header = png_header_after(data, 0);
            let (w, h) = (header.width, header.height);
            if !canvas_fits(w, h) {
                Err("image too large: the RGBA canvas size overflows 32 bits"@)
            } else {
                let n: nat = match header.declared_frames {
                    Some(c) => c as nat,
                    None => 1,
                };
                let read = frames_read_from(
                    data,
                    0,
                    n,
                    Seq::new(first_buffer_len(data, w, h), |i: int| 0u8),
                    w,
                    h,
                );
                match spec_compose_frames(w, h, read.0, over) {
                    Err(e) => Err(rgba_error_text(e)),
                    Ok(canvases) => if read.1 {
                        Err("grayscale-alpha frame with an odd number of samples"@)
                    } else {
                        Ok((w, h, canvases.map_values(|c: Seq<u8>| base64_standard(c))))
                    },
                }
            }
        },
    }
}

/// `info` holds the given width, height and frame texts.
pub open spec fn apng_info_is(info: ApngInfo, w: u32, h: u32, texts: Seq<Seq<char>>) -> bool {
    &&& info.width == w
    &&& info.height == h
    &&& info.frames@.len() == texts.len()
    &&& forall|i: int| 0 <= i < texts.len() ==> #[trigger] info.frames@[i]@ == texts[i]
}

/// Decode every frame of an APNG file into fully-composited RGBA canvases,
/// each returned as base64 of the raw RGBA bytes. Each frame's blend
/// operation (over / source) and dispose operation (none / background /
/// previous) are applied as `compose_frames` does; `blend_over` performs the
/// alpha blending of one pixel over another. Frames are read up to the count
/// the `acTL` chunk declares (one for a plain PNG); a missing frame ends the
/// reading without error, and the first frame that does not convert to RGBA
/// gives the error.
pub fn decode_apng_frames<F: Fn(Rgba, Rgba) -> Rgba>(data: Vec<u8>, blend_over: &F) -> (r: Result<
    ApngInfo,
    String,
>)
    requires
        deterministic_blend(*blend_over),
    ensures
        match apng_decoding(data@, *blend_over) {
            Ok((w, h, texts)) => r matches Ok(info) && apng_info_is(info, w, h, texts),
            Err(m) => r matches Err(e) && e@ == m,
        },
{
    let ghost d = data@;
    let mut reader = match png_open(data) {
        Ok(reader) => reader,
        Err(e) => return Err(e),
    };
    let info = png_info(&reader);
    let width = info.width;
    let height = info.height;
    proof {
        let (w, h) = (width as int, height as int);
        assert(0 <= w * h <= 0xffff_ffff * 0xffff_ffff) by (nonlinear_arith)
            requires
                0 <= w <= 0xffff_ffff,
                0 <= h <= 0xffff_ffff,
        ;
    }
    let canvas_bytes: u128 = (width as u128) * (height as u128) * 4;
    if canvas_bytes > 0xffff_ffff || (canvas_bytes + 2) / 3 * 4 > usize::MAX as u128 {
        return Err(String::from_str("image too large: the RGBA canvas size overflows 32 bits"));
    }
    let buf_size = match png_output_buffer_size(&reader) {
        Some(n) => n,
        None => (width as usize) * (height as usize) * 4,
    };
    let mut raw_buf: Vec<u8> = Vec::new();
    let mut k: usize = 0;
    while k < buf_size
        invariant
            k <= buf_size,
            raw_buf@ =~= Seq::new(k as nat, |i: int| 0u8),
        decreases buf_size - k,
    {
        raw_buf.push(0u8);
        k = k + 1;
    }
    assert(raw_buf@ =~= Seq::new(first_buffer_len(d, width, height), |i: int| 0u8));
    let num_frames: usize = match info.declared_frames {
        Some(n) => n as usize,
        None => 1,
    };
    let ghost full = frames_read_from(d, 0, num_frames as nat, raw_buf@, width, height);
    let mut frames: Vec<RawFrame> = Vec::new();
    let mut odd = false;
    let mut stopped = false;
    let mut i: usize = 0;
    assert(frame_models(frames@) + full.0 =~= full.0);
    while i < num_frames && !stopped
        invariant
            i <= num_frames,
            reader.data() == d,
            forall|j: int| 0 <= j < frames@.len() ==> rgba_input_ok(#[trigger] frames@[j].bytes@, frames@[j].color),
            stopped ==> frame_models(frames@) == full.0 && odd == full.1,
            !stopped ==> !odd && !reader.failed() && reader.frames_read() == i && frame_models(frames@)
                + frames_read_from(d, i as nat, num_frames as nat, raw_buf@, width, height).0 == full.0
                && frames_read_from(d, i as nat, num_frames as nat, raw_buf@, width, height).1 == full.1,
        decreases num_frames - i + (if stopped {
            0int
        } else {
            1int
        }),
    {
        let ghost buf_before = raw_buf@;
        let ghost models_before = frame_models(frames@);
        match png_next_frame(&mut reader, &mut raw_buf) {
            Err(_) => {
                assert(models_before + Seq::<FrameModel>::empty() =~= models_before);
                stopped = true;
            },
            Ok(out) => {
                let mut bytes: Vec<u8> = Vec::new();
                let mut j: usize = 0;
                while j < out.buffer_size
                    invariant
                        out.buffer_size <= raw_buf@.len(),
                        j <= out.buffer_size,
                        bytes@ =~= raw_buf@.subrange(0, j as int),
                    decreases out.buffer_size - j,
                {
                    bytes.push(raw_buf[j]);
                    j = j + 1;
                }
                let cur = png_info(&reader);
                let (rect, blend, dispose) = frame_layout(cur.frame_control, width, height);
                let color = color_type_from_code(out.color);
                let frame = RawFrame { rect, blend, dispose, color, bytes };
                assert(frame@ == delivered_frame(d, i as nat, out, raw_buf@, width, height));
                if color == ColorType::GrayscaleAlpha && frame.bytes.len() % 2 == 1 {
                    assert(models_before + Seq::<FrameModel>::empty() =~= models_before);
                    odd = true;
                    stopped = true;
                } else {
                    let ghost next = frames_read_from(d, (i + 1) as nat, num_frames as nat, raw_buf@, width, height);
                    let ghost before = frames@;
                    frames.push(frame);
                    assert(frame_models(frames@) =~= models_before.push(frame@));
                    assert(models_before.push(frame@) + next.0 =~= models_before + (seq![frame@] + next.0));
                    assert forall|q: int| 0 <= q < frames@.len() implies rgba_input_ok(
                        #[trigger] frames@[q].bytes@,
                        frames@[q].color,
                    ) by {
                        if q < before.len() {
                            assert(frames@[q] == before[q]);
                        }
                    }
                    i = i + 1;
                }
            },
        }
    }
    if !stopped {
        assert(frame_models(frames@) + Seq::<FrameModel>::empty() =~= frame_models(frames@));
    }
    let canvases = match compose_frames(width, height, &frames, blend_over) {
        Ok(c) => c,
        Err(e) => return Err(rgba_error_message(e)),
    };
    if odd {
        return Err(String::from_str("grayscale-alpha frame with an odd number of samples"));
    }
    let mut texts: Vec<String> = Vec::new();
    let mut m: usize = 0;
    while m < canvases.len()
        invariant
            m <= canvases@.len(),
            texts@.len() == m,
            (width * height * 4) <= 0xffff_ffff,
            (width * height * 4 + 2) / 3 * 4 <= usize::MAX,
            spec_compose_frames(width, height, frame_models(frames@), *blend_over) == Ok::<
                Seq<Seq<u8>>,
                RgbaError,
            >(views(canvases@)),
            forall|q: int| 0 <= q < m ==> #[trigger] texts@[q]@ == base64_standard(canvases@[q]@),
        decreases canvases@.len() - m,
    {
        proof {
            lemma_compose_lengths(width, height, frame_models(frames@), *blend_over, m as int);
        }
        assert(views(canvases@)[m as int] == canvases@[m as int]@);
        let text = base64_encode(&canvases[m]);
        texts.push(text);
        m = m + 1;
    }
    let result = ApngInfo { width, height, frames: texts };
    proof {
        let outs = views(canvases@).map_values(|c: Seq<u8>| base64_standard(c));
        assert forall|q: int| 0 <= q < outs.len() implies #[trigger] result.frames@[q]@ == outs[q] by {
            assert(views(canvases@)[q] == canvases@[q]@);
        }
        assert(apng_info_is(result, width, height, outs));
    }
    Ok(result)
}

} // verus!
