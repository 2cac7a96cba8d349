//! Rendering: scale an RGBA image, rotate it by quarter turns, and place
//! it centred (plus the pan offset) in a window-sized ARGB8888 buffer.
//! Pixels of the window that the image does not cover are zero.

use image::imageops::FilterType;
use vstd::prelude::*;

verus! {

/// Scaling filter applied during image resize.
#[derive(Clone, Copy, Debug, PartialEq, Eq, Structural)]
pub enum FilterMethod {
    /// Nearest-neighbour: fastest, pixelated at high zoom.
    Nearest,
    /// Bilinear interpolation.
    Triangle,
    /// Catmull-Rom cubic spline.
    CatmullRom,
    /// Gaussian blur kernel.
    Gaussian,
    /// Lanczos with window 3: best quality, slowest.
    Lanczos3,
}

impl Default for FilterMethod {
    fn default() -> (r: Self)
        ensures
            r == FilterMethod::Lanczos3,
    {
        FilterMethod::Lanczos3
    }
}

/// An image of `width × height` pixels, four bytes each (R, G, B, A),
/// row-major.
pub struct RgbaImage {
    pub width: u32,
    pub height: u32,
    pub pixels: Vec<u8>,
}

impl RgbaImage {
    /// The pixel buffer holds exactly `width × height` pixels.
    pub open spec fn wf(&self) -> bool {
        self.pixels.len() == self.width * self.height * 4
    }

    /// Wrap a raw RGBA buffer; `None` when its length is not
    /// `width × height × 4`.
    pub fn from_raw(width: u32, height: u32, pixels: Vec<u8>) -> (r: Option<RgbaImage>)
        ensures
            match r {
                Some(img) => img.wf() && img.width == width && img.height == height
                    && img.pixels@ == pixels@,
                None => pixels.len() != width * height * 4,
            },
    {
        let w = width as u64;
        let h = height as u64;
        assert(w * h <= 0xffff_ffff * 0xffff_ffff) by (nonlinear_arith)
            requires
                w <= 0xffff_ffff,
                h <= 0xffff_ffff,
        ;
        let wh = w * h;
        if wh > 0x3fff_ffff_ffff_ffff {
            return None;
        }
        let n = wh * 4;
        if pixels.len() as u64 == n {
            Some(RgbaImage { width, height, pixels })
        } else {
            None
        }
    }
}

/// The bytes that `image::imageops::resize` produces from the RGBA image
/// `pixels` (`width × height`) for the new size and filter.
pub uninterp spec fn spec_resize(
    pixels: Seq<u8>,
    width: u32,
    height: u32,
    new_width: u32,
    new_height: u32,
    filter: FilterMethod,
) -> Seq<u8>;

/// Calls `image::imageops::resize` on the RGBA buffer, with the filter of
/// the same name. The contract claims: the result is a function of the
/// arguments (named `spec_resize`), holds `new_width × new_height` pixels,
/// and is the input itself when the size does not change (the function
/// copies the image in that case). The `requires` leaves out sizes whose
/// buffers would not fit a vector (more than `isize::MAX` bytes), where
/// the crate panics: the `new_width × new_height` result of bytes, and the
/// intermediate `width × new_height` image of four `f32` channels.
#[verifier::external_body]
fn resize_rgba(
    pixels: &Vec<u8>,
    width: u32,
    height: u32,
    new_width: u32,
    new_height: u32,
    filter: FilterMethod,
) -> (r: Vec<u8>)
    requires
        pixels.len() == width * height * 4,
        new_width * new_height * 4 <= isize::MAX,
        width * new_height * 16 <= isize::MAX,
    ensures
        r@ == spec_resize(pixels@, width, height, new_width, new_height, filter),
        r.len() == new_width * new_height * 4,
        new_width == width && new_height == height ==> r@ == pixels@,
{
    let f = match filter {
        FilterMethod::Nearest => FilterType::Nearest,
        FilterMethod::Triangle => FilterType::Triangle,
        FilterMethod::CatmullRom => FilterType::CatmullRom,
        FilterMethod::Gaussian => FilterType::Gaussian,
        FilterMethod::Lanczos3 => FilterType::Lanczos3,
    };
    let src = image::ImageBuffer::<image::Rgba<u8>, &[u8]>::from_raw(width, height, pixels).unwrap();
    image::imageops::resize(&src, new_width, new_height, f).into_raw()
}

/// Width and height of a `w × h` image after a clockwise rotation by
/// `rotation` degrees (only 90, 180 and 270 rotate).
pub open spec fn rotated_size(w: int, h: int, rotation: u16) -> (int, int) {
    if rotation == 90 || rotation == 270 {
        (h, w)
    } else {
        (w, h)
    }
}

/// Byte offset of channel `c` of pixel `(x, y)` in a row-major image `w`
/// pixels wide.
pub open spec fn pixel_offset(w: int, x: int, y: int, c: int) -> int {
    (y * w + x) * 4 + c
}

/// Channel `c` of pixel `(x, y)` of the `w × h` image `p` after a
/// clockwise rotation by `rotation` degrees (90, 180 or 270; any other
/// value leaves the image as it is).
pub open spec fn rotated_channel(p: Seq<u8>, w: int, h: int, rotation: u16, x: int, y: int, c: int) -> u8 {
    if rotation == 90 {
        p[pixel_offset(w, y, h - 1 - x, c)]
    } else if rotation == 180 {
        p[pixel_offset(w, w - 1 - x, h - 1 - y, c)]
    } else if rotation == 270 {
        p[pixel_offset(w, w - 1 - y, x, c)]
    } else {
        p[pixel_offset(w, x, y, c)]
    }
}

/// `r` is the `w × h` RGBA image `p` rotated clockwise by `rotation`.
pub open spec fn is_rotation_of(r: Seq<u8>, p: Seq<u8>, w: int, h: int, rotation: u16) -> bool {
    let (rw, rh) = rotated_size(w, h, rotation);
    &&& r.len() == rw * rh * 4
    &&& forall|x: int, y: int, c: int|
        0 <= x < rw && 0 <= y < rh && 0 <= c < 4 ==> #[trigger] r[pixel_offset(rw, x, y, c)]
            == rotated_channel(p, w, h, rotation, x, y, c)
}

/// Calls `image::imageops::rotate90` on the RGBA buffer. The contract
/// claims what the function's loop does: input pixel `(x, y)` lands at
/// `(h - 1 - y, x)` of an `h × w` result.
#[verifier::external_body]
fn rotate90_rgba(pixels: &Vec<u8>, width: u32, height: u32) -> (r: Vec<u8>)
    requires
        pixels.len() == width * height * 4,
    ensures
        is_rotation_of(r@, pixels@, width as int, height as int, 90),
{
    let src = image::ImageBuffer::<image::Rgba<u8>, &[u8]>::from_raw(width, height, pixels).unwrap();
    image::imageops::rotate90(&src).into_raw()
}

/// Calls `image::imageops::rotate180` on the RGBA buffer. The contract
/// claims what the function's loop does: input pixel `(x, y)` lands at
/// `(w - 1 - x, h - 1 - y)`.
#[verifier::external_body]
fn rotate180_rgba(pixels: &Vec<u8>, width: u32, height: u32) -> (r: Vec<u8>)
    requires
        pixels.len() == width * height * 4,
    ensures
        is_rotation_of(r@, pixels@, width as int, height as int, 180),
{
    let src = image::ImageBuffer::<image::Rgba<u8>, &[u8]>::from_raw(width, height, pixels).unwrap();
    image::imageops::rotate180(&src).into_raw()
}

/// Calls `image::imageops::rotate270` on the RGBA buffer. The contract
/// claims what the function's loop does: input pixel `(x, y)` lands at
/// `(y, w - 1 - x)` of an `h × w` result.
#[verifier::external_body]
fn rotate270_rgba(pixels: &Vec<u8>, width: u32, height: u32) -> (r: Vec<u8>)
    requires
        pixels.len() == width * height * 4,
    ensures
        is_rotation_of(r@, pixels@, width as int, height as int, 270),
{
    let src = image::ImageBuffer::<image::Rgba<u8>, &[u8]>::from_raw(width, height, pixels).unwrap();
    image::imageops::rotate270(&src).into_raw()
}

/// Where the image's left (or top) edge lands in the window: centred in
/// `dst`, then shifted by `offset`.
pub open spec fn blit_origin(dst: int, img: int, offset: int) -> int {
    dst / 2 - img / 2 + offset
}

/// Which RGBA channel gives channel `k` of a little-endian ARGB8888 pixel,
/// stored as B, G, R, A.
pub open spec fn argb_source_channel(k: int) -> int {
    if k == 3 {
        3
    } else {
        2 - k
    }
}

/// Channel `k` (B, G, R, A order) of window pixel `(dx, dy)` when the
/// `iw × ih` RGBA image `img` has its top-left corner at `(bx, by)`: the
/// image's pixel where it covers the window, else zero.
pub open spec fn blit_channel(
    img: Seq<u8>,
    iw: int,
    ih: int,
    bx: int,
    by: int,
    dx: int,
    dy: int,
    k: int,
) -> u8 {
    let sx = dx - bx;
    let sy = dy - by;
    if 0 <= sx < iw && 0 <= sy < ih {
        img[pixel_offset(iw, sx, sy, argb_source_channel(k))]
    } else {
        0
    }
}

/// `out` is the `dst_w × dst_h` ARGB8888 window buffer showing the
/// `iw × ih` RGBA image `img` centred and shifted by `offset`.
pub open spec fn is_blit_of(
    out: Seq<u8>,
    img: Seq<u8>,
    iw: int,
    ih: int,
    offset: (i32, i32),
    dst_w: int,
    dst_h: int,
) -> bool {
    let bx = blit_origin(dst_w, iw, offset.0 as int);
    let by = blit_origin(dst_h, ih, offset.1 as int);
    &&& out.len() == dst_w * dst_h * 4
    &&& forall|dx: int, dy: int, k: int|
        0 <= dx < dst_w && 0 <= dy < dst_h && 0 <= k < 4 ==> #[trigger] out[pixel_offset(
            dst_w,
            dx,
            dy,
            k,
        )] == blit_channel(img, iw, ih, bx, by, dx, dy, k)
}

/// The window sizes for which the window buffer can be built: its byte
/// count fits `u32`. Any image size and offset can be placed.
pub open spec fn placement_fits(dst_w: int, dst_h: int) -> bool {
    0 <= dst_w && 0 <= dst_h && dst_w * dst_h * 4 <= u32::MAX
}

/// A pixel of a `w × h` image lies inside its buffer.
pub proof fn lemma_pixel_in_bounds(w: int, h: int, x: int, y: int)
    requires
        0 <= x < w,
        0 <= y < h,
    ensures
        0 <= y * w + x < w * h,
        0 <= pixel_offset(w, x, y, 0),
        pixel_offset(w, x, y, 3) < w * h * 4,
{
    assert(0 <= y * w + x < w * h) by (nonlinear_arith)
        requires
            0 <= x < w,
            0 <= y < h,
    ;
}

/// In row-major order, a pixel of an earlier row comes before any pixel
/// of a later row.
proof fn lemma_row_major_before(w: int, x1: int, y1: int, x2: int, y2: int)
    requires
        0 <= x1 < w,
        0 <= x2,
        0 <= y1 < y2,
    ensures
        y1 * w + x1 < y2 * w + x2,
{
    assert(y1 * w + x1 < y2 * w + x2) by (nonlinear_arith)
        requires
            0 <= x1 < w,
            0 <= x2,
            0 <= y1 < y2,
    ;
}

/// Place the `iw × ih` RGBA image `img` centred in a `dst_w × dst_h`
/// window, shifted by `offset`, as little-endian ARGB8888 bytes
/// (B, G, R, A); window pixels the image does not cover are zero.
pub fn blit_centered(img: &Vec<u8>, iw: u32, ih: u32, offset: (i32, i32), dst_w: u32, dst_h: u32) -> (out: Vec<u8>)
    requires
        img.len() == iw * ih * 4,
        placement_fits(dst_w as int, dst_h as int),
    ensures
        is_blit_of(out@, img@, iw as int, ih as int, offset, dst_w as int, dst_h as int),
{
    let ghost w = dst_w as int;
    let ghost bxs = blit_origin(dst_w as int, iw as int, offset.0 as int);
    let ghost bys = blit_origin(dst_h as int, ih as int, offset.1 as int);
    let bx: i64 = (dst_w / 2) as i64 - (iw / 2) as i64 + offset.0 as i64;
    let by: i64 = (dst_h / 2) as i64 - (ih / 2) as i64 + offset.1 as i64;
    let mut out: Vec<u8> = Vec::new();
    let mut dy: u32 = 0;
    while dy < dst_h
        invariant
            dy <= dst_h,
            w == dst_w as int,
            bx == bxs,
            by == bys,
            -0x1_0000_0000 <= bx <= 0x1_0000_0000,
            -0x1_0000_0000 <= by <= 0x1_0000_0000,
            img.len() == iw * ih * 4,
            out.len() == dy * w * 4,
            forall|x: int, y: int, k: int|
                0 <= x < w && 0 <= y < dy && 0 <= k < 4 ==> #[trigger] out@[pixel_offset(w, x, y, k)]
                    == blit_channel(img@, iw as int, ih as int, bxs, bys, x, y, k),
        decreases dst_h - dy,
    {
        let mut dx: u32 = 0;
        while dx < dst_w
            invariant
                dy < dst_h,
                dx <= dst_w,
                w == dst_w as int,
                bx == bxs,
                by == bys,
                -0x1_0000_0000 <= bx <= 0x1_0000_0000,
                -0x1_0000_0000 <= by <= 0x1_0000_0000,
                img.len() == iw * ih * 4,
                out.len() == (dy * w + dx) * 4,
                forall|x: int, y: int, k: int|
                    0 <= x < w && 0 <= y < dy && 0 <= k < 4 ==> #[trigger] out@[pixel_offset(
                        w,
                        x,
                        y,
                        k,
                    )] == blit_channel(img@, iw as int, ih as int, bxs, bys, x, y, k),
                forall|x: int, k: int|
                    0 <= x < dx && 0 <= k < 4 ==> #[trigger] out@[pixel_offset(w, x, dy as int, k)]
                        == blit_channel(img@, iw as int, ih as int, bxs, bys, x, dy as int, k),
            decreases dst_w - dx,
        {
            let ghost before = out@;
            let sx: i64 = dx as i64 - bx;
            let sy: i64 = dy as i64 - by;
            if 0 <= sx && sx < iw as i64 && 0 <= sy && sy < ih as i64 {
                proof {
                    lemma_pixel_in_bounds(iw as int, ih as int, sx as int, sy as int);
                }
                let base: usize = ((sy as usize) * (iw as usize) + sx as usize) * 4;
                out.push(img[base + 2]);
                out.push(img[base + 1]);
                out.push(img[base]);
                out.push(img[base + 3]);
            } else {
                out.push(0);
                out.push(0);
                out.push(0);
                out.push(0);
            }
            proof {
                let p = dy * w + dx;
                assert(pixel_offset(w, dx as int, dy as int, 0) == p * 4);
                assert forall|x: int, y: int, k: int|
                    0 <= x < w && 0 <= y < dy && 0 <= k < 4 implies #[trigger] out@[pixel_offset(
                        w,
                        x,
                        y,
                        k,
                    )] == blit_channel(img@, iw as int, ih as int, bxs, bys, x, y, k) by {
                    lemma_row_major_before(w, x, y, dx as int, dy as int);
                    assert(out@[pixel_offset(w, x, y, k)] == before[pixel_offset(w, x, y, k)]);
                }
                assert forall|x: int, k: int|
                    0 <= x < dx + 1 && 0 <= k < 4 implies #[trigger] out@[pixel_offset(
                        w,
                        x,
                        dy as int,
                        k,
                    )] == blit_channel(img@, iw as int, ih as int, bxs, bys, x, dy as int, k) by {
                    if x < dx {
                        assert(out@[pixel_offset(w, x, dy as int, k)] == before[pixel_offset(
                            w,
                            x,
                            dy as int,
                            k,
                        )]);
                    }
                }
            }
            dx = dx + 1;
        }
        proof {
            assert((dy * w + w) * 4 == (dy + 1) * w * 4) by (nonlinear_arith);
            assert forall|x: int, y: int, k: int|
                0 <= x < w && 0 <= y < dy + 1 && 0 <= k < 4 implies #[trigger] out@[pixel_offset(
                    w,
                    x,
                    y,
                    k,
                )] == blit_channel(img@, iw as int, ih as int, bxs, bys, x, y, k) by {
                if y == dy {
                }
            }
        }
        dy = dy + 1;
    }
    assert(dst_h * w * 4 == w * dst_h * 4) by (nonlinear_arith);
    out
}

/// Whether `render` accepts these sizes: the buffers of the resize fit
/// a vector and the window buffer's byte count fits `u32`.
pub open spec fn render_fits(src_width: u32, scaled_w: u32, scaled_h: u32, dst_w: u32, dst_h: u32) -> bool {
    &&& scaled_w * scaled_h * 4 <= isize::MAX
    &&& src_width * scaled_h * 16 <= isize::MAX
    &&& placement_fits(dst_w as int, dst_h as int)
}

/// Checks `render_fits`, so that a caller can refuse what `render` does
/// not accept.
pub fn check_render_fits(src_width: u32, scaled_w: u32, scaled_h: u32, dst_w: u32, dst_h: u32) -> (r: bool)
    ensures
        r == render_fits(src_width, scaled_w, scaled_h, dst_w, dst_h),
{
    let sw = scaled_w as u128;
    let sh = scaled_h as u128;
    let w0 = src_width as u128;
    assert(sw * sh <= 0xffff_ffff * 0xffff_ffff) by (nonlinear_arith)
        requires
            sw <= 0xffff_ffff,
            sh <= 0xffff_ffff,
    ;
    assert(w0 * sh <= 0xffff_ffff * 0xffff_ffff) by (nonlinear_arith)
        requires
            w0 <= 0xffff_ffff,
            sh <= 0xffff_ffff,
    ;
    if sw * sh * 4 > isize::MAX as u128 || w0 * sh * 16 > isize::MAX as u128 {
        return false;
    }
    let dw = dst_w as u64;
    let dh = dst_h as u64;
    assert(dw * dh <= 0xffff_ffff * 0xffff_ffff) by (nonlinear_arith)
        requires
            dw <= 0xffff_ffff,
            dh <= 0xffff_ffff,
    ;
    dw * dh <= 0x3fff_ffff
}

/// Channel `k` (B, G, R, A order) of window pixel `(dx, dy)` when the
/// `sw × sh` RGBA image `scaled` is rotated clockwise by `rotation` and
/// placed centred in a `dst_w × dst_h` window, shifted by `offset`.
pub open spec fn render_channel(
    scaled: Seq<u8>,
    sw: int,
    sh: int,
    rotation: u16,
    offset: (i32, i32),
    dst_w: int,
    dst_h: int,
    dx: int,
    dy: int,
    k: int,
) -> u8 {
    let (rw, rh) = rotated_size(sw, sh, rotation);
    let sx = dx - blit_origin(dst_w, rw, offset.0 as int);
    let sy = dy - blit_origin(dst_h, rh, offset.1 as int);
    if 0 <= sx < rw && 0 <= sy < rh {
        rotated_channel(scaled, sw, sh, rotation, sx, sy, argb_source_channel(k))
    } else {
        0
    }
}

/// `out` is the window buffer that shows `scaled` rotated and placed.
pub open spec fn is_render_of(
    out: Seq<u8>,
    scaled: Seq<u8>,
    sw: int,
    sh: int,
    rotation: u16,
    offset: (i32, i32),
    dst_w: int,
    dst_h: int,
) -> bool {
    &&& out.len() == dst_w * dst_h * 4
    &&& forall|dx: int, dy: int, k: int|
        0 <= dx < dst_w && 0 <= dy < dst_h && 0 <= k < 4 ==> #[trigger] out[pixel_offset(
            dst_w,
            dx,
            dy,
            k,
        )] == render_channel(scaled, sw, sh, rotation, offset, dst_w, dst_h, dx, dy, k)
}

/// Render `src` into a `dst_w × dst_h` ARGB8888 buffer: scale it to
/// `scaled_w × scaled_h` with `filter`, rotate it clockwise by `rotation`
/// degrees (90, 180 or 270; other values do not rotate), and place it
/// centred, shifted by `offset`. Window pixels the image does not cover
/// are zero.
pub fn render(
    src: &RgbaImage,
    scaled_w: u32,
    scaled_h: u32,
    rotation: u16,
    offset: (i32, i32),
    dst_w: u32,
    dst_h: u32,
    filter: FilterMethod,
) -> (out: Vec<u8>)
    requires
        src.wf(),
        render_fits(src.width, scaled_w, scaled_h, dst_w, dst_h),
    ensures
        is_render_of(
            out@,
            spec_resize(src.pixels@, src.width, src.height, scaled_w, scaled_h, filter),
            scaled_w as int,
            scaled_h as int,
            rotation,
            offset,
            dst_w as int,
            dst_h as int,
        ),
        scaled_w == src.width && scaled_h == src.height ==> is_render_of(
            out@,
            src.pixels@,
            src.width as int,
            src.height as int,
            rotation,
            offset,
            dst_w as int,
            dst_h as int,
        ),
{
    let scaled = resize_rgba(&src.pixels, src.width, src.height, scaled_w, scaled_h, filter);
    let (rotated, rw, rh) = if rotation == 90 {
        (rotate90_rgba(&scaled, scaled_w, scaled_h), scaled_h, scaled_w)
    } else if rotation == 180 {
        (rotate180_rgba(&scaled, scaled_w, scaled_h), scaled_w, scaled_h)
    } else if rotation == 270 {
        (rotate270_rgba(&scaled, scaled_w, scaled_h), scaled_h, scaled_w)
    } else {
        proof {
            assert forall|x: int, y: int, c: int|
                0 <= x < scaled_w && 0 <= y < scaled_h && 0 <= c < 4 implies #[trigger] scaled@[pixel_offset(
                    scaled_w as int,
                    x,
                    y,
                    c,
                )] == rotated_channel(scaled@, scaled_w as int, scaled_h as int, rotation, x, y, c) by {}
        }
        (scaled, scaled_w, scaled_h)
    };
    assert(is_rotation_of(rotated@, scaled@, scaled_w as int, scaled_h as int, rotation));
    assert(rotated.len() == rw * rh * 4);
    let out = blit_centered(&rotated, rw, rh, offset, dst_w, dst_h);
    proof {
        let sw = scaled_w as int;
        let sh = scaled_h as int;
        assert forall|dx: int, dy: int, k: int|
            0 <= dx < dst_w && 0 <= dy < dst_h && 0 <= k < 4 implies #[trigger] out@[pixel_offset(
                dst_w as int,
                dx,
                dy,
                k,
            )] == render_channel(scaled@, sw, sh, rotation, offset, dst_w as int, dst_h as int, dx, dy, k) by {
            let sx = dx - blit_origin(dst_w as int, rw as int, offset.0 as int);
            let sy = dy - blit_origin(dst_h as int, rh as int, offset.1 as int);
            if 0 <= sx < rw && 0 <= sy < rh {
                assert(rotated@[pixel_offset(rw as int, sx, sy, argb_source_channel(k))]
                    == rotated_channel(scaled@, sw, sh, rotation, sx, sy, argb_source_channel(k)));
            }
        }
    }
    out
}

/// The image is centred for every image and window size, including images
/// larger than the window: window pixel
/// `(dst_w / 2 - iw / 2 + offset.0 + sx, dst_h / 2 - ih / 2 + offset.1 + sy)`,
/// when inside the window, shows image pixel `(sx, sy)`, its bytes stored
/// as B, G, R, A.
pub proof fn lemma_blit_centres_image(
    out: Seq<u8>,
    img: Seq<u8>,
    iw: int,
    ih: int,
    offset: (i32, i32),
    dst_w: int,
    dst_h: int,
    sx: int,
    sy: int,
)
    requires
        is_blit_of(out, img, iw, ih, offset, dst_w, dst_h),
        0 <= sx < iw,
        0 <= sy < ih,
        0 <= dst_w / 2 - iw / 2 + offset.0 + sx < dst_w,
        0 <= dst_h / 2 - ih / 2 + offset.1 + sy < dst_h,
    ensures
        ({
            let x = dst_w / 2 - iw / 2 + offset.0 + sx;
            let y = dst_h / 2 - ih / 2 + offset.1 + sy;
            let o = (y * dst_w + x) * 4;
            let p = (sy * iw + sx) * 4;
            &&& out[o] == img[p + 2]
            &&& out[o + 1] == img[p + 1]
            &&& out[o + 2] == img[p]
            &&& out[o + 3] == img[p + 3]
        }),
{
    let x = dst_w / 2 - iw / 2 + offset.0 + sx;
    let y = dst_h / 2 - ih / 2 + offset.1 + sy;
    assert(out[pixel_offset(dst_w, x, y, 0)] == blit_channel(img, iw, ih, blit_origin(dst_w, iw, offset.0 as int), blit_origin(dst_h, ih, offset.1 as int), x, y, 0));
    assert(out[pixel_offset(dst_w, x, y, 1)] == blit_channel(img, iw, ih, blit_origin(dst_w, iw, offset.0 as int), blit_origin(dst_h, ih, offset.1 as int), x, y, 1));
    assert(out[pixel_offset(dst_w, x, y, 2)] == blit_channel(img, iw, ih, blit_origin(dst_w, iw, offset.0 as int), blit_origin(dst_h, ih, offset.1 as int), x, y, 2));
    assert(out[pixel_offset(dst_w, x, y, 3)] == blit_channel(img, iw, ih, blit_origin(dst_w, iw, offset.0 as int), blit_origin(dst_h, ih, offset.1 as int), x, y, 3));
}

/// A window pixel that the centred image does not cover is zero.
pub proof fn lemma_blit_uncovered_is_zero(
    out: Seq<u8>,
    img: Seq<u8>,
    iw: int,
    ih: int,
    offset: (i32, i32),
    dst_w: int,
    dst_h: int,
    x: int,
    y: int,
    k: int,
)
    requires
        is_blit_of(out, img, iw, ih, offset, dst_w, dst_h),
        0 <= x < dst_w,
        0 <= y < dst_h,
        0 <= k < 4,
        !(0 <= x - (dst_w / 2 - iw / 2 + offset.0) < iw && 0 <= y - (dst_h / 2 - ih / 2 + offset.1) < ih),
    ensures
        out[(y * dst_w + x) * 4 + k] == 0,
{
    assert(out[pixel_offset(dst_w, x, y, k)] == blit_channel(img, iw, ih, blit_origin(dst_w, iw, offset.0 as int), blit_origin(dst_h, ih, offset.1 as int), x, y, k));
}

/// The rendered image, rotated, is centred in the window for every image
/// and window size: with `rw × rh` the size after rotation, window pixel
/// `(dst_w / 2 - rw / 2 + offset.0 + sx, dst_h / 2 - rh / 2 + offset.1 + sy)`,
/// when inside the window, shows pixel `(sx, sy)` of the rotated image.
pub proof fn lemma_render_centres_image(
    out: Seq<u8>,
    scaled: Seq<u8>,
    sw: int,
    sh: int,
    rotation: u16,
    offset: (i32, i32),
    dst_w: int,
    dst_h: int,
    sx: int,
    sy: int,
    k: int,
)
    requires
        is_render_of(out, scaled, sw, sh, rotation, offset, dst_w, dst_h),
        0 <= k < 4,
        ({
            let rw = if rotation == 90 || rotation == 270 { sh } else { sw };
            let rh = if rotation == 90 || rotation == 270 { sw } else { sh };
            &&& 0 <= sx < rw
            &&& 0 <= sy < rh
            &&& 0 <= dst_w / 2 - rw / 2 + offset.0 + sx < dst_w
            &&& 0 <= dst_h / 2 - rh / 2 + offset.1 + sy < dst_h
        }),
    ensures
        ({
            let rw = if rotation == 90 || rotation == 270 { sh } else { sw };
            let rh = if rotation == 90 || rotation == 270 { sw } else { sh };
            let x = dst_w / 2 - rw / 2 + offset.0 + sx;
            let y = dst_h / 2 - rh / 2 + offset.1 + sy;
            out[(y * dst_w + x) * 4 + k] == rotated_channel(scaled, sw, sh, rotation, sx, sy, if k == 3 { 3 } else { 2 - k })
        }),
{
    let rw = if rotation == 90 || rotation == 270 { sh } else { sw };
    let rh = if rotation == 90 || rotation == 270 { sw } else { sh };
    let x = dst_w / 2 - rw / 2 + offset.0 + sx;
    let y = dst_h / 2 - rh / 2 + offset.1 + sy;
    assert(out[pixel_offset(dst_w, x, y, k)] == render_channel(scaled, sw, sh, rotation, offset, dst_w, dst_h, x, y, k));
}

} // verus!
