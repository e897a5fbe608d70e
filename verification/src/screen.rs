//! The screen: its size, the buffer a capture of it fills, and the images
//! made from a capture.
use vstd::prelude::*;
use crate::errors::AutoGuiError;
use crate::image_specs::{
    gray_dims, gray_from_raw, gray_raw, rgba_dims, rgba_from_raw, rgba_raw, GrayImage, RgbaImage,
};
use crate::imgtools::{
    cut_screen_region_gray, cut_screen_region_rgba, lemma_region_pixel_of_image, region_bytes,
};

verus! {

/// The screen.
#[derive(Debug, Clone)]
pub struct Screen {
    pub screen_width: i32,
    pub screen_height: i32,
    pub screen_data: ScreenImgData,
}

/// What a capture of the screen works with: the size of the last region
/// asked for, the bytes of the last capture (blue, green, red and an unused
/// byte per pixel, row by row from the top), and the system's handles of the
/// screen's device context, of the memory device context a capture is drawn
/// into, and of the bitmap selected into it, as the integers the system
/// hands out.
#[derive(Debug, Clone)]
pub struct ScreenImgData {
    pub screen_region_width: u32,
    pub screen_region_height: u32,
    pub pixel_data: Vec<u8>,
    pub h_screen_dc: usize,
    pub h_memory_dc: usize,
    pub h_bitmap: usize,
}

impl ScreenImgData {
    /// The handles of the screen's device context, of the memory device
    /// context and of the bitmap, in this order.
    pub open spec fn handles(self) -> (usize, usize, usize) {
        (self.h_screen_dc, self.h_memory_dc, self.h_bitmap)
    }
}

/// The number of bytes of a capture of a screen of this size: four per
/// pixel, computed in 32-bit signed arithmetic.
pub open spec fn capture_len(width: i32, height: i32) -> int {
    width * height * 4
}

/// The size of a capture can be computed without overflow and is not
/// negative.
pub open spec fn capture_len_fits(width: i32, height: i32) -> bool {
    0 <= capture_len(width, height) <= i32::MAX
}

/// `n` zero bytes.
pub open spec fn zeroed(n: int) -> Seq<u8> {
    Seq::new(n as nat, |i: int| 0u8)
}

/// The gray level of a pixel: the weighted sum of its channels
/// (30% red, 59% green, 11% blue), rounded down.
pub open spec fn luminance(blue: u8, green: u8, red: u8) -> u8 {
    ((red as int * 30 + green as int * 59 + blue as int * 11) / 100) as u8
}

/// The gray levels of the whole pixels of a capture, four bytes (blue,
/// green, red, unused) per pixel; trailing bytes that make no whole pixel
/// are left out.
pub open spec fn grayscale_bytes(bgra: Seq<u8>) -> Seq<u8> {
    Seq::new(
        bgra.len() / 4,
        |i: int| luminance(bgra[4 * i], bgra[4 * i + 1], bgra[4 * i + 2]),
    )
}

/// `e` is an image error with this message.
pub open spec fn is_img_error(e: AutoGuiError, message: Seq<char>) -> bool {
    e matches AutoGuiError::ImgError(m) && m@ == message
}

/// The RGBA bytes of a capture: each whole pixel (blue, green, red, unused)
/// becomes red, green, blue and an opaque alpha of 255; trailing bytes that
/// make no whole pixel are kept as they are, so the buffer keeps its length.
pub open spec fn rgba_bytes(bgra: Seq<u8>) -> Seq<u8> {
    Seq::new(
        bgra.len(),
        |i: int|
            {
                let p = i / 4;
                let k = i % 4;
                if i >= bgra.len() / 4 * 4 {
                    bgra[i]
                } else if k == 0 {
                    bgra[4 * p + 2]
                } else if k == 1 {
                    bgra[4 * p + 1]
                } else if k == 2 {
                    bgra[4 * p]
                } else {
                    255u8
                }
            },
    )
}

/// The outcome of making an RGBA image `width` by `height` of a capture
/// `raw`: the image over the capture's RGBA bytes, when the capture holds
/// four bytes for each of its pixels, and the error "failed to convert to
/// RGBA" otherwise.
pub open spec fn rgba_outcome(r: Result<RgbaImage, AutoGuiError>, width: u32, height: u32, raw: Seq<u8>) -> bool {
    let rgba = rgba_bytes(raw);
    if 4 * width * height <= raw.len() {
        r matches Ok(img) && rgba_raw(img) == rgba && rgba_dims(img) == (width, height)
    } else {
        r matches Err(e) && is_img_error(e, "failed to convert to RGBA"@)
    }
}

/// The outcome of making the RGBA image `width` by `height` of a capture
/// `raw` and cutting `region` (left, top, width, height) out of it.
pub open spec fn cropped_rgba_outcome(
    r: Result<RgbaImage, AutoGuiError>,
    width: u32,
    height: u32,
    raw: Seq<u8>,
    region: (u32, u32, u32, u32),
) -> bool {
    let rgba = rgba_bytes(raw);
    if 4 * width * height <= raw.len() {
        r matches Ok(img) && rgba_dims(img) == (region.2, region.3) && rgba_raw(img)
            == region_bytes(rgba, width as int, 4, region.0 as int, region.1 as int, region.2 as int, region.3 as int)
    } else {
        r matches Err(e) && is_img_error(e, "failed to convert to RGBA"@)
    }
}

/// The outcome of making a grayscale image `width` by `height` of the gray
/// levels of a capture `raw`: the image, when there is a gray level for
/// each of its pixels, and the error "could not convert image to grayscale"
/// otherwise.
pub open spec fn gray_outcome(r: Result<GrayImage, AutoGuiError>, width: u32, height: u32, raw: Seq<u8>) -> bool {
    let gray = grayscale_bytes(raw);
    if width * height <= gray.len() {
        r matches Ok(img) && gray_raw(img) == gray && gray_dims(img) == (width, height)
    } else {
        r matches Err(e) && is_img_error(e, "could not convert image to grayscale"@)
    }
}

/// The outcome of making the grayscale image of a capture `raw` and cutting
/// `region` (left, top, width, height) out of it.
pub open spec fn cropped_gray_outcome(
    r: Result<GrayImage, AutoGuiError>,
    width: u32,
    height: u32,
    raw: Seq<u8>,
    region: (u32, u32, u32, u32),
) -> bool {
    let gray = grayscale_bytes(raw);
    if width * height <= gray.len() {
        r matches Ok(img) && gray_dims(img) == (region.2, region.3) && gray_raw(img)
            == region_bytes(gray, width as int, 1, region.0 as int, region.1 as int, region.2 as int, region.3 as int)
    } else {
        r matches Err(e) && is_img_error(e, "could not convert image to grayscale"@)
    }
}

/// The smallest of three channel values.
pub open spec fn min3(a: u8, b: u8, c: u8) -> int {
    if a <= b && a <= c {
        a as int
    } else if b <= c {
        b as int
    } else {
        c as int
    }
}

/// The largest of three channel values.
pub open spec fn max3(a: u8, b: u8, c: u8) -> int {
    if a >= b && a >= c {
        a as int
    } else if b >= c {
        b as int
    } else {
        c as int
    }
}

/// A pixel's gray level lies between its darkest and its brightest
/// channel; a pixel whose channels are equal keeps that level.
pub proof fn lemma_luminance_between(blue: u8, green: u8, red: u8)
    ensures
        min3(blue, green, red) <= luminance(blue, green, red) <= max3(blue, green, red),
        blue == green && green == red ==> luminance(blue, green, red) == red,
{
    let lo = min3(blue, green, red);
    let hi = max3(blue, green, red);
    let sum = red as int * 30 + green as int * 59 + blue as int * 11;
    assert(100 * lo <= sum <= 100 * hi);
    assert(lo <= sum / 100 <= hi);
}

/// The gray level of a captured pixel whose blue, green and red bytes
/// are those given is the weighted sum 30% red, 59% green, 11% blue,
/// rounded down.
proof fn lemma_luminance_formula(blue: u8, green: u8, red: u8)
    ensures
        luminance(blue, green, red) as int == (red as int * 30 + green as int * 59 + blue as int
            * 11) / 100,
{
    let sum = red as int * 30 + green as int * 59 + blue as int * 11;
    assert(0 <= sum <= 25500);
    assert(0 <= sum / 100 <= 255);
}

/// Pixel `p` of the RGBA image of a capture is the capture's pixel `p`: its
/// red, green and blue bytes in that order, then an opaque alpha; the image
/// holds as many bytes as the capture.
pub proof fn lemma_rgba_image_pixels(r: Result<RgbaImage, AutoGuiError>, width: u32, height: u32, raw: Seq<u8>)
    requires
        rgba_outcome(r, width, height, raw),
    ensures
        r matches Ok(img) ==> rgba_raw(img).len() == raw.len() && forall|p: int|
            0 <= p && 4 * p + 3 < raw.len() ==> {
                &&& #[trigger] rgba_raw(img)[4 * p] == raw[4 * p + 2]
                &&& rgba_raw(img)[4 * p + 1] == raw[4 * p + 1]
                &&& rgba_raw(img)[4 * p + 2] == raw[4 * p]
                &&& rgba_raw(img)[4 * p + 3] == 255
            },
{
    if let Ok(img) = r {
        assert forall|p: int| 0 <= p && 4 * p + 3 < raw.len() implies {
            &&& #[trigger] rgba_raw(img)[4 * p] == raw[4 * p + 2]
            &&& rgba_raw(img)[4 * p + 1] == raw[4 * p + 1]
            &&& rgba_raw(img)[4 * p + 2] == raw[4 * p]
            &&& rgba_raw(img)[4 * p + 3] == 255
        } by {
            assert(p < raw.len() / 4);
            assert(4 * p + 3 < raw.len() / 4 * 4);
            assert((4 * p) / 4 == p && (4 * p + 1) / 4 == p && (4 * p + 2) / 4 == p && (4 * p + 3)
                / 4 == p);
            assert((4 * p) % 4 == 0 && (4 * p + 1) % 4 == 1 && (4 * p + 2) % 4 == 2 && (4 * p + 3)
                % 4 == 3);
        }
    }
}

/// Pixel `p` of the grayscale image of a capture is the gray level of the
/// capture's pixel `p`, computed from its blue, green and red bytes; the
/// image holds one byte for each whole pixel of the capture.
pub proof fn lemma_gray_image_pixels(r: Result<GrayImage, AutoGuiError>, width: u32, height: u32, raw: Seq<u8>)
    requires
        gray_outcome(r, width, height, raw),
    ensures
        r matches Ok(img) ==> gray_raw(img).len() == raw.len() / 4 && forall|p: int|
            0 <= p < raw.len() / 4 ==> #[trigger] gray_raw(img)[p] as int == (raw[4 * p + 2] as int
                * 30 + raw[4 * p + 1] as int * 59 + raw[4 * p] as int * 11) / 100,
{
    if let Ok(img) = r {
        assert forall|p: int| 0 <= p < raw.len() / 4 implies #[trigger] gray_raw(img)[p] as int == (
        raw[4 * p + 2] as int * 30 + raw[4 * p + 1] as int * 59 + raw[4 * p] as int * 11) / 100 by {
            lemma_luminance_formula(raw[4 * p], raw[4 * p + 1], raw[4 * p + 2]);
        }
    }
}

/// Pixel `(i, j)` of the grayscale grab of a region that lies inside the
/// screen is the gray level of the captured pixel `(x + i, y + j)`, computed
/// from its blue, green and red bytes.
pub proof fn lemma_gray_grab_pixels(
    r: Result<GrayImage, AutoGuiError>,
    width: u32,
    height: u32,
    raw: Seq<u8>,
    region: (u32, u32, u32, u32),
)
    requires
        cropped_gray_outcome(r, width, height, raw, region),
        region.0 + region.2 <= width,
        region.1 + region.3 <= height,
    ensures
        r matches Ok(img) ==> gray_dims(img) == (region.2, region.3) && forall|i: int, j: int|
            0 <= i < region.2 && 0 <= j < region.3 ==> {
                let q = (region.1 + j) * width + region.0 + i;
                #[trigger] gray_raw(img)[j * region.2 + i] as int == (raw[4 * q + 2] as int * 30
                    + raw[4 * q + 1] as int * 59 + raw[4 * q] as int * 11) / 100
            },
{
    if let Ok(img) = r {
        let gray = grayscale_bytes(raw);
        assert forall|i: int, j: int| 0 <= i < region.2 && 0 <= j < region.3 implies {
            let q = (region.1 + j) * width + region.0 + i;
            #[trigger] gray_raw(img)[j * region.2 + i] as int == (raw[4 * q + 2] as int * 30
                + raw[4 * q + 1] as int * 59 + raw[4 * q] as int * 11) / 100
        } by {
            let q = (region.1 + j) * width + region.0 + i;
            assert(gray.len() >= 1 * width * height);
            lemma_region_pixel_of_image(
                gray,
                width as int,
                height as int,
                1,
                region.0 as int,
                region.1 as int,
                region.2 as int,
                region.3 as int,
                i,
                j,
                0,
            );
            assert((j * region.2 + i) * 1 + 0 == j * region.2 + i);
            assert(q * 1 + 0 == q);
            lemma_luminance_formula(raw[4 * q], raw[4 * q + 1], raw[4 * q + 2]);
        }
    }
}

/// Pixel `(i, j)` of the RGBA grab of a region that lies inside the screen
/// is the captured pixel `(x + i, y + j)`: its red, green and blue bytes in
/// that order, then an opaque alpha.
pub proof fn lemma_rgba_grab_pixels(
    r: Result<RgbaImage, AutoGuiError>,
    width: u32,
    height: u32,
    raw: Seq<u8>,
    region: (u32, u32, u32, u32),
)
    requires
        cropped_rgba_outcome(r, width, height, raw, region),
        region.0 + region.2 <= width,
        region.1 + region.3 <= height,
    ensures
        r matches Ok(img) ==> rgba_dims(img) == (region.2, region.3) && forall|i: int, j: int|
            0 <= i < region.2 && 0 <= j < region.3 ==> {
                let q = (region.1 + j) * width + region.0 + i;
                let n = (j * region.2 + i) * 4;
                &&& #[trigger] rgba_raw(img)[(j * region.2 + i) * 4] == raw[4 * q + 2]
                &&& rgba_raw(img)[n + 1] == raw[4 * q + 1]
                &&& rgba_raw(img)[n + 2] == raw[4 * q]
                &&& rgba_raw(img)[n + 3] == 255
            },
{
    if let Ok(img) = r {
        let rgba = rgba_bytes(raw);
        assert forall|i: int, j: int| 0 <= i < region.2 && 0 <= j < region.3 implies {
            let q = (region.1 + j) * width + region.0 + i;
            let n = (j * region.2 + i) * 4;
            &&& #[trigger] rgba_raw(img)[(j * region.2 + i) * 4] == raw[4 * q + 2]
            &&& rgba_raw(img)[n + 1] == raw[4 * q + 1]
            &&& rgba_raw(img)[n + 2] == raw[4 * q]
            &&& rgba_raw(img)[n + 3] == 255
        } by {
            let q = (region.1 + j) * width + region.0 + i;
            let n = (j * region.2 + i) * 4;
            let (x, y, w, h) = (region.0 as int, region.1 as int, region.2 as int, region.3 as int);
            assert(rgba.len() >= 4 * width * height);
            lemma_region_pixel_of_image(rgba, width as int, height as int, 4, x, y, w, h, i, j, 0);
            lemma_region_pixel_of_image(rgba, width as int, height as int, 4, x, y, w, h, i, j, 1);
            lemma_region_pixel_of_image(rgba, width as int, height as int, 4, x, y, w, h, i, j, 2);
            lemma_region_pixel_of_image(rgba, width as int, height as int, 4, x, y, w, h, i, j, 3);
            assert(q * 4 == 4 * q);
            assert(4 * q + 3 < 4 * width * height);
            assert(4 * q + 3 < raw.len() / 4 * 4);
            assert((4 * q) / 4 == q && (4 * q + 1) / 4 == q && (4 * q + 2) / 4 == q && (4 * q + 3)
                / 4 == q);
            assert((4 * q) % 4 == 0 && (4 * q + 1) % 4 == 1 && (4 * q + 2) % 4 == 2 && (4 * q + 3)
                % 4 == 3);
        }
    }
}

/// The two captures have the same length and the same colour bytes: they
/// differ at most in the unused fourth byte of a pixel.
pub open spec fn same_colours(a: Seq<u8>, b: Seq<u8>) -> bool {
    &&& a.len() == b.len()
    &&& forall|j: int| 0 <= j < a.len() && j % 4 != 3 ==> #[trigger] a[j] == b[j]
}

/// Neither the gray levels nor the RGBA bytes of a capture read the unused
/// fourth byte of a pixel: captures with the same colour bytes give the same
/// images, or the same error.
pub proof fn lemma_conversions_ignore_unused_byte(a: Seq<u8>, b: Seq<u8>)
    requires
        same_colours(a, b),
    ensures
        grayscale_bytes(a) == grayscale_bytes(b),
        rgba_bytes(a) == rgba_bytes(b),
        forall|r: Result<GrayImage, AutoGuiError>, width: u32, height: u32|
            #[trigger] gray_outcome(r, width, height, a) == gray_outcome(r, width, height, b),
        forall|r: Result<RgbaImage, AutoGuiError>, width: u32, height: u32|
            #[trigger] rgba_outcome(r, width, height, a) == rgba_outcome(r, width, height, b),
{
    assert forall|i: int| 0 <= i < a.len() / 4 implies grayscale_bytes(a)[i] == grayscale_bytes(b)[i] by {
        assert((4 * i) % 4 == 0 && (4 * i + 1) % 4 == 1 && (4 * i + 2) % 4 == 2);
        assert(a[4 * i] == b[4 * i]);
        assert(a[4 * i + 1] == b[4 * i + 1]);
        assert(a[4 * i + 2] == b[4 * i + 2]);
    }
    assert(grayscale_bytes(a) =~= grayscale_bytes(b));
    assert forall|i: int| 0 <= i < a.len() implies rgba_bytes(a)[i] == rgba_bytes(b)[i] by {
        let p = i / 4;
        if i >= a.len() / 4 * 4 {
            assert(i % 4 != 3);
            assert(a[i] == b[i]);
        } else {
            assert(0 <= p < a.len() / 4);
            assert((4 * p) % 4 == 0 && (4 * p + 1) % 4 == 1 && (4 * p + 2) % 4 == 2);
            assert(a[4 * p] == b[4 * p]);
            assert(a[4 * p + 1] == b[4 * p + 1]);
            assert(a[4 * p + 2] == b[4 * p + 2]);
        }
    }
    assert(rgba_bytes(a) =~= rgba_bytes(b));
}

/// A call on a screen that sets the region or keeps it: the grab of an
/// RGBA region, the grab of a grayscale region, or a screenshot.
#[derive(Debug, Clone, Copy)]
pub enum ScreenOp {
    Grab((u32, u32, u32, u32)),
    GrabGrayscale((u32, u32, u32, u32)),
    Screenshot,
}

/// The region size a screen has after `op`, if it had `region` before.
pub open spec fn region_after_op(region: (u32, u32), op: ScreenOp) -> (u32, u32) {
    match op {
        ScreenOp::Grab(r) => (r.2, r.3),
        ScreenOp::GrabGrayscale(r) => (r.2, r.3),
        ScreenOp::Screenshot => region,
    }
}

/// The region size after a sequence of calls: that of the last grab, or
/// `region` where there was none.
pub open spec fn region_after(region: (u32, u32), ops: Seq<ScreenOp>) -> (u32, u32)
    decreases ops.len(),
{
    if ops.len() == 0 {
        region
    } else {
        region_after_op(region_after(region, ops.drop_last()), ops.last())
    }
}

/// `after` is `before` after the call `op`, as far as the screen's size,
/// handles and region go: the size and handles are kept, and the region is
/// set by a grab and kept by a screenshot.
pub open spec fn op_effect(before: Screen, op: ScreenOp, after: Screen) -> bool {
    &&& after.screen_width == before.screen_width
    &&& after.screen_height == before.screen_height
    &&& after.screen_data.handles() == before.screen_data.handles()
    &&& (after.screen_data.screen_region_width, after.screen_data.screen_region_height)
        == region_after_op(
        (before.screen_data.screen_region_width, before.screen_data.screen_region_height),
        op,
    )
}

/// Over any sequence of grabs and screenshots, whether each succeeds or
/// fails, a screen keeps its size and handles, and its region is that of
/// the last grab (or the one it had, where there was none).
pub proof fn lemma_grab_sequence(screens: Seq<Screen>, ops: Seq<ScreenOp>)
    requires
        screens.len() == ops.len() + 1,
        forall|i: int| 0 <= i < ops.len() ==> op_effect(#[trigger] screens[i], ops[i], screens[i + 1]),
    ensures
        screens.last().dimension_spec() == screens[0].dimension_spec(),
        screens.last().screen_data.handles() == screens[0].screen_data.handles(),
        screens.last().region_spec() == region_after(screens[0].region_spec(), ops),
    decreases ops.len(),
{
    if ops.len() > 0 {
        let n = ops.len() - 1;
        let fewer = screens.drop_last();
        assert forall|i: int| 0 <= i < ops.drop_last().len() implies op_effect(
            #[trigger] fewer[i],
            ops.drop_last()[i],
            fewer[i + 1],
        ) by {
            assert(op_effect(screens[i], ops[i], screens[i + 1]));
        }
        lemma_grab_sequence(fewer, ops.drop_last());
        assert(op_effect(screens[n], ops[n], screens[n + 1]));
        assert(fewer.last() == screens[n]);
    }
}

/// `n` zero bytes.
fn zeroed_bytes(n: usize) -> (v: Vec<u8>)
    ensures
        v@ == zeroed(n as int),
{
    let mut v: Vec<u8> = Vec::new();
    let mut i: usize = 0;
    while i < n
        invariant
            i <= n,
            v@ == zeroed(i as int),
        decreases n - i,
    {
        v.push(0u8);
        i = i + 1;
    }
    v
}

/// The RGBA bytes of a capture.
fn bgra_to_rgba(data: &Vec<u8>) -> (out: Vec<u8>)
    ensures
        out@ == rgba_bytes(data@),
{
    let pixels: usize = data.len() / 4;
    let mut out: Vec<u8> = Vec::new();
    let mut i: usize = 0;
    while i < pixels
        invariant
            i <= pixels,
            pixels == data@.len() / 4,
            pixels * 4 <= data.len(),
            out@ == rgba_bytes(data@).take(4 * i),
        decreases pixels - i,
    {
        let ghost before = out@;
        out.push(data[4 * i + 2]);
        out.push(data[4 * i + 1]);
        out.push(data[4 * i]);
        out.push(255u8);
        proof {
            let all = rgba_bytes(data@);
            let j = 4 * i as int;
            assert(j / 4 == i && (j + 1) / 4 == i && (j + 2) / 4 == i && (j + 3) / 4 == i);
            assert(j % 4 == 0 && (j + 1) % 4 == 1 && (j + 2) % 4 == 2 && (j + 3) % 4 == 3);
            assert(all[j] == data@[j + 2]);
            assert(all[j + 1] == data@[j + 1]);
            assert(all[j + 2] == data@[j]);
            assert(all[j + 3] == 255u8);
            assert(out@ =~= all.take(j + 4));
        }
        i = i + 1;
    }
    let mut j: usize = 4 * pixels;
    while j < data.len()
        invariant
            4 * pixels <= j <= data.len(),
            pixels == data@.len() / 4,
            out@ == rgba_bytes(data@).take(j as int),
        decreases data.len() - j,
    {
        out.push(data[j]);
        proof {
            assert(out@ =~= rgba_bytes(data@).take(j + 1));
        }
        j = j + 1;
    }
    proof {
        assert(rgba_bytes(data@).take(data@.len() as int) =~= rgba_bytes(data@));
    }
    out
}

/// The gray level of one pixel.
fn pixel_luminance(blue: u8, green: u8, red: u8) -> (gray: u8)
    ensures
        gray == luminance(blue, green, red),
{
    let r = red as u32;
    let g = green as u32;
    let b = blue as u32;
    ((r * 30 + g * 59 + b * 11) / 100) as u8
}

impl Screen {
    /// The screen's width and height.
    pub open spec fn dimension_spec(self) -> (i32, i32) {
        (self.screen_width, self.screen_height)
    }

    /// The width and height of the last region asked for.
    pub open spec fn region_spec(self) -> (u32, u32) {
        (self.screen_data.screen_region_width, self.screen_data.screen_region_height)
    }

    /// The screen of the given size, with the given device handles: the
    /// region is the whole screen (its size read as unsigned) and the pixel
    /// buffer holds zeros for a whole capture.
    pub fn new(
        screen_width: i32,
        screen_height: i32,
        h_screen_dc: usize,
        h_memory_dc: usize,
        h_bitmap: usize,
    ) -> (screen: Screen)
        requires
            capture_len_fits(screen_width, screen_height),
        ensures
            screen.screen_width == screen_width,
            screen.screen_height == screen_height,
            screen.screen_data.screen_region_width == screen_width as u32,
            screen.screen_data.screen_region_height == screen_height as u32,
            screen.screen_data.pixel_data@ == zeroed(capture_len(screen_width, screen_height)),
            screen.screen_data.handles() == (h_screen_dc, h_memory_dc, h_bitmap),
    {
        let len = screen_width * screen_height * 4;
        let screen_data = ScreenImgData {
            screen_region_height: screen_height as u32,
            screen_region_width: screen_width as u32,
            pixel_data: zeroed_bytes(len as usize),
            h_screen_dc,
            h_memory_dc,
            h_bitmap,
        };
        Screen { screen_height, screen_width, screen_data }
    }

    /// The screen's width and height.
    pub fn dimension(&self) -> (d: (i32, i32))
        ensures
            d == self.dimension_spec(),
    {
        (self.screen_width, self.screen_height)
    }

    /// The width and height of the last region asked for.
    pub fn region_dimension(&self) -> (d: (u32, u32))
        ensures
            d == self.region_spec(),
    {
        (self.screen_data.screen_region_width, self.screen_data.screen_region_height)
    }

    /// The zeroed buffer a capture of the whole screen is written into.
    pub fn capture_buffer(&self) -> (buffer: Vec<u8>)
        requires
            capture_len_fits(self.screen_width, self.screen_height),
        ensures
            buffer@ == zeroed(capture_len(self.screen_width, self.screen_height)),
    {
        let len = self.screen_width * self.screen_height * 4;
        zeroed_bytes(len as usize)
    }

    /// Keeps the bytes of a capture that succeeded as the screen's pixel
    /// data, and passes on the failure of one that did not, keeping the
    /// pixel data there was.
    fn capture_screen(&mut self, capture: Result<Vec<u8>, AutoGuiError>) -> (r: Result<(), AutoGuiError>)
        ensures
            final(self).screen_width == old(self).screen_width,
            final(self).screen_height == old(self).screen_height,
            final(self).screen_data.screen_region_width == old(self).screen_data.screen_region_width,
            final(self).screen_data.screen_region_height == old(self).screen_data.screen_region_height,
            final(self).screen_data.handles() == old(self).screen_data.handles(),
            match capture {
                Ok(data) => r is Ok && final(self).screen_data.pixel_data@ == data@,
                Err(e) => r == Err::<(), AutoGuiError>(e) && final(self).screen_data.pixel_data@
                    == old(self).screen_data.pixel_data@,
            },
    {
        match capture {
            Ok(bitmap_data) => {
                self.screen_data.pixel_data = bitmap_data;
                Ok(())
            },
            Err(e) => Err(e),
        }
    }

    /// The grayscale image of the last capture, the size of the screen.
    pub fn convert_bitmap_to_grayscale(&self) -> (r: Result<GrayImage, AutoGuiError>)
        requires
            0 <= self.screen_width * self.screen_height <= i32::MAX,
        ensures
            gray_outcome(
                r,
                self.screen_width as u32,
                self.screen_height as u32,
                self.screen_data.pixel_data@,
            ),
    {
        let data = &self.screen_data.pixel_data;
        let mut grayscale_data: Vec<u8> = Vec::with_capacity(
            (self.screen_width * self.screen_height) as usize,
        );
        let pixels: usize = data.len() / 4;
        let mut i: usize = 0;
        while i < pixels
            invariant
                i <= pixels,
                pixels == data@.len() / 4,
                pixels * 4 <= data.len(),
                grayscale_data@ == grayscale_bytes(data@).take(i as int),
            decreases pixels - i,
        {
            let gray_value = pixel_luminance(data[4 * i], data[4 * i + 1], data[4 * i + 2]);
            grayscale_data.push(gray_value);
            proof {
                assert(grayscale_bytes(data@).take(i + 1) == grayscale_bytes(data@).take(
                    i as int,
                ).push(gray_value));
            }
            i = i + 1;
        }
        proof {
            assert(grayscale_bytes(data@).take(pixels as int) == grayscale_bytes(data@));
        }
        match gray_from_raw(self.screen_width as u32, self.screen_height as u32, grayscale_data) {
            Some(image) => Ok(image),
            None => Err(AutoGuiError::ImgError("could not convert image to grayscale".to_owned())),
        }
    }

    /// The RGBA image of the last capture, the size of the screen.
    pub fn convert_bitmap_to_rgba(&self) -> (r: Result<RgbaImage, AutoGuiError>)
        ensures
            rgba_outcome(
                r,
                self.screen_width as u32,
                self.screen_height as u32,
                self.screen_data.pixel_data@,
            ),
    {
        match rgba_from_raw(
            self.screen_width as u32,
            self.screen_height as u32,
            bgra_to_rgba(&self.screen_data.pixel_data),
        ) {
            Some(image) => Ok(image),
            None => Err(AutoGuiError::ImgError("failed to convert to RGBA".to_owned())),
        }
    }

    /// Takes `capture`, the outcome of capturing the whole screen, and returns
    /// the RGBA image of `region` (left, top, width, height) of it. The
    /// region's size is kept as the region asked for, whatever the outcome.
    /// Where the image can be made, the region must lie inside it.
    pub fn grab_screen_image(&mut self, region: (u32, u32, u32, u32), capture: Result<Vec<u8>, AutoGuiError>) -> (r: Result<RgbaImage, AutoGuiError>)
        requires
            capture matches Ok(data) && 4 * (old(self).screen_width as u32) * (old(
                self,
            ).screen_height as u32) <= data@.len() ==> region.0 + region.2 <= old(
                self,
            ).screen_width as u32 && region.1 + region.3 <= old(self).screen_height as u32,
        ensures
            final(self).screen_width == old(self).screen_width,
            final(self).screen_height == old(self).screen_height,
            final(self).screen_data.screen_region_width == region.2,
            final(self).screen_data.screen_region_height == region.3,
            final(self).screen_data.handles() == old(self).screen_data.handles(),
            op_effect(*old(self), ScreenOp::Grab(region), *final(self)),
            match capture {
                Ok(data) => final(self).screen_data.pixel_data@ == data@ && cropped_rgba_outcome(
                    r,
                    old(self).screen_width as u32,
                    old(self).screen_height as u32,
                    data@,
                    region,
                ),
                Err(e) => r == Err::<RgbaImage, AutoGuiError>(e) && final(self).screen_data.pixel_data@
                    == old(self).screen_data.pixel_data@,
            },
    {
        let (x, y, width, height) = region;
        self.screen_data.screen_region_width = width;
        self.screen_data.screen_region_height = height;
        match self.capture_screen(capture) {
            Ok(()) => {},
            Err(e) => {
                return Err(e);
            },
        }
        let image = match self.convert_bitmap_to_rgba() {
            Ok(image) => image,
            Err(e) => {
                return Err(e);
            },
        };
        let cropped_image = cut_screen_region_rgba(x, y, width, height, &image);
        Ok(cropped_image)
    }

    /// Takes `capture`, the outcome of capturing the whole screen, and returns
    /// the grayscale image of `region` (left, top, width, height) of it. The
    /// region's size is kept as the region asked for, whatever the outcome.
    /// Where the image can be made, the region must lie inside it.
    pub fn grab_screen_image_grayscale(&mut self, region: &(u32, u32, u32, u32), capture: Result<Vec<u8>, AutoGuiError>) -> (r: Result<GrayImage, AutoGuiError>)
        requires
            capture is Ok ==> 0 <= old(self).screen_width * old(self).screen_height <= i32::MAX,
            capture matches Ok(data) && (old(self).screen_width as u32) * (old(
                self,
            ).screen_height as u32) <= grayscale_bytes(data@).len() ==> region.0 + region.2 <= old(
                self,
            ).screen_width as u32 && region.1 + region.3 <= old(self).screen_height as u32,
        ensures
            final(self).screen_width == old(self).screen_width,
            final(self).screen_height == old(self).screen_height,
            final(self).screen_data.screen_region_width == region.2,
            final(self).screen_data.screen_region_height == region.3,
            final(self).screen_data.handles() == old(self).screen_data.handles(),
            op_effect(*old(self), ScreenOp::GrabGrayscale(*region), *final(self)),
            match capture {
                Ok(data) => final(self).screen_data.pixel_data@ == data@ && cropped_gray_outcome(
                    r,
                    old(self).screen_width as u32,
                    old(self).screen_height as u32,
                    data@,
                    *region,
                ),
                Err(e) => r == Err::<GrayImage, AutoGuiError>(e) && final(self).screen_data.pixel_data@
                    == old(self).screen_data.pixel_data@,
            },
    {
        let (x, y, width, height) = *region;
        self.screen_data.screen_region_width = width;
        self.screen_data.screen_region_height = height;
        match self.capture_screen(capture) {
            Ok(()) => {},
            Err(e) => {
                return Err(e);
            },
        }
        let image = match self.convert_bitmap_to_grayscale() {
            Ok(image) => image,
            Err(e) => {
                return Err(e);
            },
        };
        let cropped_image = cut_screen_region_gray(x, y, width, height, &image);
        Ok(cropped_image)
    }

    /// Takes `capture`, the outcome of capturing the whole screen, and returns
    /// the RGBA image of all of it, the image a screenshot saves.
    pub fn grab_screenshot(&mut self, capture: Result<Vec<u8>, AutoGuiError>) -> (r: Result<RgbaImage, AutoGuiError>)
        ensures
            final(self).screen_width == old(self).screen_width,
            final(self).screen_height == old(self).screen_height,
            final(self).screen_data.screen_region_width == old(self).screen_data.screen_region_width,
            final(self).screen_data.screen_region_height == old(self).screen_data.screen_region_height,
            final(self).screen_data.handles() == old(self).screen_data.handles(),
            op_effect(*old(self), ScreenOp::Screenshot, *final(self)),
            match capture {
                Ok(data) => final(self).screen_data.pixel_data@ == data@ && rgba_outcome(
                    r,
                    old(self).screen_width as u32,
                    old(self).screen_height as u32,
                    data@,
                ),
                Err(e) => r == Err::<RgbaImage, AutoGuiError>(e) && final(self).screen_data.pixel_data@
                    == old(self).screen_data.pixel_data@,
            },
    {
        match self.capture_screen(capture) {
            Ok(()) => {},
            Err(e) => {
                return Err(e);
            },
        }
        self.convert_bitmap_to_rgba()
    }
}

} // verus!
