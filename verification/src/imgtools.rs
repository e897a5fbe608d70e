//! Cutting a region out of an image.
use vstd::prelude::*;
use crate::image_specs::{
    gray_as_raw, gray_dimensions, gray_dims, gray_from_raw, gray_raw, rgba_as_raw,
    rgba_dimensions, rgba_dims, rgba_from_raw, rgba_raw, GrayImage, RgbaImage,
};

verus! {

/// The bytes of the region `width` pixels wide and `rows` pixels high whose
/// top-left pixel is `(x, y)`, in an image `image_width` pixels wide stored
/// row by row with `channels` bytes per pixel: the region's rows from top
/// to bottom, each the run of `width * channels` bytes of its image row
/// that starts at column `x`.
pub open spec fn region_bytes(
    raw: Seq<u8>,
    image_width: int,
    channels: int,
    x: int,
    y: int,
    width: int,
    rows: int,
) -> Seq<u8>
    decreases rows,
{
    if rows <= 0 {
        Seq::empty()
    } else {
        let r = rows - 1;
        let start = ((y + r) * image_width + x) * channels;
        region_bytes(raw, image_width, channels, x, y, width, rows - 1) + raw.subrange(
            start,
            start + width * channels,
        )
    }
}

/// A region has `channels` bytes for each of its pixels.
pub proof fn lemma_region_bytes_len(
    raw: Seq<u8>,
    image_width: int,
    channels: int,
    x: int,
    y: int,
    width: int,
    rows: int,
)
    requires
        rows >= 0,
        width >= 0,
        channels >= 0,
        forall|r: int|
            0 <= r < rows ==> 0 <= #[trigger] ((y + r) * image_width + x) * channels && ((y + r)
                * image_width + x) * channels + width * channels <= raw.len(),
    ensures
        region_bytes(raw, image_width, channels, x, y, width, rows).len() == rows * width * channels,
    decreases rows,
{
    if rows > 0 {
        let r = rows - 1;
        let start = ((y + r) * image_width + x) * channels;
        assert(0 <= start && start + width * channels <= raw.len());
        assert(width * channels >= 0) by (nonlinear_arith)
            requires
                width >= 0,
                channels >= 0,
        ;
        lemma_region_bytes_len(raw, image_width, channels, x, y, width, r);
        assert(raw.subrange(start, start + width * channels).len() == width * channels);
        assert(r * width * channels + width * channels == rows * width * channels)
            by (nonlinear_arith)
            requires
                r == rows - 1,
        ;
    } else {
        assert(rows * width * channels == 0) by (nonlinear_arith)
            requires
                rows == 0,
        ;
    }
}

/// The region that covers a whole image, from its top-left pixel, is all of
/// the image's pixel bytes, in order.
pub proof fn lemma_whole_image_region(raw: Seq<u8>, image_width: int, image_height: int, channels: int)
    requires
        image_width >= 0,
        image_height >= 0,
        channels >= 1,
        raw.len() >= channels * image_width * image_height,
    ensures
        region_bytes(raw, image_width, channels, 0, 0, image_width, image_height) == raw.subrange(
            0,
            image_height * image_width * channels,
        ),
    decreases image_height,
{
    if image_height > 0 {
        let r = image_height - 1;
        assert(channels * image_width * r <= channels * image_width * image_height)
            by (nonlinear_arith)
            requires
                r < image_height,
                channels >= 1,
                image_width >= 0,
        ;
        lemma_whole_image_region(raw, image_width, r, channels);
        let start = ((0 + r) * image_width + 0) * channels;
        assert(start == r * image_width * channels) by (nonlinear_arith)
            requires
                start == ((0 + r) * image_width + 0) * channels,
        ;
        assert(start + image_width * channels == image_height * image_width * channels)
            by (nonlinear_arith)
            requires
                start == r * image_width * channels,
                r == image_height - 1,
        ;
        assert(image_height * image_width * channels == channels * image_width * image_height)
            by (nonlinear_arith);
        assert(0 <= start) by (nonlinear_arith)
            requires
                start == r * image_width * channels,
                r >= 0,
                image_width >= 0,
                channels >= 1,
        ;
        assert(raw.subrange(0, start) + raw.subrange(start, start + image_width * channels)
            =~= raw.subrange(0, image_height * image_width * channels));
    } else {
        assert(image_height * image_width * channels == 0) by (nonlinear_arith)
            requires
                image_height == 0,
        ;
    }
}

/// Every row of a region that fits in the image lies inside the image's
/// bytes.
proof fn lemma_region_row_inside(
    len: int,
    image_width: int,
    image_height: int,
    channels: int,
    x: int,
    y: int,
    width: int,
    height: int,
    r: int,
)
    requires
        0 <= x,
        0 <= y,
        0 <= width,
        1 <= channels,
        x + width <= image_width,
        y + height <= image_height,
        0 <= r < height,
        len >= channels * image_width * image_height,
    ensures
        0 <= (y + r) * image_width,
        (y + r) * image_width + x <= ((y + r) * image_width + x) * channels,
        0 <= ((y + r) * image_width + x) * channels,
        ((y + r) * image_width + x) * channels + width * channels <= len,
{
    assert(0 <= (y + r) * image_width) by (nonlinear_arith)
        requires
            0 <= y,
            0 <= r,
            0 <= image_width,
    ;
    assert((y + r) * image_width + x <= ((y + r) * image_width + x) * channels) by (nonlinear_arith)
        requires
            0 <= (y + r) * image_width + x,
            1 <= channels,
    ;
    assert(0 <= ((y + r) * image_width + x) * channels) by (nonlinear_arith)
        requires
            0 <= x,
            0 <= y,
            0 <= r,
            0 <= image_width,
            1 <= channels,
    ;
    assert(((y + r) * image_width + x) * channels + width * channels <= (y + r + 1) * image_width
        * channels) by (nonlinear_arith)
        requires
            x + width <= image_width,
            1 <= channels,
    ;
    assert((y + r + 1) * image_width * channels <= channels * image_width * image_height)
        by (nonlinear_arith)
        requires
            y + r + 1 <= image_height,
            0 <= image_width,
            1 <= channels,
    ;
}

/// Byte `k` of pixel `(i, j)` of a region is byte `k` of pixel
/// `(x + i, y + j)` of the image, where the region's rows lie inside the
/// image's bytes.
proof fn lemma_region_pixel(
    raw: Seq<u8>,
    image_width: int,
    channels: int,
    x: int,
    y: int,
    width: int,
    rows: int,
    i: int,
    j: int,
    k: int,
)
    requires
        width >= 0,
        channels >= 1,
        forall|r: int|
            0 <= r < rows ==> 0 <= #[trigger] ((y + r) * image_width + x) * channels && ((y + r)
                * image_width + x) * channels + width * channels <= raw.len(),
        0 <= i < width,
        0 <= j < rows,
        0 <= k < channels,
    ensures
        region_bytes(raw, image_width, channels, x, y, width, rows)[(j * width + i) * channels + k]
            == raw[((y + j) * image_width + x + i) * channels + k],
    decreases rows,
{
    let r = rows - 1;
    let idx = (j * width + i) * channels + k;
    let start = ((y + r) * image_width + x) * channels;
    assert(0 <= start && start + width * channels <= raw.len());
    lemma_region_bytes_len(raw, image_width, channels, x, y, width, r);
    let before = region_bytes(raw, image_width, channels, x, y, width, r);
    assert(region_bytes(raw, image_width, channels, x, y, width, rows) == before + raw.subrange(
        start,
        start + width * channels,
    ));
    if j < r {
        assert(idx < r * width * channels) by (nonlinear_arith)
            requires
                idx == (j * width + i) * channels + k,
                0 <= i < width,
                0 <= k < channels,
                j < r,
        ;
        assert(0 <= idx) by (nonlinear_arith)
            requires
                idx == (j * width + i) * channels + k,
                0 <= i,
                0 <= j,
                0 <= k,
                channels >= 1,
                width >= 0,
        ;
        lemma_region_pixel(raw, image_width, channels, x, y, width, r, i, j, k);
    } else {
        assert(idx - r * width * channels == i * channels + k) by (nonlinear_arith)
            requires
                idx == (j * width + i) * channels + k,
                j == r,
        ;
        assert(0 <= i * channels + k < width * channels) by (nonlinear_arith)
            requires
                0 <= i < width,
                0 <= k < channels,
        ;
        assert(start + i * channels + k == ((y + j) * image_width + x + i) * channels + k)
            by (nonlinear_arith)
            requires
                start == ((y + r) * image_width + x) * channels,
                j == r,
        ;
    }
}

/// Byte `k` of pixel `(i, j)` of a region that lies inside an image is
/// byte `k` of the image's pixel `(x + i, y + j)`, which lies among the
/// image's bytes.
pub proof fn lemma_region_pixel_of_image(
    raw: Seq<u8>,
    image_width: int,
    image_height: int,
    channels: int,
    x: int,
    y: int,
    width: int,
    height: int,
    i: int,
    j: int,
    k: int,
)
    requires
        0 <= x,
        0 <= y,
        0 <= width,
        1 <= channels,
        x + width <= image_width,
        y + height <= image_height,
        raw.len() >= channels * image_width * image_height,
        0 <= i < width,
        0 <= j < height,
        0 <= k < channels,
    ensures
        region_bytes(raw, image_width, channels, x, y, width, height)[(j * width + i) * channels + k]
            == raw[((y + j) * image_width + x + i) * channels + k],
        0 <= ((y + j) * image_width + x + i) * channels + k < channels * image_width * image_height,
        0 <= (y + j) * image_width + x + i < image_width * image_height,
{
    assert forall|r: int|
        0 <= r < height implies 0 <= #[trigger] ((y + r) * image_width + x) * channels && ((y + r)
        * image_width + x) * channels + width * channels <= raw.len() by {
        lemma_region_row_inside(
            raw.len() as int,
            image_width,
            image_height,
            channels,
            x,
            y,
            width,
            height,
            r,
        );
    }
    lemma_region_pixel(raw, image_width, channels, x, y, width, height, i, j, k);
    let q = (y + j) * image_width + x + i;
    assert(0 <= q < image_width * image_height) by (nonlinear_arith)
        requires
            q == (y + j) * image_width + x + i,
            0 <= x,
            0 <= y,
            0 <= i < width,
            0 <= j < height,
            x + width <= image_width,
            y + height <= image_height,
    ;
    assert(0 <= q * channels + k < channels * image_width * image_height) by (nonlinear_arith)
        requires
            0 <= q < image_width * image_height,
            0 <= k < channels,
    ;
}

/// Copies the bytes of a region out of an image's bytes.
fn crop_bytes(
    raw: &Vec<u8>,
    image_width: u32,
    image_height: u32,
    channels: u32,
    x: u32,
    y: u32,
    width: u32,
    height: u32,
) -> (out: Vec<u8>)
    requires
        1 <= channels <= 4,
        raw@.len() >= channels * image_width * image_height,
        x + width <= image_width,
        y + height <= image_height,
    ensures
        out@ == region_bytes(
            raw@,
            image_width as int,
            channels as int,
            x as int,
            y as int,
            width as int,
            height as int,
        ),
        out@.len() == height * width * channels,
{
    let ghost iw = image_width as int;
    let ghost c = channels as int;
    assert(raw@.len() == raw.len());
    let mut out: Vec<u8> = Vec::new();
    let mut row: u32 = 0;
    while row < height
        invariant
            raw@.len() <= usize::MAX,
            row <= height,
            1 <= channels <= 4,
            raw@.len() >= channels * image_width * image_height,
            x + width <= image_width,
            y + height <= image_height,
            out@ == region_bytes(raw@, iw, c, x as int, y as int, width as int, row as int),
            iw == image_width,
            c == channels,
        decreases height - row,
    {
        proof {
            lemma_region_row_inside(
                raw@.len() as int,
                iw,
                image_height as int,
                c,
                x as int,
                y as int,
                width as int,
                height as int,
                row as int,
            );
        }
        let row_len: usize = width as usize * channels as usize;
        let start: usize = ((y + row) as usize * image_width as usize + x as usize)
            * channels as usize;
        let mut j: usize = 0;
        while j < row_len
            invariant
                j <= row_len,
                start + row_len <= raw.len(),
                out@ == region_bytes(raw@, iw, c, x as int, y as int, width as int, row as int)
                    + raw@.subrange(start as int, start + j),
            decreases row_len - j,
        {
            out.push(raw[start + j]);
            proof {
                assert(raw@.subrange(start as int, start + j + 1) == raw@.subrange(
                    start as int,
                    start + j,
                ).push(raw@[start + j]));
            }
            j = j + 1;
        }
        proof {
            assert(start == ((y + (row + 1) - 1) * iw + x) * c);
        }
        row = row + 1;
    }
    proof {
        assert forall|r: int|
            0 <= r < height as int implies 0 <= #[trigger] ((y + r) * iw + x) * c && ((y + r) * iw
            + x) * c + width * c <= raw@.len() by {
            lemma_region_row_inside(
                raw@.len() as int,
                iw,
                image_height as int,
                c,
                x as int,
                y as int,
                width as int,
                height as int,
                r,
            );
        }
        lemma_region_bytes_len(raw@, iw, c, x as int, y as int, width as int, height as int);
        assert(height * width * channels == (height as int) * (width as int) * c);
    }
    out
}

/// The width and height of an RGBA image, which bound the regions that can
/// be cut out of it.
pub fn rgba_image_dimensions(image: &RgbaImage) -> (d: (u32, u32))
    ensures
        d == rgba_dims(*image),
{
    rgba_dimensions(image)
}

/// The width and height of a grayscale image, which bound the regions that
/// can be cut out of it.
pub fn gray_image_dimensions(image: &GrayImage) -> (d: (u32, u32))
    ensures
        d == gray_dims(*image),
{
    gray_dimensions(image)
}

/// Cuts the region `width` by `height` pixels whose top-left pixel is
/// `(x, y)` out of an RGBA image, as a new image of that size.
/// The region must lie inside the image.
pub fn cut_screen_region_rgba(x: u32, y: u32, width: u32, height: u32, screen_image: &RgbaImage) -> (cropped: RgbaImage)
    requires
        x + width <= rgba_dims(*screen_image).0,
        y + height <= rgba_dims(*screen_image).1,
    ensures
        rgba_dims(cropped) == (width, height),
        rgba_raw(cropped) == region_bytes(
            rgba_raw(*screen_image),
            rgba_dims(*screen_image).0 as int,
            4,
            x as int,
            y as int,
            width as int,
            height as int,
        ),
{
    let (image_width, image_height) = rgba_dimensions(screen_image);
    let raw = rgba_as_raw(screen_image);
    let bytes = crop_bytes(raw, image_width, image_height, 4, x, y, width, height);
    proof {
        assert(4 * width * height == height * width * 4) by (nonlinear_arith);
    }
    rgba_from_raw(width, height, bytes).unwrap()
}

/// Cuts the region `width` by `height` pixels whose top-left pixel is
/// `(x, y)` out of a grayscale image, as a new image of that size.
/// The region must lie inside the image.
pub fn cut_screen_region_gray(x: u32, y: u32, width: u32, height: u32, screen_image: &GrayImage) -> (cropped: GrayImage)
    requires
        x + width <= gray_dims(*screen_image).0,
        y + height <= gray_dims(*screen_image).1,
    ensures
        gray_dims(cropped) == (width, height),
        gray_raw(cropped) == region_bytes(
            gray_raw(*screen_image),
            gray_dims(*screen_image).0 as int,
            1,
            x as int,
            y as int,
            width as int,
            height as int,
        ),
{
    let (image_width, image_height) = gray_dimensions(screen_image);
    let raw = gray_as_raw(screen_image);
    proof {
        assert(1 * image_width * image_height == image_width * image_height);
    }
    let bytes = crop_bytes(raw, image_width, image_height, 1, x, y, width, height);
    proof {
        assert(width * height == height * width * 1) by (nonlinear_arith);
    }
    gray_from_raw(width, height, bytes).unwrap()
}

} // verus!
