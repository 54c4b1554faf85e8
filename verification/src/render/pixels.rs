//! The pixels of a picture, ready to be drawn: decoded, cut to what is shown,
//! and with each colour weighted by its opacity.
use vstd::prelude::*;

use crate::dimension::{
    divide_nearest, hold, nearest, within_range, Dimension, ThousandthPercent,
};
use crate::model::drawing::RelativeRect;
use crate::model::image::{ImageFormat, MediaEntry};

verus! {

/// A picture as it is decoded: rows of red, green, blue and opacity.
#[derive(Debug)]
pub struct Pixels {
    pub width: u32,
    pub height: u32,
    pub rgba: Vec<u8>,
}

/// What a picture holds.
pub struct PixelView {
    pub width: u32,
    pub height: u32,
    pub rgba: Seq<u8>,
}

impl View for Pixels {
    type V = PixelView;

    open spec fn view(&self) -> PixelView {
        PixelView { width: self.width, height: self.height, rgba: self.rgba@ }
    }
}

/// Whether there are four bytes for each pixel.
pub open spec fn is_whole(p: PixelView) -> bool {
    p.rgba.len() == 4 * p.width * p.height
}

/// What `image` decodes from the bytes of a picture, in the formats that it knows
/// of itself.
pub uninterp spec fn decoded(bytes: Seq<u8>) -> Option<PixelView>;

/// What an optional picture holds.
pub open spec fn pixels_in(p: Option<Pixels>) -> Option<PixelView> {
    match p {
        Some(x) => Some(x@),
        None => None,
    }
}

/// `image::load_from_memory`, and `DynamicImage::to_rgba8` of what it gives. The
/// crate lets a program add formats to those it knows, for all its parts at once
/// (`image::hooks`); this holds where none was added, as here.
#[verifier::external_body]
fn decode(bytes: &Vec<u8>) -> (r: Option<Pixels>)
    ensures
        pixels_in(r) == decoded(bytes@),
{
    let rgba = image::load_from_memory(bytes).ok()?.to_rgba8();
    Some(Pixels { width: rgba.width(), height: rgba.height(), rgba: rgba.into_raw() })
}

/// The part of a picture that is shown, in thousandths of a percent of its
/// width and height.
#[derive(Clone, Copy, Debug, PartialEq, Eq, Structural)]
pub struct CropRect {
    pub x: i64,
    pub y: i64,
    pub width: i64,
    pub height: i64,
}

/// A share that is cut off, or nothing.
pub open spec fn cut_off(d: Option<Dimension<ThousandthPercent>>) -> int {
    match d {
        Some(x) => x.value as int,
        None => 0,
    }
}

/// The part of a picture that is left when something is cut off its sides.
pub open spec fn what_is_left(r: RelativeRect) -> CropRect {
    CropRect {
        x: within_range(cut_off(r.left)),
        y: within_range(cut_off(r.top)),
        width: within_range(100_000 - cut_off(r.left) - cut_off(r.right)),
        height: within_range(100_000 - cut_off(r.top) - cut_off(r.bottom)),
    }
}

/// A share that is cut off, or nothing.
fn read_cut(d: &Option<Dimension<ThousandthPercent>>) -> (r: i128)
    ensures
        r == cut_off(*d),
        i64::MIN <= r <= i64::MAX,
{
    match d {
        Some(x) => x.raw() as i128,
        None => 0,
    }
}

impl CropRect {
    /// The part of a picture that is left when something is cut off its sides.
    pub fn from_cut(r: &RelativeRect) -> (c: CropRect)
        ensures
            c == what_is_left(*r),
    {
        let left: i128 = read_cut(&r.left);
        let top: i128 = read_cut(&r.top);
        CropRect {
            x: hold(left),
            y: hold(top),
            width: hold(100_000 - left - read_cut(&r.right)),
            height: hold(100_000 - top - read_cut(&r.bottom)),
        }
    }
}

/// A share of a length, to the nearest whole number.
pub open spec fn share(part: int, length: int) -> int {
    nearest(part * length, 100_000)
}

/// Where the shown part begins: within the length.
pub open spec fn cut_start(part: int, length: int) -> int {
    let n = share(part, length);
    if n < 0 {
        0
    } else if n > length {
        length
    } else {
        n
    }
}

/// How much is shown behind a start: at least one pixel, but no more than there
/// is.
pub open spec fn cut_length(part: int, length: int, start: int) -> int {
    let n = share(part, length);
    let wanted = if n < 1 {
        1
    } else {
        n
    };
    if wanted > length - start {
        length - start
    } else {
        wanted
    }
}

/// A share of a length.
fn read_share(part: i64, length: u32) -> (r: i128)
    ensures
        r == share(part as int, length as int),
{
    let p: i128 = part as i128;
    let l: i128 = length as i128;
    assert(-0x8000_0000_0000_0000 * 0xffff_ffff <= p * l <= 0x8000_0000_0000_0000 * 0xffff_ffff)
        by (nonlinear_arith)
        requires
            -0x8000_0000_0000_0000 <= p <= 0x8000_0000_0000_0000,
            0 <= l <= 0xffff_ffff,
    ;
    divide_nearest(p * l, 100_000)
}

/// Where the shown part begins.
fn read_start(part: i64, length: u32) -> (r: u32)
    ensures
        r == cut_start(part as int, length as int),
{
    let n: i128 = read_share(part, length);
    if n < 0 {
        0
    } else if n > length as i128 {
        length
    } else {
        n as u32
    }
}

/// How much is shown behind a start.
fn read_length(part: i64, length: u32, start: u32) -> (r: u32)
    requires
        start <= length,
    ensures
        r == cut_length(part as int, length as int, start as int),
{
    let n: i128 = read_share(part, length);
    let wanted: i128 = if n < 1 {
        1
    } else {
        n
    };
    let left: u32 = length - start;
    if wanted > left as i128 {
        left
    } else {
        wanted as u32
    }
}

/// The byte of a pixel in a picture: its column, its row, and which of the four.
pub open spec fn byte_at(p: PixelView, column: int, row: int, k: int) -> u8 {
    p.rgba[4 * (row * p.width + column) + k]
}

/// Whether one picture is what stands in another at a place.
pub open spec fn is_cut(cut: PixelView, from: PixelView, x: int, y: int) -> bool {
    &&& is_whole(cut)
    &&& forall|column: int, row: int, k: int|
        0 <= column < cut.width && 0 <= row < cut.height && 0 <= k < 4 ==> #[trigger] byte_at(
            cut,
            column,
            row,
            k,
        ) == byte_at(from, x + column, y + row, k)
}

/// The number of the byte of a pixel is below that of all bytes.
proof fn byte_is_there(width: int, height: int, column: int, row: int, k: int)
    requires
        0 <= column < width,
        0 <= row < height,
        0 <= k < 4,
    ensures
        0 <= 4 * (row * width + column) + k < 4 * width * height,
{
    assert(0 <= row * width + column < width * height) by (nonlinear_arith)
        requires
            0 <= column < width,
            0 <= row < height,
    ;
    assert(4 * width * height == 4 * (width * height)) by (nonlinear_arith);
}

/// Adds the bytes of a part of a row.
fn add_row(out: &mut Vec<u8>, rgba: &Vec<u8>, from: usize, count: usize)
    requires
        from + count <= rgba@.len(),
    ensures
        final(out)@ == old(out)@ + rgba@.subrange(from as int, from + count),
{
    let ghost before = out@;
    let total: usize = rgba.len();
    let mut i: usize = 0;
    while i < count
        invariant
            i <= count,
            total == rgba@.len(),
            from + count <= total,
            out@ == before + rgba@.subrange(from as int, from + i),
        decreases count - i,
    {
        out.push(rgba[from + i]);
        assert(out@ =~= before + rgba@.subrange(from as int, from + i + 1));
        i = i + 1;
    }
}

/// The part of a picture at a place.
fn crop(p: &Pixels, x: u32, y: u32, width: u32, height: u32) -> (r: Pixels)
    requires
        is_whole(p@),
        x + width <= p.width,
        y + height <= p.height,
    ensures
        r.width == width,
        r.height == height,
        is_cut(r@, p@, x as int, y as int),
{
    let full: usize = p.rgba.len();
    let mut rgba: Vec<u8> = Vec::new();
    let mut row: u32 = 0;
    assert(4 * width * 0 == 0) by (nonlinear_arith);
    while row < height
        invariant
            row <= height,
            is_whole(p@),
            full == p.rgba@.len(),
            x + width <= p.width,
            y + height <= p.height,
            rgba@.len() == 4 * width * row,
            forall|c: int, n: int, k: int|
                0 <= c < width && 0 <= n < row && 0 <= k < 4 ==> rgba@[4 * (n * width + c) + k]
                    == #[trigger] byte_at(p@, x + c, y + n, k),
        decreases height - row,
    {
        let ghost w = p.width as int;
        let ghost first = 4 * ((y + row) * w + x);
        proof {
            if width > 0 {
                byte_is_there(w, p.height as int, x + width - 1, (y + row) as int, 3);
            } else {
                assert(0 <= 4 * ((y + row) * w + x) <= 4 * w * p.height) by (nonlinear_arith)
                    requires
                        0 <= x <= w,
                        0 <= y + row,
                        y + row + 1 <= p.height,
                ;
            }
            assert(0 <= (y + row) * w) by (nonlinear_arith)
                requires
                    0 <= y + row,
                    0 <= w,
            ;
            assert(first + 4 * width <= full);
        }
        let ghost before = rgba@;
        let y_now: usize = (y + row) as usize;
        assert(y_now * p.width as usize == (y + row) * w);
        let start: usize = 4 * (y_now * p.width as usize + x as usize);
        add_row(&mut rgba, &p.rgba, start, 4 * width as usize);
        proof {
            assert(4 * width * (row + 1) == 4 * width * row + 4 * width) by (nonlinear_arith);
            assert forall|c: int, n: int, k: int|
                0 <= c < width && 0 <= n < row + 1 && 0 <= k < 4 implies rgba@[4 * (n * width + c)
                + k] == #[trigger] byte_at(p@, x + c, y + n, k) by {
                byte_is_there(width as int, n + 1, c, n, k);
                assert(4 * width * (n + 1) <= 4 * width * (row + 1)) by (nonlinear_arith)
                    requires
                        0 <= width,
                        n <= row,
                ;
                if n < row {
                    assert(4 * width * (n + 1) <= 4 * width * row) by (nonlinear_arith)
                        requires
                            0 <= width,
                            n + 1 <= row,
                    ;
                    assert(rgba@[4 * (n * width + c) + k] == before[4 * (n * width + c) + k]);
                } else {
                    assert(4 * (n * width + c) + k == 4 * width * row + (4 * c + k))
                        by (nonlinear_arith)
                        requires
                            n == row,
                    ;
                    let at = 4 * c + k;
                    assert(rgba@[before.len() + at] == p.rgba@.subrange(
                        start as int,
                        start + 4 * width,
                    )[at]);
                    assert((y + n) * w + (x + c) == (y + row) * w + x + c);
                }
            }
        }
        row = row + 1;
    }
    let r: Pixels = Pixels { width, height, rgba };
    assert(is_cut(r@, p@, x as int, y as int)) by {
        assert forall|column: int, row: int, k: int|
            0 <= column < width && 0 <= row < height && 0 <= k < 4 implies #[trigger] byte_at(
            r@,
            column,
            row,
            k,
        ) == byte_at(p@, x + column, y + row, k) by {
            assert(byte_at(p@, x + column, y + row, k) == r.rgba@[4 * (row * width + column) + k]);
        }
    }
    r
}

/// The bytes of a picture with each colour weighted by its opacity.
pub open spec fn weighted(rgba: Seq<u8>) -> Seq<u8> {
    Seq::new(
        rgba.len(),
        |i: int|
            if i % 4 == 3 {
                rgba[i]
            } else {
                ((rgba[i] * rgba[i - i % 4 + 3]) / 255) as u8
            },
    )
}

/// A colour weighted by an opacity.
fn weigh(color: u8, opacity: u8) -> (r: u8)
    ensures
        r == (color * opacity) / 255,
{
    assert(0 <= color * opacity <= 255 * 255) by (nonlinear_arith)
        requires
            0 <= color <= 255,
            0 <= opacity <= 255,
    ;
    (color as u16 * opacity as u16 / 255) as u8
}

/// Weights each colour by its opacity.
fn premultiply(rgba: &Vec<u8>) -> (r: Vec<u8>)
    requires
        rgba@.len() % 4 == 0,
    ensures
        r@ == weighted(rgba@),
{
    let mut out: Vec<u8> = Vec::new();
    let mut i: usize = 0;
    assert(out@ =~= weighted(rgba@).take(0));
    while i < rgba.len()
        invariant
            i <= rgba@.len(),
            i % 4 == 0,
            rgba@.len() % 4 == 0,
            out@ == weighted(rgba@).take(i as int),
        decreases rgba@.len() - i,
    {
        assert(i + 3 < rgba@.len());
        let a: u8 = rgba[i + 3];
        out.push(weigh(rgba[i], a));
        out.push(weigh(rgba[i + 1], a));
        out.push(weigh(rgba[i + 2], a));
        out.push(a);
        assert(out@ =~= weighted(rgba@).take(i + 4));
        i = i + 4;
    }
    assert(weighted(rgba@).take(i as int) =~= weighted(rgba@));
    out
}

/// Whether pictures of a format can be drawn. Drawings cannot.
pub open spec fn is_drawable(format: ImageFormat) -> bool {
    match format {
        ImageFormat::Emf => false,
        ImageFormat::Wmf => false,
        ImageFormat::Svg => false,
        ImageFormat::Unknown => false,
        _ => true,
    }
}

/// The part of a picture that is shown: its first column and row, its width and
/// its height.
pub open spec fn shown(p: PixelView, crop: Option<CropRect>) -> (int, int, int, int) {
    match crop {
        Some(c) => {
            let x = cut_start(c.x as int, p.width as int);
            let y = cut_start(c.y as int, p.height as int);
            (
                x,
                y,
                cut_length(c.width as int, p.width as int, x),
                cut_length(c.height as int, p.height as int, y),
            )
        },
        None => (0, 0, p.width as int, p.height as int),
    }
}

/// Whether anything of a decoded picture can be drawn.
pub open spec fn is_shown(p: PixelView, crop: Option<CropRect>) -> bool {
    is_whole(p) && shown(p, crop).2 > 0 && shown(p, crop).3 > 0
}

/// Whether pixels are what is drawn of a decoded picture.
pub open spec fn is_prepared(r: PixelView, p: PixelView, crop: Option<CropRect>) -> bool {
    exists|cut: PixelView|
        {
            &&& #[trigger] is_cut(cut, p, shown(p, crop).0, shown(p, crop).1)
            &&& cut.width == shown(p, crop).2
            &&& cut.height == shown(p, crop).3
            &&& r == (PixelView { rgba: weighted(cut.rgba), ..cut })
        }
}

/// What is drawn of a decoded picture: the part that is shown, with each colour
/// weighted by its opacity. Nothing is drawn where no part is shown.
pub fn prepare(p: &Pixels, crop_to: Option<CropRect>) -> (r: Option<Pixels>)
    ensures
        match r {
            Some(x) => is_shown(p@, crop_to) && is_whole(x@) && is_prepared(x@, p@, crop_to),
            None => !is_shown(p@, crop_to),
        },
{
    let w: u128 = p.width as u128;
    let h: u128 = p.height as u128;
    assert(0 <= w * h <= 0xffff_ffff * 0xffff_ffff) by (nonlinear_arith)
        requires
            0 <= w <= 0xffff_ffff,
            0 <= h <= 0xffff_ffff,
    ;
    assert(4 * w * h == 4 * (w * h)) by (nonlinear_arith);
    if p.rgba.len() as u128 != 4 * (w * h) {
        return None;
    }
    let (x, y, width, height): (u32, u32, u32, u32) = match crop_to {
        Some(c) => {
            let x: u32 = read_start(c.x, p.width);
            let y: u32 = read_start(c.y, p.height);
            (x, y, read_length(c.width, p.width, x), read_length(c.height, p.height, y))
        },
        None => (0, 0, p.width, p.height),
    };
    if width == 0 || height == 0 {
        return None;
    }
    let cut: Pixels = crop(p, x, y, width, height);
    let ghost held = cut@;
    assert(cut.rgba@.len() % 4 == 0) by {
        assert(4 * cut.width * cut.height == 4 * (cut.width * cut.height)) by (nonlinear_arith);
    }
    let r: Pixels = Pixels {
        width: cut.width,
        height: cut.height,
        rgba: premultiply(&cut.rgba),
    };
    assert(r@ == (PixelView { rgba: weighted(held.rgba), ..held }));
    assert(is_cut(held, p@, shown(p@, crop_to).0, shown(p@, crop_to).1));
    Some(r)
}

/// What is drawn of a picture: nothing where its format cannot be drawn or its
/// bytes cannot be decoded.
pub fn prepare_image(media: &MediaEntry, crop_to: Option<CropRect>) -> (r: Option<Pixels>)
    ensures
        match r {
            Some(x) => is_drawable(media.format) && (decoded(media.data@) matches Some(p)
                && is_shown(p, crop_to) && is_prepared(x@, p, crop_to)) && is_whole(x@),
            None => !is_drawable(media.format) || !(decoded(media.data@) matches Some(p)
                && is_shown(p, crop_to)),
        },
{
    match media.format {
        ImageFormat::Emf | ImageFormat::Wmf | ImageFormat::Svg | ImageFormat::Unknown => {
            return None;
        },
        _ => {},
    }
    match decode(&media.data) {
        Some(p) => prepare(&p, crop_to),
        None => None,
    }
}

/// What is drawn holds no more than there is: the shown part lies within the
/// picture.
pub proof fn what_is_shown_lies_within(p: PixelView, crop: Option<CropRect>)
    ensures
        0 <= shown(p, crop).0,
        0 <= shown(p, crop).1,
        shown(p, crop).0 + shown(p, crop).2 <= p.width,
        shown(p, crop).1 + shown(p, crop).3 <= p.height,
{
}

/// No colour is stronger than its opacity, and full opacity changes nothing.
pub proof fn weighing_is_bounded(rgba: Seq<u8>, i: int)
    requires
        0 <= i < rgba.len(),
        rgba.len() % 4 == 0,
        i % 4 != 3,
    ensures
        weighted(rgba)[i] <= rgba[i - i % 4 + 3],
        rgba[i - i % 4 + 3] == 255 ==> weighted(rgba)[i] == rgba[i],
{
    let c = rgba[i] as int;
    let a = rgba[i - i % 4 + 3] as int;
    assert(c * a <= 255 * a) by (nonlinear_arith)
        requires
            0 <= c <= 255,
            0 <= a,
    ;
    assert(0 <= c * a) by (nonlinear_arith)
        requires
            0 <= c,
            0 <= a,
    ;
    assert(0 <= (c * a) / 255 <= a);
    if a == 255 {
        assert(c * a == 255 * c) by (nonlinear_arith)
            requires
                a == 255,
        ;
    }
}

} // verus!
