//! What is drawn of pictures.
use vstd::prelude::*;

use crate::dimension::nearest;
use crate::model::drawing::RelativeRect;
use crate::model::image::MediaEntry;
use crate::render::pixels::{
    byte_at, decoded, is_cut, is_whole, prepare, prepare_image, share, shown, weighted, CropRect,
    PixelView, Pixels,
};

verus! {

/// What is cut off two sides and what is left between them are the whole, and what
/// is left begins behind what is cut off before it.
pub proof fn what_is_cut_and_what_is_left_are_the_whole(r: &RelativeRect, c: CropRect)
    requires
        call_ensures(CropRect::from_cut, (r,), c),
    ensures
        r.left matches Some(d) ==> c.x == d.value,
        r.left is None ==> c.x == 0,
        r.top matches Some(d) ==> c.y == d.value,
        r.top is None ==> c.y == 0,
        i64::MIN < c.width < i64::MAX ==> c.x + c.width + (match r.right {
            Some(d) => d.value as int,
            None => 0,
        }) == 100_000,
        i64::MIN < c.height < i64::MAX ==> c.y + c.height + (match r.bottom {
            Some(d) => d.value as int,
            None => 0,
        }) == 100_000,
{
}

proof fn a_share_is_near(part: int, length: int)
    requires
        0 <= part <= 100_000,
        0 <= length,
    ensures
        0 <= share(part, length) <= length,
        -100_000 <= 2 * (100_000 * share(part, length) - part * length) <= 100_000,
{
    let n = part * length;
    assert(0 <= n <= 100_000 * length) by (nonlinear_arith)
        requires
            n == part * length,
            0 <= part <= 100_000,
            0 <= length,
    ;
    assert(nearest(n, 100_000) == (2 * n + 100_000) / 200_000);
}

/// A picture that is drawn is the part that was asked for, to the nearest pixel,
/// or all of it. Each pixel keeps its opacity; its colours are weighted by that
/// and stay what they are where it is opaque.
pub proof fn pixels_keep_their_places(
    p: &Pixels,
    crop: Option<CropRect>,
    r: Pixels,
    column: int,
    row: int,
    k: int,
) -> (at: (int, int))
    requires
        call_ensures(prepare, (p, crop), Some(r)),
        0 <= column < r.width,
        0 <= row < r.height,
        0 <= k < 4,
    ensures
        0 <= at.0 && at.0 + r.width <= p.width,
        0 <= at.1 && at.1 + r.height <= p.height,
        crop is None ==> at == (0int, 0int) && r.width == p.width && r.height == p.height,
        crop matches Some(c) ==> {
            &&& 0 <= c.x <= 100_000 ==> -100_000 <= 2 * (100_000 * at.0 - c.x * p.width) <= 100_000
            &&& 0 <= c.y <= 100_000 ==> -100_000 <= 2 * (100_000 * at.1 - c.y * p.height)
                <= 100_000
            &&& 0 <= c.width <= 100_000 && at.0 + r.width < p.width && r.width > 1 ==> -100_000 <= 2
                * (100_000 * r.width - c.width * p.width) <= 100_000
            &&& 0 <= c.height <= 100_000 && at.1 + r.height < p.height && r.height > 1 ==> -100_000
                <= 2 * (100_000 * r.height - c.height * p.height) <= 100_000
        },
        byte_at(r@, column, row, 3) == byte_at(p@, at.0 + column, at.1 + row, 3),
        ({
            let opacity = byte_at(p@, at.0 + column, at.1 + row, 3);
            let before = byte_at(p@, at.0 + column, at.1 + row, k);
            let after = byte_at(r@, column, row, k);
            &&& opacity == 255 ==> after == before
            &&& k < 3 ==> 255 * after <= before * opacity < 255 * after + 255
        }),
{
    let (x, y, w, h) = shown(p@, crop);
    let cut = choose|cut: PixelView|
        {
            &&& #[trigger] is_cut(cut, p@, x, y)
            &&& cut.width == w
            &&& cut.height == h
            &&& r@ == (PixelView { rgba: weighted(cut.rgba), ..cut })
        };
    assert(is_cut(cut, p@, x, y));
    crate::render::pixels::what_is_shown_lies_within(p@, crop);
    if let Some(c) = crop {
        if 0 <= c.x <= 100_000 {
            a_share_is_near(c.x as int, p.width as int);
        }
        if 0 <= c.y <= 100_000 {
            a_share_is_near(c.y as int, p.height as int);
        }
        if 0 <= c.width <= 100_000 {
            a_share_is_near(c.width as int, p.width as int);
        }
        if 0 <= c.height <= 100_000 {
            a_share_is_near(c.height as int, p.height as int);
        }
    }
    let pixel = row * cut.width + column;
    assert(0 <= pixel < cut.width * cut.height) by (nonlinear_arith)
        requires
            0 <= column < cut.width,
            0 <= row < cut.height,
            pixel == row * cut.width + column,
    ;
    assert(4 * cut.width * cut.height == 4 * (cut.width * cut.height)) by (nonlinear_arith);
    let i = 4 * pixel + k;
    assert(0 <= i < cut.rgba.len());
    assert(0 <= 4 * pixel + 3 < cut.rgba.len());
    assert(i % 4 == k);
    assert((4 * pixel + 3) % 4 == 3);
    assert(byte_at(cut, column, row, 3) == byte_at(p@, x + column, y + row, 3));
    assert(byte_at(cut, column, row, k) == byte_at(p@, x + column, y + row, k));
    assert(r@.rgba == weighted(cut.rgba));
    assert(byte_at(r@, column, row, 3) == cut.rgba[4 * pixel + 3]);
    if k < 3 {
        let c = cut.rgba[i] as int;
        let a = cut.rgba[4 * pixel + 3] as int;
        assert(i - i % 4 + 3 == 4 * pixel + 3);
        assert(0 <= c * a <= 255 * 255) by (nonlinear_arith)
            requires
                0 <= c <= 255,
                0 <= a <= 255,
        ;
        assert(byte_at(r@, column, row, k) == ((cut.rgba[i] * cut.rgba[4 * pixel + 3]) / 255) as u8);
        if a == 255 {
            assert(c * a == 255 * c) by (nonlinear_arith)
                requires
                    a == 255,
            ;
        }
    }
    (x, y)
}

/// A picture without a part of it asked for is drawn where it has any pixels, and
/// four bytes for each.
pub proof fn a_whole_picture_is_drawn(p: &Pixels, r: Option<Pixels>)
    requires
        call_ensures(prepare, (p, None::<CropRect>), r),
    ensures
        r is Some <==> p.width > 0 && p.height > 0 && p.rgba@.len() == 4 * p.width * p.height,
{
}

/// Drawings and what is of no known format are not drawn, nor is what cannot be
/// decoded.
pub proof fn which_pictures_are_drawn(media: &MediaEntry, crop: Option<CropRect>, r: Option<Pixels>)
    requires
        call_ensures(prepare_image, (media, crop), r),
    ensures
        media.format is Emf || media.format is Wmf || media.format is Svg || media.format is Unknown
            ==> r is None,
        decoded(media.data@) is None ==> r is None,
        crop is None && (media.format is Png || media.format is Jpeg || media.format is Gif
            || media.format is Bmp || media.format is Tiff) && (decoded(
            media.data@,
        ) matches Some(p) && is_whole(p) && p.width > 0 && p.height > 0) ==> r is Some,
{
}

} // verus!
