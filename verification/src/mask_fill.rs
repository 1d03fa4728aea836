//! Filling a mask with one color.
//!
//! Both engines paint every covered pixel of an image with a single color:
//! [`SolidFillEngine`] with a given one, [`DetectFillEngine`] with the average of
//! the pixels in a ring just outside the covered region's bounding box. That works
//! well where a speech bubble sits on a mostly uniform background, and is a quick
//! fill elsewhere.

use vstd::prelude::*;

use crate::raster::{GrayImage, Image, ImageView, Rgba, RgbaImage};
use crate::scene::BlobRef;

verus! {

/// How far outside the covered region's bounding box colors are sampled, in
/// pixels.
pub const BORDER_RING_PX: i64 = 14;

/// The value from which on a mask's pixel counts as covered.
pub const MASK_THRESHOLD: u8 = 32;

/// Fills with the color of the surroundings.
#[derive(Clone, Copy, Debug)]
pub struct DetectFillEngine;

/// Fills with a given color.
#[derive(Clone, Copy, Debug)]
pub struct SolidFillEngine;

/// The image that a fill starts from.
#[derive(Debug)]
pub enum BaseImage {
    /// The page's inpainted image, which is there already.
    Inpainted(BlobRef),
    /// The page's source image.
    Source,
}

/// What a fill reads.
#[derive(Debug)]
pub struct FillInputs {
    pub mask: BlobRef,
    pub bubble_mask: BlobRef,
    pub base: BaseImage,
}

/// Why a page cannot be filled.
#[derive(Clone, Copy, Debug, PartialEq, Eq, Structural)]
pub enum FillError {
    NoSegmentMask,
    NoBubbleMask,
    NoFillColor,
}

/// The mask's pixel in column `x` of row `y` is there, and at least `threshold`.
pub open spec fn covered(mask: ImageView<u8>, threshold: u8, x: int, y: int) -> bool {
    mask.has(x, y) && mask.at(x, y) >= threshold
}

/// The mask covers nothing.
pub open spec fn covers_nothing(mask: ImageView<u8>, threshold: u8) -> bool {
    forall|x: int, y: int| !#[trigger] covered(mask, threshold, x, y)
}

/// The bounding box `(min_x, min_y, max_x, max_y)` of what the mask covers: it
/// holds every covered pixel, and touches one on each side.
pub open spec fn is_bounds(mask: ImageView<u8>, threshold: u8, bounds: (i64, i64, i64, i64)) -> bool {
    let (min_x, min_y, max_x, max_y) = bounds;
    &&& forall|x: int, y: int| #[trigger]
        covered(mask, threshold, x, y) ==> min_x <= x <= max_x && min_y <= y <= max_y
    &&& exists|y: int| covered(mask, threshold, min_x as int, y)
    &&& exists|x: int| covered(mask, threshold, x, min_y as int)
    &&& exists|y: int| covered(mask, threshold, max_x as int, y)
    &&& exists|x: int| covered(mask, threshold, x, max_y as int)
}

/// The bounding box of what the mask covers.
pub open spec fn bounds_of(mask: ImageView<u8>, threshold: u8) -> (i64, i64, i64, i64) {
    choose|bounds: (i64, i64, i64, i64)| is_bounds(mask, threshold, bounds)
}

/// The first column or row to sample.
pub open spec fn ring_start(min: int) -> int {
    if min >= BORDER_RING_PX {
        min - BORDER_RING_PX
    } else {
        0
    }
}

/// The column or row behind the last one to sample.
pub open spec fn ring_end(max: int, size: int) -> int {
    if max + BORDER_RING_PX + 1 <= size {
        max + BORDER_RING_PX + 1
    } else {
        size
    }
}

/// The bounding box with the ring around it, `(x0, y0, x1, y1)`, as far as the
/// mask reaches. The last column and row are excluded.
pub open spec fn sampled_region(mask: ImageView<u8>) -> (int, int, int, int) {
    let (min_x, min_y, max_x, max_y) = bounds_of(mask, MASK_THRESHOLD);
    (
        ring_start(min_x as int),
        ring_start(min_y as int),
        ring_end(max_x as int, mask.width as int),
        ring_end(max_y as int, mask.height as int),
    )
}

/// The place lies in the bounding box.
pub open spec fn in_box(bounds: (i64, i64, i64, i64), x: int, y: int) -> bool {
    bounds.0 <= x <= bounds.2 && bounds.1 <= y <= bounds.3
}

/// The place lies outside the bounding box of what the mask covers, and is not
/// covered itself.
pub open spec fn outside_box(mask: ImageView<u8>, x: int, y: int) -> bool {
    !in_box(bounds_of(mask, MASK_THRESHOLD), x, y) && !covered(mask, MASK_THRESHOLD, x, y)
}

/// The colors of the pixels outside the bounding box in row `y`, from column `x0`
/// up to `x1`.
pub open spec fn row_samples(
    base: ImageView<Rgba>,
    mask: ImageView<u8>,
    y: int,
    x0: int,
    x1: int,
) -> Seq<Rgba>
    decreases x1 - x0,
{
    if x1 <= x0 {
        seq![]
    } else {
        let before = row_samples(base, mask, y, x0, x1 - 1);
        if outside_box(mask, x1 - 1, y) {
            before.push(base.at(x1 - 1, y))
        } else {
            before
        }
    }
}

/// The colors of the pixels outside the bounding box from column `x0` up to `x1`
/// in the rows from `y0` up to `y1`.
pub open spec fn region_samples(
    base: ImageView<Rgba>,
    mask: ImageView<u8>,
    x0: int,
    y0: int,
    x1: int,
    y1: int,
) -> Seq<Rgba>
    decreases y1 - y0,
{
    if y1 <= y0 {
        seq![]
    } else {
        region_samples(base, mask, x0, y0, x1, y1 - 1) + row_samples(base, mask, y1 - 1, x0, x1)
    }
}

/// The colors that are sampled: those of the ring just outside the bounding box
/// of what the mask covers.
pub open spec fn samples(base: ImageView<Rgba>, mask: ImageView<u8>) -> Seq<Rgba> {
    let (x0, y0, x1, y1) = sampled_region(mask);
    region_samples(base, mask, x0, y0, x1, y1)
}

/// A color's red, green or blue, for the channels 0, 1 and 2.
pub open spec fn channel(color: Rgba, k: int) -> nat {
    if k == 0 {
        color.r as nat
    } else if k == 1 {
        color.g as nat
    } else {
        color.b as nat
    }
}

/// The sum of a channel over some colors.
pub open spec fn channel_sum(colors: Seq<Rgba>, k: int) -> nat
    decreases colors.len(),
{
    if colors.len() == 0 {
        0
    } else {
        channel_sum(colors.drop_last(), k) + channel(colors.last(), k)
    }
}

/// The average of a channel over some colors, rounded down.
pub open spec fn channel_mean(colors: Seq<Rgba>, k: int) -> nat {
    channel_sum(colors, k) / colors.len()
}

/// The average of some colors, opaque; white if there are none.
pub open spec fn mean_color(colors: Seq<Rgba>) -> Rgba {
    if colors.len() == 0 {
        Rgba::spec_white()
    } else {
        Rgba {
            r: channel_mean(colors, 0) as u8,
            g: channel_mean(colors, 1) as u8,
            b: channel_mean(colors, 2) as u8,
            a: 255,
        }
    }
}

/// The color around what the mask covers; white if it covers nothing.
pub open spec fn surrounding_color(base: ImageView<Rgba>, mask: ImageView<u8>) -> Rgba {
    if covers_nothing(mask, MASK_THRESHOLD) {
        Rgba::spec_white()
    } else {
        mean_color(samples(base, mask))
    }
}

/// Every pixel that is sampled lies in `base`.
pub open spec fn samples_lie_in(base: ImageView<Rgba>, mask: ImageView<u8>) -> bool {
    covers_nothing(mask, MASK_THRESHOLD) || {
        let (x0, y0, x1, y1) = sampled_region(mask);
        forall|x: int, y: int|
            x0 <= x < x1 && y0 <= y < y1 && #[trigger] outside_box(mask, x, y) ==> base.has(x, y)
    }
}

/// Every pixel of `base` lies in `mask`.
pub open spec fn lies_in(base: ImageView<Rgba>, mask: ImageView<u8>) -> bool {
    base.width == 0 || base.height == 0 || (base.width <= mask.width && base.height <= mask.height)
}

/// The pixel in column `x` of row `y` after filling: `color` where the mask
/// covers it, else what it was.
pub open spec fn filled_pixel(
    base: ImageView<Rgba>,
    mask: ImageView<u8>,
    color: Rgba,
    x: int,
    y: int,
) -> Rgba {
    if covered(mask, MASK_THRESHOLD, x, y) {
        color
    } else {
        base.at(x, y)
    }
}

/// `filled` is `base` with every covered pixel replaced by `color`.
pub open spec fn is_filled(
    filled: ImageView<Rgba>,
    base: ImageView<Rgba>,
    mask: ImageView<u8>,
    color: Rgba,
) -> bool {
    &&& filled.wf()
    &&& filled.width == base.width
    &&& filled.height == base.height
    &&& forall|x: int, y: int|
        base.has(x, y) ==> #[trigger] filled.at(x, y) == filled_pixel(base, mask, color, x, y)
}

proof fn lemma_bounds_unique(
    mask: ImageView<u8>,
    threshold: u8,
    a: (i64, i64, i64, i64),
    b: (i64, i64, i64, i64),
)
    requires
        is_bounds(mask, threshold, a),
        is_bounds(mask, threshold, b),
    ensures
        a == b,
{
}

/// The bounding box `(min_x, min_y, max_x, max_y)` of every pixel of `mask` that
/// is at least `threshold`. `None` if there is none.
pub fn mask_bounds(mask: &GrayImage, threshold: u8) -> (result: Option<(i64, i64, i64, i64)>)
    ensures
        match result {
            Some(bounds) => is_bounds(mask@, threshold, bounds) && !covers_nothing(
                mask@,
                threshold,
            ) && bounds == bounds_of(mask@, threshold),
            None => covers_nothing(mask@, threshold),
        },
{
    let w: u32 = mask.width();
    let h: u32 = mask.height();
    let mut found = false;
    let mut min_x: i64 = 0;
    let mut min_y: i64 = 0;
    let mut max_x: i64 = 0;
    let mut max_y: i64 = 0;
    // A covered pixel that touches each side.
    let ghost mut at_min_x: int = 0;
    let ghost mut at_min_y: int = 0;
    let ghost mut at_max_x: int = 0;
    let ghost mut at_max_y: int = 0;
    let mut y: u32 = 0;
    while y < h
        invariant
            w == mask@.width,
            h == mask@.height,
            y <= h,
            !found ==> forall|px: int, py: int|
                py < y ==> !#[trigger] covered(mask@, threshold, px, py),
            found ==> {
                &&& forall|px: int, py: int|
                    py < y && #[trigger] covered(mask@, threshold, px, py) ==> min_x <= px <= max_x
                        && min_y <= py <= max_y
                &&& covered(mask@, threshold, min_x as int, at_min_x)
                &&& covered(mask@, threshold, at_min_y, min_y as int)
                &&& covered(mask@, threshold, max_x as int, at_max_x)
                &&& covered(mask@, threshold, at_max_y, max_y as int)
            },
        decreases h - y,
    {
        let mut x: u32 = 0;
        while x < w
            invariant
                w == mask@.width,
                h == mask@.height,
                y < h,
                x <= w,
                !found ==> forall|px: int, py: int|
                    py < y || (py == y && px < x) ==> !#[trigger] covered(mask@, threshold, px, py),
                found ==> {
                    &&& forall|px: int, py: int|
                        (py < y || (py == y && px < x)) && #[trigger] covered(
                            mask@,
                            threshold,
                            px,
                            py,
                        ) ==> min_x <= px <= max_x && min_y <= py <= max_y
                    &&& covered(mask@, threshold, min_x as int, at_min_x)
                    &&& covered(mask@, threshold, at_min_y, min_y as int)
                    &&& covered(mask@, threshold, max_x as int, at_max_x)
                    &&& covered(mask@, threshold, at_max_y, max_y as int)
                },
            decreases w - x,
        {
            if *mask.pixel(x, y) >= threshold {
                assert(covered(mask@, threshold, x as int, y as int));
                if !found || (x as i64) < min_x {
                    min_x = x as i64;
                    proof {
                        at_min_x = y as int;
                    }
                }
                if !found || (y as i64) < min_y {
                    min_y = y as i64;
                    proof {
                        at_min_y = x as int;
                    }
                }
                if !found || (x as i64) > max_x {
                    max_x = x as i64;
                    proof {
                        at_max_x = y as int;
                    }
                }
                if !found || (y as i64) > max_y {
                    max_y = y as i64;
                    proof {
                        at_max_y = x as int;
                    }
                }
                found = true;
            }
            x += 1;
        }
        y += 1;
    }
    if found {
        let bounds: (i64, i64, i64, i64) = (min_x, min_y, max_x, max_y);
        proof {
            assert(covered(mask@, threshold, bounds.0 as int, at_min_x));
            assert(covered(mask@, threshold, at_min_y, bounds.1 as int));
            assert(covered(mask@, threshold, bounds.2 as int, at_max_x));
            assert(covered(mask@, threshold, at_max_y, bounds.3 as int));
            assert(is_bounds(mask@, threshold, bounds));
            lemma_bounds_unique(mask@, threshold, bounds, bounds_of(mask@, threshold));
        }
        Some(bounds)
    } else {
        None
    }
}

/// The region to sample around the given bounding box, as `(x0, y0, x1, y1)`
/// with the last column and row excluded.
fn region_around(mask: &GrayImage, bounds: (i64, i64, i64, i64)) -> (region: (u32, u32, u32, u32))
    requires
        is_bounds(mask@, MASK_THRESHOLD, bounds),
        bounds == bounds_of(mask@, MASK_THRESHOLD),
    ensures
        sampled_region(mask@) == (
            region.0 as int,
            region.1 as int,
            region.2 as int,
            region.3 as int,
        ),
        region.0 < region.2 <= mask@.width,
        region.1 < region.3 <= mask@.height,
{
    let w: i64 = mask.width() as i64;
    let h: i64 = mask.height() as i64;
    let (min_x, min_y, max_x, max_y) = bounds;
    let x0: i64 = if min_x >= BORDER_RING_PX {
        min_x - BORDER_RING_PX
    } else {
        0
    };
    let y0: i64 = if min_y >= BORDER_RING_PX {
        min_y - BORDER_RING_PX
    } else {
        0
    };
    let x1: i64 = if max_x + BORDER_RING_PX + 1 <= w {
        max_x + BORDER_RING_PX + 1
    } else {
        w
    };
    let y1: i64 = if max_y + BORDER_RING_PX + 1 <= h {
        max_y + BORDER_RING_PX + 1
    } else {
        h
    };
    (x0 as u32, y0 as u32, x1 as u32, y1 as u32)
}

proof fn lemma_channel_sum_bound(colors: Seq<Rgba>, k: int)
    ensures
        channel_sum(colors, k) <= 255 * colors.len(),
    decreases colors.len(),
{
    if colors.len() > 0 {
        lemma_channel_sum_bound(colors.drop_last(), k);
    }
}

proof fn lemma_channel_mean_bound(colors: Seq<Rgba>, k: int)
    requires
        colors.len() > 0,
    ensures
        channel_mean(colors, k) <= 255,
{
    lemma_channel_sum_bound(colors, k);
    let n = colors.len() as int;
    vstd::arithmetic::div_mod::lemma_div_is_ordered(channel_sum(colors, k) as int, 255 * n, n);
    vstd::arithmetic::div_mod::lemma_div_multiples_vanish(255, n);
}

/// The average color of the pixels in a ring just outside the covered region's
/// bounding box. Opaque white if the mask covers nothing, or leaves no ring to
/// sample.
pub fn detect_surrounding_color(base: &RgbaImage, mask: &GrayImage) -> (color: Rgba)
    requires
        samples_lie_in(base@, mask@),
    ensures
        color == surrounding_color(base@, mask@),
{
    let bounds = match mask_bounds(mask, MASK_THRESHOLD) {
        Some(bounds) => bounds,
        None => return Rgba::white(),
    };
    let (x0, y0, x1, y1) = region_around(mask, bounds);
    let (min_x, min_y, max_x, max_y) = bounds;
    let mut r_sum: u128 = 0;
    let mut g_sum: u128 = 0;
    let mut b_sum: u128 = 0;
    let mut count: u128 = 0;
    let ghost mut seen: Seq<Rgba> = seq![];
    let mut y: u32 = y0;
    while y < y1
        invariant
            samples_lie_in(base@, mask@),
            !covers_nothing(mask@, MASK_THRESHOLD),
            bounds_of(mask@, MASK_THRESHOLD) == (min_x, min_y, max_x, max_y),
            sampled_region(mask@) == (x0 as int, y0 as int, x1 as int, y1 as int),
            x0 < x1 <= mask@.width,
            y0 <= y <= y1 <= mask@.height,
            seen == region_samples(base@, mask@, x0 as int, y0 as int, x1 as int, y as int),
            count == seen.len(),
            count <= (y - y0) * 0x1_0000_0000,
            r_sum == channel_sum(seen, 0),
            g_sum == channel_sum(seen, 1),
            b_sum == channel_sum(seen, 2),
        decreases y1 - y,
    {
        let ghost above = seen;
        let mut x: u32 = x0;
        assert(above + row_samples(base@, mask@, y as int, x0 as int, x0 as int) =~= above);
        while x < x1
            invariant
                samples_lie_in(base@, mask@),
                !covers_nothing(mask@, MASK_THRESHOLD),
                bounds_of(mask@, MASK_THRESHOLD) == (min_x, min_y, max_x, max_y),
                sampled_region(mask@) == (x0 as int, y0 as int, x1 as int, y1 as int),
                x0 <= x <= x1 <= mask@.width,
                y0 <= y < y1 <= mask@.height,
                seen == above + row_samples(base@, mask@, y as int, x0 as int, x as int),
                count == seen.len(),
                count <= (y - y0) * 0x1_0000_0000 + (x - x0),
                r_sum == channel_sum(seen, 0),
                g_sum == channel_sum(seen, 1),
                b_sum == channel_sum(seen, 2),
            decreases x1 - x,
        {
            let is_outside = (x as i64) < min_x || (x as i64) > max_x || (y as i64) < min_y || (
            y as i64) > max_y;
            let is_sampled = is_outside && *mask.pixel(x, y) < MASK_THRESHOLD;
            assert(is_sampled == outside_box(mask@, x as int, y as int));
            if is_sampled {
                let p: Rgba = *base.pixel(x, y);
                proof {
                    let next = seen.push(p);
                    assert(next.drop_last() =~= seen);
                    assert(next =~= above + row_samples(
                        base@,
                        mask@,
                        y as int,
                        x0 as int,
                        x + 1,
                    ));
                    lemma_channel_sum_bound(seen, 0);
                    lemma_channel_sum_bound(seen, 1);
                    lemma_channel_sum_bound(seen, 2);
                    seen = next;
                }
                r_sum += p.r as u128;
                g_sum += p.g as u128;
                b_sum += p.b as u128;
                count += 1;
            }
            x += 1;
        }
        y += 1;
    }
    if count == 0 {
        return Rgba::white();
    }
    proof {
        lemma_channel_mean_bound(seen, 0);
        lemma_channel_mean_bound(seen, 1);
        lemma_channel_mean_bound(seen, 2);
    }
    Rgba { r: (r_sum / count) as u8, g: (g_sum / count) as u8, b: (b_sum / count) as u8, a: 255 }
}

/// A copy of `base` with every covered pixel replaced by `color`.
pub fn fill_mask_with_color(base: &RgbaImage, mask: &GrayImage, color: Rgba) -> (out: RgbaImage)
    requires
        lies_in(base@, mask@),
    ensures
        is_filled(out@, base@, mask@, color),
{
    let w: u32 = base.width();
    let h: u32 = base.height();
    let mut pixels: Vec<Rgba> = Vec::new();
    let mut y: u32 = 0;
    while y < h
        invariant
            lies_in(base@, mask@),
            w == base@.width,
            h == base@.height,
            y <= h,
            pixels@.len() == y * w,
            forall|px: int, py: int|
                base@.has(px, py) && py < y ==> #[trigger] pixels@[py * w + px]
                    == filled_pixel(base@, mask@, color, px, py),
        decreases h - y,
    {
        let mut x: u32 = 0;
        while x < w
            invariant
                lies_in(base@, mask@),
                w == base@.width,
                h == base@.height,
                y < h,
                x <= w,
                pixels@.len() == y * w + x,
                forall|px: int, py: int|
                    base@.has(px, py) && (py < y || (py == y && px < x))
                        ==> #[trigger] pixels@[py * w + px] == filled_pixel(
                        base@,
                        mask@,
                        color,
                        px,
                        py,
                    ),
            decreases w - x,
        {
            let pixel: Rgba = if *mask.pixel(x, y) >= MASK_THRESHOLD {
                color
            } else {
                *base.pixel(x, y)
            };
            pixels.push(pixel);
            proof {
                assert forall|px: int, py: int|
                    base@.has(px, py) && (py < y || (py == y && px < x + 1)) implies #[trigger] pixels@[py
                    * w + px] == filled_pixel(base@, mask@, color, px, py) by {
                    if py < y {
                        assert(py * w + px < y * w) by {
                            crate::raster::lemma_place(w as int, y as int, px, py);
                            assert(w * y == y * w) by (nonlinear_arith);
                        }
                    }
                }
            }
            x += 1;
        }
        assert((y + 1) * w == y * w + w) by (nonlinear_arith);
        y += 1;
    }
    assert(h * w == w * h) by (nonlinear_arith);
    Image::from_pixels(w, h, pixels).unwrap()
}

/// Whether every pixel that [`detect_surrounding_color`] would sample lies in
/// `base`.
pub fn can_sample(base: &RgbaImage, mask: &GrayImage) -> (yes: bool)
    ensures
        yes == samples_lie_in(base@, mask@),
{
    let bounds = match mask_bounds(mask, MASK_THRESHOLD) {
        Some(bounds) => bounds,
        None => return true,
    };
    let (x0, y0, x1, y1) = region_around(mask, bounds);
    let (min_x, min_y, max_x, max_y) = bounds;
    let w: u32 = base.width();
    let h: u32 = base.height();
    let mut y: u32 = y0;
    while y < y1
        invariant
            w == base@.width,
            h == base@.height,
            !covers_nothing(mask@, MASK_THRESHOLD),
            bounds_of(mask@, MASK_THRESHOLD) == (min_x, min_y, max_x, max_y),
            sampled_region(mask@) == (x0 as int, y0 as int, x1 as int, y1 as int),
            x0 < x1 <= mask@.width,
            y0 <= y <= y1 <= mask@.height,
            forall|px: int, py: int|
                x0 <= px < x1 && y0 <= py < y && #[trigger] outside_box(mask@, px, py)
                    ==> base@.has(px, py),
        decreases y1 - y,
    {
        let mut x: u32 = x0;
        while x < x1
            invariant
                w == base@.width,
                h == base@.height,
                !covers_nothing(mask@, MASK_THRESHOLD),
                bounds_of(mask@, MASK_THRESHOLD) == (min_x, min_y, max_x, max_y),
                sampled_region(mask@) == (x0 as int, y0 as int, x1 as int, y1 as int),
                x0 <= x <= x1 <= mask@.width,
                y0 <= y < y1 <= mask@.height,
                forall|px: int, py: int|
                    x0 <= px < x1 && y0 <= py && (py < y || (py == y && px < x))
                        && #[trigger] outside_box(mask@, px, py) ==> base@.has(px, py),
            decreases x1 - x,
        {
            let is_outside = (x as i64) < min_x || (x as i64) > max_x || (y as i64) < min_y || (
            y as i64) > max_y;
            if is_outside && *mask.pixel(x, y) < MASK_THRESHOLD && (x >= w || y >= h) {
                assert(outside_box(mask@, x as int, y as int));
                return false;
            }
            x += 1;
        }
        y += 1;
    }
    true
}

/// Whether every pixel of `base` lies in `mask`.
pub fn can_fill(base: &RgbaImage, mask: &GrayImage) -> (yes: bool)
    ensures
        yes == lies_in(base@, mask@),
{
    base.width() == 0 || base.height() == 0 || (base.width() <= mask.width() && base.height()
        <= mask.height())
}

/// Settles what a fill reads, from the blobs of the page's masks and of its
/// inpainted image. Both masks have to be there; the image starts from the
/// inpainted one where the page has one.
pub fn fill_inputs(
    segment: Option<BlobRef>,
    bubble: Option<BlobRef>,
    inpainted: Option<BlobRef>,
) -> (result: Result<FillInputs, FillError>)
    ensures
        match (segment, bubble) {
            (None, _) => result == Err::<FillInputs, _>(FillError::NoSegmentMask),
            (Some(_), None) => result == Err::<FillInputs, _>(FillError::NoBubbleMask),
            (Some(mask), Some(bubble_mask)) => result == Ok::<_, FillError>(
                FillInputs {
                    mask,
                    bubble_mask,
                    base: match inpainted {
                        Some(blob) => BaseImage::Inpainted(blob),
                        None => BaseImage::Source,
                    },
                },
            ),
        },
{
    let mask = match segment {
        Some(mask) => mask,
        None => return Err(FillError::NoSegmentMask),
    };
    let bubble_mask = match bubble {
        Some(bubble_mask) => bubble_mask,
        None => return Err(FillError::NoBubbleMask),
    };
    let base = match inpainted {
        Some(blob) => BaseImage::Inpainted(blob),
        None => BaseImage::Source,
    };
    Ok(FillInputs { mask, bubble_mask, base })
}

impl DetectFillEngine {
    /// Fills what `mask` covers of `base` with the color around it.
    pub fn run(&self, base: &RgbaImage, mask: &GrayImage) -> (out: RgbaImage)
        requires
            samples_lie_in(base@, mask@),
            lies_in(base@, mask@),
        ensures
            is_filled(out@, base@, mask@, surrounding_color(base@, mask@)),
    {
        let color = detect_surrounding_color(base, mask);
        fill_mask_with_color(base, mask, color)
    }
}

impl SolidFillEngine {
    /// The color to fill with: the one of the options, which has to be there.
    pub fn color(&self, fill_color: Option<Rgba>) -> (result: Result<Rgba, FillError>)
        ensures
            match fill_color {
                Some(color) => result == Ok::<_, FillError>(color),
                None => result == Err::<Rgba, _>(FillError::NoFillColor),
            },
    {
        match fill_color {
            Some(color) => Ok(color),
            None => Err(FillError::NoFillColor),
        }
    }

    /// Fills what `mask` covers of `base` with `color`.
    pub fn run(&self, base: &RgbaImage, mask: &GrayImage, color: Rgba) -> (out: RgbaImage)
        requires
            lies_in(base@, mask@),
        ensures
            is_filled(out@, base@, mask@, color),
    {
        fill_mask_with_color(base, mask, color)
    }
}

impl FillError {
    /// The message of this error.
    pub open spec fn spec_message(self) -> Seq<char> {
        match self {
            FillError::NoSegmentMask => "no Segment mask on page"@,
            FillError::NoBubbleMask => "no Bubble mask on page"@,
            FillError::NoFillColor => "mask-fill-solid requires options.fill_color"@,
        }
    }

    /// The message of this error.
    pub fn message(&self) -> (out: String)
        ensures
            out@ == self.spec_message(),
    {
        match self {
            FillError::NoSegmentMask => "no Segment mask on page".to_owned(),
            FillError::NoBubbleMask => "no Bubble mask on page".to_owned(),
            FillError::NoFillColor => "mask-fill-solid requires options.fill_color".to_owned(),
        }
    }
}

/// There is at most one result of filling an image.
pub proof fn law_fill_is_unique(
    one: ImageView<Rgba>,
    other: ImageView<Rgba>,
    base: ImageView<Rgba>,
    mask: ImageView<u8>,
    color: Rgba,
)
    requires
        is_filled(one, base, mask, color),
        is_filled(other, base, mask, color),
    ensures
        one == other,
{
    let w = base.width as int;
    let h = base.height as int;
    assert forall|i: int| 0 <= i < one.pixels.len() implies one.pixels[i] == other.pixels[i] by {
        let y = i / w;
        let x = i % w;
        assert(0 <= x < w && 0 <= y < h && y * w + x == i) by (nonlinear_arith)
            requires
                0 <= i < w * h,
                0 <= w,
                0 <= h,
                y == i / w,
                x == i % w,
        ;
        assert(base.has(x, y));
        assert(one.at(x, y) == other.at(x, y));
    }
    assert(one.pixels =~= other.pixels);
}

/// Pixels outside the mask keep their color, whatever the color of the fill is.
pub proof fn law_fill_leaves_the_rest(
    filled: ImageView<Rgba>,
    base: ImageView<Rgba>,
    mask: ImageView<u8>,
    color: Rgba,
    x: int,
    y: int,
)
    requires
        is_filled(filled, base, mask, color),
        base.has(x, y),
        !covered(mask, MASK_THRESHOLD, x, y),
    ensures
        filled.at(x, y) == base.at(x, y),
{
}

/// Filling again replaces the first fill: only the last color counts.
pub proof fn law_last_fill_wins(
    base: ImageView<Rgba>,
    mask: ImageView<u8>,
    first: Rgba,
    second: Rgba,
    once: ImageView<Rgba>,
    twice: ImageView<Rgba>,
)
    requires
        is_filled(once, base, mask, first),
        is_filled(twice, once, mask, second),
    ensures
        is_filled(twice, base, mask, second),
{
    assert forall|x: int, y: int| base.has(x, y) implies #[trigger] twice.at(x, y) == filled_pixel(
        base,
        mask,
        second,
        x,
        y,
    ) by {
        assert(once.has(x, y));
        assert(once.at(x, y) == filled_pixel(base, mask, first, x, y));
    }
}

/// A mask that covers nothing changes nothing.
pub proof fn law_empty_mask_changes_nothing(
    base: ImageView<Rgba>,
    mask: ImageView<u8>,
    color: Rgba,
    filled: ImageView<Rgba>,
)
    requires
        base.wf(),
        covers_nothing(mask, MASK_THRESHOLD),
        is_filled(filled, base, mask, color),
    ensures
        filled == base,
{
    assert forall|x: int, y: int| base.has(x, y) implies #[trigger] base.at(x, y) == filled_pixel(
        base,
        mask,
        color,
        x,
        y,
    ) by {
        assert(!covered(mask, MASK_THRESHOLD, x, y));
    }
    assert(is_filled(base, base, mask, color));
    law_fill_is_unique(filled, base, base, mask, color);
}

proof fn lemma_row_samples_agree(
    one: ImageView<Rgba>,
    other: ImageView<Rgba>,
    mask: ImageView<u8>,
    y: int,
    x0: int,
    x1: int,
)
    requires
        forall|x: int|
            x0 <= x < x1 && #[trigger] outside_box(mask, x, y) ==> one.at(x, y) == other.at(x, y),
    ensures
        row_samples(one, mask, y, x0, x1) == row_samples(other, mask, y, x0, x1),
    decreases x1 - x0,
{
    if x1 > x0 {
        lemma_row_samples_agree(one, other, mask, y, x0, x1 - 1);
        assert(outside_box(mask, x1 - 1, y) ==> one.at(x1 - 1, y) == other.at(x1 - 1, y));
    }
}

proof fn lemma_region_samples_agree(
    one: ImageView<Rgba>,
    other: ImageView<Rgba>,
    mask: ImageView<u8>,
    x0: int,
    y0: int,
    x1: int,
    y1: int,
)
    requires
        forall|x: int, y: int|
            x0 <= x < x1 && y0 <= y < y1 && #[trigger] outside_box(mask, x, y) ==> one.at(x, y)
                == other.at(x, y),
    ensures
        region_samples(one, mask, x0, y0, x1, y1) == region_samples(other, mask, x0, y0, x1, y1),
    decreases y1 - y0,
{
    if y1 > y0 {
        lemma_region_samples_agree(one, other, mask, x0, y0, x1, y1 - 1);
        lemma_row_samples_agree(one, other, mask, y1 - 1, x0, x1);
    }
}

proof fn lemma_least(p: spec_fn(int) -> bool, from: int, some: int) -> (least: int)
    requires
        from <= some,
        p(some),
        forall|i: int| i < from ==> !#[trigger] p(i),
    ensures
        from <= least <= some,
        p(least),
        forall|i: int| i < least ==> !#[trigger] p(i),
    decreases some - from,
{
    if p(from) {
        from
    } else {
        lemma_least(p, from + 1, some)
    }
}

proof fn lemma_greatest(p: spec_fn(int) -> bool, some: int, to: int) -> (greatest: int)
    requires
        some <= to,
        p(some),
        forall|i: int| i > to ==> !#[trigger] p(i),
    ensures
        some <= greatest <= to,
        p(greatest),
        forall|i: int| i > greatest ==> !#[trigger] p(i),
    decreases to - some,
{
    if p(to) {
        to
    } else {
        lemma_greatest(p, some, to - 1)
    }
}

/// What a mask covers has a bounding box, unless it covers nothing.
pub proof fn law_bounds_exist(mask: ImageView<u8>, threshold: u8)
    requires
        mask.wf(),
        !covers_nothing(mask, threshold),
    ensures
        is_bounds(mask, threshold, bounds_of(mask, threshold)),
{
    let (x, y) = choose|x: int, y: int| #[trigger] covered(mask, threshold, x, y);
    let column = |i: int| exists|j: int| #[trigger] covered(mask, threshold, i, j);
    let row = |j: int| exists|i: int| #[trigger] covered(mask, threshold, i, j);
    assert(column(x));
    assert(row(y));
    let min_x = lemma_least(column, 0, x);
    let min_y = lemma_least(row, 0, y);
    let max_x = lemma_greatest(column, x, mask.width - 1);
    let max_y = lemma_greatest(row, y, mask.height - 1);
    let bounds = (min_x as i64, min_y as i64, max_x as i64, max_y as i64);
    assert forall|i: int, j: int| #[trigger] covered(mask, threshold, i, j) implies min_x <= i <= max_x
        && min_y <= j <= max_y by {
        assert(column(i));
        assert(row(j));
    }
    let left = choose|j: int| #[trigger] covered(mask, threshold, min_x, j);
    let top = choose|i: int| #[trigger] covered(mask, threshold, i, min_y);
    let right = choose|j: int| #[trigger] covered(mask, threshold, max_x, j);
    let bottom = choose|i: int| #[trigger] covered(mask, threshold, i, max_y);
    assert(covered(mask, threshold, bounds.0 as int, left));
    assert(covered(mask, threshold, top, bounds.1 as int));
    assert(covered(mask, threshold, bounds.2 as int, right));
    assert(covered(mask, threshold, bottom, bounds.3 as int));
    assert(is_bounds(mask, threshold, bounds));
}

/// The sampled region lies in the mask, and holds all that it covers.
pub proof fn law_sampled_region_surrounds(mask: ImageView<u8>)
    requires
        mask.wf(),
        !covers_nothing(mask, MASK_THRESHOLD),
    ensures
        ({
            let (x0, y0, x1, y1) = sampled_region(mask);
            &&& 0 <= x0 < x1 <= mask.width
            &&& 0 <= y0 < y1 <= mask.height
            &&& forall|x: int, y: int| #[trigger]
                covered(mask, MASK_THRESHOLD, x, y) ==> x0 <= x < x1 && y0 <= y < y1
        }),
{
    law_bounds_exist(mask, MASK_THRESHOLD);
}

/// Nothing inside the bounding box has a say in the color, covered or not: two
/// images that agree outside it have the same surrounding color.
pub proof fn law_box_is_not_sampled(
    one: ImageView<Rgba>,
    other: ImageView<Rgba>,
    mask: ImageView<u8>,
)
    requires
        mask.wf(),
        samples_lie_in(one, mask),
        forall|x: int, y: int|
            one.has(x, y) && #[trigger] outside_box(mask, x, y) ==> one.at(x, y) == other.at(x, y),
    ensures
        surrounding_color(one, mask) == surrounding_color(other, mask),
{
    if !covers_nothing(mask, MASK_THRESHOLD) {
        let (x0, y0, x1, y1) = sampled_region(mask);
        lemma_region_samples_agree(one, other, mask, x0, y0, x1, y1);
    }
}

/// The bounding box holds all that the mask covers, so every place outside it is
/// uncovered.
pub proof fn law_covered_pixels_are_not_sampled(mask: ImageView<u8>, x: int, y: int)
    requires
        mask.wf(),
        !covers_nothing(mask, MASK_THRESHOLD),
    ensures
        outside_box(mask, x, y) <==> !in_box(bounds_of(mask, MASK_THRESHOLD), x, y),
{
    law_bounds_exist(mask, MASK_THRESHOLD);
}

spec fn all_are(colors: Seq<Rgba>, color: Rgba) -> bool {
    forall|i: int| 0 <= i < colors.len() ==> #[trigger] colors[i] == color
}

proof fn lemma_row_samples_all(
    base: ImageView<Rgba>,
    mask: ImageView<u8>,
    y: int,
    x0: int,
    x1: int,
    color: Rgba,
)
    requires
        forall|x: int|
            x0 <= x < x1 && #[trigger] outside_box(mask, x, y) ==> base.at(x, y) == color,
    ensures
        all_are(row_samples(base, mask, y, x0, x1), color),
    decreases x1 - x0,
{
    if x1 > x0 {
        lemma_row_samples_all(base, mask, y, x0, x1 - 1, color);
        assert(outside_box(mask, x1 - 1, y) ==> base.at(x1 - 1, y) == color);
    }
}

proof fn lemma_region_samples_all(
    base: ImageView<Rgba>,
    mask: ImageView<u8>,
    x0: int,
    y0: int,
    x1: int,
    y1: int,
    color: Rgba,
)
    requires
        forall|x: int, y: int|
            x0 <= x < x1 && y0 <= y < y1 && #[trigger] outside_box(mask, x, y) ==> base.at(x, y)
                == color,
    ensures
        all_are(region_samples(base, mask, x0, y0, x1, y1), color),
    decreases y1 - y0,
{
    if y1 > y0 {
        lemma_region_samples_all(base, mask, x0, y0, x1, y1 - 1, color);
        lemma_row_samples_all(base, mask, y1 - 1, x0, x1, color);
    }
}

proof fn lemma_channel_sum_range(colors: Seq<Rgba>, k: int, low: nat, high: nat)
    requires
        forall|i: int|
            0 <= i < colors.len() ==> low <= channel(#[trigger] colors[i], k) <= high,
    ensures
        low * colors.len() <= channel_sum(colors, k) <= high * colors.len(),
    decreases colors.len(),
{
    if colors.len() > 0 {
        let rest = colors.drop_last();
        assert forall|i: int| 0 <= i < rest.len() implies low <= channel(#[trigger] rest[i], k)
            <= high by {
            assert(rest[i] == colors[i]);
        }
        lemma_channel_sum_range(rest, k, low, high);
        let n = rest.len();
        assert(low * (n + 1) == low * n + low) by (nonlinear_arith);
        assert(high * (n + 1) == high * n + high) by (nonlinear_arith);
    } else {
        assert(low * 0 == 0 && high * 0 == 0) by (nonlinear_arith);
    }
}

/// The average of some colors lies, in each channel, between the least and the
/// greatest of them.
pub proof fn law_mean_lies_between(colors: Seq<Rgba>, k: int, low: nat, high: nat)
    requires
        colors.len() > 0,
        forall|i: int|
            0 <= i < colors.len() ==> low <= channel(#[trigger] colors[i], k) <= high,
    ensures
        low <= channel_mean(colors, k) <= high,
{
    lemma_channel_sum_range(colors, k, low, high);
    let n = colors.len() as int;
    let sum = channel_sum(colors, k) as int;
    vstd::arithmetic::div_mod::lemma_div_is_ordered(low * n, sum, n);
    vstd::arithmetic::div_mod::lemma_div_is_ordered(sum, high * n, n);
    vstd::arithmetic::div_mod::lemma_div_multiples_vanish(low as int, n);
    vstd::arithmetic::div_mod::lemma_div_multiples_vanish(high as int, n);
    assert(low * n == n * low && high * n == n * high) by (nonlinear_arith);
}

/// Where all that lies outside the bounding box has one color, and anything does,
/// the detected color is that color, made opaque.
pub proof fn law_uniform_background_is_detected(
    base: ImageView<Rgba>,
    mask: ImageView<u8>,
    color: Rgba,
)
    requires
        mask.wf(),
        !covers_nothing(mask, MASK_THRESHOLD),
        samples_lie_in(base, mask),
        exists|x: int, y: int|
            mask.has(x, y) && !#[trigger] in_box(bounds_of(mask, MASK_THRESHOLD), x, y),
        forall|x: int, y: int|
            base.has(x, y) && #[trigger] outside_box(mask, x, y) ==> base.at(x, y) == color,
    ensures
        surrounding_color(base, mask) == (Rgba { a: 255, ..color }),
{
    law_sampled_region_surrounds(mask);
    let (x0, y0, x1, y1) = sampled_region(mask);
    lemma_region_samples_all(base, mask, x0, y0, x1, y1, color);
    let colors = samples(base, mask);
    let (px, py) = choose|x: int, y: int|
        mask.has(x, y) && !#[trigger] in_box(bounds_of(mask, MASK_THRESHOLD), x, y);
    law_ring_is_there(base, mask, px, py);
    law_mean_lies_between(colors, 0, color.r as nat, color.r as nat);
    law_mean_lies_between(colors, 1, color.g as nat, color.g as nat);
    law_mean_lies_between(colors, 2, color.b as nat, color.b as nat);
}

/// Where the bounding box takes in the whole mask there is no ring, and the
/// detected color is white.
pub proof fn law_no_ring_is_white(base: ImageView<Rgba>, mask: ImageView<u8>)
    requires
        mask.wf(),
        forall|x: int, y: int|
            mask.has(x, y) ==> #[trigger] in_box(bounds_of(mask, MASK_THRESHOLD), x, y),
    ensures
        surrounding_color(base, mask) == Rgba::spec_white(),
{
    if !covers_nothing(mask, MASK_THRESHOLD) {
        law_sampled_region_surrounds(mask);
        let (x0, y0, x1, y1) = sampled_region(mask);
        assert forall|x: int, y: int| x0 <= x < x1 && y0 <= y < y1 implies !#[trigger] outside_box(
            mask,
            x,
            y,
        ) by {
            assert(mask.has(x, y));
            assert(in_box(bounds_of(mask, MASK_THRESHOLD), x, y));
        }
        // All samples have any color at all, so there are none.
        let black = Rgba { r: 0, g: 0, b: 0, a: 0 };
        lemma_region_samples_all(base, mask, x0, y0, x1, y1, black);
        lemma_region_samples_all(base, mask, x0, y0, x1, y1, Rgba::spec_white());
        let colors = samples(base, mask);
        assert(colors.len() > 0 ==> colors[0] == black && colors[0] == Rgba::spec_white());
    }
}

/// On a uniform opaque background, filling with the detected color leaves
/// nothing but background.
pub proof fn law_detected_fill_blends_in(
    base: ImageView<Rgba>,
    mask: ImageView<u8>,
    color: Rgba,
    filled: ImageView<Rgba>,
    x: int,
    y: int,
)
    requires
        mask.wf(),
        samples_lie_in(base, mask),
        lies_in(base, mask),
        color.a == 255,
        !covers_nothing(mask, MASK_THRESHOLD) ==> exists|px: int, py: int|
            mask.has(px, py) && !#[trigger] in_box(bounds_of(mask, MASK_THRESHOLD), px, py),
        forall|px: int, py: int|
            base.has(px, py) && !#[trigger] covered(mask, MASK_THRESHOLD, px, py) ==> base.at(
                px,
                py,
            ) == color,
        is_filled(filled, base, mask, surrounding_color(base, mask)),
        base.has(x, y),
    ensures
        filled.at(x, y) == color,
{
    if covered(mask, MASK_THRESHOLD, x, y) {
        assert forall|px: int, py: int|
            base.has(px, py) && #[trigger] outside_box(mask, px, py) implies base.at(px, py)
            == color by {
            assert(!covered(mask, MASK_THRESHOLD, px, py));
        }
        law_uniform_background_is_detected(base, mask, color);
    }
}

/// The place lies in the ring: not in the bounding box, and at most 14 pixels from it
/// in either direction.
pub open spec fn in_ring(bounds: (i64, i64, i64, i64), x: int, y: int) -> bool {
    let (min_x, min_y, max_x, max_y) = bounds;
    &&& min_x - 14 <= x <= max_x + 14
    &&& min_y - 14 <= y <= max_y + 14
    &&& !(min_x <= x <= max_x && min_y <= y <= max_y)
}

/// The sum of what `weight` gives for the places of row `y` in the columns before
/// `to`.
pub open spec fn row_total(weight: spec_fn(int, int) -> nat, y: int, to: nat) -> nat
    decreases to,
{
    if to == 0 {
        0
    } else {
        row_total(weight, y, (to - 1) as nat) + weight(to - 1, y)
    }
}

/// The sum of what `weight` gives for all places of `width` columns in the rows before
/// `to`.
pub open spec fn total(weight: spec_fn(int, int) -> nat, width: nat, to: nat) -> nat
    decreases to,
{
    if to == 0 {
        0
    } else {
        total(weight, width, (to - 1) as nat) + row_total(weight, to - 1, width)
    }
}

/// How many places of the mask lie in the ring.
pub open spec fn ring_size(mask: ImageView<u8>, bounds: (i64, i64, i64, i64)) -> nat {
    total(
        |x: int, y: int|
            if in_ring(bounds, x, y) {
                1
            } else {
                0
            },
        mask.width,
        mask.height,
    )
}

/// The sum of a channel over the places of the mask that lie in the ring.
pub open spec fn ring_sum(
    base: ImageView<Rgba>,
    mask: ImageView<u8>,
    bounds: (i64, i64, i64, i64),
    channel_of: spec_fn(Rgba) -> nat,
) -> nat {
    total(
        |x: int, y: int|
            if in_ring(bounds, x, y) {
                channel_of(base.pixels[y * base.width + x])
            } else {
                0
            },
        mask.width,
        mask.height,
    )
}

spec fn sum_of(colors: Seq<Rgba>, g: spec_fn(Rgba) -> nat) -> nat
    decreases colors.len(),
{
    if colors.len() == 0 {
        0
    } else {
        sum_of(colors.drop_last(), g) + g(colors.last())
    }
}

proof fn lemma_sum_of_joined(a: Seq<Rgba>, b: Seq<Rgba>, g: spec_fn(Rgba) -> nat)
    ensures
        sum_of(a + b, g) == sum_of(a, g) + sum_of(b, g),
    decreases b.len(),
{
    if b.len() == 0 {
        assert(a + b =~= a);
    } else {
        lemma_sum_of_joined(a, b.drop_last(), g);
        assert((a + b).drop_last() =~= a + b.drop_last());
    }
}

proof fn lemma_sum_of_channel(colors: Seq<Rgba>, k: int, g: spec_fn(Rgba) -> nat)
    requires
        forall|c: Rgba| #[trigger] g(c) == channel(c, k),
    ensures
        sum_of(colors, g) == channel_sum(colors, k),
    decreases colors.len(),
{
    if colors.len() > 0 {
        lemma_sum_of_channel(colors.drop_last(), k, g);
    }
}

proof fn lemma_sum_of_ones(colors: Seq<Rgba>, g: spec_fn(Rgba) -> nat)
    requires
        forall|c: Rgba| #[trigger] g(c) == 1,
    ensures
        sum_of(colors, g) == colors.len(),
    decreases colors.len(),
{
    if colors.len() > 0 {
        lemma_sum_of_ones(colors.drop_last(), g);
    }
}

/// A place of the mask lies in the sampled region exactly when it is at most 14
/// pixels from the bounding box, and what is sampled there is what lies in the ring.
pub proof fn law_sampled_region_is_box_and_ring(mask: ImageView<u8>, x: int, y: int)
    requires
        mask.wf(),
        !covers_nothing(mask, MASK_THRESHOLD),
        mask.has(x, y),
    ensures
        ({
            let (min_x, min_y, max_x, max_y) = bounds_of(mask, MASK_THRESHOLD);
            let (x0, y0, x1, y1) = sampled_region(mask);
            &&& x0 <= x < x1 && y0 <= y < y1 <==> min_x - 14 <= x <= max_x + 14 && min_y - 14 <= y
                <= max_y + 14
            &&& x0 <= x < x1 && y0 <= y < y1 && outside_box(mask, x, y) <==> in_ring(
                bounds_of(mask, MASK_THRESHOLD),
                x,
                y,
            )
        }),
{
    law_bounds_exist(mask, MASK_THRESHOLD);
    law_covered_pixels_are_not_sampled(mask, x, y);
}

proof fn lemma_row_total(
    base: ImageView<Rgba>,
    mask: ImageView<u8>,
    g: spec_fn(Rgba) -> nat,
    weight: spec_fn(int, int) -> nat,
    y: int,
    to: nat,
)
    requires
        mask.wf(),
        !covers_nothing(mask, MASK_THRESHOLD),
        0 <= y < mask.height,
        to <= mask.width,
        forall|x: int, v: int| #[trigger]
            weight(x, v) == if in_ring(bounds_of(mask, MASK_THRESHOLD), x, v) {
                g(base.pixels[v * base.width + x])
            } else {
                0
            },
    ensures
        ({
            let (x0, y0, x1, y1) = sampled_region(mask);
            row_total(weight, y, to) == if y0 <= y < y1 && to >= x0 {
                sum_of(row_samples(base, mask, y, x0, if to <= x1 { to as int } else { x1 }), g)
            } else {
                0
            }
        }),
    decreases to,
{
    law_sampled_region_surrounds(mask);
    let (x0, y0, x1, y1) = sampled_region(mask);
    if to > 0 {
        let x = to - 1;
        lemma_row_total(base, mask, g, weight, y, x as nat);
        law_sampled_region_is_box_and_ring(mask, x, y);
        assert(base.at(x, y) == base.pixels[y * base.width + x]);
        if y0 <= y < y1 && x0 <= x < x1 {
            let before = row_samples(base, mask, y, x0, x);
            assert(before.push(base.at(x, y)).drop_last() =~= before);
        }
    }
}

proof fn lemma_total(
    base: ImageView<Rgba>,
    mask: ImageView<u8>,
    g: spec_fn(Rgba) -> nat,
    weight: spec_fn(int, int) -> nat,
    to: nat,
)
    requires
        mask.wf(),
        !covers_nothing(mask, MASK_THRESHOLD),
        to <= mask.height,
        forall|x: int, v: int| #[trigger]
            weight(x, v) == if in_ring(bounds_of(mask, MASK_THRESHOLD), x, v) {
                g(base.pixels[v * base.width + x])
            } else {
                0
            },
    ensures
        ({
            let (x0, y0, x1, y1) = sampled_region(mask);
            total(weight, mask.width, to) == if to >= y0 {
                sum_of(
                    region_samples(base, mask, x0, y0, x1, if to <= y1 { to as int } else { y1 }),
                    g,
                )
            } else {
                0
            }
        }),
    decreases to,
{
    law_sampled_region_surrounds(mask);
    let (x0, y0, x1, y1) = sampled_region(mask);
    if to > 0 {
        let y = to - 1;
        lemma_total(base, mask, g, weight, y as nat);
        lemma_row_total(base, mask, g, weight, y, mask.width);
        if y0 <= y < y1 {
            lemma_sum_of_joined(
                region_samples(base, mask, x0, y0, x1, y),
                row_samples(base, mask, y, x0, x1),
                g,
            );
        }
    }
}

proof fn lemma_ring_totals(base: ImageView<Rgba>, mask: ImageView<u8>)
    requires
        mask.wf(),
        !covers_nothing(mask, MASK_THRESHOLD),
    ensures
        ({
            let bounds = bounds_of(mask, MASK_THRESHOLD);
            let colors = samples(base, mask);
            &&& ring_size(mask, bounds) == colors.len()
            &&& ring_sum(base, mask, bounds, |c: Rgba| c.r as nat) == channel_sum(colors, 0)
            &&& ring_sum(base, mask, bounds, |c: Rgba| c.g as nat) == channel_sum(colors, 1)
            &&& ring_sum(base, mask, bounds, |c: Rgba| c.b as nat) == channel_sum(colors, 2)
        }),
{
    law_sampled_region_surrounds(mask);
    let bounds = bounds_of(mask, MASK_THRESHOLD);
    let colors = samples(base, mask);
    let one = |c: Rgba| 1nat;
    lemma_total(
        base,
        mask,
        one,
        |x: int, y: int|
            if in_ring(bounds, x, y) {
                1
            } else {
                0
            },
        mask.height,
    );
    lemma_sum_of_ones(colors, one);
    lemma_ring_sum(base, mask, 0, |c: Rgba| c.r as nat);
    lemma_ring_sum(base, mask, 1, |c: Rgba| c.g as nat);
    lemma_ring_sum(base, mask, 2, |c: Rgba| c.b as nat);
}

proof fn lemma_ring_sum(
    base: ImageView<Rgba>,
    mask: ImageView<u8>,
    k: int,
    channel_of: spec_fn(Rgba) -> nat,
)
    requires
        mask.wf(),
        !covers_nothing(mask, MASK_THRESHOLD),
        forall|c: Rgba| #[trigger] channel_of(c) == channel(c, k),
    ensures
        ring_sum(base, mask, bounds_of(mask, MASK_THRESHOLD), channel_of) == channel_sum(
            samples(base, mask),
            k,
        ),
{
    law_sampled_region_surrounds(mask);
    let bounds = bounds_of(mask, MASK_THRESHOLD);
    lemma_total(
        base,
        mask,
        channel_of,
        |x: int, y: int|
            if in_ring(bounds, x, y) {
                channel_of(base.pixels[y * base.width + x])
            } else {
                0
            },
        mask.height,
    );
    lemma_sum_of_channel(samples(base, mask), k, channel_of);
}

proof fn lemma_row_total_at_least(weight: spec_fn(int, int) -> nat, y: int, to: nat, x: int)
    requires
        0 <= x < to,
    ensures
        row_total(weight, y, to) >= weight(x, y),
    decreases to,
{
    if x < to - 1 {
        lemma_row_total_at_least(weight, y, (to - 1) as nat, x);
    }
}

proof fn lemma_total_at_least(
    weight: spec_fn(int, int) -> nat,
    width: nat,
    to: nat,
    x: int,
    y: int,
)
    requires
        0 <= x < width,
        0 <= y < to,
    ensures
        total(weight, width, to) >= weight(x, y),
    decreases to,
{
    if y < to - 1 {
        lemma_total_at_least(weight, width, (to - 1) as nat, x, y);
    } else {
        lemma_row_total_at_least(weight, y, width, x);
    }
}

/// Wherever the bounding box leaves a place of the mask outside itself, there is a
/// ring: something is sampled.
pub proof fn law_ring_is_there(base: ImageView<Rgba>, mask: ImageView<u8>, x: int, y: int)
    requires
        mask.wf(),
        !covers_nothing(mask, MASK_THRESHOLD),
        mask.has(x, y),
        !in_box(bounds_of(mask, MASK_THRESHOLD), x, y),
    ensures
        samples(base, mask).len() > 0,
        ring_size(mask, bounds_of(mask, MASK_THRESHOLD)) > 0,
{
    law_bounds_exist(mask, MASK_THRESHOLD);
    law_sampled_region_surrounds(mask);
    let bounds = bounds_of(mask, MASK_THRESHOLD);
    let (min_x, min_y, max_x, max_y) = bounds;
    // A place of the mask that lies next to the box.
    let (nx, ny) = if x < min_x {
        (min_x - 1, min_y as int)
    } else if x > max_x {
        (max_x + 1, min_y as int)
    } else if y < min_y {
        (min_x as int, min_y - 1)
    } else {
        (min_x as int, max_y + 1)
    };
    let left = choose|v: int| covered(mask, MASK_THRESHOLD, min_x as int, v);
    let top = choose|v: int| covered(mask, MASK_THRESHOLD, v, min_y as int);
    assert(mask.has(min_x as int, left));
    assert(mask.has(top, min_y as int));
    assert(in_ring(bounds, nx, ny));
    let weight = |px: int, py: int|
        if in_ring(bounds, px, py) {
            1nat
        } else {
            0nat
        };
    lemma_ring_totals(base, mask);
    lemma_total_at_least(weight, mask.width, mask.height, nx, ny);
    assert(weight(nx, ny) == 1);
    assert(ring_size(mask, bounds) == total(weight, mask.width, mask.height));
}

/// The detected color is the average, rounded down in each channel, of all pixels in
/// the ring around what the mask covers, and opaque: so many as lie in the ring, each
/// once. With no ring, and where the mask covers nothing, it is white.
pub proof fn law_detected_color_is_the_mean_of_the_ring(
    base: &RgbaImage,
    mask: &GrayImage,
    found: Option<(i64, i64, i64, i64)>,
    color: Rgba,
)
    requires
        mask@.wf(),
        samples_lie_in(base@, mask@),
        call_ensures(mask_bounds, (mask, 32), found),
        call_ensures(detect_surrounding_color, (base, mask), color),
    ensures
        color.a == 255,
        found is None ==> color.r == 255 && color.g == 255 && color.b == 255,
        found matches Some(bounds) ==> {
            let n = ring_size(mask@, bounds);
            let r = ring_sum(base@, mask@, bounds, |c: Rgba| c.r as nat);
            let g = ring_sum(base@, mask@, bounds, |c: Rgba| c.g as nat);
            let b = ring_sum(base@, mask@, bounds, |c: Rgba| c.b as nat);
            if n == 0 {
                color.r == 255 && color.g == 255 && color.b == 255
            } else {
                &&& color.r * n <= r < (color.r + 1) * n
                &&& color.g * n <= g < (color.g + 1) * n
                &&& color.b * n <= b < (color.b + 1) * n
            }
        },
{
    if let Some(bounds) = found {
        lemma_ring_totals(base@, mask@);
        let colors = samples(base@, mask@);
        let n = colors.len() as int;
        if n > 0 {
            lemma_channel_mean_bound(colors, 0);
            lemma_channel_mean_bound(colors, 1);
            lemma_channel_mean_bound(colors, 2);
            lemma_mean_is_rounded_down(channel_sum(colors, 0) as int, n);
            lemma_mean_is_rounded_down(channel_sum(colors, 1) as int, n);
            lemma_mean_is_rounded_down(channel_sum(colors, 2) as int, n);
        }
    }
}

proof fn lemma_mean_is_rounded_down(sum: int, n: int)
    requires
        0 <= sum,
        0 < n,
    ensures
        (sum / n) * n <= sum < (sum / n + 1) * n,
{
    assert((sum / n) * n <= sum < (sum / n + 1) * n) by (nonlinear_arith)
        requires
            0 <= sum,
            0 < n,
    ;
}

/// The bounding box of a mask: each of its sides is touched by a pixel of at least the
/// threshold, and no such pixel lies outside it. There is none exactly when the mask
/// has no such pixel.
pub proof fn law_bounds_are_the_extent_of_the_mask(
    mask: &GrayImage,
    threshold: u8,
    result: Option<(i64, i64, i64, i64)>,
)
    requires
        mask@.wf(),
        call_ensures(mask_bounds, (mask, threshold), result),
    ensures
        ({
            let w = mask@.width as int;
            let is_set = |x: int, y: int|
                0 <= x < w && 0 <= y < mask@.height && mask@.pixels[y * w + x] >= threshold;
            match result {
                Some((min_x, min_y, max_x, max_y)) => {
                    &&& forall|x: int, y: int| #[trigger]
                        is_set(x, y) ==> min_x <= x <= max_x && min_y <= y <= max_y
                    &&& exists|y: int| #[trigger] is_set(min_x as int, y)
                    &&& exists|y: int| #[trigger] is_set(max_x as int, y)
                    &&& exists|x: int| #[trigger] is_set(x, min_y as int)
                    &&& exists|x: int| #[trigger] is_set(x, max_y as int)
                },
                None => forall|x: int, y: int| !#[trigger] is_set(x, y),
            }
        }),
{
    let w = mask@.width as int;
    let is_set = |x: int, y: int|
        0 <= x < w && 0 <= y < mask@.height && mask@.pixels[y * w + x] >= threshold;
    assert forall|x: int, y: int| #[trigger] is_set(x, y) == covered(mask@, threshold, x, y) by {}
    if let Some((min_x, min_y, max_x, max_y)) = result {
        let left = choose|v: int| covered(mask@, threshold, min_x as int, v);
        let top = choose|v: int| covered(mask@, threshold, v, min_y as int);
        let right = choose|v: int| covered(mask@, threshold, max_x as int, v);
        let bottom = choose|v: int| covered(mask@, threshold, v, max_y as int);
        assert(is_set(min_x as int, left));
        assert(is_set(top, min_y as int));
        assert(is_set(max_x as int, right));
        assert(is_set(bottom, max_y as int));
        assert forall|x: int, y: int| #[trigger] is_set(x, y) implies min_x <= x <= max_x && min_y
            <= y <= max_y by {
            assert(covered(mask@, threshold, x, y));
        }
    } else {
        assert forall|x: int, y: int| !#[trigger] is_set(x, y) by {
            assert(!covered(mask@, threshold, x, y));
        }
    }
}

/// `filled` has the size of `base`, the given color wherever the mask's pixel is at
/// least 32, and every other pixel as it was.
pub open spec fn shows_fill(
    filled: ImageView<Rgba>,
    base: ImageView<Rgba>,
    mask: ImageView<u8>,
    color: Rgba,
) -> bool {
    &&& filled.width == base.width
    &&& filled.height == base.height
    &&& filled.pixels.len() == base.width * base.height
    &&& forall|x: int, y: int|
        0 <= x < base.width && 0 <= y < base.height ==> #[trigger] filled.pixels[y * base.width + x]
            == if mask.pixels[y * mask.width + x] >= 32 {
            color
        } else {
            base.pixels[y * base.width + x]
        }
}

proof fn lemma_filled_shows_fill(
    filled: ImageView<Rgba>,
    base: ImageView<Rgba>,
    mask: ImageView<u8>,
    color: Rgba,
)
    requires
        lies_in(base, mask),
        is_filled(filled, base, mask, color),
    ensures
        shows_fill(filled, base, mask, color),
{
    assert forall|x: int, y: int|
        0 <= x < base.width && 0 <= y < base.height implies #[trigger] filled.pixels[y * base.width
        + x] == if mask.pixels[y * mask.width + x] >= 32 {
        color
    } else {
        base.pixels[y * base.width + x]
    } by {
        assert(base.has(x, y));
        assert(filled.at(x, y) == filled_pixel(base, mask, color, x, y));
        assert(mask.at(x, y) == mask.pixels[y * mask.width + x]);
        assert(base.at(x, y) == base.pixels[y * base.width + x]);
    }
}

/// Filling paints exactly the pixels where the mask is at least 32, with the color
/// that was given.
pub proof fn law_fill_paints_what_the_mask_covers(
    base: &RgbaImage,
    mask: &GrayImage,
    color: Rgba,
    out: RgbaImage,
)
    requires
        lies_in(base@, mask@),
        call_ensures(fill_mask_with_color, (base, mask, color), out),
    ensures
        shows_fill(out@, base@, mask@, color),
{
    lemma_filled_shows_fill(out@, base@, mask@, color);
}

/// The detecting engine fills with the color that it detects; the solid one with the
/// color that it is given, which it needs.
pub proof fn law_engines_fill_with_their_color(
    base: &RgbaImage,
    mask: &GrayImage,
    detected: Rgba,
    by_detection: RgbaImage,
    option: Option<Rgba>,
    chosen: Result<Rgba, FillError>,
    given: Rgba,
    solid: RgbaImage,
)
    requires
        samples_lie_in(base@, mask@),
        lies_in(base@, mask@),
        call_ensures(detect_surrounding_color, (base, mask), detected),
        call_ensures(DetectFillEngine::run, (&DetectFillEngine, base, mask), by_detection),
        call_ensures(SolidFillEngine::color, (&SolidFillEngine, option), chosen),
        call_ensures(SolidFillEngine::run, (&SolidFillEngine, base, mask, given), solid),
    ensures
        shows_fill(by_detection@, base@, mask@, detected),
        shows_fill(solid@, base@, mask@, given),
        chosen is Ok <==> option is Some,
        option is Some ==> chosen->Ok_0 == option->0,
        option is None ==> chosen->Err_0 == FillError::NoFillColor,
{
    lemma_filled_shows_fill(by_detection@, base@, mask@, detected);
    lemma_filled_shows_fill(solid@, base@, mask@, given);
}

/// An image can be filled exactly when each of its pixels lies in the mask.
pub proof fn law_fill_needs_a_mask_for_every_pixel(base: &RgbaImage, mask: &GrayImage, yes: bool)
    requires
        call_ensures(can_fill, (base, mask), yes),
    ensures
        yes <==> forall|x: int, y: int| #[trigger] base@.has(x, y) ==> mask@.has(x, y),
        yes ==> forall|color: Rgba| #[trigger]
            call_requires(fill_mask_with_color, (base, mask, color)),
{
    if base@.width > 0 && base@.height > 0 {
        assert(base@.has(base@.width - 1, base@.height - 1));
        if forall|x: int, y: int| #[trigger] base@.has(x, y) ==> mask@.has(x, y) {
            assert(mask@.has(base@.width - 1, base@.height - 1));
        }
    }
}

/// A color can be detected exactly when every place in the ring lies in the image; it
/// always can where the mask covers nothing.
pub proof fn law_detection_needs_the_ring(
    base: &RgbaImage,
    mask: &GrayImage,
    found: Option<(i64, i64, i64, i64)>,
    yes: bool,
)
    requires
        mask@.wf(),
        call_ensures(mask_bounds, (mask, 32), found),
        call_ensures(can_sample, (base, mask), yes),
    ensures
        found is None ==> yes,
        found matches Some(bounds) ==> (yes <==> forall|x: int, y: int|
            mask@.has(x, y) && #[trigger] in_ring(bounds, x, y) ==> base@.has(x, y)),
        yes ==> call_requires(detect_surrounding_color, (base, mask)),
{
    if let Some(bounds) = found {
        law_sampled_region_surrounds(mask@);
        let (x0, y0, x1, y1) = sampled_region(mask@);
        assert forall|x: int, y: int| mask@.has(x, y) implies (#[trigger] in_ring(bounds, x, y)
            <==> x0 <= x < x1 && y0 <= y < y1 && outside_box(mask@, x, y)) by {
            law_sampled_region_is_box_and_ring(mask@, x, y);
        }
        if yes {
            assert forall|x: int, y: int|
                mask@.has(x, y) && #[trigger] in_ring(bounds, x, y) implies base@.has(x, y) by {
                assert(outside_box(mask@, x, y));
            }
        } else {
            let (x, y) = choose|x: int, y: int|
                x0 <= x < x1 && y0 <= y < y1 && #[trigger] outside_box(mask@, x, y) && !base@.has(
                    x,
                    y,
                );
            assert(mask@.has(x, y));
            assert(in_ring(bounds, x, y));
        }
    }
}

/// A fill needs both masks, and says which one is missing, the segment mask first. It
/// reads those two, and starts from the inpainted image wherever there is one.
pub proof fn law_fill_reads_the_images_of_the_page(
    segment: Option<BlobRef>,
    bubble: Option<BlobRef>,
    inpainted: Option<BlobRef>,
    result: Result<FillInputs, FillError>,
)
    requires
        call_ensures(fill_inputs, (segment, bubble, inpainted), result),
    ensures
        result is Ok <==> segment is Some && bubble is Some,
        segment is None ==> result->Err_0 == FillError::NoSegmentMask,
        segment is Some && bubble is None ==> result->Err_0 == FillError::NoBubbleMask,
        result matches Ok(inputs) ==> {
            &&& Some(inputs.mask) == segment
            &&& Some(inputs.bubble_mask) == bubble
            &&& inputs.base is Source <==> inpainted is None
            &&& inpainted is Some ==> inputs.base->Inpainted_0 == inpainted->0
        },
{
}

/// The message of an error says what is missing.
pub proof fn law_fill_errors_say_what_is_missing(error: FillError, message: String)
    requires
        call_ensures(FillError::message, (&error,), message),
    ensures
        error == FillError::NoSegmentMask ==> message@ == "no Segment mask on page"@,
        error == FillError::NoBubbleMask ==> message@ == "no Bubble mask on page"@,
        error == FillError::NoFillColor ==> message@
            == "mask-fill-solid requires options.fill_color"@,
{
}

} // verus!
