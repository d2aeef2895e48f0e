//! The compositor: draws an ordered collection of images onto one canvas.

use vstd::prelude::*;
use crate::error::ComposeError;
use crate::layout::{
    all_wf, canvas_fits, canvas_height, canvas_width, ceil_sqrt, composite, grid_columns, grid_rows,
    lemma_grid_cell, lemma_max_height_bounds, lemma_max_width_bounds, lemma_total_height_monotonic,
    lemma_total_width_monotonic, max_height, max_width, origin, painted, partial_composite,
    total_height, total_width, Layout,
};
use crate::pixel::{
    check_size_fits, lemma_from_pixels, lemma_raster_ext_equal, views, PixelBuffer, Raster, Rgba,
};

verus! {

/// Drawing image `i` over the canvas that holds the first `i` images gives
/// the canvas that holds the first `i + 1`.
pub proof fn lemma_paint_step(images: Seq<Raster>, layout: Layout, i: int)
    requires
        0 <= i < images.len(),
        canvas_width(images, layout) >= 1,
        canvas_height(images, layout) >= 1,
    ensures
        partial_composite(images, layout, i).overlaid(
            images[i],
            origin(images, layout, i).0,
            origin(images, layout, i).1,
        ) == partial_composite(images, layout, i + 1),
        partial_composite(images, layout, i + 1).wf(),
{
    let w = canvas_width(images, layout) as nat;
    let h = canvas_height(images, layout) as nat;
    let before = partial_composite(images, layout, i);
    let (ox, oy) = origin(images, layout, i);
    let drawn = before.overlaid(images[i], ox, oy);
    let after = partial_composite(images, layout, i + 1);
    let f = |x: int, y: int|
        if images[i].contains(x - ox, y - oy) {
            images[i].pixel(x - ox, y - oy)
        } else {
            before.pixel(x, y)
        };
    lemma_from_pixels(w, h, f, 0, 0);
    lemma_from_pixels(w, h, |x: int, y: int| painted(images, layout, i + 1, x, y), 0, 0);
    assert forall|x: int, y: int| drawn.contains(x, y) implies #[trigger] drawn.pixel(x, y)
        == after.pixel(x, y) by {
        lemma_from_pixels(w, h, f, x, y);
        lemma_from_pixels(w, h, |x: int, y: int| painted(images, layout, i, x, y), x, y);
        lemma_from_pixels(w, h, |x: int, y: int| painted(images, layout, i + 1, x, y), x, y);
    }
    lemma_raster_ext_equal(drawn, after);
}

/// A fresh transparent canvas is the composite of no images.
pub proof fn lemma_paint_start(images: Seq<Raster>, layout: Layout)
    requires
        canvas_width(images, layout) >= 1,
        canvas_height(images, layout) >= 1,
    ensures
        Raster::from_pixels(
            canvas_width(images, layout) as nat,
            canvas_height(images, layout) as nat,
            |x: int, y: int| Rgba::transparent(),
        ) == partial_composite(images, layout, 0),
{
    let w = canvas_width(images, layout) as nat;
    let h = canvas_height(images, layout) as nat;
    let blank = Raster::from_pixels(w, h, |x: int, y: int| Rgba::transparent());
    let start = partial_composite(images, layout, 0);
    lemma_from_pixels(w, h, |x: int, y: int| Rgba::transparent(), 0, 0);
    lemma_from_pixels(w, h, |x: int, y: int| painted(images, layout, 0, x, y), 0, 0);
    assert forall|x: int, y: int| blank.contains(x, y) implies #[trigger] blank.pixel(x, y)
        == start.pixel(x, y) by {
        lemma_from_pixels(w, h, |x: int, y: int| Rgba::transparent(), x, y);
        lemma_from_pixels(w, h, |x: int, y: int| painted(images, layout, 0, x, y), x, y);
    }
    lemma_raster_ext_equal(blank, start);
}

/// Lays the images out left to right, top-aligned, each starting where the
/// one before it ends. The canvas is as wide as all images together and as
/// high as the tallest; what no image covers stays transparent.
pub fn compose_horizontal(images: &Vec<PixelBuffer>) -> (result: Result<PixelBuffer, ComposeError>)
    requires
        images.len() > 0 ==> canvas_fits(views(images@), Layout::Horizontal),
    ensures
        images.len() == 0 ==> result == Err::<PixelBuffer, ComposeError>(ComposeError::EmptyInput),
        images.len() > 0 ==> (result matches Ok(canvas) && canvas@ == composite(
            views(images@),
            Layout::Horizontal,
        )),
{
    let n = images.len();
    if n == 0 {
        return Err(ComposeError::EmptyInput);
    }
    let ghost rasters = views(images@);
    let mut total: u32 = 0;
    let mut tallest: u32 = 0;
    let mut i: usize = 0;
    while i < n
        invariant
            i <= n,
            n == images.len(),
            rasters == views(images@),
            all_wf(rasters, i as int),
            total == total_width(rasters, i as int),
            tallest == max_height(rasters, i as int),
            total_width(rasters, n as int) <= u32::MAX,
        decreases n - i,
    {
        let width = images[i].width();
        let height = images[i].height();
        proof {
            lemma_total_width_monotonic(rasters, i + 1, n as int);
        }
        total = total + width;
        if height > tallest {
            tallest = height;
        }
        i = i + 1;
    }
    proof {
        assert(rasters[0].wf());
        lemma_total_width_monotonic(rasters, 1, n as int);
        lemma_max_height_bounds(rasters, n as int, 0);
        assert(total_width(rasters, 1) == total_width(rasters, 0) + rasters[0].width);
        lemma_paint_start(rasters, Layout::Horizontal);
    }
    let mut canvas = PixelBuffer::new(total, tallest);
    let mut left: u32 = 0;
    i = 0;
    while i < n
        invariant
            i <= n,
            n == images.len(),
            rasters == views(images@),
            canvas_width(rasters, Layout::Horizontal) >= 1,
            canvas_height(rasters, Layout::Horizontal) >= 1,
            canvas_width(rasters, Layout::Horizontal) <= u32::MAX,
            canvas@ == partial_composite(rasters, Layout::Horizontal, i as int),
            left == total_width(rasters, i as int),
        decreases n - i,
    {
        proof {
            lemma_paint_step(rasters, Layout::Horizontal, i as int);
            lemma_total_width_monotonic(rasters, i + 1, n as int);
        }
        canvas.blit(&images[i], left, 0);
        left = left + images[i].width();
        i = i + 1;
    }
    Ok(canvas)
}

/// Stacks the images top to bottom, left-aligned, each starting where the
/// one before it ends. The canvas is as high as all images together and as
/// wide as the widest; what no image covers stays transparent.
pub fn compose_vertical(images: &Vec<PixelBuffer>) -> (result: Result<PixelBuffer, ComposeError>)
    requires
        images.len() > 0 ==> canvas_fits(views(images@), Layout::Vertical),
    ensures
        images.len() == 0 ==> result == Err::<PixelBuffer, ComposeError>(ComposeError::EmptyInput),
        images.len() > 0 ==> (result matches Ok(canvas) && canvas@ == composite(
            views(images@),
            Layout::Vertical,
        )),
{
    let n = images.len();
    if n == 0 {
        return Err(ComposeError::EmptyInput);
    }
    let ghost rasters = views(images@);
    let mut widest: u32 = 0;
    let mut total: u32 = 0;
    let mut i: usize = 0;
    while i < n
        invariant
            i <= n,
            n == images.len(),
            rasters == views(images@),
            all_wf(rasters, i as int),
            widest == max_width(rasters, i as int),
            total == total_height(rasters, i as int),
            total_height(rasters, n as int) <= u32::MAX,
        decreases n - i,
    {
        let width = images[i].width();
        let height = images[i].height();
        proof {
            lemma_total_height_monotonic(rasters, i + 1, n as int);
        }
        if width > widest {
            widest = width;
        }
        total = total + height;
        i = i + 1;
    }
    proof {
        assert(rasters[0].wf());
        lemma_total_height_monotonic(rasters, 1, n as int);
        lemma_max_width_bounds(rasters, n as int, 0);
        assert(total_height(rasters, 1) == total_height(rasters, 0) + rasters[0].height);
        lemma_paint_start(rasters, Layout::Vertical);
    }
    let mut canvas = PixelBuffer::new(widest, total);
    let mut top: u32 = 0;
    i = 0;
    while i < n
        invariant
            i <= n,
            n == images.len(),
            rasters == views(images@),
            canvas_width(rasters, Layout::Vertical) >= 1,
            canvas_height(rasters, Layout::Vertical) >= 1,
            canvas_height(rasters, Layout::Vertical) <= u32::MAX,
            canvas@ == partial_composite(rasters, Layout::Vertical, i as int),
            top == total_height(rasters, i as int),
        decreases n - i,
    {
        proof {
            lemma_paint_step(rasters, Layout::Vertical, i as int);
            lemma_total_height_monotonic(rasters, i + 1, n as int);
        }
        canvas.blit(&images[i], 0, top);
        top = top + images[i].height();
        i = i + 1;
    }
    Ok(canvas)
}

/// Lays the images out row by row in a grid of equal cells. The grid has as
/// many columns as the square root of the image count, rounded up, and as
/// many rows as are needed; each cell is as large as the largest image.
/// Image `i` sits in the top-left corner of cell `i` counted row by row;
/// what no image covers stays transparent.
pub fn compose_grid(images: &Vec<PixelBuffer>) -> (result: Result<PixelBuffer, ComposeError>)
    requires
        images.len() > 0 ==> canvas_fits(views(images@), Layout::Grid),
    ensures
        images.len() == 0 ==> result == Err::<PixelBuffer, ComposeError>(ComposeError::EmptyInput),
        images.len() > 0 ==> (result matches Ok(canvas) && canvas@ == composite(
            views(images@),
            Layout::Grid,
        )),
{
    let n = images.len();
    if n == 0 {
        return Err(ComposeError::EmptyInput);
    }
    let ghost rasters = views(images@);
    let columns = ceil_sqrt(n);
    proof {
        if columns >= 2 {
            vstd::arithmetic::div_mod::lemma_div_is_ordered_by_denominator(n as int, 2, columns as int);
        }
    }
    let rows = if n % columns == 0 {
        n / columns
    } else {
        n / columns + 1
    };
    let mut widest: u32 = 0;
    let mut tallest: u32 = 0;
    let mut i: usize = 0;
    while i < n
        invariant
            i <= n,
            n == images.len(),
            rasters == views(images@),
            all_wf(rasters, i as int),
            widest == max_width(rasters, i as int),
            tallest == max_height(rasters, i as int),
        decreases n - i,
    {
        let width = images[i].width();
        let height = images[i].height();
        if width > widest {
            widest = width;
        }
        if height > tallest {
            tallest = height;
        }
        i = i + 1;
    }
    proof {
        assert(rasters[0].wf());
        lemma_max_width_bounds(rasters, n as int, 0);
        lemma_max_height_bounds(rasters, n as int, 0);
        lemma_grid_cell(n as int, 0);
        assert(columns <= columns * widest && rows <= rows * tallest && columns * widest >= 1 && rows
            * tallest >= 1) by (nonlinear_arith)
            requires
                widest >= 1,
                tallest >= 1,
                columns >= 1,
                rows >= 1,
        ;
        lemma_paint_start(rasters, Layout::Grid);
    }
    let total_width: u32 = (columns as u32) * widest;
    let total_height: u32 = (rows as u32) * tallest;
    let mut canvas = PixelBuffer::new(total_width, total_height);
    i = 0;
    while i < n
        invariant
            i <= n,
            n == images.len(),
            rasters == views(images@),
            columns == grid_columns(n as int),
            rows == grid_rows(n as int),
            widest == max_width(rasters, n as int),
            tallest == max_height(rasters, n as int),
            canvas_width(rasters, Layout::Grid) >= 1,
            canvas_height(rasters, Layout::Grid) >= 1,
            widest >= 1,
            tallest >= 1,
            columns * widest <= u32::MAX,
            rows * tallest <= u32::MAX,
            canvas@ == partial_composite(rasters, Layout::Grid, i as int),
        decreases n - i,
    {
        proof {
            lemma_paint_step(rasters, Layout::Grid, i as int);
            lemma_grid_cell(n as int, i as int);
        }
        let column = i % columns;
        let row = i / columns;
        proof {
            assert(column * widest <= columns * widest && row * tallest <= rows * tallest && columns
                <= columns * widest && rows <= rows * tallest && 0 <= column * widest && 0 <= row
                * tallest) by (nonlinear_arith)
                requires
                    0 <= column < columns,
                    0 <= row < rows,
                    1 <= widest,
                    1 <= tallest,
            ;
        }
        let left: u32 = (column as u32) * widest;
        let top: u32 = (row as u32) * tallest;
        canvas.blit(&images[i], left, top);
        i = i + 1;
    }
    Ok(canvas)
}

/// Composes the images under the given layout. Fails with `EmptyInput`
/// exactly when no image is given; otherwise the result is the composite.
pub fn compose(images: &Vec<PixelBuffer>, layout: Layout) -> (result: Result<
    PixelBuffer,
    ComposeError,
>)
    requires
        images.len() > 0 ==> canvas_fits(views(images@), layout),
    ensures
        images.len() == 0 ==> result == Err::<PixelBuffer, ComposeError>(ComposeError::EmptyInput),
        images.len() > 0 ==> (result matches Ok(canvas) && canvas@ == composite(
            views(images@),
            layout,
        )),
{
    match layout {
        Layout::Horizontal => compose_horizontal(images),
        Layout::Vertical => compose_vertical(images),
        Layout::Grid => compose_grid(images),
    }
}

/// Decides whether the canvas for `images` under `layout` can be held.
pub fn check_canvas_fits(images: &Vec<PixelBuffer>, layout: Layout) -> (fits: bool)
    ensures
        fits == canvas_fits(views(images@), layout),
{
    let n = images.len();
    let ghost rasters = views(images@);
    let mut total_w: u32 = 0;
    let mut total_h: u32 = 0;
    let mut too_wide = false;
    let mut too_high = false;
    let mut widest: u32 = 0;
    let mut tallest: u32 = 0;
    let mut i: usize = 0;
    while i < n
        invariant
            i <= n,
            n == images.len(),
            rasters == views(images@),
            !too_wide ==> total_w == total_width(rasters, i as int),
            too_wide ==> total_width(rasters, i as int) > u32::MAX,
            !too_high ==> total_h == total_height(rasters, i as int),
            too_high ==> total_height(rasters, i as int) > u32::MAX,
            widest == max_width(rasters, i as int),
            tallest == max_height(rasters, i as int),
        decreases n - i,
    {
        let width = images[i].width();
        let height = images[i].height();
        if width > widest {
            widest = width;
        }
        if height > tallest {
            tallest = height;
        }
        if !too_wide {
            if width > u32::MAX - total_w {
                too_wide = true;
            } else {
                total_w = total_w + width;
            }
        }
        if !too_high {
            if height > u32::MAX - total_h {
                too_high = true;
            } else {
                total_h = total_h + height;
            }
        }
        i = i + 1;
    }
    match layout {
        Layout::Horizontal => !too_wide && check_size_fits(total_w, tallest),
        Layout::Vertical => !too_high && check_size_fits(widest, total_h),
        Layout::Grid => {
            if n == 0 {
                assert(grid_rows(0) * 0 == 0 && grid_columns(0) * 0 == 0) by (nonlinear_arith);
                return true;
            }
            let columns = ceil_sqrt(n);
            proof {
                if columns >= 2 {
                    vstd::arithmetic::div_mod::lemma_div_is_ordered_by_denominator(
                        n as int,
                        2,
                        columns as int,
                    );
                }
                lemma_grid_cell(n as int, 0);
            }
            let rows = if n % columns == 0 {
                n / columns
            } else {
                n / columns + 1
            };
            proof {
                assert(columns * widest <= 0xFFFF_FFFF_FFFF_FFFF * 0xFFFF_FFFF && rows * tallest
                    <= 0xFFFF_FFFF_FFFF_FFFF * 0xFFFF_FFFF && 0 <= columns * widest && 0 <= rows
                    * tallest) by (nonlinear_arith)
                    requires
                        0 <= columns <= 0xFFFF_FFFF_FFFF_FFFF,
                        0 <= rows <= 0xFFFF_FFFF_FFFF_FFFF,
                        0 <= widest <= 0xFFFF_FFFF,
                        0 <= tallest <= 0xFFFF_FFFF,
                ;
            }
            let width: u128 = (columns as u128) * (widest as u128);
            let height: u128 = (rows as u128) * (tallest as u128);
            if width > u32::MAX as u128 || height > u32::MAX as u128 {
                return false;
            }
            check_size_fits(width as u32, height as u32)
        },
    }
}

/// Composes the images under the layout with the given name. Fails with
/// `EmptyInput` exactly when no image is given, and with `UnsupportedLayout`
/// exactly when there are images but the name is none of `horizontal`,
/// `vertical`, `grid`; otherwise the result is the composite.
pub fn compose_images(images: &Vec<PixelBuffer>, layout: &str) -> (result: Result<
    PixelBuffer,
    ComposeError,
>)
    requires
        images.len() > 0 ==> (Layout::named(layout@) matches Some(known) ==> canvas_fits(
            views(images@),
            known,
        )),
    ensures
        images.len() == 0 ==> result == Err::<PixelBuffer, ComposeError>(ComposeError::EmptyInput),
        images.len() > 0 && Layout::named(layout@) is None ==> result == Err::<
            PixelBuffer,
            ComposeError,
        >(ComposeError::UnsupportedLayout),
        images.len() > 0 ==> (Layout::named(layout@) matches Some(known) ==> (result matches Ok(
            canvas,
        ) && canvas@ == composite(views(images@), known))),
{
    if images.len() == 0 {
        return Err(ComposeError::EmptyInput);
    }
    match Layout::from_name(layout) {
        Some(known) => compose(images, known),
        None => Err(ComposeError::UnsupportedLayout),
    }
}

} // verus!
