//! Layout policies: where each image of an ordered collection goes on the
//! canvas, and how large the canvas is.

use vstd::prelude::*;
use crate::pixel::{lemma_from_pixels, lemma_raster_ext_equal, size_fits, Raster, Rgba};

verus! {

/// How an ordered collection of images is arranged on one canvas.
#[derive(Clone, Copy, Debug, PartialEq, Eq, Structural)]
pub enum Layout {
    /// Left to right, top-aligned.
    Horizontal,
    /// Top to bottom, left-aligned.
    Vertical,
    /// Row by row in a near-square grid of equal cells.
    Grid,
}

impl Layout {
    /// The layout with the given name, if the name is one of `horizontal`,
    /// `vertical` and `grid`.
    pub open spec fn named(name: Seq<char>) -> Option<Layout> {
        if name == "horizontal"@ {
            Some(Layout::Horizontal)
        } else if name == "vertical"@ {
            Some(Layout::Vertical)
        } else if name == "grid"@ {
            Some(Layout::Grid)
        } else {
            None
        }
    }

    /// Looks a layout up by its name. Any other name gives `None`.
    pub fn from_name(name: &str) -> (layout: Option<Layout>)
        ensures
            layout == Layout::named(name@),
    {
        let wanted = name.to_owned();
        if wanted == "horizontal".to_owned() {
            Some(Layout::Horizontal)
        } else if wanted == "vertical".to_owned() {
            Some(Layout::Vertical)
        } else if wanted == "grid".to_owned() {
            Some(Layout::Grid)
        } else {
            None
        }
    }
}

/// The sum of the widths of the first `n` images.
pub open spec fn total_width(images: Seq<Raster>, n: int) -> int
    decreases n,
{
    if n <= 0 {
        0
    } else {
        total_width(images, n - 1) + images[n - 1].width
    }
}

/// The sum of the heights of the first `n` images.
pub open spec fn total_height(images: Seq<Raster>, n: int) -> int
    decreases n,
{
    if n <= 0 {
        0
    } else {
        total_height(images, n - 1) + images[n - 1].height
    }
}

/// The largest width among the first `n` images, 0 if there is none.
pub open spec fn max_width(images: Seq<Raster>, n: int) -> int
    decreases n,
{
    if n <= 0 {
        0
    } else if images[n - 1].width > max_width(images, n - 1) {
        images[n - 1].width as int
    } else {
        max_width(images, n - 1)
    }
}

/// The largest height among the first `n` images, 0 if there is none.
pub open spec fn max_height(images: Seq<Raster>, n: int) -> int
    decreases n,
{
    if n <= 0 {
        0
    } else if images[n - 1].height > max_height(images, n - 1) {
        images[n - 1].height as int
    } else {
        max_height(images, n - 1)
    }
}

/// Whether `c` is the square root of `n` rounded up: the least `c` whose
/// square reaches `n`.
pub open spec fn is_ceil_sqrt(n: int, c: int) -> bool {
    &&& 0 <= c
    &&& n <= c * c
    &&& c >= 1 ==> (c - 1) * (c - 1) < n
}

/// The number of grid columns for `n` images: the square root of `n`, rounded up.
pub open spec fn grid_columns(n: int) -> int {
    choose|c: int| is_ceil_sqrt(n, c)
}

/// The number of grid rows for `n` images: `n` divided by the number of
/// columns, rounded up.
pub open spec fn grid_rows(n: int) -> int {
    let c = grid_columns(n);
    if n % c == 0 {
        n / c
    } else {
        n / c + 1
    }
}

/// The width of the canvas that holds all `images` under `layout`.
pub open spec fn canvas_width(images: Seq<Raster>, layout: Layout) -> int {
    let n = images.len() as int;
    match layout {
        Layout::Horizontal => total_width(images, n),
        Layout::Vertical => max_width(images, n),
        Layout::Grid => grid_columns(n) * max_width(images, n),
    }
}

/// The height of the canvas that holds all `images` under `layout`.
pub open spec fn canvas_height(images: Seq<Raster>, layout: Layout) -> int {
    let n = images.len() as int;
    match layout {
        Layout::Horizontal => max_height(images, n),
        Layout::Vertical => total_height(images, n),
        Layout::Grid => grid_rows(n) * max_height(images, n),
    }
}

/// The canvas position of the top-left corner of image `i`.
pub open spec fn origin(images: Seq<Raster>, layout: Layout, i: int) -> (int, int) {
    let n = images.len() as int;
    match layout {
        Layout::Horizontal => (total_width(images, i), 0),
        Layout::Vertical => (0, total_height(images, i)),
        Layout::Grid => (
            (i % grid_columns(n)) * max_width(images, n),
            (i / grid_columns(n)) * max_height(images, n),
        ),
    }
}

/// Whether image `i`, placed at its origin, covers canvas position `(x, y)`.
pub open spec fn covers(images: Seq<Raster>, layout: Layout, i: int, x: int, y: int) -> bool {
    images[i].contains(x - origin(images, layout, i).0, y - origin(images, layout, i).1)
}

/// The colour of canvas position `(x, y)` after the first `n` images have
/// been drawn in order onto a transparent canvas.
pub open spec fn painted(images: Seq<Raster>, layout: Layout, n: int, x: int, y: int) -> Rgba
    decreases n,
{
    if n <= 0 {
        Rgba::transparent()
    } else if covers(images, layout, n - 1, x, y) {
        images[n - 1].pixel(
            x - origin(images, layout, n - 1).0,
            y - origin(images, layout, n - 1).1,
        )
    } else {
        painted(images, layout, n - 1, x, y)
    }
}

/// The canvas after the first `n` images have been drawn.
pub open spec fn partial_composite(images: Seq<Raster>, layout: Layout, n: int) -> Raster {
    Raster::from_pixels(
        canvas_width(images, layout) as nat,
        canvas_height(images, layout) as nat,
        |x: int, y: int| painted(images, layout, n, x, y),
    )
}

/// The composite of `images` under `layout`: every image drawn at its origin
/// on a transparent canvas of the layout's size.
pub open spec fn composite(images: Seq<Raster>, layout: Layout) -> Raster {
    partial_composite(images, layout, images.len() as int)
}

/// Whether the canvas for `images` under `layout` can be held: its width and
/// height are 32-bit numbers and its bytes can be counted in a `usize`.
pub open spec fn canvas_fits(images: Seq<Raster>, layout: Layout) -> bool {
    &&& canvas_width(images, layout) <= u32::MAX
    &&& canvas_height(images, layout) <= u32::MAX
    &&& size_fits(canvas_width(images, layout), canvas_height(images, layout))
}

/// Whether each of the first `n` images is well formed.
pub open spec fn all_wf(images: Seq<Raster>, n: int) -> bool {
    forall|i: int| 0 <= i < n ==> (#[trigger] images[i]).wf()
}

/// At most one number is the rounded-up square root of `n`.
pub proof fn lemma_ceil_sqrt_unique(n: int, c1: int, c2: int)
    requires
        is_ceil_sqrt(n, c1),
        is_ceil_sqrt(n, c2),
    ensures
        c1 == c2,
{
    if c1 < c2 {
        assert(c1 * c1 <= (c2 - 1) * (c2 - 1)) by (nonlinear_arith)
            requires
                0 <= c1 <= c2 - 1,
        ;
    } else if c2 < c1 {
        assert(c2 * c2 <= (c1 - 1) * (c1 - 1)) by (nonlinear_arith)
            requires
                0 <= c2 <= c1 - 1,
        ;
    }
}

/// A number with the defining property is the number of grid columns.
pub proof fn lemma_grid_columns(n: int, c: int)
    requires
        is_ceil_sqrt(n, c),
    ensures
        grid_columns(n) == c,
{
    lemma_ceil_sqrt_unique(n, c, grid_columns(n));
}

/// The square root of `n`, rounded up.
pub fn ceil_sqrt(n: usize) -> (c: usize)
    ensures
        c == grid_columns(n as int),
        is_ceil_sqrt(n as int, c as int),
        n >= 1 ==> 1 <= c <= n,
{
    let mut c: usize = 0;
    loop
        invariant
            c <= n,
            c >= 1 ==> (c - 1) * (c - 1) < n,
        ensures
            c <= n,
            is_ceil_sqrt(n as int, c as int),
        decreases n - c,
    {
        proof {
            assert(c * c <= 0xFFFF_FFFF_FFFF_FFFF * 0xFFFF_FFFF_FFFF_FFFF) by (nonlinear_arith)
                requires
                    0 <= c <= 0xFFFF_FFFF_FFFF_FFFF,
            ;
        }
        let square: u128 = (c as u128) * (c as u128);
        if square >= n as u128 {
            break ;
        }
        proof {
            assert(c < n) by (nonlinear_arith)
                requires
                    c * c < n,
                    0 <= c,
            ;
        }
        c = c + 1;
    }
    assert(n >= 1 ==> c >= 1) by (nonlinear_arith)
        requires
            n <= c * c,
            0 <= c,
    ;
    proof {
        lemma_grid_columns(n as int, c as int);
    }
    c
}

/// Sums of widths grow with the number of images summed.
pub proof fn lemma_total_width_monotonic(images: Seq<Raster>, i: int, j: int)
    requires
        i <= j,
    ensures
        total_width(images, i) <= total_width(images, j),
        0 <= total_width(images, i),
    decreases j - i, i,
{
    if i < j {
        lemma_total_width_monotonic(images, i, j - 1);
    } else if i > 0 {
        lemma_total_width_monotonic(images, i - 1, i - 1);
    }
}

/// Sums of heights grow with the number of images summed.
pub proof fn lemma_total_height_monotonic(images: Seq<Raster>, i: int, j: int)
    requires
        i <= j,
    ensures
        total_height(images, i) <= total_height(images, j),
        0 <= total_height(images, i),
    decreases j - i, i,
{
    if i < j {
        lemma_total_height_monotonic(images, i, j - 1);
    } else if i > 0 {
        lemma_total_height_monotonic(images, i - 1, i - 1);
    }
}

/// The largest width is at least every width it was taken over.
pub proof fn lemma_max_width_bounds(images: Seq<Raster>, n: int, i: int)
    requires
        0 <= i < n,
    ensures
        images[i].width <= max_width(images, n),
        0 <= max_width(images, n),
    decreases n,
{
    if i < n - 1 {
        lemma_max_width_bounds(images, n - 1, i);
    } else if n >= 2 {
        lemma_max_width_bounds(images, n - 1, 0);
    }
}

/// The largest height is at least every height it was taken over.
pub proof fn lemma_max_height_bounds(images: Seq<Raster>, n: int, i: int)
    requires
        0 <= i < n,
    ensures
        images[i].height <= max_height(images, n),
        0 <= max_height(images, n),
    decreases n,
{
    if i < n - 1 {
        lemma_max_height_bounds(images, n - 1, i);
    } else if n >= 2 {
        lemma_max_height_bounds(images, n - 1, 0);
    }
}

/// The grid cell of image `i` lies inside the grid: its row is one of the
/// grid's rows and its column one of the grid's columns.
pub proof fn lemma_grid_cell(n: int, i: int)
    requires
        0 <= i < n,
    ensures
        1 <= grid_columns(n) <= n,
        1 <= grid_rows(n),
        0 <= i % grid_columns(n) < grid_columns(n),
        0 <= i / grid_columns(n) < grid_rows(n),
        i == (i / grid_columns(n)) * grid_columns(n) + i % grid_columns(n),
{
    lemma_grid_columns_exist(n);
    let c = grid_columns(n);
    assert(c >= 1 && c <= n) by (nonlinear_arith)
        requires
            0 <= c,
            1 <= n <= c * c,
            c >= 1 ==> (c - 1) * (c - 1) < n,
    ;
    vstd::arithmetic::div_mod::lemma_fundamental_div_mod(i, c);
    vstd::arithmetic::div_mod::lemma_fundamental_div_mod(n, c);
    vstd::arithmetic::div_mod::lemma_div_is_ordered(i, n, c);
    vstd::arithmetic::div_mod::lemma_div_pos_is_pos(i, c);
    vstd::arithmetic::div_mod::lemma_div_pos_is_pos(n, c);
    assert(c * (i / c) == (i / c) * c) by (nonlinear_arith);
    if n % c == 0 {
        assert(i / c < n / c) by (nonlinear_arith)
            requires
                i < n,
                c >= 1,
                n == c * (n / c),
                i == c * (i / c) + i % c,
                0 <= i % c,
        ;
    }
}

/// Every count of images has a number of grid columns.
pub proof fn lemma_grid_columns_exist(n: int)
    requires
        0 <= n,
    ensures
        is_ceil_sqrt(n, grid_columns(n)),
    decreases n,
{
    if n == 0 {
        assert(is_ceil_sqrt(0, 0));
    } else {
        lemma_grid_columns_exist(n - 1);
        let c = grid_columns(n - 1);
        if n <= c * c {
            assert(c >= 1) by (nonlinear_arith)
                requires
                    0 <= c,
                    1 <= c * c,
            ;
            assert((c - 1) * (c - 1) < n);
            assert(is_ceil_sqrt(n, c));
        } else {
            assert(n == c * c + 1);
            assert(n <= (c + 1) * (c + 1)) by (nonlinear_arith)
                requires
                    0 <= c,
                    n == c * c + 1,
            ;
            assert(is_ceil_sqrt(n, c + 1));
        }
    }
}

/// Every image lies wholly inside the canvas: no image reaches past the
/// canvas's width or height, whatever the sizes of the others.
pub proof fn lemma_image_inside_canvas(images: Seq<Raster>, layout: Layout, i: int)
    requires
        0 <= i < images.len(),
    ensures
        0 <= origin(images, layout, i).0,
        0 <= origin(images, layout, i).1,
        origin(images, layout, i).0 + images[i].width <= canvas_width(images, layout),
        origin(images, layout, i).1 + images[i].height <= canvas_height(images, layout),
{
    let n = images.len() as int;
    lemma_total_width_monotonic(images, i + 1, n);
    lemma_total_width_monotonic(images, i, i + 1);
    lemma_total_height_monotonic(images, i + 1, n);
    lemma_total_height_monotonic(images, i, i + 1);
    lemma_max_width_bounds(images, n, i);
    lemma_max_height_bounds(images, n, i);
    if layout == Layout::Grid {
        lemma_grid_cell(n, i);
        let c = grid_columns(n);
        let r = grid_rows(n);
        let mw = max_width(images, n);
        let mh = max_height(images, n);
        let col = i % c;
        let row = i / c;
        assert(0 <= col * mw && col * mw + mw <= c * mw) by (nonlinear_arith)
            requires
                0 <= col < c,
                0 <= mw,
        ;
        assert(0 <= row * mh && row * mh + mh <= r * mh) by (nonlinear_arith)
            requires
                0 <= row < r,
                0 <= mh,
        ;
    }
}

/// No two images overlap on the canvas.
pub proof fn lemma_placements_disjoint(
    images: Seq<Raster>,
    layout: Layout,
    i: int,
    j: int,
    x: int,
    y: int,
)
    requires
        0 <= i < j < images.len(),
    ensures
        !(covers(images, layout, i, x, y) && covers(images, layout, j, x, y)),
{
    let n = images.len() as int;
    lemma_total_width_monotonic(images, i + 1, j);
    lemma_total_height_monotonic(images, i + 1, j);
    if layout == Layout::Grid {
        lemma_grid_cell(n, i);
        lemma_grid_cell(n, j);
        lemma_max_width_bounds(images, n, i);
        lemma_max_height_bounds(images, n, i);
        lemma_max_width_bounds(images, n, j);
        lemma_max_height_bounds(images, n, j);
        let c = grid_columns(n);
        let mw = max_width(images, n);
        let mh = max_height(images, n);
        let (ci, ri) = (i % c, i / c);
        let (cj, rj) = (j % c, j / c);
        if ci < cj {
            assert(ci * mw + mw <= cj * mw) by (nonlinear_arith)
                requires
                    ci + 1 <= cj,
                    0 <= mw,
            ;
        } else if cj < ci {
            assert(cj * mw + mw <= ci * mw) by (nonlinear_arith)
                requires
                    cj + 1 <= ci,
                    0 <= mw,
            ;
        } else if ri < rj {
            assert(ri * mh + mh <= rj * mh) by (nonlinear_arith)
                requires
                    ri + 1 <= rj,
                    0 <= mh,
            ;
        } else if rj < ri {
            assert(rj * mh + mh <= ri * mh) by (nonlinear_arith)
                requires
                    rj + 1 <= ri,
                    0 <= mh,
            ;
        }
    }
}

/// Once image `i` has been drawn, what it covers keeps its colour as long
/// as no later image covers the same position.
pub proof fn lemma_painted_keeps(
    images: Seq<Raster>,
    layout: Layout,
    n: int,
    i: int,
    x: int,
    y: int,
)
    requires
        0 <= i < n,
        covers(images, layout, i, x, y),
        forall|j: int| i < j < n ==> !covers(images, layout, j, x, y),
    ensures
        painted(images, layout, n, x, y) == images[i].pixel(
            x - origin(images, layout, i).0,
            y - origin(images, layout, i).1,
        ),
    decreases n,
{
    if i < n - 1 {
        lemma_painted_keeps(images, layout, n - 1, i, x, y);
    }
}

/// The composite shows every pixel of every image at the image's origin:
/// image `i`'s pixel `(x, y)` is the canvas pixel at the origin of image `i`
/// plus `(x, y)`.
pub proof fn lemma_composite_shows_image(
    images: Seq<Raster>,
    layout: Layout,
    i: int,
    x: int,
    y: int,
)
    requires
        0 <= i < images.len(),
        images[i].contains(x, y),
    ensures
        composite(images, layout).contains(
            origin(images, layout, i).0 + x,
            origin(images, layout, i).1 + y,
        ),
        composite(images, layout).pixel(
            origin(images, layout, i).0 + x,
            origin(images, layout, i).1 + y,
        ) == images[i].pixel(x, y),
{
    let n = images.len() as int;
    let (ox, oy) = origin(images, layout, i);
    lemma_image_inside_canvas(images, layout, i);
    let (cx, cy) = (ox + x, oy + y);
    assert forall|j: int| i < j < n implies !covers(images, layout, j, cx, cy) by {
        lemma_placements_disjoint(images, layout, i, j, cx, cy);
    }
    lemma_painted_keeps(images, layout, n, i, cx, cy);
    lemma_from_pixels(
        canvas_width(images, layout) as nat,
        canvas_height(images, layout) as nat,
        |a: int, b: int| painted(images, layout, n, a, b),
        ox + x,
        oy + y,
    );
}

/// What no image covers stays fully transparent.
pub proof fn lemma_composite_uncovered(images: Seq<Raster>, layout: Layout, x: int, y: int)
    requires
        composite(images, layout).contains(x, y),
        forall|j: int| 0 <= j < images.len() ==> !covers(images, layout, j, x, y),
    ensures
        composite(images, layout).pixel(x, y) == Rgba::transparent(),
{
    let n = images.len() as int;
    lemma_painted_uncovered(images, layout, n, x, y);
    lemma_from_pixels(
        canvas_width(images, layout) as nat,
        canvas_height(images, layout) as nat,
        |a: int, b: int| painted(images, layout, n, a, b),
        x,
        y,
    );
}

/// A position that none of the first `n` images covers is transparent after
/// they have been drawn.
pub proof fn lemma_painted_uncovered(images: Seq<Raster>, layout: Layout, n: int, x: int, y: int)
    requires
        forall|j: int| 0 <= j < n ==> !covers(images, layout, j, x, y),
    ensures
        painted(images, layout, n, x, y) == Rgba::transparent(),
    decreases n,
{
    if n > 0 {
        lemma_painted_uncovered(images, layout, n - 1, x, y);
    }
}

/// Composing a single image gives that image back, whatever the layout:
/// the same dimensions and the same pixels.
pub proof fn lemma_compose_single(image: Raster, layout: Layout)
    requires
        image.wf(),
    ensures
        composite(seq![image], layout) == image,
{
    let images = seq![image];
    let out = composite(images, layout);
    assert(images[0] == image);
    assert(total_width(images, 0) == 0 && total_height(images, 0) == 0);
    assert(total_width(images, 1) == image.width);
    assert(total_height(images, 1) == image.height);
    assert(max_width(images, 0) == 0 && max_height(images, 0) == 0);
    assert(max_width(images, 1) == image.width);
    assert(max_height(images, 1) == image.height);
    assert(is_ceil_sqrt(1, 1));
    lemma_grid_columns(1, 1);
    assert(grid_rows(1) == 1);
    assert(0int % 1 == 0 && 0int / 1 == 0);
    assert(0 * max_width(images, 1) == 0 && 0 * max_height(images, 1) == 0 && 1 * max_width(
        images,
        1,
    ) == max_width(images, 1) && 1 * max_height(images, 1) == max_height(images, 1))
        by (nonlinear_arith);
    assert(origin(images, layout, 0) == (0int, 0int));
    assert(out.width == image.width && out.height == image.height);
    lemma_from_pixels(out.width, out.height, |a: int, b: int| painted(images, layout, 1, a, b), 0, 0);
    assert forall|x: int, y: int| out.contains(x, y) implies #[trigger] out.pixel(x, y)
        == image.pixel(x, y) by {
        lemma_composite_shows_image(images, layout, 0, x, y);
    }
    lemma_raster_ext_equal(out, image);
}

} // verus!
