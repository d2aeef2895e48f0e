//! Pixel buffers: a row-major grid of 8-bit RGBA pixels and its mathematical model.

use vstd::prelude::*;

verus! {

/// One pixel: red, green, blue and alpha, eight bits each.
#[derive(Clone, Copy, Debug, PartialEq, Eq, Structural)]
pub struct Rgba {
    pub r: u8,
    pub g: u8,
    pub b: u8,
    pub a: u8,
}

impl Rgba {
    /// Fully transparent black, the value of every canvas pixel that no image covers.
    pub open spec fn transparent() -> Rgba {
        Rgba { r: 0, g: 0, b: 0, a: 0 }
    }

    /// The channel with the given index in the order red, green, blue, alpha.
    pub open spec fn channel(self, c: int) -> u8 {
        if c == 0 {
            self.r
        } else if c == 1 {
            self.g
        } else if c == 2 {
            self.b
        } else {
            self.a
        }
    }
}

/// The mathematical model of a pixel buffer: its dimensions and its raw bytes,
/// four per pixel, rows from top to bottom, each row from left to right.
pub struct Raster {
    pub width: nat,
    pub height: nat,
    pub bytes: Seq<u8>,
}

impl Raster {
    /// A raster is well formed when it is at least one pixel wide and high and
    /// holds exactly four bytes for each pixel.
    pub open spec fn wf(self) -> bool {
        &&& self.width >= 1
        &&& self.height >= 1
        &&& self.bytes.len() == 4 * self.width * self.height
    }

    /// Whether `(x, y)` names a pixel of this raster.
    pub open spec fn contains(self, x: int, y: int) -> bool {
        0 <= x < self.width && 0 <= y < self.height
    }

    /// The index of the first byte of pixel `(x, y)`.
    pub open spec fn offset(self, x: int, y: int) -> int {
        4 * (y * self.width + x)
    }

    /// The pixel at column `x` of row `y`.
    pub open spec fn pixel(self, x: int, y: int) -> Rgba {
        let k = self.offset(x, y);
        Rgba { r: self.bytes[k], g: self.bytes[k + 1], b: self.bytes[k + 2], a: self.bytes[k + 3] }
    }

    /// The raster of the given size whose pixel at `(x, y)` is `f(x, y)`.
    pub open spec fn from_pixels(width: nat, height: nat, f: spec_fn(int, int) -> Rgba) -> Raster {
        Raster {
            width,
            height,
            bytes: Seq::new(
                4 * width * height,
                |k: int| f((k / 4) % (width as int), (k / 4) / (width as int)).channel(k % 4),
            ),
        }
    }

    /// This raster with `top` laid over it, the top-left corner of `top` at
    /// `(left, up)`. Pixels of `top` that fall outside this raster are dropped.
    pub open spec fn overlaid(self, top: Raster, left: int, up: int) -> Raster {
        Raster::from_pixels(
            self.width,
            self.height,
            |x: int, y: int|
                if top.contains(x - left, y - up) {
                    top.pixel(x - left, y - up)
                } else {
                    self.pixel(x, y)
                },
        )
    }

    /// The rectangle `(x, y, width, height)` clipped to this raster: its
    /// corner is moved onto the raster's edge if it lies beyond, and its
    /// extent is cut to what the raster has left from there.
    pub open spec fn clip(self, x: int, y: int, width: int, height: int) -> (int, int, int, int) {
        let x0 = if x < self.width { x } else { self.width as int };
        let y0 = if y < self.height { y } else { self.height as int };
        let w = if width < self.width - x0 { width } else { self.width - x0 };
        let h = if height < self.height - y0 { height } else { self.height - y0 };
        (x0, y0, w, h)
    }

    /// The cut-out of this raster inside the clipped rectangle.
    pub open spec fn cropped(self, x: int, y: int, width: int, height: int) -> Raster {
        let (x0, y0, w, h) = self.clip(x, y, width, height);
        Raster::from_pixels(w as nat, h as nat, |i: int, j: int| self.pixel(x0 + i, y0 + j))
    }

    /// This raster with pixel `(x, y)` replaced by `p`.
    pub open spec fn with_pixel(self, x: int, y: int, p: Rgba) -> Raster {
        let k = self.offset(x, y);
        Raster {
            width: self.width,
            height: self.height,
            bytes: self.bytes.update(k, p.r).update(k + 1, p.g).update(k + 2, p.b).update(k + 3, p.a),
        }
    }
}

/// Pixels of one row lie between the row's bounds, and rows do not overlap.
pub proof fn lemma_offset_bounds(width: int, height: int, x: int, y: int)
    requires
        0 <= x < width,
        0 <= y < height,
    ensures
        0 <= y * width,
        0 <= y * width + x < width * height,
        y * width + x < (y + 1) * width,
        y * width <= y * width + x,
        (y * width + x) / width == y,
        (y * width + x) % width == x,
{
    assert(0 <= y * width && (y + 1) * width <= height * width && (y + 1) * width == y * width
        + width && height * width == width * height) by (nonlinear_arith)
        requires
            0 <= y < height,
            0 < width,
    ;
    vstd::arithmetic::div_mod::lemma_fundamental_div_mod_converse(y * width + x, width, y, x);
}

/// Distinct pixels of a raster occupy distinct positions.
pub proof fn lemma_offset_injective(width: int, x1: int, y1: int, x2: int, y2: int)
    requires
        0 <= x1 < width,
        0 <= x2 < width,
        0 <= y1,
        0 <= y2,
        y1 * width + x1 == y2 * width + x2,
    ensures
        x1 == x2,
        y1 == y2,
{
    lemma_offset_bounds(width, y1 + 1, x1, y1);
    lemma_offset_bounds(width, y2 + 1, x2, y2);
}

/// Byte `k` of a raster belongs to the pixel at column `(k / 4) % width` of
/// row `(k / 4) / width`: that pixel lies inside the raster, and its first
/// byte is byte `k - k % 4`.
pub proof fn lemma_byte_position(width: int, height: int, k: int)
    requires
        1 <= width,
        1 <= height,
        0 <= k < 4 * width * height,
    ensures
        0 <= (k / 4) % width < width,
        0 <= (k / 4) / width < height,
        4 * (((k / 4) / width) * width + (k / 4) % width) == k - k % 4,
{
    let n = k / 4;
    let x = n % width;
    let y = n / width;
    assert(4 * width * height == 4 * (width * height)) by (nonlinear_arith);
    vstd::arithmetic::div_mod::lemma_fundamental_div_mod(n, width);
    vstd::arithmetic::div_mod::lemma_div_pos_is_pos(n, width);
    assert(width * y == y * width) by (nonlinear_arith);
    assert(y < height) by (nonlinear_arith)
        requires
            0 <= x,
            n == width * y + x,
            n < width * height,
            0 < width,
    ;
}

/// Every pixel of a well-formed raster lies inside its bytes.
pub proof fn lemma_pixel_in_bytes(r: Raster, x: int, y: int)
    requires
        r.wf(),
        r.contains(x, y),
    ensures
        0 <= r.offset(x, y),
        r.offset(x, y) + 4 <= r.bytes.len(),
{
    lemma_offset_bounds(r.width as int, r.height as int, x, y);
    assert(4 * r.width * r.height == 4 * (r.width * r.height)) by (nonlinear_arith);
}

/// Replacing one pixel changes that pixel and no other.
pub proof fn lemma_with_pixel(r: Raster, x: int, y: int, p: Rgba)
    requires
        r.wf(),
        r.contains(x, y),
    ensures
        r.with_pixel(x, y, p).wf(),
        r.with_pixel(x, y, p).pixel(x, y) == p,
        forall|i: int, j: int|
            r.contains(i, j) && !(i == x && j == y) ==> #[trigger] r.with_pixel(x, y, p).pixel(i, j)
                == r.pixel(i, j),
{
    lemma_pixel_in_bytes(r, x, y);
    let s = r.with_pixel(x, y, p);
    assert forall|i: int, j: int| r.contains(i, j) && !(i == x && j == y) implies #[trigger] s.pixel(
        i,
        j,
    ) == r.pixel(i, j) by {
        lemma_pixel_in_bytes(r, i, j);
        if j * r.width + i == y * r.width + x {
            lemma_offset_injective(r.width as int, i, j, x, y);
        }
    }
}

/// A well-formed raster is determined by its dimensions and its pixels.
pub proof fn lemma_raster_from_pixels(r: Raster)
    requires
        r.wf(),
    ensures
        r == Raster::from_pixels(r.width, r.height, |x: int, y: int| r.pixel(x, y)),
{
    let w = r.width as int;
    let h = r.height as int;
    let q = Raster::from_pixels(r.width, r.height, |x: int, y: int| r.pixel(x, y));
    assert(r.bytes.len() == q.bytes.len());
    assert forall|k: int| 0 <= k < r.bytes.len() implies r.bytes[k] == q.bytes[k] by {
        lemma_byte_position(w, h, k);
    }
    assert(r.bytes =~= q.bytes);
}

/// The pixels of a raster built from a function are the function's values.
pub proof fn lemma_from_pixels(width: nat, height: nat, f: spec_fn(int, int) -> Rgba, x: int, y: int)
    requires
        0 <= x < width,
        0 <= y < height,
    ensures
        Raster::from_pixels(width, height, f).wf(),
        Raster::from_pixels(width, height, f).pixel(x, y) == f(x, y),
{
    let q = Raster::from_pixels(width, height, f);
    lemma_offset_bounds(width as int, height as int, x, y);
    lemma_pixel_in_bytes(q, x, y);
    let n = y * width + x;
    assert((4 * n) / 4 == n && (4 * n + 1) / 4 == n && (4 * n + 2) / 4 == n && (4 * n + 3) / 4 == n);
}

/// Two well-formed rasters of the same size with the same pixels are equal.
pub proof fn lemma_raster_ext_equal(a: Raster, b: Raster)
    requires
        a.wf(),
        b.wf(),
        a.width == b.width,
        a.height == b.height,
        forall|x: int, y: int| a.contains(x, y) ==> #[trigger] a.pixel(x, y) == b.pixel(x, y),
    ensures
        a == b,
{
    lemma_raster_from_pixels(a);
    lemma_raster_from_pixels(b);
    let fa = |x: int, y: int| a.pixel(x, y);
    let fb = |x: int, y: int| b.pixel(x, y);
    let qa = Raster::from_pixels(a.width, a.height, fa);
    let qb = Raster::from_pixels(b.width, b.height, fb);
    let w = a.width as int;
    let h = a.height as int;
    assert forall|k: int| 0 <= k < qa.bytes.len() implies qa.bytes[k] == qb.bytes[k] by {
        lemma_byte_position(w, h, k);
        let (x, y) = ((k / 4) % w, (k / 4) / w);
        assert(a.contains(x, y));
        assert(a.pixel(x, y) == b.pixel(x, y));
    }
    assert(qa.bytes =~= qb.bytes);
}

/// An owned grid of RGBA pixels, never empty: at least one pixel wide and high.
#[derive(Debug, PartialEq, Eq)]
pub struct PixelBuffer {
    width: u32,
    height: u32,
    data: Vec<u8>,
}

impl View for PixelBuffer {
    type V = Raster;

    closed spec fn view(&self) -> Raster {
        Raster { width: self.width as nat, height: self.height as nat, bytes: self.data@ }
    }
}

/// The models of a sequence of buffers, in order.
pub open spec fn views(buffers: Seq<PixelBuffer>) -> Seq<Raster> {
    Seq::new(buffers.len(), |i: int| buffers[i]@)
}

/// Whether a buffer of the given size can be held: four bytes per pixel must
/// be countable in a `usize`.
pub open spec fn size_fits(width: int, height: int) -> bool {
    4 * width * height <= usize::MAX
}

/// Decides `size_fits` for two machine integers.
pub fn check_size_fits(width: u32, height: u32) -> (fits: bool)
    ensures
        fits == size_fits(width as int, height as int),
{
    assert(4 * width * height <= 0x4_0000_0000_0000_0000) by (nonlinear_arith);
    let bytes: u128 = 4 * (width as u128) * (height as u128);
    bytes <= usize::MAX as u128
}

impl PixelBuffer {
    /// Every buffer is a well-formed raster.
    #[verifier::type_invariant]
    pub open spec fn inv(self) -> bool {
        self@.wf()
    }

    /// A buffer of the given size, every pixel fully transparent black.
    pub fn new(width: u32, height: u32) -> (buffer: PixelBuffer)
        requires
            width >= 1,
            height >= 1,
            size_fits(width as int, height as int),
        ensures
            buffer@ == Raster::from_pixels(
                width as nat,
                height as nat,
                |x: int, y: int| Rgba::transparent(),
            ),
            buffer@.wf(),
    {
        assert(4 * width * height == 4 * (width * height) && width * height >= 0 && 4 * (
        width as nat) * (height as nat) == 4 * width * height) by (nonlinear_arith);
        let len: usize = (width as usize) * (height as usize) * 4;
        let data: Vec<u8> = vec![0u8; len];
        let buffer = PixelBuffer { width, height, data };
        proof {
            let blank = Raster::from_pixels(
                width as nat,
                height as nat,
                |x: int, y: int| Rgba::transparent(),
            );
            assert(buffer@.bytes =~= blank.bytes);
        }
        buffer
    }

    /// Wraps raw RGBA bytes. Succeeds exactly when the size is not empty and
    /// the bytes number four per pixel.
    pub fn from_raw(width: u32, height: u32, data: Vec<u8>) -> (buffer: Option<PixelBuffer>)
        ensures
            buffer is Some <==> (Raster {
                width: width as nat,
                height: height as nat,
                bytes: data@,
            }).wf(),
            buffer matches Some(b) ==> b@ == (Raster {
                width: width as nat,
                height: height as nat,
                bytes: data@,
            }),
    {
        assert(4 * width * height <= 0x4_0000_0000_0000_0000 && 4 * (width as nat) * (height as nat)
            == 4 * width * height) by (nonlinear_arith);
        let bytes: u128 = 4 * (width as u128) * (height as u128);
        if width >= 1 && height >= 1 && data.len() as u128 == bytes {
            Some(PixelBuffer { width, height, data })
        } else {
            None
        }
    }

    /// The number of columns.
    pub fn width(&self) -> (w: u32)
        ensures
            w == self@.width,
            self@.wf(),
    {
        proof {
            use_type_invariant(self);
        }
        self.width
    }

    /// The number of rows.
    pub fn height(&self) -> (h: u32)
        ensures
            h == self@.height,
            self@.wf(),
    {
        proof {
            use_type_invariant(self);
        }
        self.height
    }

    /// The raw bytes, four per pixel, row by row.
    pub fn as_raw(&self) -> (bytes: &Vec<u8>)
        ensures
            bytes@ == self@.bytes,
            self@.wf(),
    {
        proof {
            use_type_invariant(self);
        }
        &self.data
    }

    /// Gives up the buffer for its raw bytes.
    pub fn into_raw(self) -> (bytes: Vec<u8>)
        ensures
            bytes@ == self@.bytes,
            self@.wf(),
    {
        proof {
            use_type_invariant(&self);
        }
        self.data
    }

    /// Reads the pixel at column `x` of row `y`.
    pub fn get_pixel(&self, x: u32, y: u32) -> (p: Rgba)
        requires
            x < self@.width,
            y < self@.height,
        ensures
            p == self@.pixel(x as int, y as int),
    {
        proof {
            use_type_invariant(self);
            lemma_pixel_in_bytes(self@, x as int, y as int);
            lemma_offset_bounds(self.width as int, self.height as int, x as int, y as int);
            assert(self.data@.len() == self.data.len());
        }
        let k: usize = 4 * ((y as usize) * (self.width as usize) + (x as usize));
        Rgba { r: self.data[k], g: self.data[k + 1], b: self.data[k + 2], a: self.data[k + 3] }
    }

    /// Writes `p` at column `x` of row `y`.
    pub fn put_pixel(&mut self, x: u32, y: u32, p: Rgba)
        requires
            x < old(self)@.width,
            y < old(self)@.height,
        ensures
            final(self)@ == old(self)@.with_pixel(x as int, y as int, p),
            final(self)@.wf(),
    {
        proof {
            use_type_invariant(&*self);
            lemma_pixel_in_bytes(self@, x as int, y as int);
            lemma_offset_bounds(self.width as int, self.height as int, x as int, y as int);
            lemma_with_pixel(self@, x as int, y as int, p);
            assert(self.data@.len() == self.data.len());
        }
        let k: usize = 4 * ((y as usize) * (self.width as usize) + (x as usize));
        self.data[k] = p.r;
        self.data[k + 1] = p.g;
        self.data[k + 2] = p.b;
        self.data[k + 3] = p.a;
    }
}

impl PixelBuffer {
    /// Copies `source` onto this buffer with its top-left corner at
    /// `(left, top)`. A source pixel is written only if its target lies
    /// strictly inside this buffer; the others are dropped.
    pub fn blit(&mut self, source: &PixelBuffer, left: u32, top: u32)
        ensures
            final(self)@ == old(self)@.overlaid(source@, left as int, top as int),
            final(self)@.wf(),
    {
        proof {
            use_type_invariant(&*self);
            use_type_invariant(source);
        }
        let ghost before = self@;
        let canvas_width = self.width;
        let canvas_height = self.height;
        let source_width = source.width();
        let source_height = source.height();
        let mut y: u32 = 0;
        while y < source_height
            invariant
                y <= source_height,
                source_width == source@.width,
                source_height == source@.height,
                source@.wf(),
                before.wf(),
                self@.wf(),
                self@.width == before.width == canvas_width,
                self@.height == before.height == canvas_height,
                forall|i: int, j: int|
                    before.contains(i, j) ==> #[trigger] self@.pixel(i, j) == (if source@.contains(
                        i - left,
                        j - top,
                    ) && j - top < y {
                        source@.pixel(i - left, j - top)
                    } else {
                        before.pixel(i, j)
                    }),
            decreases source_height - y,
        {
            let mut x: u32 = 0;
            while x < source_width
                invariant
                    x <= source_width,
                    y < source_height,
                    source_width == source@.width,
                    source_height == source@.height,
                    source@.wf(),
                    before.wf(),
                    self@.wf(),
                    self@.width == before.width == canvas_width,
                    self@.height == before.height == canvas_height,
                    forall|i: int, j: int|
                        before.contains(i, j) ==> #[trigger] self@.pixel(i, j) == (if source@.contains(
                            i - left,
                            j - top,
                        ) && (j - top < y || (j - top == y && i - left < x)) {
                            source@.pixel(i - left, j - top)
                        } else {
                            before.pixel(i, j)
                        }),
                decreases source_width - x,
            {
                let target_x: u64 = left as u64 + x as u64;
                let target_y: u64 = top as u64 + y as u64;
                if target_x < canvas_width as u64 && target_y < canvas_height as u64 {
                    let p = source.get_pixel(x, y);
                    proof {
                        lemma_with_pixel(self@, target_x as int, target_y as int, p);
                    }
                    self.put_pixel(target_x as u32, target_y as u32, p);
                }
                x = x + 1;
            }
            y = y + 1;
        }
        proof {
            let after = before.overlaid(source@, left as int, top as int);
            assert forall|i: int, j: int| self@.contains(i, j) implies #[trigger] self@.pixel(i, j)
                == after.pixel(i, j) by {
                lemma_from_pixels(
                    before.width,
                    before.height,
                    |x: int, y: int|
                        if source@.contains(x - left, y - top) {
                            source@.pixel(x - left, y - top)
                        } else {
                            before.pixel(x, y)
                        },
                    i,
                    j,
                );
            }
            lemma_from_pixels(
                before.width,
                before.height,
                |x: int, y: int|
                    if source@.contains(x - left, y - top) {
                        source@.pixel(x - left, y - top)
                    } else {
                        before.pixel(x, y)
                    },
                0,
                0,
            );
            lemma_raster_ext_equal(self@, after);
        }
    }

    /// The cut-out of this buffer inside the rectangle `(x, y, width, height)`,
    /// clipped to the buffer. Gives `None` exactly when clipping leaves no pixel.
    pub fn crop(&self, x: u32, y: u32, width: u32, height: u32) -> (cut: Option<PixelBuffer>)
        ensures
            cut is Some <==> self@.clip(x as int, y as int, width as int, height as int).2 >= 1
                && self@.clip(x as int, y as int, width as int, height as int).3 >= 1,
            cut matches Some(c) ==> c@ == self@.cropped(
                x as int,
                y as int,
                width as int,
                height as int,
            ) && c@.wf(),
    {
        proof {
            use_type_invariant(self);
        }
        let x0: u32 = if x < self.width { x } else { self.width };
        let y0: u32 = if y < self.height { y } else { self.height };
        let w: u32 = if width < self.width - x0 { width } else { self.width - x0 };
        let h: u32 = if height < self.height - y0 { height } else { self.height - y0 };
        if w < 1 || h < 1 {
            return None;
        }
        proof {
            assert(self.data@.len() == self.data.len());
            assert(4 * w * h <= 4 * self.width * self.height) by (nonlinear_arith)
                requires
                    0 <= w <= self.width,
                    0 <= h <= self.height,
            ;
        }
        let mut cut = PixelBuffer::new(w, h);
        let ghost source = self@;
        let mut j: u32 = 0;
        while j < h
            invariant
                j <= h,
                source == self@,
                source.wf(),
                x0 + w <= source.width,
                y0 + h <= source.height,
                cut@.wf(),
                cut@.width == w,
                cut@.height == h,
                forall|a: int, b: int|
                    0 <= a < w && 0 <= b < j ==> #[trigger] cut@.pixel(a, b) == source.pixel(
                        x0 + a,
                        y0 + b,
                    ),
            decreases h - j,
        {
            let mut i: u32 = 0;
            while i < w
                invariant
                    i <= w,
                    j < h,
                    source == self@,
                    source.wf(),
                    x0 + w <= source.width,
                    y0 + h <= source.height,
                    cut@.wf(),
                    cut@.width == w,
                    cut@.height == h,
                    forall|a: int, b: int|
                        0 <= a < w && (0 <= b < j || (b == j && a < i)) ==> #[trigger] cut@.pixel(a, b)
                            == source.pixel(x0 + a, y0 + b),
                decreases w - i,
            {
                let p = self.get_pixel(x0 + i, y0 + j);
                proof {
                    lemma_with_pixel(cut@, i as int, j as int, p);
                }
                cut.put_pixel(i, j, p);
                i = i + 1;
            }
            j = j + 1;
        }
        proof {
            let wanted = source.cropped(x as int, y as int, width as int, height as int);
            assert forall|a: int, b: int| cut@.contains(a, b) implies #[trigger] cut@.pixel(a, b)
                == wanted.pixel(a, b) by {
                lemma_from_pixels(
                    w as nat,
                    h as nat,
                    |i: int, j: int| source.pixel(x0 + i, y0 + j),
                    a,
                    b,
                );
            }
            lemma_from_pixels(w as nat, h as nat, |i: int, j: int| source.pixel(x0 + i, y0 + j), 0, 0);
            lemma_raster_ext_equal(cut@, wanted);
        }
        Some(cut)
    }
}

impl Clone for PixelBuffer {
    /// A copy with the same size and the same bytes.
    fn clone(&self) -> (copy: PixelBuffer)
        ensures
            copy@ == self@,
    {
        proof {
            use_type_invariant(self);
        }
        let data = self.data.clone();
        assert(data@ =~= self.data@);
        PixelBuffer { width: self.width, height: self.height, data }
    }
}

} // verus!
