//! Pixel grids: the canvas a frame is drawn into, and decoded pictures.

use vstd::arithmetic::div_mod::lemma_fundamental_div_mod_converse;
use vstd::prelude::*;

verus! {

/// The four bytes of a packed ARGB pixel in buffer order, least significant first.
pub open spec fn pixel_bytes(p: u32) -> Seq<u8> {
    seq![p as u8, (p >> 8u32) as u8, (p >> 16u32) as u8, (p >> 24u32) as u8]
}

/// Position of pixel `(x, y)` in a row-major grid `w` pixels wide.
pub open spec fn offset(w: int, x: int, y: int) -> int {
    y * w + x
}

/// Column of the pixel stored at position `i` of a grid `w` pixels wide.
pub open spec fn column(w: int, i: int) -> int {
    i % w
}

/// Row of the pixel stored at position `i` of a grid `w` pixels wide.
pub open spec fn row(w: int, i: int) -> int {
    i / w
}

/// A position inside a `w` by `h` grid maps to a single pixel, and back.
pub proof fn lemma_offset(w: int, h: int, x: int, y: int)
    requires
        0 <= x < w,
        0 <= y < h,
    ensures
        0 <= offset(w, x, y) < w * h,
        column(w, offset(w, x, y)) == x,
        row(w, offset(w, x, y)) == y,
{
    assert(0 <= y * w) by (nonlinear_arith)
        requires
            0 <= y,
            0 < w,
    ;
    assert(y * w + x < w * h) by (nonlinear_arith)
        requires
            0 <= x < w,
            0 <= y < h,
    ;
    lemma_fundamental_div_mod_converse(y * w + x, w, y, x);
}

/// Every position of a `w` by `h` grid is the offset of its column and row.
pub proof fn lemma_position(w: int, h: int, i: int)
    requires
        0 < w,
        0 <= h,
        0 <= i < w * h,
    ensures
        0 <= column(w, i) < w,
        0 <= row(w, i) < h,
        offset(w, column(w, i), row(w, i)) == i,
{
    vstd::arithmetic::div_mod::lemma_fundamental_div_mod(i, w);
    vstd::arithmetic::div_mod::lemma_div_pos_is_pos(i, w);
    vstd::arithmetic::div_mod::lemma_mod_pos_bound(i, w);
    let q = i / w;
    let r = i % w;
    assert(q < h) by (nonlinear_arith)
        requires
            i == w * q + r,
            0 <= r,
            0 < w,
            i < w * h,
    ;
    assert(q * w == w * q) by (nonlinear_arith);
}

/// The number of pixels of any grid with `u32` sides fits in a `u64`.
pub proof fn lemma_product_fits(w: u32, h: u32)
    ensures
        w as int * h as int <= u64::MAX,
{
    assert(w as int * h as int <= 0xFFFF_FFFFint * 0xFFFF_FFFFint) by (nonlinear_arith)
        requires
            0 <= w <= 0xFFFF_FFFFint,
            0 <= h <= 0xFFFF_FFFFint,
    ;
}

/// A frame being drawn: `width * height` packed ARGB pixels in row-major order.
pub struct Canvas {
    pub width: u32,
    pub height: u32,
    pub pixels: Vec<u32>,
}

impl Canvas {
    /// The pixel region holds exactly one value per pixel, and its byte form fits in memory.
    pub open spec fn wf(&self) -> bool {
        &&& self.pixels@.len() == self.width as int * self.height as int
        &&& self.pixels@.len() * 4 <= usize::MAX
    }

    /// The pixel at column `x` and row `y`.
    pub open spec fn at(&self, x: int, y: int) -> u32 {
        self.pixels@[offset(self.width as int, x, y)]
    }

    /// The pixel region as the bytes submitted for display.
    pub open spec fn spec_bytes(&self) -> Seq<u8> {
        Seq::new(self.pixels@.len() * 4, |k: int| pixel_bytes(self.pixels@[k / 4])[k % 4])
    }

    /// A fully transparent canvas of the given size.
    pub fn new(width: u32, height: u32) -> (r: Canvas)
        requires
            width as int * height as int * 4 <= usize::MAX,
        ensures
            r.wf(),
            r.width == width,
            r.height == height,
            forall|i: int| 0 <= i < r.pixels@.len() ==> r.pixels@[i] == 0,
    {
        let n: usize = width as usize * height as usize;
        let mut pixels: Vec<u32> = Vec::with_capacity(n);
        let mut i: usize = 0;
        while i < n
            invariant
                i <= n,
                n == width as int * height as int,
                pixels@.len() == i,
                forall|j: int| 0 <= j < i ==> pixels@[j] == 0,
            decreases n - i,
        {
            pixels.push(0);
            i = i + 1;
        }
        Canvas { width, height, pixels }
    }

    /// A transparent canvas of the given size, or `None` when its bytes would not fit in memory.
    pub fn try_new(width: u32, height: u32) -> (r: Option<Canvas>)
        ensures
            r is Some <==> width as int * height as int * 4 <= usize::MAX,
            r matches Some(c) ==> {
                &&& c.wf()
                &&& c.width == width
                &&& c.height == height
                &&& forall|i: int| 0 <= i < c.pixels@.len() ==> c.pixels@[i] == 0
            },
    {
        proof {
            lemma_product_fits(width, height);
        }
        let n: u64 = width as u64 * height as u64;
        if n > (usize::MAX / 4) as u64 {
            None
        } else {
            Some(Canvas::new(width, height))
        }
    }

    /// The pixel region as bytes, each pixel least significant byte first.
    pub fn to_bytes(&self) -> (r: Vec<u8>)
        requires
            self.wf(),
        ensures
            r@ == self.spec_bytes(),
    {
        let n: usize = self.pixels.len();
        let mut out: Vec<u8> = Vec::with_capacity(n * 4);
        let mut i: usize = 0;
        while i < n
            invariant
                i <= n,
                n == self.pixels@.len(),
                n * 4 <= usize::MAX,
                out@.len() == 4 * i,
                forall|k: int| 0 <= k < 4 * i ==> out@[k] == pixel_bytes(self.pixels@[k / 4])[k % 4],
            decreases n - i,
        {
            let p: u32 = self.pixels[i];
            out.push(p as u8);
            out.push((p >> 8u32) as u8);
            out.push((p >> 16u32) as u8);
            out.push((p >> 24u32) as u8);
            assert forall|k: int| 0 <= k < 4 * (i + 1) implies out@[k] == pixel_bytes(
                self.pixels@[k / 4],
            )[k % 4] by {
                if k >= 4 * i {
                    assert(k / 4 == i as int);
                }
            }
            i = i + 1;
        }
        assert(out@ =~= self.spec_bytes());
        out
    }
}

/// The packed ARGB pixel of the color with channels `r`, `g`, `b` and alpha `a`.
pub open spec fn argb(r: u8, g: u8, b: u8, a: u8) -> u32 {
    (a as int * 0x100_0000 + r as int * 0x1_0000 + g as int * 0x100 + b as int) as u32
}

/// A decoded picture: `width * height` packed ARGB pixels in row-major order.
pub struct Image {
    pub width: u32,
    pub height: u32,
    pub pixels: Vec<u32>,
}

impl Image {
    /// The pixel region holds exactly one value per pixel.
    pub open spec fn wf(&self) -> bool {
        self.pixels@.len() == self.width as int * self.height as int
    }

    /// The pixel at column `x` and row `y`.
    pub open spec fn at(&self, x: int, y: int) -> u32 {
        self.pixels@[offset(self.width as int, x, y)]
    }

    /// A picture of the given size over `pixels`, or `None` when their number is not `width * height`.
    pub fn from_pixels(width: u32, height: u32, pixels: Vec<u32>) -> (r: Option<Image>)
        ensures
            r is Some <==> pixels@.len() == width as int * height as int,
            r matches Some(img) ==> img.wf() && img.width == width && img.height == height
                && img.pixels@ == pixels@,
    {
        proof {
            lemma_product_fits(width, height);
        }
        if pixels.len() as u64 == width as u64 * height as u64 {
            Some(Image { width, height, pixels })
        } else {
            None
        }
    }

    /// A picture of the given size over `bytes`, four per pixel in the order red,
    /// green, blue, alpha; `None` when their number is not `width * height * 4`.
    pub fn from_rgba(width: u32, height: u32, bytes: &Vec<u8>) -> (r: Option<Image>)
        ensures
            r is Some <==> bytes@.len() == width as int * height as int * 4,
            r matches Some(img) ==> {
                &&& img.wf()
                &&& img.width == width
                &&& img.height == height
                &&& forall|i: int|
                    0 <= i < img.pixels@.len() ==> #[trigger] img.pixels@[i] == argb(
                        bytes@[4 * i],
                        bytes@[4 * i + 1],
                        bytes@[4 * i + 2],
                        bytes@[4 * i + 3],
                    )
            },
    {
        proof {
            lemma_product_fits(width, height);
        }
        let n: u64 = width as u64 * height as u64;
        let len: usize = bytes.len();
        if n > (usize::MAX / 4) as u64 {
            assert(bytes@.len() < n * 4) by {
                assert(len <= usize::MAX);
                assert(usize::MAX < (usize::MAX / 4 + 1) * 4);
            }
            return None;
        }
        if bytes.len() != n as usize * 4 {
            return None;
        }
        let n: usize = n as usize;
        let mut pixels: Vec<u32> = Vec::with_capacity(n);
        let mut i: usize = 0;
        while i < n
            invariant
                i <= n,
                bytes@.len() == 4 * n,
                n * 4 <= usize::MAX,
                pixels@.len() == i,
                forall|j: int|
                    0 <= j < i ==> #[trigger] pixels@[j] == argb(
                        bytes@[4 * j],
                        bytes@[4 * j + 1],
                        bytes@[4 * j + 2],
                        bytes@[4 * j + 3],
                    ),
            decreases n - i,
        {
            let r: u32 = bytes[4 * i] as u32;
            let g: u32 = bytes[4 * i + 1] as u32;
            let b: u32 = bytes[4 * i + 2] as u32;
            let a: u32 = bytes[4 * i + 3] as u32;
            pixels.push(a * 0x100_0000 + r * 0x1_0000 + g * 0x100 + b);
            i = i + 1;
        }
        Some(Image { width, height, pixels })
    }
}

} // verus!
