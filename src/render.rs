//! The pixel operations a frame is made of: solid fill, a picture placed at
//! the origin, a picture repeated over the whole canvas, and a border band.

use crate::canvas::{column, lemma_offset, lemma_position, offset, row, Canvas, Image};
use vstd::prelude::*;

verus! {

/// `n` pixels, all of color `c`.
pub open spec fn solid(n: nat, c: u32) -> Seq<u32> {
    Seq::new(n, |i: int| c)
}

/// `n` pixels of a grid `w` wide, each the pixel of `src` at its column and row wrapped around `src`'s size.
pub open spec fn tiled(w: int, n: nat, src: Image) -> Seq<u32> {
    Seq::new(n, |i: int| src.at(column(w, i) % (src.width as int), row(w, i) % (src.height as int)))
}

/// `dst`, a grid `w` wide, with `src` drawn over it at the origin and clipped to it.
pub open spec fn placed(w: int, dst: Seq<u32>, src: Image) -> Seq<u32> {
    Seq::new(
        dst.len(),
        |i: int|
            if column(w, i) < src.width && row(w, i) < src.height {
                src.at(column(w, i), row(w, i))
            } else {
                dst[i]
            },
    )
}

/// Pixel `(x, y)` of a `w` by `h` grid lies within `g` pixels of one of its edges.
pub open spec fn in_band(w: int, h: int, g: int, x: int, y: int) -> bool {
    x < g || x >= w - g || y < g || y >= h - g
}

/// `dst`, a `w` by `h` grid, with every pixel within `g` of an edge set to `k`.
pub open spec fn bordered(w: int, h: int, dst: Seq<u32>, g: int, k: u32) -> Seq<u32> {
    Seq::new(dst.len(), |i: int| if in_band(w, h, g, column(w, i), row(w, i)) { k } else { dst[i] })
}

/// Writes `color` to every pixel of the canvas.
pub fn fill_color(buf: &mut Canvas, color: u32)
    requires
        old(buf).wf(),
    ensures
        final(buf).wf(),
        final(buf).width == old(buf).width,
        final(buf).height == old(buf).height,
        final(buf).pixels@ == solid(old(buf).pixels@.len(), color),
{
    let n: usize = buf.pixels.len();
    let mut i: usize = 0;
    while i < n
        invariant
            i <= n,
            buf.width == old(buf).width,
            buf.height == old(buf).height,
            buf.pixels@.len() == n,
            n == old(buf).pixels@.len(),
            forall|j: int| 0 <= j < i ==> buf.pixels@[j] == color,
        decreases n - i,
    {
        buf.pixels.set(i, color);
        i = i + 1;
    }
    assert(buf.pixels@ =~= solid(n as nat, color));
}

/// Repeats `img` over the whole canvas from the origin, clipping the last row and column of tiles.
pub fn tile(buf: &mut Canvas, img: &Image)
    requires
        old(buf).wf(),
        img.wf(),
        img.width > 0,
        img.height > 0,
    ensures
        final(buf).wf(),
        final(buf).width == old(buf).width,
        final(buf).height == old(buf).height,
        final(buf).pixels@ == tiled(old(buf).width as int, old(buf).pixels@.len(), *img),
        forall|x: int, y: int|
            0 <= x < old(buf).width && 0 <= y < old(buf).height ==> #[trigger] final(buf).at(x, y)
                == img.at(x % (img.width as int), y % (img.height as int)),
{
    let ghost target = tiled(buf.width as int, buf.pixels@.len(), *img);
    let n: usize = buf.pixels.len();
    let w: usize = buf.width as usize;
    let iw: usize = img.width as usize;
    let ih: usize = img.height as usize;
    let il: usize = img.pixels.len();
    let mut i: usize = 0;
    while i < n
        invariant
            i <= n,
            buf.width == old(buf).width,
            buf.height == old(buf).height,
            buf.pixels@.len() == n,
            n == old(buf).pixels@.len(),
            n == w as int * buf.height as int,
            w == buf.width,
            iw == img.width,
            ih == img.height,
            il == img.pixels@.len(),
            img.wf(),
            iw > 0,
            ih > 0,
            target == tiled(w as int, n as nat, *img),
            forall|j: int| 0 <= j < i ==> buf.pixels@[j] == target[j],
        decreases n - i,
    {
        proof {
            lemma_position(w as int, buf.height as int, i as int);
        }
        let x: usize = i % w;
        let y: usize = i / w;
        let sx: usize = x % iw;
        let sy: usize = y % ih;
        proof {
            lemma_offset(iw as int, ih as int, sx as int, sy as int);
        }
        let p: u32 = img.pixels[sy * iw + sx];
        buf.pixels.set(i, p);
        i = i + 1;
    }
    assert(buf.pixels@ =~= target);
    assert forall|x: int, y: int| 0 <= x < old(buf).width && 0 <= y < old(buf).height implies #[trigger] buf.at(
        x,
        y,
    ) == img.at(x % (img.width as int), y % (img.height as int)) by {
        lemma_offset(w as int, buf.height as int, x, y);
    }
}

/// Draws `img` over the canvas with its top left corner at the origin, clipped to the canvas.
pub fn place(buf: &mut Canvas, img: &Image)
    requires
        old(buf).wf(),
        img.wf(),
    ensures
        final(buf).wf(),
        final(buf).width == old(buf).width,
        final(buf).height == old(buf).height,
        final(buf).pixels@ == placed(old(buf).width as int, old(buf).pixels@, *img),
{
    let ghost target = placed(buf.width as int, buf.pixels@, *img);
    let n: usize = buf.pixels.len();
    let w: usize = buf.width as usize;
    let iw: usize = img.width as usize;
    let ih: usize = img.height as usize;
    let il: usize = img.pixels.len();
    let mut i: usize = 0;
    while i < n
        invariant
            i <= n,
            buf.width == old(buf).width,
            buf.height == old(buf).height,
            buf.pixels@.len() == n,
            n == old(buf).pixels@.len(),
            n == w as int * buf.height as int,
            w == buf.width,
            iw == img.width,
            ih == img.height,
            il == img.pixels@.len(),
            img.wf(),
            target == placed(w as int, old(buf).pixels@, *img),
            forall|j: int| 0 <= j < i ==> buf.pixels@[j] == target[j],
            forall|j: int| i <= j < n ==> buf.pixels@[j] == old(buf).pixels@[j],
        decreases n - i,
    {
        proof {
            lemma_position(w as int, buf.height as int, i as int);
        }
        let x: usize = i % w;
        let y: usize = i / w;
        if x < iw && y < ih {
            proof {
                lemma_offset(iw as int, ih as int, x as int, y as int);
            }
            let p: u32 = img.pixels[y * iw + x];
            buf.pixels.set(i, p);
        }
        i = i + 1;
    }
    assert(buf.pixels@ =~= target);
}

/// Sets every pixel within `gap` of an edge of the canvas to `color`, leaving the others as they were.
pub fn apply_border(buf: &mut Canvas, gap: u32, color: u32)
    requires
        old(buf).wf(),
    ensures
        final(buf).wf(),
        final(buf).width == old(buf).width,
        final(buf).height == old(buf).height,
        final(buf).pixels@ == bordered(
            old(buf).width as int,
            old(buf).height as int,
            old(buf).pixels@,
            gap as int,
            color,
        ),
        forall|x: int, y: int|
            0 <= x < old(buf).width && 0 <= y < old(buf).height ==> #[trigger] final(buf).at(x, y)
                == if in_band(old(buf).width as int, old(buf).height as int, gap as int, x, y) {
                color
            } else {
                old(buf).at(x, y)
            },
{
    let ghost target = bordered(buf.width as int, buf.height as int, buf.pixels@, gap as int, color);
    let n: usize = buf.pixels.len();
    let w: usize = buf.width as usize;
    let h: u64 = buf.height as u64;
    let g: u64 = gap as u64;
    let mut i: usize = 0;
    while i < n
        invariant
            i <= n,
            buf.width == old(buf).width,
            buf.height == old(buf).height,
            buf.pixels@.len() == n,
            n == old(buf).pixels@.len(),
            n == w as int * buf.height as int,
            w == buf.width,
            h == buf.height,
            g == gap,
            target == bordered(w as int, h as int, old(buf).pixels@, g as int, color),
            forall|j: int| 0 <= j < i ==> buf.pixels@[j] == target[j],
            forall|j: int| i <= j < n ==> buf.pixels@[j] == old(buf).pixels@[j],
        decreases n - i,
    {
        proof {
            lemma_position(w as int, h as int, i as int);
        }
        let x: u64 = (i % w) as u64;
        let y: u64 = (i / w) as u64;
        if x < g || x + g >= w as u64 || y < g || y + g >= h {
            buf.pixels.set(i, color);
        }
        i = i + 1;
    }
    assert(buf.pixels@ =~= target);
    assert forall|x: int, y: int| 0 <= x < old(buf).width && 0 <= y < old(buf).height implies #[trigger] buf.at(
        x,
        y,
    ) == if in_band(old(buf).width as int, old(buf).height as int, gap as int, x, y) {
        color
    } else {
        old(buf).at(x, y)
    } by {
        lemma_offset(w as int, h as int, x, y);
    }
}

} // verus!
