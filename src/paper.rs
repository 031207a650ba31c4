//! What to draw: the style of the background, an optional border, and the
//! output it is meant for; and the drawing of one frame from them.

use crate::canvas::{pixel_bytes, Canvas, Image};
use crate::render::{apply_border, bordered, fill_color, place, placed, solid, tile, tiled};
use vstd::prelude::*;

verus! {

/// How the background is filled.
pub enum Style {
    /// Every pixel set to one packed ARGB color.
    Color(u32),
    /// The picture at this path, repeated at its own size.
    Tiled(String),
    /// The picture at this path, stretched to the output.
    Image(String),
    /// A picture picked at random under this directory, stretched to the output.
    Directory(String),
    /// No background: the frame stays transparent.
    Blank,
}

/// The configuration shared by every output.
pub struct Paper {
    pub style: Style,
    /// Border thickness in pixels, and its packed ARGB color.
    pub border: Option<(u32, u32)>,
    /// Only outputs whose name holds this text are drawn on.
    pub output: Option<String>,
}

impl Paper {
    /// A background style has been chosen.
    pub fn is_some(&self) -> (r: bool)
        ensures
            r == !(self.style is Blank),
    {
        match self.style {
            Style::Blank => false,
            _ => true,
        }
    }

    /// No style, no border, every output.
    pub fn default() -> (r: Self)
        ensures
            r.style is Blank,
            r.border is None,
            r.output is None,
    {
        Paper { style: Style::Blank, border: None, output: None }
    }

    /// Replaces the style; the border and output stay.
    pub fn style(&mut self, style: Style)
        ensures
            final(self).style == style,
            final(self).border == old(self).border,
            final(self).output == old(self).output,
    {
        self.style = style
    }

    /// Sets the border, replacing any earlier one; the style and output stay.
    pub fn border(&mut self, gap: u32, color: u32)
        ensures
            final(self).border == Some((gap, color)),
            final(self).style == old(self).style,
            final(self).output == old(self).output,
    {
        self.border = Some((gap, color));
    }
}

/// The pixels of a `w` by `h` frame after the style's fill over `px`, with `picture` the decoded picture.
pub open spec fn filled(style: Style, w: int, px: Seq<u32>, picture: Option<Image>) -> Seq<u32> {
    match style {
        Style::Color(c) => solid(px.len(), c),
        Style::Tiled(_) => match picture {
            Some(img) => if img.width > 0 && img.height > 0 {
                tiled(w, px.len(), img)
            } else {
                px
            },
            None => px,
        },
        Style::Image(_) | Style::Directory(_) => match picture {
            Some(img) => placed(w, px, img),
            None => px,
        },
        Style::Blank => px,
    }
}

/// The pixels of a `w` by `h` frame drawn over `px`: the style's fill, then the border on top.
pub open spec fn drawn(paper: Paper, w: int, h: int, px: Seq<u32>, picture: Option<Image>) -> Seq<u32> {
    let base = filled(paper.style, w, px, picture);
    match paper.border {
        Some((gap, color)) => bordered(w, h, base, gap as int, color),
        None => base,
    }
}

/// Draws one frame: fills the canvas as the style says, then draws the border over it.
///
/// `picture` is the decoded picture of a picture style (already stretched to the
/// canvas for `Image` and `Directory`); where it is missing, because decoding or the
/// directory walk failed, the style leaves the canvas as it was. An empty picture
/// cannot be tiled and leaves it as it was too.
pub fn draw(buf: &mut Canvas, paper: &Paper, picture: &Option<Image>)
    requires
        old(buf).wf(),
        picture matches Some(img) ==> img.wf(),
    ensures
        final(buf).wf(),
        final(buf).width == old(buf).width,
        final(buf).height == old(buf).height,
        final(buf).pixels@ == drawn(
            *paper,
            old(buf).width as int,
            old(buf).height as int,
            old(buf).pixels@,
            *picture,
        ),
{
    match &paper.style {
        Style::Color(color) => fill_color(buf, *color),
        Style::Tiled(_) => {
            if let Some(img) = picture {
                if img.width > 0 && img.height > 0 {
                    tile(buf, img);
                }
            }
        },
        Style::Image(_) | Style::Directory(_) => {
            if let Some(img) = picture {
                place(buf, img);
            }
        },
        Style::Blank => {},
    }
    if let Some((gap, color)) = paper.border {
        apply_border(buf, gap, color);
    }
}

/// A solid color frame without a border is `width * height * 4` bytes, every four of
/// them the bytes of the color.
pub proof fn lemma_solid_color_bytes(
    paper: Paper,
    before: Canvas,
    after: Canvas,
    picture: Option<Image>,
    c: u32,
)
    requires
        paper.style == Style::Color(c),
        paper.border is None,
        before.wf(),
        after.width == before.width,
        after.height == before.height,
        after.pixels@ == drawn(
            paper,
            before.width as int,
            before.height as int,
            before.pixels@,
            picture,
        ),
    ensures
        after.spec_bytes().len() == after.width as int * after.height as int * 4,
        forall|i: int|
            0 <= i < after.width as int * after.height as int ==> #[trigger] after.spec_bytes().subrange(
                4 * i,
                4 * i + 4,
            ) == pixel_bytes(c),
{
    let n = after.pixels@.len();
    assert forall|i: int| 0 <= i < after.width as int * after.height as int implies #[trigger] after.spec_bytes().subrange(
        4 * i,
        4 * i + 4,
    ) == pixel_bytes(c) by {
        let b = after.spec_bytes();
        assert forall|k: int| 0 <= k < 4 implies b.subrange(4 * i, 4 * i + 4)[k] == pixel_bytes(c)[k] by {
            assert((4 * i + k) / 4 == i);
            assert((4 * i + k) % 4 == k);
        }
        assert(b.subrange(4 * i, 4 * i + 4) =~= pixel_bytes(c));
    }
}

} // verus!
