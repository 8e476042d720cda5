//! Grayscale pixmaps, and the view that shows one centred in its rectangle.
use vstd::prelude::*;
use crate::geom::{Point, Rectangle, rect_of, rect_from, intersection_of};
use crate::layout::{half, half_of};
use crate::view::{Id, RenderData, RenderQueue, UpdateMode};

verus! {

pub const WHITE: u8 = 255;
pub const BLACK: u8 = 0;

/// A grayscale image, row by row.
pub struct Pixmap {
    pub width: u32,
    pub height: u32,
    pub data: Vec<u8>,
}

impl Pixmap {
    /// One byte per pixel.
    pub open spec fn wf(self) -> bool {
        self.data@.len() == self.width * self.height
    }

    /// The value of pixel `i` of `dst` once `src` is drawn with its top-left corner at `at`.
    pub open spec fn drawn(dst: Pixmap, src: Pixmap, at: Point, i: int) -> u8 {
        let x = i % (dst.width as int);
        let y = i / (dst.width as int);
        let sx = x - at.x;
        let sy = y - at.y;
        if 0 <= sx < src.width && 0 <= sy < src.height {
            src.data@[sy * src.width + sx]
        } else {
            dst.data@[i]
        }
    }

    /// A white pixmap of the given size.
    pub fn new(width: u32, height: u32) -> (r: Pixmap)
        requires
            width * height <= usize::MAX,
        ensures
            r.wf(),
            r.width == width,
            r.height == height,
            forall|i: int| 0 <= i < r.data@.len() ==> r.data@[i] == WHITE,
    {
        let len = width as usize * height as usize;
        let mut data: Vec<u8> = Vec::new();
        let mut i: usize = 0;
        while i < len
            invariant
                i <= len,
                data@.len() == i,
                forall|j: int| 0 <= j < i ==> data@[j] == WHITE,
            decreases len - i,
        {
            data.push(WHITE);
            i = i + 1;
        }
        Pixmap { width, height, data }
    }

    /// Sets every pixel to `color`.
    pub fn clear(&mut self, color: u8)
        ensures
            final(self).width == old(self).width,
            final(self).height == old(self).height,
            final(self).data@.len() == old(self).data@.len(),
            forall|i: int| 0 <= i < final(self).data@.len() ==> final(self).data@[i] == color,
    {
        let mut i: usize = 0;
        while i < self.data.len()
            invariant
                i <= self.data@.len(),
                self.width == old(self).width,
                self.height == old(self).height,
                self.data@.len() == old(self).data@.len(),
                forall|j: int| 0 <= j < i ==> self.data@[j] == color,
            decreases self.data@.len() - i,
        {
            self.data.set(i, color);
            i = i + 1;
        }
    }

    /// Copies `src` with its top-left corner at `at`; what falls outside is dropped.
    pub fn draw_pixmap(&mut self, src: &Pixmap, at: Point)
        requires
            old(self).wf(),
            src.wf(),
        ensures
            final(self).wf(),
            final(self).width == old(self).width,
            final(self).height == old(self).height,
            forall|i: int| 0 <= i < final(self).data@.len() ==> final(self).data@[i] == Pixmap::drawn(*old(self), *src, at, i),
    {
        let w = self.width as usize;
        let mut i: usize = 0;
        while i < self.data.len()
            invariant
                i <= self.data@.len(),
                w == self.width,
                self.width == old(self).width,
                self.height == old(self).height,
                self.data@.len() == old(self).data@.len(),
                old(self).wf(),
                src.wf(),
                forall|j: int| 0 <= j < i ==> self.data@[j] == Pixmap::drawn(*old(self), *src, at, j),
                forall|j: int| i <= j < self.data@.len() ==> self.data@[j] == old(self).data@[j],
            decreases self.data@.len() - i,
        {
            proof {
                let n = self.data@.len();
                let hh = self.height as int;
                assert(w > 0) by (nonlinear_arith)
                    requires
                        i < n,
                        n == w * hh,
                ;
                assert(i / w < hh) by (nonlinear_arith)
                    requires
                        i < n,
                        n == w * hh,
                        w > 0,
                ;
            }
            let x = (i % w) as i64;
            let y = (i / w) as i64;
            let sx = x - at.x as i64;
            let sy = y - at.y as i64;
            if 0 <= sx && sx < src.width as i64 && 0 <= sy && sy < src.height as i64 {
                let sw = src.width as usize;
                let sxu = sx as usize;
                let syu = sy as usize;
                let sn = src.data.len();
                proof {
                    assert(syu * sw + sxu < sn) by (nonlinear_arith)
                        requires
                            syu < src.height,
                            sxu < sw,
                            sw == src.width,
                            sn == src.width * src.height,
                    ;
                    assert(0 <= syu * sw) by (nonlinear_arith)
                        requires
                            0 <= syu,
                            0 <= sw,
                    ;
                }
                let v = src.data[syu * sw + sxu];
                self.data.set(i, v);
            }
            i = i + 1;
        }
    }
}

/// The part of the pixmap to draw (in its own coordinates), where, and with which blending colour.
#[derive(Clone, Copy, Debug, PartialEq, Eq, Structural)]
pub struct PixmapDraw {
    pub frame: Rectangle,
    pub at: Point,
    pub blend: Option<u8>,
}

/// What rendering a region of an image amounts to: white rectangles, then the pixmap.
pub struct RenderPlan {
    pub fills: Vec<Rectangle>,
    pub draw: Option<PixmapDraw>,
}

/// A view showing a pixmap centred in its rectangle.
pub struct Image {
    pub id: Id,
    pub rect: Rectangle,
    pub pixmap: Pixmap,
    pub blended: bool,
    pub blended_color: u8,
}

pub open spec fn overlap(a: Rectangle, b: Rectangle) -> Option<Rectangle> {
    if a.overlaps(b) {
        Some(intersection_of(a, b))
    } else {
        None
    }
}

pub open spec fn push_some(s: Seq<Rectangle>, o: Option<Rectangle>) -> Seq<Rectangle> {
    match o {
        Some(r) => s.push(r),
        None => s,
    }
}

/// Left edge of the pixmap in an image: centred where the image is wider.
pub open spec fn origin_x(img: Image) -> int {
    if img.rect.w() > img.pixmap.width {
        img.rect.min.x + half(img.rect.w() - img.pixmap.width)
    } else {
        half(img.rect.min.x as int)
    }
}

/// Top edge of the pixmap in an image: centred where the image is taller.
pub open spec fn origin_y(img: Image) -> int {
    if img.rect.h() > img.pixmap.height {
        img.rect.min.y + half(img.rect.h() - img.pixmap.height)
    } else {
        half(img.rect.min.y as int)
    }
}

/// White bands around the pixmap, clipped to `rect`, unless the image is blended.
pub open spec fn plan_fills(img: Image, rect: Rectangle) -> Seq<Rectangle> {
    let (x0, y0) = (origin_x(img), origin_y(img));
    let (x1, y1) = (x0 + img.pixmap.width, y0 + img.pixmap.height);
    let r = img.rect;
    if img.blended {
        seq![]
    } else {
        let s = push_some(seq![], overlap(rect_of(r.min.x as int, r.min.y as int, x1, y0), rect));
        let s = push_some(s, overlap(rect_of(r.min.x as int, y0, x0, r.max.y as int), rect));
        let s = push_some(s, overlap(rect_of(x0, y1, r.max.x as int, r.max.y as int), rect));
        push_some(s, overlap(rect_of(x1, r.min.y as int, r.max.x as int, y1), rect))
    }
}

/// The part of the pixmap that falls in `rect`, if any.
pub open spec fn plan_draw(img: Image, rect: Rectangle) -> Option<PixmapDraw> {
    let (x0, y0) = (origin_x(img), origin_y(img));
    let pix = rect_of(x0, y0, x0 + img.pixmap.width, y0 + img.pixmap.height);
    match overlap(pix, rect) {
        Some(r) => Some(PixmapDraw {
            frame: rect_of(r.min.x - x0, r.min.y - y0, r.max.x - x0, r.max.y - y0),
            at: r.min,
            blend: if img.blended { Some(img.blended_color) } else { None },
        }),
        None => None,
    }
}

fn push_overlap(fills: &mut Vec<Rectangle>, a: Rectangle, rect: &Rectangle)
    ensures
        final(fills)@ == push_some(old(fills)@, overlap(a, *rect)),
{
    if let Some(r) = a.intersection(rect) {
        fills.push(r);
    }
}

impl Image {
    pub fn new(id: Id, rect: Rectangle, pixmap: Pixmap) -> (r: Image)
        ensures
            r == (Image { id, rect, pixmap, blended: false, blended_color: BLACK }),
    {
        Image { id, rect, pixmap, blended: false, blended_color: BLACK }
    }

    /// Shows `pixmap` instead, and asks for the image to be redrawn.
    pub fn update(&mut self, pixmap: Pixmap, rq: &mut RenderQueue)
        ensures
            *final(self) == (Image { pixmap, ..*old(self) }),
            final(rq).view() == old(rq).view().push(RenderData { id: old(self).id, rect: old(self).rect, mode: UpdateMode::Gui }),
    {
        self.pixmap = pixmap;
        rq.add(RenderData::new(self.id, self.rect, UpdateMode::Gui));
    }

    /// Draws the pixmap blended with `color` (or plainly, when `blended` is false).
    pub fn set_blended(&mut self, blended: bool, color: u8)
        ensures
            *final(self) == (Image { blended, blended_color: color, ..*old(self) }),
    {
        self.blended = blended;
        self.blended_color = color;
    }

    pub fn pixmap(&self) -> (r: &Pixmap)
        ensures
            *r == self.pixmap,
    {
        &self.pixmap
    }

    /// What to paint to render the part of the image inside `rect`.
    pub fn render_plan(&self, rect: &Rectangle) -> (r: RenderPlan)
        ensures
            r.fills@ == plan_fills(*self, *rect),
            r.draw == plan_draw(*self, *rect),
    {
        let r = self.rect;
        let pw = self.pixmap.width as i64;
        let ph = self.pixmap.height as i64;
        let x0 = if r.width() > pw {
            r.min.x as i64 + half_of(r.width() - pw)
        } else {
            half_of(r.min.x as i64)
        };
        let y0 = if r.height() > ph {
            r.min.y as i64 + half_of(r.height() - ph)
        } else {
            half_of(r.min.y as i64)
        };
        let x1 = x0 + pw;
        let y1 = y0 + ph;
        let mut fills: Vec<Rectangle> = Vec::new();
        if !self.blended {
            push_overlap(&mut fills, rect_from(r.min.x as i64, r.min.y as i64, x1, y0), rect);
            push_overlap(&mut fills, rect_from(r.min.x as i64, y0, x0, r.max.y as i64), rect);
            push_overlap(&mut fills, rect_from(x0, y1, r.max.x as i64, r.max.y as i64), rect);
            push_overlap(&mut fills, rect_from(x1, r.min.y as i64, r.max.x as i64, y1), rect);
        }
        proof {
            if self.blended {
                assert(fills@ =~= seq![]);
            }
        }
        let draw = match rect_from(x0, y0, x1, y1).intersection(rect) {
            Some(v) => Some(PixmapDraw {
                frame: rect_from(
                    v.min.x as i64 - x0,
                    v.min.y as i64 - y0,
                    v.max.x as i64 - x0,
                    v.max.y as i64 - y0,
                ),
                at: v.min,
                blend: if self.blended { Some(self.blended_color) } else { None },
            }),
            None => None,
        };
        RenderPlan { fills, draw }
    }

    /// The part of the image inside `rect`, or the whole image where they do not overlap.
    pub fn render_rect(&self, rect: &Rectangle) -> (r: Rectangle)
        ensures
            r == (match overlap(*rect, self.rect) {
                Some(v) => v,
                None => self.rect,
            }),
    {
        match rect.intersection(&self.rect) {
            Some(v) => v,
            None => self.rect,
        }
    }

    pub fn width(&self) -> (r: u32)
        ensures
            r == self.pixmap.width,
    {
        self.pixmap.width
    }

    pub fn height(&self) -> (r: u32)
        ensures
            r == self.pixmap.height,
    {
        self.pixmap.height
    }

    pub fn dims(&self) -> (r: (u32, u32))
        ensures
            r == (self.pixmap.width, self.pixmap.height),
    {
        (self.pixmap.width, self.pixmap.height)
    }
}

} // verus!
