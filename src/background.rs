//! A full-screen image kept behind a drawing.
use vstd::prelude::*;
use crate::geom::{Point, Rectangle};
use crate::image::{Image, Pixmap, RenderPlan, WHITE, plan_fills, plan_draw};
use crate::view::{Id, RenderData, RenderQueue, UpdateMode};

verus! {

/// Pixel `i` of a white page of the given width once `src` is drawn on it at `at`.
pub open spec fn page_pixel(width: int, src: Pixmap, at: Point, i: int) -> u8 {
    let x = i % width;
    let y = i / width;
    let sx = x - at.x;
    let sy = y - at.y;
    if 0 <= sx < src.width && 0 <= sy < src.height {
        src.data@[sy * src.width + sx]
    } else {
        WHITE
    }
}

pub struct Background {
    pub rect: Rectangle,
    pub image: Image,
    pub drawing: bool,
}

impl Background {
    /// A white background over `rect`.
    pub fn new(id: Id, rect: Rectangle) -> (r: Background)
        requires
            rect.wf(),
            rect.w() * rect.h() <= usize::MAX,
        ensures
            r.rect == rect,
            r.image.id == id,
            r.image.rect == rect,
            !r.image.blended,
            r.image.pixmap.wf(),
            r.image.pixmap.width == rect.w(),
            r.image.pixmap.height == rect.h(),
            forall|i: int| 0 <= i < r.image.pixmap.data@.len() ==> r.image.pixmap.data@[i] == WHITE,
            !r.drawing,
    {
        let mut pixmap = Pixmap::new(rect.width() as u32, rect.height() as u32);
        pixmap.clear(WHITE);
        Background { rect, image: Image::new(id, rect, pixmap), drawing: false }
    }

    /// Shows `loaded`, drawn on a white page at the background's top-left corner, and asks for
    /// a redraw; without a pixmap nothing changes.
    pub fn load(&mut self, loaded: Option<Pixmap>, rq: &mut RenderQueue)
        requires
            old(self).rect.wf(),
            old(self).rect.w() * old(self).rect.h() <= usize::MAX,
            loaded matches Some(p) ==> p.wf(),
        ensures
            loaded is None ==> *final(self) == *old(self) && final(rq).view() == old(rq).view(),
            loaded matches Some(src) ==> {
                let pix = final(self).image.pixmap;
                &&& final(self).rect == old(self).rect
                &&& final(self).drawing == old(self).drawing
                &&& final(self).image.id == old(self).image.id
                &&& final(self).image.rect == old(self).image.rect
                &&& final(self).image.blended == old(self).image.blended
                &&& final(self).image.blended_color == old(self).image.blended_color
                &&& pix.wf()
                &&& pix.width == old(self).rect.w()
                &&& pix.height == old(self).rect.h()
                &&& forall|i: int| 0 <= i < pix.data@.len() ==> pix.data@[i] == page_pixel(pix.width as int, src, old(self).rect.min, i)
                &&& final(rq).view() == old(rq).view().push(
                    RenderData { id: old(self).image.id, rect: old(self).image.rect, mode: UpdateMode::Gui })
            },
    {
        if let Some(src) = loaded {
            let mut pixmap = Pixmap::new(self.rect.width() as u32, self.rect.height() as u32);
            pixmap.clear(WHITE);
            let ghost page = pixmap;
            pixmap.draw_pixmap(&src, self.rect.min);
            proof {
                assert forall|i: int| 0 <= i < pixmap.data@.len() implies pixmap.data@[i] == page_pixel(pixmap.width as int, src, self.rect.min, i) by {
                    assert(pixmap.data@[i] == Pixmap::drawn(page, src, self.rect.min, i));
                }
            }
            self.image.update(pixmap, rq);
        }
    }

    pub fn set_drawing(&mut self, drawing: bool)
        ensures
            *final(self) == (Background { drawing, ..*old(self) }),
    {
        self.drawing = drawing;
    }

    /// What to paint for the part inside `rect`: the image, unless a drawing is in progress.
    pub fn render_plan(&self, rect: &Rectangle) -> (r: RenderPlan)
        ensures
            r.fills@ == (if self.drawing { seq![] } else { plan_fills(self.image, *rect) }),
            r.draw == (if self.drawing { None } else { plan_draw(self.image, *rect) }),
    {
        if self.drawing {
            RenderPlan { fills: Vec::new(), draw: None }
        } else {
            self.image.render_plan(rect)
        }
    }

    pub fn rect(&self) -> (r: &Rectangle)
        ensures
            *r == self.image.rect,
    {
        &self.image.rect
    }

    pub fn id(&self) -> (r: Id)
        ensures
            r == self.image.id,
    {
        self.image.id
    }
}

} // verus!
