//! A view whose children are placed by the layout engine.
use vstd::prelude::*;
use crate::geom::Rectangle;
use crate::layout::{compute_placements, compute_rects, rects_of, layout, layout_rects, Placement};
use crate::pack::Position;
use crate::view::Id;

verus! {

/// Children with their directives, inside a parent rectangle, and the placements last computed
/// for them (one per child, in order), with their rectangles.
pub struct PackedView<C> {
    id: Id,
    rect: Rectangle,
    children: Vec<C>,
    positions: Vec<Position>,
    placements: Vec<Placement>,
    rects: Vec<Rectangle>,
}

impl<C> PackedView<C> {
    pub closed spec fn id_view(self) -> Id {
        self.id
    }

    pub closed spec fn parent(self) -> Rectangle {
        self.rect
    }

    pub closed spec fn children_view(self) -> Seq<C> {
        self.children@
    }

    pub closed spec fn positions_view(self) -> Seq<Position> {
        self.positions@
    }

    pub closed spec fn rects_view(self) -> Seq<Rectangle> {
        self.rects@
    }

    pub closed spec fn placements_view(self) -> Seq<Placement> {
        self.placements@
    }

    /// One directive per child, and the placements and rectangles are those of the current
    /// directives.
    pub open spec fn wf(self) -> bool {
        &&& self.parent().wf()
        &&& self.children_view().len() == self.positions_view().len()
        &&& self.placements_view() == layout(self.parent(), self.positions_view())
        &&& self.rects_view() == layout_rects(self.parent(), self.positions_view())
    }

    /// Lays the children out again and stores the result.
    fn relayout(&mut self)
        requires
            old(self).parent().wf(),
            old(self).children_view().len() == old(self).positions_view().len(),
        ensures
            final(self).wf(),
            final(self).id_view() == old(self).id_view(),
            final(self).parent() == old(self).parent(),
            final(self).children_view() == old(self).children_view(),
            final(self).positions_view() == old(self).positions_view(),
    {
        self.placements = compute_placements(&self.rect, &self.positions);
        self.rects = rects_of(&self.placements);
        proof {
            assert(self.rects@ =~= layout_rects(self.rect, self.positions@));
        }
    }

    /// An empty view over `rect`.
    pub fn new(id: Id, rect: Rectangle) -> (r: Self)
        requires
            rect.wf(),
        ensures
            r.wf(),
            r.id_view() == id,
            r.parent() == rect,
            r.children_view() == Seq::<C>::empty(),
            r.positions_view() == Seq::<Position>::empty(),
    {
        let r = PackedView {
            id,
            rect,
            children: Vec::new(),
            positions: Vec::new(),
            placements: Vec::new(),
            rects: Vec::new(),
        };
        proof {
            assert(r.rects_view() =~= layout_rects(rect, r.positions_view()));
            assert(r.placements_view() =~= layout(rect, r.positions_view()));
        }
        r
    }

    /// Appends a child with its directive and lays every child out again.
    pub fn push(self, child: C, position: Position) -> (r: Self)
        requires
            self.wf(),
        ensures
            r.wf(),
            r.id_view() == self.id_view(),
            r.parent() == self.parent(),
            r.children_view() == self.children_view().push(child),
            r.positions_view() == self.positions_view().push(position),
    {
        let mut v = self;
        v.children.push(child);
        v.positions.push(position);
        v.relayout();
        v
    }

    /// Replaces the directive of child `index` and lays every child out again.
    pub fn update_position(&mut self, index: usize, position: Position)
        requires
            old(self).wf(),
            index < old(self).positions_view().len(),
        ensures
            final(self).wf(),
            final(self).id_view() == old(self).id_view(),
            final(self).parent() == old(self).parent(),
            final(self).children_view() == old(self).children_view(),
            final(self).positions_view() == old(self).positions_view().update(index as int, position),
    {
        self.positions.set(index, position);
        self.relayout();
    }

    /// Moves the view to `rect` and lays every child out again.
    pub fn resize(&mut self, rect: Rectangle)
        requires
            old(self).wf(),
            rect.wf(),
        ensures
            final(self).wf(),
            final(self).id_view() == old(self).id_view(),
            final(self).parent() == rect,
            final(self).children_view() == old(self).children_view(),
            final(self).positions_view() == old(self).positions_view(),
    {
        self.rect = rect;
        self.relayout();
    }

    /// Lays the children out afresh from the rectangle and the directives.
    pub fn compute_sizes(&self) -> (r: Vec<Rectangle>)
        requires
            self.parent().wf(),
        ensures
            r@ == layout_rects(self.parent(), self.positions_view()),
    {
        compute_rects(&self.rect, &self.positions)
    }

    pub fn id(&self) -> (r: Id)
        ensures
            r == self.id_view(),
    {
        self.id
    }

    pub fn rect(&self) -> (r: &Rectangle)
        ensures
            *r == self.parent(),
    {
        &self.rect
    }

    pub fn children(&self) -> (r: &Vec<C>)
        ensures
            r@ == self.children_view(),
    {
        &self.children
    }

    pub fn positions(&self) -> (r: &Vec<Position>)
        ensures
            r@ == self.positions_view(),
    {
        &self.positions
    }

    /// The placement of each child, in order: its rectangle, and whether its size was narrowed
    /// or no space was left for it.
    pub fn placements(&self) -> (r: &Vec<Placement>)
        requires
            self.wf(),
        ensures
            r@ == layout(self.parent(), self.positions_view()),
    {
        &self.placements
    }

    /// The rectangle of each child, in order.
    pub fn rects(&self) -> (r: &Vec<Rectangle>)
        ensures
            r@ == self.rects_view(),
    {
        &self.rects
    }

    /// The rectangle of child `index`.
    pub fn child_rect(&self, index: usize) -> (r: Rectangle)
        requires
            self.wf(),
            index < self.children_view().len(),
        ensures
            r == self.rects_view()[index as int],
    {
        self.rects[index]
    }
}

} // verus!
