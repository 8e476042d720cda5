//! View identifiers and the queue of regions waiting to be redrawn.
use vstd::prelude::*;
use crate::geom::Rectangle;

verus! {

/// Identifier of a view.
pub type Id = u64;

/// Hands out view identifiers in increasing order.
pub struct IdFeeder {
    next: u64,
}

impl IdFeeder {
    pub closed spec fn peek(self) -> u64 {
        self.next
    }

    pub fn new() -> (r: IdFeeder)
        ensures
            r.peek() == 1,
    {
        IdFeeder { next: 1 }
    }

    /// The next identifier; identifiers are never handed out twice.
    pub fn next(&mut self) -> (r: Id)
        requires
            old(self).peek() < u64::MAX,
        ensures
            r == old(self).peek(),
            final(self).peek() == old(self).peek() + 1,
    {
        let r = self.next;
        self.next = self.next + 1;
        r
    }
}

/// How the screen should refresh a region.
#[derive(Clone, Copy, Debug, PartialEq, Eq, Structural)]
pub enum UpdateMode {
    Gui,
    Partial,
    Full,
    Fast,
    FastMono,
}

/// A region of a view to redraw.
#[derive(Clone, Copy, Debug, PartialEq, Eq, Structural)]
pub struct RenderData {
    pub id: Id,
    pub rect: Rectangle,
    pub mode: UpdateMode,
}

impl RenderData {
    pub fn new(id: Id, rect: Rectangle, mode: UpdateMode) -> (r: RenderData)
        ensures
            r == (RenderData { id, rect, mode }),
    {
        RenderData { id, rect, mode }
    }
}

/// Regions waiting to be redrawn, oldest first.
pub struct RenderQueue {
    items: Vec<RenderData>,
}

impl RenderQueue {
    pub closed spec fn view(self) -> Seq<RenderData> {
        self.items@
    }

    pub fn new() -> (r: RenderQueue)
        ensures
            r.view() == Seq::<RenderData>::empty(),
    {
        RenderQueue { items: Vec::new() }
    }

    pub fn add(&mut self, data: RenderData)
        ensures
            final(self).view() == old(self).view().push(data),
    {
        self.items.push(data);
    }

    pub fn len(&self) -> (r: usize)
        ensures
            r == self.view().len(),
    {
        self.items.len()
    }

    /// The request at `index`, oldest first.
    pub fn get(&self, index: usize) -> (r: RenderData)
        requires
            index < self.view().len(),
        ensures
            r == self.view()[index as int],
    {
        self.items[index]
    }
}

} // verus!
