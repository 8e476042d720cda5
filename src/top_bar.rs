//! The bar at the top of the screen: root icon, title, frontlight, clock, battery and menu.
use vstd::prelude::*;
use crate::geom::{Point, Rectangle, clamp32, clamp_i32};
use crate::layout::layout_rects;
use crate::pack::{Position, fixed_at, Align, Pack, VAlign, zero_rect};
use crate::packed_view::PackedView;
use crate::view::{Id, IdFeeder, RenderData, RenderQueue, UpdateMode};

verus! {

/// Index of the root icon among the bar's items.
pub const SEARCH: usize = 0;
/// Index of the menu icon.
pub const MENU: usize = 1;
/// Index of the battery widget.
pub const BATTERY: usize = 2;
/// Index of the frontlight icon.
pub const LIGHT: usize = 3;
/// Index of the clock.
pub const CLOCK: usize = 4;
/// Index of the title label.
pub const TITLE: usize = 5;

/// Charging state of the battery.
#[derive(Clone, Copy, Debug, PartialEq, Eq, Structural)]
pub enum BatteryStatus {
    Discharging,
    Charging,
    Charged,
    Unknown,
}

/// What the battery widget shows: charge in percent, and state.
#[derive(Clone, Copy, Debug, PartialEq, Eq, Structural)]
pub struct BatteryLevel {
    pub capacity: u8,
    pub status: BatteryStatus,
}

/// Input that a bar may claim.
#[derive(Clone, Copy, Debug, PartialEq, Eq, Structural)]
pub enum TouchEvent {
    Tap(Point),
    HoldFingerShort(Point),
    Swipe { start: Point, end: Point },
    Finger(Point),
    Other,
}

/// The directives of the bar's items, for a bar of height `side`.
pub open spec fn bar_positions(side: i32, clock_width: i32) -> Seq<Position> {
    seq![
        fixed_at(side, side, Align::Left(0)),
        fixed_at(side, side, Align::Right(0)),
        fixed_at(side, side, Align::Right(0)),
        fixed_at(side, side, Align::Right(0)),
        fixed_at(clock_width, side, Align::Right(0)),
        Position { pack: Pack::Fill, margin: zero_rect(), align: Align::Left(0), valign: VAlign::Top(0) },
    ]
}

/// Height of a bar over `rect`, saturated into `i32`.
pub open spec fn side_of(rect: Rectangle) -> i32 {
    clamp32(rect.h()) as i32
}

pub open spec fn frontlight_icon(frontlight: bool) -> Seq<char> {
    if frontlight {
        "frontlight"@
    } else {
        "frontlight-disabled"@
    }
}

pub struct TopBar {
    id: Id,
    rect: Rectangle,
    views: PackedView<Id>,
    clock_width: i32,
    root_icon: String,
    light_icon: String,
    title: String,
    clock_text: String,
    battery: BatteryLevel,
}

impl TopBar {
    pub closed spec fn id_view(self) -> Id {
        self.id
    }

    pub closed spec fn rect_view(self) -> Rectangle {
        self.rect
    }

    pub closed spec fn clock_width_view(self) -> i32 {
        self.clock_width
    }

    /// Identifiers of the items, in the order root icon, menu, battery, frontlight, clock, title.
    pub closed spec fn item_ids(self) -> Seq<Id> {
        self.views.children_view()
    }

    /// Rectangles of the items, in the same order.
    pub closed spec fn item_rects(self) -> Seq<Rectangle> {
        self.views.rects_view()
    }

    pub closed spec fn root_icon_view(self) -> Seq<char> {
        self.root_icon@
    }

    pub closed spec fn light_icon_view(self) -> Seq<char> {
        self.light_icon@
    }

    pub closed spec fn title_view(self) -> Seq<char> {
        self.title@
    }

    pub closed spec fn clock_text_view(self) -> Seq<char> {
        self.clock_text@
    }

    pub closed spec fn battery_view(self) -> BatteryLevel {
        self.battery
    }

    /// Six items laid out in the bar's rectangle.
    pub closed spec fn wf(self) -> bool {
        &&& self.views.wf()
        &&& self.views.parent() == self.rect
        &&& self.views.children_view().len() == 6
        &&& self.views.positions_view() == bar_positions(side_of(self.rect), self.clock_width)
    }

    /// The items are laid out as the bar's directives say.
    pub proof fn lemma_layout(self)
        requires
            self.wf(),
        ensures
            self.item_rects() == layout_rects(self.rect_view(), bar_positions(side_of(self.rect_view()), self.clock_width_view())),
            self.item_ids().len() == 6,
            self.item_rects().len() == 6,
    {
        assert(layout_rects(self.rect, self.views.positions_view()).len() == 6);
    }

    /// A bar over `rect` whose root icon is "back" when `back` holds and "search" otherwise.
    pub fn new(
        ids: &mut IdFeeder,
        rect: Rectangle,
        back: bool,
        title: String,
        frontlight: bool,
        battery: BatteryLevel,
        clock_width: i32,
        clock_text: String,
    ) -> (r: TopBar)
        requires
            rect.wf(),
            old(ids).peek() + 8 <= u64::MAX,
        ensures
            r.wf(),
            r.id_view() == old(ids).peek(),
            r.rect_view() == rect,
            r.clock_width_view() == clock_width,
            r.item_ids() == Seq::new(6, |i: int| (old(ids).peek() + 2 + i) as u64),
            r.item_rects() == layout_rects(rect, bar_positions(side_of(rect), clock_width)),
            final(ids).peek() == old(ids).peek() + 8,
            r.root_icon_view() == (if back { "back"@ } else { "search"@ }),
            r.light_icon_view() == frontlight_icon(frontlight),
            r.title_view() == title@,
            r.clock_text_view() == clock_text@,
            r.battery_view() == battery,
    {
        let id = ids.next();
        let side = clamp_i32(rect.height());
        let root_icon = if back { "back".to_owned() } else { "search".to_owned() };
        let light_icon = if frontlight { "frontlight".to_owned() } else { "frontlight-disabled".to_owned() };
        let views: PackedView<Id> = PackedView::new(ids.next(), rect);
        let views = views.push(ids.next(), Position::squared_top_left(side));
        let views = views.push(ids.next(), Position::squared_top_right(side));
        let views = views.push(ids.next(), Position::squared_top_right(side));
        let views = views.push(ids.next(), Position::squared_top_right(side));
        let views = views.push(ids.next(), Position::top_right(clock_width, side));
        let views = views.push(ids.next(), Position::filled_top_left());
        let r = TopBar {
            id,
            rect,
            views,
            clock_width,
            root_icon,
            light_icon,
            title,
            clock_text,
            battery,
        };
        proof {
            assert(r.views.positions_view() =~= bar_positions(side_of(rect), clock_width));
            assert(r.item_ids() =~= Seq::new(6, |i: int| (old(ids).peek() + 2 + i) as u64));
        }
        r
    }

    /// A request to redraw item `index`.
    fn redraw(&self, index: usize) -> (r: RenderData)
        requires
            self.wf(),
            index < 6,
        ensures
            r == item_redraw(*self, index as int),
    {
        proof {
            self.lemma_layout();
        }
        RenderData::new(self.views.children()[index], self.views.child_rect(index), UpdateMode::Gui)
    }

    /// Sets the root icon; the icon is redrawn only if its name changed.
    pub fn update_root_icon(&mut self, name: &str, rq: &mut RenderQueue)
        requires
            old(self).wf(),
        ensures
            final(self).wf(),
            final(self).id_view() == old(self).id_view(),
            final(self).rect_view() == old(self).rect_view(),
            final(self).clock_width_view() == old(self).clock_width_view(),
            final(self).item_ids() == old(self).item_ids(),
            final(self).item_rects() == old(self).item_rects(),
            final(self).root_icon_view() == name@,
            final(self).light_icon_view() == old(self).light_icon_view(),
            final(self).title_view() == old(self).title_view(),
            final(self).clock_text_view() == old(self).clock_text_view(),
            final(self).battery_view() == old(self).battery_view(),
            final(rq).view() == (if old(self).root_icon_view() == name@ {
                old(rq).view()
            } else {
                old(rq).view().push(item_redraw(*old(self), SEARCH as int))
            }),
    {
        let name = name.to_owned();
        if self.root_icon != name {
            rq.add(self.redraw(SEARCH));
            self.root_icon = name;
        }
    }

    /// Sets the title; the label is redrawn only if the text changed.
    pub fn update_title_label(&mut self, title: &str, rq: &mut RenderQueue)
        requires
            old(self).wf(),
        ensures
            final(self).wf(),
            final(self).id_view() == old(self).id_view(),
            final(self).rect_view() == old(self).rect_view(),
            final(self).clock_width_view() == old(self).clock_width_view(),
            final(self).item_ids() == old(self).item_ids(),
            final(self).item_rects() == old(self).item_rects(),
            final(self).title_view() == title@,
            final(self).root_icon_view() == old(self).root_icon_view(),
            final(self).light_icon_view() == old(self).light_icon_view(),
            final(self).clock_text_view() == old(self).clock_text_view(),
            final(self).battery_view() == old(self).battery_view(),
            final(rq).view() == (if old(self).title_view() == title@ {
                old(rq).view()
            } else {
                old(rq).view().push(item_redraw(*old(self), TITLE as int))
            }),
    {
        let title = title.to_owned();
        if self.title != title {
            rq.add(self.redraw(TITLE));
            self.title = title;
        }
    }

    /// Shows whether the frontlight is on, and redraws its icon.
    pub fn update_frontlight_icon(&mut self, frontlight: bool, rq: &mut RenderQueue)
        requires
            old(self).wf(),
        ensures
            final(self).wf(),
            final(self).id_view() == old(self).id_view(),
            final(self).rect_view() == old(self).rect_view(),
            final(self).clock_width_view() == old(self).clock_width_view(),
            final(self).item_ids() == old(self).item_ids(),
            final(self).item_rects() == old(self).item_rects(),
            final(self).light_icon_view() == frontlight_icon(frontlight),
            final(self).root_icon_view() == old(self).root_icon_view(),
            final(self).title_view() == old(self).title_view(),
            final(self).clock_text_view() == old(self).clock_text_view(),
            final(self).battery_view() == old(self).battery_view(),
            final(rq).view() == old(rq).view().push(item_redraw(*old(self), LIGHT as int)),
    {
        self.light_icon = if frontlight { "frontlight".to_owned() } else { "frontlight-disabled".to_owned() };
        rq.add(self.redraw(LIGHT));
    }

    /// Shows the time `text`, and redraws the clock.
    pub fn update_clock_label(&mut self, text: &str, rq: &mut RenderQueue)
        requires
            old(self).wf(),
        ensures
            final(self).wf(),
            final(self).id_view() == old(self).id_view(),
            final(self).rect_view() == old(self).rect_view(),
            final(self).clock_width_view() == old(self).clock_width_view(),
            final(self).item_ids() == old(self).item_ids(),
            final(self).item_rects() == old(self).item_rects(),
            final(self).clock_text_view() == text@,
            final(self).root_icon_view() == old(self).root_icon_view(),
            final(self).light_icon_view() == old(self).light_icon_view(),
            final(self).title_view() == old(self).title_view(),
            final(self).battery_view() == old(self).battery_view(),
            final(rq).view() == old(rq).view().push(item_redraw(*old(self), CLOCK as int)),
    {
        self.clock_text = text.to_owned();
        rq.add(self.redraw(CLOCK));
    }

    /// Shows the battery `level`, and redraws the battery widget.
    pub fn update_battery_widget(&mut self, level: BatteryLevel, rq: &mut RenderQueue)
        requires
            old(self).wf(),
        ensures
            final(self).wf(),
            final(self).id_view() == old(self).id_view(),
            final(self).rect_view() == old(self).rect_view(),
            final(self).clock_width_view() == old(self).clock_width_view(),
            final(self).item_ids() == old(self).item_ids(),
            final(self).item_rects() == old(self).item_rects(),
            final(self).battery_view() == level,
            final(self).root_icon_view() == old(self).root_icon_view(),
            final(self).light_icon_view() == old(self).light_icon_view(),
            final(self).title_view() == old(self).title_view(),
            final(self).clock_text_view() == old(self).clock_text_view(),
            final(rq).view() == old(rq).view().push(item_redraw(*old(self), BATTERY as int)),
    {
        self.battery = level;
        rq.add(self.redraw(BATTERY));
    }

    /// Refreshes frontlight, clock and battery, in that order.
    pub fn reseed(&mut self, frontlight: bool, clock_text: &str, level: BatteryLevel, rq: &mut RenderQueue)
        requires
            old(self).wf(),
        ensures
            final(self).wf(),
            final(self).id_view() == old(self).id_view(),
            final(self).rect_view() == old(self).rect_view(),
            final(self).clock_width_view() == old(self).clock_width_view(),
            final(self).item_ids() == old(self).item_ids(),
            final(self).item_rects() == old(self).item_rects(),
            final(self).light_icon_view() == frontlight_icon(frontlight),
            final(self).clock_text_view() == clock_text@,
            final(self).battery_view() == level,
            final(self).root_icon_view() == old(self).root_icon_view(),
            final(self).title_view() == old(self).title_view(),
            final(rq).view() == old(rq).view()
                .push(item_redraw(*old(self), LIGHT as int))
                .push(item_redraw(*old(self), CLOCK as int))
                .push(item_redraw(*old(self), BATTERY as int)),
    {
        self.update_frontlight_icon(frontlight, rq);
        self.update_clock_label(clock_text, rq);
        self.update_battery_widget(level, rq);
    }

    /// Moves the bar to `rect` with a clock of `clock_width`, and lays its items out again.
    pub fn resize(&mut self, rect: Rectangle, clock_width: i32)
        requires
            old(self).wf(),
            rect.wf(),
        ensures
            final(self).wf(),
            final(self).rect_view() == rect,
            final(self).clock_width_view() == clock_width,
            final(self).id_view() == old(self).id_view(),
            final(self).item_ids() == old(self).item_ids(),
            final(self).item_rects() == layout_rects(rect, bar_positions(side_of(rect), clock_width)),
            final(self).root_icon_view() == old(self).root_icon_view(),
            final(self).light_icon_view() == old(self).light_icon_view(),
            final(self).title_view() == old(self).title_view(),
            final(self).clock_text_view() == old(self).clock_text_view(),
            final(self).battery_view() == old(self).battery_view(),
    {
        let side = clamp_i32(rect.height());
        self.views.update_position(SEARCH, Position::squared_top_left(side));
        self.views.update_position(MENU, Position::squared_top_right(side));
        self.views.update_position(BATTERY, Position::squared_top_right(side));
        self.views.update_position(LIGHT, Position::squared_top_right(side));
        self.views.update_position(CLOCK, Position::top_right(clock_width, side));
        self.views.update_position(TITLE, Position::filled_top_left());
        self.views.resize(rect);
        self.rect = rect;
        self.clock_width = clock_width;
        proof {
            assert(self.views.positions_view() =~= bar_positions(side_of(rect), clock_width));
        }
    }

    /// Whether the bar claims the event: a touch or a whole swipe inside it.
    pub fn handle_event(&self, evt: &TouchEvent) -> (r: bool)
        ensures
            r == claims(self.rect_view(), *evt),
    {
        match *evt {
            TouchEvent::Tap(center) => self.rect.includes(center),
            TouchEvent::HoldFingerShort(center) => self.rect.includes(center),
            TouchEvent::Swipe { start, end } => self.rect.includes(start) && self.rect.includes(end),
            TouchEvent::Finger(position) => self.rect.includes(position),
            TouchEvent::Other => false,
        }
    }

    pub fn id(&self) -> (r: Id)
        ensures
            r == self.id_view(),
    {
        self.id
    }

    pub fn rect(&self) -> (r: &Rectangle)
        ensures
            *r == self.rect_view(),
    {
        &self.rect
    }

    /// Rectangle of item `index` (root icon, menu, battery, frontlight, clock, title).
    pub fn item_rect(&self, index: usize) -> (r: Rectangle)
        requires
            self.wf(),
            index < 6,
        ensures
            r == self.item_rects()[index as int],
    {
        proof {
            self.lemma_layout();
        }
        self.views.child_rect(index)
    }

    pub fn root_icon(&self) -> (r: &str)
        ensures
            r@ == self.root_icon_view(),
    {
        self.root_icon.as_str()
    }

    pub fn title(&self) -> (r: &str)
        ensures
            r@ == self.title_view(),
    {
        self.title.as_str()
    }

    pub fn frontlight_icon(&self) -> (r: &str)
        ensures
            r@ == self.light_icon_view(),
    {
        self.light_icon.as_str()
    }

    pub fn clock_text(&self) -> (r: &str)
        ensures
            r@ == self.clock_text_view(),
    {
        self.clock_text.as_str()
    }

    pub fn battery(&self) -> (r: BatteryLevel)
        ensures
            r == self.battery_view(),
    {
        self.battery
    }
}

/// Request to redraw item `i` of the bar.
pub open spec fn item_redraw(bar: TopBar, i: int) -> RenderData {
    RenderData { id: bar.item_ids()[i], rect: bar.item_rects()[i], mode: UpdateMode::Gui }
}

/// A touch, or a whole swipe, inside `rect`.
pub open spec fn claims(rect: Rectangle, evt: TouchEvent) -> bool {
    let inside = |p: Point| rect.min.x <= p.x < rect.max.x && rect.min.y <= p.y < rect.max.y;
    match evt {
        TouchEvent::Tap(c) => inside(c),
        TouchEvent::HoldFingerShort(c) => inside(c),
        TouchEvent::Swipe { start, end } => inside(start) && inside(end),
        TouchEvent::Finger(c) => inside(c),
        TouchEvent::Other => false,
    }
}

} // verus!
