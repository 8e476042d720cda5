use packed_layout::background::Background;
use packed_layout::geom::{null_rect, Point, Rectangle};
use packed_layout::image::{Image, PixmapDraw, Pixmap, WHITE};
use packed_layout::layout::Outcome;
use packed_layout::pack::{Align, Pack, Position, VAlign};
use packed_layout::packed_view::PackedView;
use packed_layout::top_bar::{BatteryLevel, BatteryStatus, TopBar, TouchEvent, CLOCK, LIGHT, BATTERY, SEARCH, TITLE};
use packed_layout::view::{IdFeeder, RenderQueue, UpdateMode};

fn rect(x0: i32, y0: i32, x1: i32, y1: i32) -> Rectangle {
    Rectangle { min: Point { x: x0, y: y0 }, max: Point { x: x1, y: y1 } }
}

fn bar() -> (TopBar, IdFeeder) {
    let mut ids = IdFeeder::new();
    let level = BatteryLevel { capacity: 80, status: BatteryStatus::Discharging };
    let bar = TopBar::new(&mut ids, rect(0, 0, 600, 60), false, "Library".to_string(), true, level, 100, "12:00".to_string());
    (bar, ids)
}

#[test]
fn position_constructors() {
    let p = Position::squared_top_left(7);
    assert_eq!(p.pack, Pack::Fixed(Point { x: 7, y: 7 }));
    assert_eq!(p.align, Align::Left(0));
    assert_eq!(p.valign, VAlign::Top(0));
    assert_eq!(p.margin, null_rect());
    assert_eq!(Position::squared_top_right(7).align, Align::Right(0));
    assert_eq!(Position::top_left(3, 4).pack, Pack::Fixed(Point { x: 3, y: 4 }));
    let p = Position::top_right(3, 4);
    assert_eq!((p.pack, p.align), (Pack::Fixed(Point { x: 3, y: 4 }), Align::Right(0)));
    let p = Position::filled_top_left();
    assert_eq!((p.pack, p.align, p.valign), (Pack::Fill, Align::Left(0), VAlign::Top(0)));
}

#[test]
fn packed_view_lays_out_on_push_update_and_resize() {
    let v: PackedView<u8> = PackedView::new(9, rect(0, 0, 100, 20));
    assert!(v.rects().is_empty());
    let v = v.push(1, Position::squared_top_left(20));
    let v = v.push(2, Position::filled_top_left());
    assert_eq!(v.rects(), &vec![rect(0, 0, 20, 20), rect(20, 0, 100, 20)]);
    assert_eq!(v.children(), &vec![1u8, 2]);
    assert_eq!(&v.compute_sizes(), v.rects());
    assert_eq!(v.id(), 9);
    let mut v = v;
    v.update_position(0, Position::squared_top_right(20));
    assert_eq!(v.rects(), &vec![rect(80, 0, 100, 20), rect(0, 0, 80, 20)]);
    v.resize(rect(0, 0, 50, 20));
    assert_eq!(v.rect(), &rect(0, 0, 50, 20));
    assert_eq!(v.child_rect(0), rect(30, 0, 50, 20));
    assert_eq!(v.child_rect(1), rect(0, 0, 30, 20));
}

#[test]
fn packed_view_reports_clamped_child() {
    let v: PackedView<u8> = PackedView::new(1, rect(0, 0, 100, 100));
    let v = v.push(7, Position::top_left(200, 200));
    assert_eq!(v.rects(), &vec![rect(0, 0, 100, 100)]);
    assert_eq!(
        v.placements()[0].outcome,
        Outcome::Clamped { requested: Point { x: 200, y: 200 }, granted: Point { x: 100, y: 100 } }
    );
    let v = v.push(8, Position::filled_top_left());
    assert_eq!(v.placements()[1].outcome, Outcome::Starved);
}

#[test]
fn top_bar_items() {
    let (bar, ids) = bar();
    assert_eq!(bar.id(), 1);
    let rs: Vec<Rectangle> = (0..6).map(|i| bar.item_rect(i)).collect();
    assert_eq!(rs, vec![
        rect(0, 0, 60, 60),
        rect(540, 0, 600, 60),
        rect(480, 0, 540, 60),
        rect(420, 0, 480, 60),
        rect(320, 0, 420, 60),
        rect(60, 0, 320, 60),
    ]);
    assert_eq!(bar.root_icon(), "search");
    assert_eq!(bar.frontlight_icon(), "frontlight");
    assert_eq!(bar.title(), "Library");
    assert_eq!(bar.clock_text(), "12:00");
    let mut ids = ids;
    assert_eq!(ids.next(), 9);
}

#[test]
fn top_bar_back_icon() {
    let mut ids = IdFeeder::new();
    let level = BatteryLevel { capacity: 5, status: BatteryStatus::Charging };
    let bar = TopBar::new(&mut ids, rect(0, 0, 300, 30), true, String::new(), false, level, 50, String::new());
    assert_eq!(bar.root_icon(), "back");
    assert_eq!(bar.frontlight_icon(), "frontlight-disabled");
    assert_eq!(bar.battery(), level);
}

#[test]
fn root_icon_redrawn_only_on_change() {
    let (mut bar, _) = bar();
    let mut rq = RenderQueue::new();
    bar.update_root_icon("search", &mut rq);
    assert_eq!(rq.len(), 0);
    bar.update_root_icon("back", &mut rq);
    assert_eq!(bar.root_icon(), "back");
    assert_eq!(rq.len(), 1);
    let d = rq.get(0);
    assert_eq!((d.id, d.rect, d.mode), (3 + SEARCH as u64, rect(0, 0, 60, 60), UpdateMode::Gui));
}

#[test]
fn title_redrawn_only_on_change() {
    let (mut bar, _) = bar();
    let mut rq = RenderQueue::new();
    bar.update_title_label("Library", &mut rq);
    assert_eq!(rq.len(), 0);
    bar.update_title_label("Settings", &mut rq);
    assert_eq!(bar.title(), "Settings");
    assert_eq!(rq.len(), 1);
    assert_eq!(rq.get(0).id, 3 + TITLE as u64);
    assert_eq!(rq.get(0).rect, rect(60, 0, 320, 60));
}

#[test]
fn reseed_redraws_light_clock_battery() {
    let (mut bar, _) = bar();
    let mut rq = RenderQueue::new();
    let level = BatteryLevel { capacity: 100, status: BatteryStatus::Charged };
    bar.reseed(false, "12:01", level, &mut rq);
    assert_eq!(bar.frontlight_icon(), "frontlight-disabled");
    assert_eq!(bar.clock_text(), "12:01");
    assert_eq!(bar.battery(), level);
    assert_eq!(rq.len(), 3);
    assert_eq!(rq.get(0).id, 3 + LIGHT as u64);
    assert_eq!(rq.get(1).id, 3 + CLOCK as u64);
    assert_eq!(rq.get(2).id, 3 + BATTERY as u64);
    assert_eq!(rq.get(1).rect, rect(320, 0, 420, 60));
}

#[test]
fn single_updates_always_redraw() {
    let (mut bar, _) = bar();
    let mut rq = RenderQueue::new();
    bar.update_frontlight_icon(true, &mut rq);
    bar.update_clock_label("12:00", &mut rq);
    bar.update_battery_widget(BatteryLevel { capacity: 80, status: BatteryStatus::Discharging }, &mut rq);
    assert_eq!(rq.len(), 3);
    assert_eq!(rq.get(2).rect, rect(480, 0, 540, 60));
}

#[test]
fn top_bar_resize() {
    let (mut bar, _) = bar();
    bar.resize(rect(0, 0, 400, 40), 80);
    assert_eq!(bar.rect(), &rect(0, 0, 400, 40));
    assert_eq!(bar.item_rect(SEARCH), rect(0, 0, 40, 40));
    assert_eq!(bar.item_rect(CLOCK), rect(200, 0, 280, 40));
    assert_eq!(bar.item_rect(TITLE), rect(40, 0, 200, 40));
}

#[test]
fn top_bar_claims_touches_inside() {
    let (bar, _) = bar();
    assert!(bar.handle_event(&TouchEvent::Tap(Point { x: 10, y: 10 })));
    assert!(!bar.handle_event(&TouchEvent::Tap(Point { x: 10, y: 60 })));
    assert!(bar.handle_event(&TouchEvent::HoldFingerShort(Point { x: 599, y: 0 })));
    assert!(!bar.handle_event(&TouchEvent::Swipe { start: Point { x: 1, y: 1 }, end: Point { x: 1, y: 100 } }));
    assert!(bar.handle_event(&TouchEvent::Swipe { start: Point { x: 1, y: 1 }, end: Point { x: 500, y: 50 } }));
    assert!(bar.handle_event(&TouchEvent::Finger(Point { x: 0, y: 0 })));
    assert!(!bar.handle_event(&TouchEvent::Other));
}

#[test]
fn pixmap_new_is_white_and_clear_sets_all() {
    let mut p = Pixmap::new(3, 2);
    assert_eq!(p.data, vec![WHITE; 6]);
    p.clear(7);
    assert_eq!(p.data, vec![7; 6]);
}

#[test]
fn draw_pixmap_clips() {
    let mut dst = Pixmap::new(3, 2);
    let src = Pixmap { width: 2, height: 2, data: vec![1, 2, 3, 4] };
    dst.draw_pixmap(&src, Point { x: -1, y: 1 });
    assert_eq!(dst.data, vec![255, 255, 255, 2, 255, 255]);
}

#[test]
fn image_render_plan_centres_pixmap() {
    let mut img = Image::new(1, rect(0, 0, 10, 10), Pixmap::new(4, 2));
    let plan = img.render_plan(&rect(0, 0, 10, 10));
    assert_eq!(plan.fills, vec![rect(0, 0, 7, 4), rect(0, 4, 3, 10), rect(3, 6, 10, 10), rect(7, 0, 10, 6)]);
    assert_eq!(plan.draw, Some(PixmapDraw { frame: rect(0, 0, 4, 2), at: Point { x: 3, y: 4 }, blend: None }));
    img.set_blended(true, 7);
    let plan = img.render_plan(&rect(4, 0, 10, 10));
    assert!(plan.fills.is_empty());
    assert_eq!(plan.draw, Some(PixmapDraw { frame: rect(1, 0, 4, 2), at: Point { x: 4, y: 4 }, blend: Some(7) }));
    assert_eq!(img.dims(), (4, 2));
    assert_eq!((img.width(), img.height()), (4, 2));
}

#[test]
fn image_render_rect_and_update() {
    let mut img = Image::new(5, rect(0, 0, 10, 10), Pixmap::new(1, 1));
    assert_eq!(img.render_rect(&rect(5, 5, 20, 20)), rect(5, 5, 10, 10));
    assert_eq!(img.render_rect(&rect(20, 20, 30, 30)), rect(0, 0, 10, 10));
    let mut rq = RenderQueue::new();
    img.update(Pixmap::new(2, 3), &mut rq);
    assert_eq!(img.pixmap().height, 3);
    assert_eq!(rq.len(), 1);
    assert_eq!(rq.get(0).id, 5);
}

#[test]
fn background_loads_on_white_page() {
    let mut bg = Background::new(1, rect(1, 1, 5, 4));
    assert_eq!(bg.image.pixmap.data, vec![WHITE; 12]);
    let mut rq = RenderQueue::new();
    bg.load(None, &mut rq);
    assert_eq!(rq.len(), 0);
    bg.load(Some(Pixmap { width: 2, height: 2, data: vec![1, 2, 3, 4] }), &mut rq);
    assert_eq!(bg.image.pixmap.data, vec![255, 255, 255, 255, 255, 1, 2, 255, 255, 3, 4, 255]);
    assert_eq!(rq.len(), 1);
    assert_eq!(rq.get(0).rect, rect(1, 1, 5, 4));
}

#[test]
fn background_hidden_while_drawing() {
    let mut bg = Background::new(2, rect(0, 0, 4, 4));
    assert!(bg.render_plan(&rect(0, 0, 4, 4)).draw.is_some());
    bg.set_drawing(true);
    let plan = bg.render_plan(&rect(0, 0, 4, 4));
    assert!(plan.fills.is_empty() && plan.draw.is_none());
    assert_eq!(bg.id(), 2);
    assert_eq!(bg.rect(), &rect(0, 0, 4, 4));
}
