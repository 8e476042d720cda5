use packed_layout::geom::{Point, Rectangle};
use packed_layout::layout::{compute_placements, compute_rects, place_next, scan, Outcome};
use packed_layout::pack::{Align, Pack, Position, VAlign};

fn rect(x0: i32, y0: i32, x1: i32, y1: i32) -> Rectangle {
    Rectangle { min: Point { x: x0, y: y0 }, max: Point { x: x1, y: y1 } }
}

fn zero() -> Rectangle {
    rect(0, 0, 0, 0)
}

fn fixed(x: i32, y: i32, align: Align, valign: VAlign) -> Position {
    Position { pack: Pack::Fixed(Point { x, y }), margin: zero(), align, valign }
}

fn fill(align: Align, valign: VAlign) -> Position {
    Position { pack: Pack::Fill, margin: zero(), align, valign }
}

#[test]
fn two_icons_and_a_fill_between() {
    let parent = rect(0, 0, 100, 20);
    let ps = vec![
        fixed(20, 20, Align::Left(0), VAlign::Top(0)),
        fixed(20, 20, Align::Right(0), VAlign::Top(0)),
        fill(Align::Left(0), VAlign::Top(0)),
    ];
    let rs = compute_rects(&parent, &ps);
    assert_eq!(rs, vec![rect(0, 0, 20, 20), rect(80, 0, 100, 20), rect(20, 0, 80, 20)]);
}

#[test]
fn same_inputs_same_layout() {
    let parent = rect(0, 0, 100, 100);
    let ps = vec![
        fixed(20, 10, Align::Center, VAlign::Center),
        fill(Align::Left(0), VAlign::Top(0)),
        fixed(5, 5, Align::Right(2), VAlign::Bottom(3)),
    ];
    assert_eq!(compute_placements(&parent, &ps), compute_placements(&parent, &ps));
}

#[test]
fn one_rectangle_per_directive_and_prefix_kept() {
    let parent = rect(0, 0, 100, 10);
    let ps = vec![
        fixed(30, 10, Align::Left(0), VAlign::Top(0)),
        fixed(30, 10, Align::Right(0), VAlign::Top(0)),
        fixed(30, 10, Align::Left(0), VAlign::Top(0)),
    ];
    let all = compute_rects(&parent, &ps);
    assert_eq!(all.len(), 3);
    let first_two = compute_rects(&parent, &ps[..2].to_vec());
    assert_eq!(first_two, all[..2].to_vec());
}

#[test]
fn empty_directives_give_nothing() {
    assert!(compute_rects(&rect(0, 0, 10, 10), &Vec::new()).is_empty());
}

#[test]
fn row_packs_apart_then_starves() {
    let parent = rect(0, 0, 100, 10);
    let ps = vec![
        fixed(30, 10, Align::Left(0), VAlign::Top(0)),
        fixed(30, 10, Align::Right(0), VAlign::Top(0)),
        fixed(30, 10, Align::Left(0), VAlign::Top(0)),
        fixed(30, 10, Align::Right(0), VAlign::Bottom(0)),
        fixed(30, 10, Align::Left(0), VAlign::Top(0)),
    ];
    let pls = compute_placements(&parent, &ps);
    let rs: Vec<Rectangle> = pls.iter().map(|p| p.rect).collect();
    assert_eq!(rs, vec![
        rect(0, 0, 30, 10),
        rect(70, 0, 100, 10),
        rect(30, 0, 60, 10),
        rect(60, 0, 70, 10),
        rect(0, 0, 0, 0),
    ]);
    assert_eq!(pls[3].outcome, Outcome::Clamped { requested: Point { x: 30, y: 10 }, granted: Point { x: 10, y: 10 } });
    assert_eq!(pls[4].outcome, Outcome::Starved);
    for i in 0..rs.len() {
        for j in i + 1..rs.len() {
            assert!(rs[i].intersection(&rs[j]).is_none());
        }
    }
}

#[test]
fn percent_ignores_space_taken() {
    let parent = rect(0, 0, 100, 50);
    let left_then_right = vec![
        Position { pack: Pack::Percent(50, 100), margin: zero(), align: Align::Left(0), valign: VAlign::Top(0) },
        Position { pack: Pack::Percent(50, 100), margin: zero(), align: Align::Right(0), valign: VAlign::Top(0) },
    ];
    let rs = compute_rects(&parent, &left_then_right);
    assert_eq!(rs, vec![rect(0, 0, 50, 50), rect(50, 0, 100, 50)]);
    let right_then_left = vec![left_then_right[1], left_then_right[0]];
    let rs = compute_rects(&parent, &right_then_left);
    assert_eq!(rs, vec![rect(50, 0, 100, 50), rect(0, 0, 50, 50)]);
    assert_eq!(rs[0].width(), 50);
    assert_eq!(rs[1].width(), 50);
}

#[test]
fn percent_above_whole_parent() {
    let parent = rect(0, 0, 100, 40);
    let ps = vec![Position {
        pack: Pack::Percent(150, 100),
        margin: zero(),
        align: Align::Center,
        valign: VAlign::Center,
    }];
    assert_eq!(compute_rects(&parent, &ps), vec![rect(-25, 0, 125, 40)]);
}

#[test]
fn fixed_too_big_is_clamped() {
    let parent = rect(0, 0, 100, 100);
    let pls = compute_placements(&parent, &vec![fixed(200, 200, Align::Left(0), VAlign::Top(0))]);
    assert_eq!(pls[0].rect, rect(0, 0, 100, 100));
    assert_eq!(
        pls[0].outcome,
        Outcome::Clamped { requested: Point { x: 200, y: 200 }, granted: Point { x: 100, y: 100 } }
    );
}

#[test]
fn fixed_that_fits_is_fitted() {
    let parent = rect(0, 0, 100, 100);
    let pls = compute_placements(&parent, &vec![fixed(100, 100, Align::Right(0), VAlign::Bottom(0))]);
    assert_eq!(pls[0].rect, rect(0, 0, 100, 100));
    assert_eq!(pls[0].outcome, Outcome::Fitted);
}

#[test]
fn center_leaves_four_regions() {
    let parent = rect(0, 0, 100, 100);
    let ps = vec![
        fixed(20, 10, Align::Center, VAlign::Center),
        fill(Align::Left(0), VAlign::Top(0)),
        fill(Align::Right(0), VAlign::Top(0)),
        fill(Align::Center, VAlign::Center),
        fill(Align::Center, VAlign::Center),
    ];
    let rs = compute_rects(&parent, &ps);
    assert_eq!(rs, vec![
        rect(40, 45, 60, 55),
        rect(0, 0, 40, 100),
        rect(60, 0, 100, 100),
        rect(40, 0, 60, 45),
        rect(40, 55, 60, 100),
    ]);
}

#[test]
fn outer_margin_keeps_space_free() {
    let parent = rect(0, 0, 100, 50);
    let ps = vec![
        fixed(20, 10, Align::Left(5), VAlign::Top(3)),
        fixed(10, 10, Align::Left(0), VAlign::Top(0)),
    ];
    assert_eq!(compute_rects(&parent, &ps), vec![rect(5, 3, 25, 13), rect(0, 16, 10, 26)]);
}

#[test]
fn inner_margin_is_subtracted() {
    let parent = rect(0, 0, 100, 50);
    let ps = vec![Position {
        pack: Pack::Fill,
        margin: rect(-2, -3, 4, 5),
        align: Align::Left(0),
        valign: VAlign::Top(0),
    }];
    assert_eq!(compute_rects(&parent, &ps), vec![rect(2, 3, 96, 45)]);
}

#[test]
fn fixed_falls_back_to_widest_region() {
    let parent = rect(0, 0, 100, 40);
    let ps = vec![
        fixed(80, 10, Align::Left(0), VAlign::Top(0)),
        fixed(30, 35, Align::Right(0), VAlign::Top(0)),
    ];
    let pls = compute_placements(&parent, &ps);
    assert_eq!(pls[0].rect, rect(0, 0, 80, 10));
    assert_eq!(pls[1].rect, rect(70, 10, 100, 40));
    assert_eq!(
        pls[1].outcome,
        Outcome::Clamped { requested: Point { x: 30, y: 35 }, granted: Point { x: 30, y: 30 } }
    );
}

#[test]
fn parent_without_area_is_the_first_region() {
    let parent = rect(3, 4, 3, 10);
    let pls = compute_placements(&parent, &vec![fill(Align::Left(0), VAlign::Top(0)); 2]);
    assert_eq!(pls.len(), 2);
    assert_eq!((pls[0].rect, pls[0].outcome), (rect(3, 4, 3, 10), Outcome::Fitted));
    assert_eq!((pls[1].rect, pls[1].outcome), (rect(3, 4, 3, 4), Outcome::Starved));
}

#[test]
fn fixed_that_fits_a_parent_without_width() {
    let parent = rect(0, 0, 0, 10);
    let pls = compute_placements(&parent, &vec![Position::top_left(0, 5)]);
    assert_eq!((pls[0].rect, pls[0].outcome), (rect(0, 0, 0, 5), Outcome::Fitted));
}

#[test]
fn negative_outer_margin_can_leave_parent() {
    let parent = rect(0, 0, 100, 10);
    let ps = vec![
        fixed(0, 10, Align::Left(-20), VAlign::Top(0)),
        fixed(10, 10, Align::Left(0), VAlign::Top(0)),
    ];
    assert_eq!(compute_rects(&parent, &ps), vec![rect(-20, 0, -20, 10), rect(-40, 0, -30, 10)]);
}

#[test]
fn coordinates_saturate() {
    let parent = rect(2147483600, 0, 2147483647, 10);
    let ps = vec![Position {
        pack: Pack::Percent(1000, 100),
        margin: zero(),
        align: Align::Left(0),
        valign: VAlign::Top(0),
    }];
    assert_eq!(compute_rects(&parent, &ps), vec![rect(2147483600, 0, i32::MAX, 10)]);
}

#[test]
fn scan_ranks_regions() {
    let avs = vec![rect(10, 0, 20, 50), rect(0, 5, 40, 10), rect(30, -5, 45, 20)];
    let c = scan(&avs);
    assert_eq!(c.widest, 1);
    assert_eq!(c.highest, 0);
    assert_eq!(c.leftmost, 1);
    assert_eq!(c.rightmost, 2);
    assert_eq!(c.topmost, 2);
    assert_eq!(c.bottommost, 0);
}

#[test]
fn scan_keeps_first_on_ties() {
    let avs = vec![rect(0, 0, 10, 10), rect(0, 0, 10, 10)];
    let c = scan(&avs);
    assert_eq!((c.widest, c.highest, c.leftmost, c.rightmost, c.topmost, c.bottommost), (0, 0, 0, 0, 0, 0));
}

#[test]
fn placements_stay_in_parent_moved_by_margin() {
    let parent = rect(0, 0, 100, 60);
    let ps = vec![
        Position { pack: Pack::Fixed(Point { x: 30, y: 20 }), margin: rect(-1, -1, 1, 1), align: Align::Left(2), valign: VAlign::Top(3) },
        Position { pack: Pack::Fill, margin: rect(2, 2, -2, -2), align: Align::Center, valign: VAlign::Center },
        Position { pack: Pack::Fixed(Point { x: 500, y: 10 }), margin: rect(0, 0, 0, 0), align: Align::Right(1), valign: VAlign::Bottom(0) },
        Position { pack: Pack::Fill, margin: rect(3, 0, 0, -4), align: Align::Left(0), valign: VAlign::Top(0) },
        Position { pack: Pack::Fixed(Point { x: 7, y: 7 }), margin: rect(0, 0, 0, 0), align: Align::Center, valign: VAlign::Bottom(2) },
    ];
    let pls = compute_placements(&parent, &ps);
    assert_eq!(pls[0].rect, rect(3, 4, 31, 22));
    for (p, pl) in ps.iter().zip(pls.iter()) {
        if pl.outcome == Outcome::Starved {
            assert_eq!(pl.rect, rect(0, 0, 0, 0));
        } else {
            let m = p.margin;
            assert!(parent.min.x - m.min.x <= pl.rect.min.x && pl.rect.max.x <= parent.max.x - m.max.x);
            assert!(parent.min.y - m.min.y <= pl.rect.min.y && pl.rect.max.y <= parent.max.y - m.max.y);
        }
    }
}

#[test]
fn regions_left_on_both_axes_can_overlap() {
    let parent = rect(0, 0, 100, 100);
    let ps = vec![
        fixed(10, 10, Align::Left(0), VAlign::Top(0)),
        fixed(60, 60, Align::Left(0), VAlign::Top(0)),
        fixed(50, 50, Align::Right(0), VAlign::Top(0)),
    ];
    let rs = compute_rects(&parent, &ps);
    assert_eq!(rs, vec![rect(0, 0, 10, 10), rect(0, 10, 60, 70), rect(50, 0, 100, 50)]);
    assert_eq!(rs[1].intersection(&rs[2]), Some(rect(50, 10, 60, 50)));
}

#[test]
fn column_stacks_apart_then_starves() {
    let parent = rect(0, 0, 20, 100);
    let ps = vec![
        fixed(20, 30, Align::Left(0), VAlign::Top(0)),
        fixed(20, 30, Align::Left(0), VAlign::Bottom(0)),
        fixed(20, 50, Align::Right(0), VAlign::Top(0)),
        fixed(20, 5, Align::Left(0), VAlign::Top(0)),
    ];
    let pls = compute_placements(&parent, &ps);
    let rs: Vec<Rectangle> = pls.iter().map(|p| p.rect).collect();
    assert_eq!(rs, vec![rect(0, 0, 20, 30), rect(0, 70, 20, 100), rect(0, 30, 20, 70), rect(0, 0, 0, 0)]);
    assert_eq!(pls[2].outcome, Outcome::Clamped { requested: Point { x: 20, y: 50 }, granted: Point { x: 20, y: 40 } });
    assert_eq!(pls[3].outcome, Outcome::Starved);
}

#[test]
fn place_next_splits_the_chosen_region() {
    let parent = rect(0, 0, 100, 50);
    let mut avs = vec![parent];
    let pl = place_next(&parent, &mut avs, &fixed(20, 10, Align::Left(0), VAlign::Top(0)));
    assert_eq!(pl.rect, rect(0, 0, 20, 10));
    assert_eq!(pl.outcome, Outcome::Fitted);
    assert_eq!(avs, vec![rect(20, 0, 100, 50), rect(0, 10, 100, 50)]);
    let pl = place_next(&parent, &mut avs, &fill(Align::Right(0), VAlign::Bottom(0)));
    assert_eq!(pl.rect, rect(20, 0, 100, 50));
    assert_eq!(avs, vec![rect(0, 10, 100, 50)]);
    let mut none: Vec<Rectangle> = Vec::new();
    let pl = place_next(&parent, &mut none, &fill(Align::Center, VAlign::Center));
    assert_eq!((pl.rect, pl.outcome), (rect(0, 0, 0, 0), Outcome::Starved));
}

#[test]
fn negative_extent_is_brought_to_zero() {
    let parent = rect(0, 0, 100, 20);
    let ps = vec![
        fixed(10, 10, Align::Left(60), VAlign::Top(0)),
        Position { pack: Pack::Fill, margin: rect(0, 0, 50, 30), align: Align::Left(0), valign: VAlign::Top(0) },
    ];
    let rs = compute_rects(&parent, &ps);
    assert_eq!(rs[0], rect(60, 0, 60, 10));
    assert_eq!(rs[1], rect(0, 10, 50, 10));
    for r in rs {
        assert!(r.width() >= 0 && r.height() >= 0);
    }
}
