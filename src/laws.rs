//! Properties of the layout engine, proved over its specification.
use vstd::prelude::*;
use crate::geom::{Point, Rectangle, pt, min_int, rect_of};
use crate::layout::{
    Outcome, Placement, Quad, layout, layout_rects, placement_at, regions_after, step, chosen,
    inner_region, resolved_size, placed, percent_of, lemma_best, Criterion, with_margin, outer_h,
    outer_v, keep1, initial, cut_horizontal, cut_vertical, half, starved_rect, no_negative,
};
use crate::pack::{Align, VAlign, Pack, Position, zero_rect, fixed_at};
use crate::top_bar::{bar_positions, side_of};

verus! {

/// Layout is a function of its inputs: two layouts of the same parent and directives are equal.
pub proof fn law_deterministic(parent: Rectangle, ps: Seq<Position>, r1: Seq<Placement>, r2: Seq<Placement>)
    requires
        r1 == layout(parent, ps),
        r2 == layout(parent, ps),
    ensures
        r1 == r2,
{
}

proof fn lemma_regions_prefix(parent: Rectangle, ps: Seq<Position>, k: int, i: nat)
    requires
        i <= k <= ps.len(),
    ensures
        regions_after(parent, ps.take(k), i) == regions_after(parent, ps, i),
    decreases i,
{
    if i > 0 {
        lemma_regions_prefix(parent, ps, k, (i - 1) as nat);
    }
}

/// There is one placement per directive, in the order of the directives; the `i`-th is that of
/// directive `i` among the regions left by those before it, so that directives appended later
/// change none of the earlier placements.
pub proof fn law_one_per_directive(parent: Rectangle, ps: Seq<Position>)
    ensures
        layout(parent, ps).len() == ps.len(),
        layout_rects(parent, ps).len() == ps.len(),
        forall|i: int| 0 <= i < ps.len() ==> #[trigger] layout(parent, ps)[i]
            == step(parent, regions_after(parent, ps, i as nat), ps[i]).1,
        forall|i: int| 0 <= i < ps.len() ==> #[trigger] layout_rects(parent, ps)[i] == layout(parent, ps)[i].rect,
        forall|k: int| 0 <= k <= ps.len() ==> #[trigger] layout(parent, ps.take(k)) == layout(parent, ps).take(k),
{
    assert forall|k: int| 0 <= k <= ps.len() implies #[trigger] layout(parent, ps.take(k)) == layout(parent, ps).take(k) by {
        assert forall|i: int| 0 <= i < k implies layout(parent, ps.take(k))[i] == layout(parent, ps)[i] by {
            lemma_regions_prefix(parent, ps, k, i as nat);
        }
        assert(layout(parent, ps.take(k)) =~= layout(parent, ps).take(k));
    }
}

/// The box placed for directive `i`, before its inner margin is applied.
pub open spec fn placed_at(parent: Rectangle, ps: Seq<Position>, i: int) -> Quad {
    let avs = regions_after(parent, ps, i as nat);
    let c = inner_region(avs[chosen(avs, ps[i])], ps[i]);
    placed(ps[i], c, resolved_size(parent, ps[i], c))
}

/// A directive sized in percent gets that share of the whole parent, whatever the directives
/// before it took, as long as some region is left for it.
pub proof fn law_percent_of_parent(parent: Rectangle, ps: Seq<Position>, i: int, fx: u32, fy: u32)
    requires
        0 <= i < ps.len(),
        ps[i].pack == Pack::Percent(fx, fy),
        regions_after(parent, ps, i as nat).len() > 0,
    ensures
        placed_at(parent, ps, i).2 - placed_at(parent, ps, i).0 == percent_of(parent.w(), fx),
        placed_at(parent, ps, i).3 - placed_at(parent, ps, i).1 == percent_of(parent.h(), fy),
        layout(parent, ps)[i].outcome == Outcome::Fitted,
        layout_rects(parent, ps)[i] == no_negative(with_margin(placed_at(parent, ps, i), ps[i].margin)),
{
}

/// A fixed-size directive alone in a parent with area, without margins: it gets the requested
/// size where that fits, is narrowed to the parent on each axis where it does not (and says so),
/// and never leaves the parent.
pub proof fn law_fixed_clamped(parent: Rectangle, f: Point, align: Align, valign: VAlign)
    requires
        parent.has_area(),
        f.x >= 0,
        f.y >= 0,
        align == Align::Left(0) || align == Align::Right(0) || align == Align::Center,
        valign == VAlign::Top(0) || valign == VAlign::Bottom(0) || valign == VAlign::Center,
    ensures
        ({
            let p = Position { pack: Pack::Fixed(f), margin: zero_rect(), align, valign };
            let pl = layout(parent, seq![p])[0];
            &&& pl.outcome == (if f.x > parent.w() || f.y > parent.h() {
                Outcome::Clamped {
                    requested: f,
                    granted: pt(min_int(f.x as int, parent.w()), min_int(f.y as int, parent.h())),
                }
            } else {
                Outcome::Fitted
            })
            &&& pl.rect.w() == min_int(f.x as int, parent.w())
            &&& pl.rect.h() == min_int(f.y as int, parent.h())
            &&& parent.contains(pl.rect)
        }),
{
    let p = Position { pack: Pack::Fixed(f), margin: zero_rect(), align, valign };
    let ps = seq![p];
    let avs = regions_after(parent, ps, 0);
    assert(avs == seq![parent]);
    lemma_best(avs, Criterion::Leftmost);
    lemma_best(avs, Criterion::Rightmost);
    lemma_best(avs, Criterion::Widest);
    assert(chosen(avs, p) == 0);
    assert(layout(parent, ps)[0] == placement_at(parent, ps, 0));
}

/// A directive whose box cannot outgrow the region it is placed in: filled, or of a
/// non-negative fixed size, with non-negative outer margins.
pub open spec fn stays_inside(p: Position) -> bool {
    &&& match p.pack {
        Pack::Fixed(f) => f.x >= 0 && f.y >= 0,
        Pack::Fill => true,
        Pack::Percent(_, _) => false,
    }
    &&& outer_h(p.align) >= 0
    &&& outer_v(p.valign) >= 0
}

/// Every free region has its corners in order and lies in the parent.
pub open spec fn regions_inside(parent: Rectangle, avs: Seq<Rectangle>) -> bool {
    forall|j: int| 0 <= j < avs.len() ==> (#[trigger] avs[j]).wf() && parent.contains(avs[j])
}

proof fn lemma_keep1_inside(parent: Rectangle, r: Rectangle, avs: Seq<Rectangle>, f: Quad)
    requires
        regions_inside(parent, avs),
        parent.contains(r),
        f.0 >= r.min.x || f.0 >= f.2,
        f.2 <= r.max.x || f.2 <= f.0,
        f.1 >= r.min.y || f.1 >= f.3,
        f.3 <= r.max.y || f.3 <= f.1,
    ensures
        regions_inside(parent, keep1(avs, f)),
{
}

proof fn lemma_half(s: int, w: int)
    requires
        0 <= s <= w,
    ensures
        0 <= half(w) - half(s),
        s - half(s) <= w - half(w),
{
}

proof fn lemma_remove_inside(parent: Rectangle, avs: Seq<Rectangle>, i: int)
    requires
        regions_inside(parent, avs),
        0 <= i < avs.len(),
    ensures
        regions_inside(parent, avs.remove(i)),
{
    assert forall|j: int| 0 <= j < avs.remove(i).len() implies (#[trigger] avs.remove(i)[j]).wf()
        && parent.contains(avs.remove(i)[j]) by {
        if j < i {
            assert(avs.remove(i)[j] == avs[j]);
        } else {
            assert(avs.remove(i)[j] == avs[j + 1]);
        }
    }
}

/// The chosen region is one of the free regions.
proof fn lemma_chosen_in_range(avs: Seq<Rectangle>, p: Position)
    requires
        avs.len() > 0,
    ensures
        0 <= chosen(avs, p) < avs.len(),
{
    lemma_best(avs, Criterion::Leftmost);
    lemma_best(avs, Criterion::Rightmost);
    lemma_best(avs, Criterion::Widest);
}

/// Placing a directive that stays inside keeps the free regions in the parent, and its box
/// lies in the region it was given, corner by corner.
proof fn lemma_step_inside(parent: Rectangle, avs: Seq<Rectangle>, p: Position)
    requires
        regions_inside(parent, avs),
        avs.len() > 0,
        stays_inside(p),
    ensures
        regions_inside(parent, step(parent, avs, p).0),
        ({
            let r = avs[chosen(avs, p)];
            let c = inner_region(r, p);
            let q = placed(p, c, resolved_size(parent, p, c));
            r.min.x <= q.0 && q.2 <= r.max.x && r.min.y <= q.1 && q.3 <= r.max.y
        }),
{
    lemma_chosen_in_range(avs, p);
    let i = chosen(avs, p);
    let r = avs[i];
    let c = inner_region(r, p);
    let s = resolved_size(parent, p, c);
    let q = placed(p, c, s);
    let h = outer_h(p.align);
    let v = outer_v(p.valign);
    assert(s.0 <= c.2 - c.0 && (s.0 >= 0 || s.0 == c.2 - c.0));
    assert(s.1 <= c.3 - c.1 && (s.1 >= 0 || s.1 == c.3 - c.1));
    if p.align == Align::Center {
        lemma_half(s.0, c.2 - c.0);
    }
    if p.valign == VAlign::Center {
        lemma_half(s.1, c.3 - c.1);
    }
    assert(r.min.x <= q.0 && q.2 <= r.max.x && r.min.y <= q.1 && q.3 <= r.max.y);
    let a0 = avs.remove(i);
    lemma_remove_inside(parent, avs, i);
    match p.align {
        Align::Left(_) => {
            lemma_keep1_inside(parent, r, a0, (r.min.x + s.0 + 2 * h, r.min.y as int, r.max.x as int, r.max.y as int));
        },
        Align::Right(_) => {
            lemma_keep1_inside(parent, r, a0, (r.min.x as int, r.min.y as int, r.max.x - (s.0 + 2 * h), r.max.y as int));
        },
        Align::Center => {
            lemma_keep1_inside(parent, r, a0, (r.min.x as int, r.min.y as int, q.0, r.max.y as int));
            let a1 = keep1(a0, (r.min.x as int, r.min.y as int, q.0, r.max.y as int));
            lemma_keep1_inside(parent, r, a1, (q.2, r.min.y as int, r.max.x as int, r.max.y as int));
        },
    }
    let a2 = cut_horizontal(a0, r, p, s, q);
    match p.valign {
        VAlign::Top(_) => {
            lemma_keep1_inside(parent, r, a2, (r.min.x as int, r.min.y + s.1 + 2 * v, r.max.x as int, r.max.y as int));
        },
        VAlign::Bottom(_) => {
            lemma_keep1_inside(parent, r, a2, (r.min.x as int, r.min.y as int, r.max.x as int, r.max.y - (s.1 + 2 * v)));
        },
        VAlign::Center => {
            lemma_keep1_inside(parent, r, a2, (q.0, r.min.y as int, q.2, q.1));
            let a3 = keep1(a2, (q.0, r.min.y as int, q.2, q.1));
            lemma_keep1_inside(parent, r, a3, (q.0, q.3, q.2, r.max.y as int));
        },
    }
}

proof fn lemma_regions_inside(parent: Rectangle, ps: Seq<Position>, k: nat)
    requires
        parent.wf(),
        k <= ps.len(),
        forall|i: int| 0 <= i < ps.len() ==> stays_inside(#[trigger] ps[i]),
    ensures
        regions_inside(parent, regions_after(parent, ps, k)),
    decreases k,
{
    if k > 0 {
        lemma_regions_inside(parent, ps, (k - 1) as nat);
        let avs = regions_after(parent, ps, (k - 1) as nat);
        if avs.len() > 0 {
            lemma_step_inside(parent, avs, ps[k - 1]);
        }
    }
}

/// With directives that stay inside, every placement with area lies in the parent moved by the
/// directive's own inner margin, and one that found no region is empty.
pub proof fn law_contained(parent: Rectangle, ps: Seq<Position>)
    requires
        parent.wf(),
        forall|i: int| 0 <= i < ps.len() ==> stays_inside(#[trigger] ps[i]),
    ensures
        forall|i: int| 0 <= i < ps.len() ==> {
            let pl = #[trigger] layout(parent, ps)[i];
            &&& pl.rect.has_area() ==> parent.minus(ps[i].margin).contains(pl.rect)
            &&& pl.outcome == Outcome::Starved ==> pl.rect == starved_rect(parent) && !pl.rect.has_area()
        },
{
    assert forall|i: int| 0 <= i < ps.len() implies {
        let pl = #[trigger] layout(parent, ps)[i];
        &&& pl.rect.has_area() ==> parent.minus(ps[i].margin).contains(pl.rect)
        &&& pl.outcome == Outcome::Starved ==> pl.rect == starved_rect(parent) && !pl.rect.has_area()
    } by {
        let avs = regions_after(parent, ps, i as nat);
        lemma_regions_inside(parent, ps, i as nat);
        if avs.len() > 0 {
            lemma_step_inside(parent, avs, ps[i]);
            lemma_chosen_in_range(avs, ps[i]);
        }
    }
}

/// A box of the parent's full height and a non-negative fixed width, against the left or the right side,
/// without margins.
pub open spec fn row_directive(parent: Rectangle, p: Position) -> bool {
    &&& match p.pack {
        Pack::Fixed(f) => f.x >= 0 && f.y == parent.h(),
        _ => false,
    }
    &&& (p.align == Align::Left(0) || p.align == Align::Right(0))
    &&& (p.valign == VAlign::Top(0) || p.valign == VAlign::Bottom(0))
    &&& p.margin == zero_rect()
}

/// The fixed width that a directive asks for (zero for other policies).
pub open spec fn fixed_width(p: Position) -> int {
    match p.pack {
        Pack::Fixed(f) => f.x as int,
        _ => 0,
    }
}

/// Total width asked for by the first `i` directives.
pub open spec fn width_requested(ps: Seq<Position>, i: int) -> int
    decreases i,
{
    if i <= 0 {
        0
    } else {
        width_requested(ps, i - 1) + fixed_width(ps[i - 1])
    }
}

/// Total width of the first `i` rectangles.
pub open spec fn width_before(rs: Seq<Rectangle>, i: int) -> int
    decreases i,
{
    if i <= 0 {
        0
    } else {
        width_before(rs, i - 1) + rs[i - 1].w()
    }
}

/// The state of a row after `k` directives: at most one free region, a strip of full height
/// that the placed boxes do not enter, whose width is what the directives have not asked for;
/// placed boxes inside the parent and apart, none wider than asked.
spec fn row_state(parent: Rectangle, ps: Seq<Position>, k: int) -> bool {
    let avs = regions_after(parent, ps, k as nat);
    let rs = layout_rects(parent, ps);
    &&& avs.len() <= 1
    &&& width_before(rs, k) <= width_requested(ps, k)
    &&& avs.len() == 1 ==> {
        let r = avs[0];
        &&& r.min.y == parent.min.y && r.max.y == parent.max.y
        &&& parent.min.x <= r.min.x <= r.max.x <= parent.max.x
        &&& r.w() == parent.w() - width_requested(ps, k)
        &&& forall|j: int| 0 <= j < k ==> (#[trigger] rs[j]).max.x <= r.min.x || rs[j].min.x >= r.max.x
    }
    &&& forall|j: int| 0 <= j < k ==> parent.contains(#[trigger] rs[j])
    &&& forall|j1: int, j2: int| 0 <= j1 < j2 < k ==> !(#[trigger] rs[j1]).overlaps(#[trigger] rs[j2])
}

/// One full-height box placed in a single full-height strip.
proof fn lemma_row_step(parent: Rectangle, avs: Seq<Rectangle>, p: Position)
    requires
        parent.wf(),
        row_directive(parent, p),
        avs.len() == 1,
        avs[0].min.y == parent.min.y && avs[0].max.y == parent.max.y,
        parent.min.x <= avs[0].min.x <= avs[0].max.x <= parent.max.x,
    ensures
        ({
            let r = avs[0];
            let s = min_int(fixed_width(p), r.w());
            let (next, pl) = step(parent, avs, p);
            &&& r.min.x <= pl.rect.min.x && pl.rect.max.x <= r.max.x && pl.rect.w() == s
            &&& pl.rect.min.y == parent.min.y && pl.rect.max.y == parent.max.y
            &&& next.len() <= 1
            &&& next.len() == 1 ==> {
                &&& s < r.w()
                &&& next[0].min.y == parent.min.y && next[0].max.y == parent.max.y
                &&& r.min.x <= next[0].min.x <= next[0].max.x <= r.max.x
                &&& next[0].w() == r.w() - s
                &&& (pl.rect.max.x <= next[0].min.x || pl.rect.min.x >= next[0].max.x)
            }
        }),
{
    let r = avs[0];
    let s = min_int(fixed_width(p), r.w());
    lemma_chosen_in_range(avs, p);
    assert(chosen(avs, p) == 0);
    let c = inner_region(r, p);
    let sz = resolved_size(parent, p, c);
    assert(sz == (s, r.h()));
    let q = placed(p, c, sz);
    assert(q.1 == r.min.y && q.3 == r.max.y);
    assert(r.min.x <= q.0 && q.2 <= r.max.x && q.2 - q.0 == s);
    let out = no_negative(with_margin(q, p.margin));
    assert(out.min.x == q.0 && out.max.x == q.2 && out.min.y == q.1 && out.max.y == q.3);
    let a0 = avs.remove(0);
    assert(a0 =~= Seq::<Rectangle>::empty());
    let a1 = cut_horizontal(a0, r, p, sz, q);
    if p.align == Align::Left(0) {
        assert(a1 == keep1(a0, (q.2, r.min.y as int, r.max.x as int, r.max.y as int)));
    } else {
        assert(a1 == keep1(a0, (r.min.x as int, r.min.y as int, q.0, r.max.y as int)));
    }
    assert(a1.len() <= 1);
    assert(cut_vertical(a1, r, p, sz, q) == a1);
    assert(step(parent, avs, p).0 == a1);
    assert(step(parent, avs, p).1.rect == out);
}

proof fn lemma_row_state(parent: Rectangle, ps: Seq<Position>, k: int)
    requires
        parent.wf(),
        0 <= k <= ps.len(),
        forall|i: int| 0 <= i < ps.len() ==> row_directive(parent, #[trigger] ps[i]),
    ensures
        row_state(parent, ps, k),
    decreases k,
{
    let rs = layout_rects(parent, ps);
    if k == 0 {
        assert(regions_after(parent, ps, 0) == initial(parent));
    } else {
        lemma_row_state(parent, ps, k - 1);
        let avs = regions_after(parent, ps, (k - 1) as nat);
        let p = ps[k - 1];
        let out = rs[k - 1];
        let next = regions_after(parent, ps, k as nat);
        assert(row_directive(parent, p));
        assert(out == step(parent, avs, p).1.rect);
        assert(next == step(parent, avs, p).0);
        assert(width_before(rs, k) == width_before(rs, k - 1) + out.w());
        assert(width_requested(ps, k) == width_requested(ps, k - 1) + fixed_width(p));
        if avs.len() == 0 {
            assert(out == starved_rect(parent));
            assert forall|j1: int, j2: int| 0 <= j1 < j2 < k implies !(#[trigger] rs[j1]).overlaps(#[trigger] rs[j2]) by {
                if j2 == k - 1 {
                    assert(!rs[j1].overlaps(out));
                }
            }
        } else {
            let r = avs[0];
            lemma_row_step(parent, avs, p);
            assert forall|j1: int, j2: int| 0 <= j1 < j2 < k implies !(#[trigger] rs[j1]).overlaps(#[trigger] rs[j2]) by {
                if j2 == k - 1 {
                    assert(rs[j1].max.x <= r.min.x || rs[j1].min.x >= r.max.x);
                }
            }
            if next.len() == 1 {
                let r2 = next[0];
                assert forall|j: int| 0 <= j < k implies (#[trigger] rs[j]).max.x <= r2.min.x || rs[j].min.x >= r2.max.x by {
                    if j < k - 1 {
                        assert(rs[j].max.x <= r.min.x || rs[j].min.x >= r.max.x);
                    }
                }
            }
        }
    }
}

/// Full-height boxes packed side by side from the left and the right: each lies in the parent, no two overlap, and
/// once the boxes before one have asked for (or been given) the parent's whole width, it gets
/// a rectangle without area.
pub proof fn law_row_packing(parent: Rectangle, ps: Seq<Position>)
    requires
        parent.wf(),
        forall|i: int| 0 <= i < ps.len() ==> row_directive(parent, #[trigger] ps[i]),
    ensures
        forall|i: int| 0 <= i < ps.len() ==> parent.contains(#[trigger] layout_rects(parent, ps)[i]),
        forall|i: int, j: int| 0 <= i < j < ps.len() ==> !(#[trigger] layout_rects(parent, ps)[i]).overlaps(
            #[trigger] layout_rects(parent, ps)[j]),
        forall|i: int| 0 <= i < ps.len() && width_requested(ps, i) >= parent.w()
            ==> !(#[trigger] layout_rects(parent, ps)[i]).has_area(),
        forall|i: int| 0 <= i < ps.len() && width_before(layout_rects(parent, ps), i) >= parent.w()
            ==> !(#[trigger] layout_rects(parent, ps)[i]).has_area(),
{
    lemma_row_state(parent, ps, ps.len() as int);
    assert forall|i: int| 0 <= i < ps.len() && (width_requested(ps, i) >= parent.w()
        || width_before(layout_rects(parent, ps), i) >= parent.w()) implies
        !(#[trigger] layout_rects(parent, ps)[i]).has_area() by {
        lemma_row_state(parent, ps, i);
        let avs = regions_after(parent, ps, i as nat);
        assert(layout_rects(parent, ps)[i] == step(parent, avs, ps[i]).1.rect);
        if avs.len() == 1 {
            lemma_row_step(parent, avs, ps[i]);
        }
    }
}

/// A box of the parent's full width and a non-negative fixed height, against the top or the bottom side,
/// without margins.
pub open spec fn column_directive(parent: Rectangle, p: Position) -> bool {
    &&& match p.pack {
        Pack::Fixed(f) => f.y >= 0 && f.x == parent.w(),
        _ => false,
    }
    &&& (p.align == Align::Left(0) || p.align == Align::Right(0))
    &&& (p.valign == VAlign::Top(0) || p.valign == VAlign::Bottom(0))
    &&& p.margin == zero_rect()
}

/// The fixed height that a directive asks for (zero for other policies).
pub open spec fn fixed_height(p: Position) -> int {
    match p.pack {
        Pack::Fixed(f) => f.y as int,
        _ => 0,
    }
}

/// Total height asked for by the first `i` directives.
pub open spec fn height_requested(ps: Seq<Position>, i: int) -> int
    decreases i,
{
    if i <= 0 {
        0
    } else {
        height_requested(ps, i - 1) + fixed_height(ps[i - 1])
    }
}

/// Total height of the first `i` rectangles.
pub open spec fn height_before(rs: Seq<Rectangle>, i: int) -> int
    decreases i,
{
    if i <= 0 {
        0
    } else {
        height_before(rs, i - 1) + rs[i - 1].h()
    }
}

/// The state of a column after `k` directives: at most one free region, a strip of full width
/// that the placed boxes do not enter, whose height is what the directives have not asked for;
/// placed boxes inside the parent and apart, none wider than asked.
spec fn column_state(parent: Rectangle, ps: Seq<Position>, k: int) -> bool {
    let avs = regions_after(parent, ps, k as nat);
    let rs = layout_rects(parent, ps);
    &&& avs.len() <= 1
    &&& height_before(rs, k) <= height_requested(ps, k)
    &&& avs.len() == 1 ==> {
        let r = avs[0];
        &&& r.min.x == parent.min.x && r.max.x == parent.max.x
        &&& parent.min.y <= r.min.y <= r.max.y <= parent.max.y
        &&& r.h() == parent.h() - height_requested(ps, k)
        &&& forall|j: int| 0 <= j < k ==> (#[trigger] rs[j]).max.y <= r.min.y || rs[j].min.y >= r.max.y
    }
    &&& forall|j: int| 0 <= j < k ==> parent.contains(#[trigger] rs[j])
    &&& forall|j1: int, j2: int| 0 <= j1 < j2 < k ==> !(#[trigger] rs[j1]).overlaps(#[trigger] rs[j2])
}

/// One full-width box placed in a single full-width strip.
proof fn lemma_column_step(parent: Rectangle, avs: Seq<Rectangle>, p: Position)
    requires
        parent.wf(),
        column_directive(parent, p),
        avs.len() == 1,
        avs[0].min.x == parent.min.x && avs[0].max.x == parent.max.x,
        parent.min.y <= avs[0].min.y <= avs[0].max.y <= parent.max.y,
    ensures
        ({
            let r = avs[0];
            let s = min_int(fixed_height(p), r.h());
            let (next, pl) = step(parent, avs, p);
            &&& r.min.y <= pl.rect.min.y && pl.rect.max.y <= r.max.y && pl.rect.h() == s
            &&& pl.rect.min.x == parent.min.x && pl.rect.max.x == parent.max.x
            &&& next.len() <= 1
            &&& next.len() == 1 ==> {
                &&& s < r.h()
                &&& next[0].min.x == parent.min.x && next[0].max.x == parent.max.x
                &&& r.min.y <= next[0].min.y <= next[0].max.y <= r.max.y
                &&& next[0].h() == r.h() - s
                &&& (pl.rect.max.y <= next[0].min.y || pl.rect.min.y >= next[0].max.y)
            }
        }),
{
    let r = avs[0];
    let s = min_int(fixed_height(p), r.h());
    lemma_chosen_in_range(avs, p);
    assert(chosen(avs, p) == 0);
    let c = inner_region(r, p);
    let sz = resolved_size(parent, p, c);
    assert(sz == (r.w(), s));
    let q = placed(p, c, sz);
    assert(q.0 == r.min.x && q.2 == r.max.x);
    assert(r.min.y <= q.1 && q.3 <= r.max.y && q.3 - q.1 == s);
    let out = no_negative(with_margin(q, p.margin));
    assert(out.min.x == q.0 && out.max.x == q.2 && out.min.y == q.1 && out.max.y == q.3);
    let a0 = avs.remove(0);
    assert(a0 =~= Seq::<Rectangle>::empty());
    let a1 = cut_horizontal(a0, r, p, sz, q);
    assert(a1 == a0);
    let a2 = cut_vertical(a1, r, p, sz, q);
    if p.valign == VAlign::Top(0) {
        assert(a2 == keep1(a1, (r.min.x as int, q.3, r.max.x as int, r.max.y as int)));
    } else {
        assert(a2 == keep1(a1, (r.min.x as int, r.min.y as int, r.max.x as int, q.1)));
    }
    assert(a2.len() <= 1);
    assert(step(parent, avs, p).0 == a2);
    assert(step(parent, avs, p).1.rect == out);
}

proof fn lemma_column_state(parent: Rectangle, ps: Seq<Position>, k: int)
    requires
        parent.wf(),
        0 <= k <= ps.len(),
        forall|i: int| 0 <= i < ps.len() ==> column_directive(parent, #[trigger] ps[i]),
    ensures
        column_state(parent, ps, k),
    decreases k,
{
    let rs = layout_rects(parent, ps);
    if k == 0 {
        assert(regions_after(parent, ps, 0) == initial(parent));
    } else {
        lemma_column_state(parent, ps, k - 1);
        let avs = regions_after(parent, ps, (k - 1) as nat);
        let p = ps[k - 1];
        let out = rs[k - 1];
        let next = regions_after(parent, ps, k as nat);
        assert(column_directive(parent, p));
        assert(out == step(parent, avs, p).1.rect);
        assert(next == step(parent, avs, p).0);
        assert(height_before(rs, k) == height_before(rs, k - 1) + out.h());
        assert(height_requested(ps, k) == height_requested(ps, k - 1) + fixed_height(p));
        if avs.len() == 0 {
            assert(out == starved_rect(parent));
            assert forall|j1: int, j2: int| 0 <= j1 < j2 < k implies !(#[trigger] rs[j1]).overlaps(#[trigger] rs[j2]) by {
                if j2 == k - 1 {
                    assert(!rs[j1].overlaps(out));
                }
            }
        } else {
            let r = avs[0];
            lemma_column_step(parent, avs, p);
            assert forall|j1: int, j2: int| 0 <= j1 < j2 < k implies !(#[trigger] rs[j1]).overlaps(#[trigger] rs[j2]) by {
                if j2 == k - 1 {
                    assert(rs[j1].max.y <= r.min.y || rs[j1].min.y >= r.max.y);
                }
            }
            if next.len() == 1 {
                let r2 = next[0];
                assert forall|j: int| 0 <= j < k implies (#[trigger] rs[j]).max.y <= r2.min.y || rs[j].min.y >= r2.max.y by {
                    if j < k - 1 {
                        assert(rs[j].max.y <= r.min.y || rs[j].min.y >= r.max.y);
                    }
                }
            }
        }
    }
}

/// Full-width boxes packed one above the other from the top and the bottom: each lies in the parent, no two overlap, and
/// once the boxes before one have asked for (or been given) the parent's whole height, it gets
/// a rectangle without area.
pub proof fn law_column_packing(parent: Rectangle, ps: Seq<Position>)
    requires
        parent.wf(),
        forall|i: int| 0 <= i < ps.len() ==> column_directive(parent, #[trigger] ps[i]),
    ensures
        forall|i: int| 0 <= i < ps.len() ==> parent.contains(#[trigger] layout_rects(parent, ps)[i]),
        forall|i: int, j: int| 0 <= i < j < ps.len() ==> !(#[trigger] layout_rects(parent, ps)[i]).overlaps(
            #[trigger] layout_rects(parent, ps)[j]),
        forall|i: int| 0 <= i < ps.len() && height_requested(ps, i) >= parent.h()
            ==> !(#[trigger] layout_rects(parent, ps)[i]).has_area(),
        forall|i: int| 0 <= i < ps.len() && height_before(layout_rects(parent, ps), i) >= parent.h()
            ==> !(#[trigger] layout_rects(parent, ps)[i]).has_area(),
{
    lemma_column_state(parent, ps, ps.len() as int);
    assert forall|i: int| 0 <= i < ps.len() && (height_requested(ps, i) >= parent.h()
        || height_before(layout_rects(parent, ps), i) >= parent.h()) implies
        !(#[trigger] layout_rects(parent, ps)[i]).has_area() by {
        lemma_column_state(parent, ps, i);
        let avs = regions_after(parent, ps, i as nat);
        assert(layout_rects(parent, ps)[i] == step(parent, avs, ps[i]).1.rect);
        if avs.len() == 1 {
            lemma_column_step(parent, avs, ps[i]);
        }
    }
}

/// The part of `r`'s height between `a` and `b`.
pub open spec fn span(r: Rectangle, a: int, b: int) -> Rectangle {
    Rectangle { min: Point { x: a as i32, y: r.min.y }, max: Point { x: b as i32, y: r.max.y } }
}

/// A full-height box of width `w` placed in a single full-height strip, from its left or right end.
proof fn lemma_strip_fixed(parent: Rectangle, avs: Seq<Rectangle>, p: Position, w: i32)
    requires
        parent.wf(),
        avs.len() == 1,
        avs[0].min.y == parent.min.y && avs[0].max.y == parent.max.y,
        avs[0].min.x < avs[0].max.x,
        0 < parent.h() <= i32::MAX,
        w >= 0,
        p.pack == Pack::Fixed(Point { x: w, y: parent.h() as i32 }),
        p.align == Align::Left(0) || p.align == Align::Right(0),
        p.valign == VAlign::Top(0),
        p.margin == zero_rect(),
    ensures
        ({
            let r = avs[0];
            let s = min_int(w as int, r.w());
            let (next, pl) = step(parent, avs, p);
            &&& p.align == Align::Left(0) ==> {
                &&& pl.rect == span(r, r.min.x as int, r.min.x + s)
                &&& next == (if s < r.w() { seq![span(r, r.min.x + s, r.max.x as int)] } else { seq![] })
            }
            &&& p.align == Align::Right(0) ==> {
                &&& pl.rect == span(r, r.max.x - s, r.max.x as int)
                &&& next == (if s < r.w() { seq![span(r, r.min.x as int, r.max.x - s)] } else { seq![] })
            }
        }),
{
    let r = avs[0];
    let s = min_int(w as int, r.w());
    lemma_chosen_in_range(avs, p);
    assert(chosen(avs, p) == 0);
    let c = inner_region(r, p);
    let sz = resolved_size(parent, p, c);
    assert(sz == (s, r.h()));
    let q = placed(p, c, sz);
    let a0 = avs.remove(0);
    assert(a0 =~= Seq::<Rectangle>::empty());
    let a1 = cut_horizontal(a0, r, p, sz, q);
    assert(cut_vertical(a1, r, p, sz, q) == a1);
    if p.align == Align::Left(0) {
        if s < r.w() {
            assert(a1 =~= seq![span(r, r.min.x + s, r.max.x as int)]);
        } else {
            assert(a1 =~= Seq::<Rectangle>::empty());
        }
    } else {
        if s < r.w() {
            assert(a1 =~= seq![span(r, r.min.x as int, r.max.x - s)]);
        } else {
            assert(a1 =~= Seq::<Rectangle>::empty());
        }
    }
}

/// A filled box takes the whole of a single free region, and leaves nothing.
proof fn lemma_strip_fill(parent: Rectangle, avs: Seq<Rectangle>, p: Position)
    requires
        avs.len() == 1,
        avs[0].has_area(),
        p == (Position { pack: Pack::Fill, margin: zero_rect(), align: Align::Left(0), valign: VAlign::Top(0) }),
    ensures
        step(parent, avs, p).1.rect == avs[0],
        step(parent, avs, p).0.len() == 0,
{
    lemma_chosen_in_range(avs, p);
    assert(chosen(avs, p) == 0);
    assert(avs.remove(0) =~= Seq::<Rectangle>::empty());
}

/// The `k`-th item of a bar, a full-height box of width `w`, taken from the strip between `a` and `b`.
proof fn lemma_bar_step(rect: Rectangle, ps: Seq<Position>, k: nat, a: int, b: int, w: i32, right: bool)
    requires
        rect.wf(),
        0 < rect.h() <= i32::MAX,
        k < ps.len(),
        rect.min.x <= a < b <= rect.max.x,
        regions_after(rect, ps, k) == seq![span(rect, a, b)],
        w >= 0,
        ps[k as int] == fixed_at(w, rect.h() as i32, if right { Align::Right(0) } else { Align::Left(0) }),
    ensures
        ({
            let s = min_int(w as int, b - a);
            &&& !right ==> {
                &&& layout_rects(rect, ps)[k as int] == span(rect, a, a + s)
                &&& regions_after(rect, ps, k + 1) == (if s < b - a { seq![span(rect, a + s, b)] } else { seq![] })
            }
            &&& right ==> {
                &&& layout_rects(rect, ps)[k as int] == span(rect, b - s, b)
                &&& regions_after(rect, ps, k + 1) == (if s < b - a { seq![span(rect, a, b - s)] } else { seq![] })
            }
        }),
{
    let avs = regions_after(rect, ps, k);
    lemma_strip_fixed(rect, avs, ps[k as int], w);
    assert(layout_rects(rect, ps)[k as int] == step(rect, avs, ps[k as int]).1.rect);
    assert(regions_after(rect, ps, k + 1) == step(rect, avs, ps[k as int]).0);
}

proof fn lemma_bar_positions(side: i32, clock_width: i32)
    ensures
        bar_positions(side, clock_width).len() == 6,
        bar_positions(side, clock_width)[0] == fixed_at(side, side, Align::Left(0)),
        bar_positions(side, clock_width)[1] == fixed_at(side, side, Align::Right(0)),
        bar_positions(side, clock_width)[2] == fixed_at(side, side, Align::Right(0)),
        bar_positions(side, clock_width)[3] == fixed_at(side, side, Align::Right(0)),
        bar_positions(side, clock_width)[4] == fixed_at(clock_width, side, Align::Right(0)),
        bar_positions(side, clock_width)[5] == (Position {
            pack: Pack::Fill,
            margin: zero_rect(),
            align: Align::Left(0),
            valign: VAlign::Top(0),
        }),
{
}

/// With room for its four squares and its clock, a bar of height `s` puts the root icon at its
/// left end, then the menu, the battery, the frontlight and the clock from its right end, and
/// the title in the space left between them.
pub proof fn law_bar_layout(rect: Rectangle, clock_width: i32)
    requires
        rect.wf(),
        rect.h() > 0,
        clock_width >= 0,
        rect.w() > 4 * rect.h() + clock_width,
    ensures
        ({
            let s = rect.h();
            let (x0, x1) = (rect.min.x as int, rect.max.x as int);
            layout_rects(rect, bar_positions(side_of(rect), clock_width)) == seq![
                span(rect, x0, x0 + s),
                span(rect, x1 - s, x1),
                span(rect, x1 - 2 * s, x1 - s),
                span(rect, x1 - 3 * s, x1 - 2 * s),
                span(rect, x1 - 3 * s - clock_width, x1 - 3 * s),
                span(rect, x0 + s, x1 - 3 * s - clock_width),
            ]
        }),
{
    let s = rect.h();
    let (x0, x1) = (rect.min.x as int, rect.max.x as int);
    let cw = clock_width as int;
    let side = side_of(rect);
    assert(side == s);
    let ps = bar_positions(side, clock_width);
    lemma_bar_positions(side, clock_width);
    let rs = layout_rects(rect, ps);
    assert(regions_after(rect, ps, 0) == seq![rect]);
    assert(rect == span(rect, x0, x1));
    lemma_bar_step(rect, ps, 0, x0, x1, side, false);
    lemma_bar_step(rect, ps, 1, x0 + s, x1, side, true);
    lemma_bar_step(rect, ps, 2, x0 + s, x1 - s, side, true);
    lemma_bar_step(rect, ps, 3, x0 + s, x1 - 2 * s, side, true);
    lemma_bar_step(rect, ps, 4, x0 + s, x1 - 3 * s, clock_width, true);
    let last = regions_after(rect, ps, 5);
    lemma_strip_fill(rect, last, ps[5]);
    assert(rs[5] == step(rect, last, ps[5]).1.rect);
    assert(rs =~= seq![
        span(rect, x0, x0 + s),
        span(rect, x1 - s, x1),
        span(rect, x1 - 2 * s, x1 - s),
        span(rect, x1 - 3 * s, x1 - 2 * s),
        span(rect, x1 - 3 * s - cw, x1 - 3 * s),
        span(rect, x0 + s, x1 - 3 * s - cw),
    ]);
}

/// No placement has a negative width or height.
pub proof fn law_no_negative_extent(parent: Rectangle, ps: Seq<Position>)
    requires
        parent.wf(),
    ensures
        forall|i: int| 0 <= i < ps.len() ==> (#[trigger] layout_rects(parent, ps)[i]).wf(),
{
    assert forall|i: int| 0 <= i < ps.len() implies (#[trigger] layout_rects(parent, ps)[i]).wf() by {
        assert(layout_rects(parent, ps)[i] == placement_at(parent, ps, i).rect);
    }
}

} // verus!
