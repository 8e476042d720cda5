//! The layout engine: places an ordered list of directives inside a parent rectangle,
//! keeping track of the regions that are still free.
//!
//! Every coordinate of a produced rectangle saturates at the bounds of `i32`.
use vstd::prelude::*;
use crate::geom::{Point, Rectangle, pt, rect_of, min_int, rect_from, clamp_i32};
use crate::pack::{Align, VAlign, Pack, Position};

verus! {

/// What became of one directive.
#[derive(Clone, Copy, Debug, PartialEq, Eq, Structural)]
pub enum Outcome {
    /// Placed with the size that its policy asked for.
    Fitted,
    /// A fixed size that did not fit the region: `granted` is the size it got.
    Clamped { requested: Point, granted: Point },
    /// No free region was left; the rectangle is empty.
    Starved,
}

/// The rectangle given to one child, and how it was obtained.
#[derive(Clone, Copy, Debug, PartialEq, Eq, Structural)]
pub struct Placement {
    pub rect: Rectangle,
    pub outcome: Outcome,
}

/// The ways of ranking the free regions.
#[derive(Clone, Copy, Debug, PartialEq, Eq, Structural)]
pub enum Criterion {
    Widest,
    Highest,
    Leftmost,
    Rightmost,
    Topmost,
    Bottommost,
}

/// A corner-wise box over unbounded integers: `(x0, y0, x1, y1)`.
pub type Quad = (int, int, int, int);

/// Outer margin kept free on each side horizontally.
pub open spec fn outer_h(a: Align) -> int {
    match a {
        Align::Left(h) => h as int,
        Align::Right(h) => h as int,
        Align::Center => 0,
    }
}

/// Outer margin kept free above and below.
pub open spec fn outer_v(a: VAlign) -> int {
    match a {
        VAlign::Top(v) => v as int,
        VAlign::Bottom(v) => v as int,
        VAlign::Center => 0,
    }
}

/// The quantity that a criterion maximises.
pub open spec fn score(c: Criterion, r: Rectangle) -> int {
    match c {
        Criterion::Widest => r.w(),
        Criterion::Highest => r.h(),
        Criterion::Leftmost => -(r.min.x as int),
        Criterion::Rightmost => r.max.x as int,
        Criterion::Topmost => -(r.min.y as int),
        Criterion::Bottommost => r.max.y as int,
    }
}

/// Index of the first region with the highest score.
pub open spec fn best(avs: Seq<Rectangle>, c: Criterion) -> int
    decreases avs.len(),
{
    if avs.len() <= 1 {
        0
    } else {
        let i = best(avs.drop_last(), c);
        if score(c, avs[i]) < score(c, avs.last()) {
            avs.len() - 1
        } else {
            i
        }
    }
}

/// A region shrunk by the directive's outer margins.
pub open spec fn inner_region(r: Rectangle, p: Position) -> Quad {
    (
        r.min.x + outer_h(p.align),
        r.min.y + outer_v(p.valign),
        r.max.x - outer_h(p.align),
        r.max.y - outer_v(p.valign),
    )
}

/// The region that the horizontal alignment asks for.
pub open spec fn aligned_choice(avs: Seq<Rectangle>, p: Position) -> int {
    match p.align {
        Align::Left(_) => best(avs, Criterion::Leftmost),
        Align::Right(_) => best(avs, Criterion::Rightmost),
        Align::Center => best(avs, Criterion::Widest),
    }
}

/// A fixed size larger than the (shrunk) region on either axis.
pub open spec fn too_big(f: Point, c: Quad) -> bool {
    f.x > c.2 - c.0 || f.y > c.3 - c.1
}

/// The region chosen for a directive: the aligned one, or the widest where a fixed size
/// does not fit the aligned one.
pub open spec fn chosen(avs: Seq<Rectangle>, p: Position) -> int {
    let base = aligned_choice(avs, p);
    match p.pack {
        Pack::Fixed(f) => if too_big(f, inner_region(avs[base], p)) {
            best(avs, Criterion::Widest)
        } else {
            base
        },
        _ => base,
    }
}

/// `pc` percent of `len`, rounded down.
pub open spec fn percent_of(len: int, pc: u32) -> int {
    len * pc / 100
}

/// Size given by the policy inside the shrunk region `c`.
pub open spec fn resolved_size(parent: Rectangle, p: Position, c: Quad) -> (int, int) {
    match p.pack {
        Pack::Fixed(f) => (min_int(f.x as int, c.2 - c.0), min_int(f.y as int, c.3 - c.1)),
        Pack::Percent(fx, fy) => (percent_of(parent.w(), fx), percent_of(parent.h(), fy)),
        Pack::Fill => (c.2 - c.0, c.3 - c.1),
    }
}

/// Half, rounded toward zero.
pub open spec fn half(v: int) -> int {
    if v >= 0 {
        v / 2
    } else {
        -((-v) / 2)
    }
}

/// The box of size `s` placed in `c` as the alignments say, before the inner margin.
pub open spec fn placed(p: Position, c: Quad, s: (int, int)) -> Quad {
    let x0 = match p.align {
        Align::Left(_) => c.0,
        Align::Right(_) => c.2 - s.0,
        Align::Center => c.0 + half(c.2 - c.0) - half(s.0),
    };
    let y0 = match p.valign {
        VAlign::Top(_) => c.1,
        VAlign::Bottom(_) => c.3 - s.1,
        VAlign::Center => c.1 + half(c.3 - c.1) - half(s.1),
    };
    (x0, y0, x0 + s.0, y0 + s.1)
}

/// The placed box with the inner margin subtracted corner by corner.
pub open spec fn with_margin(q: Quad, m: Rectangle) -> Rectangle {
    rect_of(q.0 - m.min.x, q.1 - m.min.y, q.2 - m.max.x, q.3 - m.max.y)
}

/// The rectangle with a negative width or height brought to zero, keeping its top-left corner.
pub open spec fn no_negative(r: Rectangle) -> Rectangle {
    Rectangle {
        min: r.min,
        max: Point {
            x: if r.max.x < r.min.x { r.min.x } else { r.max.x },
            y: if r.max.y < r.min.y { r.min.y } else { r.max.y },
        },
    }
}

/// Appends the fragment when it has positive area once saturated.
pub open spec fn keep1(avs: Seq<Rectangle>, f: Quad) -> Seq<Rectangle> {
    let r = rect_of(f.0, f.1, f.2, f.3);
    if r.has_area() {
        avs.push(r)
    } else {
        avs
    }
}

/// Fragments of region `r` left beside the placed box `q`, along the horizontal axis.
pub open spec fn cut_horizontal(
    avs: Seq<Rectangle>,
    r: Rectangle,
    p: Position,
    s: (int, int),
    q: Quad,
) -> Seq<Rectangle> {
    let h = outer_h(p.align);
    match p.align {
        Align::Left(_) => keep1(avs, (r.min.x + s.0 + 2 * h, r.min.y as int, r.max.x as int, r.max.y as int)),
        Align::Right(_) => keep1(avs, (r.min.x as int, r.min.y as int, r.max.x - (s.0 + 2 * h), r.max.y as int)),
        Align::Center => keep1(
            keep1(avs, (r.min.x as int, r.min.y as int, q.0, r.max.y as int)),
            (q.2, r.min.y as int, r.max.x as int, r.max.y as int),
        ),
    }
}

/// Fragments of region `r` left above and below the placed box `q`.
pub open spec fn cut_vertical(
    avs: Seq<Rectangle>,
    r: Rectangle,
    p: Position,
    s: (int, int),
    q: Quad,
) -> Seq<Rectangle> {
    let v = outer_v(p.valign);
    match p.valign {
        VAlign::Top(_) => keep1(avs, (r.min.x as int, r.min.y + s.1 + 2 * v, r.max.x as int, r.max.y as int)),
        VAlign::Bottom(_) => keep1(avs, (r.min.x as int, r.min.y as int, r.max.x as int, r.max.y - (s.1 + 2 * v))),
        VAlign::Center => keep1(
            keep1(avs, (q.0, r.min.y as int, q.2, q.1)),
            (q.0, q.3, q.2, r.max.y as int),
        ),
    }
}

/// Whether a fixed size had to be narrowed to the region `c`.
pub open spec fn outcome_of(p: Position, c: Quad, s: (int, int)) -> Outcome {
    match p.pack {
        Pack::Fixed(f) => if too_big(f, c) {
            Outcome::Clamped { requested: f, granted: pt(s.0, s.1) }
        } else {
            Outcome::Fitted
        },
        _ => Outcome::Fitted,
    }
}

/// The empty rectangle given to a directive that found no free region.
pub open spec fn starved_rect(parent: Rectangle) -> Rectangle {
    Rectangle { min: parent.min, max: parent.min }
}

/// One directive placed among the free regions `avs`: the regions that are left, and the placement.
pub open spec fn step(parent: Rectangle, avs: Seq<Rectangle>, p: Position) -> (Seq<Rectangle>, Placement) {
    if avs.len() == 0 {
        (avs, Placement { rect: starved_rect(parent), outcome: Outcome::Starved })
    } else {
        let i = chosen(avs, p);
        let r = avs[i];
        let c = inner_region(r, p);
        let s = resolved_size(parent, p, c);
        let q = placed(p, c, s);
        (
            cut_vertical(cut_horizontal(avs.remove(i), r, p, s, q), r, p, s, q),
            Placement { rect: no_negative(with_margin(q, p.margin)), outcome: outcome_of(p, c, s) },
        )
    }
}

/// The free regions before any directive: the whole parent.
pub open spec fn initial(parent: Rectangle) -> Seq<Rectangle> {
    seq![parent]
}

/// The free regions once the first `k` directives are placed.
pub open spec fn regions_after(parent: Rectangle, ps: Seq<Position>, k: nat) -> Seq<Rectangle>
    decreases k,
{
    if k == 0 {
        initial(parent)
    } else {
        step(parent, regions_after(parent, ps, (k - 1) as nat), ps[k - 1]).0
    }
}

/// The placement of the `i`-th directive.
pub open spec fn placement_at(parent: Rectangle, ps: Seq<Position>, i: int) -> Placement {
    step(parent, regions_after(parent, ps, i as nat), ps[i]).1
}

/// The placements of all directives, in their order.
pub open spec fn layout(parent: Rectangle, ps: Seq<Position>) -> Seq<Placement> {
    Seq::new(ps.len(), |i: int| placement_at(parent, ps, i))
}

/// The rectangles of all directives, in their order.
pub open spec fn layout_rects(parent: Rectangle, ps: Seq<Position>) -> Seq<Rectangle> {
    Seq::new(ps.len(), |i: int| placement_at(parent, ps, i).rect)
}

/// `best` is the first index of highest score.
pub proof fn lemma_best(avs: Seq<Rectangle>, c: Criterion)
    requires
        avs.len() > 0,
    ensures
        0 <= best(avs, c) < avs.len(),
        forall|j: int| 0 <= j < avs.len() ==> score(c, #[trigger] avs[j]) <= score(c, avs[best(avs, c)]),
        forall|j: int| 0 <= j < best(avs, c) ==> score(c, #[trigger] avs[j]) < score(c, avs[best(avs, c)]),
    decreases avs.len(),
{
    if avs.len() > 1 {
        let pre = avs.drop_last();
        lemma_best(pre, c);
        assert forall|j: int| 0 <= j < pre.len() implies pre[j] == avs[j] by {}
    }
}

/// The best index of each criterion over a set of free regions.
#[derive(Clone, Copy, Debug)]
pub struct Candidates {
    pub widest: usize,
    pub highest: usize,
    pub leftmost: usize,
    pub rightmost: usize,
    pub topmost: usize,
    pub bottommost: usize,
}

impl Candidates {
    pub open spec fn of(self, c: Criterion) -> int {
        match c {
            Criterion::Widest => self.widest as int,
            Criterion::Highest => self.highest as int,
            Criterion::Leftmost => self.leftmost as int,
            Criterion::Rightmost => self.rightmost as int,
            Criterion::Topmost => self.topmost as int,
            Criterion::Bottommost => self.bottommost as int,
        }
    }
}

proof fn lemma_best_extend(avs: Seq<Rectangle>, i: int, c: Criterion)
    requires
        0 < i < avs.len(),
    ensures
        best(avs.subrange(0, i + 1), c) == (if score(c, avs[best(avs.subrange(0, i), c)]) < score(c, avs[i]) {
            i
        } else {
            best(avs.subrange(0, i), c)
        }),
{
    let pre = avs.subrange(0, i);
    let cur = avs.subrange(0, i + 1);
    assert(cur.drop_last() =~= pre);
    lemma_best(pre, c);
}

proof fn lemma_scan_step(avs: Seq<Rectangle>, i: int, c: Criterion, k: int)
    requires
        0 < i < avs.len(),
        k == best(avs.subrange(0, i), c),
    ensures
        0 <= k < i,
        best(avs.subrange(0, i + 1), c) == (if score(c, avs[k]) < score(c, avs[i]) {
            i
        } else {
            k
        }),
{
    lemma_best(avs.subrange(0, i), c);
    lemma_best_extend(avs, i, c);
}

/// Scans the free regions once and ranks them by every criterion.
pub fn scan(avs: &Vec<Rectangle>) -> (r: Candidates)
    requires
        avs.len() > 0,
    ensures
        forall|c: Criterion| r.of(c) == #[trigger] best(avs@, c),
{
    let mut r = Candidates { widest: 0, highest: 0, leftmost: 0, rightmost: 0, topmost: 0, bottommost: 0 };
    let mut i: usize = 1;
    proof {
        assert forall|c: Criterion| r.of(c) == #[trigger] best(avs@.subrange(0, 1), c) by {}
    }
    while i < avs.len()
        invariant
            1 <= i <= avs.len(),
            forall|c: Criterion| r.of(c) == #[trigger] best(avs@.subrange(0, i as int), c),
        decreases avs.len() - i,
    {
        proof {
            lemma_scan_step(avs@, i as int, Criterion::Widest, r.widest as int);
            lemma_scan_step(avs@, i as int, Criterion::Highest, r.highest as int);
            lemma_scan_step(avs@, i as int, Criterion::Leftmost, r.leftmost as int);
            lemma_scan_step(avs@, i as int, Criterion::Rightmost, r.rightmost as int);
            lemma_scan_step(avs@, i as int, Criterion::Topmost, r.topmost as int);
            lemma_scan_step(avs@, i as int, Criterion::Bottommost, r.bottommost as int);
        }
        let a = &avs[i];
        if avs[r.widest].width() < a.width() {
            r.widest = i;
        }
        if avs[r.highest].height() < a.height() {
            r.highest = i;
        }
        if a.min.x < avs[r.leftmost].min.x {
            r.leftmost = i;
        }
        if avs[r.rightmost].max.x < a.max.x {
            r.rightmost = i;
        }
        if a.min.y < avs[r.topmost].min.y {
            r.topmost = i;
        }
        if avs[r.bottommost].max.y < a.max.y {
            r.bottommost = i;
        }
        proof {
            assert forall|c: Criterion| r.of(c) == #[trigger] best(avs@.subrange(0, i + 1), c) by {
                match c {
                    Criterion::Widest => {},
                    Criterion::Highest => {},
                    Criterion::Leftmost => {},
                    Criterion::Rightmost => {},
                    Criterion::Topmost => {},
                    Criterion::Bottommost => {},
                }
            }
        }
        i = i + 1;
    }
    proof {
        assert(avs@.subrange(0, avs@.len() as int) =~= avs@);
    }
    r
}

/// Half, rounded toward zero.
pub(crate) fn half_of(v: i64) -> (r: i64)
    requires
        v > i64::MIN,
    ensures
        r == half(v as int),
{
    if v >= 0 {
        v / 2
    } else {
        -((-v) / 2)
    }
}

/// `pc` percent of a non-negative length.
fn percent_len(len: i64, pc: u32) -> (r: i64)
    requires
        0 <= len <= u32::MAX,
    ensures
        r == percent_of(len as int, pc),
        0 <= r < 0x0400_0000_0000_0000,
{
    let l = len as u64;
    let p = pc as u64;
    proof {
        assert(l * p <= 0xFFFF_FFFFu64 * 0xFFFF_FFFFu64) by (nonlinear_arith)
            requires
                l <= 0xFFFF_FFFFu64,
                p <= 0xFFFF_FFFFu64,
        ;
        assert(0 <= l * p) by (nonlinear_arith)
            requires
                0 <= l,
                0 <= p,
        ;
    }
    ((l * p) / 100) as i64
}

/// The smaller of two values.
fn min_i64(a: i64, b: i64) -> (r: i64)
    ensures
        r == min_int(a as int, b as int),
{
    if a <= b {
        a
    } else {
        b
    }
}

/// The outer margins of a directive, horizontal then vertical.
fn outer_margins(p: &Position) -> (r: (i64, i64))
    ensures
        r.0 == outer_h(p.align),
        r.1 == outer_v(p.valign),
{
    let h: i64 = match p.align {
        Align::Left(h) => h as i64,
        Align::Right(h) => h as i64,
        Align::Center => 0,
    };
    let v: i64 = match p.valign {
        VAlign::Top(v) => v as i64,
        VAlign::Bottom(v) => v as i64,
        VAlign::Center => 0,
    };
    (h, v)
}

fn no_negative_exec(r: Rectangle) -> (o: Rectangle)
    ensures
        o == no_negative(r),
{
    Rectangle {
        min: r.min,
        max: Point {
            x: if r.max.x < r.min.x { r.min.x } else { r.max.x },
            y: if r.max.y < r.min.y { r.min.y } else { r.max.y },
        },
    }
}

/// Adds the fragment to the free regions when it has positive area once saturated.
fn push_kept(avs: &mut Vec<Rectangle>, x0: i64, y0: i64, x1: i64, y1: i64)
    ensures
        final(avs)@ == keep1(old(avs)@, (x0 as int, y0 as int, x1 as int, y1 as int)),
{
    let r = rect_from(x0, y0, x1, y1);
    if r.width() > 0 && r.height() > 0 {
        avs.push(r);
    }
}

/// Index of the region chosen for `p` among non-empty free regions.
fn choose_region(avs: &Vec<Rectangle>, p: &Position) -> (r: usize)
    requires
        avs.len() > 0,
    ensures
        r == chosen(avs@, *p),
        r < avs.len(),
{
    let cands = scan(avs);
    let (h, v) = outer_margins(p);
    proof {
        assert(cands.of(Criterion::Leftmost) == best(avs@, Criterion::Leftmost));
        assert(cands.of(Criterion::Rightmost) == best(avs@, Criterion::Rightmost));
        assert(cands.of(Criterion::Widest) == best(avs@, Criterion::Widest));
        lemma_best(avs@, Criterion::Leftmost);
        lemma_best(avs@, Criterion::Rightmost);
        lemma_best(avs@, Criterion::Widest);
    }
    let base = match p.align {
        Align::Left(_) => cands.leftmost,
        Align::Right(_) => cands.rightmost,
        Align::Center => cands.widest,
    };
    if let Pack::Fixed(f) = p.pack {
        let b = &avs[base];
        if f.x as i64 > b.width() - 2 * h || f.y as i64 > b.height() - 2 * v {
            return cands.widest;
        }
    }
    base
}

/// Bound on every size that `resolve_size` gives.
pub open spec fn size_bound() -> int {
    0x0400_0000_0000_0000
}

/// The size and outcome of `p` in region `r`.
fn resolve_size(parent: &Rectangle, r: &Rectangle, p: &Position) -> (res: (i64, i64, Outcome))
    requires
        parent.wf(),
    ensures
        (res.0 as int, res.1 as int) == resolved_size(*parent, *p, inner_region(*r, *p)),
        res.2 == outcome_of(*p, inner_region(*r, *p), (res.0 as int, res.1 as int)),
        -size_bound() < res.0 < size_bound(),
        -size_bound() < res.1 < size_bound(),
{
    let (h, v) = outer_margins(p);
    let cw = r.width() - 2 * h;
    let ch = r.height() - 2 * v;
    match p.pack {
        Pack::Fixed(f) => {
            let sx = min_i64(f.x as i64, cw);
            let sy = min_i64(f.y as i64, ch);
            let outcome = if f.x as i64 > cw || f.y as i64 > ch {
                Outcome::Clamped { requested: f, granted: Point { x: clamp_i32(sx), y: clamp_i32(sy) } }
            } else {
                Outcome::Fitted
            };
            (sx, sy, outcome)
        },
        Pack::Percent(fx, fy) => (percent_len(parent.width(), fx), percent_len(parent.height(), fy), Outcome::Fitted),
        Pack::Fill => (cw, ch, Outcome::Fitted),
    }
}

/// The box of size `(sx, sy)` placed in region `r` as `p` says, before the inner margin.
fn place_box(r: &Rectangle, p: &Position, sx: i64, sy: i64) -> (q: (i64, i64, i64, i64))
    requires
        -size_bound() < sx < size_bound(),
        -size_bound() < sy < size_bound(),
    ensures
        (q.0 as int, q.1 as int, q.2 as int, q.3 as int) == placed(*p, inner_region(*r, *p), (sx as int, sy as int)),
{
    let (h, v) = outer_margins(p);
    let cx0 = r.min.x as i64 + h;
    let cy0 = r.min.y as i64 + v;
    let cx1 = r.max.x as i64 - h;
    let cy1 = r.max.y as i64 - v;
    let qx0 = match p.align {
        Align::Left(_) => cx0,
        Align::Right(_) => cx1 - sx,
        Align::Center => cx0 + half_of(cx1 - cx0) - half_of(sx),
    };
    let qy0 = match p.valign {
        VAlign::Top(_) => cy0,
        VAlign::Bottom(_) => cy1 - sy,
        VAlign::Center => cy0 + half_of(cy1 - cy0) - half_of(sy),
    };
    (qx0, qy0, qx0 + sx, qy0 + sy)
}

/// Adds to the free regions what is left of region `r` around the placed box `q`.
fn cut_region(avs: &mut Vec<Rectangle>, r: &Rectangle, p: &Position, sx: i64, sy: i64, q: (i64, i64, i64, i64))
    requires
        -size_bound() < sx < size_bound(),
        -size_bound() < sy < size_bound(),
    ensures
        final(avs)@ == cut_vertical(
            cut_horizontal(old(avs)@, *r, *p, (sx as int, sy as int), (q.0 as int, q.1 as int, q.2 as int, q.3 as int)),
            *r,
            *p,
            (sx as int, sy as int),
            (q.0 as int, q.1 as int, q.2 as int, q.3 as int),
        ),
{
    let (h, v) = outer_margins(p);
    match p.align {
        Align::Left(_) => push_kept(avs, r.min.x as i64 + sx + 2 * h, r.min.y as i64, r.max.x as i64, r.max.y as i64),
        Align::Right(_) => push_kept(avs, r.min.x as i64, r.min.y as i64, r.max.x as i64 - (sx + 2 * h), r.max.y as i64),
        Align::Center => {
            push_kept(avs, r.min.x as i64, r.min.y as i64, q.0, r.max.y as i64);
            push_kept(avs, q.2, r.min.y as i64, r.max.x as i64, r.max.y as i64);
        },
    }
    match p.valign {
        VAlign::Top(_) => push_kept(avs, r.min.x as i64, r.min.y as i64 + sy + 2 * v, r.max.x as i64, r.max.y as i64),
        VAlign::Bottom(_) => push_kept(avs, r.min.x as i64, r.min.y as i64, r.max.x as i64, r.max.y as i64 - (sy + 2 * v)),
        VAlign::Center => {
            push_kept(avs, q.0, r.min.y as i64, q.2, q.1);
            push_kept(avs, q.0, q.3, q.2, r.max.y as i64);
        },
    }
}

/// Picks the free region for `p`, places it there, and replaces the region by what is left of it.
pub fn place_next(parent: &Rectangle, avs: &mut Vec<Rectangle>, p: &Position) -> (pl: Placement)
    requires
        parent.wf(),
    ensures
        (final(avs)@, pl) == step(*parent, old(avs)@, *p),
{
    if avs.len() == 0 {
        return Placement { rect: Rectangle { min: parent.min, max: parent.min }, outcome: Outcome::Starved };
    }
    let idx = choose_region(avs, p);
    let r = avs[idx];
    let (sx, sy, outcome) = resolve_size(parent, &r, p);
    let q = place_box(&r, p, sx, sy);
    let m = p.margin;
    let rect = no_negative_exec(
        rect_from(q.0 - m.min.x as i64, q.1 - m.min.y as i64, q.2 - m.max.x as i64, q.3 - m.max.y as i64),
    );
    avs.remove(idx);
    cut_region(avs, &r, p, sx, sy, q);
    Placement { rect, outcome }
}

/// Places every directive in order inside `parent`; one placement per directive.
pub fn compute_placements(parent: &Rectangle, positions: &Vec<Position>) -> (r: Vec<Placement>)
    requires
        parent.wf(),
    ensures
        r@ == layout(*parent, positions@),
{
    let mut avs: Vec<Rectangle> = Vec::new();
    avs.push(*parent);
    proof {
        assert(avs@ =~= initial(*parent));
    }
    let mut out: Vec<Placement> = Vec::new();
    let mut k: usize = 0;
    while k < positions.len()
        invariant
            k <= positions.len(),
            parent.wf(),
            avs@ == regions_after(*parent, positions@, k as nat),
            out@.len() == k,
            forall|j: int| 0 <= j < k ==> out@[j] == #[trigger] placement_at(*parent, positions@, j),
        decreases positions.len() - k,
    {
        let pl = place_next(parent, &mut avs, &positions[k]);
        out.push(pl);
        k = k + 1;
    }
    proof {
        assert(out@ =~= layout(*parent, positions@));
    }
    out
}

/// The rectangles of the placements, in order.
pub fn rects_of(pls: &Vec<Placement>) -> (r: Vec<Rectangle>)
    ensures
        r@ == Seq::new(pls@.len(), |i: int| pls@[i].rect),
{
    let mut out: Vec<Rectangle> = Vec::new();
    let mut k: usize = 0;
    while k < pls.len()
        invariant
            k <= pls.len(),
            out@.len() == k,
            forall|j: int| 0 <= j < k ==> out@[j] == #[trigger] pls@[j].rect,
        decreases pls.len() - k,
    {
        out.push(pls[k].rect);
        k = k + 1;
    }
    proof {
        assert(out@ =~= Seq::new(pls@.len(), |i: int| pls@[i].rect));
    }
    out
}

/// The rectangles of `compute_placements`, one per directive.
pub fn compute_rects(parent: &Rectangle, positions: &Vec<Position>) -> (r: Vec<Rectangle>)
    requires
        parent.wf(),
    ensures
        r@ == layout_rects(*parent, positions@),
{
    let pls = compute_placements(parent, positions);
    let r = rects_of(&pls);
    proof {
        assert(r@ =~= layout_rects(*parent, positions@));
    }
    r
}

} // verus!
