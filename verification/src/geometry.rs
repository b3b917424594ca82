//! The curve structure produced by outline conversion: a sequence of drawing
//! primitives (move / line / quadratic / cubic / close), together with the
//! coordinate transforms applied before code emission (vertical flip and
//! bounding-box re-origin) and the bounding-box computation they rely on.
//!
//! Coordinates are integers: source points carry 32-bit coordinates, and the
//! curve structure stores them widened to 64 bits so that the flip and the
//! translation never overflow.

use vstd::math::min;
use vstd::prelude::*;

verus! {

/// A point of a curve structure. Wide enough to hold any source coordinate
/// after a vertical flip and a bounding-box translation.
#[derive(Clone, Copy, Debug, PartialEq, Eq, Structural)]
pub struct CurvePoint {
    pub x: i64,
    pub y: i64,
}

/// One drawing primitive of a curve structure.
#[derive(Clone, Copy, Debug, PartialEq, Eq, Structural)]
pub enum PathEl {
    MoveTo(CurvePoint),
    LineTo(CurvePoint),
    QuadTo(CurvePoint, CurvePoint),
    CurveTo(CurvePoint, CurvePoint, CurvePoint),
    ClosePath,
}

/// A multi-subpath curve structure: an ordered sequence of drawing
/// primitives.
#[derive(Clone, Debug, PartialEq, Eq)]
pub struct CurvePath {
    pub elements: Vec<PathEl>,
}

impl View for CurvePath {
    type V = Seq<PathEl>;

    open spec fn view(&self) -> Seq<PathEl> {
        self.elements@
    }
}

impl CurvePath {
    /// An empty curve structure.
    pub fn new() -> (r: CurvePath)
        ensures
            r@ == Seq::<PathEl>::empty(),
    {
        CurvePath { elements: Vec::new() }
    }
}

/// The points an element carries: endpoints and control points, in order.
pub open spec fn el_points(el: PathEl) -> Seq<CurvePoint> {
    match el {
        PathEl::MoveTo(p) => seq![p],
        PathEl::LineTo(p) => seq![p],
        PathEl::QuadTo(a, b) => seq![a, b],
        PathEl::CurveTo(a, b, c) => seq![a, b, c],
        PathEl::ClosePath => seq![],
    }
}

/// All points of a curve structure, element by element.
pub open spec fn path_points(els: Seq<PathEl>) -> Seq<CurvePoint>
    decreases els.len(),
{
    if els.len() == 0 {
        Seq::empty()
    } else {
        el_points(els[0]) + path_points(els.drop_first())
    }
}

/// Every coordinate of a freshly converted curve structure comes from a
/// 32-bit source point, so it lies within this symmetric bound; the bound is
/// kept by the vertical flip.
pub open spec fn coord_in_range(v: int) -> bool {
    -0x8000_0000 <= v <= 0x8000_0000
}

pub open spec fn point_in_range(p: CurvePoint) -> bool {
    coord_in_range(p.x as int) && coord_in_range(p.y as int)
}

pub open spec fn el_in_range(el: PathEl) -> bool {
    match el {
        PathEl::MoveTo(p) => point_in_range(p),
        PathEl::LineTo(p) => point_in_range(p),
        PathEl::QuadTo(a, b) => point_in_range(a) && point_in_range(b),
        PathEl::CurveTo(a, b, c) => point_in_range(a) && point_in_range(b) && point_in_range(c),
        PathEl::ClosePath => true,
    }
}

pub open spec fn path_in_range(els: Seq<PathEl>) -> bool {
    forall|i: int| 0 <= i < els.len() ==> el_in_range(#[trigger] els[i])
}

pub proof fn lemma_path_points_in_range(els: Seq<PathEl>)
    requires
        path_in_range(els),
    ensures
        forall|j: int|
            0 <= j < path_points(els).len() ==> point_in_range(#[trigger] path_points(els)[j]),
    decreases els.len(),
{
    if els.len() > 0 {
        assert(path_in_range(els.drop_first())) by {
            assert(forall|i: int|
                0 <= i < els.drop_first().len() ==> #[trigger] els.drop_first()[i] == els[i + 1]);
        }
        lemma_path_points_in_range(els.drop_first());
        assert(el_in_range(els[0]));
        let head = el_points(els[0]);
        assert(forall|j: int| 0 <= j < head.len() ==> point_in_range(#[trigger] head[j]));
        assert(forall|j: int|
            0 <= j < path_points(els).len() ==> point_in_range(#[trigger] path_points(els)[j]))
            by {
            assert(forall|j: int|
                0 <= j < head.len() ==> #[trigger] path_points(els)[j] == head[j]);
            assert(forall|j: int|
                head.len() <= j < path_points(els).len() ==> #[trigger] path_points(els)[j]
                    == path_points(els.drop_first())[j - head.len()]);
        }
    }
}

pub open spec fn flip_point(p: CurvePoint) -> CurvePoint {
    CurvePoint { x: p.x, y: (-(p.y as int)) as i64 }
}

pub open spec fn flip_el(el: PathEl) -> PathEl {
    match el {
        PathEl::MoveTo(p) => PathEl::MoveTo(flip_point(p)),
        PathEl::LineTo(p) => PathEl::LineTo(flip_point(p)),
        PathEl::QuadTo(a, b) => PathEl::QuadTo(flip_point(a), flip_point(b)),
        PathEl::CurveTo(a, b, c) => PathEl::CurveTo(flip_point(a), flip_point(b), flip_point(c)),
        PathEl::ClosePath => PathEl::ClosePath,
    }
}

/// The vertical flip: glyph outlines are stored y-up, drawing code expects
/// y-down.
pub open spec fn flip_path(els: Seq<PathEl>) -> Seq<PathEl> {
    els.map(|i: int, el: PathEl| flip_el(el))
}

pub open spec fn translate_point(p: CurvePoint, dx: int, dy: int) -> CurvePoint {
    CurvePoint { x: (p.x + dx) as i64, y: (p.y + dy) as i64 }
}

pub open spec fn translate_el(el: PathEl, dx: int, dy: int) -> PathEl {
    match el {
        PathEl::MoveTo(p) => PathEl::MoveTo(translate_point(p, dx, dy)),
        PathEl::LineTo(p) => PathEl::LineTo(translate_point(p, dx, dy)),
        PathEl::QuadTo(a, b) => PathEl::QuadTo(
            translate_point(a, dx, dy),
            translate_point(b, dx, dy),
        ),
        PathEl::CurveTo(a, b, c) => PathEl::CurveTo(
            translate_point(a, dx, dy),
            translate_point(b, dx, dy),
            translate_point(c, dx, dy),
        ),
        PathEl::ClosePath => PathEl::ClosePath,
    }
}

pub open spec fn translate_path(els: Seq<PathEl>, dx: int, dy: int) -> Seq<PathEl> {
    els.map(|i: int, el: PathEl| translate_el(el, dx, dy))
}

/// The least x coordinate among a nonempty point sequence (0 for an empty
/// one, which no caller relies on).
pub open spec fn min_x_of(pts: Seq<CurvePoint>) -> int
    decreases pts.len(),
{
    if pts.len() == 0 {
        0
    } else if pts.len() == 1 {
        pts[0].x as int
    } else {
        min(pts[0].x as int, min_x_of(pts.drop_first()))
    }
}

/// The least y coordinate among a nonempty point sequence.
pub open spec fn min_y_of(pts: Seq<CurvePoint>) -> int
    decreases pts.len(),
{
    if pts.len() == 0 {
        0
    } else if pts.len() == 1 {
        pts[0].y as int
    } else {
        min(pts[0].y as int, min_y_of(pts.drop_first()))
    }
}

pub proof fn lemma_path_points_concat(a: Seq<PathEl>, b: Seq<PathEl>)
    ensures
        path_points(a + b) == path_points(a) + path_points(b),
    decreases a.len(),
{
    if a.len() == 0 {
        assert(a + b =~= b);
        assert(path_points(a) + path_points(b) =~= path_points(b));
    } else {
        assert((a + b).drop_first() =~= a.drop_first() + b);
        lemma_path_points_concat(a.drop_first(), b);
        assert(el_points(a[0]) + (path_points(a.drop_first()) + path_points(b)) =~= (el_points(
            a[0],
        ) + path_points(a.drop_first())) + path_points(b));
    }
}

pub proof fn lemma_min_x_bounds(pts: Seq<CurvePoint>)
    requires
        pts.len() > 0,
    ensures
        forall|i: int| 0 <= i < pts.len() ==> min_x_of(pts) <= #[trigger] pts[i].x as int,
        exists|i: int| 0 <= i < pts.len() && min_x_of(pts) == #[trigger] pts[i].x as int,
    decreases pts.len(),
{
    if pts.len() == 1 {
        assert(0 <= 0 < pts.len() && min_x_of(pts) == pts[0].x as int);
    } else {
        lemma_min_x_bounds(pts.drop_first());
        assert(forall|i: int|
            1 <= i < pts.len() ==> min_x_of(pts.drop_first()) <= #[trigger] pts[i].x as int) by {
            assert(forall|i: int|
                1 <= i < pts.len() ==> pts.drop_first()[i - 1] == #[trigger] pts[i]);
        }
        let j = choose|j: int|
            0 <= j < pts.drop_first().len() && min_x_of(pts.drop_first())
                == #[trigger] pts.drop_first()[j].x as int;
        if min_x_of(pts) == pts[0].x as int {
            assert(0 <= 0 < pts.len() && min_x_of(pts) == pts[0].x as int);
        } else {
            assert(pts.drop_first()[j] == pts[j + 1]);
            assert(0 <= j + 1 < pts.len() && min_x_of(pts) == pts[j + 1].x as int);
        }
    }
}

pub proof fn lemma_min_y_bounds(pts: Seq<CurvePoint>)
    requires
        pts.len() > 0,
    ensures
        forall|i: int| 0 <= i < pts.len() ==> min_y_of(pts) <= #[trigger] pts[i].y as int,
        exists|i: int| 0 <= i < pts.len() && min_y_of(pts) == #[trigger] pts[i].y as int,
    decreases pts.len(),
{
    if pts.len() == 1 {
        assert(0 <= 0 < pts.len() && min_y_of(pts) == pts[0].y as int);
    } else {
        lemma_min_y_bounds(pts.drop_first());
        assert(forall|i: int|
            1 <= i < pts.len() ==> min_y_of(pts.drop_first()) <= #[trigger] pts[i].y as int) by {
            assert(forall|i: int|
                1 <= i < pts.len() ==> pts.drop_first()[i - 1] == #[trigger] pts[i]);
        }
        let j = choose|j: int|
            0 <= j < pts.drop_first().len() && min_y_of(pts.drop_first())
                == #[trigger] pts.drop_first()[j].y as int;
        if min_y_of(pts) == pts[0].y as int {
            assert(0 <= 0 < pts.len() && min_y_of(pts) == pts[0].y as int);
        } else {
            assert(pts.drop_first()[j] == pts[j + 1]);
            assert(0 <= j + 1 < pts.len() && min_y_of(pts) == pts[j + 1].y as int);
        }
    }
}

pub proof fn lemma_min_x_concat(a: Seq<CurvePoint>, b: Seq<CurvePoint>)
    requires
        a.len() > 0,
        b.len() > 0,
    ensures
        min_x_of(a + b) == min(min_x_of(a), min_x_of(b)),
    decreases a.len(),
{
    if a.len() == 1 {
        assert((a + b).drop_first() =~= b);
        assert((a + b)[0] == a[0]);
    } else {
        assert((a + b).drop_first() =~= a.drop_first() + b);
        lemma_min_x_concat(a.drop_first(), b);
    }
}

pub proof fn lemma_min_y_concat(a: Seq<CurvePoint>, b: Seq<CurvePoint>)
    requires
        a.len() > 0,
        b.len() > 0,
    ensures
        min_y_of(a + b) == min(min_y_of(a), min_y_of(b)),
    decreases a.len(),
{
    if a.len() == 1 {
        assert((a + b).drop_first() =~= b);
        assert((a + b)[0] == a[0]);
    } else {
        assert((a + b).drop_first() =~= a.drop_first() + b);
        lemma_min_y_concat(a.drop_first(), b);
    }
}

pub proof fn lemma_flip_path_points(els: Seq<PathEl>)
    ensures
        path_points(flip_path(els)) == path_points(els).map(
            |i: int, p: CurvePoint| flip_point(p),
        ),
    decreases els.len(),
{
    let f = |i: int, p: CurvePoint| flip_point(p);
    if els.len() == 0 {
        assert(path_points(flip_path(els)) =~= path_points(els).map(f));
    } else {
        lemma_flip_path_points(els.drop_first());
        assert(flip_path(els).drop_first() =~= flip_path(els.drop_first()));
        assert(el_points(flip_el(els[0])) =~= el_points(els[0]).map(f));
        assert(el_points(els[0]).map(f) + path_points(els.drop_first()).map(f) =~= path_points(
            els,
        ).map(f)) by {
            assert(el_points(els[0]) + path_points(els.drop_first()) =~= path_points(els));
        }
    }
}

pub proof fn lemma_translate_path_points(els: Seq<PathEl>, dx: int, dy: int)
    ensures
        path_points(translate_path(els, dx, dy)) == path_points(els).map(
            |i: int, p: CurvePoint| translate_point(p, dx, dy),
        ),
    decreases els.len(),
{
    let f = |i: int, p: CurvePoint| translate_point(p, dx, dy);
    if els.len() == 0 {
        assert(path_points(translate_path(els, dx, dy)) =~= path_points(els).map(f));
    } else {
        lemma_translate_path_points(els.drop_first(), dx, dy);
        assert(translate_path(els, dx, dy).drop_first() =~= translate_path(
            els.drop_first(),
            dx,
            dy,
        ));
        assert(el_points(translate_el(els[0], dx, dy)) =~= el_points(els[0]).map(f));
        assert(el_points(els[0]).map(f) + path_points(els.drop_first()).map(f) =~= path_points(
            els,
        ).map(f)) by {
            assert(el_points(els[0]) + path_points(els.drop_first()) =~= path_points(els));
        }
    }
}

/// Law: flipping a path vertically and then translating it so that the
/// origin of its bounding box moves to (0, 0) yields a path whose bounding
/// box has its minimum corner exactly at (0, 0).
pub proof fn lemma_normalized_origin(els: Seq<PathEl>)
    requires
        path_in_range(els),
        path_points(els).len() > 0,
    ensures
        ({
            let f = flip_path(els);
            let ox = min_x_of(path_points(f));
            let oy = min_y_of(path_points(f));
            let t = translate_path(f, -ox, -oy);
            min_x_of(path_points(t)) == 0 && min_y_of(path_points(t)) == 0
        }),
{
    let f = flip_path(els);
    let ox = min_x_of(path_points(f));
    let oy = min_y_of(path_points(f));
    let t = translate_path(f, -ox, -oy);
    lemma_flip_path_points(els);
    lemma_translate_path_points(f, -ox, -oy);
    let pts = path_points(els);
    let fpts = path_points(f);
    let tpts = path_points(t);
    assert(fpts.len() == pts.len());
    lemma_path_points_in_range(els);
    assert(forall|i: int| 0 <= i < fpts.len() ==> point_in_range(#[trigger] fpts[i])) by {
        assert(forall|i: int|
            0 <= i < fpts.len() ==> #[trigger] fpts[i] == flip_point(pts[i]) && point_in_range(
                pts[i],
            ));
    }
    lemma_min_x_bounds(fpts);
    lemma_min_y_bounds(fpts);
    // The minimum is attained at some point, so it is within the coordinate
    // bound and the translation does not overflow.
    let jx = choose|j: int| 0 <= j < fpts.len() && ox == #[trigger] fpts[j].x as int;
    let jy = choose|j: int| 0 <= j < fpts.len() && oy == #[trigger] fpts[j].y as int;
    assert(coord_in_range(ox) && coord_in_range(oy));
    assert(forall|i: int|
        0 <= i < tpts.len() ==> #[trigger] tpts[i] == translate_point(fpts[i], -ox, -oy));
    assert(forall|i: int| 0 <= i < tpts.len() ==> 0 <= #[trigger] tpts[i].x as int);
    assert(forall|i: int| 0 <= i < tpts.len() ==> 0 <= #[trigger] tpts[i].y as int);
    lemma_min_x_bounds(tpts);
    lemma_min_y_bounds(tpts);
    assert(tpts[jx].x as int == 0);
    assert(tpts[jy].y as int == 0);
}

fn flip_pt(p: CurvePoint) -> (r: CurvePoint)
    requires
        point_in_range(p),
    ensures
        r == flip_point(p),
        point_in_range(r),
{
    CurvePoint { x: p.x, y: -p.y }
}

impl CurvePath {
    /// Flip the structure vertically: outlines are stored with an
    /// upward-increasing y axis, drawing code expects a downward-increasing
    /// one.
    pub fn flip_y(&self) -> (r: CurvePath)
        requires
            path_in_range(self@),
        ensures
            r@ == flip_path(self@),
            path_in_range(r@),
    {
        let mut out: Vec<PathEl> = Vec::new();
        let mut i: usize = 0;
        while i < self.elements.len()
            invariant
                i <= self.elements.len(),
                path_in_range(self.elements@),
                out@ == flip_path(self.elements@).take(i as int),
                path_in_range(out@),
            decreases self.elements.len() - i,
        {
            let el = self.elements[i];
            assert(el_in_range(el));
            let fe = match el {
                PathEl::MoveTo(p) => PathEl::MoveTo(flip_pt(p)),
                PathEl::LineTo(p) => PathEl::LineTo(flip_pt(p)),
                PathEl::QuadTo(a, b) => PathEl::QuadTo(flip_pt(a), flip_pt(b)),
                PathEl::CurveTo(a, b, c) => PathEl::CurveTo(flip_pt(a), flip_pt(b), flip_pt(c)),
                PathEl::ClosePath => PathEl::ClosePath,
            };
            assert(fe == flip_el(el));
            out.push(fe);
            proof {
                assert(out@ =~= flip_path(self.elements@).take(i as int + 1));
            }
            i += 1;
        }
        proof {
            assert(flip_path(self.elements@).take(self.elements@.len() as int) =~= flip_path(
                self.elements@,
            ));
        }
        CurvePath { elements: out }
    }

    /// Translate the structure by (dx, dy).
    pub fn translate(&self, dx: i64, dy: i64) -> (r: CurvePath)
        requires
            path_in_range(self@),
            coord_in_range(dx as int),
            coord_in_range(dy as int),
        ensures
            r@ == translate_path(self@, dx as int, dy as int),
    {
        let mut out: Vec<PathEl> = Vec::new();
        let mut i: usize = 0;
        while i < self.elements.len()
            invariant
                i <= self.elements.len(),
                path_in_range(self.elements@),
                coord_in_range(dx as int),
                coord_in_range(dy as int),
                out@ == translate_path(self.elements@, dx as int, dy as int).take(i as int),
            decreases self.elements.len() - i,
        {
            let el = self.elements[i];
            assert(el_in_range(el));
            let te = match el {
                PathEl::MoveTo(p) => PathEl::MoveTo(translate_pt(p, dx, dy)),
                PathEl::LineTo(p) => PathEl::LineTo(translate_pt(p, dx, dy)),
                PathEl::QuadTo(a, b) => PathEl::QuadTo(
                    translate_pt(a, dx, dy),
                    translate_pt(b, dx, dy),
                ),
                PathEl::CurveTo(a, b, c) => PathEl::CurveTo(
                    translate_pt(a, dx, dy),
                    translate_pt(b, dx, dy),
                    translate_pt(c, dx, dy),
                ),
                PathEl::ClosePath => PathEl::ClosePath,
            };
            assert(te == translate_el(el, dx as int, dy as int));
            out.push(te);
            proof {
                assert(out@ =~= translate_path(self.elements@, dx as int, dy as int).take(
                    i as int + 1,
                ));
            }
            i += 1;
        }
        proof {
            assert(translate_path(self.elements@, dx as int, dy as int).take(
                self.elements@.len() as int,
            ) =~= translate_path(self.elements@, dx as int, dy as int));
        }
        CurvePath { elements: out }
    }

    /// The minimum corner of the structure's bounding box: the least x and
    /// least y over all points (endpoints and control points), or nothing if
    /// the structure carries no point at all.
    pub fn bbox_origin(&self) -> (r: Option<(i64, i64)>)
        ensures
            match r {
                Some(o) => path_points(self@).len() > 0 && o.0 as int == min_x_of(
                    path_points(self@),
                ) && o.1 as int == min_y_of(path_points(self@)),
                None => path_points(self@).len() == 0,
            },
    {
        let mut cur: Option<(i64, i64)> = None;
        let ghost mut pts: Seq<CurvePoint> = Seq::empty();
        let mut i: usize = 0;
        while i < self.elements.len()
            invariant
                i <= self.elements.len(),
                pts == path_points(self.elements@.take(i as int)),
                match cur {
                    Some(o) => pts.len() > 0 && o.0 as int == min_x_of(pts) && o.1 as int
                        == min_y_of(pts),
                    None => pts.len() == 0,
                },
            decreases self.elements.len() - i,
        {
            let el = self.elements[i];
            match el {
                PathEl::MoveTo(p) => {
                    cur = fold_point(cur, p, Ghost(pts));
                    proof {
                        pts = pts.push(p);
                    }
                },
                PathEl::LineTo(p) => {
                    cur = fold_point(cur, p, Ghost(pts));
                    proof {
                        pts = pts.push(p);
                    }
                },
                PathEl::QuadTo(a, b) => {
                    cur = fold_point(cur, a, Ghost(pts));
                    proof {
                        pts = pts.push(a);
                    }
                    cur = fold_point(cur, b, Ghost(pts));
                    proof {
                        pts = pts.push(b);
                    }
                },
                PathEl::CurveTo(a, b, c) => {
                    cur = fold_point(cur, a, Ghost(pts));
                    proof {
                        pts = pts.push(a);
                    }
                    cur = fold_point(cur, b, Ghost(pts));
                    proof {
                        pts = pts.push(b);
                    }
                    cur = fold_point(cur, c, Ghost(pts));
                    proof {
                        pts = pts.push(c);
                    }
                },
                PathEl::ClosePath => {},
            }
            proof {
                let prefix = self.elements@.take(i as int);
                assert(self.elements@.take(i as int + 1) =~= prefix + seq![el]);
                lemma_path_points_concat(prefix, seq![el]);
                assert(path_points(seq![el]) =~= el_points(el)) by {
                    assert(seq![el][0] == el);
                    assert(seq![el].drop_first() =~= Seq::<PathEl>::empty());
                    assert(path_points(Seq::<PathEl>::empty()) =~= Seq::<CurvePoint>::empty());
                    assert(el_points(el) + Seq::<CurvePoint>::empty() =~= el_points(el));
                }
                assert(pts =~= path_points(prefix) + el_points(el));
            }
            i += 1;
        }
        proof {
            assert(self.elements@.take(self.elements@.len() as int) =~= self.elements@);
        }
        cur
    }
}

fn translate_pt(p: CurvePoint, dx: i64, dy: i64) -> (r: CurvePoint)
    requires
        point_in_range(p),
        coord_in_range(dx as int),
        coord_in_range(dy as int),
    ensures
        r == translate_point(p, dx as int, dy as int),
{
    CurvePoint { x: p.x + dx, y: p.y + dy }
}

fn min2(a: i64, b: i64) -> (r: i64)
    ensures
        r as int == min(a as int, b as int),
{
    if a < b {
        a
    } else {
        b
    }
}

/// Fold one more point into the running bounding-box minimum.
fn fold_point(cur: Option<(i64, i64)>, p: CurvePoint, Ghost(pts): Ghost<Seq<CurvePoint>>) -> (r:
    Option<(i64, i64)>)
    requires
        match cur {
            Some(o) => pts.len() > 0 && o.0 as int == min_x_of(pts) && o.1 as int == min_y_of(pts),
            None => pts.len() == 0,
        },
    ensures
        ({
            let np = pts.push(p);
            &&& r matches Some(o)
            &&& ({
                let o = r->Some_0;
                o.0 as int == min_x_of(np) && o.1 as int == min_y_of(np)
            })
        }),
{
    proof {
        assert(pts.push(p) =~= pts + seq![p]);
        assert(seq![p].drop_first() =~= Seq::<CurvePoint>::empty());
        if pts.len() > 0 {
            lemma_min_x_concat(pts, seq![p]);
            lemma_min_y_concat(pts, seq![p]);
        }
    }
    match cur {
        None => Some((p.x, p.y)),
        Some((mx, my)) => Some((min2(mx, p.x), min2(my, p.y))),
    }
}

} // verus!
