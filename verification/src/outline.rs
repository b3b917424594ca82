//! Conversion of a glyph outline — a sequence of contours, each a sequence of
//! typed points — into a single multi-subpath curve structure.
//!
//! Each contour contributes one subpath. A contour whose first point is not
//! typed `Move` is closed: its subpath ends with a synthetic segment curving
//! back to the first point, followed by a `ClosePath`; a contour of exactly
//! one point emits only a `MoveTo`, degenerate but not an error. Off-curve
//! points are
//! buffered (at most two) and spent by the next on-curve point: zero pending
//! controls give a line, one a quadratic, two a cubic. `QCurve` points are
//! accepted but handled exactly like `Curve` points; true quadratic-spline
//! expansion is a known limitation.

use crate::geometry::{CurvePath, CurvePoint, PathEl, path_in_range};
use vstd::prelude::*;

verus! {

/// The type tag of an outline point.
#[derive(Clone, Copy, Debug, PartialEq, Eq, Structural)]
pub enum OutlinePointType {
    /// Starts an open contour; only valid as a contour's first point.
    Move,
    /// On-curve, reached by a straight segment.
    Line,
    /// On-curve, ends a cubic (or, with one control, quadratic) segment.
    Curve,
    /// On-curve, ends a quadratic segment; currently handled like `Curve`.
    QCurve,
    /// A Bézier control point, not on the curve.
    OffCurve,
}

/// One typed point of a contour.
#[derive(Clone, Copy, Debug, PartialEq, Eq, Structural)]
pub struct OutlinePoint {
    pub x: i32,
    pub y: i32,
    pub typ: OutlinePointType,
}

/// One closed or open sub-outline of a glyph.
#[derive(Clone, Debug)]
pub struct Contour {
    pub points: Vec<OutlinePoint>,
}

/// An ordered sequence of contours.
#[derive(Clone, Debug)]
pub struct Outline {
    pub contours: Vec<Contour>,
}

/// A glyph: a display name and, optionally, an outline.
#[derive(Clone, Debug)]
pub struct Glyph {
    pub name: String,
    pub outline: Option<Outline>,
}

/// What was wrong with a malformed contour point.
#[derive(Clone, Copy, Debug, PartialEq, Eq, Structural)]
pub enum PointFault {
    /// A third off-curve point was seen before an on-curve point spent the
    /// pending controls.
    TooManyOffCurves,
    /// A `Line` point directly followed an off-curve point.
    LineAfterOffCurve,
    /// A `Move` point appeared after the first point of its contour.
    UnexpectedMove,
}

/// A structured conversion error: the contour and point at fault.
#[derive(Clone, Copy, Debug, PartialEq, Eq, Structural)]
pub struct ConvertError {
    pub contour: usize,
    pub point: usize,
    pub fault: PointFault,
}

/// The coordinates of an outline point, widened for the curve structure.
pub open spec fn coord(p: OutlinePoint) -> CurvePoint {
    CurvePoint { x: p.x as i64, y: p.y as i64 }
}

/// The segment ending at `end`, spending 0, 1 or 2 pending control points.
pub open spec fn segment_el(controls: Seq<CurvePoint>, end: CurvePoint) -> PathEl {
    if controls.len() == 0 {
        PathEl::LineTo(end)
    } else if controls.len() == 1 {
        PathEl::QuadTo(controls[0], end)
    } else {
        PathEl::CurveTo(controls[0], controls[1], end)
    }
}

/// Walk the points of a contour from index `i`, carrying the pending
/// control-point buffer; yields the emitted elements and the controls still
/// pending at the end, or the index and kind of the first fault.
pub open spec fn walk(points: Seq<OutlinePoint>, i: int, controls: Seq<CurvePoint>) -> Result<
    (Seq<PathEl>, Seq<CurvePoint>),
    (int, PointFault),
>
    decreases points.len() - i,
{
    if i < 0 || i >= points.len() {
        Ok((Seq::empty(), controls))
    } else {
        let p = points[i];
        match p.typ {
            OutlinePointType::OffCurve => {
                if controls.len() >= 2 {
                    Err((i, PointFault::TooManyOffCurves))
                } else {
                    walk(points, i + 1, controls.push(coord(p)))
                }
            },
            OutlinePointType::Line => {
                if controls.len() > 0 {
                    Err((i, PointFault::LineAfterOffCurve))
                } else {
                    match walk(points, i + 1, Seq::empty()) {
                        Ok(rest) => Ok((seq![PathEl::LineTo(coord(p))] + rest.0, rest.1)),
                        Err(e) => Err(e),
                    }
                }
            },
            OutlinePointType::Curve => match walk(points, i + 1, Seq::empty()) {
                Ok(rest) => Ok((seq![segment_el(controls, coord(p))] + rest.0, rest.1)),
                Err(e) => Err(e),
            },
            OutlinePointType::QCurve => match walk(points, i + 1, Seq::empty()) {
                Ok(rest) => Ok((seq![segment_el(controls, coord(p))] + rest.0, rest.1)),
                Err(e) => Err(e),
            },
            OutlinePointType::Move => Err((i, PointFault::UnexpectedMove)),
        }
    }
}

/// The subpath a single contour contributes: a `MoveTo` at the first point,
/// the walked segments, and — when the contour is closed — the synthetic
/// closing segment back to the first point and a `ClosePath`. An empty
/// contour contributes nothing; a contour of exactly one point emits only
/// its `MoveTo`, degenerate but not an error; controls still pending when an
/// open contour ends are discarded.
pub open spec fn contour_elements(points: Seq<OutlinePoint>) -> Result<
    Seq<PathEl>,
    (int, PointFault),
> {
    if points.len() == 0 {
        Ok(Seq::empty())
    } else if points.len() == 1 {
        Ok(seq![PathEl::MoveTo(coord(points[0]))])
    } else {
        match walk(points, 1, Seq::empty()) {
            Ok(r) => {
                let opened = seq![PathEl::MoveTo(coord(points[0]))] + r.0;
                if points[0].typ is Move {
                    Ok(opened)
                } else {
                    Ok(opened + seq![segment_el(r.1, coord(points[0])), PathEl::ClosePath])
                }
            },
            Err(e) => Err(e),
        }
    }
}

/// The concatenation of the subpaths of the contours from index `i` on, or
/// the first conversion error.
pub open spec fn outline_elements_from(contours: Seq<Contour>, i: int) -> Result<
    Seq<PathEl>,
    ConvertError,
>
    decreases contours.len() - i,
{
    if i < 0 || i >= contours.len() {
        Ok(Seq::empty())
    } else {
        match contour_elements(contours[i].points@) {
            Err(e) => Err(
                ConvertError { contour: i as usize, point: e.0 as usize, fault: e.1 },
            ),
            Ok(els) => match outline_elements_from(contours, i + 1) {
                Ok(rest) => Ok(els + rest),
                Err(e) => Err(e),
            },
        }
    }
}

pub open spec fn outline_elements(contours: Seq<Contour>) -> Result<Seq<PathEl>, ConvertError> {
    outline_elements_from(contours, 0)
}

/// What converting a glyph yields: the outline's elements, or nothing for a
/// glyph without an outline.
pub open spec fn glyph_elements(g: Glyph) -> Result<Seq<PathEl>, ConvertError> {
    match g.outline {
        Some(o) => outline_elements(o.contours@),
        None => Ok(Seq::empty()),
    }
}

/// The pending control-point buffer: never more than two points.
#[derive(Clone, Copy, Debug)]
pub enum Controls {
    Zero,
    One(CurvePoint),
    Two(CurvePoint, CurvePoint),
}

impl View for Controls {
    type V = Seq<CurvePoint>;

    open spec fn view(&self) -> Seq<CurvePoint> {
        match *self {
            Controls::Zero => Seq::empty(),
            Controls::One(a) => seq![a],
            Controls::Two(a, b) => seq![a, b],
        }
    }
}

fn cpoint(p: OutlinePoint) -> (r: CurvePoint)
    ensures
        r == coord(p),
{
    CurvePoint { x: p.x as i64, y: p.y as i64 }
}

/// The segment ending at `end`, spending the buffered controls.
fn segment(controls: Controls, end: CurvePoint) -> (r: PathEl)
    ensures
        r == segment_el(controls@, end),
{
    match controls {
        Controls::Zero => PathEl::LineTo(end),
        Controls::One(a) => PathEl::QuadTo(a, end),
        Controls::Two(a, b) => PathEl::CurveTo(a, b, end),
    }
}

/// Convert one contour into the elements of its subpath, or report the index
/// and kind of the first malformed point.
pub fn convert_contour(points: &Vec<OutlinePoint>) -> (r: Result<
    Vec<PathEl>,
    (usize, PointFault),
>)
    ensures
        match r {
            Ok(els) => contour_elements(points@) == Ok::<Seq<PathEl>, (int, PointFault)>(els@)
                && path_in_range(els@),
            Err(e) => contour_elements(points@) == Err::<Seq<PathEl>, (int, PointFault)>(
                (e.0 as int, e.1),
            ),
        },
{
    let mut els: Vec<PathEl> = Vec::new();
    if points.len() == 0 {
        return Ok(els);
    }
    let first = points[0];
    els.push(PathEl::MoveTo(cpoint(first)));
    if points.len() == 1 {
        proof {
            assert(els@ =~= seq![PathEl::MoveTo(coord(first))]);
        }
        return Ok(els);
    }
    let mut controls = Controls::Zero;
    let mut idx: usize = 1;
    while idx < points.len()
        invariant
            1 <= idx <= points.len(),
            first == points@[0],
            els@.len() >= 1,
            els@[0] == PathEl::MoveTo(coord(first)),
            path_in_range(els@),
            forall|k: int| 0 <= k < controls@.len() ==> crate::geometry::point_in_range(
                #[trigger] controls@[k],
            ),
            match walk(points@, idx as int, controls@) {
                Ok(r) => walk(points@, 1, Seq::empty()) == Ok::<
                    (Seq<PathEl>, Seq<CurvePoint>),
                    (int, PointFault),
                >((els@.drop_first() + r.0, r.1)),
                Err(e) => walk(points@, 1, Seq::empty()) == Err::<
                    (Seq<PathEl>, Seq<CurvePoint>),
                    (int, PointFault),
                >(e),
            },
        decreases points.len() - idx,
    {
        let p = points[idx];
        let ghost prev_els = els@;
        let ghost prev_controls = controls@;
        match p.typ {
            OutlinePointType::OffCurve => {
                match controls {
                    Controls::Zero => {
                        controls = Controls::One(cpoint(p));
                    },
                    Controls::One(a) => {
                        controls = Controls::Two(a, cpoint(p));
                    },
                    Controls::Two(_, _) => {
                        return Err((idx, PointFault::TooManyOffCurves));
                    },
                }
                proof {
                    assert(controls@ =~= prev_controls.push(coord(p)));
                }
            },
            OutlinePointType::Line => {
                match controls {
                    Controls::Zero => {
                        els.push(PathEl::LineTo(cpoint(p)));
                        proof {
                            let emitted = seq![PathEl::LineTo(coord(p))];
                            assert(els@.drop_first() =~= prev_els.drop_first() + emitted);
                            let ghost w = walk(points@, idx as int + 1, Seq::empty());
                            if w is Ok {
                                assert(prev_els.drop_first() + (emitted + w->Ok_0.0)
                                    =~= els@.drop_first() + w->Ok_0.0);
                            }
                        }
                    },
                    _ => {
                        return Err((idx, PointFault::LineAfterOffCurve));
                    },
                }
            },
            OutlinePointType::Curve => {
                els.push(segment(controls, cpoint(p)));
                controls = Controls::Zero;
                proof {
                    let emitted = seq![segment_el(prev_controls, coord(p))];
                    assert(els@.drop_first() =~= prev_els.drop_first() + emitted);
                    let ghost w = walk(points@, idx as int + 1, Seq::empty());
                    if w is Ok {
                        assert(prev_els.drop_first() + (emitted + w->Ok_0.0) =~= els@.drop_first()
                            + w->Ok_0.0);
                    }
                }
            },
            OutlinePointType::QCurve => {
                els.push(segment(controls, cpoint(p)));
                controls = Controls::Zero;
                proof {
                    let emitted = seq![segment_el(prev_controls, coord(p))];
                    assert(els@.drop_first() =~= prev_els.drop_first() + emitted);
                    let ghost w = walk(points@, idx as int + 1, Seq::empty());
                    if w is Ok {
                        assert(prev_els.drop_first() + (emitted + w->Ok_0.0) =~= els@.drop_first()
                            + w->Ok_0.0);
                    }
                }
            },
            OutlinePointType::Move => {
                return Err((idx, PointFault::UnexpectedMove));
            },
        }
        idx += 1;
    }
    let ghost walked = els@;
    proof {
        assert(walk(points@, points@.len() as int, controls@) == Ok::<
            (Seq<PathEl>, Seq<CurvePoint>),
            (int, PointFault),
        >((Seq::empty(), controls@)));
        assert(walked.drop_first() + Seq::<PathEl>::empty() =~= walked.drop_first());
        assert(walked =~= seq![PathEl::MoveTo(coord(first))] + walked.drop_first());
    }
    if !matches!(first.typ, OutlinePointType::Move) {
        els.push(segment(controls, cpoint(first)));
        els.push(PathEl::ClosePath);
        proof {
            assert(els@ =~= (seq![PathEl::MoveTo(coord(first))] + walked.drop_first()) + seq![
                segment_el(controls@, coord(first)),
                PathEl::ClosePath,
            ]);
        }
    }
    Ok(els)
}

/// Convert a glyph's outline into a single curve structure, one subpath per
/// contour, or report the first malformed contour and point. A glyph without
/// an outline, or with an outline of zero contours, yields an empty
/// structure.
pub fn path_for_glyph(glyph: &Glyph) -> (r: Result<CurvePath, ConvertError>)
    ensures
        match r {
            Ok(path) => glyph_elements(*glyph) == Ok::<Seq<PathEl>, ConvertError>(path@)
                && path_in_range(path@),
            Err(e) => glyph_elements(*glyph) == Err::<Seq<PathEl>, ConvertError>(e),
        },
{
    let mut els: Vec<PathEl> = Vec::new();
    match &glyph.outline {
        None => Ok(CurvePath { elements: els }),
        Some(outline) => {
            let mut ci: usize = 0;
            while ci < outline.contours.len()
                invariant
                    ci <= outline.contours.len(),
                    glyph_elements(*glyph) == outline_elements(outline.contours@),
                    path_in_range(els@),
                    match outline_elements_from(outline.contours@, ci as int) {
                        Ok(rest) => outline_elements(outline.contours@) == Ok::<
                            Seq<PathEl>,
                            ConvertError,
                        >(els@ + rest),
                        Err(e) => outline_elements(outline.contours@) == Err::<
                            Seq<PathEl>,
                            ConvertError,
                        >(e),
                    },
                decreases outline.contours.len() - ci,
            {
                match convert_contour(&outline.contours[ci].points) {
                    Ok(mut cels) => {
                        let ghost prev = els@;
                        let ghost added = cels@;
                        els.append(&mut cels);
                        proof {
                            assert(path_in_range(els@)) by {
                                assert(forall|k: int|
                                    0 <= k < prev.len() ==> #[trigger] els@[k] == prev[k]);
                                assert(forall|k: int|
                                    prev.len() <= k < els@.len() ==> #[trigger] els@[k] == added[k
                                        - prev.len()]);
                            }
                            let ghost w = outline_elements_from(outline.contours@, ci as int + 1);
                            if w is Ok {
                                assert(prev + (added + w->Ok_0) =~= els@ + w->Ok_0);
                            }
                        }
                    },
                    Err(e) => {
                        proof {
                            assert(outline_elements_from(outline.contours@, ci as int) == Err::<
                                Seq<PathEl>,
                                ConvertError,
                            >(ConvertError { contour: ci, point: e.0, fault: e.1 }));
                        }
                        return Err(ConvertError { contour: ci, point: e.0, fault: e.1 });
                    },
                }
                ci += 1;
            }
            proof {
                assert(els@ + Seq::<PathEl>::empty() =~= els@);
            }
            Ok(CurvePath { elements: els })
        },
    }
}

/// Law: an outline with zero contours converts to an empty curve structure.
pub proof fn lemma_empty_outline(contours: Seq<Contour>)
    requires
        contours.len() == 0,
    ensures
        outline_elements(contours) == Ok::<Seq<PathEl>, ConvertError>(Seq::<PathEl>::empty()),
{
}

proof fn lemma_walk_all_lines(points: Seq<OutlinePoint>, i: int)
    requires
        1 <= i <= points.len(),
        forall|j: int| i <= j < points.len() ==> (#[trigger] points[j].typ) is Line,
    ensures
        walk(points, i, Seq::empty()) == Ok::<(Seq<PathEl>, Seq<CurvePoint>), (int, PointFault)>(
            (
                Seq::new((points.len() - i) as nat, |k: int| PathEl::LineTo(coord(points[i + k]))),
                Seq::<CurvePoint>::empty(),
            ),
        ),
    decreases points.len() - i,
{
    if i >= points.len() {
        assert(Seq::new(0, |k: int| PathEl::LineTo(coord(points[i + k]))) =~= Seq::<
            PathEl,
        >::empty());
    } else {
        lemma_walk_all_lines(points, i + 1);
        assert(seq![PathEl::LineTo(coord(points[i]))] + Seq::new(
            (points.len() - i - 1) as nat,
            |k: int| PathEl::LineTo(coord(points[i + 1 + k])),
        ) =~= Seq::new((points.len() - i) as nat, |k: int| PathEl::LineTo(coord(points[i + k]))));
    }
}

/// Law: a closed polygon contour — at least two points, every one typed
/// `Line` — converts to a `MoveTo` at the first point, a `LineTo` per
/// remaining point, one closing `LineTo` back to the first point, and a
/// `ClosePath`: two more elements than the contour has points. (A one-point
/// contour is degenerate and emits only its `MoveTo`.)
pub proof fn lemma_polygon_contour(points: Seq<OutlinePoint>)
    requires
        points.len() >= 2,
        forall|j: int| 0 <= j < points.len() ==> (#[trigger] points[j].typ) is Line,
    ensures
        contour_elements(points) == Ok::<Seq<PathEl>, (int, PointFault)>(
            seq![PathEl::MoveTo(coord(points[0]))] + Seq::new(
                (points.len() - 1) as nat,
                |k: int| PathEl::LineTo(coord(points[k + 1])),
            ) + seq![PathEl::LineTo(coord(points[0])), PathEl::ClosePath],
        ),
        contour_elements(points)->Ok_0.len() == points.len() + 2,
{
    lemma_walk_all_lines(points, 1);
    let lines = Seq::new((points.len() - 1) as nat, |k: int| PathEl::LineTo(coord(points[k + 1])));
    assert(Seq::new((points.len() - 1) as nat, |k: int| PathEl::LineTo(coord(points[1 + k])))
        =~= lines);
    assert(segment_el(Seq::empty(), coord(points[0])) == PathEl::LineTo(coord(points[0])));
}

/// The on-curve endpoint of a drawing primitive, if it has one.
pub open spec fn el_endpoint(el: PathEl) -> Option<CurvePoint> {
    match el {
        PathEl::MoveTo(p) => Some(p),
        PathEl::LineTo(p) => Some(p),
        PathEl::QuadTo(_, b) => Some(b),
        PathEl::CurveTo(_, _, c) => Some(c),
        PathEl::ClosePath => None,
    }
}

/// Law: a contour of two or more points whose first point is `Curve`-typed
/// is implicitly closed: whenever it converts successfully, the emitted
/// subpath ends with a `ClosePath` preceded by a segment whose endpoint is
/// exactly the first point's coordinates. (A one-point contour emits only
/// its `MoveTo` and has no closing segment.)
pub proof fn lemma_implicit_close_endpoint(points: Seq<OutlinePoint>, els: Seq<PathEl>)
    requires
        points.len() >= 2,
        points[0].typ is Curve,
        contour_elements(points) == Ok::<Seq<PathEl>, (int, PointFault)>(els),
    ensures
        els.len() >= 2,
        els[els.len() - 1] == PathEl::ClosePath,
        el_endpoint(els[els.len() - 2]) == Some(coord(points[0])),
{
    let w = walk(points, 1, Seq::empty());
    let r = w->Ok_0;
    let seg = segment_el(r.1, coord(points[0]));
    assert(els == (seq![PathEl::MoveTo(coord(points[0]))] + r.0) + seq![seg, PathEl::ClosePath]);
    assert(els[els.len() - 2] == seg);
    assert(els[els.len() - 1] == PathEl::ClosePath);
}

} // verus!
