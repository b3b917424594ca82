//! The edit session's view of paths: mutable point lists owned by an editing
//! session, read here to build curve structures and serializations.
//!
//! A session path's points carry no segment-type tags of their own: whether
//! an on-curve point ends a line or a curve segment is decided by a one-point
//! lookahead on its predecessor (wrapping from the last point to the first),
//! the same rule the interchange serializer uses for its labels.

use crate::geometry::{CurvePath, PathEl};
use crate::outline::{
    Contour, OutlinePoint, OutlinePointType, PointFault, contour_elements, convert_contour,
};
use vstd::prelude::*;

verus! {

/// The type tag of an editable path point.
#[derive(Clone, Copy, Debug, PartialEq, Eq, Structural)]
pub enum PathPointType {
    /// A point on the curve.
    OnCurve,
    /// A point on the curve whose tangents are forced continuous.
    OnCurveSmooth,
    /// A Bézier control point.
    OffCurve,
}

/// One point of an editable path.
#[derive(Clone, Copy, Debug, PartialEq, Eq, Structural)]
pub struct PathPoint {
    pub x: i32,
    pub y: i32,
    pub typ: PathPointType,
}

/// A path being edited: an ordered point list and a closed flag.
#[derive(Clone, Debug)]
pub struct EditablePath {
    pub points: Vec<PathPoint>,
    pub closed: bool,
}

/// An edit session: a glyph name and the paths being edited.
#[derive(Clone, Debug)]
pub struct EditSession {
    pub name: String,
    pub paths: Vec<EditablePath>,
}

/// The index of the predecessor of point `i`, wrapping from the first point
/// back to the last.
pub open spec fn prev_index(len: int, i: int) -> int {
    if i == 0 {
        len - 1
    } else {
        i - 1
    }
}

/// Whether the predecessor of point `i` (with wraparound) is off-curve.
pub open spec fn prev_is_off(points: Seq<PathPoint>, i: int) -> bool {
    points[prev_index(points.len() as int, i)].typ is OffCurve
}

/// The outline type tag a session path point takes when the path is read as
/// a contour: the first point of an open path starts it with `Move`; an
/// off-curve point stays off-curve; an on-curve point ends a curve segment
/// when its predecessor is off-curve and a line segment otherwise.
pub open spec fn contour_point_type(points: Seq<PathPoint>, closed: bool, i: int)
    -> OutlinePointType {
    if i == 0 && !closed {
        OutlinePointType::Move
    } else {
        match points[i].typ {
            PathPointType::OffCurve => OutlinePointType::OffCurve,
            PathPointType::OnCurve => if prev_is_off(points, i) {
                OutlinePointType::Curve
            } else {
                OutlinePointType::Line
            },
            PathPointType::OnCurveSmooth => if prev_is_off(points, i) {
                OutlinePointType::Curve
            } else {
                OutlinePointType::Line
            },
        }
    }
}

/// The contour a session path denotes.
pub open spec fn contour_of_path(p: EditablePath) -> Seq<OutlinePoint> {
    Seq::new(
        p.points@.len(),
        |i: int|
            OutlinePoint {
                x: p.points@[i].x,
                y: p.points@[i].y,
                typ: contour_point_type(p.points@, p.closed, i),
            },
    )
}

/// The curve structure a session path denotes: its contour, converted.
pub open spec fn bezier_elements(p: EditablePath) -> Result<Seq<PathEl>, (int, PointFault)> {
    contour_elements(contour_of_path(p))
}

impl EditablePath {
    /// Read this path as an outline contour, resolving each point's segment
    /// type by the wraparound lookahead rule.
    pub fn to_contour(&self) -> (r: Contour)
        ensures
            r.points@ == contour_of_path(*self),
    {
        let mut out: Vec<OutlinePoint> = Vec::new();
        let n = self.points.len();
        if n == 0 {
            proof {
                assert(out@ =~= contour_of_path(*self));
            }
            return Contour { points: out };
        }
        let mut prev_off: bool = matches!(self.points[n - 1].typ, PathPointType::OffCurve);
        let mut i: usize = 0;
        while i < n
            invariant
                0 <= i <= n,
                n == self.points@.len(),
                i < n ==> prev_off == prev_is_off(self.points@, i as int),
                out@ == contour_of_path(*self).take(i as int),
            decreases n - i,
        {
            let p = self.points[i];
            let typ = if i == 0 && !self.closed {
                OutlinePointType::Move
            } else {
                match p.typ {
                    PathPointType::OffCurve => OutlinePointType::OffCurve,
                    PathPointType::OnCurve => if prev_off {
                        OutlinePointType::Curve
                    } else {
                        OutlinePointType::Line
                    },
                    PathPointType::OnCurveSmooth => if prev_off {
                        OutlinePointType::Curve
                    } else {
                        OutlinePointType::Line
                    },
                }
            };
            out.push(OutlinePoint { x: p.x, y: p.y, typ });
            prev_off = matches!(p.typ, PathPointType::OffCurve);
            proof {
                assert(out@ =~= contour_of_path(*self).take(i as int + 1));
            }
            i += 1;
        }
        proof {
            assert(out@ =~= contour_of_path(*self));
        }
        Contour { points: out }
    }

    /// Build this path's curve structure, or report the index and kind of
    /// the first malformed point.
    pub fn bezier(&self) -> (r: Result<CurvePath, (usize, PointFault)>)
        ensures
            match r {
                Ok(path) => bezier_elements(*self) == Ok::<Seq<PathEl>, (int, PointFault)>(path@)
                    && crate::geometry::path_in_range(path@),
                Err(e) => bezier_elements(*self) == Err::<Seq<PathEl>, (int, PointFault)>(
                    (e.0 as int, e.1),
                ),
            },
    {
        let contour = self.to_contour();
        match convert_contour(&contour.points) {
            Ok(els) => Ok(CurvePath { elements: els }),
            Err(e) => Err(e),
        }
    }
}

} // verus!
