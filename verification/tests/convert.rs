use glyphpath::geometry::{CurvePoint, PathEl};
use glyphpath::outline::{
    Contour, Glyph, Outline, OutlinePoint, OutlinePointType, PointFault, path_for_glyph,
};

fn op(x: i32, y: i32, typ: OutlinePointType) -> OutlinePoint {
    OutlinePoint { x, y, typ }
}

fn cp(x: i64, y: i64) -> CurvePoint {
    CurvePoint { x, y }
}

fn glyph_of(contours: Vec<Contour>) -> Glyph {
    Glyph { name: String::from("test"), outline: Some(Outline { contours }) }
}

#[test]
fn empty_outline_yields_empty_path() {
    let glyph = glyph_of(Vec::new());
    let path = path_for_glyph(&glyph).unwrap();
    assert_eq!(path.elements.len(), 0);
}

#[test]
fn missing_outline_yields_empty_path() {
    let glyph = Glyph { name: String::from("test"), outline: None };
    let path = path_for_glyph(&glyph).unwrap();
    assert_eq!(path.elements.len(), 0);
}

#[test]
fn square_polygon_converts_exactly() {
    let contour = Contour {
        points: vec![
            op(0, 0, OutlinePointType::Line),
            op(10, 0, OutlinePointType::Line),
            op(10, 10, OutlinePointType::Line),
            op(0, 10, OutlinePointType::Line),
        ],
    };
    let path = path_for_glyph(&glyph_of(vec![contour])).unwrap();
    assert_eq!(
        path.elements,
        vec![
            PathEl::MoveTo(cp(0, 0)),
            PathEl::LineTo(cp(10, 0)),
            PathEl::LineTo(cp(10, 10)),
            PathEl::LineTo(cp(0, 10)),
            PathEl::LineTo(cp(0, 0)),
            PathEl::ClosePath,
        ]
    );
}

#[test]
fn polygon_element_count_is_point_count_plus_two() {
    let contour = Contour {
        points: vec![
            op(0, 0, OutlinePointType::Line),
            op(4, 0, OutlinePointType::Line),
            op(4, 3, OutlinePointType::Line),
            op(2, 7, OutlinePointType::Line),
            op(0, 3, OutlinePointType::Line),
        ],
    };
    let n = contour.points.len();
    let path = path_for_glyph(&glyph_of(vec![contour])).unwrap();
    assert_eq!(path.elements.len(), n + 2);
}

#[test]
fn curve_first_point_closes_back_to_start() {
    let contour = Contour {
        points: vec![
            op(0, 0, OutlinePointType::Curve),
            op(0, 10, OutlinePointType::OffCurve),
            op(10, 10, OutlinePointType::OffCurve),
            op(10, 0, OutlinePointType::Curve),
        ],
    };
    let path = path_for_glyph(&glyph_of(vec![contour])).unwrap();
    let n = path.elements.len();
    assert_eq!(path.elements[n - 1], PathEl::ClosePath);
    // The closing segment ends exactly at the first point's coordinates.
    assert_eq!(path.elements[n - 2], PathEl::LineTo(cp(0, 0)));
}

#[test]
fn pending_controls_close_with_a_curve() {
    let contour = Contour {
        points: vec![
            op(10, 0, OutlinePointType::Curve),
            op(10, 10, OutlinePointType::OffCurve),
            op(0, 10, OutlinePointType::OffCurve),
        ],
    };
    let path = path_for_glyph(&glyph_of(vec![contour])).unwrap();
    assert_eq!(
        path.elements,
        vec![
            PathEl::MoveTo(cp(10, 0)),
            PathEl::CurveTo(cp(10, 10), cp(0, 10), cp(10, 0)),
            PathEl::ClosePath,
        ]
    );
}

#[test]
fn one_control_gives_quadratic() {
    let contour = Contour {
        points: vec![
            op(0, 0, OutlinePointType::Line),
            op(5, 10, OutlinePointType::OffCurve),
            op(10, 0, OutlinePointType::Curve),
        ],
    };
    let path = path_for_glyph(&glyph_of(vec![contour])).unwrap();
    assert_eq!(
        path.elements,
        vec![
            PathEl::MoveTo(cp(0, 0)),
            PathEl::QuadTo(cp(5, 10), cp(10, 0)),
            PathEl::LineTo(cp(0, 0)),
            PathEl::ClosePath,
        ]
    );
}

#[test]
fn qcurve_is_handled_like_curve() {
    let contour = Contour {
        points: vec![
            op(0, 0, OutlinePointType::Line),
            op(5, 10, OutlinePointType::OffCurve),
            op(10, 0, OutlinePointType::QCurve),
        ],
    };
    let path = path_for_glyph(&glyph_of(vec![contour])).unwrap();
    assert_eq!(path.elements[1], PathEl::QuadTo(cp(5, 10), cp(10, 0)));
}

#[test]
fn open_contour_gets_no_closing_segment() {
    let contour = Contour {
        points: vec![
            op(0, 0, OutlinePointType::Move),
            op(10, 0, OutlinePointType::Line),
            op(20, 5, OutlinePointType::Line),
        ],
    };
    let path = path_for_glyph(&glyph_of(vec![contour])).unwrap();
    assert_eq!(
        path.elements,
        vec![
            PathEl::MoveTo(cp(0, 0)),
            PathEl::LineTo(cp(10, 0)),
            PathEl::LineTo(cp(20, 5)),
        ]
    );
}

#[test]
fn single_move_point_emits_only_move() {
    let contour = Contour { points: vec![op(3, 4, OutlinePointType::Move)] };
    let path = path_for_glyph(&glyph_of(vec![contour])).unwrap();
    assert_eq!(path.elements, vec![PathEl::MoveTo(cp(3, 4))]);
}

#[test]
fn single_on_curve_point_emits_only_move() {
    // Degenerate one-point contour: no closing segment, no ClosePath, no
    // error, whatever the point's type.
    let contour = Contour { points: vec![op(3, 4, OutlinePointType::Curve)] };
    let path = path_for_glyph(&glyph_of(vec![contour])).unwrap();
    assert_eq!(path.elements, vec![PathEl::MoveTo(cp(3, 4))]);
    let line = Contour { points: vec![op(-2, 9, OutlinePointType::Line)] };
    let path = path_for_glyph(&glyph_of(vec![line])).unwrap();
    assert_eq!(path.elements, vec![PathEl::MoveTo(cp(-2, 9))]);
}

#[test]
fn empty_contour_contributes_nothing() {
    let empty = Contour { points: Vec::new() };
    let square = Contour {
        points: vec![
            op(0, 0, OutlinePointType::Line),
            op(1, 0, OutlinePointType::Line),
            op(0, 1, OutlinePointType::Line),
        ],
    };
    let path = path_for_glyph(&glyph_of(vec![empty, square])).unwrap();
    assert_eq!(path.elements.len(), 5);
}

#[test]
fn third_off_curve_reports_fault_and_index() {
    let contour = Contour {
        points: vec![
            op(0, 0, OutlinePointType::Line),
            op(1, 1, OutlinePointType::OffCurve),
            op(2, 2, OutlinePointType::OffCurve),
            op(3, 3, OutlinePointType::OffCurve),
            op(4, 4, OutlinePointType::Curve),
        ],
    };
    let err = path_for_glyph(&glyph_of(vec![contour])).unwrap_err();
    assert_eq!(err.contour, 0);
    assert_eq!(err.point, 3);
    assert_eq!(err.fault, PointFault::TooManyOffCurves);
}

#[test]
fn line_after_off_curve_reports_fault() {
    let contour = Contour {
        points: vec![
            op(0, 0, OutlinePointType::Line),
            op(1, 1, OutlinePointType::OffCurve),
            op(2, 2, OutlinePointType::Line),
        ],
    };
    let err = path_for_glyph(&glyph_of(vec![contour])).unwrap_err();
    assert_eq!(err.point, 2);
    assert_eq!(err.fault, PointFault::LineAfterOffCurve);
}

#[test]
fn move_after_start_reports_fault() {
    let contour = Contour {
        points: vec![op(0, 0, OutlinePointType::Line), op(1, 1, OutlinePointType::Move)],
    };
    let err = path_for_glyph(&glyph_of(vec![contour])).unwrap_err();
    assert_eq!(err.point, 1);
    assert_eq!(err.fault, PointFault::UnexpectedMove);
}

#[test]
fn error_names_the_failing_contour() {
    let good = Contour {
        points: vec![
            op(0, 0, OutlinePointType::Line),
            op(1, 0, OutlinePointType::Line),
            op(0, 1, OutlinePointType::Line),
        ],
    };
    let bad = Contour {
        points: vec![op(0, 0, OutlinePointType::Line), op(1, 1, OutlinePointType::Move)],
    };
    let err = path_for_glyph(&glyph_of(vec![good, bad])).unwrap_err();
    assert_eq!(err.contour, 1);
    assert_eq!(err.point, 1);
    assert_eq!(err.fault, PointFault::UnexpectedMove);
}
