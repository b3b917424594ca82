use glyphpath::geometry::{CurvePath, CurvePoint, PathEl};

fn cp(x: i64, y: i64) -> CurvePoint {
    CurvePoint { x, y }
}

#[test]
fn bbox_of_empty_path_is_none() {
    let path = CurvePath::new();
    assert_eq!(path.bbox_origin(), None);
}

#[test]
fn bbox_covers_control_points() {
    let path = CurvePath {
        elements: vec![
            PathEl::MoveTo(cp(3, 5)),
            PathEl::QuadTo(cp(-4, 7), cp(6, -2)),
            PathEl::ClosePath,
        ],
    };
    assert_eq!(path.bbox_origin(), Some((-4, -2)));
}

#[test]
fn flip_negates_y_only() {
    let path = CurvePath {
        elements: vec![PathEl::MoveTo(cp(3, 5)), PathEl::LineTo(cp(-7, -11))],
    };
    let flipped = path.flip_y();
    assert_eq!(
        flipped.elements,
        vec![PathEl::MoveTo(cp(3, -5)), PathEl::LineTo(cp(-7, 11))]
    );
}

#[test]
fn translate_shifts_every_point() {
    let path = CurvePath {
        elements: vec![PathEl::MoveTo(cp(1, 2)), PathEl::CurveTo(cp(3, 4), cp(5, 6), cp(7, 8))],
    };
    let moved = path.translate(10, -20);
    assert_eq!(
        moved.elements,
        vec![
            PathEl::MoveTo(cp(11, -18)),
            PathEl::CurveTo(cp(13, -16), cp(15, -14), cp(17, -12)),
        ]
    );
}

#[test]
fn flip_then_reorigin_puts_bbox_at_zero() {
    let path = CurvePath {
        elements: vec![
            PathEl::MoveTo(cp(3, 5)),
            PathEl::LineTo(cp(10, 20)),
            PathEl::QuadTo(cp(-4, 7), cp(6, -2)),
            PathEl::ClosePath,
        ],
    };
    let flipped = path.flip_y();
    let (ox, oy) = flipped.bbox_origin().unwrap();
    let moved = flipped.translate(-ox, -oy);
    assert_eq!(moved.bbox_origin(), Some((0, 0)));
}
