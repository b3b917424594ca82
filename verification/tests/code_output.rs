use glyphpath::code::make_code_string;
use glyphpath::outline::PointFault;
use glyphpath::session::{EditSession, EditablePath, PathPoint, PathPointType};

fn on(x: i32, y: i32) -> PathPoint {
    PathPoint { x, y, typ: PathPointType::OnCurve }
}

fn off(x: i32, y: i32) -> PathPoint {
    PathPoint { x, y, typ: PathPointType::OffCurve }
}

fn session_of(paths: Vec<EditablePath>) -> EditSession {
    EditSession { name: String::from("glyph"), paths }
}

#[test]
fn empty_session_code_is_none() {
    let session = session_of(Vec::new());
    assert_eq!(make_code_string(&session).unwrap(), None);
}

#[test]
fn square_code_string_exact() {
    let square = EditablePath {
        points: vec![on(0, 0), on(10, 0), on(10, 10), on(0, 10)],
        closed: true,
    };
    let code = make_code_string(&session_of(vec![square])).unwrap().unwrap();
    let expected = "let mut bez = BezPath::new();\n\
                    \n\
                    bez.move_to((0.0, 10.0));\n\
                    bez.line_to((10.0, 10.0));\n\
                    bez.line_to((10.0, 0.0));\n\
                    bez.line_to((0.0, 0.0));\n\
                    bez.line_to((0.0, 10.0));\n\
                    bez.close_path();\n";
    assert_eq!(code, expected);
}

#[test]
fn curve_statement_uses_both_controls() {
    let path = EditablePath {
        points: vec![on(0, 0), off(0, 10), off(10, 10), on(10, 0)],
        closed: true,
    };
    let code = make_code_string(&session_of(vec![path])).unwrap().unwrap();
    assert!(code.contains("bez.curve_to((0.0, 0.0), (10.0, 0.0), (10.0, 10.0));\n"));
}

#[test]
fn each_path_is_preceded_by_a_blank_line() {
    let tri = EditablePath {
        points: vec![on(0, 0), on(4, 0), on(0, 3)],
        closed: true,
    };
    let code = make_code_string(&session_of(vec![tri.clone(), tri])).unwrap().unwrap();
    assert_eq!(code.matches("\n\nbez.move_to").count(), 2);
}

#[test]
fn path_without_points_contributes_blank_line() {
    let empty = EditablePath { points: Vec::new(), closed: false };
    let code = make_code_string(&session_of(vec![empty])).unwrap().unwrap();
    assert_eq!(code, "let mut bez = BezPath::new();\n\n");
}

#[test]
fn multi_digit_coordinates_format_exactly() {
    let path = EditablePath { points: vec![on(0, 0), on(987, 654)], closed: false };
    let code = make_code_string(&session_of(vec![path])).unwrap().unwrap();
    let expected = "let mut bez = BezPath::new();\n\
                    \n\
                    bez.move_to((0.0, 654.0));\n\
                    bez.line_to((987.0, 0.0));\n";
    assert_eq!(code, expected);
}

#[test]
fn malformed_path_aborts_with_error() {
    let good = EditablePath {
        points: vec![on(0, 0), on(4, 0), on(0, 3)],
        closed: true,
    };
    let bad = EditablePath {
        points: vec![on(0, 0), off(1, 1), off(2, 2), off(3, 3), on(4, 4)],
        closed: true,
    };
    let err = make_code_string(&session_of(vec![good, bad])).unwrap_err();
    assert_eq!(err.contour, 1);
    assert_eq!(err.point, 3);
    assert_eq!(err.fault, PointFault::TooManyOffCurves);
}
