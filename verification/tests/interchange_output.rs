use glyphpath::interchange::{InterchangePath, make_glyphs_plist};
use glyphpath::session::{EditSession, EditablePath, PathPoint, PathPointType};

fn on(x: i32, y: i32) -> PathPoint {
    PathPoint { x, y, typ: PathPointType::OnCurve }
}

fn smooth(x: i32, y: i32) -> PathPoint {
    PathPoint { x, y, typ: PathPointType::OnCurveSmooth }
}

fn off(x: i32, y: i32) -> PathPoint {
    PathPoint { x, y, typ: PathPointType::OffCurve }
}

fn session_of(paths: Vec<EditablePath>) -> EditSession {
    EditSession { name: String::from("alpha"), paths }
}

#[test]
fn empty_session_plist_is_none() {
    let session = session_of(Vec::new());
    assert_eq!(make_glyphs_plist(&session), None);
}

#[test]
fn square_record_closed_and_nodes() {
    let square = EditablePath {
        points: vec![on(0, 0), on(10, 0), on(10, 10), on(0, 10)],
        closed: true,
    };
    let rec = InterchangePath::from_path(&square);
    assert_eq!(rec.closed, 1);
    assert_eq!(rec.nodes, vec!["0 0 LINE", "10 0 LINE", "10 10 LINE", "0 10 LINE"]);
}

#[test]
fn open_path_record_has_closed_zero() {
    let path = EditablePath { points: vec![on(0, 0), on(5, 5)], closed: false };
    let rec = InterchangePath::from_path(&path);
    assert_eq!(rec.closed, 0);
}

#[test]
fn lookahead_labels_curve_after_off_curve() {
    let path = EditablePath {
        points: vec![off(0, 0), off(1, 1), on(2, 2)],
        closed: true,
    };
    let rec = InterchangePath::from_path(&path);
    assert_eq!(rec.nodes, vec!["0 0 OFFCURVE", "1 1 OFFCURVE", "2 2 CURVE"]);
}

#[test]
fn first_node_wraps_around_to_last_point() {
    let path = EditablePath {
        points: vec![on(0, 0), on(5, 0), off(5, 5)],
        closed: true,
    };
    let rec = InterchangePath::from_path(&path);
    // The first point's predecessor is the trailing off-curve point.
    assert_eq!(rec.nodes[0], "0 0 CURVE");
}

#[test]
fn smooth_point_is_curve_smooth() {
    let path = EditablePath {
        points: vec![on(0, 0), smooth(7, 3)],
        closed: true,
    };
    let rec = InterchangePath::from_path(&path);
    assert_eq!(rec.nodes[1], "7 3 CURVE SMOOTH");
}

#[test]
fn negative_coordinates_in_nodes() {
    let path = EditablePath { points: vec![on(-5, -12)], closed: false };
    let rec = InterchangePath::from_path(&path);
    assert_eq!(rec.nodes[0], "-5 -12 LINE");
}

#[test]
fn plist_round_trips_through_reader() {
    let square = EditablePath {
        points: vec![on(0, 0), on(10, 0), on(10, 10), on(0, 10)],
        closed: true,
    };
    let bytes = make_glyphs_plist(&session_of(vec![square])).unwrap();
    let value = plist::Value::from_reader(std::io::Cursor::new(bytes)).unwrap();
    let top = value.as_dictionary().unwrap();
    assert_eq!(top.get("glyph").unwrap().as_string(), Some("alpha"));
    assert_eq!(top.get("layer").unwrap().as_string(), Some(""));
    let paths = top.get("paths").unwrap().as_array().unwrap();
    assert_eq!(paths.len(), 1);
    let rec = paths[0].as_dictionary().unwrap();
    assert_eq!(rec.get("closed").unwrap().as_unsigned_integer(), Some(1));
    let nodes = rec.get("nodes").unwrap().as_array().unwrap();
    let strs: Vec<&str> = nodes.iter().map(|n| n.as_string().unwrap()).collect();
    assert_eq!(strs, vec!["0 0 LINE", "10 0 LINE", "10 10 LINE", "0 10 LINE"]);
}

#[test]
fn equal_sessions_yield_identical_bytes() {
    let path = EditablePath {
        points: vec![on(0, 0), off(3, 9), off(7, 9), on(10, 0)],
        closed: true,
    };
    let first = make_glyphs_plist(&session_of(vec![path.clone()])).unwrap();
    let second = make_glyphs_plist(&session_of(vec![path])).unwrap();
    assert_eq!(first, second);
}

#[test]
fn plist_keeps_every_path_in_order() {
    let one = EditablePath { points: vec![on(0, 0)], closed: false };
    let two = EditablePath { points: vec![on(1, 1)], closed: true };
    let bytes = make_glyphs_plist(&session_of(vec![one, two])).unwrap();
    let value = plist::Value::from_reader(std::io::Cursor::new(bytes)).unwrap();
    let top = value.as_dictionary().unwrap();
    let paths = top.get("paths").unwrap().as_array().unwrap();
    assert_eq!(paths.len(), 2);
    assert_eq!(
        paths[0].as_dictionary().unwrap().get("closed").unwrap().as_unsigned_integer(),
        Some(0)
    );
    assert_eq!(
        paths[1].as_dictionary().unwrap().get("closed").unwrap().as_unsigned_integer(),
        Some(1)
    );
}
