//! Serialization of a session's paths into the interchange clipboard form: a
//! binary property list with the glyph name, a placeholder layer, and one
//! record per path holding its closed flag and its node strings.
//!
//! Each node string is "x y TYPE". The TYPE of an on-curve point is decided
//! by a one-point lookahead: CURVE when the previous point (wrapping from
//! the end to the start for the first point) was off-curve, LINE otherwise;
//! a smooth on-curve point is always CURVE SMOOTH; an off-curve point is
//! OFFCURVE. Coordinates here stay in editing space: no flip, no re-origin.

use crate::code::{decimal_str, format_i64};
use crate::session::{EditSession, EditablePath, PathPoint, PathPointType, prev_is_off};
use vstd::prelude::*;
use vstd::string::StringExecFns;

verus! {

/// The TYPE part of a node string.
pub open spec fn node_label(points: Seq<PathPoint>, i: int) -> Seq<char> {
    match points[i].typ {
        PathPointType::OnCurve => if prev_is_off(points, i) {
            "CURVE"@
        } else {
            "LINE"@
        },
        PathPointType::OnCurveSmooth => "CURVE SMOOTH"@,
        PathPointType::OffCurve => "OFFCURVE"@,
    }
}

/// The node string of point `i`: its coordinates and its TYPE label.
pub open spec fn node_string(points: Seq<PathPoint>, i: int) -> Seq<char> {
    decimal_str(points[i].x as int) + " "@ + decimal_str(points[i].y as int) + " "@ + node_label(
        points,
        i,
    )
}

pub open spec fn node_strings(points: Seq<PathPoint>) -> Seq<Seq<char>> {
    Seq::new(points.len(), |i: int| node_string(points, i))
}

/// Law: an on-curve point whose predecessor (with wraparound) is off-curve
/// is labeled CURVE, never LINE: control points preceded it, so the segment
/// ending at it is a curve.
pub proof fn lemma_label_after_off_curve(points: Seq<PathPoint>, i: int)
    requires
        0 <= i < points.len(),
        points[i].typ is OnCurve,
        prev_is_off(points, i),
    ensures
        node_label(points, i) == "CURVE"@,
        node_label(points, i) != "LINE"@,
{
    reveal_strlit("CURVE");
    reveal_strlit("LINE");
    assert("CURVE"@.len() == 5);
    assert("LINE"@.len() == 4);
}

/// One path's interchange record: the closed flag as 0 or 1, and the node
/// strings in point order.
#[derive(Clone, Debug)]
pub struct InterchangePath {
    pub closed: u32,
    pub nodes: Vec<String>,
}

impl InterchangePath {
    /// Build a path's interchange record.
    pub fn from_path(path: &EditablePath) -> (r: InterchangePath)
        ensures
            r.closed == (if path.closed {
                1u32
            } else {
                0u32
            }),
            r.nodes@.len() == path.points@.len(),
            forall|i: int|
                0 <= i < path.points@.len() ==> #[trigger] r.nodes@[i]@ == node_string(
                    path.points@,
                    i,
                ),
    {
        let n = path.points.len();
        let mut nodes: Vec<String> = Vec::new();
        if n == 0 {
            return InterchangePath { closed: if path.closed { 1 } else { 0 }, nodes };
        }
        let mut prev_off: bool = matches!(path.points[n - 1].typ, PathPointType::OffCurve);
        let mut i: usize = 0;
        while i < n
            invariant
                0 <= i <= n,
                n == path.points@.len(),
                i < n ==> prev_off == prev_is_off(path.points@, i as int),
                nodes@.len() == i,
                forall|j: int|
                    0 <= j < i ==> #[trigger] nodes@[j]@ == node_string(path.points@, j),
            decreases n - i,
        {
            let p = path.points[i];
            let mut s = format_i64(p.x as i64);
            s.append(" ");
            let sy = format_i64(p.y as i64);
            s.append(sy.as_str());
            s.append(" ");
            match p.typ {
                PathPointType::OnCurve => {
                    if prev_off {
                        s.append("CURVE");
                    } else {
                        s.append("LINE");
                    }
                },
                PathPointType::OnCurveSmooth => {
                    s.append("CURVE SMOOTH");
                },
                PathPointType::OffCurve => {
                    s.append("OFFCURVE");
                },
            }
            proof {
                assert(s@ =~= node_string(path.points@, i as int));
            }
            nodes.push(s);
            prev_off = matches!(p.typ, PathPointType::OffCurve);
            i += 1;
        }
        InterchangePath { closed: if path.closed { 1 } else { 0 }, nodes }
    }
}

/// A ghost model of a property-list value: what the serialized document
/// holds, with dictionary entries in insertion order.
pub enum PlistSpec {
    Text(Seq<char>),
    Int(int),
    List(Seq<PlistSpec>),
    Dict(Seq<(Seq<char>, PlistSpec)>),
}

/// The interchange record of one path, as a property-list value.
pub open spec fn path_record(p: EditablePath) -> PlistSpec {
    PlistSpec::Dict(
        seq![
            (
                "closed"@,
                PlistSpec::Int(
                    if p.closed {
                        1
                    } else {
                        0
                    },
                ),
            ),
            (
                "nodes"@,
                PlistSpec::List(
                    Seq::new(p.points@.len(), |i: int| PlistSpec::Text(node_string(p.points@, i))),
                ),
            ),
        ],
    )
}

/// The whole interchange document of a session: its glyph name, an empty
/// layer identifier, and the records of its paths.
pub open spec fn session_document(name: Seq<char>, paths: Seq<EditablePath>) -> PlistSpec {
    PlistSpec::Dict(
        seq![
            ("glyph"@, PlistSpec::Text(name)),
            ("layer"@, PlistSpec::Text(""@)),
            ("paths"@, PlistSpec::List(paths.map(|i: int, p: EditablePath| path_record(p)))),
        ],
    )
}

#[verifier::external_type_specification]
#[verifier::external_body]
pub struct ExPlistValue(plist::Value);

#[verifier::external_type_specification]
#[verifier::external_body]
pub struct ExPlistDictionary(plist::Dictionary);

/// The model of a property-list value.
pub uninterp spec fn value_rep(v: plist::Value) -> PlistSpec;

/// The entries a property-list dictionary holds, in insertion order.
pub uninterp spec fn dict_rep(d: plist::Dictionary) -> Seq<(Seq<char>, PlistSpec)>;

/// The binary property-list encoding of a document.
pub uninterp spec fn plist_binary(doc: PlistSpec) -> Seq<u8>;

/// Relies on plist::Value::String: the variant wrapping a text value.
#[verifier::external_body]
fn text_value(s: &str) -> (v: plist::Value)
    ensures
        value_rep(v) == PlistSpec::Text(s@),
{
    plist::Value::String(s.to_string())
}

/// Relies on plist::Value::Integer and plist::Integer::from, which keep the
/// numeric value.
#[verifier::external_body]
fn int_value(n: u32) -> (v: plist::Value)
    ensures
        value_rep(v) == PlistSpec::Int(n as int),
{
    plist::Value::Integer(plist::Integer::from(n))
}

/// Relies on plist::Value::Array: the variant wrapping a list of values, in
/// order.
#[verifier::external_body]
fn array_value(items: Vec<plist::Value>) -> (v: plist::Value)
    ensures
        value_rep(v) == PlistSpec::List(items@.map(|i: int, x: plist::Value| value_rep(x))),
{
    plist::Value::Array(items)
}

/// Relies on plist::Dictionary::new: an empty dictionary.
#[verifier::external_body]
fn dict_new() -> (d: plist::Dictionary)
    ensures
        dict_rep(d) == Seq::<(Seq<char>, PlistSpec)>::empty(),
{
    plist::Dictionary::new()
}

/// Relies on plist::Dictionary::insert, which is backed by an
/// insertion-ordered map: a key not yet present is appended at the end.
#[verifier::external_body]
fn dict_insert(d: &mut plist::Dictionary, key: &str, v: plist::Value)
    requires
        forall|i: int|
            0 <= i < dict_rep(*old(d)).len() ==> (#[trigger] dict_rep(*old(d))[i]).0 != key@,
    ensures
        dict_rep(*final(d)) == dict_rep(*old(d)).push((key@, value_rep(v))),
{
    d.insert(key.to_string(), v);
}

/// Relies on plist::Value::Dictionary: the variant wrapping a dictionary.
#[verifier::external_body]
fn dict_value(d: plist::Dictionary) -> (v: plist::Value)
    ensures
        value_rep(v) == PlistSpec::Dict(dict_rep(d)),
{
    plist::Value::Dictionary(d)
}

/// Relies on plist::Value::to_writer_binary: a deterministic binary encode
/// of the value, which depends on the value alone. Into an in-memory buffer
/// the writer cannot fail: a value tree always yields a well-formed event
/// stream (every dictionary key is a string), and writes to a byte vector
/// always succeed, so the error branch is unreachable.
#[verifier::external_body]
fn write_binary(v: &plist::Value) -> (r: Vec<u8>)
    ensures
        r@ == plist_binary(value_rep(*v)),
{
    let mut data: Vec<u8> = Vec::new();
    v.to_writer_binary(&mut data).expect("writing a plist value to memory cannot fail");
    data
}

/// Law: interchange serialization is deterministic. Any two results the
/// contract of `make_glyphs_plist` admits for one session value agree:
/// absent together, or byte-identical.
pub proof fn lemma_interchange_deterministic(
    session: EditSession,
    r1: Option<Vec<u8>>,
    r2: Option<Vec<u8>>,
)
    requires
        session.paths@.len() == 0 <==> r1 is None,
        r1 matches Some(b) ==> b@ == plist_binary(
            session_document(session.name@, session.paths@),
        ),
        session.paths@.len() == 0 <==> r2 is None,
        r2 matches Some(b) ==> b@ == plist_binary(
            session_document(session.name@, session.paths@),
        ),
    ensures
        r1 is None <==> r2 is None,
        (r1 is Some && r2 is Some) ==> r1->Some_0@ == r2->Some_0@,
{
}

/// Serialize the session's paths into the binary interchange property list,
/// if any paths exist. Yields nothing for a session without paths, and the
/// encoded document — a function of the session's name and paths alone —
/// otherwise.
pub fn make_glyphs_plist(session: &EditSession) -> (r: Option<Vec<u8>>)
    ensures
        session.paths@.len() == 0 <==> r is None,
        r matches Some(b) ==> b@ == plist_binary(
            session_document(session.name@, session.paths@),
        ),
{
    if session.paths.len() == 0 {
        return None;
    }
    let mut path_values: Vec<plist::Value> = Vec::new();
    let mut i: usize = 0;
    while i < session.paths.len()
        invariant
            i <= session.paths@.len(),
            path_values@.len() == i,
            forall|j: int|
                0 <= j < i ==> value_rep(#[trigger] path_values@[j]) == path_record(
                    session.paths@[j],
                ),
        decreases session.paths@.len() - i,
    {
        let rec = InterchangePath::from_path(&session.paths[i]);
        let mut d = dict_new();
        dict_insert(&mut d, "closed", int_value(rec.closed));
        let mut node_values: Vec<plist::Value> = Vec::new();
        let mut k: usize = 0;
        while k < rec.nodes.len()
            invariant
                k <= rec.nodes@.len(),
                node_values@.len() == k,
                forall|m: int|
                    0 <= m < k ==> value_rep(#[trigger] node_values@[m]) == PlistSpec::Text(
                        rec.nodes@[m]@,
                    ),
            decreases rec.nodes@.len() - k,
        {
            node_values.push(text_value(rec.nodes[k].as_str()));
            k += 1;
        }
        proof {
            reveal_strlit("closed");
            reveal_strlit("nodes");
            assert("closed"@.len() == 6 && "nodes"@.len() == 5);
            assert(dict_rep(d).len() == 1 && dict_rep(d)[0].0 == "closed"@);
        }
        dict_insert(&mut d, "nodes", array_value(node_values));
        let v = dict_value(d);
        proof {
            let p = session.paths@[i as int];
            assert(node_values@.map(|m: int, x: plist::Value| value_rep(x)) =~= Seq::new(
                p.points@.len(),
                |m: int| PlistSpec::Text(node_string(p.points@, m)),
            ));
            assert(dict_rep(d) =~= seq![
                ("closed"@, PlistSpec::Int(if p.closed { 1int } else { 0int })),
                (
                    "nodes"@,
                    PlistSpec::List(
                        Seq::new(p.points@.len(), |m: int| PlistSpec::Text(node_string(p.points@, m))),
                    ),
                ),
            ]);
            assert(value_rep(v) == path_record(p));
        }
        path_values.push(v);
        i += 1;
    }
    let mut top = dict_new();
    proof {
        reveal_strlit("glyph");
        reveal_strlit("layer");
        reveal_strlit("paths");
    }
    dict_insert(&mut top, "glyph", text_value(session.name.as_str()));
    proof {
        assert("glyph"@.len() == 5 && "layer"@.len() == 5 && "paths"@.len() == 5);
        assert("glyph"@[0] == 'g' && "layer"@[0] == 'l' && "paths"@[0] == 'p');
        assert(dict_rep(top).len() == 1 && dict_rep(top)[0].0 == "glyph"@);
    }
    dict_insert(&mut top, "layer", text_value(""));
    proof {
        assert(dict_rep(top).len() == 2 && dict_rep(top)[0].0 == "glyph"@ && dict_rep(top)[1].0
            == "layer"@);
    }
    dict_insert(&mut top, "paths", array_value(path_values));
    let doc = dict_value(top);
    proof {
        assert(path_values@.map(|j: int, x: plist::Value| value_rep(x)) =~= session.paths@.map(
            |j: int, p: EditablePath| path_record(p),
        ));
        assert(dict_rep(top) =~= seq![
            ("glyph"@, PlistSpec::Text(session.name@)),
            ("layer"@, PlistSpec::Text(""@)),
            (
                "paths"@,
                PlistSpec::List(session.paths@.map(|j: int, p: EditablePath| path_record(p))),
            ),
        ]);
        assert(value_rep(doc) == session_document(session.name@, session.paths@));
    }
    Some(write_binary(&doc))
}

} // verus!
