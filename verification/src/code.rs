//! Serialization of a session's paths into human-readable drawing code: one
//! statement per curve primitive, coordinates as fixed one-decimal-place
//! literals, after a vertical flip and a translation that puts the bounding
//! box origin of each path at (0, 0).

use crate::geometry::{
    CurvePath, PathEl, coord_in_range, flip_path, lemma_min_x_bounds, lemma_min_y_bounds,
    lemma_path_points_in_range, min_x_of, min_y_of, path_points, point_in_range, translate_path,
};
use crate::outline::ConvertError;
use crate::session::{EditSession, EditablePath, bezier_elements};
use vstd::prelude::*;
use vstd::string::StringExecFns;

verus! {

pub open spec fn digit_char(d: int) -> char {
    if d == 0 {
        '0'
    } else if d == 1 {
        '1'
    } else if d == 2 {
        '2'
    } else if d == 3 {
        '3'
    } else if d == 4 {
        '4'
    } else if d == 5 {
        '5'
    } else if d == 6 {
        '6'
    } else if d == 7 {
        '7'
    } else if d == 8 {
        '8'
    } else {
        '9'
    }
}

/// The decimal digits of a nonnegative number, most significant first, no
/// leading zeros.
pub open spec fn decimal_digits(n: nat) -> Seq<char>
    decreases n,
{
    if n < 10 {
        seq![digit_char(n as int)]
    } else {
        decimal_digits(n / 10).push(digit_char((n % 10) as int))
    }
}

/// The canonical decimal rendering of an integer.
pub open spec fn decimal_str(v: int) -> Seq<char> {
    if v < 0 {
        seq!['-'] + decimal_digits((-v) as nat)
    } else {
        decimal_digits(v as nat)
    }
}

/// A coordinate as a fixed one-decimal-place literal; coordinates are
/// integers, so the fractional digit is always 0.
pub open spec fn literal1(v: int) -> Seq<char> {
    decimal_str(v) + ".0"@
}

/// The digits of a number reversed back into most-significant-first order,
/// as characters: entry `i` is the digit stored at index `len - 1 - i`.
pub open spec fn rev_digit_chars(ds: Seq<u64>) -> Seq<char> {
    Seq::new(ds.len(), |i: int| digit_char(ds[ds.len() - 1 - i] as int))
}

fn digit_str(d: u64) -> (r: &'static str)
    requires
        d < 10,
    ensures
        r@ == seq![digit_char(d as int)],
{
    proof {
        reveal_strlit("0");
        reveal_strlit("1");
        reveal_strlit("2");
        reveal_strlit("3");
        reveal_strlit("4");
        reveal_strlit("5");
        reveal_strlit("6");
        reveal_strlit("7");
        reveal_strlit("8");
        reveal_strlit("9");
        assert("0"@ =~= seq!['0']);
        assert("1"@ =~= seq!['1']);
        assert("2"@ =~= seq!['2']);
        assert("3"@ =~= seq!['3']);
        assert("4"@ =~= seq!['4']);
        assert("5"@ =~= seq!['5']);
        assert("6"@ =~= seq!['6']);
        assert("7"@ =~= seq!['7']);
        assert("8"@ =~= seq!['8']);
        assert("9"@ =~= seq!['9']);
    }
    if d == 0 {
        "0"
    } else if d == 1 {
        "1"
    } else if d == 2 {
        "2"
    } else if d == 3 {
        "3"
    } else if d == 4 {
        "4"
    } else if d == 5 {
        "5"
    } else if d == 6 {
        "6"
    } else if d == 7 {
        "7"
    } else if d == 8 {
        "8"
    } else {
        "9"
    }
}

/// Render an integer as its canonical decimal digits, without leading
/// zeros, prefixed with '-' when negative.
pub(crate) fn format_i64(v: i64) -> (r: String)
    ensures
        r@ == decimal_str(v as int),
{
    let mut m: u64 = if v >= 0 {
        v as u64
    } else {
        (-(v as i128)) as u64
    };
    proof {
        assert(m as int == if v as int >= 0 {
            v as int
        } else {
            -(v as int)
        });
    }
    let ghost mag = m as nat;
    // Collect the digits of the magnitude, least significant first.
    let mut digits: Vec<u64> = Vec::new();
    proof {
        assert(decimal_digits(mag) =~= decimal_digits(m as nat) + rev_digit_chars(digits@));
    }
    while m >= 10
        invariant
            forall|i: int| 0 <= i < digits@.len() ==> #[trigger] digits@[i] < 10,
            decimal_digits(mag) == decimal_digits(m as nat) + rev_digit_chars(digits@),
        decreases m,
    {
        let ghost prev = digits@;
        let d = m % 10;
        digits.push(d);
        m = m / 10;
        proof {
            assert(rev_digit_chars(digits@) =~= seq![digit_char(d as int)] + rev_digit_chars(
                prev,
            ));
            assert(decimal_digits((m as nat * 10 + d as nat) as nat) == decimal_digits(
                m as nat,
            ).push(digit_char(d as int)));
            assert(decimal_digits(m as nat) + (seq![digit_char(d as int)] + rev_digit_chars(prev))
                =~= decimal_digits(m as nat).push(digit_char(d as int)) + rev_digit_chars(prev));
        }
    }
    let ghost prev = digits@;
    let last = m;
    digits.push(last);
    proof {
        assert(rev_digit_chars(digits@) =~= seq![digit_char(last as int)] + rev_digit_chars(prev));
        assert(decimal_digits(last as nat) =~= seq![digit_char(last as int)]);
        assert(decimal_digits(mag) =~= rev_digit_chars(digits@));
    }
    let mut r = String::new();
    if v < 0 {
        r.append("-");
        proof {
            reveal_strlit("-");
            assert(r@ =~= seq!['-']);
        }
    }
    let ghost prefix = r@;
    let mut j: usize = digits.len();
    proof {
        assert(r@ =~= prefix + rev_digit_chars(digits@).take(0));
    }
    while j > 0
        invariant
            j <= digits@.len(),
            forall|i: int| 0 <= i < digits@.len() ==> #[trigger] digits@[i] < 10,
            r@ == prefix + rev_digit_chars(digits@).take(digits@.len() - j),
        decreases j,
    {
        j -= 1;
        let ghost before = r@;
        r.append(digit_str(digits[j]));
        proof {
            let rev = rev_digit_chars(digits@);
            let k = digits@.len() - j - 1;
            assert(rev[k] == digit_char(digits@[j as int] as int));
            assert(rev.take(k + 1) =~= rev.take(k).push(rev[k]));
            assert(r@ =~= prefix + rev.take(k + 1));
        }
    }
    proof {
        assert(rev_digit_chars(digits@).take(digits@.len() as int) =~= rev_digit_chars(digits@));
        assert(r@ =~= decimal_str(v as int));
    }
    r
}

/// The drawing-code statement for one primitive.
pub open spec fn el_code(el: PathEl) -> Seq<char> {
    match el {
        PathEl::MoveTo(p) => "bez.move_to(("@ + literal1(p.x as int) + ", "@ + literal1(p.y as int)
            + "));\n"@,
        PathEl::LineTo(p) => "bez.line_to(("@ + literal1(p.x as int) + ", "@ + literal1(p.y as int)
            + "));\n"@,
        PathEl::QuadTo(a, b) => "bez.quad_to(("@ + literal1(a.x as int) + ", "@ + literal1(
            a.y as int,
        ) + "), ("@ + literal1(b.x as int) + ", "@ + literal1(b.y as int) + "));\n"@,
        PathEl::CurveTo(a, b, c) => "bez.curve_to(("@ + literal1(a.x as int) + ", "@ + literal1(
            a.y as int,
        ) + "), ("@ + literal1(b.x as int) + ", "@ + literal1(b.y as int) + "), ("@ + literal1(
            c.x as int,
        ) + ", "@ + literal1(c.y as int) + "));\n"@,
        PathEl::ClosePath => "bez.close_path();\n"@,
    }
}

pub open spec fn els_code(els: Seq<PathEl>) -> Seq<char>
    decreases els.len(),
{
    if els.len() == 0 {
        Seq::empty()
    } else {
        el_code(els[0]) + els_code(els.drop_first())
    }
}

/// A path's elements after the two export transforms: the vertical flip,
/// then the translation that moves the bounding-box origin to (0, 0). A
/// path without points keeps only the flip.
pub open spec fn normalized_elements(els: Seq<PathEl>) -> Seq<PathEl> {
    let f = flip_path(els);
    if path_points(f).len() == 0 {
        f
    } else {
        translate_path(f, -min_x_of(path_points(f)), -min_y_of(path_points(f)))
    }
}

/// Law: the elements a path contributes to the drawing code are
/// position-independent: after the flip and the re-origin, the bounding box
/// of any path that has points starts exactly at (0, 0).
pub proof fn lemma_code_path_origin(els: Seq<PathEl>)
    requires
        crate::geometry::path_in_range(els),
        path_points(els).len() > 0,
    ensures
        min_x_of(path_points(normalized_elements(els))) == 0,
        min_y_of(path_points(normalized_elements(els))) == 0,
{
    crate::geometry::lemma_flip_path_points(els);
    crate::geometry::lemma_normalized_origin(els);
}

/// The text one session path contributes: a blank line, then its statements.
pub open spec fn path_code(p: EditablePath) -> Seq<char> {
    match bezier_elements(p) {
        Ok(els) => "\n"@ + els_code(normalized_elements(els)),
        Err(_) => Seq::empty(),
    }
}

pub open spec fn session_code_from(paths: Seq<EditablePath>, i: int) -> Seq<char>
    decreases paths.len() - i,
{
    if i < 0 || i >= paths.len() {
        Seq::empty()
    } else {
        path_code(paths[i]) + session_code_from(paths, i + 1)
    }
}

/// The whole drawing-code text of a session: the construction preamble, then
/// each path's statements.
pub open spec fn session_code(paths: Seq<EditablePath>) -> Seq<char> {
    "let mut bez = BezPath::new();\n"@ + session_code_from(paths, 0)
}

/// The first conversion error among the session's paths, if any; the
/// reported contour index is the path's index in the session.
pub open spec fn first_path_error(paths: Seq<EditablePath>, i: int) -> Option<ConvertError>
    decreases paths.len() - i,
{
    if i < 0 || i >= paths.len() {
        None
    } else {
        match bezier_elements(paths[i]) {
            Err(e) => Some(
                ConvertError { contour: i as usize, point: e.0 as usize, fault: e.1 },
            ),
            Ok(_) => first_path_error(paths, i + 1),
        }
    }
}

fn append_literal1(out: &mut String, v: i64)
    ensures
        final(out)@ == old(out)@ + literal1(v as int),
{
    let s = format_i64(v);
    out.append(s.as_str());
    out.append(".0");
    proof {
        assert(out@ =~= old(out)@ + (decimal_str(v as int) + ".0"@));
    }
}

fn append_el_code(out: &mut String, el: PathEl)
    ensures
        final(out)@ == old(out)@ + el_code(el),
{
    match el {
        PathEl::MoveTo(p) => {
            out.append("bez.move_to((");
            append_literal1(out, p.x);
            out.append(", ");
            append_literal1(out, p.y);
            out.append("));\n");
            proof {
                assert(out@ =~= old(out)@ + el_code(el));
            }
        },
        PathEl::LineTo(p) => {
            out.append("bez.line_to((");
            append_literal1(out, p.x);
            out.append(", ");
            append_literal1(out, p.y);
            out.append("));\n");
            proof {
                assert(out@ =~= old(out)@ + el_code(el));
            }
        },
        PathEl::QuadTo(a, b) => {
            out.append("bez.quad_to((");
            append_literal1(out, a.x);
            out.append(", ");
            append_literal1(out, a.y);
            out.append("), (");
            append_literal1(out, b.x);
            out.append(", ");
            append_literal1(out, b.y);
            out.append("));\n");
            proof {
                assert(out@ =~= old(out)@ + el_code(el));
            }
        },
        PathEl::CurveTo(a, b, c) => {
            out.append("bez.curve_to((");
            append_literal1(out, a.x);
            out.append(", ");
            append_literal1(out, a.y);
            out.append("), (");
            append_literal1(out, b.x);
            out.append(", ");
            append_literal1(out, b.y);
            out.append("), (");
            append_literal1(out, c.x);
            out.append(", ");
            append_literal1(out, c.y);
            out.append("));\n");
            proof {
                assert(out@ =~= old(out)@ + el_code(el));
            }
        },
        PathEl::ClosePath => {
            out.append("bez.close_path();\n");
        },
    }
}

fn append_els_code(out: &mut String, path: &CurvePath)
    ensures
        final(out)@ == old(out)@ + els_code(path@),
{
    let mut i: usize = 0;
    proof {
        assert(path.elements@.skip(0) =~= path.elements@);
    }
    while i < path.elements.len()
        invariant
            i <= path.elements@.len(),
            out@ + els_code(path.elements@.skip(i as int)) == old(out)@ + els_code(
                path.elements@,
            ),
        decreases path.elements@.len() - i,
    {
        let el = path.elements[i];
        let ghost before = out@;
        let ghost rest = path.elements@.skip(i as int);
        append_el_code(out, el);
        proof {
            assert(rest[0] == el);
            assert(rest.drop_first() =~= path.elements@.skip(i as int + 1));
            assert((before + el_code(el)) + els_code(rest.drop_first()) =~= before + (el_code(el)
                + els_code(rest.drop_first())));
        }
        i += 1;
    }
    proof {
        assert(path.elements@.skip(path.elements@.len() as int) =~= Seq::<PathEl>::empty());
        assert(out@ + Seq::<char>::empty() =~= out@);
        assert(old(out)@ + els_code(path.elements@) + Seq::<char>::empty() =~= old(out)@
            + els_code(path.elements@));
    }
}

/// Generate drawing code for all the paths in the session, if any exist: the
/// construction preamble, then one statement per primitive of each path
/// after the flip and re-origin transforms. Yields nothing for a session
/// without paths, and the first conversion error if a path is malformed.
pub fn make_code_string(session: &EditSession) -> (r: Result<Option<String>, ConvertError>)
    ensures
        session.paths@.len() == 0 ==> (r matches Ok(o) && o is None),
        match r {
            Ok(Some(s)) => first_path_error(session.paths@, 0) is None && s@ == session_code(
                session.paths@,
            ) && session.paths@.len() > 0,
            Ok(None) => session.paths@.len() == 0,
            Err(e) => first_path_error(session.paths@, 0) == Some(e),
        },
{
    if session.paths.len() == 0 {
        return Ok(None);
    }
    let mut out = String::new();
    out.append("let mut bez = BezPath::new();\n");
    proof {
        assert(out@ =~= "let mut bez = BezPath::new();\n"@);
    }
    let mut i: usize = 0;
    while i < session.paths.len()
        invariant
            i <= session.paths@.len(),
            session.paths@.len() > 0,
            first_path_error(session.paths@, 0) == first_path_error(session.paths@, i as int),
            first_path_error(session.paths@, i as int) is None ==> out@ + session_code_from(
                session.paths@,
                i as int,
            ) == session_code(session.paths@),
        decreases session.paths@.len() - i,
    {
        let path = &session.paths[i];
        let ghost before = out@;
        match path.bezier() {
            Err(e) => {
                proof {
                    assert(first_path_error(session.paths@, i as int) == Some(
                        ConvertError { contour: i, point: e.0, fault: e.1 },
                    ));
                }
                return Err(ConvertError { contour: i, point: e.0, fault: e.1 });
            },
            Ok(bez) => {
                let flipped = bez.flip_y();
                let moved = match flipped.bbox_origin() {
                    Some((ox, oy)) => {
                        proof {
                            lemma_path_points_in_range(flipped@);
                            lemma_min_x_bounds(path_points(flipped@));
                            lemma_min_y_bounds(path_points(flipped@));
                            let jx = choose|j: int|
                                0 <= j < path_points(flipped@).len() && min_x_of(
                                    path_points(flipped@),
                                ) == #[trigger] path_points(flipped@)[j].x as int;
                            assert(point_in_range(path_points(flipped@)[jx]));
                            let jy = choose|j: int|
                                0 <= j < path_points(flipped@).len() && min_y_of(
                                    path_points(flipped@),
                                ) == #[trigger] path_points(flipped@)[j].y as int;
                            assert(point_in_range(path_points(flipped@)[jy]));
                            assert(coord_in_range(ox as int) && coord_in_range(oy as int));
                        }
                        flipped.translate(-ox, -oy)
                    },
                    None => flipped,
                };
                assert(moved@ == normalized_elements(bezier_elements(session.paths@[i as int])->Ok_0));
                out.append("\n");
                append_els_code(&mut out, &moved);
                proof {
                    let pc = path_code(session.paths@[i as int]);
                    assert(out@ =~= before + pc);
                    if first_path_error(session.paths@, i as int + 1) is None {
                        assert((before + pc) + session_code_from(session.paths@, i as int + 1)
                            =~= before + (pc + session_code_from(session.paths@, i as int + 1)));
                    }
                }
            },
        }
        i += 1;
    }
    proof {
        assert(out@ + Seq::<char>::empty() =~= out@);
    }
    Ok(Some(out))
}

} // verus!
