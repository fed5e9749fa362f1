//! Capture specifications: the named rectangles to extract, their textual
//! grammar `<name>:<x>x<y>:<width>x<height>`, and the coordinate origin.

use vstd::prelude::*;

verus! {

use vstd::string::StrSliceExecFns;
use vstd::string::StringExecFns;
use crate::errors::{CutoutError, ErrorModel};
use crate::numerals::{
    u32_from_dec,
    dec_seq,
    is_digit_char,
    append_u32,
    parse_u32,
    lemma_dec_seq_digits,
    lemma_dec_val_dec_seq,
};
use crate::scan::{
    find_char,
    find_in,
    eq_ignore_ascii_case,
    eq_ignore_ascii_case_model,
    lemma_find_char,
    lemma_find_char_is,
    lemma_find_char_none,
};

/// A rectangular capture region: a name (used verbatim in output file
/// names) and an origin-relative rectangle. Width and height are strictly
/// positive once parsed.
#[derive(Debug)]
pub struct CaptureSpec {
    /// Name of the capture region, used in output file names.
    pub name: String,
    /// X coordinate (left edge) in pixels.
    pub x: u32,
    /// Y coordinate in pixels; its meaning depends on the origin.
    pub y: u32,
    /// Width of the region in pixels.
    pub width: u32,
    /// Height of the region in pixels.
    pub height: u32,
}

/// Mathematical model of a capture specification.
pub struct CaptureModel {
    pub name: Seq<char>,
    pub x: u32,
    pub y: u32,
    pub width: u32,
    pub height: u32,
}

impl View for CaptureSpec {
    type V = CaptureModel;

    open spec fn view(&self) -> CaptureModel {
        CaptureModel {
            name: self.name@,
            x: self.x,
            y: self.y,
            width: self.width,
            height: self.height,
        }
    }
}

impl Clone for CaptureSpec {
    fn clone(&self) -> (r: Self)
        ensures
            r@ == self@,
    {
        CaptureSpec {
            name: self.name.clone(),
            x: self.x,
            y: self.y,
            width: self.width,
            height: self.height,
        }
    }
}

/// Coordinate-system origin: where `y = 0` lies and which way `y` grows.
#[derive(Clone, Copy, Debug, PartialEq, Eq, Structural)]
pub enum Origin {
    /// `y = 0` at the top of the image, `y` grows downward.
    TopLeft,
    /// `y = 0` at the bottom of the image, `y` grows upward.
    BottomLeft,
}

/// The origin denoted by a token, compared ignoring ASCII case:
/// `tl`, `top-left` and `top_left` name the top-left origin;
/// `bl`, `bottom-left` and `bottom_left` the bottom-left one.
pub open spec fn origin_from_token(s: Seq<char>) -> Option<Origin> {
    if eq_ignore_ascii_case_model(s, "tl"@) || eq_ignore_ascii_case_model(s, "top-left"@)
        || eq_ignore_ascii_case_model(s, "top_left"@) {
        Some(Origin::TopLeft)
    } else if eq_ignore_ascii_case_model(s, "bl"@) || eq_ignore_ascii_case_model(s, "bottom-left"@)
        || eq_ignore_ascii_case_model(s, "bottom_left"@) {
        Some(Origin::BottomLeft)
    } else {
        None
    }
}

impl Origin {
    /// Parse an origin token; unknown tokens yield a usage error naming
    /// the supported values.
    pub fn from_str(s: &str) -> (r: Result<Origin, String>)
        ensures
            match r {
                Ok(o) => origin_from_token(s@) == Some(o),
                Err(m) => origin_from_token(s@) is None && m@ == "Invalid origin '"@ + s@
                    + "'. Supported values: tl, bl"@,
            },
    {
        if eq_ignore_ascii_case(s, "tl") || eq_ignore_ascii_case(s, "top-left")
            || eq_ignore_ascii_case(s, "top_left") {
            Ok(Origin::TopLeft)
        } else if eq_ignore_ascii_case(s, "bl") || eq_ignore_ascii_case(s, "bottom-left")
            || eq_ignore_ascii_case(s, "bottom_left") {
            Ok(Origin::BottomLeft)
        } else {
            let mut m = String::from_str("Invalid origin '");
            m.append(s);
            m.append("'. Supported values: tl, bl");
            proof {
                assert(m@ =~= "Invalid origin '"@ + s@ + "'. Supported values: tl, bl"@);
            }
            Err(m)
        }
    }
}

/// The pair denoted by `raw` under the grammar `<a><sep><b>` with `a`, `b`
/// unsigned decimal numbers, or the error that rejects it.
pub open spec fn spec_parse_pair(raw: Seq<char>, sep: char, label: Seq<char>, orig: Seq<char>) -> Result<
    (u32, u32),
    ErrorModel,
> {
    match find_char(raw, sep) {
        None => Err(ErrorModel::MissingSecond { label }),
        Some(i) => {
            let first = raw.take(i);
            let second = raw.skip(i + 1);
            if find_char(second, sep) is Some {
                Err(ErrorModel::TooManyComponents { label, text: orig })
            } else {
                match u32_from_dec(first) {
                    None => Err(
                        ErrorModel::InvalidFirstNumber { label, token: first, text: orig },
                    ),
                    Some(a) => match u32_from_dec(second) {
                        None => Err(
                            ErrorModel::InvalidSecondNumber { label, token: second, text: orig },
                        ),
                        Some(b) => Ok((a, b)),
                    },
                }
            }
        },
    }
}

/// The capture specification denoted by `s` under the grammar
/// `<name>:<x>x<y>:<width>x<height>`, or the error that rejects it.
/// The name is taken verbatim; width and height must be positive.
pub open spec fn spec_parse_capture(s: Seq<char>) -> Result<CaptureModel, ErrorModel> {
    match find_char(s, ':') {
        None => Err(ErrorModel::InvalidFormat { text: s }),
        Some(i) => {
            let rest = s.skip(i + 1);
            match find_char(rest, ':') {
                None => Err(ErrorModel::InvalidFormat { text: s }),
                Some(j) => {
                    let part2 = rest.skip(j + 1);
                    if find_char(part2, ':') is Some {
                        Err(ErrorModel::InvalidFormat { text: s })
                    } else {
                        let name = s.take(i);
                        let part1 = rest.take(j);
                        match spec_parse_pair(part1, 'x', "x"@, s) {
                            Err(e) => Err(e),
                            Ok((x, y)) => match spec_parse_pair(part2, 'x', "width x height"@, s) {
                                Err(e) => Err(e),
                                Ok((w, h)) => if w == 0 || h == 0 {
                                    Err(ErrorModel::ZeroDimension { text: s })
                                } else {
                                    Ok(CaptureModel { name, x, y, width: w, height: h })
                                },
                            },
                        }
                    }
                },
            }
        },
    }
}

/// Parse a pair of unsigned decimal values separated by `sep`, exactly as
/// `spec_parse_pair` describes it.
pub fn parse_pair(raw: &str, sep: char, label: &str, original_spec: &str) -> (r: Result<
    (u32, u32),
    CutoutError,
>)
    ensures
        (match r {
            Ok(v) => spec_parse_pair(raw@, sep, label@, original_spec@) == Ok::<
                (u32, u32),
                ErrorModel,
            >(v),
            Err(e) => spec_parse_pair(raw@, sep, label@, original_spec@) == Err::<
                (u32, u32),
                ErrorModel,
            >(e@),
        }),
{
    let n = raw.unicode_len();
    match find_in(raw, sep) {
        None => Err(CutoutError::MissingSecond { label: String::from_str(label) }),
        Some(i) => {
            let first = raw.substring_char(0, i);
            let second = raw.substring_char(i + 1, n);
            proof {
                assert(first@ =~= raw@.take(i as int));
                assert(second@ =~= raw@.skip(i + 1));
            }
            if find_in(second, sep).is_some() {
                return Err(
                    CutoutError::TooManyComponents {
                        label: String::from_str(label),
                        text: String::from_str(original_spec),
                    },
                );
            }
            let a = match parse_u32(first) {
                Some(a) => a,
                None => {
                    return Err(
                        CutoutError::InvalidFirstNumber {
                            label: String::from_str(label),
                            token: String::from_str(first),
                            text: String::from_str(original_spec),
                        },
                    );
                },
            };
            let b = match parse_u32(second) {
                Some(b) => b,
                None => {
                    return Err(
                        CutoutError::InvalidSecondNumber {
                            label: String::from_str(label),
                            token: String::from_str(second),
                            text: String::from_str(original_spec),
                        },
                    );
                },
            };
            Ok((a, b))
        },
    }
}

/// Parse one capture specification string, exactly as
/// `spec_parse_capture` describes it.
pub fn parse_capture_spec(s: &str) -> (r: Result<CaptureSpec, CutoutError>)
    ensures
        (match r {
            Ok(c) => spec_parse_capture(s@) == Ok::<CaptureModel, ErrorModel>(c@),
            Err(e) => spec_parse_capture(s@) == Err::<CaptureModel, ErrorModel>(e@),
        }),
{
    let n = s.unicode_len();
    let i = match find_in(s, ':') {
        Some(i) => i,
        None => {
            return Err(CutoutError::InvalidFormat { text: String::from_str(s) });
        },
    };
    let rest = s.substring_char(i + 1, n);
    proof {
        assert(rest@ =~= s@.skip(i + 1));
    }
    let rn = rest.unicode_len();
    let j = match find_in(rest, ':') {
        Some(j) => j,
        None => {
            return Err(CutoutError::InvalidFormat { text: String::from_str(s) });
        },
    };
    let part2 = rest.substring_char(j + 1, rn);
    proof {
        assert(part2@ =~= rest@.skip(j + 1));
    }
    if find_in(part2, ':').is_some() {
        return Err(CutoutError::InvalidFormat { text: String::from_str(s) });
    }
    let name_part = s.substring_char(0, i);
    let part1 = rest.substring_char(0, j);
    proof {
        assert(name_part@ =~= s@.take(i as int));
        assert(part1@ =~= rest@.take(j as int));
    }
    let (x, y) = match parse_pair(part1, 'x', "x", s) {
        Ok(v) => v,
        Err(e) => {
            return Err(e);
        },
    };
    let (w, h) = match parse_pair(part2, 'x', "width x height", s) {
        Ok(v) => v,
        Err(e) => {
            return Err(e);
        },
    };
    if w == 0 || h == 0 {
        return Err(CutoutError::ZeroDimension { text: String::from_str(s) });
    }
    Ok(CaptureSpec { name: String::from_str(name_part), x, y, width: w, height: h })
}

/// The canonical spec string for a capture: name, then the two pairs,
/// with canonical decimal numerals.
pub open spec fn reconstruct_model(c: CaptureModel) -> Seq<char> {
    c.name + ":"@ + dec_seq(c.x as nat) + "x"@ + dec_seq(c.y as nat) + ":"@ + dec_seq(
        c.width as nat,
    ) + "x"@ + dec_seq(c.height as nat)
}

/// Rebuild the canonical spec string for a capture.
pub fn reconstruct(capture: &CaptureSpec) -> (r: String)
    ensures
        r@ == reconstruct_model(capture@),
{
    let mut m = capture.name.clone();
    m.append(":");
    append_u32(&mut m, capture.x);
    m.append("x");
    append_u32(&mut m, capture.y);
    m.append(":");
    append_u32(&mut m, capture.width);
    m.append("x");
    append_u32(&mut m, capture.height);
    proof {
        assert(m@ =~= reconstruct_model(capture@));
    }
    m
}

/// A zero width or height is always rejected: whatever the other fields
/// hold, a successfully parsed capture has strictly positive dimensions.
pub proof fn lemma_zero_dimension_rejected(s: Seq<char>)
    ensures
        spec_parse_capture(s) is Ok ==> spec_parse_capture(s)->Ok_0.width > 0
            && spec_parse_capture(s)->Ok_0.height > 0,
{
}

/// Every canonical spec string is accepted: for any capture whose width
/// and height are positive and whose name holds no colon, the string
/// `<name>:<x>x<y>:<width>x<height>` with canonical decimal numerals
/// parses back to that very capture, field for field.
#[verifier::rlimit(100)]
pub proof fn lemma_reconstruct_parses_back(c: CaptureModel)
    requires
        c.width > 0,
        c.height > 0,
        forall|k: int| 0 <= k < c.name.len() ==> c.name[k] != ':',
    ensures
        spec_parse_capture(reconstruct_model(c)) == Ok::<CaptureModel, ErrorModel>(c),
{
    reveal_strlit(":");
    reveal_strlit("x");
    let name = c.name;
    let dx = dec_seq(c.x as nat);
    let dy = dec_seq(c.y as nat);
    let dw = dec_seq(c.width as nat);
    let dh = dec_seq(c.height as nat);
    lemma_dec_seq_digits(c.x as nat);
    lemma_dec_seq_digits(c.y as nat);
    lemma_dec_seq_digits(c.width as nat);
    lemma_dec_seq_digits(c.height as nat);
    lemma_dec_val_dec_seq(c.x as nat);
    lemma_dec_val_dec_seq(c.y as nat);
    lemma_dec_val_dec_seq(c.width as nat);
    lemma_dec_val_dec_seq(c.height as nat);
    let r = reconstruct_model(c);
    let n1 = name.len() as int;
    // Lay the reconstructed string out in segments.
    let rest1 = dx + "x"@ + dy + ":"@ + dw + "x"@ + dh;
    let pair1 = dx + "x"@ + dy;
    let tail2 = dw + "x"@ + dh;
    assert(r =~= (name + ":"@) + rest1);
    let j1 = dx.len() + 1 + dy.len();
    // The first colon of the reconstruction sits right after the name.
    assert(r[n1] == ':');
    assert forall|k: int| 0 <= k < n1 implies r[k] != ':' by {
        assert(r[k] == name[k]);
    }
    lemma_find_char_is(r, ':', n1);
    assert(r.skip(n1 + 1) =~= rest1);
    // The second colon separates the two numeric pairs.
    assert(rest1 =~= pair1 + ":"@ + tail2);
    assert(rest1[j1 as int] == ':');
    assert forall|k: int| 0 <= k < j1 implies rest1[k] != ':' by {
        if k < dx.len() {
            assert(rest1[k] == dx[k]);
            assert(is_digit_char(dx[k]));
        } else if k == dx.len() {
            assert(rest1[k] == 'x');
        } else {
            assert(rest1[k] == dy[k - dx.len() - 1]);
            assert(is_digit_char(dy[k - dx.len() - 1]));
        }
    }
    lemma_find_char_is(rest1, ':', j1 as int);
    assert(rest1.skip(j1 as int + 1) =~= tail2);
    assert(rest1.take(j1 as int) =~= pair1);
    // No third colon: the trailing pair is digits around one `x`.
    assert forall|k: int| 0 <= k < tail2.len() implies tail2[k] != ':' by {
        if k < dw.len() {
            assert(tail2[k] == dw[k]);
            assert(is_digit_char(dw[k]));
        } else if k == dw.len() {
            assert(tail2[k] == 'x');
        } else {
            assert(tail2[k] == dh[k - dw.len() - 1]);
            assert(is_digit_char(dh[k - dw.len() - 1]));
        }
    }
    lemma_find_char_none(tail2, ':');
    assert(r.take(n1) =~= name);
    // The first pair: canonical digits of x, one `x`, canonical digits of y.
    assert(pair1[dx.len() as int] == 'x');
    assert forall|k: int| 0 <= k < dx.len() implies pair1[k] != 'x' by {
        assert(pair1[k] == dx[k]);
        assert(is_digit_char(dx[k]));
    }
    lemma_find_char_is(pair1, 'x', dx.len() as int);
    assert(pair1.take(dx.len() as int) =~= dx);
    assert(pair1.skip(dx.len() as int + 1) =~= dy);
    assert forall|k: int| 0 <= k < dy.len() implies dy[k] != 'x' by {
        assert(is_digit_char(dy[k]));
    }
    lemma_find_char_none(dy, 'x');
    assert(dx[0] != '+');
    assert(dy[0] != '+');
    assert(u32_from_dec(dx) == Some(c.x));
    assert(u32_from_dec(dy) == Some(c.y));
    assert(spec_parse_pair(pair1, 'x', "x"@, r) == Ok::<(u32, u32), ErrorModel>((c.x, c.y)));
    // The second pair likewise.
    assert(tail2[dw.len() as int] == 'x');
    assert forall|k: int| 0 <= k < dw.len() implies tail2[k] != 'x' by {
        assert(tail2[k] == dw[k]);
        assert(is_digit_char(dw[k]));
    }
    lemma_find_char_is(tail2, 'x', dw.len() as int);
    assert(tail2.take(dw.len() as int) =~= dw);
    assert(tail2.skip(dw.len() as int + 1) =~= dh);
    assert forall|k: int| 0 <= k < dh.len() implies dh[k] != 'x' by {
        assert(is_digit_char(dh[k]));
    }
    lemma_find_char_none(dh, 'x');
    assert(dw[0] != '+');
    assert(dh[0] != '+');
    assert(u32_from_dec(dw) == Some(c.width));
    assert(u32_from_dec(dh) == Some(c.height));
    assert(spec_parse_pair(tail2, 'x', "width x height"@, r) == Ok::<(u32, u32), ErrorModel>(
        (c.width, c.height),
    ));
    // Assemble: the reconstruction parses to the very same capture.
    assert(spec_parse_capture(r) == Ok::<CaptureModel, ErrorModel>(
        CaptureModel { name, x: c.x, y: c.y, width: c.width, height: c.height },
    ));
    assert(spec_parse_capture(r) == Ok::<CaptureModel, ErrorModel>(c));
}

/// Round trip: parsing a valid spec string and reconstructing the
/// canonical string for the result parses back to the very same capture,
/// with the same name, coordinates and dimensions.
pub proof fn lemma_parse_reconstruct_roundtrip(s: Seq<char>)
    requires
        spec_parse_capture(s) is Ok,
    ensures
        spec_parse_capture(reconstruct_model(spec_parse_capture(s)->Ok_0)) == spec_parse_capture(
            s,
        ),
{
    let c = spec_parse_capture(s)->Ok_0;
    // The parsed name is the part of `s` before its first colon, so it
    // holds no colon itself.
    let i0 = find_char(s, ':')->0;
    lemma_find_char(s, ':');
    assert(c.name =~= s.take(i0));
    assert forall|k: int| 0 <= k < c.name.len() implies c.name[k] != ':' by {
        assert(c.name[k] == s[k]);
    }
    lemma_reconstruct_parses_back(c);
}

} // verus!
