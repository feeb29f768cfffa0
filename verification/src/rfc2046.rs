//! Multipart boundaries (RFC 2046): `boundary`, `dash-boundary`,
//! `delimiter` and `close-delimiter`.

use vstd::prelude::*;
use vstd::utf8::encode_utf8;
use crate::util::lift_end;
use crate::rfc5322::chars::{Class, spec_in_class, in_class, spec_crlf, crlf, spec_lit, lit};

verus! {

/// The longest a boundary can be: 69 `bchars` and a final `bcharsnospace`.
pub const BOUNDARY_SCAN: usize = 70;

/// The scan of a boundary from `p + k` on, `mark` being the end of the last
/// `bcharsnospace` seen so far: spaces are passed over, any other byte ends
/// the scan, and so do the end of the input and the limit of
/// [`BOUNDARY_SCAN`] bytes.
pub open spec fn boundary_scan(s: Seq<u8>, p: int, k: int, mark: Option<int>) -> Option<int>
    decreases BOUNDARY_SCAN - k,
{
    if k < 0 || k >= BOUNDARY_SCAN || p + k >= s.len() || p + k < 0 {
        mark
    } else if spec_in_class(s[p + k], Class::BcharsNoSpace) {
        boundary_scan(s, p, k + 1, Some(p + k + 1))
    } else if s[p + k] == 32 {
        boundary_scan(s, p, k + 1, mark)
    } else {
        mark
    }
}

/// `t` is a boundary: `0*69<bchars> bcharsnospace`, with `bchars :=
/// bcharsnospace / " "`.
pub open spec fn is_boundary(t: Seq<u8>) -> bool {
    boundary_scan(t, 0, 0, None) == Some(t.len() as int)
}

/// `boundary`: the boundary given by the `boundary` parameter of the
/// Content-Type field, as bytes `t`, which must itself be a boundary, at
/// `p`.  Returns the end.
pub open spec fn spec_boundary(s: Seq<u8>, p: int, t: Seq<u8>) -> Option<int> {
    if is_boundary(t) {
        spec_lit(s, p, t)
    } else {
        None
    }
}

/// The end of the longest boundary-shaped text at `pos` (see
/// [`boundary_scan`]).
fn scan_boundary(s: &[u8], pos: usize) -> (r: Option<usize>)
    requires
        pos <= s.len(),
    ensures
        lift_end(r) == boundary_scan(s@, pos as int, 0, None),
{
    let mut mark: Option<usize> = None;
    let mut consumed: usize = 0;
    loop
        invariant
            pos <= s.len(),
            consumed <= BOUNDARY_SCAN,
            pos + consumed <= s.len(),
            mark matches Some(m) ==> pos < m <= pos + consumed,
            boundary_scan(s@, pos as int, 0, None) == boundary_scan(s@, pos as int, consumed as int, lift_end(mark)),
        ensures
            boundary_scan(s@, pos as int, 0, None) == lift_end(mark),
        decreases BOUNDARY_SCAN - consumed,
    {
        if consumed >= BOUNDARY_SCAN || consumed >= s.len() - pos {
            break;
        }
        let t = s[pos + consumed];
        if in_class(t, Class::BcharsNoSpace) {
            mark = Some(pos + consumed + 1);
        } else if t != 32 {
            break;
        }
        consumed = consumed + 1;
    }
    mark
}

/// `boundary`: the text of `token` at `pos`, `token` being a boundary.
pub fn boundary(s: &[u8], pos: usize, token: String) -> (r: Option<usize>)
    requires
        pos <= s.len(),
    ensures
        lift_end(r) == spec_boundary(s@, pos as int, encode_utf8(token@)),
        r matches Some(e) ==> pos <= e <= s.len(),
{
    let t = token.as_str().as_bytes();
    match scan_boundary(t, 0) {
        Some(e) => if e == t.len() {
            lit(s, pos, t)
        } else {
            None
        },
        None => None,
    }
}

/// `dash-boundary := "--" boundary`
pub open spec fn spec_dash_boundary(s: Seq<u8>, p: int, t: Seq<u8>) -> Option<int> {
    match spec_lit(s, p, seq![45u8, 45]) {
        Some(a) => spec_boundary(s, a, t),
        None => None,
    }
}

/// `dash-boundary := "--" boundary`
pub fn dash_boundary(s: &[u8], pos: usize, token: String) -> (r: Option<usize>)
    requires
        pos <= s.len(),
    ensures
        lift_end(r) == spec_dash_boundary(s@, pos as int, encode_utf8(token@)),
        r matches Some(e) ==> pos <= e <= s.len(),
{
    match lit(s, pos, &[45u8, 45]) {
        Some(a) => boundary(s, a, token),
        None => None,
    }
}

/// `delimiter := CRLF dash-boundary`
pub open spec fn spec_delimiter(s: Seq<u8>, p: int, t: Seq<u8>) -> Option<int> {
    match spec_crlf(s, p) {
        Some(a) => spec_dash_boundary(s, a, t),
        None => None,
    }
}

/// `delimiter := CRLF dash-boundary`
pub fn delimiter(s: &[u8], pos: usize, token: String) -> (r: Option<usize>)
    requires
        pos <= s.len(),
    ensures
        lift_end(r) == spec_delimiter(s@, pos as int, encode_utf8(token@)),
        r matches Some(e) ==> pos <= e <= s.len(),
{
    match crlf(s, pos) {
        Some(a) => dash_boundary(s, a, token),
        None => None,
    }
}

/// `close-delimiter := delimiter "--"`
pub open spec fn spec_close_delimiter(s: Seq<u8>, p: int, t: Seq<u8>) -> Option<int> {
    match spec_delimiter(s, p, t) {
        Some(a) => spec_lit(s, a, seq![45u8, 45]),
        None => None,
    }
}

/// `close-delimiter := delimiter "--"`
pub fn close_delimiter(s: &[u8], pos: usize, token: String) -> (r: Option<usize>)
    requires
        pos <= s.len(),
    ensures
        lift_end(r) == spec_close_delimiter(s@, pos as int, encode_utf8(token@)),
        r matches Some(e) ==> pos <= e <= s.len(),
{
    match delimiter(s, pos, token) {
        Some(a) => lit(s, a, &[45u8, 45]),
        None => None,
    }
}

} // verus!
