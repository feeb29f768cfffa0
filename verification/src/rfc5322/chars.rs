//! Single-character rules and runs of them.

use vstd::prelude::*;
use crate::util::{lift, lift_end};

verus! {

/// The character classes of the grammar, each a set of byte values.
#[derive(Clone, Copy, PartialEq, Eq, Debug)]
pub enum Class {
    /// `ALPHA`: `A`-`Z` / `a`-`z`
    Alpha,
    /// `DIGIT`: `0`-`9`
    Digit,
    /// `VCHAR`: %d33-126
    Vchar,
    /// `WSP`: SP / HTAB
    Wsp,
    /// `CR`
    Cr,
    /// `LF`
    Lf,
    /// `ctext`, including `obs-ctext`
    Ctext,
    /// `atext`
    Atext,
    /// `qtext`, including `obs-qtext`
    Qtext,
    /// `text`: %d1-9 / %d11 / %d12 / %d14-127
    Text,
    /// `ftext`: %d33-57 / %d59-126
    Ftext,
    /// `obs-NO-WS-CTL`
    ObsNoWsCtl,
    /// `obs-utext`: %d0 / obs-NO-WS-CTL / VCHAR
    ObsUtext,
    /// the single-byte part of `dtext` (without quoted pairs)
    DtextChar,
    /// `LF` or `obs-utext`, as used by unstructured field bodies
    LfObsUtext,
    /// the bytes of a MIME `token`, as this library reads it: %d32-33 /
    /// %d35-39 / %d42-43 / %d45-46 / %d48-57 / %d65-90 / %d94-126
    MimeToken,
    /// `bcharsnospace` of a multipart boundary: DIGIT / ALPHA / `"` / "'" /
    /// "(" / ")" / "+" / "_" / "," / "-" / "." / "/" / ":" / "=" / "?"
    BcharsNoSpace,
}

pub open spec fn spec_in_class(c: u8, k: Class) -> bool {
    match k {
        Class::Alpha => (65 <= c <= 90) || (97 <= c <= 122),
        Class::Digit => 48 <= c <= 57,
        Class::Vchar => 33 <= c <= 126,
        Class::Wsp => c == 32 || c == 9,
        Class::Cr => c == 13,
        Class::Lf => c == 10,
        Class::Ctext => (1 <= c <= 8) || c == 11 || c == 12 || (14 <= c <= 31) || (33 <= c <= 39)
            || (42 <= c <= 91) || (93 <= c <= 127),
        Class::Atext => c == 33 || (35 <= c <= 39) || c == 42 || c == 43 || c == 45 || (47 <= c <= 57)
            || c == 61 || c == 63 || (65 <= c <= 90) || c == 94 || c == 95 || (97 <= c <= 126),
        Class::Qtext => (1 <= c <= 8) || c == 11 || c == 12 || (14 <= c <= 31) || c == 33
            || (35 <= c <= 91) || (93 <= c <= 127),
        Class::Text => (1 <= c <= 9) || c == 11 || c == 12 || (14 <= c <= 127),
        Class::Ftext => (33 <= c <= 57) || (59 <= c <= 126),
        Class::ObsNoWsCtl => (1 <= c <= 8) || c == 11 || c == 12 || (14 <= c <= 31) || c == 127,
        Class::ObsUtext => c == 0 || (1 <= c <= 8) || c == 11 || c == 12 || (14 <= c <= 31) || (33 <= c <= 127),
        Class::DtextChar => (1 <= c <= 8) || c == 11 || c == 12 || (14 <= c <= 31) || (33 <= c <= 90)
            || (94 <= c <= 127),
        Class::LfObsUtext => (c <= 8) || (10 <= c <= 12) || (14 <= c <= 31) || (33 <= c <= 127),
        Class::MimeToken => (32 <= c <= 33) || (35 <= c <= 39) || c == 42 || c == 43 || c == 45 || c == 46
            || (48 <= c <= 57) || (65 <= c <= 90) || (94 <= c <= 126),
        Class::BcharsNoSpace => c == 34 || (39 <= c <= 41) || (43 <= c <= 58) || c == 61 || c == 63
            || (65 <= c <= 90) || c == 95 || (97 <= c <= 122),
    }
}

pub fn in_class(c: u8, k: Class) -> (r: bool)
    ensures
        r == spec_in_class(c, k),
{
    match k {
        Class::Alpha => (65 <= c && c <= 90) || (97 <= c && c <= 122),
        Class::Digit => 48 <= c && c <= 57,
        Class::Vchar => 33 <= c && c <= 126,
        Class::Wsp => c == 32 || c == 9,
        Class::Cr => c == 13,
        Class::Lf => c == 10,
        Class::Ctext => (1 <= c && c <= 8) || c == 11 || c == 12 || (14 <= c && c <= 31) || (33 <= c
            && c <= 39) || (42 <= c && c <= 91) || (93 <= c && c <= 127),
        Class::Atext => c == 33 || (35 <= c && c <= 39) || c == 42 || c == 43 || c == 45 || (47 <= c
            && c <= 57) || c == 61 || c == 63 || (65 <= c && c <= 90) || c == 94 || c == 95 || (97
            <= c && c <= 126),
        Class::Qtext => (1 <= c && c <= 8) || c == 11 || c == 12 || (14 <= c && c <= 31) || c == 33
            || (35 <= c && c <= 91) || (93 <= c && c <= 127),
        Class::Text => (1 <= c && c <= 9) || c == 11 || c == 12 || (14 <= c && c <= 127),
        Class::Ftext => (33 <= c && c <= 57) || (59 <= c && c <= 126),
        Class::ObsNoWsCtl => (1 <= c && c <= 8) || c == 11 || c == 12 || (14 <= c && c <= 31) || c
            == 127,
        Class::ObsUtext => c == 0 || (1 <= c && c <= 8) || c == 11 || c == 12 || (14 <= c && c
            <= 31) || (33 <= c && c <= 127),
        Class::DtextChar => (1 <= c && c <= 8) || c == 11 || c == 12 || (14 <= c && c <= 31) || (33
            <= c && c <= 90) || (94 <= c && c <= 127),
        Class::LfObsUtext => (c <= 8) || (10 <= c && c <= 12) || (14 <= c && c <= 31) || (33 <= c
            && c <= 127),
        Class::MimeToken => (32 <= c && c <= 33) || (35 <= c && c <= 39) || c == 42 || c == 43 || c == 45
            || c == 46 || (48 <= c && c <= 57) || (65 <= c && c <= 90) || (94 <= c && c <= 126),
        Class::BcharsNoSpace => c == 34 || (39 <= c && c <= 41) || (43 <= c && c <= 58) || c == 61 || c
            == 63 || (65 <= c && c <= 90) || c == 95 || (97 <= c && c <= 122),
    }
}

/// One byte of class `k` at `p`.
pub open spec fn spec_class_char(s: Seq<u8>, p: int, k: Class) -> Option<(int, u8)> {
    if 0 <= p < s.len() && spec_in_class(s[p], k) {
        Some((p + 1, s[p]))
    } else {
        None
    }
}

pub fn class_char(s: &[u8], pos: usize, k: Class) -> (r: Option<(usize, u8)>)
    requires
        pos <= s.len(),
    ensures
        lift(r) == spec_class_char(s@, pos as int, k),
        r matches Some((e, _)) ==> e == pos + 1 && e <= s.len(),
{
    if pos < s.len() && in_class(s[pos], k) {
        Some((pos + 1, s[pos]))
    } else {
        None
    }
}

/// The end of the longest run of class-`k` bytes starting at `p`.
pub open spec fn run_end(s: Seq<u8>, p: int, k: Class) -> int
    decreases s.len() - p,
{
    if 0 <= p < s.len() && spec_in_class(s[p], k) {
        run_end(s, p + 1, k)
    } else {
        p
    }
}

pub proof fn lemma_run_end(s: Seq<u8>, p: int, k: Class)
    requires
        0 <= p <= s.len(),
    ensures
        p <= run_end(s, p, k) <= s.len(),
        forall|i: int| p <= i < run_end(s, p, k) ==> spec_in_class(#[trigger] s[i], k),
        run_end(s, p, k) < s.len() ==> !spec_in_class(s[run_end(s, p, k)], k),
    decreases s.len() - p,
{
    if p < s.len() && spec_in_class(s[p], k) {
        lemma_run_end(s, p + 1, k);
    }
}

/// Skips the longest run of class-`k` bytes (`skip_many` / `take_while`).
pub fn skip_class(s: &[u8], pos: usize, k: Class) -> (e: usize)
    requires
        pos <= s.len(),
    ensures
        e as int == run_end(s@, pos as int, k),
        pos <= e <= s.len(),
{
    let mut i = pos;
    while i < s.len() && in_class(s[i], k)
        invariant
            pos <= i <= s.len(),
            run_end(s@, pos as int, k) == run_end(s@, i as int, k),
        decreases s.len() - i,
    {
        i = i + 1;
    }
    i
}

/// A non-empty run of class-`k` bytes (`skip_many1` / `take_while1`).
pub open spec fn spec_class_run1(s: Seq<u8>, p: int, k: Class) -> Option<int> {
    if run_end(s, p, k) > p {
        Some(run_end(s, p, k))
    } else {
        None
    }
}

pub fn class_run1(s: &[u8], pos: usize, k: Class) -> (r: Option<usize>)
    requires
        pos <= s.len(),
    ensures
        lift_end(r) == spec_class_run1(s@, pos as int, k),
        r matches Some(e) ==> pos < e <= s.len(),
{
    let e = skip_class(s, pos, k);
    if e > pos {
        Some(e)
    } else {
        None
    }
}

// ALPHA = %x41-5A / %x61-7A
pub fn alpha(s: &[u8], pos: usize) -> (r: Option<(usize, u8)>)
    requires pos <= s.len(),
    ensures lift(r) == spec_class_char(s@, pos as int, Class::Alpha),
        r matches Some((e, _)) ==> e == pos + 1 && e <= s.len(),
{
    class_char(s, pos, Class::Alpha)
}

/// `BIT`, read as the byte values 0 and 1.
pub open spec fn spec_bit(s: Seq<u8>, p: int) -> Option<(int, u8)> {
    if 0 <= p < s.len() && (s[p] == 0 || s[p] == 1) {
        Some((p + 1, s[p]))
    } else {
        None
    }
}

pub fn bit(s: &[u8], pos: usize) -> (r: Option<(usize, u8)>)
    requires pos <= s.len(),
    ensures lift(r) == spec_bit(s@, pos as int),
        r matches Some((e, _)) ==> e == pos + 1 && e <= s.len(),
{
    if pos < s.len() && (s[pos] == 0 || s[pos] == 1) {
        Some((pos + 1, s[pos]))
    } else {
        None
    }
}

// CR = %x0D
pub fn cr(s: &[u8], pos: usize) -> (r: Option<(usize, u8)>)
    requires pos <= s.len(),
    ensures lift(r) == spec_class_char(s@, pos as int, Class::Cr),
        r matches Some((e, _)) ==> e == pos + 1 && e <= s.len(),
{
    class_char(s, pos, Class::Cr)
}

/// `*CR`; returns the end of the run.
pub fn many_cr(s: &[u8], pos: usize) -> (e: usize)
    requires pos <= s.len(),
    ensures e as int == run_end(s@, pos as int, Class::Cr), pos <= e <= s.len(),
{
    skip_class(s, pos, Class::Cr)
}

/// `CRLF`: the two bytes 13, 10.
pub open spec fn spec_crlf(s: Seq<u8>, p: int) -> Option<int> {
    if 0 <= p && p + 2 <= s.len() && s[p] == 13 && s[p + 1] == 10 {
        Some(p + 2)
    } else {
        None
    }
}

/// `CRLF`; returns the position after it.
pub fn crlf(s: &[u8], pos: usize) -> (r: Option<usize>)
    requires pos <= s.len(),
    ensures lift_end(r) == spec_crlf(s@, pos as int),
        r matches Some(e) ==> e == pos + 2 && e <= s.len(),
{
    if s.len() >= 2 && pos <= s.len() - 2 && s[pos] == 13 && s[pos + 1] == 10 {
        Some(pos + 2)
    } else {
        None
    }
}

/// A literal byte `c` at `p` (`token`).
pub open spec fn spec_byte(s: Seq<u8>, p: int, c: u8) -> Option<int> {
    if 0 <= p < s.len() && s[p] == c {
        Some(p + 1)
    } else {
        None
    }
}

pub fn byte(s: &[u8], pos: usize, c: u8) -> (r: Option<usize>)
    requires pos <= s.len(),
    ensures lift_end(r) == spec_byte(s@, pos as int, c),
        r matches Some(e) ==> e == pos + 1 && e <= s.len(),
{
    if pos < s.len() && s[pos] == c {
        Some(pos + 1)
    } else {
        None
    }
}

// DQUOTE = %x22
pub fn dquote(s: &[u8], pos: usize) -> (r: Option<(usize, u8)>)
    requires pos <= s.len(),
    ensures lift(r) == (match spec_byte(s@, pos as int, 34) { Some(e) => Some((e, 34u8)), None => None }),
        r matches Some((e, _)) ==> e == pos + 1 && e <= s.len(),
{
    match byte(s, pos, 34) {
        Some(e) => Some((e, 34)),
        None => None,
    }
}

// HTAB = %x09
pub fn htab(s: &[u8], pos: usize) -> (r: Option<(usize, u8)>)
    requires pos <= s.len(),
    ensures lift(r) == (match spec_byte(s@, pos as int, 9) { Some(e) => Some((e, 9u8)), None => None }),
        r matches Some((e, _)) ==> e == pos + 1 && e <= s.len(),
{
    match byte(s, pos, 9) {
        Some(e) => Some((e, 9)),
        None => None,
    }
}

// LF = %x0A
pub fn lf(s: &[u8], pos: usize) -> (r: Option<(usize, u8)>)
    requires pos <= s.len(),
    ensures lift(r) == spec_class_char(s@, pos as int, Class::Lf),
        r matches Some((e, _)) ==> e == pos + 1 && e <= s.len(),
{
    class_char(s, pos, Class::Lf)
}

/// `*LF`; returns the end of the run.
pub fn many_lf(s: &[u8], pos: usize) -> (e: usize)
    requires pos <= s.len(),
    ensures e as int == run_end(s@, pos as int, Class::Lf), pos <= e <= s.len(),
{
    skip_class(s, pos, Class::Lf)
}

// SP = %x20
pub fn sp(s: &[u8], pos: usize) -> (r: Option<(usize, u8)>)
    requires pos <= s.len(),
    ensures lift(r) == (match spec_byte(s@, pos as int, 32) { Some(e) => Some((e, 32u8)), None => None }),
        r matches Some((e, _)) ==> e == pos + 1 && e <= s.len(),
{
    match byte(s, pos, 32) {
        Some(e) => Some((e, 32)),
        None => None,
    }
}

// VCHAR = %x21-7E
pub fn vchar(s: &[u8], pos: usize) -> (r: Option<(usize, u8)>)
    requires pos <= s.len(),
    ensures lift(r) == spec_class_char(s@, pos as int, Class::Vchar),
        r matches Some((e, _)) ==> e == pos + 1 && e <= s.len(),
{
    class_char(s, pos, Class::Vchar)
}

// WSP = SP / HTAB
pub fn wsp(s: &[u8], pos: usize) -> (r: Option<(usize, u8)>)
    requires pos <= s.len(),
    ensures lift(r) == spec_class_char(s@, pos as int, Class::Wsp),
        r matches Some((e, _)) ==> e == pos + 1 && e <= s.len(),
{
    class_char(s, pos, Class::Wsp)
}

// ctext = %d33-39 / %d42-91 / %d93-126 / obs-ctext
pub fn ctext(s: &[u8], pos: usize) -> (r: Option<(usize, u8)>)
    requires pos <= s.len(),
    ensures lift(r) == spec_class_char(s@, pos as int, Class::Ctext),
        r matches Some((e, _)) ==> e == pos + 1 && e <= s.len(),
{
    class_char(s, pos, Class::Ctext)
}

// atext = ALPHA / DIGIT / "!" / "#" / "$" / "%" / "&" / "'" / "*" / "+" / "-" /
//         "/" / "=" / "?" / "^" / "_" / "`" / "{" / "|" / "}" / "~"
pub fn atext(s: &[u8], pos: usize) -> (r: Option<(usize, u8)>)
    requires pos <= s.len(),
    ensures lift(r) == spec_class_char(s@, pos as int, Class::Atext),
        r matches Some((e, _)) ==> e == pos + 1 && e <= s.len(),
{
    class_char(s, pos, Class::Atext)
}

// qtext = %d33 / %d35-91 / %d93-126 / obs-qtext
pub fn qtext(s: &[u8], pos: usize) -> (r: Option<(usize, u8)>)
    requires pos <= s.len(),
    ensures lift(r) == spec_class_char(s@, pos as int, Class::Qtext),
        r matches Some((e, _)) ==> e == pos + 1 && e <= s.len(),
{
    class_char(s, pos, Class::Qtext)
}

// text = %d1-9 / %d11 / %d12 / %d14-127
pub fn text(s: &[u8], pos: usize) -> (r: Option<(usize, u8)>)
    requires pos <= s.len(),
    ensures lift(r) == spec_class_char(s@, pos as int, Class::Text),
        r matches Some((e, _)) ==> e == pos + 1 && e <= s.len(),
{
    class_char(s, pos, Class::Text)
}

// ftext = %d33-57 / %d59-126
pub fn ftext(s: &[u8], pos: usize) -> (r: Option<(usize, u8)>)
    requires pos <= s.len(),
    ensures lift(r) == spec_class_char(s@, pos as int, Class::Ftext),
        r matches Some((e, _)) ==> e == pos + 1 && e <= s.len(),
{
    class_char(s, pos, Class::Ftext)
}

// obs-NO-WS-CTL = %d1-8 / %d11 / %d12 / %d14-31 / %d127
pub fn obs_no_ws_ctl(s: &[u8], pos: usize) -> (r: Option<(usize, u8)>)
    requires pos <= s.len(),
    ensures lift(r) == spec_class_char(s@, pos as int, Class::ObsNoWsCtl),
        r matches Some((e, _)) ==> e == pos + 1 && e <= s.len(),
{
    class_char(s, pos, Class::ObsNoWsCtl)
}

// obs-ctext = obs-NO-WS-CTL
pub fn obs_ctext(s: &[u8], pos: usize) -> (r: Option<(usize, u8)>)
    requires pos <= s.len(),
    ensures lift(r) == spec_class_char(s@, pos as int, Class::ObsNoWsCtl),
        r matches Some((e, _)) ==> e == pos + 1 && e <= s.len(),
{
    obs_no_ws_ctl(s, pos)
}

// obs-qtext = obs-NO-WS-CTL
pub fn obs_qtext(s: &[u8], pos: usize) -> (r: Option<(usize, u8)>)
    requires pos <= s.len(),
    ensures lift(r) == spec_class_char(s@, pos as int, Class::ObsNoWsCtl),
        r matches Some((e, _)) ==> e == pos + 1 && e <= s.len(),
{
    obs_no_ws_ctl(s, pos)
}

// obs-utext = %d0 / obs-NO-WS-CTL / VCHAR
pub fn obs_utext(s: &[u8], pos: usize) -> (r: Option<(usize, u8)>)
    requires pos <= s.len(),
    ensures lift(r) == spec_class_char(s@, pos as int, Class::ObsUtext),
        r matches Some((e, _)) ==> e == pos + 1 && e <= s.len(),
{
    class_char(s, pos, Class::ObsUtext)
}

/// `1*obs-utext`; returns the end of the run.
pub fn many1_obs_utext(s: &[u8], pos: usize) -> (r: Option<usize>)
    requires pos <= s.len(),
    ensures lift_end(r) == spec_class_run1(s@, pos as int, Class::ObsUtext),
        r matches Some(e) ==> pos < e <= s.len(),
{
    class_run1(s, pos, Class::ObsUtext)
}

/// The byte that may follow a backslash in `quoted-pair`:
/// `VCHAR / WSP` or, from `obs-qp`, `%d0 / obs-NO-WS-CTL / LF / CR`.
pub open spec fn spec_quotable(c: u8) -> bool {
    spec_in_class(c, Class::Vchar) || spec_in_class(c, Class::Wsp) || c == 0
        || spec_in_class(c, Class::ObsNoWsCtl) || c == 10 || c == 13
}

/// `quoted-pair = ("\" (VCHAR / WSP)) / obs-qp`; the value is the quoted
/// character alone, the backslash being semantically invisible.
pub open spec fn spec_quoted_pair(s: Seq<u8>, p: int) -> Option<(int, u8)> {
    if 0 <= p && p + 2 <= s.len() && s[p] == 92 && spec_quotable(s[p + 1]) {
        Some((p + 2, s[p + 1]))
    } else {
        None
    }
}

pub fn quoted_pair(s: &[u8], pos: usize) -> (r: Option<(usize, u8)>)
    requires pos <= s.len(),
    ensures lift(r) == spec_quoted_pair(s@, pos as int),
        r matches Some((e, _)) ==> e == pos + 2 && e <= s.len(),
{
    if s.len() >= 2 && pos <= s.len() - 2 && s[pos] == 92 {
        let c = s[pos + 1];
        if in_class(c, Class::Vchar) || in_class(c, Class::Wsp) || c == 0 || in_class(c, Class::ObsNoWsCtl)
            || c == 10 || c == 13 {
            return Some((pos + 2, c));
        }
    }
    None
}

/// `obs-qp = "\" (%d0 / obs-NO-WS-CTL / LF / CR)`
pub open spec fn spec_obs_qp(s: Seq<u8>, p: int) -> Option<(int, u8)> {
    if 0 <= p && p + 2 <= s.len() && s[p] == 92 && (s[p + 1] == 0 || spec_in_class(s[p + 1], Class::ObsNoWsCtl)
        || s[p + 1] == 10 || s[p + 1] == 13) {
        Some((p + 2, s[p + 1]))
    } else {
        None
    }
}

pub fn obs_qp(s: &[u8], pos: usize) -> (r: Option<(usize, u8)>)
    requires pos <= s.len(),
    ensures lift(r) == spec_obs_qp(s@, pos as int),
        r matches Some((e, _)) ==> e == pos + 2 && e <= s.len(),
{
    if s.len() >= 2 && pos <= s.len() - 2 && s[pos] == 92 {
        let c = s[pos + 1];
        if c == 0 || in_class(c, Class::ObsNoWsCtl) || c == 10 || c == 13 {
            return Some((pos + 2, c));
        }
    }
    None
}

/// `qcontent = qtext / quoted-pair`
pub open spec fn spec_qcontent(s: Seq<u8>, p: int) -> Option<(int, u8)> {
    match spec_class_char(s, p, Class::Qtext) {
        Some(r) => Some(r),
        None => spec_quoted_pair(s, p),
    }
}

pub fn qcontent(s: &[u8], pos: usize) -> (r: Option<(usize, u8)>)
    requires pos <= s.len(),
    ensures lift(r) == spec_qcontent(s@, pos as int),
        r matches Some((e, _)) ==> pos < e <= s.len(),
{
    match qtext(s, pos) {
        Some(r) => Some(r),
        None => quoted_pair(s, pos),
    }
}

/// `dtext` with `obs-dtext` substituted: %d1-8 / %d11 / %d12 / %d14-31 /
/// %d33-90 / %d94-127 / quoted-pair
pub open spec fn spec_dtext(s: Seq<u8>, p: int) -> Option<(int, u8)> {
    match spec_class_char(s, p, Class::DtextChar) {
        Some(r) => Some(r),
        None => spec_quoted_pair(s, p),
    }
}

pub fn dtext(s: &[u8], pos: usize) -> (r: Option<(usize, u8)>)
    requires pos <= s.len(),
    ensures lift(r) == spec_dtext(s@, pos as int),
        r matches Some((e, _)) ==> pos < e <= s.len(),
{
    match class_char(s, pos, Class::DtextChar) {
        Some(r) => Some(r),
        None => quoted_pair(s, pos),
    }
}

/// The literal `l` at `p` (`string`).
pub open spec fn spec_lit(s: Seq<u8>, p: int, l: Seq<u8>) -> Option<int> {
    if 0 <= p && p + l.len() <= s.len() && s.subrange(p, p + l.len()) == l {
        Some(p + l.len())
    } else {
        None
    }
}

/// The literal `l` at `pos`; returns the position after it.
pub fn lit(s: &[u8], pos: usize, l: &[u8]) -> (r: Option<usize>)
    requires
        pos <= s.len(),
    ensures
        lift_end(r) == spec_lit(s@, pos as int, l@),
        r matches Some(e) ==> e == pos + l.len() && e <= s.len(),
{
    if l.len() > s.len() - pos {
        return None;
    }
    let mut i: usize = 0;
    while i < l.len()
        invariant
            pos + l.len() <= s.len(),
            i <= l.len(),
            forall|j: int| 0 <= j < i ==> s@[pos + j] == #[trigger] l@[j],
        decreases l.len() - i,
    {
        if s[pos + i] != l[i] {
            assert(s@.subrange(pos as int, pos + l@.len())[i as int] != l@[i as int]);
            return None;
        }
        i = i + 1;
    }
    assert(s@.subrange(pos as int, pos + l@.len()) =~= l@);
    Some(pos + l.len())
}

} // verus!
