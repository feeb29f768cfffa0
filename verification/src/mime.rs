//! MIME header fields (RFC 2045): `MIME-Version`, `Content-Type`,
//! `Content-Transfer-Encoding`, `Content-ID` and `Content-Description`.

use vstd::prelude::*;
use crate::{Field, FieldKind, FieldModel, MIMEVersionField, ContentTypeField, EncodingField};
use crate::util::{lift, spec_downcase, spec_downcased_string, downcased_string, copy_range, ascii_chars, ascii_string, spec_parse_digits, parse_digits};
use crate::rfc5322::chars::{Class, spec_in_class, run_end, lemma_run_end, skip_class};
use crate::rfc5322::lexical::{spec_comment, comment};
use crate::rfc5322::fields::{spec_drop_field_name, drop_field_name, spec_field_named, field_named};

verus! {

/// A top-level media type.
#[derive(Debug, PartialEq, Eq)]
pub enum TopLevel {
    Text,
    Image,
    Audio,
    Video,
    Application,
    Message,
    Multipart,
    /// An extension token, as written (`X-...`).
    Ext(String),
}

/// The name of a top-level media type.
pub open spec fn spec_top_level_name(t: TopLevel) -> Seq<char> {
    match t {
        TopLevel::Text => "text"@,
        TopLevel::Image => "image"@,
        TopLevel::Audio => "audio"@,
        TopLevel::Video => "video"@,
        TopLevel::Application => "application"@,
        TopLevel::Message => "message"@,
        TopLevel::Multipart => "multipart"@,
        TopLevel::Ext(s) => s@,
    }
}

impl TopLevel {
    /// The name of the media type.
    pub fn to_string(&self) -> (r: String)
        ensures
            r@ == spec_top_level_name(*self),
    {
        match self {
            TopLevel::Text => String::from_str("text"),
            TopLevel::Image => String::from_str("image"),
            TopLevel::Audio => String::from_str("audio"),
            TopLevel::Video => String::from_str("video"),
            TopLevel::Application => String::from_str("application"),
            TopLevel::Message => String::from_str("message"),
            TopLevel::Multipart => String::from_str("multipart"),
            TopLevel::Ext(s) => s.clone(),
        }
    }
}

/// A media subtype.
#[derive(Debug, PartialEq, Eq)]
pub enum SubLevel {
    Plain,
    /// An extension token, as written (`X-...`).
    Ext(String),
}

/// The name of a media subtype.
pub open spec fn spec_sub_level_name(t: SubLevel) -> Seq<char> {
    match t {
        SubLevel::Plain => "plain"@,
        SubLevel::Ext(s) => s@,
    }
}

impl SubLevel {
    /// The name of the subtype.
    pub fn to_string(&self) -> (r: String)
        ensures
            r@ == spec_sub_level_name(*self),
    {
        match self {
            SubLevel::Plain => String::from_str("plain"),
            SubLevel::Ext(s) => s.clone(),
        }
    }
}

/// A content transfer encoding.
#[derive(Debug, PartialEq, Eq)]
pub enum Encoding {
    SevenBit,
    EightBit,
    Binary,
    QuotedPrintable,
    Base64,
    /// An extension token, as written (`X-...`).
    Ext(String),
}

/// The name of a content transfer encoding.
pub open spec fn spec_encoding_name(t: Encoding) -> Seq<char> {
    match t {
        Encoding::SevenBit => "7bit"@,
        Encoding::EightBit => "8bit"@,
        Encoding::Binary => "binary"@,
        Encoding::QuotedPrintable => "quoted-printable"@,
        Encoding::Base64 => "base64"@,
        Encoding::Ext(s) => s@,
    }
}

impl Encoding {
    /// The name of the encoding.
    pub fn to_string(&self) -> (r: String)
        ensures
            r@ == spec_encoding_name(*self),
    {
        match self {
            Encoding::SevenBit => String::from_str("7bit"),
            Encoding::EightBit => String::from_str("8bit"),
            Encoding::Binary => String::from_str("binary"),
            Encoding::QuotedPrintable => String::from_str("quoted-printable"),
            Encoding::Base64 => String::from_str("base64"),
            Encoding::Ext(s) => s.clone(),
        }
    }
}

/// The value of a [`TopLevel`]: its variant, with the text of an extension.
pub enum TopLevelModel {
    Text,
    Image,
    Audio,
    Video,
    Application,
    Message,
    Multipart,
    Ext(Seq<char>),
}

impl View for TopLevel {
    type V = TopLevelModel;

    open spec fn view(&self) -> TopLevelModel {
        match self {
            TopLevel::Text => TopLevelModel::Text,
            TopLevel::Image => TopLevelModel::Image,
            TopLevel::Audio => TopLevelModel::Audio,
            TopLevel::Video => TopLevelModel::Video,
            TopLevel::Application => TopLevelModel::Application,
            TopLevel::Message => TopLevelModel::Message,
            TopLevel::Multipart => TopLevelModel::Multipart,
            TopLevel::Ext(s) => TopLevelModel::Ext(s@),
        }
    }
}

/// The value of a [`SubLevel`]: its variant, with the text of an extension.
pub enum SubLevelModel {
    Plain,
    Ext(Seq<char>),
}

impl View for SubLevel {
    type V = SubLevelModel;

    open spec fn view(&self) -> SubLevelModel {
        match self {
            SubLevel::Plain => SubLevelModel::Plain,
            SubLevel::Ext(s) => SubLevelModel::Ext(s@),
        }
    }
}

/// The value of an [`Encoding`]: its variant, with the text of an
/// extension.
pub enum EncodingModel {
    SevenBit,
    EightBit,
    Binary,
    QuotedPrintable,
    Base64,
    Ext(Seq<char>),
}

impl View for Encoding {
    type V = EncodingModel;

    open spec fn view(&self) -> EncodingModel {
        match self {
            Encoding::SevenBit => EncodingModel::SevenBit,
            Encoding::EightBit => EncodingModel::EightBit,
            Encoding::Binary => EncodingModel::Binary,
            Encoding::QuotedPrintable => EncodingModel::QuotedPrintable,
            Encoding::Base64 => EncodingModel::Base64,
            Encoding::Ext(s) => EncodingModel::Ext(s@),
        }
    }
}

// ---------------------------------------------------------------------------
// token and x-token
// ---------------------------------------------------------------------------

/// `token`: a possibly empty run of token bytes; returns its end.
pub fn mime_token(s: &[u8], pos: usize) -> (e: usize)
    requires
        pos <= s.len(),
    ensures
        e as int == run_end(s@, pos as int, Class::MimeToken),
        pos <= e <= s.len(),
{
    skip_class(s, pos, Class::MimeToken)
}

/// `x-token`: "X-" or "x-" followed by a token; the value is the whole
/// token as written.
pub open spec fn spec_x_token(s: Seq<u8>, p: int) -> Option<(int, Seq<char>)> {
    match spec_downcased_string(s, p, seq![88u8, 45]) {  // X-
        Some(a) => {
            let e = run_end(s, a, Class::MimeToken);
            Some((e, ascii_chars(s.subrange(p, e))))
        },
        None => None,
    }
}

/// An `x-token` read as a top-level type.
pub open spec fn spec_type_x_token(s: Seq<u8>, p: int) -> Option<(int, TopLevelModel)> {
    match spec_x_token(s, p) {
        Some((e, n)) => Some((e, TopLevelModel::Ext(n))),
        None => None,
    }
}

/// An `x-token` read as a subtype.
pub open spec fn spec_subtype_x_token(s: Seq<u8>, p: int) -> Option<(int, SubLevelModel)> {
    match spec_x_token(s, p) {
        Some((e, n)) => Some((e, SubLevelModel::Ext(n))),
        None => None,
    }
}

/// An `x-token` read as a transfer encoding.
pub open spec fn spec_mechanism_x_token(s: Seq<u8>, p: int) -> Option<(int, EncodingModel)> {
    match spec_x_token(s, p) {
        Some((e, n)) => Some((e, EncodingModel::Ext(n))),
        None => None,
    }
}

/// The text of an `x-token` at `pos`.
fn x_token(s: &[u8], pos: usize) -> (r: Option<(usize, String)>)
    requires
        pos <= s.len(),
    ensures
        match r {
            Some((e, t)) => spec_x_token(s@, pos as int) == Some((e as int, t@)) && pos < e <= s.len(),
            None => spec_x_token(s@, pos as int) is None,
        },
{
    match downcased_string(s, pos, &[88u8, 45]) {
        Ok(a) => {
            let e = mime_token(s, a);
            let b = copy_range(s, pos, e);
            proof {
                lemma_run_end(s@, a as int, Class::MimeToken);
                assert forall|i: int| 0 <= i < b@.len() implies #[trigger] b@[i] < 128 by {
                    assert(b@[i] == s@[pos + i]);
                    if i < 2 {
                        assert(spec_downcase(s@[pos + i]) == spec_downcase(seq![88u8, 45][i]));
                    } else {
                        assert(spec_in_class(s@[pos + i], Class::MimeToken));
                    }
                }
            }
            Some((e, ascii_string(b)))
        },
        Err(_) => None,
    }
}

/// `type x-token`, as a top-level type.
pub fn type_x_token(s: &[u8], pos: usize) -> (r: Option<(usize, TopLevel)>)
    requires
        pos <= s.len(),
    ensures
        lift(r) == spec_type_x_token(s@, pos as int),
        r matches Some((e, _)) ==> pos < e <= s.len(),
{
    match x_token(s, pos) {
        Some((e, t)) => Some((e, TopLevel::Ext(t))),
        None => None,
    }
}

/// `x-token`, as a subtype.
pub fn subtype_x_token(s: &[u8], pos: usize) -> (r: Option<(usize, SubLevel)>)
    requires
        pos <= s.len(),
    ensures
        lift(r) == spec_subtype_x_token(s@, pos as int),
        r matches Some((e, _)) ==> pos < e <= s.len(),
{
    match x_token(s, pos) {
        Some((e, t)) => Some((e, SubLevel::Ext(t))),
        None => None,
    }
}

/// `x-token`, as a transfer encoding.
pub fn mechanism_x_token(s: &[u8], pos: usize) -> (r: Option<(usize, Encoding)>)
    requires
        pos <= s.len(),
    ensures
        lift(r) == spec_mechanism_x_token(s@, pos as int),
        r matches Some((e, _)) ==> pos < e <= s.len(),
{
    match x_token(s, pos) {
        Some((e, t)) => Some((e, Encoding::Ext(t))),
        None => None,
    }
}

/// `extension-token = ietf-token / x-token`, read as `x-token`, for a
/// top-level type.
pub fn type_extension_token(s: &[u8], pos: usize) -> (r: Option<(usize, TopLevel)>)
    requires
        pos <= s.len(),
    ensures
        lift(r) == spec_type_x_token(s@, pos as int),
        r matches Some((e, _)) ==> pos < e <= s.len(),
{
    type_x_token(s, pos)
}

/// `extension-token`, read as `x-token`, for a subtype.
pub fn subtype_extension_token(s: &[u8], pos: usize) -> (r: Option<(usize, SubLevel)>)
    requires
        pos <= s.len(),
    ensures
        lift(r) == spec_subtype_x_token(s@, pos as int),
        r matches Some((e, _)) ==> pos < e <= s.len(),
{
    subtype_x_token(s, pos)
}

/// `extension-token`, read as `x-token`, for a transfer encoding.
pub fn mechanism_extension_token(s: &[u8], pos: usize) -> (r: Option<(usize, Encoding)>)
    requires
        pos <= s.len(),
    ensures
        lift(r) == spec_mechanism_x_token(s@, pos as int),
        r matches Some((e, _)) ==> pos < e <= s.len(),
{
    mechanism_x_token(s, pos)
}

// ---------------------------------------------------------------------------
// Media types
// ---------------------------------------------------------------------------

/// `discrete-type = "text" / "image" / "audio" / "video" / "application" /
/// extension-token`, the names matched without regard to case.
pub open spec fn spec_discrete_type(s: Seq<u8>, p: int) -> Option<(int, TopLevelModel)> {
    match spec_downcased_string(s, p, seq![116u8, 101, 120, 116]) {  // text
        Some(e) => Some((e, TopLevelModel::Text)),
        None => match spec_downcased_string(s, p, seq![105u8, 109, 97, 103, 101]) {  // image
            Some(e) => Some((e, TopLevelModel::Image)),
            None => match spec_downcased_string(s, p, seq![97u8, 117, 100, 105, 111]) {  // audio
                Some(e) => Some((e, TopLevelModel::Audio)),
                None => match spec_downcased_string(s, p, seq![118u8, 105, 100, 101, 111]) {  // video
                    Some(e) => Some((e, TopLevelModel::Video)),
                    None => match spec_downcased_string(s, p, seq![97u8, 112, 112, 108, 105, 99, 97, 116, 105, 111, 110]) {  // application
                        Some(e) => Some((e, TopLevelModel::Application)),
                        None => spec_type_x_token(s, p),
                    },
                },
            },
        },
    }
}

/// `discrete-type`
pub fn discrete_type(s: &[u8], pos: usize) -> (r: Option<(usize, TopLevel)>)
    requires
        pos <= s.len(),
    ensures
        lift(r) == spec_discrete_type(s@, pos as int),
        r matches Some((e, _)) ==> pos < e <= s.len(),
{
    match downcased_string(s, pos, &[116u8, 101, 120, 116]) {  // text
        Ok(e) => Some((e, TopLevel::Text)),
        Err(_) => match downcased_string(s, pos, &[105u8, 109, 97, 103, 101]) {  // image
            Ok(e) => Some((e, TopLevel::Image)),
            Err(_) => match downcased_string(s, pos, &[97u8, 117, 100, 105, 111]) {  // audio
                Ok(e) => Some((e, TopLevel::Audio)),
                Err(_) => match downcased_string(s, pos, &[118u8, 105, 100, 101, 111]) {  // video
                    Ok(e) => Some((e, TopLevel::Video)),
                    Err(_) => match downcased_string(s, pos, &[97u8, 112, 112, 108, 105, 99, 97, 116, 105, 111, 110]) {  // application
                        Ok(e) => Some((e, TopLevel::Application)),
                        Err(_) => type_extension_token(s, pos),
                    },
                },
            },
        },
    }
}

/// `composite-type = "message" / "multipart" / extension-token`
pub open spec fn spec_composite_type(s: Seq<u8>, p: int) -> Option<(int, TopLevelModel)> {
    match spec_downcased_string(s, p, seq![109u8, 101, 115, 115, 97, 103, 101]) {  // message
        Some(e) => Some((e, TopLevelModel::Message)),
        None => match spec_downcased_string(s, p, seq![109u8, 117, 108, 116, 105, 112, 97, 114, 116]) {  // multipart
            Some(e) => Some((e, TopLevelModel::Multipart)),
            None => spec_type_x_token(s, p),
        },
    }
}

/// `composite-type`
pub fn composite_type(s: &[u8], pos: usize) -> (r: Option<(usize, TopLevel)>)
    requires
        pos <= s.len(),
    ensures
        lift(r) == spec_composite_type(s@, pos as int),
        r matches Some((e, _)) ==> pos < e <= s.len(),
{
    match downcased_string(s, pos, &[109u8, 101, 115, 115, 97, 103, 101]) {  // message
        Ok(e) => Some((e, TopLevel::Message)),
        Err(_) => match downcased_string(s, pos, &[109u8, 117, 108, 116, 105, 112, 97, 114, 116]) {  // multipart
            Ok(e) => Some((e, TopLevel::Multipart)),
            Err(_) => type_extension_token(s, pos),
        },
    }
}

/// `type = discrete-type / composite-type`
pub open spec fn spec_mime_type(s: Seq<u8>, p: int) -> Option<(int, TopLevelModel)> {
    match spec_discrete_type(s, p) {
        Some(r) => Some(r),
        None => spec_composite_type(s, p),
    }
}

/// `type = discrete-type / composite-type`
pub fn mime_type(s: &[u8], pos: usize) -> (r: Option<(usize, TopLevel)>)
    requires
        pos <= s.len(),
    ensures
        lift(r) == spec_mime_type(s@, pos as int),
        r matches Some((e, _)) ==> pos < e <= s.len(),
{
    match discrete_type(s, pos) {
        Some(r) => Some(r),
        None => composite_type(s, pos),
    }
}

/// `subtype = extension-token / iana-token`, read as `x-token`.
pub fn subtype(s: &[u8], pos: usize) -> (r: Option<(usize, SubLevel)>)
    requires
        pos <= s.len(),
    ensures
        lift(r) == spec_subtype_x_token(s@, pos as int),
        r matches Some((e, _)) ==> pos < e <= s.len(),
{
    subtype_extension_token(s, pos)
}

// ---------------------------------------------------------------------------
// Parameters
// ---------------------------------------------------------------------------

/// `attribute = token`; returns its end.
pub fn attribute(s: &[u8], pos: usize) -> (e: usize)
    requires
        pos <= s.len(),
    ensures
        e as int == run_end(s@, pos as int, Class::MimeToken),
        pos <= e <= s.len(),
{
    mime_token(s, pos)
}

/// `value = token / quoted-string`.  As the token may be empty, its branch
/// always matches: the value is the token, as written.
pub fn value(s: &[u8], pos: usize) -> (r: (usize, Vec<u8>))
    requires
        pos <= s.len(),
    ensures
        r.0 as int == run_end(s@, pos as int, Class::MimeToken),
        r.1@ == s@.subrange(pos as int, r.0 as int),
        pos <= r.0 <= s.len(),
{
    let e = mime_token(s, pos);
    (e, copy_range(s, pos, e))
}

/// `parameter = attribute "=" value`: the name (as text) and the value.
pub open spec fn spec_parameter(s: Seq<u8>, p: int) -> Option<(int, (Seq<char>, Seq<u8>))> {
    let a = run_end(s, p, Class::MimeToken);
    if 0 <= a < s.len() && s[a] == 61 {
        let e = run_end(s, a + 1, Class::MimeToken);
        Some((e, (ascii_chars(s.subrange(p, a)), s.subrange(a + 1, e))))
    } else {
        None
    }
}

/// `parameter = attribute "=" value`
pub fn parameter(s: &[u8], pos: usize) -> (r: Option<(usize, (String, Vec<u8>))>)
    requires
        pos <= s.len(),
    ensures
        match r {
            Some((e, (n, v))) => spec_parameter(s@, pos as int) == Some((e as int, (n@, v@))) && pos < e
                <= s.len(),
            None => spec_parameter(s@, pos as int) is None,
        },
{
    let a = attribute(s, pos);
    if !(a < s.len() && s[a] == 61) {
        return None;
    }
    let (e, v) = value(s, a + 1);
    let b = copy_range(s, pos, a);
    proof {
        lemma_run_end(s@, pos as int, Class::MimeToken);
        assert forall|i: int| 0 <= i < b@.len() implies #[trigger] b@[i] < 128 by {
            assert(b@[i] == s@[pos + i]);
        }
    }
    Some((e, (ascii_string(b), v)))
}

/// The values of a list of parameters.
pub open spec fn param_views(v: Seq<(String, Vec<u8>)>) -> Seq<(Seq<char>, Seq<u8>)> {
    v.map_values(|x: (String, Vec<u8>)| (x.0@, x.1@))
}

/// `*(";" parameter)` from `q` on: the end and the parameters, in order.
pub open spec fn param_items(s: Seq<u8>, q: int) -> (int, Seq<(Seq<char>, Seq<u8>)>)
    decreases s.len() - q,
{
    if 0 <= q < s.len() && s[q] == 59 {
        match spec_parameter(s, q + 1) {
            Some((e, x)) => if q < e <= s.len() {
                let t = param_items(s, e);
                (t.0, seq![x] + t.1)
            } else {
                (q, Seq::empty())
            },
            None => (q, Seq::empty()),
        }
    } else {
        (q, Seq::empty())
    }
}

proof fn lemma_param_items(s: Seq<u8>, q: int)
    requires
        0 <= q <= s.len(),
    ensures
        q <= param_items(s, q).0 <= s.len(),
    decreases s.len() - q,
{
    if 0 <= q < s.len() && s[q] == 59 {
        if let Some((e, x)) = spec_parameter(s, q + 1) {
            if q < e <= s.len() {
                lemma_param_items(s, e);
            }
        }
    }
}

/// `*(";" parameter)`
fn params(s: &[u8], pos: usize) -> (r: (usize, Vec<(String, Vec<u8>)>))
    requires
        pos <= s.len(),
    ensures
        (r.0 as int, param_views(r.1@)) == param_items(s@, pos as int),
        pos <= r.0 <= s.len(),
{
    let mut out: Vec<(String, Vec<u8>)> = Vec::new();
    let mut q = pos;
    proof {
        lemma_param_items(s@, pos as int);
    }
    loop
        invariant
            pos <= q <= s.len(),
            param_items(s@, pos as int) == (param_items(s@, q as int).0, param_views(out@) + param_items(
                s@,
                q as int,
            ).1),
        ensures
            pos <= q <= s.len(),
            param_items(s@, pos as int) == (q as int, param_views(out@)),
        decreases s.len() - q,
    {
        if !(q < s.len() && s[q] == 59) {
            assert(param_views(out@) + Seq::<(Seq<char>, Seq<u8>)>::empty() =~= param_views(out@));
            break;
        }
        match parameter(s, q + 1) {
            Some((e, x)) => {
                let ghost before = out@;
                let ghost xv = (x.0@, x.1@);
                out.push(x);
                assert(param_views(out@) =~= param_views(before).push(xv));
                assert(param_views(before) + (seq![xv] + param_items(s@, e as int).1) =~= param_views(out@)
                    + param_items(s@, e as int).1);
                q = e;
            },
            None => {
                assert(param_views(out@) + Seq::<(Seq<char>, Seq<u8>)>::empty() =~= param_views(out@));
                break;
            },
        }
    }
    (q, out)
}

/// The index of the parameter named `k` in `m[i..]`.
pub open spec fn param_find(m: Seq<(Seq<char>, Seq<u8>)>, k: Seq<char>, i: int) -> Option<int>
    decreases m.len() - i,
{
    if 0 <= i < m.len() {
        if m[i].0 == k {
            Some(i)
        } else {
            param_find(m, k, i + 1)
        }
    } else {
        None
    }
}

/// `m` with the parameter `k` set to `v`: its value replaced where the name
/// is already there, else added at the end.
pub open spec fn param_insert(m: Seq<(Seq<char>, Seq<u8>)>, k: Seq<char>, v: Seq<u8>) -> Seq<(Seq<char>, Seq<u8>)> {
    match param_find(m, k, 0) {
        Some(i) => m.update(i, (k, v)),
        None => m.push((k, v)),
    }
}

/// The parameters as a map from name to value, listed in the order in
/// which the names first occur; a name given twice keeps its last value.
pub open spec fn collect_params(ps: Seq<(Seq<char>, Seq<u8>)>) -> Seq<(Seq<char>, Seq<u8>)>
    decreases ps.len(),
{
    if ps.len() == 0 {
        Seq::empty()
    } else {
        param_insert(collect_params(ps.drop_last()), ps.last().0, ps.last().1)
    }
}

fn insert_param(m: &mut Vec<(String, Vec<u8>)>, k: String, v: Vec<u8>)
    ensures
        param_views(final(m)@) == param_insert(param_views(old(m)@), k@, v@),
{
    let ghost mv = param_views(m@);
    let mut i: usize = 0;
    while i < m.len()
        invariant
            i <= m@.len(),
            mv == param_views(m@),
            mv == param_views(old(m)@),
            param_find(mv, k@, 0) == param_find(mv, k@, i as int),
        decreases m.len() - i,
    {
        assert(mv[i as int] == (m@[i as int].0@, m@[i as int].1@));
        if m[i].0 == k {
            assert(param_find(mv, k@, i as int) == Some(i as int));
            let ghost kv = (k@, v@);
            m.set(i, (k, v));
            assert(param_views(m@) =~= mv.update(i as int, kv));
            return;
        }
        i = i + 1;
    }
    let ghost kv = (k@, v@);
    m.push((k, v));
    assert(param_views(m@) =~= mv.push(kv));
}

/// The parameters, each name once with its last value.
fn collect(ps: &Vec<(String, Vec<u8>)>) -> (r: Vec<(String, Vec<u8>)>)
    ensures
        param_views(r@) == collect_params(param_views(ps@)),
{
    let mut out: Vec<(String, Vec<u8>)> = Vec::new();
    let mut i: usize = 0;
    while i < ps.len()
        invariant
            i <= ps@.len(),
            param_views(out@) == collect_params(param_views(ps@).take(i as int)),
        decreases ps.len() - i,
    {
        let k = ps[i].0.clone();
        let v = copy_range(ps[i].1.as_slice(), 0, ps[i].1.len());
        proof {
            assert(ps[i as int].1@.subrange(0, ps[i as int].1@.len() as int) =~= ps[i as int].1@);
            let t = param_views(ps@).take(i + 1);
            assert(t.drop_last() =~= param_views(ps@).take(i as int));
            assert(t.last() == (k@, v@));
        }
        insert_param(&mut out, k, v);
        i = i + 1;
    }
    assert(param_views(ps@).take(ps@.len() as int) =~= param_views(ps@));
    out
}

// ---------------------------------------------------------------------------
// The MIME header fields
// ---------------------------------------------------------------------------

/// `[comment]`: the end of a comment at `p`, or `p` when there is none.
pub open spec fn opt_comment(s: Seq<u8>, p: int) -> int {
    match spec_comment(s, p) {
        Some(e) => e,
        None => p,
    }
}

fn skip_opt_comment(s: &[u8], pos: usize) -> (e: usize)
    requires
        pos <= s.len(),
    ensures
        e as int == opt_comment(s@, pos as int),
        pos <= e <= s.len(),
{
    match comment(s, pos) {
        Some(e) => e,
        None => pos,
    }
}

/// `version := "MIME-Version" ":" [comment] 1*DIGIT [comment] "."
/// [comment] 1*DIGIT [comment]`: the major and minor version.
pub open spec fn spec_version(s: Seq<u8>, p: int) -> Option<(int, (usize, usize))> {
    match spec_drop_field_name(s, p, seq![77u8, 73, 77, 69, 45, 86, 101, 114, 115, 105, 111, 110]) {  // MIME-Version
        Some(c) => match spec_parse_digits(s, opt_comment(s, c), 1, None) {
            Some((a, l)) => {
                let d = opt_comment(s, a);
                if 0 <= d < s.len() && s[d] == 46 {
                    match spec_parse_digits(s, opt_comment(s, d + 1), 1, None) {
                        Some((b, r)) => Some((opt_comment(s, b), (l as usize, r as usize))),
                        None => None,
                    }
                } else {
                    None
                }
            },
            None => None,
        },
        None => None,
    }
}

/// `version := "MIME-Version" ":" 1*DIGIT "." 1*DIGIT`, comments allowed
/// around each number.
pub fn version(s: &[u8], pos: usize) -> (r: Option<(usize, Field)>)
    requires
        pos <= s.len(),
    ensures
        match spec_version(s@, pos as int) {
            Some((e, (l, m))) => r matches Some((e2, Field::MIMEVersion(f))) && e2 == e && f.top_version == l
                && f.sub_version == m,
            None => r is None,
        },
        r matches Some((e, _)) ==> pos < e <= s.len(),
{
    let c = match drop_field_name(s, pos, &[77u8, 73, 77, 69, 45, 86, 101, 114, 115, 105, 111, 110]) {
        Some(c) => c,
        None => {
            return None;
        },
    };
    let (a, l) = match parse_digits(s, skip_opt_comment(s, c), 1, None) {
        Some(x) => x,
        None => {
            return None;
        },
    };
    let d = skip_opt_comment(s, a);
    if !(d < s.len() && s[d] == 46) {
        return None;
    }
    let (b, m) = match parse_digits(s, skip_opt_comment(s, d + 1), 1, None) {
        Some(x) => x,
        None => {
            return None;
        },
    };
    let e = skip_opt_comment(s, b);
    Some((e, Field::MIMEVersion(MIMEVersionField { top_version: l, sub_version: m })))
}

/// The value of `Content-Type` after its name: `type "/" subtype *(";"
/// parameter)`, the parameters collected by name.
pub open spec fn spec_content_value(s: Seq<u8>, c: int) -> Option<(int, (TopLevelModel, SubLevelModel, Seq<(Seq<char>, Seq<u8>)>))> {
    match spec_mime_type(s, c) {
        Some((a, t)) => if 0 <= a < s.len() && s[a] == 47 {
            match spec_subtype_x_token(s, a + 1) {
                Some((b, st)) => {
                    let ps = param_items(s, b);
                    Some((ps.0, (t, st, collect_params(ps.1))))
                },
                None => None,
            }
        } else {
            None
        },
        None => None,
    }
}

/// `content := "Content-Type" ":" type "/" subtype *(";" parameter)`.  When
/// the value after the name does not read so, the field stands for the
/// default `text/plain` with no parameters, and ends after the colon.
pub open spec fn spec_content(s: Seq<u8>, p: int) -> Option<(int, (TopLevelModel, SubLevelModel, Seq<(Seq<char>, Seq<u8>)>))> {
    match spec_drop_field_name(s, p, seq![67u8, 111, 110, 116, 101, 110, 116, 45, 84, 121, 112, 101]) {  // Content-Type
        Some(c) => match spec_content_value(s, c) {
            Some(r) => Some(r),
            None => Some((c, (TopLevelModel::Text, SubLevelModel::Plain, Seq::empty()))),
        },
        None => None,
    }
}

/// `content := "Content-Type" ":" type "/" subtype *(";" parameter)`
pub fn content(s: &[u8], pos: usize) -> (r: Option<(usize, Field)>)
    requires
        pos <= s.len(),
    ensures
        match spec_content(s@, pos as int) {
            Some((e, (t, st, ps))) => r matches Some((e2, Field::ContentType(f))) && e2 == e && f.top_level@
                == t && f.sub_level@ == st && param_views(f.params@) == ps,
            None => r is None,
        },
        r matches Some((e, _)) ==> pos < e <= s.len(),
{
    let c = match drop_field_name(s, pos, &[67u8, 111, 110, 116, 101, 110, 116, 45, 84, 121, 112, 101]) {
        Some(c) => c,
        None => {
            return None;
        },
    };
    let default = Field::ContentType(ContentTypeField {
        top_level: TopLevel::Text,
        sub_level: SubLevel::Plain,
        params: Vec::new(),
    });
    assert(param_views(Seq::<(String, Vec<u8>)>::empty()) =~= Seq::<(Seq<char>, Seq<u8>)>::empty());
    match mime_type(s, c) {
        Some((a, t)) => {
            if !(a < s.len() && s[a] == 47) {
                return Some((c, default));
            }
            match subtype(s, a + 1) {
                Some((b, st)) => {
                    let (e, ps) = params(s, b);
                    let collected = collect(&ps);
                    Some((e, Field::ContentType(ContentTypeField { top_level: t, sub_level: st, params: collected })))
                },
                None => Some((c, default)),
            }
        },
        None => Some((c, default)),
    }
}

/// `encoding := "Content-Transfer-Encoding" ":" mechanism`
pub open spec fn spec_encoding(s: Seq<u8>, p: int) -> Option<(int, EncodingModel)> {
    match spec_drop_field_name(s, p, seq![67u8, 111, 110, 116, 101, 110, 116, 45, 84, 114, 97, 110, 115, 102, 101, 114, 45, 69, 110, 99, 111, 100, 105, 110, 103]) {  // Content-Transfer-Encoding
        Some(c) => spec_mechanism(s, c),
        None => None,
    }
}

/// `encoding := "Content-Transfer-Encoding" ":" mechanism`
pub fn encoding(s: &[u8], pos: usize) -> (r: Option<(usize, Field)>)
    requires
        pos <= s.len(),
    ensures
        match spec_encoding(s@, pos as int) {
            Some((e, m)) => r matches Some((e2, Field::ContentTransferEncoding(f))) && e2 == e
                && f.encoding@ == m,
            None => r is None,
        },
        r matches Some((e, _)) ==> pos < e <= s.len(),
{
    match drop_field_name(s, pos, &[67u8, 111, 110, 116, 101, 110, 116, 45, 84, 114, 97, 110, 115, 102, 101, 114, 45, 69, 110, 99, 111, 100, 105, 110, 103]) {
        Some(c) => match mechanism(s, c) {
            Some((e, m)) => Some((e, Field::ContentTransferEncoding(EncodingField { encoding: m }))),
            None => None,
        },
        None => None,
    }
}

/// `mechanism := "7bit" / "8bit" / "binary" / "quoted-printable" / "base64"
/// / ietf-token / x-token`, the names matched without regard to case.
pub open spec fn spec_mechanism(s: Seq<u8>, p: int) -> Option<(int, EncodingModel)> {
    match spec_downcased_string(s, p, seq![55u8, 98, 105, 116]) {  // 7bit
        Some(e) => Some((e, EncodingModel::SevenBit)),
        None => match spec_downcased_string(s, p, seq![56u8, 98, 105, 116]) {  // 8bit
            Some(e) => Some((e, EncodingModel::EightBit)),
            None => match spec_downcased_string(s, p, seq![98u8, 105, 110, 97, 114, 121]) {  // binary
                Some(e) => Some((e, EncodingModel::Binary)),
                None => match spec_downcased_string(s, p, seq![113u8, 117, 111, 116, 101, 100, 45, 112, 114, 105, 110, 116, 97, 98, 108, 101]) {  // quoted-printable
                    Some(e) => Some((e, EncodingModel::QuotedPrintable)),
                    None => match spec_downcased_string(s, p, seq![98u8, 97, 115, 101, 54, 52]) {  // base64
                        Some(e) => Some((e, EncodingModel::Base64)),
                        None => spec_mechanism_x_token(s, p),
                    },
                },
            },
        },
    }
}

/// `mechanism`
pub fn mechanism(s: &[u8], pos: usize) -> (r: Option<(usize, Encoding)>)
    requires
        pos <= s.len(),
    ensures
        lift(r) == spec_mechanism(s@, pos as int),
        r matches Some((e, _)) ==> pos < e <= s.len(),
{
    match downcased_string(s, pos, &[55u8, 98, 105, 116]) {  // 7bit
        Ok(e) => Some((e, Encoding::SevenBit)),
        Err(_) => match downcased_string(s, pos, &[56u8, 98, 105, 116]) {  // 8bit
            Ok(e) => Some((e, Encoding::EightBit)),
            Err(_) => match downcased_string(s, pos, &[98u8, 105, 110, 97, 114, 121]) {  // binary
                Ok(e) => Some((e, Encoding::Binary)),
                Err(_) => match downcased_string(s, pos, &[113u8, 117, 111, 116, 101, 100, 45, 112, 114, 105, 110, 116, 97, 98, 108, 101]) {  // quoted-printable
                    Ok(e) => Some((e, Encoding::QuotedPrintable)),
                    Err(_) => match downcased_string(s, pos, &[98u8, 97, 115, 101, 54, 52]) {  // base64
                        Ok(e) => Some((e, Encoding::Base64)),
                        Err(_) => mechanism_extension_token(s, pos),
                    },
                },
            },
        },
    }
}

/// `id := "Content-ID" ":" msg-id`, the body kept raw.
pub open spec fn spec_id(s: Seq<u8>, p: int) -> Option<(int, FieldModel)> {
    spec_field_named(s, p, seq![67u8, 111, 110, 116, 101, 110, 116, 45, 73, 68], FieldKind::ContentID)  // Content-ID
}

/// `id := "Content-ID" ":" msg-id`
pub fn id(s: &[u8], pos: usize) -> (r: Option<(usize, Field)>)
    requires
        pos <= s.len(),
    ensures
        lift(r) == spec_id(s@, pos as int),
        r matches Some((e, _)) ==> pos < e <= s.len(),
{
    field_named(s, pos, &[67u8, 111, 110, 116, 101, 110, 116, 45, 73, 68], FieldKind::ContentID)
}

/// `description := "Content-Description" ":" *text`, the body kept raw.
pub open spec fn spec_description(s: Seq<u8>, p: int) -> Option<(int, FieldModel)> {
    spec_field_named(s, p, seq![67u8, 111, 110, 116, 101, 110, 116, 45, 68, 101, 115, 99, 114, 105, 112, 116, 105, 111, 110], FieldKind::ContentDescription)  // Content-Description
}

/// `description := "Content-Description" ":" *text`
pub fn description(s: &[u8], pos: usize) -> (r: Option<(usize, Field)>)
    requires
        pos <= s.len(),
    ensures
        lift(r) == spec_description(s@, pos as int),
        r matches Some((e, _)) ==> pos < e <= s.len(),
{
    field_named(s, pos, &[67u8, 111, 110, 116, 101, 110, 116, 45, 68, 101, 115, 99, 114, 105, 112, 116, 105, 111, 110], FieldKind::ContentDescription)
}

} // verus!
