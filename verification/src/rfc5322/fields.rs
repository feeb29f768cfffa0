//! Header fields: field names, the extent of a field body, the fields that
//! this library names, optional fields, and whole messages.

use vstd::prelude::*;
use crate::{
    Field, FieldKind, FieldModel, field_views, lemma_field_views_push, Message, MessageModel,
    ReceivedField, DateTimeField, AddressesField, AddressField, MessageIDField, MessageIDsField,
    UnstructuredField,
};
use crate::util::{
    lift, lift_end, spec_downcased_string, downcased_string, copy_range, ascii_chars, ascii_string,
};
use crate::rfc5322::chars::{Class, run_end, lemma_run_end, skip_class, spec_class_run1, class_run1, spec_crlf, crlf};
use crate::rfc5322::words::{spec_word, word, spec_domain, domain};
use crate::rfc5322::address::{spec_angle_addr, angle_addr, spec_addr_spec, addr_spec};

verus! {

// ---------------------------------------------------------------------------
// The extent of a field body
// ---------------------------------------------------------------------------

/// The position just after the first CRLF at or after `q`, or the end of the
/// input when there is none.
pub open spec fn line_break_end(s: Seq<u8>, q: int) -> int
    decreases s.len() - q,
{
    if 0 <= q && q + 1 < s.len() {
        if s[q] == 13 && s[q + 1] == 10 {
            q + 2
        } else {
            line_break_end(s, q + 1)
        }
    } else {
        s.len() as int
    }
}

/// The end of a field body that starts at `q`: through the first CRLF, and
/// on through each following line that starts with SP or HTAB (a folded
/// continuation).  Without a final CRLF the body runs to the end of the
/// input.
pub open spec fn field_body_end(s: Seq<u8>, q: int) -> int
    decreases s.len() - q,
{
    let e = line_break_end(s, q);
    if q < e < s.len() && (s[e] == 32 || s[e] == 9) {
        field_body_end(s, e)
    } else {
        e
    }
}

proof fn lemma_line_break_end(s: Seq<u8>, q: int)
    requires
        0 <= q <= s.len(),
    ensures
        q <= line_break_end(s, q) <= s.len(),
        line_break_end(s, q) < s.len() ==> q + 2 <= line_break_end(s, q),
    decreases s.len() - q,
{
    if 0 <= q && q + 1 < s.len() && !(s[q] == 13 && s[q + 1] == 10) {
        lemma_line_break_end(s, q + 1);
    }
}

proof fn lemma_field_body_end(s: Seq<u8>, q: int)
    requires
        0 <= q <= s.len(),
    ensures
        q <= field_body_end(s, q) <= s.len(),
    decreases s.len() - q,
{
    lemma_line_break_end(s, q);
    let e = line_break_end(s, q);
    if q < e < s.len() && (s[e] == 32 || s[e] == 9) {
        lemma_field_body_end(s, e);
    }
}

/// The end of the line that starts at `pos`, just after its CRLF.
fn scan_line_break(s: &[u8], pos: usize) -> (e: usize)
    requires
        pos <= s.len(),
    ensures
        e as int == line_break_end(s@, pos as int),
        pos <= e <= s.len(),
{
    let mut q = pos;
    while q < s.len() && q + 1 < s.len()
        invariant
            pos <= q <= s.len(),
            line_break_end(s@, pos as int) == line_break_end(s@, q as int),
        decreases s.len() - q,
    {
        if s[q] == 13 && s[q + 1] == 10 {
            return q + 2;
        }
        q = q + 1;
    }
    s.len()
}

/// The body of a field: everything up to and including the CRLF that ends
/// it, folded continuation lines included.  Returns the end.
pub fn till_crlf(s: &[u8], pos: usize) -> (e: usize)
    requires
        pos <= s.len(),
    ensures
        e as int == field_body_end(s@, pos as int),
        pos <= e <= s.len(),
{
    let mut q = pos;
    proof {
        lemma_field_body_end(s@, pos as int);
    }
    loop
        invariant
            pos <= q <= s.len(),
            field_body_end(s@, pos as int) == field_body_end(s@, q as int),
        decreases s.len() - q,
    {
        let e = scan_line_break(s, q);
        if q < e && e < s.len() && (s[e] == 32 || s[e] == 9) {
            q = e;
        } else {
            return e;
        }
    }
}

// ---------------------------------------------------------------------------
// Field names
// ---------------------------------------------------------------------------

/// `name *WSP ":"`, the name matched without regard to ASCII case; returns
/// the position after the colon.
pub open spec fn spec_drop_field_name(s: Seq<u8>, p: int, name: Seq<u8>) -> Option<int> {
    match spec_downcased_string(s, p, name) {
        Some(a) => {
            let b = run_end(s, a, Class::Wsp);
            if 0 <= b < s.len() && s[b] == 58 {
                Some(b + 1)
            } else {
                None
            }
        },
        None => None,
    }
}

/// `name *WSP ":"`, the name matched without regard to ASCII case; returns
/// the position after the colon.
pub fn drop_field_name(s: &[u8], pos: usize, name: &[u8]) -> (r: Option<usize>)
    requires
        pos <= s.len(),
    ensures
        lift_end(r) == spec_drop_field_name(s@, pos as int, name@),
        r matches Some(e) ==> pos < e <= s.len(),
{
    match downcased_string(s, pos, name) {
        Ok(a) => {
            let b = skip_class(s, a, Class::Wsp);
            if b < s.len() && s[b] == 58 {
                Some(b + 1)
            } else {
                None
            }
        },
        Err(_) => None,
    }
}

/// `field-name = 1*ftext`; returns the end of the name.
pub fn field_name(s: &[u8], pos: usize) -> (r: Option<usize>)
    requires
        pos <= s.len(),
    ensures
        lift_end(r) == spec_class_run1(s@, pos as int, Class::Ftext),
        r matches Some(e) ==> pos < e <= s.len(),
{
    class_run1(s, pos, Class::Ftext)
}

// ---------------------------------------------------------------------------
// The fields that this library names
// ---------------------------------------------------------------------------

/// The number of field names that are tried, in order, before a field is
/// read as an optional field.
pub const NAMED_FIELDS: usize = 19;

/// The `i`-th named field: its name and the kind of field that it makes.
pub open spec fn spec_field_entry(i: int) -> (Seq<u8>, FieldKind) {
    if i == 0 {  // Received
        (seq![82u8, 101, 99, 101, 105, 118, 101, 100], FieldKind::Received)
    } else if i == 1 {  // Date
        (seq![68u8, 97, 116, 101], FieldKind::Date)
    } else if i == 2 {  // From
        (seq![70u8, 114, 111, 109], FieldKind::From)
    } else if i == 3 {  // Sender
        (seq![83u8, 101, 110, 100, 101, 114], FieldKind::Sender)
    } else if i == 4 {  // Reply-To
        (seq![82u8, 101, 112, 108, 121, 45, 84, 111], FieldKind::ReplyTo)
    } else if i == 5 {  // To
        (seq![84u8, 111], FieldKind::To)
    } else if i == 6 {  // Cc
        (seq![67u8, 99], FieldKind::Cc)
    } else if i == 7 {  // Message-ID
        (seq![77u8, 101, 115, 115, 97, 103, 101, 45, 73, 68], FieldKind::MessageID)
    } else if i == 8 {  // In-Reply-To
        (seq![73u8, 110, 45, 82, 101, 112, 108, 121, 45, 84, 111], FieldKind::InReplyTo)
    } else if i == 9 {  // References
        (seq![82u8, 101, 102, 101, 114, 101, 110, 99, 101, 115], FieldKind::References)
    } else if i == 10 {  // Subject
        (seq![83u8, 117, 98, 106, 101, 99, 116], FieldKind::Subject)
    } else if i == 11 {  // Comments
        (seq![67u8, 111, 109, 109, 101, 110, 116, 115], FieldKind::Comments)
    } else if i == 12 {  // Resent-From
        (seq![82u8, 101, 115, 101, 110, 116, 45, 70, 114, 111, 109], FieldKind::ResentFrom)
    } else if i == 13 {  // Resent-Sender
        (seq![82u8, 101, 115, 101, 110, 116, 45, 83, 101, 110, 100, 101, 114], FieldKind::ResentSender)
    } else if i == 14 {  // Resent-Date
        (seq![82u8, 101, 115, 101, 110, 116, 45, 68, 97, 116, 101], FieldKind::ResentDate)
    } else if i == 15 {  // Resent-To
        (seq![82u8, 101, 115, 101, 110, 116, 45, 84, 111], FieldKind::ResentTo)
    } else if i == 16 {  // Resent-Cc
        (seq![82u8, 101, 115, 101, 110, 116, 45, 67, 99], FieldKind::ResentCc)
    } else if i == 17 {  // Resent-Message-ID
        (seq![82u8, 101, 115, 101, 110, 116, 45, 77, 101, 115, 115, 97, 103, 101, 45, 73, 68], FieldKind::ResentMessageID)
    } else if i == 18 {  // Resent-Reply-To
        (seq![82u8, 101, 115, 101, 110, 116, 45, 82, 101, 112, 108, 121, 45, 84, 111], FieldKind::ResentReplyTo)
    } else {
        (Seq::empty(), FieldKind::Optional)
    }
}

/// The `i`-th named field.
pub fn field_entry(i: usize) -> (r: (&'static [u8], FieldKind))
    requires
        i < NAMED_FIELDS,
    ensures
        (r.0@, r.1) == spec_field_entry(i as int),
{
    match i {
        0 => (&[82u8, 101, 99, 101, 105, 118, 101, 100], FieldKind::Received),  // Received
        1 => (&[68u8, 97, 116, 101], FieldKind::Date),  // Date
        2 => (&[70u8, 114, 111, 109], FieldKind::From),  // From
        3 => (&[83u8, 101, 110, 100, 101, 114], FieldKind::Sender),  // Sender
        4 => (&[82u8, 101, 112, 108, 121, 45, 84, 111], FieldKind::ReplyTo),  // Reply-To
        5 => (&[84u8, 111], FieldKind::To),  // To
        6 => (&[67u8, 99], FieldKind::Cc),  // Cc
        7 => (&[77u8, 101, 115, 115, 97, 103, 101, 45, 73, 68], FieldKind::MessageID),  // Message-ID
        8 => (&[73u8, 110, 45, 82, 101, 112, 108, 121, 45, 84, 111], FieldKind::InReplyTo),  // In-Reply-To
        9 => (&[82u8, 101, 102, 101, 114, 101, 110, 99, 101, 115], FieldKind::References),  // References
        10 => (&[83u8, 117, 98, 106, 101, 99, 116], FieldKind::Subject),  // Subject
        11 => (&[67u8, 111, 109, 109, 101, 110, 116, 115], FieldKind::Comments),  // Comments
        12 => (&[82u8, 101, 115, 101, 110, 116, 45, 70, 114, 111, 109], FieldKind::ResentFrom),  // Resent-From
        13 => (&[82u8, 101, 115, 101, 110, 116, 45, 83, 101, 110, 100, 101, 114], FieldKind::ResentSender),  // Resent-Sender
        14 => (&[82u8, 101, 115, 101, 110, 116, 45, 68, 97, 116, 101], FieldKind::ResentDate),  // Resent-Date
        15 => (&[82u8, 101, 115, 101, 110, 116, 45, 84, 111], FieldKind::ResentTo),  // Resent-To
        16 => (&[82u8, 101, 115, 101, 110, 116, 45, 67, 99], FieldKind::ResentCc),  // Resent-Cc
        17 => (&[82u8, 101, 115, 101, 110, 116, 45, 77, 101, 115, 115, 97, 103, 101, 45, 73, 68], FieldKind::ResentMessageID),  // Resent-Message-ID
        _ => (&[82u8, 101, 115, 101, 110, 116, 45, 82, 101, 112, 108, 121, 45, 84, 111], FieldKind::ResentReplyTo),  // Resent-Reply-To
    }
}


/// The kinds of field whose value is their raw body.
pub open spec fn keeps_raw_body(k: FieldKind) -> bool {
    !(k == FieldKind::MIMEVersion || k == FieldKind::ContentType
        || k == FieldKind::ContentTransferEncoding || k == FieldKind::Optional)
}

/// A field of kind `k` that holds the raw body `data`.
pub fn make_field(k: FieldKind, data: Vec<u8>) -> (r: Field)
    requires
        keeps_raw_body(k),
    ensures
        r@ == (FieldModel { kind: k, name: Seq::empty(), data: data@ }),
{
    match k {
        FieldKind::Date => Field::Date(DateTimeField::new(data)),
        FieldKind::From => Field::From(AddressesField::new(data)),
        FieldKind::Sender => Field::Sender(AddressField::new(data)),
        FieldKind::ReplyTo => Field::ReplyTo(AddressesField::new(data)),
        FieldKind::To => Field::To(AddressesField::new(data)),
        FieldKind::Cc => Field::Cc(AddressesField::new(data)),
        FieldKind::Bcc => Field::Bcc(AddressesField::new(data)),
        FieldKind::MessageID => Field::MessageID(MessageIDField::new(data)),
        FieldKind::InReplyTo => Field::InReplyTo(MessageIDsField::new(data)),
        FieldKind::References => Field::References(MessageIDsField::new(data)),
        FieldKind::Subject => Field::Subject(UnstructuredField::new(data)),
        FieldKind::Comments => Field::Comments(UnstructuredField::new(data)),
        FieldKind::Keywords => Field::Keywords(crate::KeywordsField::new(data)),
        FieldKind::ReturnPath => Field::ReturnPath(AddressField::new(data)),
        FieldKind::Received => Field::Received(ReceivedField::new(data)),
        FieldKind::ResentDate => Field::ResentDate(DateTimeField::new(data)),
        FieldKind::ResentFrom => Field::ResentFrom(AddressesField::new(data)),
        FieldKind::ResentSender => Field::ResentSender(AddressField::new(data)),
        FieldKind::ResentTo => Field::ResentTo(AddressesField::new(data)),
        FieldKind::ResentCc => Field::ResentCc(AddressesField::new(data)),
        FieldKind::ResentBcc => Field::ResentBcc(AddressesField::new(data)),
        FieldKind::ResentReplyTo => Field::ResentReplyTo(AddressesField::new(data)),
        FieldKind::ResentMessageID => Field::ResentMessageID(MessageIDField::new(data)),
        FieldKind::ContentID => Field::ContentID(MessageIDField::new(data)),
        FieldKind::ContentDescription => Field::ContentDescription(crate::TextField::new(data)),
        _ => {
            assert(false);
            Field::Subject(UnstructuredField::new(data))
        },
    }
}

/// The field `name *WSP ":" body` of kind `k`, the body running to the end
/// of the field (see [`field_body_end`]).
pub open spec fn spec_field_named(s: Seq<u8>, p: int, name: Seq<u8>, k: FieldKind) -> Option<(int, FieldModel)> {
    match spec_drop_field_name(s, p, name) {
        Some(c) => {
            let e = field_body_end(s, c);
            Some((e, FieldModel { kind: k, name: Seq::empty(), data: s.subrange(c, e) }))
        },
        None => None,
    }
}

/// The field `name *WSP ":" body` of kind `k`.
pub fn field_named(s: &[u8], pos: usize, name: &[u8], k: FieldKind) -> (r: Option<(usize, Field)>)
    requires
        pos <= s.len(),
        keeps_raw_body(k),
    ensures
        lift(r) == spec_field_named(s@, pos as int, name@, k),
        r matches Some((e, _)) ==> pos < e <= s.len(),
{
    match drop_field_name(s, pos, name) {
        Some(c) => {
            let e = till_crlf(s, c);
            Some((e, make_field(k, copy_range(s, c, e))))
        },
        None => None,
    }
}

/// The `i`-th named field at `p`.
pub open spec fn spec_named_field(s: Seq<u8>, p: int, i: int) -> Option<(int, FieldModel)> {
    spec_field_named(s, p, spec_field_entry(i).0, spec_field_entry(i).1)
}

fn named_field(s: &[u8], pos: usize, i: usize) -> (r: Option<(usize, Field)>)
    requires
        pos <= s.len(),
        i < NAMED_FIELDS,
    ensures
        lift(r) == spec_named_field(s@, pos as int, i as int),
        r matches Some((e, _)) ==> pos < e <= s.len(),
{
    let (name, k) = field_entry(i);
    field_named(s, pos, name, k)
}

// ---------------------------------------------------------------------------
// Optional fields
// ---------------------------------------------------------------------------

/// `obs-optional = field-name *WSP ":" unstructured CRLF`, the body kept
/// raw; the value holds the name as written.
pub open spec fn spec_raw_obs_optional(s: Seq<u8>, p: int) -> Option<(int, FieldModel)> {
    match spec_class_run1(s, p, Class::Ftext) {
        Some(n) => {
            let b = run_end(s, n, Class::Wsp);
            if 0 <= b < s.len() && s[b] == 58 {
                let e = field_body_end(s, b + 1);
                Some((e, FieldModel {
                    kind: FieldKind::Optional,
                    name: ascii_chars(s.subrange(p, n)),
                    data: s.subrange(b + 1, e),
                }))
            } else {
                None
            }
        },
        None => None,
    }
}

/// `obs-optional = field-name *WSP ":" unstructured CRLF`
pub fn raw_obs_optional(s: &[u8], pos: usize) -> (r: Option<(usize, Field)>)
    requires
        pos <= s.len(),
    ensures
        lift(r) == spec_raw_obs_optional(s@, pos as int),
        r matches Some((e, _)) ==> pos < e <= s.len(),
{
    match class_run1(s, pos, Class::Ftext) {
        Some(n) => {
            let b = skip_class(s, n, Class::Wsp);
            if b < s.len() && s[b] == 58 {
                let e = till_crlf(s, b + 1);
                let name_bytes = copy_range(s, pos, n);
                proof {
                    lemma_run_end(s@, pos as int, Class::Ftext);
                    assert forall|i: int| 0 <= i < name_bytes@.len() implies #[trigger] name_bytes@[i] < 128 by {
                        assert(name_bytes@[i] == s@[pos + i]);
                    }
                }
                let name = ascii_string(name_bytes);
                let data = copy_range(s, b + 1, e);
                Some((e, Field::Optional(name, UnstructuredField::new(data))))
            } else {
                None
            }
        },
        None => None,
    }
}

// ---------------------------------------------------------------------------
// Fields and messages
// ---------------------------------------------------------------------------

/// The first of the named fields, from the `i`-th on, that matches at `p`;
/// an optional field when none does.
pub open spec fn spec_raw_field_from(s: Seq<u8>, p: int, i: int) -> Option<(int, FieldModel)>
    decreases NAMED_FIELDS - i,
{
    if 0 <= i < NAMED_FIELDS {
        match spec_named_field(s, p, i) {
            Some(r) => Some(r),
            None => spec_raw_field_from(s, p, i + 1),
        }
    } else {
        spec_raw_obs_optional(s, p)
    }
}

/// One header field: the named fields are tried in order, then an optional
/// field.
pub open spec fn spec_raw_field(s: Seq<u8>, p: int) -> Option<(int, FieldModel)> {
    spec_raw_field_from(s, p, 0)
}

/// One header field: the named fields are tried in order, then an optional
/// field.
pub fn raw_field(s: &[u8], pos: usize) -> (r: Option<(usize, Field)>)
    requires
        pos <= s.len(),
    ensures
        lift(r) == spec_raw_field(s@, pos as int),
        r matches Some((e, _)) ==> pos < e <= s.len(),
{
    let mut i: usize = 0;
    while i < NAMED_FIELDS
        invariant
            pos <= s.len(),
            i <= NAMED_FIELDS,
            spec_raw_field(s@, pos as int) == spec_raw_field_from(s@, pos as int, i as int),
        decreases NAMED_FIELDS - i,
    {
        match named_field(s, pos, i) {
            Some(r) => {
                return Some(r);
            },
            None => {},
        }
        i = i + 1;
    }
    raw_obs_optional(s, pos)
}

/// The fields read one after another from `q` on: the end, and the fields.
pub open spec fn fields_items(s: Seq<u8>, q: int) -> (int, Seq<FieldModel>)
    decreases s.len() - q,
{
    match spec_raw_field(s, q) {
        Some((e, f)) => if q < e <= s.len() {
            let rest = fields_items(s, e);
            (rest.0, seq![f] + rest.1)
        } else {
            (q, Seq::empty())
        },
        None => (q, Seq::empty()),
    }
}

proof fn lemma_fields_items(s: Seq<u8>, q: int)
    requires
        0 <= q <= s.len(),
    ensures
        q <= fields_items(s, q).0 <= s.len(),
    decreases s.len() - q,
{
    match spec_raw_field(s, q) {
        Some((e, f)) => if q < e <= s.len() {
            lemma_fields_items(s, e);
        },
        None => {},
    }
}

/// `*field`: the header fields, as many as can be read.  It always
/// succeeds, possibly with no field.
pub fn raw_fields(s: &[u8], pos: usize) -> (r: (usize, Vec<Field>))
    requires
        pos <= s.len(),
    ensures
        (r.0 as int, field_views(r.1@)) == fields_items(s@, pos as int),
        pos <= r.0 <= s.len(),
{
    let mut out: Vec<Field> = Vec::new();
    let mut q = pos;
    proof {
        lemma_fields_items(s@, pos as int);
    }
    loop
        invariant
            pos <= q <= s.len(),
            fields_items(s@, pos as int) == (fields_items(s@, q as int).0, field_views(out@) + fields_items(
                s@,
                q as int,
            ).1),
        ensures
            pos <= q <= s.len(),
            fields_items(s@, pos as int) == (q as int, field_views(out@)),
        decreases s.len() - q,
    {
        match raw_field(s, q) {
            Some((e, f)) => {
                let ghost before = out@;
                let ghost fv = f@;
                assert(fields_items(s@, q as int) == (fields_items(s@, e as int).0, seq![fv] + fields_items(s@, e as int).1));
                out.push(f);
                proof {
                    lemma_field_views_push(before, f);
                    assert(field_views(out@) + fields_items(s@, e as int).1 == field_views(before) + (seq![fv]
                        + fields_items(s@, e as int).1));
                }
                q = e;
            },
            None => {
                assert(fields_items(s@, q as int) == (q as int, Seq::<FieldModel>::empty()));
                assert(field_views(out@) + Seq::<FieldModel>::empty() == field_views(out@));
                break;
            },
        }
    }
    (q, out)
}

/// `body`, read as `obs-body`: the rest of the input.
pub fn body(s: &[u8], pos: usize) -> (r: (usize, Vec<u8>))
    requires
        pos <= s.len(),
    ensures
        r.0 == s.len(),
        r.1@ == s@.subrange(pos as int, s@.len() as int),
{
    obs_body(s, pos)
}

/// `obs-body`: everything from `pos` to the end of the input.
pub fn obs_body(s: &[u8], pos: usize) -> (r: (usize, Vec<u8>))
    requires
        pos <= s.len(),
    ensures
        r.0 == s.len(),
        r.1@ == s@.subrange(pos as int, s@.len() as int),
{
    (s.len(), copy_range(s, pos, s.len()))
}

/// `message = fields [CRLF body]`: the fields, then, when a CRLF follows
/// them, the body, which is the rest of the input.
pub open spec fn spec_message(s: Seq<u8>, p: int) -> (int, MessageModel) {
    let (e, fs) = fields_items(s, p);
    match spec_crlf(s, e) {
        Some(b) => (s.len() as int, MessageModel { fields: fs, body: Some(s.subrange(b, s.len() as int)) }),
        None => (e, MessageModel { fields: fs, body: None }),
    }
}

/// `message = fields [CRLF body]`.  It always succeeds.
pub fn message(s: &[u8], pos: usize) -> (r: (usize, Message))
    requires
        pos <= s.len(),
    ensures
        (r.0 as int, r.1@) == spec_message(s@, pos as int),
        pos <= r.0 <= s.len(),
{
    let (e, fields) = raw_fields(s, pos);
    match crlf(s, e) {
        Some(b) => {
            let (end, rest) = body(s, b);
            (end, Message::new(fields, Some(rest)))
        },
        None => (e, Message::new(fields, None)),
    }
}

/// `message` that reaches the end of the input.
pub fn message_eof(s: &[u8], pos: usize) -> (r: Option<(usize, Message)>)
    requires
        pos <= s.len(),
    ensures
        r is Some <==> spec_message(s@, pos as int).0 == s@.len(),
        r matches Some((e, m)) ==> e == s.len() && m@ == spec_message(s@, pos as int).1,
{
    let (e, m) = message(s, pos);
    if e == s.len() {
        Some((e, m))
    } else {
        None
    }
}

// ---------------------------------------------------------------------------
// received-token
// ---------------------------------------------------------------------------

/// `received-token = angle-addr / addr-spec / domain / word`, tried in that
/// order; the value is the text matched by an address, as written.
pub open spec fn spec_received_token(s: Seq<u8>, p: int) -> Option<(int, Seq<u8>)> {
    match spec_angle_addr(s, p) {
        Some((e, _)) => Some((e, s.subrange(p, e))),
        None => match spec_addr_spec(s, p) {
            Some((e, _)) => Some((e, s.subrange(p, e))),
            None => match spec_domain(s, p) {
                Some(r) => Some(r),
                None => spec_word(s, p),
            },
        },
    }
}

/// `received-token = angle-addr / addr-spec / domain / word`
pub fn received_token(s: &[u8], pos: usize) -> (r: Option<(usize, Vec<u8>)>)
    requires
        pos <= s.len(),
    ensures
        lift(r) == spec_received_token(s@, pos as int),
        r matches Some((e, _)) ==> pos < e <= s.len(),
{
    match angle_addr(s, pos) {
        Some((e, _)) => Some((e, copy_range(s, pos, e))),
        None => match addr_spec(s, pos) {
            Some((e, _)) => Some((e, copy_range(s, pos, e))),
            None => match domain(s, pos) {
                Some(r) => Some(r),
                None => word(s, pos),
            },
        },
    }
}

// ---------------------------------------------------------------------------
// The named fields one by one
// ---------------------------------------------------------------------------

/// `Received:` followed by its raw body (the name matched without regard to case).
pub fn raw_received(s: &[u8], pos: usize) -> (r: Option<(usize, Field)>)
    requires
        pos <= s.len(),
    ensures
        lift(r) == spec_named_field(s@, pos as int, 0),
        r matches Some((e, _)) ==> pos < e <= s.len(),
{
    named_field(s, pos, 0)
}

/// `Date:` followed by its raw body (the name matched without regard to case).
pub fn raw_obs_orig_date(s: &[u8], pos: usize) -> (r: Option<(usize, Field)>)
    requires
        pos <= s.len(),
    ensures
        lift(r) == spec_named_field(s@, pos as int, 1),
        r matches Some((e, _)) ==> pos < e <= s.len(),
{
    named_field(s, pos, 1)
}

/// `From:` followed by its raw body (the name matched without regard to case).
pub fn raw_obs_from(s: &[u8], pos: usize) -> (r: Option<(usize, Field)>)
    requires
        pos <= s.len(),
    ensures
        lift(r) == spec_named_field(s@, pos as int, 2),
        r matches Some((e, _)) ==> pos < e <= s.len(),
{
    named_field(s, pos, 2)
}

/// `Sender:` followed by its raw body (the name matched without regard to case).
pub fn raw_obs_sender(s: &[u8], pos: usize) -> (r: Option<(usize, Field)>)
    requires
        pos <= s.len(),
    ensures
        lift(r) == spec_named_field(s@, pos as int, 3),
        r matches Some((e, _)) ==> pos < e <= s.len(),
{
    named_field(s, pos, 3)
}

/// `Reply-To:` followed by its raw body (the name matched without regard to case).
pub fn raw_obs_reply_to(s: &[u8], pos: usize) -> (r: Option<(usize, Field)>)
    requires
        pos <= s.len(),
    ensures
        lift(r) == spec_named_field(s@, pos as int, 4),
        r matches Some((e, _)) ==> pos < e <= s.len(),
{
    named_field(s, pos, 4)
}

/// `To:` followed by its raw body (the name matched without regard to case).
pub fn raw_obs_to(s: &[u8], pos: usize) -> (r: Option<(usize, Field)>)
    requires
        pos <= s.len(),
    ensures
        lift(r) == spec_named_field(s@, pos as int, 5),
        r matches Some((e, _)) ==> pos < e <= s.len(),
{
    named_field(s, pos, 5)
}

/// `Cc:` followed by its raw body (the name matched without regard to case).
pub fn raw_obs_cc(s: &[u8], pos: usize) -> (r: Option<(usize, Field)>)
    requires
        pos <= s.len(),
    ensures
        lift(r) == spec_named_field(s@, pos as int, 6),
        r matches Some((e, _)) ==> pos < e <= s.len(),
{
    named_field(s, pos, 6)
}

/// `Message-ID:` followed by its raw body (the name matched without regard to case).
pub fn raw_obs_message_id(s: &[u8], pos: usize) -> (r: Option<(usize, Field)>)
    requires
        pos <= s.len(),
    ensures
        lift(r) == spec_named_field(s@, pos as int, 7),
        r matches Some((e, _)) ==> pos < e <= s.len(),
{
    named_field(s, pos, 7)
}

/// `In-Reply-To:` followed by its raw body (the name matched without regard to case).
pub fn raw_obs_in_reply_to(s: &[u8], pos: usize) -> (r: Option<(usize, Field)>)
    requires
        pos <= s.len(),
    ensures
        lift(r) == spec_named_field(s@, pos as int, 8),
        r matches Some((e, _)) ==> pos < e <= s.len(),
{
    named_field(s, pos, 8)
}

/// `References:` followed by its raw body (the name matched without regard to case).
pub fn raw_obs_references(s: &[u8], pos: usize) -> (r: Option<(usize, Field)>)
    requires
        pos <= s.len(),
    ensures
        lift(r) == spec_named_field(s@, pos as int, 9),
        r matches Some((e, _)) ==> pos < e <= s.len(),
{
    named_field(s, pos, 9)
}

/// `Subject:` followed by its raw body (the name matched without regard to case).
pub fn raw_obs_subject(s: &[u8], pos: usize) -> (r: Option<(usize, Field)>)
    requires
        pos <= s.len(),
    ensures
        lift(r) == spec_named_field(s@, pos as int, 10),
        r matches Some((e, _)) ==> pos < e <= s.len(),
{
    named_field(s, pos, 10)
}

/// `Comments:` followed by its raw body (the name matched without regard to case).
pub fn raw_obs_comments(s: &[u8], pos: usize) -> (r: Option<(usize, Field)>)
    requires
        pos <= s.len(),
    ensures
        lift(r) == spec_named_field(s@, pos as int, 11),
        r matches Some((e, _)) ==> pos < e <= s.len(),
{
    named_field(s, pos, 11)
}

/// `Resent-From:` followed by its raw body (the name matched without regard to case).
pub fn raw_obs_resent_from(s: &[u8], pos: usize) -> (r: Option<(usize, Field)>)
    requires
        pos <= s.len(),
    ensures
        lift(r) == spec_named_field(s@, pos as int, 12),
        r matches Some((e, _)) ==> pos < e <= s.len(),
{
    named_field(s, pos, 12)
}

/// `Resent-Sender:` followed by its raw body (the name matched without regard to case).
pub fn raw_obs_resent_send(s: &[u8], pos: usize) -> (r: Option<(usize, Field)>)
    requires
        pos <= s.len(),
    ensures
        lift(r) == spec_named_field(s@, pos as int, 13),
        r matches Some((e, _)) ==> pos < e <= s.len(),
{
    named_field(s, pos, 13)
}

/// `Resent-Date:` followed by its raw body (the name matched without regard to case).
pub fn raw_obs_resent_date(s: &[u8], pos: usize) -> (r: Option<(usize, Field)>)
    requires
        pos <= s.len(),
    ensures
        lift(r) == spec_named_field(s@, pos as int, 14),
        r matches Some((e, _)) ==> pos < e <= s.len(),
{
    named_field(s, pos, 14)
}

/// `Resent-To:` followed by its raw body (the name matched without regard to case).
pub fn raw_obs_resent_to(s: &[u8], pos: usize) -> (r: Option<(usize, Field)>)
    requires
        pos <= s.len(),
    ensures
        lift(r) == spec_named_field(s@, pos as int, 15),
        r matches Some((e, _)) ==> pos < e <= s.len(),
{
    named_field(s, pos, 15)
}

/// `Resent-Cc:` followed by its raw body (the name matched without regard to case).
pub fn raw_obs_resent_cc(s: &[u8], pos: usize) -> (r: Option<(usize, Field)>)
    requires
        pos <= s.len(),
    ensures
        lift(r) == spec_named_field(s@, pos as int, 16),
        r matches Some((e, _)) ==> pos < e <= s.len(),
{
    named_field(s, pos, 16)
}

/// `Resent-Message-ID:` followed by its raw body (the name matched without regard to case).
pub fn raw_obs_resent_mid(s: &[u8], pos: usize) -> (r: Option<(usize, Field)>)
    requires
        pos <= s.len(),
    ensures
        lift(r) == spec_named_field(s@, pos as int, 17),
        r matches Some((e, _)) ==> pos < e <= s.len(),
{
    named_field(s, pos, 17)
}

/// `Resent-Reply-To:` followed by its raw body (the name matched without regard to case).
pub fn raw_obs_resent_rply(s: &[u8], pos: usize) -> (r: Option<(usize, Field)>)
    requires
        pos <= s.len(),
    ensures
        lift(r) == spec_named_field(s@, pos as int, 18),
        r matches Some((e, _)) ==> pos < e <= s.len(),
{
    named_field(s, pos, 18)
}

} // verus!
