//! Parser for Internet messages (RFC 5322, with the obsolete syntax of
//! RFC 2822 accepted where it is commonly found), with MIME header fields.
//!
//! Every parser takes the input bytes and a position and, on success,
//! returns the position just after what it consumed together with the
//! parsed value.  Each one is specified by a spec function over `Seq<u8>`
//! that states the grammar rule it implements.

pub mod util;
pub mod rfc5322;
pub mod mime;
pub mod rfc2046;
pub mod laws;

use vstd::prelude::*;
use vstd::slice::slice_subrange;
use vstd::utf8::{valid_utf8, decode_utf8};
use crate::util::{utf8_lossy, string_from_utf8_lossy, copy_range, string_push_str, decimal_string, decimal_bytes, ascii_chars};
use crate::rfc5322::address::{spec_address_list, address_list, spec_mailbox, mailbox};
use crate::rfc5322::ids::{spec_msg_id, msg_id, msg_id_views, msg_id_list_items, msg_id_list};
use crate::rfc5322::datetime::{
    MIN_YEAR, MAX_YEAR, clock_year, current_year, spec_date_time, spec_date_time_panics, date_time_in_year,
    date_time_panics,
};
use crate::mime::{TopLevel, SubLevel, Encoding, spec_top_level_name, spec_sub_level_name, spec_encoding_name};

verus! {

/// An address, as read from an address field.
#[derive(Debug, PartialEq, Eq)]
#[allow(inconsistent_fields)]
pub enum Address {
    /// A mailbox: `local_part@domain`, with the display name when one is given.
    Mailbox { local_part: String, domain: String, display_name: Option<Vec<u8>> },
    /// A named group of mailboxes.
    Group { display_name: Vec<u8>, mailboxes: Vec<Address> },
}

/// The mathematical value of an [`Address`].
#[allow(inconsistent_fields)]
pub enum AddressModel {
    Mailbox { local_part: Seq<char>, domain: Seq<char>, display_name: Option<Seq<u8>> },
    Group { display_name: Seq<u8>, mailboxes: Seq<AddressModel> },
}

pub open spec fn opt_bytes(o: Option<Vec<u8>>) -> Option<Seq<u8>> {
    match o {
        Some(v) => Some(v@),
        None => None,
    }
}

/// The value of an address that stands inside a group (groups do not nest).
pub open spec fn member_view(a: Address) -> AddressModel {
    match a {
        Address::Mailbox { local_part, domain, display_name } => AddressModel::Mailbox {
            local_part: local_part@,
            domain: domain@,
            display_name: opt_bytes(display_name),
        },
        Address::Group { display_name, mailboxes } => AddressModel::Group {
            display_name: display_name@,
            mailboxes: Seq::empty(),
        },
    }
}

impl View for Address {
    type V = AddressModel;

    open spec fn view(&self) -> AddressModel {
        match self {
            Address::Mailbox { .. } => member_view(*self),
            Address::Group { display_name, mailboxes } => AddressModel::Group {
                display_name: display_name@,
                mailboxes: mailboxes@.map_values(|a: Address| member_view(a)),
            },
        }
    }
}

/// The values of a list of addresses.
pub open spec fn addr_views(v: Seq<Address>) -> Seq<AddressModel> {
    v.map_values(|a: Address| a@)
}

/// The values of the members of a group.
pub open spec fn member_views(v: Seq<Address>) -> Seq<AddressModel> {
    v.map_values(|a: Address| member_view(a))
}

pub proof fn lemma_addr_views_push(v: Seq<Address>, a: Address)
    ensures
        addr_views(v.push(a)) == addr_views(v).push(a@),
        member_views(v.push(a)) == member_views(v).push(member_view(a)),
{
    assert(addr_views(v.push(a)) =~= addr_views(v).push(a@));
    assert(member_views(v.push(a)) =~= member_views(v).push(member_view(a)));
}

/// The raw body of a `Received:` field.  It holds the text after the colon up to and including the
/// line break that ends the field.
#[derive(Debug, PartialEq, Eq)]
pub struct ReceivedField {
    data: Vec<u8>,
}

impl View for ReceivedField {
    type V = Seq<u8>;

    closed spec fn view(&self) -> Seq<u8> {
        self.data@
    }
}

impl ReceivedField {
    pub(crate) fn new(data: Vec<u8>) -> (r: Self)
        ensures
            r@ == data@,
    {
        ReceivedField { data }
    }

    /// The field body without its final line break (the last two bytes),
    /// decoded as UTF-8 with invalid sequences replaced.
    pub fn to_string(&self) -> (r: String)
        requires
            self@.len() >= 2,
        ensures
            r@ == utf8_lossy(self@.subrange(0, self@.len() - 2)),
            valid_utf8(self@.subrange(0, self@.len() - 2)) ==> r@ == decode_utf8(self@.subrange(0, self@.len() - 2)),
    {
        let n = self.data.len() - 2;
        let v = self.data.as_slice();
        let s = slice_subrange(v, 0, n);
        string_from_utf8_lossy(s)
    }
}

/// The raw body of a date field (`Date:`, `Resent-Date:`).  It holds the text after the colon up to and including the
/// line break that ends the field.
#[derive(Debug, PartialEq, Eq)]
pub struct DateTimeField {
    data: Vec<u8>,
}

impl View for DateTimeField {
    type V = Seq<u8>;

    closed spec fn view(&self) -> Seq<u8> {
        self.data@
    }
}

impl DateTimeField {
    pub(crate) fn new(data: Vec<u8>) -> (r: Self)
        ensures
            r@ == data@,
    {
        DateTimeField { data }
    }

    /// The field body without its final line break (the last two bytes),
    /// decoded as UTF-8 with invalid sequences replaced.
    pub fn to_string(&self) -> (r: String)
        requires
            self@.len() >= 2,
        ensures
            r@ == utf8_lossy(self@.subrange(0, self@.len() - 2)),
            valid_utf8(self@.subrange(0, self@.len() - 2)) ==> r@ == decode_utf8(self@.subrange(0, self@.len() - 2)),
    {
        let n = self.data.len() - 2;
        let v = self.data.as_slice();
        let s = slice_subrange(v, 0, n);
        string_from_utf8_lossy(s)
    }
}

/// The raw body of an address-list field (`From:`, `To:`, `Cc:`, ...).  It holds the text after the colon up to and including the
/// line break that ends the field.
#[derive(Debug, PartialEq, Eq)]
pub struct AddressesField {
    data: Vec<u8>,
}

impl View for AddressesField {
    type V = Seq<u8>;

    closed spec fn view(&self) -> Seq<u8> {
        self.data@
    }
}

impl AddressesField {
    pub(crate) fn new(data: Vec<u8>) -> (r: Self)
        ensures
            r@ == data@,
    {
        AddressesField { data }
    }

    /// The field body without its final line break (the last two bytes),
    /// decoded as UTF-8 with invalid sequences replaced.
    pub fn to_string(&self) -> (r: String)
        requires
            self@.len() >= 2,
        ensures
            r@ == utf8_lossy(self@.subrange(0, self@.len() - 2)),
            valid_utf8(self@.subrange(0, self@.len() - 2)) ==> r@ == decode_utf8(self@.subrange(0, self@.len() - 2)),
    {
        let n = self.data.len() - 2;
        let v = self.data.as_slice();
        let s = slice_subrange(v, 0, n);
        string_from_utf8_lossy(s)
    }
}

/// The raw body of a single-mailbox field (`Sender:`, `Resent-Sender:`).  It holds the text after the colon up to and including the
/// line break that ends the field.
#[derive(Debug, PartialEq, Eq)]
pub struct AddressField {
    data: Vec<u8>,
}

impl View for AddressField {
    type V = Seq<u8>;

    closed spec fn view(&self) -> Seq<u8> {
        self.data@
    }
}

impl AddressField {
    pub(crate) fn new(data: Vec<u8>) -> (r: Self)
        ensures
            r@ == data@,
    {
        AddressField { data }
    }

    /// The field body without its final line break (the last two bytes),
    /// decoded as UTF-8 with invalid sequences replaced.
    pub fn to_string(&self) -> (r: String)
        requires
            self@.len() >= 2,
        ensures
            r@ == utf8_lossy(self@.subrange(0, self@.len() - 2)),
            valid_utf8(self@.subrange(0, self@.len() - 2)) ==> r@ == decode_utf8(self@.subrange(0, self@.len() - 2)),
    {
        let n = self.data.len() - 2;
        let v = self.data.as_slice();
        let s = slice_subrange(v, 0, n);
        string_from_utf8_lossy(s)
    }
}

/// The raw body of a message identifier field (`Message-ID:`, `Content-ID:`, ...).  It holds the text after the colon up to and including the
/// line break that ends the field.
#[derive(Debug, PartialEq, Eq)]
pub struct MessageIDField {
    data: Vec<u8>,
}

impl View for MessageIDField {
    type V = Seq<u8>;

    closed spec fn view(&self) -> Seq<u8> {
        self.data@
    }
}

impl MessageIDField {
    pub(crate) fn new(data: Vec<u8>) -> (r: Self)
        ensures
            r@ == data@,
    {
        MessageIDField { data }
    }

    /// The field body without its final line break (the last two bytes),
    /// decoded as UTF-8 with invalid sequences replaced.
    pub fn to_string(&self) -> (r: String)
        requires
            self@.len() >= 2,
        ensures
            r@ == utf8_lossy(self@.subrange(0, self@.len() - 2)),
            valid_utf8(self@.subrange(0, self@.len() - 2)) ==> r@ == decode_utf8(self@.subrange(0, self@.len() - 2)),
    {
        let n = self.data.len() - 2;
        let v = self.data.as_slice();
        let s = slice_subrange(v, 0, n);
        string_from_utf8_lossy(s)
    }
}

/// The raw body of a field holding message identifiers (`In-Reply-To:`, `References:`).  It holds the text after the colon up to and including the
/// line break that ends the field.
#[derive(Debug, PartialEq, Eq)]
pub struct MessageIDsField {
    data: Vec<u8>,
}

impl View for MessageIDsField {
    type V = Seq<u8>;

    closed spec fn view(&self) -> Seq<u8> {
        self.data@
    }
}

impl MessageIDsField {
    pub(crate) fn new(data: Vec<u8>) -> (r: Self)
        ensures
            r@ == data@,
    {
        MessageIDsField { data }
    }

    /// The field body without its final line break (the last two bytes),
    /// decoded as UTF-8 with invalid sequences replaced.
    pub fn to_string(&self) -> (r: String)
        requires
            self@.len() >= 2,
        ensures
            r@ == utf8_lossy(self@.subrange(0, self@.len() - 2)),
            valid_utf8(self@.subrange(0, self@.len() - 2)) ==> r@ == decode_utf8(self@.subrange(0, self@.len() - 2)),
    {
        let n = self.data.len() - 2;
        let v = self.data.as_slice();
        let s = slice_subrange(v, 0, n);
        string_from_utf8_lossy(s)
    }
}

/// The raw body of an unstructured field (`Subject:`, `Comments:`, optional fields).  It holds the text after the colon up to and including the
/// line break that ends the field.
#[derive(Debug, PartialEq, Eq)]
pub struct UnstructuredField {
    data: Vec<u8>,
}

impl View for UnstructuredField {
    type V = Seq<u8>;

    closed spec fn view(&self) -> Seq<u8> {
        self.data@
    }
}

impl UnstructuredField {
    pub(crate) fn new(data: Vec<u8>) -> (r: Self)
        ensures
            r@ == data@,
    {
        UnstructuredField { data }
    }

    /// The field body without its final line break (the last two bytes),
    /// decoded as UTF-8 with invalid sequences replaced.
    pub fn to_string(&self) -> (r: String)
        requires
            self@.len() >= 2,
        ensures
            r@ == utf8_lossy(self@.subrange(0, self@.len() - 2)),
            valid_utf8(self@.subrange(0, self@.len() - 2)) ==> r@ == decode_utf8(self@.subrange(0, self@.len() - 2)),
    {
        let n = self.data.len() - 2;
        let v = self.data.as_slice();
        let s = slice_subrange(v, 0, n);
        string_from_utf8_lossy(s)
    }
}

/// The raw body of a `Keywords:` field.  It holds the text after the colon up to and including the
/// line break that ends the field.
#[derive(Debug, PartialEq, Eq)]
pub struct KeywordsField {
    data: Vec<u8>,
}

impl View for KeywordsField {
    type V = Seq<u8>;

    closed spec fn view(&self) -> Seq<u8> {
        self.data@
    }
}

impl KeywordsField {
    pub(crate) fn new(data: Vec<u8>) -> (r: Self)
        ensures
            r@ == data@,
    {
        KeywordsField { data }
    }

    /// The field body without its final line break (the last two bytes),
    /// decoded as UTF-8 with invalid sequences replaced.
    pub fn to_string(&self) -> (r: String)
        requires
            self@.len() >= 2,
        ensures
            r@ == utf8_lossy(self@.subrange(0, self@.len() - 2)),
            valid_utf8(self@.subrange(0, self@.len() - 2)) ==> r@ == decode_utf8(self@.subrange(0, self@.len() - 2)),
    {
        let n = self.data.len() - 2;
        let v = self.data.as_slice();
        let s = slice_subrange(v, 0, n);
        string_from_utf8_lossy(s)
    }
}

/// The raw body of a `Content-Description:` field.  It holds the text after the colon up to and including the
/// line break that ends the field.
#[derive(Debug, PartialEq, Eq)]
pub struct TextField {
    data: Vec<u8>,
}

impl View for TextField {
    type V = Seq<u8>;

    closed spec fn view(&self) -> Seq<u8> {
        self.data@
    }
}

impl TextField {
    pub(crate) fn new(data: Vec<u8>) -> (r: Self)
        ensures
            r@ == data@,
    {
        TextField { data }
    }

    /// The field body without its final line break (the last two bytes),
    /// decoded as UTF-8 with invalid sequences replaced.
    pub fn to_string(&self) -> (r: String)
        requires
            self@.len() >= 2,
        ensures
            r@ == utf8_lossy(self@.subrange(0, self@.len() - 2)),
            valid_utf8(self@.subrange(0, self@.len() - 2)) ==> r@ == decode_utf8(self@.subrange(0, self@.len() - 2)),
    {
        let n = self.data.len() - 2;
        let v = self.data.as_slice();
        let s = slice_subrange(v, 0, n);
        string_from_utf8_lossy(s)
    }
}

/// The `MIME-Version` field: `top_version.sub_version`.
#[derive(Debug, PartialEq, Eq)]
pub struct MIMEVersionField {
    pub top_version: usize,
    pub sub_version: usize,
}

/// The `Content-Type` field: type, subtype and parameters (each name with
/// its value; a name occurs once, the last value given for it being kept).
#[derive(Debug, PartialEq, Eq)]
pub struct ContentTypeField {
    pub top_level: TopLevel,
    pub sub_level: SubLevel,
    pub params: Vec<(String, Vec<u8>)>,
}

/// The `Content-Transfer-Encoding` field.
#[derive(Debug, PartialEq, Eq)]
pub struct EncodingField {
    pub encoding: Encoding,
}

/// A header field of a message.
#[derive(Debug, PartialEq, Eq)]
pub enum Field {
    Date(DateTimeField),
    From(AddressesField),
    Sender(AddressField),
    ReplyTo(AddressesField),
    To(AddressesField),
    Cc(AddressesField),
    Bcc(AddressesField),
    MessageID(MessageIDField),
    InReplyTo(MessageIDsField),
    References(MessageIDsField),
    Subject(UnstructuredField),
    Comments(UnstructuredField),
    Keywords(KeywordsField),
    ReturnPath(AddressField),
    Received(ReceivedField),
    ResentDate(DateTimeField),
    ResentFrom(AddressesField),
    ResentSender(AddressField),
    ResentTo(AddressesField),
    ResentCc(AddressesField),
    ResentBcc(AddressesField),
    ResentReplyTo(AddressesField),
    ResentMessageID(MessageIDField),
    MIMEVersion(MIMEVersionField),
    ContentType(ContentTypeField),
    ContentTransferEncoding(EncodingField),
    ContentID(MessageIDField),
    ContentDescription(TextField),
    /// Any other field: its name and its unstructured body.
    Optional(String, UnstructuredField),
}

/// The kind of a header field, that is its variant.
#[derive(Debug, PartialEq, Eq, Structural, Clone, Copy)]
pub enum FieldKind {
    Date,
    From,
    Sender,
    ReplyTo,
    To,
    Cc,
    Bcc,
    MessageID,
    InReplyTo,
    References,
    Subject,
    Comments,
    Keywords,
    ReturnPath,
    Received,
    ResentDate,
    ResentFrom,
    ResentSender,
    ResentTo,
    ResentCc,
    ResentBcc,
    ResentReplyTo,
    ResentMessageID,
    MIMEVersion,
    ContentType,
    ContentTransferEncoding,
    ContentID,
    ContentDescription,
    Optional,
}

/// The mathematical value of a [`Field`]: its kind, the name of an optional
/// field (empty for the others) and the raw body of the fields that keep
/// one (empty for the others).
pub struct FieldModel {
    pub kind: FieldKind,
    pub name: Seq<char>,
    pub data: Seq<u8>,
}

impl View for Field {
    type V = FieldModel;

    open spec fn view(&self) -> FieldModel {
        match self {
            Field::Date(f) => FieldModel { kind: FieldKind::Date, name: Seq::empty(), data: f@ },
            Field::From(f) => FieldModel { kind: FieldKind::From, name: Seq::empty(), data: f@ },
            Field::Sender(f) => FieldModel { kind: FieldKind::Sender, name: Seq::empty(), data: f@ },
            Field::ReplyTo(f) => FieldModel { kind: FieldKind::ReplyTo, name: Seq::empty(), data: f@ },
            Field::To(f) => FieldModel { kind: FieldKind::To, name: Seq::empty(), data: f@ },
            Field::Cc(f) => FieldModel { kind: FieldKind::Cc, name: Seq::empty(), data: f@ },
            Field::Bcc(f) => FieldModel { kind: FieldKind::Bcc, name: Seq::empty(), data: f@ },
            Field::MessageID(f) => FieldModel { kind: FieldKind::MessageID, name: Seq::empty(), data: f@ },
            Field::InReplyTo(f) => FieldModel { kind: FieldKind::InReplyTo, name: Seq::empty(), data: f@ },
            Field::References(f) => FieldModel { kind: FieldKind::References, name: Seq::empty(), data: f@ },
            Field::Subject(f) => FieldModel { kind: FieldKind::Subject, name: Seq::empty(), data: f@ },
            Field::Comments(f) => FieldModel { kind: FieldKind::Comments, name: Seq::empty(), data: f@ },
            Field::Keywords(f) => FieldModel { kind: FieldKind::Keywords, name: Seq::empty(), data: f@ },
            Field::ReturnPath(f) => FieldModel { kind: FieldKind::ReturnPath, name: Seq::empty(), data: f@ },
            Field::Received(f) => FieldModel { kind: FieldKind::Received, name: Seq::empty(), data: f@ },
            Field::ResentDate(f) => FieldModel { kind: FieldKind::ResentDate, name: Seq::empty(), data: f@ },
            Field::ResentFrom(f) => FieldModel { kind: FieldKind::ResentFrom, name: Seq::empty(), data: f@ },
            Field::ResentSender(f) => FieldModel { kind: FieldKind::ResentSender, name: Seq::empty(), data: f@ },
            Field::ResentTo(f) => FieldModel { kind: FieldKind::ResentTo, name: Seq::empty(), data: f@ },
            Field::ResentCc(f) => FieldModel { kind: FieldKind::ResentCc, name: Seq::empty(), data: f@ },
            Field::ResentBcc(f) => FieldModel { kind: FieldKind::ResentBcc, name: Seq::empty(), data: f@ },
            Field::ResentReplyTo(f) => FieldModel { kind: FieldKind::ResentReplyTo, name: Seq::empty(), data: f@ },
            Field::ResentMessageID(f) => FieldModel { kind: FieldKind::ResentMessageID, name: Seq::empty(), data: f@ },
            Field::MIMEVersion(_) => FieldModel { kind: FieldKind::MIMEVersion, name: Seq::empty(), data: Seq::empty() },
            Field::ContentType(_) => FieldModel { kind: FieldKind::ContentType, name: Seq::empty(), data: Seq::empty() },
            Field::ContentTransferEncoding(_) => FieldModel { kind: FieldKind::ContentTransferEncoding, name: Seq::empty(), data: Seq::empty() },
            Field::ContentID(f) => FieldModel { kind: FieldKind::ContentID, name: Seq::empty(), data: f@ },
            Field::ContentDescription(f) => FieldModel { kind: FieldKind::ContentDescription, name: Seq::empty(), data: f@ },
            Field::Optional(n, f) => FieldModel { kind: FieldKind::Optional, name: n@, data: f@ },
        }
    }
}

impl Field {
    /// The kind of the field.
    pub fn kind(&self) -> (r: FieldKind)
        ensures
            r == self@.kind,
    {
        match self {
            Field::Date(_) => FieldKind::Date,
            Field::From(_) => FieldKind::From,
            Field::Sender(_) => FieldKind::Sender,
            Field::ReplyTo(_) => FieldKind::ReplyTo,
            Field::To(_) => FieldKind::To,
            Field::Cc(_) => FieldKind::Cc,
            Field::Bcc(_) => FieldKind::Bcc,
            Field::MessageID(_) => FieldKind::MessageID,
            Field::InReplyTo(_) => FieldKind::InReplyTo,
            Field::References(_) => FieldKind::References,
            Field::Subject(_) => FieldKind::Subject,
            Field::Comments(_) => FieldKind::Comments,
            Field::Keywords(_) => FieldKind::Keywords,
            Field::ReturnPath(_) => FieldKind::ReturnPath,
            Field::Received(_) => FieldKind::Received,
            Field::ResentDate(_) => FieldKind::ResentDate,
            Field::ResentFrom(_) => FieldKind::ResentFrom,
            Field::ResentSender(_) => FieldKind::ResentSender,
            Field::ResentTo(_) => FieldKind::ResentTo,
            Field::ResentCc(_) => FieldKind::ResentCc,
            Field::ResentBcc(_) => FieldKind::ResentBcc,
            Field::ResentReplyTo(_) => FieldKind::ResentReplyTo,
            Field::ResentMessageID(_) => FieldKind::ResentMessageID,
            Field::MIMEVersion(_) => FieldKind::MIMEVersion,
            Field::ContentType(_) => FieldKind::ContentType,
            Field::ContentTransferEncoding(_) => FieldKind::ContentTransferEncoding,
            Field::ContentID(_) => FieldKind::ContentID,
            Field::ContentDescription(_) => FieldKind::ContentDescription,
            Field::Optional(_, _) => FieldKind::Optional,
        }
    }

    /// Whether this is an optional field, kept with its name and an
    /// unstructured body.
    pub fn is_unstructured(&self) -> (r: bool)
        ensures
            r == (self@.kind == FieldKind::Optional),
    {
        match self {
            Field::Optional(_, _) => true,
            _ => false,
        }
    }
}

/// The views of a list of fields.
pub open spec fn field_views(v: Seq<Field>) -> Seq<FieldModel> {
    v.map_values(|f: Field| f@)
}

pub proof fn lemma_field_views_push(v: Seq<Field>, f: Field)
    ensures
        field_views(v.push(f)) == field_views(v).push(f@),
{
    assert(field_views(v.push(f)) =~= field_views(v).push(f@));
}

/// The value of a structured field: parsed, or kept raw when its body does
/// not parse, or missing when the message has no such field.
#[derive(Debug, PartialEq, Eq)]
pub enum FieldValue<T> {
    Parsed(T),
    Raw(Vec<u8>),
    Missing,
}

impl<T> FieldValue<T> {
    pub fn is_ok(&self) -> (r: bool)
        ensures
            r == (self is Parsed),
    {
        match self {
            FieldValue::Parsed(_) => true,
            _ => false,
        }
    }

    pub fn is_raw(&self) -> (r: bool)
        ensures
            r == (self is Raw),
    {
        match self {
            FieldValue::Raw(_) => true,
            _ => false,
        }
    }

    pub fn is_missing(&self) -> (r: bool)
        ensures
            r == (self is Missing),
    {
        match self {
            FieldValue::Missing => true,
            _ => false,
        }
    }

    /// The parsed value.
    pub fn unwrap(self) -> (r: T)
        requires
            self is Parsed,
        ensures
            self == FieldValue::<T>::Parsed(r),
    {
        match self {
            FieldValue::Parsed(v) => v,
            FieldValue::Raw(_) => {
                assert(false);
                unreached()
            },
            FieldValue::Missing => {
                assert(false);
                unreached()
            },
        }
    }

    /// The raw body, as text; it must be valid UTF-8.
    pub fn raw(&self) -> (r: String)
        requires
            self matches FieldValue::Raw(b) && vstd::utf8::valid_utf8(b@),
        ensures
            self matches FieldValue::Raw(b) && r@ == vstd::utf8::decode_utf8(b@),
    {
        match self {
            FieldValue::Raw(b) => {
                let v = crate::util::copy_range(b.as_slice(), 0, b.len());
                assert(v@ == b@.subrange(0, b@.len() as int));
                assert(b@.subrange(0, b@.len() as int) == b@);
                match crate::util::string_from_utf8(v) {
                    Some(x) => x,
                    None => {
                        assert(false);
                        String::new()
                    },
                }
            },
            _ => {
                assert(false);
                String::new()
            },
        }
    }
}

/// A message: its header fields in order, and its body when the header is
/// followed by a blank line.
#[derive(Debug, PartialEq, Eq)]
pub struct Message {
    pub fields: Vec<Field>,
    pub body: Option<Vec<u8>>,
}

/// The mathematical value of a [`Message`].
pub struct MessageModel {
    pub fields: Seq<FieldModel>,
    pub body: Option<Seq<u8>>,
}

impl View for Message {
    type V = MessageModel;

    open spec fn view(&self) -> MessageModel {
        MessageModel { fields: field_views(self.fields@), body: opt_bytes(self.body) }
    }
}

impl Message {
    pub(crate) fn new(fields: Vec<Field>, body: Option<Vec<u8>>) -> (r: Message)
        ensures
            r@ == (MessageModel { fields: field_views(fields@), body: opt_bytes(body) }),
    {
        Message { fields, body }
    }
}

/// A block of trace fields, with its return path.
#[derive(Debug, PartialEq, Eq)]
pub struct Trace {
    pub return_path: Option<Address>,
    pub fields: Vec<Field>,
}

/// A day of the week.
#[derive(Debug, PartialEq, Eq, Clone, Copy)]
pub enum Day {
    Mon,
    Tue,
    Wed,
    Thu,
    Fri,
    Sat,
    Sun,
}

impl View for Day {
    type V = Day;

    open spec fn view(&self) -> Day {
        *self
    }
}

/// A month of the year.
#[derive(Debug, PartialEq, Eq, Clone, Copy)]
pub enum Month {
    Jan,
    Feb,
    Mar,
    Apr,
    May,
    Jun,
    Jul,
    Aug,
    Sep,
    Oct,
    Nov,
    Dec,
}

impl View for Month {
    type V = Month;

    open spec fn view(&self) -> Month {
        *self
    }
}

/// The number of a month, January being 1.
pub open spec fn spec_month_number(m: Month) -> u32 {
    match m {
        Month::Jan => 1,
        Month::Feb => 2,
        Month::Mar => 3,
        Month::Apr => 4,
        Month::May => 5,
        Month::Jun => 6,
        Month::Jul => 7,
        Month::Aug => 8,
        Month::Sep => 9,
        Month::Oct => 10,
        Month::Nov => 11,
        Month::Dec => 12,
    }
}

pub fn month_number(m: Month) -> (r: u32)
    ensures
        r == spec_month_number(m),
{
    match m {
        Month::Jan => 1,
        Month::Feb => 2,
        Month::Mar => 3,
        Month::Apr => 4,
        Month::May => 5,
        Month::Jun => 6,
        Month::Jul => 7,
        Month::Aug => 8,
        Month::Sep => 9,
        Month::Oct => 10,
        Month::Nov => 11,
        Month::Dec => 12,
    }
}

/// A calendar date (proleptic Gregorian), as `(year, month, day)`.
#[derive(Debug, PartialEq, Eq, Clone, Copy)]
pub struct Date {
    pub year: i32,
    pub month: u32,
    pub day: u32,
}

impl View for Date {
    type V = Date;

    open spec fn view(&self) -> Date {
        *self
    }
}

/// A date and a time of day at a fixed offset from UTC: the fields are the
/// local date and time, and `offset` is local time minus UTC, in seconds.
#[derive(Debug, PartialEq, Eq, Clone, Copy)]
pub struct DateTime {
    pub year: i32,
    pub month: u32,
    pub day: u32,
    pub hour: u32,
    pub minute: u32,
    pub second: u32,
    pub offset: i32,
}

impl View for DateTime {
    type V = DateTime;

    open spec fn view(&self) -> DateTime {
        *self
    }
}

/// A message identifier `<id-left@id-right>`; `id_left` is `None` when the
/// identifier has no `id-left "@"` part.
#[derive(Debug, PartialEq, Eq)]
pub struct MessageID {
    pub id_left: Option<String>,
    pub id_right: String,
}

/// The mathematical value of a [`MessageID`].
pub struct MessageIDModel {
    pub id_left: Option<Seq<char>>,
    pub id_right: Seq<char>,
}

impl View for MessageID {
    type V = MessageIDModel;

    open spec fn view(&self) -> MessageIDModel {
        MessageIDModel {
            id_left: match self.id_left {
                Some(l) => Some(l@),
                None => None,
            },
            id_right: self.id_right@,
        }
    }
}

// ---------------------------------------------------------------------------
// Reading the structured fields
// ---------------------------------------------------------------------------

/// `r` is what an address-list field with body `data` reads as: the
/// addresses when `address-list` matches at the start of the body, else the
/// raw body.
pub open spec fn is_addresses_value(r: FieldValue<Vec<Address>>, data: Seq<u8>) -> bool {
    match spec_address_list(data, 0) {
        Some((_, v)) => r matches FieldValue::Parsed(a) && addr_views(a@) == v,
        None => r matches FieldValue::Raw(b) && b@ == data,
    }
}

/// `r` is what a single-mailbox field with body `data` reads as.
pub open spec fn is_address_value(r: FieldValue<Address>, data: Seq<u8>) -> bool {
    match spec_mailbox(data, 0) {
        Some((_, v)) => r matches FieldValue::Parsed(a) && a@ == v,
        None => r matches FieldValue::Raw(b) && b@ == data,
    }
}

/// `r` is what a message identifier field with body `data` reads as.
pub open spec fn is_message_id_value(r: FieldValue<MessageID>, data: Seq<u8>) -> bool {
    match spec_msg_id(data, 0) {
        Some((_, v)) => r matches FieldValue::Parsed(m) && m@ == v,
        None => r matches FieldValue::Raw(b) && b@ == data,
    }
}

/// `r` is what an `In-Reply-To:` or `References:` field with body `data`
/// reads as: always the identifiers found in it.
pub open spec fn is_message_ids_value(r: FieldValue<Vec<MessageID>>, data: Seq<u8>) -> bool {
    r matches FieldValue::Parsed(v) && msg_id_views(v@) == msg_id_list_items(data, 0)
}

/// `r` is what a date field with body `data` reads as, two-digit years
/// being settled relative to `this_year`.
#[verifier::opaque]
pub open spec fn is_date_time_value(r: FieldValue<DateTime>, data: Seq<u8>, this_year: usize) -> bool {
    match spec_date_time(data, 0, this_year) {
        Some((_, v)) => r == FieldValue::Parsed(v),
        None => r matches FieldValue::Raw(b) && b@ == data,
    }
}

/// `r` is what a date field with body `data` reads as, two-digit years
/// being settled relative to `this_year`, where a value that cannot be formed
/// with that year (see [`spec_date_time_panics`]) leaves the body raw.
pub open spec fn is_date_time_value_at(r: FieldValue<DateTime>, data: Seq<u8>, this_year: usize) -> bool {
    if spec_date_time_panics(data, 0, this_year) {
        r matches FieldValue::Raw(b) && b@ == data
    } else {
        is_date_time_value(r, data, this_year)
    }
}

impl DateTimeField {
    /// The date and time, two-digit years being settled relative to
    /// `this_year`; the raw body when it does not read as `date-time`.
    pub fn date_time_in_year(&self, this_year: usize) -> (r: FieldValue<DateTime>)
        requires
            !spec_date_time_panics(self@, 0, this_year),
        ensures
            is_date_time_value(r, self@, this_year),
    {
        reveal(is_date_time_value);
        let d = self.data.as_slice();
        match date_time_in_year(d, 0, this_year) {
            Some((_, v)) => FieldValue::Parsed(v),
            None => {
                assert(d@.subrange(0, d@.len() as int) =~= d@);
                FieldValue::Raw(copy_range(d, 0, d.len()))
            },
        }
    }

    /// Whether the date can be read with two-digit years settled relative to
    /// `this_year` (see [`spec_date_time_panics`]).
    pub fn readable_in_year(&self, this_year: usize) -> (r: bool)
        ensures
            r == !spec_date_time_panics(self@, 0, this_year),
    {
        !date_time_panics(self.data.as_slice(), 0, this_year)
    }

    /// The date and time, two-digit years settled relative to `this_year`;
    /// the raw body where no value can be formed with that year.
    fn date_time_at(&self, this_year: usize) -> (r: FieldValue<DateTime>)
        ensures
            is_date_time_value_at(r, self@, this_year),
    {
        if !self.readable_in_year(this_year) {
            let d = self.data.as_slice();
            assert(d@.subrange(0, d@.len() as int) =~= d@);
            return FieldValue::Raw(copy_range(d, 0, d.len()));
        }
        self.date_time_in_year(this_year)
    }

    /// The date and time, two-digit years being settled relative to the
    /// current year read from the clock; the raw body where it does not read
    /// as `date-time` or no value can be formed with the year read.
    pub fn date_time(&self) -> (r: FieldValue<DateTime>)
        ensures
            exists|y: i32| MIN_YEAR <= y <= MAX_YEAR && is_date_time_value_at(r, self@, #[trigger] clock_year(y)),
    {
        let y = current_year();
        let r = self.date_time_at(y as usize);
        assert(is_date_time_value_at(r, self@, clock_year(y)));
        r
    }
}

impl AddressesField {
    /// The addresses of the body (`address-list`); the raw body when it
    /// does not read as one.
    pub fn addresses(&self) -> (r: FieldValue<Vec<Address>>)
        ensures
            is_addresses_value(r, self@),
    {
        let d = self.data.as_slice();
        match address_list(d, 0) {
            Some((_, v)) => FieldValue::Parsed(v),
            None => {
                assert(d@.subrange(0, d@.len() as int) =~= d@);
                FieldValue::Raw(copy_range(d, 0, d.len()))
            },
        }
    }
}

impl AddressField {
    /// The mailbox of the body; the raw body when it does not read as one.
    pub fn address(&self) -> (r: FieldValue<Address>)
        ensures
            is_address_value(r, self@),
    {
        let d = self.data.as_slice();
        match mailbox(d, 0) {
            Some((_, v)) => FieldValue::Parsed(v),
            None => {
                assert(d@.subrange(0, d@.len() as int) =~= d@);
                FieldValue::Raw(copy_range(d, 0, d.len()))
            },
        }
    }
}

impl MessageIDField {
    /// The message identifier of the body; the raw body when it does not
    /// read as one.
    pub fn message_id(&self) -> (r: FieldValue<MessageID>)
        ensures
            is_message_id_value(r, self@),
    {
        let d = self.data.as_slice();
        match msg_id(d, 0) {
            Some((_, v)) => FieldValue::Parsed(v),
            None => {
                assert(d@.subrange(0, d@.len() as int) =~= d@);
                FieldValue::Raw(copy_range(d, 0, d.len()))
            },
        }
    }
}

impl MessageIDsField {
    /// The message identifiers of the body, read as `*(phrase / msg-id)`:
    /// the phrases are ignored.  This never fails.
    pub fn message_ids(&self) -> (r: FieldValue<Vec<MessageID>>)
        ensures
            is_message_ids_value(r, self@),
    {
        FieldValue::Parsed(msg_id_list(self.data.as_slice(), 0))
    }
}

impl KeywordsField {
    /// The keywords; they are not read, so the list is empty.
    pub fn keywords(&self) -> (r: Vec<Vec<u8>>)
        ensures
            r@.len() == 0,
    {
        Vec::new()
    }
}

/// Whether a field whose structure is known fails to read: its value comes
/// out raw.  `Received:` bodies vary too much to be judged, and the other
/// fields are never malformed.
pub open spec fn spec_is_malformed(f: FieldModel, this_year: usize) -> bool {
    match f.kind {
        FieldKind::Date | FieldKind::ResentDate => spec_date_time(f.data, 0, this_year) is None,
        FieldKind::From | FieldKind::ReplyTo | FieldKind::To | FieldKind::Cc | FieldKind::ResentFrom
        | FieldKind::ResentTo | FieldKind::ResentCc | FieldKind::ResentBcc
        | FieldKind::ResentReplyTo => spec_address_list(f.data, 0) is None,
        FieldKind::Sender | FieldKind::ResentSender => spec_mailbox(f.data, 0) is None,
        FieldKind::MessageID | FieldKind::ResentMessageID => spec_msg_id(f.data, 0) is None,
        _ => false,
    }
}

/// Reading the field cannot fail with two-digit years settled relative to
/// `this_year`.
pub open spec fn field_readable_in_year(f: FieldModel, this_year: usize) -> bool {
    (f.kind == FieldKind::Date || f.kind == FieldKind::ResentDate) ==> !spec_date_time_panics(f.data, 0, this_year)
}

/// Whether the field is malformed with two-digit years settled relative to
/// `this_year`; a date that cannot be formed with that year reads raw, and so
/// counts as malformed.
pub open spec fn spec_is_malformed_at(f: FieldModel, this_year: usize) -> bool {
    if field_readable_in_year(f, this_year) {
        spec_is_malformed(f, this_year)
    } else {
        true
    }
}

impl Field {
    /// Whether reading this structured field fails (see
    /// [`spec_is_malformed`]), two-digit years being settled relative to
    /// `this_year`.
    pub fn is_malformed_in_year(&self, this_year: usize) -> (r: bool)
        requires
            field_readable_in_year(self@, this_year),
        ensures
            r == spec_is_malformed(self@, this_year),
    {
        reveal(is_date_time_value);
        match self {
            Field::Date(v) => v.date_time_in_year(this_year).is_raw(),
            Field::From(v) => v.addresses().is_raw(),
            Field::Sender(v) => v.address().is_raw(),
            Field::ReplyTo(v) => v.addresses().is_raw(),
            Field::To(v) => v.addresses().is_raw(),
            Field::Cc(v) => v.addresses().is_raw(),
            Field::MessageID(v) => v.message_id().is_raw(),
            Field::InReplyTo(v) => v.message_ids().is_raw(),
            Field::References(v) => v.message_ids().is_raw(),
            Field::Subject(_) => false,
            Field::Comments(_) => false,
            Field::ResentFrom(v) => v.addresses().is_raw(),
            Field::ResentSender(v) => v.address().is_raw(),
            Field::ResentDate(v) => v.date_time_in_year(this_year).is_raw(),
            Field::ResentTo(v) => v.addresses().is_raw(),
            Field::ResentCc(v) => v.addresses().is_raw(),
            Field::ResentBcc(v) => v.addresses().is_raw(),
            Field::ResentMessageID(v) => v.message_id().is_raw(),
            Field::ResentReplyTo(v) => v.addresses().is_raw(),
            _ => false,
        }
    }

    /// Whether reading this structured field fails, two-digit years being
    /// settled relative to the current year read from the clock (see
    /// [`spec_is_malformed_at`]).
    pub fn is_malformed(&self) -> (r: bool)
        ensures
            exists|y: i32| MIN_YEAR <= y <= MAX_YEAR && r == spec_is_malformed_at(self@, #[trigger] clock_year(y)),
    {
        let y = current_year();
        let r = match self {
            Field::Date(v) => !v.readable_in_year(y as usize) || self.is_malformed_in_year(y as usize),
            Field::ResentDate(v) => !v.readable_in_year(y as usize) || self.is_malformed_in_year(y as usize),
            _ => self.is_malformed_in_year(y as usize),
        };
        assert(r == spec_is_malformed_at(self@, clock_year(y)));
        r
    }
}

// ---------------------------------------------------------------------------
// Reading a message
// ---------------------------------------------------------------------------

/// The first field of kind `k` among `fs[i..]`.
pub open spec fn first_field_from(fs: Seq<FieldModel>, k: FieldKind, i: int) -> Option<FieldModel>
    decreases fs.len() - i,
{
    if 0 <= i < fs.len() {
        if fs[i].kind == k {
            Some(fs[i])
        } else {
            first_field_from(fs, k, i + 1)
        }
    } else {
        None
    }
}

/// The first field of kind `k`.
pub open spec fn first_field(fs: Seq<FieldModel>, k: FieldKind) -> Option<FieldModel> {
    first_field_from(fs, k, 0)
}

impl Message {
    /// The body: the text after the blank line that ends the header, or
    /// nothing when there is none.
    pub fn body(&self) -> (r: Vec<u8>)
        ensures
            r@ == (match self@.body {
                Some(b) => b,
                None => Seq::empty(),
            }),
    {
        match &self.body {
            Some(b) => {
                assert(b@.subrange(0, b@.len() as int) =~= b@);
                copy_range(b.as_slice(), 0, b.len())
            },
            None => Vec::new(),
        }
    }

    /// The index of the first field of kind `k`.
    fn find_field(&self, k: FieldKind) -> (r: Option<usize>)
        ensures
            match r {
                Some(i) => i < self.fields@.len() && self.fields@[i as int]@.kind == k
                    && first_field(self@.fields, k) == Some(self.fields@[i as int]@),
                None => first_field(self@.fields, k) is None,
            },
    {
        let mut i: usize = 0;
        while i < self.fields.len()
            invariant
                i <= self.fields@.len(),
                self@.fields == field_views(self.fields@),
                first_field(self@.fields, k) == first_field_from(self@.fields, k, i as int),
            decreases self.fields.len() - i,
        {
            assert(self@.fields[i as int] == self.fields@[i as int]@);
            if self.fields[i].kind() == k {
                return Some(i);
            }
            i = i + 1;
        }
        None
    }

    /// The `From:` addresses (of the first such field).
    pub fn from(&self) -> (r: FieldValue<Vec<Address>>)
        ensures
            match first_field(self@.fields, FieldKind::From) {
                Some(f) => is_addresses_value(r, f.data),
                None => r is Missing,
            },
    {
        match self.find_field(FieldKind::From) {
            Some(i) => match &self.fields[i] {
                Field::From(f) => f.addresses(),
                _ => FieldValue::Missing,
            },
            None => FieldValue::Missing,
        }
    }

    /// The `Sender:` mailbox (of the first such field).
    pub fn sender(&self) -> (r: FieldValue<Address>)
        ensures
            match first_field(self@.fields, FieldKind::Sender) {
                Some(f) => is_address_value(r, f.data),
                None => r is Missing,
            },
    {
        match self.find_field(FieldKind::Sender) {
            Some(i) => match &self.fields[i] {
                Field::Sender(f) => f.address(),
                _ => FieldValue::Missing,
            },
            None => FieldValue::Missing,
        }
    }

    /// The `Reply-To:` addresses (of the first such field).
    pub fn reply_to(&self) -> (r: FieldValue<Vec<Address>>)
        ensures
            match first_field(self@.fields, FieldKind::ReplyTo) {
                Some(f) => is_addresses_value(r, f.data),
                None => r is Missing,
            },
    {
        match self.find_field(FieldKind::ReplyTo) {
            Some(i) => match &self.fields[i] {
                Field::ReplyTo(f) => f.addresses(),
                _ => FieldValue::Missing,
            },
            None => FieldValue::Missing,
        }
    }

    /// The `To:` addresses (of the first such field).
    pub fn to(&self) -> (r: FieldValue<Vec<Address>>)
        ensures
            match first_field(self@.fields, FieldKind::To) {
                Some(f) => is_addresses_value(r, f.data),
                None => r is Missing,
            },
    {
        match self.find_field(FieldKind::To) {
            Some(i) => match &self.fields[i] {
                Field::To(f) => f.addresses(),
                _ => FieldValue::Missing,
            },
            None => FieldValue::Missing,
        }
    }

    /// The `Cc:` addresses (of the first such field).
    pub fn cc(&self) -> (r: FieldValue<Vec<Address>>)
        ensures
            match first_field(self@.fields, FieldKind::Cc) {
                Some(f) => is_addresses_value(r, f.data),
                None => r is Missing,
            },
    {
        match self.find_field(FieldKind::Cc) {
            Some(i) => match &self.fields[i] {
                Field::Cc(f) => f.addresses(),
                _ => FieldValue::Missing,
            },
            None => FieldValue::Missing,
        }
    }

    /// The `Bcc:` addresses (of the first such field).
    pub fn bcc(&self) -> (r: FieldValue<Vec<Address>>)
        ensures
            match first_field(self@.fields, FieldKind::Bcc) {
                Some(f) => is_addresses_value(r, f.data),
                None => r is Missing,
            },
    {
        match self.find_field(FieldKind::Bcc) {
            Some(i) => match &self.fields[i] {
                Field::Bcc(f) => f.addresses(),
                _ => FieldValue::Missing,
            },
            None => FieldValue::Missing,
        }
    }

    /// The `Message-ID:` identifier (of the first such field).
    pub fn message_id(&self) -> (r: FieldValue<MessageID>)
        ensures
            match first_field(self@.fields, FieldKind::MessageID) {
                Some(f) => is_message_id_value(r, f.data),
                None => r is Missing,
            },
    {
        match self.find_field(FieldKind::MessageID) {
            Some(i) => match &self.fields[i] {
                Field::MessageID(f) => f.message_id(),
                _ => FieldValue::Missing,
            },
            None => FieldValue::Missing,
        }
    }

    /// The `References:` identifiers (of the first such field).
    pub fn references(&self) -> (r: FieldValue<Vec<MessageID>>)
        ensures
            match first_field(self@.fields, FieldKind::References) {
                Some(f) => is_message_ids_value(r, f.data),
                None => r is Missing,
            },
    {
        match self.find_field(FieldKind::References) {
            Some(i) => match &self.fields[i] {
                Field::References(f) => f.message_ids(),
                _ => FieldValue::Missing,
            },
            None => FieldValue::Missing,
        }
    }

    /// The `In-Reply-To:` identifiers (of the first such field).
    pub fn in_reply_to(&self) -> (r: FieldValue<Vec<MessageID>>)
        ensures
            match first_field(self@.fields, FieldKind::InReplyTo) {
                Some(f) => is_message_ids_value(r, f.data),
                None => r is Missing,
            },
    {
        match self.find_field(FieldKind::InReplyTo) {
            Some(i) => match &self.fields[i] {
                Field::InReplyTo(f) => f.message_ids(),
                _ => FieldValue::Missing,
            },
            None => FieldValue::Missing,
        }
    }

    /// The `Date:` date and time (of the first such field), two-digit years
    /// being settled relative to `this_year`.
    pub fn date_in_year(&self, this_year: usize) -> (r: FieldValue<DateTime>)
        requires
            first_field(self@.fields, FieldKind::Date) matches Some(f) ==> !spec_date_time_panics(f.data, 0, this_year),
        ensures
            match first_field(self@.fields, FieldKind::Date) {
                Some(f) => is_date_time_value(r, f.data, this_year),
                None => r is Missing,
            },
    {
        match self.find_field(FieldKind::Date) {
            Some(i) => match &self.fields[i] {
                Field::Date(f) => f.date_time_in_year(this_year),
                _ => FieldValue::Missing,
            },
            None => FieldValue::Missing,
        }
    }

    /// The `Date:` date and time (of the first such field), two-digit years
    /// being settled relative to the current year read from the clock; the
    /// raw body where no value can be formed with the year read.
    pub fn date(&self) -> (r: FieldValue<DateTime>)
        ensures
            match first_field(self@.fields, FieldKind::Date) {
                Some(f) => exists|y: i32| MIN_YEAR <= y <= MAX_YEAR && is_date_time_value_at(r, f.data, #[trigger] clock_year(y)),
                None => r is Missing,
            },
    {
        let y = current_year();
        let r = match self.find_field(FieldKind::Date) {
            Some(i) => match &self.fields[i] {
                Field::Date(f) => f.date_time_at(y as usize),
                _ => FieldValue::Missing,
            },
            None => FieldValue::Missing,
        };
        proof {
            match first_field(self@.fields, FieldKind::Date) {
                Some(f) => {
                    assert(is_date_time_value_at(r, f.data, clock_year(y)));
                },
                None => {},
            }
        }
        r
    }
}

/// The text that a field with a raw body starts with: its name and ": ".
pub open spec fn spec_field_prefix(k: FieldKind) -> Seq<char> {
    match k {
        FieldKind::Date => "Date: "@,
        FieldKind::From => "From: "@,
        FieldKind::Sender => "Sender: "@,
        FieldKind::ReplyTo => "Reply-To: "@,
        FieldKind::To => "To: "@,
        FieldKind::Cc => "Cc: "@,
        FieldKind::Bcc => "Bcc: "@,
        FieldKind::MessageID => "Message-ID: "@,
        FieldKind::InReplyTo => "In-Reply-To: "@,
        FieldKind::References => "References: "@,
        FieldKind::Subject => "Subject: "@,
        FieldKind::Comments => "Comments: "@,
        FieldKind::Keywords => "Keywords: "@,
        FieldKind::ReturnPath => "Return-Path: "@,
        FieldKind::Received => "Received: "@,
        FieldKind::ResentDate => "Resent-Date: "@,
        FieldKind::ResentFrom => "Resent-From: "@,
        FieldKind::ResentSender => "Resent-Sender: "@,
        FieldKind::ResentTo => "Resent-To: "@,
        FieldKind::ResentCc => "Resent-Cc: "@,
        FieldKind::ResentBcc => "Resent-Bcc: "@,
        FieldKind::ResentReplyTo => "Resent-Reply-To: "@,
        FieldKind::ResentMessageID => "Resent-Message-ID: "@,
        FieldKind::ContentID => "Content-ID: "@,
        FieldKind::ContentDescription => "Content-Description: "@,
        _ => Seq::empty(),
    }
}

/// The text of a raw field body: the body without its final line break,
/// decoded as UTF-8 with invalid sequences replaced.
pub open spec fn body_text(data: Seq<u8>) -> Seq<char> {
    utf8_lossy(data.subrange(0, data.len() - 2))
}

/// The body without its final line break is valid UTF-8.
pub open spec fn body_is_utf8(data: Seq<u8>) -> bool {
    valid_utf8(data.subrange(0, data.len() - 2))
}

/// The text of a raw field body that is valid UTF-8: the body without its
/// final line break, decoded.
pub open spec fn decoded_body(data: Seq<u8>) -> Seq<char> {
    decode_utf8(data.subrange(0, data.len() - 2))
}

/// The text of a MIME version `top.sub`.
pub open spec fn version_text(top: usize, sub: usize) -> Seq<char> {
    ascii_chars(decimal_bytes(top as nat)) + "."@ + ascii_chars(decimal_bytes(sub as nat))
}

/// A field can be shown as text when its raw body, if it keeps one, holds
/// at least the two bytes of its final line break.
pub open spec fn spec_renders(f: FieldModel) -> bool {
    !(f.kind == FieldKind::MIMEVersion || f.kind == FieldKind::ContentType
        || f.kind == FieldKind::ContentTransferEncoding) ==> f.data.len() >= 2
}

impl Field {
    /// Whether the field can be shown as text (see [`Field::to_string`]).
    pub fn renders(&self) -> (r: bool)
        ensures
            r == spec_renders(self@),
    {
        match self {
            Field::Date(f) => f.data.len() >= 2,
            Field::From(f) => f.data.len() >= 2,
            Field::Sender(f) => f.data.len() >= 2,
            Field::ReplyTo(f) => f.data.len() >= 2,
            Field::To(f) => f.data.len() >= 2,
            Field::Cc(f) => f.data.len() >= 2,
            Field::Bcc(f) => f.data.len() >= 2,
            Field::MessageID(f) => f.data.len() >= 2,
            Field::InReplyTo(f) => f.data.len() >= 2,
            Field::References(f) => f.data.len() >= 2,
            Field::Subject(f) => f.data.len() >= 2,
            Field::Comments(f) => f.data.len() >= 2,
            Field::Keywords(f) => f.data.len() >= 2,
            Field::ReturnPath(f) => f.data.len() >= 2,
            Field::Received(f) => f.data.len() >= 2,
            Field::ResentDate(f) => f.data.len() >= 2,
            Field::ResentFrom(f) => f.data.len() >= 2,
            Field::ResentSender(f) => f.data.len() >= 2,
            Field::ResentTo(f) => f.data.len() >= 2,
            Field::ResentCc(f) => f.data.len() >= 2,
            Field::ResentBcc(f) => f.data.len() >= 2,
            Field::ResentReplyTo(f) => f.data.len() >= 2,
            Field::ResentMessageID(f) => f.data.len() >= 2,
            Field::ContentID(f) => f.data.len() >= 2,
            Field::ContentDescription(f) => f.data.len() >= 2,
            Field::Optional(_, f) => f.data.len() >= 2,
            Field::MIMEVersion(_) => true,
            Field::ContentType(_) => true,
            Field::ContentTransferEncoding(_) => true,
        }
    }

    /// The field as text: its name, ": " and its body (without the final
    /// line break); the MIME fields give their values.
    pub fn to_string(&self) -> (r: String)
        requires
            spec_renders(self@),
        ensures
            match self {
                Field::MIMEVersion(v) => r@ == "MIME-Version: "@ + version_text(v.top_version, v.sub_version),
                Field::ContentType(v) => r@ == "Content-Type: "@ + spec_top_level_name(v.top_level) + "/"@
                    + spec_sub_level_name(v.sub_level),
                Field::ContentTransferEncoding(v) => r@ == "Content-Transfer-Encoding: "@ + spec_encoding_name(v.encoding),
                Field::Optional(n, v) => r@ == n@ + ": "@ + body_text(v@) && (body_is_utf8(v@) ==> r@ == n@
                    + ": "@ + decoded_body(v@)),
                _ => r@ == spec_field_prefix(self@.kind) + body_text(self@.data) && (body_is_utf8(self@.data) ==> r@
                    == spec_field_prefix(self@.kind) + decoded_body(self@.data)),
            },
    {
        match self {
            Field::Date(f) => {
                let mut r = String::from_str("Date: ");
                string_push_str(&mut r, f.to_string().as_str());
                r
            },
            Field::From(f) => {
                let mut r = String::from_str("From: ");
                string_push_str(&mut r, f.to_string().as_str());
                r
            },
            Field::Sender(f) => {
                let mut r = String::from_str("Sender: ");
                string_push_str(&mut r, f.to_string().as_str());
                r
            },
            Field::ReplyTo(f) => {
                let mut r = String::from_str("Reply-To: ");
                string_push_str(&mut r, f.to_string().as_str());
                r
            },
            Field::To(f) => {
                let mut r = String::from_str("To: ");
                string_push_str(&mut r, f.to_string().as_str());
                r
            },
            Field::Cc(f) => {
                let mut r = String::from_str("Cc: ");
                string_push_str(&mut r, f.to_string().as_str());
                r
            },
            Field::Bcc(f) => {
                let mut r = String::from_str("Bcc: ");
                string_push_str(&mut r, f.to_string().as_str());
                r
            },
            Field::MessageID(f) => {
                let mut r = String::from_str("Message-ID: ");
                string_push_str(&mut r, f.to_string().as_str());
                r
            },
            Field::InReplyTo(f) => {
                let mut r = String::from_str("In-Reply-To: ");
                string_push_str(&mut r, f.to_string().as_str());
                r
            },
            Field::References(f) => {
                let mut r = String::from_str("References: ");
                string_push_str(&mut r, f.to_string().as_str());
                r
            },
            Field::Subject(f) => {
                let mut r = String::from_str("Subject: ");
                string_push_str(&mut r, f.to_string().as_str());
                r
            },
            Field::Comments(f) => {
                let mut r = String::from_str("Comments: ");
                string_push_str(&mut r, f.to_string().as_str());
                r
            },
            Field::Keywords(f) => {
                let mut r = String::from_str("Keywords: ");
                string_push_str(&mut r, f.to_string().as_str());
                r
            },
            Field::ReturnPath(f) => {
                let mut r = String::from_str("Return-Path: ");
                string_push_str(&mut r, f.to_string().as_str());
                r
            },
            Field::Received(f) => {
                let mut r = String::from_str("Received: ");
                string_push_str(&mut r, f.to_string().as_str());
                r
            },
            Field::ResentDate(f) => {
                let mut r = String::from_str("Resent-Date: ");
                string_push_str(&mut r, f.to_string().as_str());
                r
            },
            Field::ResentFrom(f) => {
                let mut r = String::from_str("Resent-From: ");
                string_push_str(&mut r, f.to_string().as_str());
                r
            },
            Field::ResentSender(f) => {
                let mut r = String::from_str("Resent-Sender: ");
                string_push_str(&mut r, f.to_string().as_str());
                r
            },
            Field::ResentTo(f) => {
                let mut r = String::from_str("Resent-To: ");
                string_push_str(&mut r, f.to_string().as_str());
                r
            },
            Field::ResentCc(f) => {
                let mut r = String::from_str("Resent-Cc: ");
                string_push_str(&mut r, f.to_string().as_str());
                r
            },
            Field::ResentBcc(f) => {
                let mut r = String::from_str("Resent-Bcc: ");
                string_push_str(&mut r, f.to_string().as_str());
                r
            },
            Field::ResentReplyTo(f) => {
                let mut r = String::from_str("Resent-Reply-To: ");
                string_push_str(&mut r, f.to_string().as_str());
                r
            },
            Field::ResentMessageID(f) => {
                let mut r = String::from_str("Resent-Message-ID: ");
                string_push_str(&mut r, f.to_string().as_str());
                r
            },
            Field::ContentID(f) => {
                let mut r = String::from_str("Content-ID: ");
                string_push_str(&mut r, f.to_string().as_str());
                r
            },
            Field::ContentDescription(f) => {
                let mut r = String::from_str("Content-Description: ");
                string_push_str(&mut r, f.to_string().as_str());
                r
            },
            Field::MIMEVersion(v) => {
                let mut r = String::from_str("MIME-Version: ");
                string_push_str(&mut r, decimal_string(v.top_version).as_str());
                string_push_str(&mut r, ".");
                string_push_str(&mut r, decimal_string(v.sub_version).as_str());
                r
            },
            Field::ContentType(v) => {
                let mut r = String::from_str("Content-Type: ");
                string_push_str(&mut r, v.top_level.to_string().as_str());
                string_push_str(&mut r, "/");
                string_push_str(&mut r, v.sub_level.to_string().as_str());
                r
            },
            Field::ContentTransferEncoding(v) => {
                let mut r = String::from_str("Content-Transfer-Encoding: ");
                string_push_str(&mut r, v.encoding.to_string().as_str());
                r
            },
            Field::Optional(n, v) => {
                let mut r = n.clone();
                string_push_str(&mut r, ": ");
                string_push_str(&mut r, v.to_string().as_str());
                r
            },
        }
    }
}

} // verus!
